//! Choosing the GPU.

use crate::text::{
    contains_chars, lowered, lowered_chars, occurs_in, same_but_for_case, same_text,
};
use vstd::prelude::*;
use vstd::string::*;

verus! {

/// A GPU that is offered.
#[derive(Debug)]
pub struct AdapterInfo {
    pub name: String,
    /// It shares memory with the processor.
    pub integrated: bool,
}

/// Whether the setting asks for Vulkan alone: it is `1`, or `true` in any case.
pub fn wants_vulkan_only(setting: Option<&String>) -> (r: bool)
    ensures
        r == match setting {
            Some(s) => s@ == "1"@ || lowered(s@) == lowered("true"@),
            None => false,
        },
{
    match setting {
        Some(s) => same_text(s.as_str(), "1") || same_but_for_case(s.as_str(), "true"),
        None => false,
    }
}

/// The GPU's name holds what was asked for, in any case.
pub open spec fn name_matches(adapter: AdapterInfo, requested: Seq<char>) -> bool {
    occurs_in(lowered(requested), lowered(adapter.name@))
}

/// The first GPU whose name holds what was asked for.
pub open spec fn first_match(adapters: Seq<AdapterInfo>, requested: Seq<char>, i: int) -> bool {
    &&& 0 <= i < adapters.len()
    &&& name_matches(adapters[i], requested)
    &&& forall|k: int| 0 <= k < i ==> !name_matches(#[trigger] adapters[k], requested)
}

/// The first integrated GPU, or the first of all where none is.
pub open spec fn default_choice(adapters: Seq<AdapterInfo>, i: int) -> bool {
    &&& 0 <= i < adapters.len()
    &&& if adapters[i].integrated {
        forall|k: int| 0 <= k < i ==> !(#[trigger] adapters[k]).integrated
    } else {
        i == 0 && forall|k: int| 0 <= k < adapters.len() ==> !(#[trigger] adapters[k]).integrated
    }
}

fn find_named(adapters: &Vec<AdapterInfo>, requested: &String) -> (r: Option<usize>)
    ensures
        match r {
            Some(i) => first_match(adapters@, requested@, i as int),
            None => forall|k: int|
                0 <= k < adapters.len() ==> !name_matches(#[trigger] adapters@[k], requested@),
        },
{
    let wanted = lowered_chars(requested.as_str());
    let mut i: usize = 0;
    while i < adapters.len()
        invariant
            i <= adapters.len(),
            wanted@ == lowered(requested@),
            forall|k: int| 0 <= k < i ==> !name_matches(#[trigger] adapters@[k], requested@),
        decreases adapters.len() - i,
    {
        let name = lowered_chars(adapters[i].name.as_str());
        if contains_chars(&name, &wanted) {
            return Some(i);
        }
        i = i + 1;
    }
    None
}

fn find_default(adapters: &Vec<AdapterInfo>) -> (r: Option<usize>)
    ensures
        match r {
            Some(i) => default_choice(adapters@, i as int),
            None => adapters@.len() == 0,
        },
{
    let mut i: usize = 0;
    while i < adapters.len()
        invariant
            i <= adapters.len(),
            forall|k: int| 0 <= k < i ==> !(#[trigger] adapters@[k]).integrated,
        decreases adapters.len() - i,
    {
        if adapters[i].integrated {
            return Some(i);
        }
        i = i + 1;
    }
    if adapters.len() == 0 {
        None
    } else {
        Some(0)
    }
}

/// The GPU to use: the one that was asked for, or an integrated one by preference.
pub fn choose_adapter(adapters: &Vec<AdapterInfo>, requested: Option<&String>) -> (r: Result<
    usize,
    String,
>)
    ensures
        match requested {
            Some(name) => match r {
                Ok(i) => first_match(adapters@, name@, i as int),
                Err(e) => e@ == "VID_UVC_GPU did not match an adapter: "@ + name@ && forall|k: int|
                    0 <= k < adapters.len() ==> !name_matches(#[trigger] adapters@[k], name@),
            },
            None => match r {
                Ok(i) => default_choice(adapters@, i as int),
                Err(e) => e@ == "wgpu did not expose any adapters"@ && adapters@.len() == 0,
            },
        },
{
    match requested {
        Some(name) => match find_named(adapters, name) {
            Some(i) => Ok(i),
            None => {
                let mut e = "VID_UVC_GPU did not match an adapter: ".to_owned();
                e.append(name.as_str());
                Err(e)
            },
        },
        None => match find_default(adapters) {
            Some(i) => Ok(i),
            None => Err("wgpu did not expose any adapters".to_owned()),
        },
    }
}

/// A GPU matches a request where its name, in lower case, is made of something, the request in lower
/// case, and something.
pub proof fn law_request_is_part_of_the_name(adapter: AdapterInfo, requested: Seq<char>)
    ensures
        name_matches(adapter, requested) <==> exists|a: Seq<char>, b: Seq<char>|
            lowered(adapter.name@) == #[trigger] ((a + lowered(requested)) + b),
{
    crate::text::law_occurrence_splits_the_text(lowered(requested), lowered(adapter.name@));
}

/// The GPU that is chosen for a request matches it, and none before it does.
pub proof fn law_first_matching_gpu_is_chosen(
    adapters: Seq<AdapterInfo>,
    requested: Seq<char>,
    i: int,
    k: int,
)
    requires
        first_match(adapters, requested, i),
        0 <= k < adapters.len(),
        exists|a: Seq<char>, b: Seq<char>|
            lowered(adapters[k].name@) == #[trigger] ((a + lowered(requested)) + b),
    ensures
        0 <= i <= k,
        exists|a: Seq<char>, b: Seq<char>|
            lowered(adapters[i].name@) == #[trigger] ((a + lowered(requested)) + b),
{
    law_request_is_part_of_the_name(adapters[i], requested);
    law_request_is_part_of_the_name(adapters[k], requested);
}

/// Without a request an integrated GPU is chosen where there is one, the first of them, and the first
/// GPU otherwise.
pub proof fn law_integrated_gpu_is_preferred(adapters: Seq<AdapterInfo>, i: int, k: int)
    requires
        default_choice(adapters, i),
        0 <= k < adapters.len(),
    ensures
        0 <= i < adapters.len(),
        adapters[k].integrated ==> adapters[i].integrated && i <= k,
        !adapters[i].integrated ==> i == 0,
{
}

/// The case in which a GPU is asked for does not matter.
pub proof fn law_request_ignores_case(adapter: AdapterInfo, a: Seq<char>, b: Seq<char>)
    requires
        lowered(a) == lowered(b),
    ensures
        name_matches(adapter, a) == name_matches(adapter, b),
{
}

} // verus!
