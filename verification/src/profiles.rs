//! The profiles: one calibration for each file, in the order of their paths.

use crate::calibration::MicroscopeRatio;
use crate::path::{
    components, law_path_order_is_total, law_path_order_is_transitive, path_before, Component, Placing,
    ProfilePath,
};
use vstd::prelude::*;

verus! {

/// A profile file and what it holds.
#[derive(Debug)]
pub struct Profile {
    pub path: ProfilePath,
    pub ratio: MicroscopeRatio,
}

/// The known profiles.
#[derive(Debug)]
pub struct Profiles {
    entries: Vec<Profile>,
}

/// The text of a path and what the profile holds, in the order of the paths.
pub type ProfileRows = Seq<(Seq<char>, MicroscopeRatio)>;

impl View for Profiles {
    type V = ProfileRows;

    closed spec fn view(&self) -> ProfileRows {
        Seq::new(self.entries@.len(), |i: int| (self.entries@[i].path@, self.entries@[i].ratio))
    }
}

/// What makes up the path of a row.
pub open spec fn row_path(rows: ProfileRows, i: int) -> Seq<Component> {
    components(rows[i].0)
}

/// Each path comes before the next, so none occurs twice.
pub open spec fn rows_ordered(rows: ProfileRows) -> bool {
    forall|i: int, j: int|
        #![trigger row_path(rows, i), row_path(rows, j)]
        0 <= i < j < rows.len() ==> path_before(row_path(rows, i), row_path(rows, j))
}

/// The profile of path `path` is in row `i`.
pub open spec fn row_of(rows: ProfileRows, path: Seq<Component>, i: int) -> bool {
    0 <= i < rows.len() && row_path(rows, i) == path
}

/// What the profile of each path holds.
pub open spec fn profile_map(rows: ProfileRows) -> Map<Seq<Component>, MicroscopeRatio> {
    Map::new(
        |path: Seq<Component>| exists|i: int| row_of(rows, path, i),
        |path: Seq<Component>| rows[choose|i: int| row_of(rows, path, i)].1,
    )
}

/// What the map holds for the path of a row is what the row holds.
pub proof fn lemma_row_is_mapped(rows: ProfileRows, i: int)
    requires
        rows_ordered(rows),
        0 <= i < rows.len(),
    ensures
        profile_map(rows).contains_key(row_path(rows, i)),
        profile_map(rows)[row_path(rows, i)] == rows[i].1,
{
    let path = row_path(rows, i);
    assert(row_of(rows, path, i));
    let k = choose|k: int| row_of(rows, path, k);
    law_path_order_is_total(path, path);
    if k < i {
        assert(path_before(row_path(rows, k), row_path(rows, i)));
    } else if i < k {
        assert(path_before(row_path(rows, i), row_path(rows, k)));
    }
}

/// Row `i` with its value replaced.
pub open spec fn row_replaced(
    rows: ProfileRows,
    i: int,
    ratio: MicroscopeRatio,
) -> ProfileRows {
    rows.update(i, (rows[i].0, ratio))
}

/// The number of rows at the start whose paths come before `path`.
pub open spec fn rows_before(rows: ProfileRows, path: Seq<Component>) -> nat
    decreases rows.len(),
{
    if rows.len() > 0 && path_before(row_path(rows, 0), path) {
        1 + rows_before(rows.skip(1), path)
    } else {
        0
    }
}

/// The rows once the profile of the path with this text holds `ratio`. A profile that is there
/// keeps its row and the text of its path; a new one gets the row that its path asks for.
pub open spec fn rows_with(rows: ProfileRows, text: Seq<char>, ratio: MicroscopeRatio) -> ProfileRows {
    let i = rows_before(rows, components(text)) as int;
    if row_of(rows, components(text), i) {
        row_replaced(rows, i, ratio)
    } else {
        rows.insert(i, (text, ratio))
    }
}

proof fn lemma_rows_before(rows: ProfileRows, path: Seq<Component>, i: int)
    requires
        0 <= i <= rows.len(),
        forall|k: int| 0 <= k < i ==> path_before(#[trigger] row_path(rows, k), path),
        i < rows.len() ==> !path_before(row_path(rows, i), path),
    ensures
        rows_before(rows, path) == i,
    decreases i,
{
    if i > 0 {
        assert(path_before(row_path(rows, 0), path));
        let rest = rows.skip(1);
        assert forall|k: int| 0 <= k < i - 1 implies path_before(
            #[trigger] row_path(rest, k),
            path,
        ) by {
            assert(row_path(rest, k) == row_path(rows, k + 1));
        }
        assert(i < rows.len() ==> row_path(rest, i - 1) == row_path(rows, i));
        lemma_rows_before(rest, path, i - 1);
    }
}

proof fn lemma_rows_before_bounds(rows: ProfileRows, path: Seq<Component>)
    ensures
        ({
            let i = rows_before(rows, path);
            &&& i <= rows.len()
            &&& forall|k: int| 0 <= k < i ==> path_before(#[trigger] row_path(rows, k), path)
            &&& i < rows.len() ==> !path_before(row_path(rows, i as int), path)
        }),
    decreases rows.len(),
{
    if rows.len() > 0 && path_before(row_path(rows, 0), path) {
        let rest = rows.skip(1);
        let i = rows_before(rows, path);
        lemma_rows_before_bounds(rest, path);
        assert forall|k: int| 0 <= k < i implies path_before(#[trigger] row_path(rows, k), path) by {
            if k > 0 {
                assert(row_path(rest, k - 1) == row_path(rows, k));
            }
        }
        assert(i < rows.len() ==> row_path(rest, i - 1) == row_path(rows, i as int));
    }
}

/// Setting what a profile holds keeps the rows in order, and changes what is held for its path and
/// for no other.
pub proof fn law_setting_changes_one_profile(
    rows: ProfileRows,
    text: Seq<char>,
    ratio: MicroscopeRatio,
)
    requires
        rows_ordered(rows),
    ensures
        rows_ordered(rows_with(rows, text, ratio)),
        profile_map(rows_with(rows, text, ratio)) == profile_map(rows).insert(
            components(text),
            ratio,
        ),
{
    let key = components(text);
    let i = rows_before(rows, key) as int;
    lemma_rows_before_bounds(rows, key);
    if row_of(rows, key, i) {
        lemma_replace_row(rows, i, ratio);
    } else {
        if i < rows.len() {
            law_path_order_is_total(row_path(rows, i), key);
        }
        lemma_insert_row(rows, i, text, ratio);
    }
}

proof fn lemma_replace_row(rows: ProfileRows, i: int, ratio: MicroscopeRatio)
    requires
        rows_ordered(rows),
        0 <= i < rows.len(),
    ensures
        rows_ordered(row_replaced(rows, i, ratio)),
        profile_map(row_replaced(rows, i, ratio)) == profile_map(rows).insert(
            row_path(rows, i),
            ratio,
        ),
{
    let new = row_replaced(rows, i, ratio);
    let path = row_path(rows, i);
    assert forall|k: int| 0 <= k < rows.len() implies row_path(new, k) == #[trigger] row_path(
        rows,
        k,
    ) by {}
    assert(rows_ordered(new)) by {
        assert forall|k: int, l: int|
            #![trigger row_path(new, k), row_path(new, l)]
            0 <= k < l < new.len() implies path_before(row_path(new, k), row_path(new, l)) by {
            assert(path_before(row_path(rows, k), row_path(rows, l)));
        }
    }
    let m = profile_map(new);
    let want = profile_map(rows).insert(path, ratio);
    assert forall|p: Seq<Component>| m.contains_key(p) == want.contains_key(p) by {
        if m.contains_key(p) {
            let k = choose|k: int| row_of(new, p, k);
            assert(row_of(rows, p, k));
        }
        if want.contains_key(p) {
            if p == path {
                assert(row_of(new, p, i));
            } else {
                let k = choose|k: int| row_of(rows, p, k);
                assert(row_of(new, p, k));
            }
        }
    }
    assert forall|p: Seq<Component>| #[trigger] m.contains_key(p) implies m[p] == want[p] by {
        let k = choose|k: int| row_of(new, p, k);
        assert(row_path(new, k) == p);
        lemma_row_is_mapped(new, k);
        lemma_row_is_mapped(rows, k);
        assert(row_path(rows, k) == p);
        if k != i && p == path {
            law_path_order_is_total(p, p);
            lemma_row_is_mapped(rows, i);
            if k < i {
                assert(path_before(row_path(rows, k), row_path(rows, i)));
            } else {
                assert(path_before(row_path(rows, i), row_path(rows, k)));
            }
        }
    }
    assert(m =~= want);
}

proof fn lemma_insert_row(rows: ProfileRows, i: int, path: Seq<char>, ratio: MicroscopeRatio)
    requires
        rows_ordered(rows),
        0 <= i <= rows.len(),
        forall|k: int|
            0 <= k < i ==> path_before(#[trigger] row_path(rows, k), components(path)),
        i < rows.len() ==> path_before(components(path), row_path(rows, i)),
    ensures
        rows_ordered(rows.insert(i, (path, ratio))),
        profile_map(rows.insert(i, (path, ratio))) == profile_map(rows).insert(
            components(path),
            ratio,
        ),
{
    let new = rows.insert(i, (path, ratio));
    let key = components(path);
    assert forall|k: int| i <= k < rows.len() implies path_before(key, #[trigger] row_path(rows, k)) by {
        if k > i {
            assert(path_before(row_path(rows, i), row_path(rows, k)));
            law_path_order_is_transitive(key, row_path(rows, i), row_path(rows, k));
        }
    }
    assert forall|k: int| 0 <= k < i implies #[trigger] row_path(new, k) == row_path(rows, k) by {}
    assert(row_path(new, i) == key);
    assert forall|k: int| i < k < new.len() implies #[trigger] row_path(new, k) == row_path(
        rows,
        k - 1,
    ) by {}
    assert(rows_ordered(new)) by {
        assert forall|k: int, l: int|
            #![trigger row_path(new, k), row_path(new, l)]
            0 <= k < l < new.len() implies path_before(row_path(new, k), row_path(new, l)) by {
            let a = if k < i {
                k
            } else {
                k - 1
            };
            let b = if l < i {
                l
            } else {
                l - 1
            };
            if k != i && l != i {
                assert(path_before(row_path(rows, a), row_path(rows, b)));
            } else if k == i {
                assert(path_before(key, row_path(rows, b)));
            } else {
                assert(path_before(row_path(rows, a), key));
            }
        }
    }
    let m = profile_map(new);
    let want = profile_map(rows).insert(key, ratio);
    assert forall|p: Seq<Component>| m.contains_key(p) == want.contains_key(p) by {
        if m.contains_key(p) {
            let k = choose|k: int| row_of(new, p, k);
            if k < i {
                assert(row_of(rows, p, k));
            } else if k > i {
                assert(row_of(rows, p, k - 1));
            }
        }
        if want.contains_key(p) {
            if p == key {
                assert(row_of(new, p, i));
            } else {
                let k = choose|k: int| row_of(rows, p, k);
                if k < i {
                    assert(row_of(new, p, k));
                } else {
                    assert(row_path(new, k + 1) == row_path(rows, k));
                    assert(row_of(new, p, k + 1));
                }
            }
        }
    }
    assert forall|p: Seq<Component>| #[trigger] m.contains_key(p) implies m[p] == want[p] by {
        let k = choose|k: int| row_of(new, p, k);
        lemma_row_is_mapped(new, k);
        law_path_order_is_total(key, key);
        if k == i {
        } else {
            let old_k = if k < i {
                k
            } else {
                k - 1
            };
            assert(row_path(rows, old_k) == p);
            lemma_row_is_mapped(rows, old_k);
            assert(p != key);
        }
    }
    assert(m =~= want);
}

/// A profile is known where a row has its path, and holds what that row holds.
pub proof fn law_profile_is_in_a_row(rows: ProfileRows, path: Seq<Component>, i: int)
    requires
        rows_ordered(rows),
    ensures
        profile_map(rows).contains_key(path) <==> exists|k: int|
            0 <= k < rows.len() && components((#[trigger] rows[k]).0) == path,
        0 <= i < rows.len() && components(rows[i].0) == path ==> profile_map(rows)[path]
            == rows[i].1,
{
    if profile_map(rows).contains_key(path) {
        let k = choose|k: int| row_of(rows, path, k);
        assert(components(rows[k].0) == path);
    }
    if exists|k: int| 0 <= k < rows.len() && components((#[trigger] rows[k]).0) == path {
        let k = choose|k: int| 0 <= k < rows.len() && components((#[trigger] rows[k]).0) == path;
        assert(row_of(rows, path, k));
    }
    if 0 <= i < rows.len() && components(rows[i].0) == path {
        lemma_row_is_mapped(rows, i);
    }
}

/// The rows are in the order of their paths, so no two of them have the same path.
pub proof fn law_rows_follow_their_paths(rows: ProfileRows, i: int, j: int)
    requires
        rows_ordered(rows),
        0 <= i < j < rows.len(),
    ensures
        path_before(components(rows[i].0), components(rows[j].0)),
        components(rows[i].0) != components(rows[j].0),
{
    assert(path_before(row_path(rows, i), row_path(rows, j)));
    law_path_order_is_total(row_path(rows, i), row_path(rows, j));
}

/// Setting a profile that is there changes its number and nothing else: neither the text of a path
/// nor another row.
pub proof fn law_setting_a_known_profile(
    rows: ProfileRows,
    text: Seq<char>,
    ratio: MicroscopeRatio,
    i: int,
    k: int,
)
    requires
        rows_ordered(rows),
        0 <= i < rows.len(),
        components(rows[i].0) == components(text),
        0 <= k < rows.len(),
    ensures
        rows_with(rows, text, ratio).len() == rows.len(),
        rows_with(rows, text, ratio)[k].0 == rows[k].0,
        rows_with(rows, text, ratio)[k].1 == if k == i {
            ratio
        } else {
            rows[k].1
        },
{
    let key = components(text);
    assert forall|l: int| 0 <= l < i implies path_before(#[trigger] row_path(rows, l), key) by {
        assert(path_before(row_path(rows, l), row_path(rows, i)));
    }
    law_path_order_is_total(row_path(rows, i), key);
    lemma_rows_before(rows, key, i);
    assert(row_of(rows, key, i));
}

/// Setting a profile that is not there adds one row with the text of its path, and keeps all others.
pub proof fn law_setting_a_new_profile(rows: ProfileRows, text: Seq<char>, ratio: MicroscopeRatio)
    requires
        rows_ordered(rows),
        forall|i: int| 0 <= i < rows.len() ==> components((#[trigger] rows[i]).0) != components(text),
    ensures
        rows_ordered(rows_with(rows, text, ratio)),
        exists|i: int|
            {
                &&& 0 <= i < rows_with(rows, text, ratio).len()
                &&& #[trigger] rows_with(rows, text, ratio)[i] == (text, ratio)
                &&& rows_with(rows, text, ratio).remove(i) == rows
            },
{
    let key = components(text);
    let i = rows_before(rows, key) as int;
    let next = rows_with(rows, text, ratio);
    lemma_rows_before_bounds(rows, key);
    law_setting_changes_one_profile(rows, text, ratio);
    assert(!row_of(rows, key, i));
    assert(next == rows.insert(i, (text, ratio)));
    assert(next[i] == (text, ratio));
    assert(next.remove(i) =~= rows);
}

impl Profiles {
    /// Whether the rows are in the order of their paths.
    pub open spec fn wf(self) -> bool {
        rows_ordered(self@)
    }

    /// What the profile of each path holds.
    pub open spec fn map(self) -> Map<Seq<Component>, MicroscopeRatio> {
        profile_map(self@)
    }

    /// No profiles.
    pub fn new() -> (profiles: Profiles)
        ensures
            profiles.wf(),
            profiles@ == ProfileRows::empty(),
            profiles.map() == Map::<Seq<Component>, MicroscopeRatio>::empty(),
    {
        let profiles = Profiles { entries: Vec::new() };
        proof {
            assert(profiles@ =~= ProfileRows::empty());
            assert(profiles.map() =~= Map::<Seq<Component>, MicroscopeRatio>::empty()) by {
                assert forall|p: Seq<Component>| !profiles.map().contains_key(p) by {
                    if exists|i: int| row_of(profiles@, p, i) {
                        let i = choose|i: int| row_of(profiles@, p, i);
                        assert(row_of(profiles@, p, i));
                    }
                }
            }
        }
        profiles
    }

    /// The number of profiles.
    pub fn len(&self) -> (n: usize)
        ensures
            n == self@.len(),
    {
        self.entries.len()
    }

    /// The path of the profile in row `i`.
    pub fn path_at(&self, i: usize) -> (path: &ProfilePath)
        requires
            i < self@.len(),
        ensures
            path@ == self@[i as int].0,
    {
        &self.entries[i].path
    }

    /// The first row whose path does not come before `path`.
    fn seek(&self, path: &ProfilePath) -> (r: (usize, bool))
        requires
            self.wf(),
        ensures
            r.0 <= self@.len(),
            forall|k: int|
                0 <= k < r.0 ==> path_before(#[trigger] row_path(self@, k), components(path@)),
            r.1 ==> r.0 < self@.len() && row_path(self@, r.0 as int) == components(path@),
            !r.1 && r.0 < self@.len() ==> path_before(
                components(path@),
                row_path(self@, r.0 as int),
            ),
    {
        let mut i: usize = 0;
        while i < self.entries.len()
            invariant
                i <= self.entries.len(),
                self@.len() == self.entries.len(),
                forall|k: int|
                    0 <= k < i ==> path_before(#[trigger] row_path(self@, k), components(path@)),
            decreases self.entries.len() - i,
        {
            assert(self@[i as int].0 == self.entries@[i as int].path@);
            proof {
                law_path_order_is_total(row_path(self@, i as int), components(path@));
            }
            match self.entries[i].path.place(path) {
                Placing::Before => {},
                Placing::Same => {
                    return (i, true);
                },
                Placing::Behind => {
                    return (i, false);
                },
            }
            i = i + 1;
        }
        (i, false)
    }

    /// What the profile of `path` holds.
    pub fn get(&self, path: &ProfilePath) -> (r: Option<MicroscopeRatio>)
        requires
            self.wf(),
        ensures
            r is Some <==> self.map().contains_key(components(path@)),
            r matches Some(ratio) ==> ratio == self.map()[components(path@)],
    {
        let (i, found) = self.seek(path);
        if found {
            proof {
                lemma_row_is_mapped(self@, i as int);
            }
            Some(self.entries[i].ratio)
        } else {
            proof {
                let key = components(path@);
                if self.map().contains_key(key) {
                    let k = choose|k: int| row_of(self@, key, k);
                    assert(row_of(self@, key, k));
                    law_path_order_is_total(key, key);
                    if k >= i {
                        law_path_order_is_total(key, row_path(self@, k));
                        if k > i {
                            assert(path_before(row_path(self@, i as int), row_path(self@, k)));
                            law_path_order_is_transitive(
                                key,
                                row_path(self@, i as int),
                                row_path(self@, k),
                            );
                        }
                    }
                }
            }
            None
        }
    }

    /// Sets what the profile of `path` holds. A profile that is there keeps its row and the text
    /// of its path; a new one gets the row that its path asks for.
    pub fn insert(&mut self, path: ProfilePath, ratio: MicroscopeRatio)
        requires
            old(self).wf(),
        ensures
            final(self).wf(),
            final(self)@ == rows_with(old(self)@, path@, ratio),
            final(self).map() == old(self).map().insert(components(path@), ratio),
    {
        let (i, found) = self.seek(&path);
        let ghost rows = self@;
        let ghost text = path@;
        proof {
            let key = components(text);
            if i < rows.len() {
                law_path_order_is_total(row_path(rows, i as int), key);
            }
            lemma_rows_before(rows, key, i as int);
            law_setting_changes_one_profile(rows, text, ratio);
        }
        if found {
            self.entries[i].ratio = ratio;
            assert(self@ =~= row_replaced(rows, i as int, ratio));
        } else {
            self.entries.insert(i, Profile { path, ratio });
            assert(self@ =~= rows.insert(i as int, (text, ratio)));
        }
    }
}

} // verus!
