//! Calibration: how many micrometres a pixel spans at each magnification.

use crate::binary::{Real32, Real64};
use crate::text::same_text;
use vstd::prelude::*;
use vstd::string::*;

verus! {

/// What the camera looks through.
#[derive(Clone, Copy, Debug, PartialEq, Eq, Structural)]
pub enum Magnification {
    X4,
    X10,
    X40,
    X100,
    Mm4,
}

/// The caption of a magnification's button.
pub open spec fn caption(m: Magnification) -> Seq<char> {
    match m {
        Magnification::X4 => "4x 1mm"@,
        Magnification::X10 => "10x 0.7mm"@,
        Magnification::X40 => "40x 0.15mm"@,
        Magnification::X100 => "100X 0.05mm"@,
        Magnification::Mm4 => "4mm"@,
    }
}

/// The length of the target that a magnification is calibrated with, in micrometres.
pub open spec fn target_length(m: Magnification) -> nat {
    match m {
        Magnification::X4 => 1000,
        Magnification::X10 => 700,
        Magnification::X40 => 150,
        Magnification::X100 => 50,
        Magnification::Mm4 => 4000,
    }
}

/// The name of a magnification in a profile.
pub open spec fn key_name(m: Magnification) -> Seq<char> {
    match m {
        Magnification::X4 => "X4"@,
        Magnification::X10 => "X10"@,
        Magnification::X40 => "X40"@,
        Magnification::X100 => "X100"@,
        Magnification::Mm4 => "Mm4"@,
    }
}

/// The magnification with a given name.
pub open spec fn named(name: Seq<char>) -> Option<Magnification> {
    if name == "X4"@ {
        Some(Magnification::X4)
    } else if name == "X10"@ {
        Some(Magnification::X10)
    } else if name == "X40"@ {
        Some(Magnification::X40)
    } else if name == "X100"@ {
        Some(Magnification::X100)
    } else if name == "Mm4"@ {
        Some(Magnification::Mm4)
    } else {
        None
    }
}

/// A name belongs to one magnification only, and each magnification is found by its name.
pub proof fn law_names_are_distinct(m: Magnification, name: Seq<char>)
    ensures
        named(key_name(m)) == Some(m),
        named(name) == Some(m) <==> name == key_name(m),
{
    reveal_strlit("X4");
    reveal_strlit("X10");
    reveal_strlit("X40");
    reveal_strlit("X100");
    reveal_strlit("Mm4");
    assert("X4"@.len() == 2 && "X10"@.len() == 3 && "X40"@.len() == 3 && "X100"@.len() == 4
        && "Mm4"@.len() == 3);
    assert("X10"@[1] == '1');
    assert("X40"@[1] == '4');
    assert("Mm4"@[1] == 'm');
}

impl Magnification {
    /// The caption of the magnification's button.
    pub fn button_text(self) -> (r: &'static str)
        ensures
            r@ == caption(self),
    {
        match self {
            Magnification::X4 => "4x 1mm",
            Magnification::X10 => "10x 0.7mm",
            Magnification::X40 => "40x 0.15mm",
            Magnification::X100 => "100X 0.05mm",
            Magnification::Mm4 => "4mm",
        }
    }

    /// The length of the calibration target, in micrometres.
    pub fn default_cal_len(&self) -> (r: u32)
        ensures
            r == target_length(*self),
    {
        match self {
            Magnification::X4 => 1000,
            Magnification::X10 => 700,
            Magnification::X40 => 150,
            Magnification::X100 => 50,
            Magnification::Mm4 => 4000,
        }
    }

    /// The name of the magnification in a profile.
    pub fn key(self) -> (r: &'static str)
        ensures
            r@ == key_name(self),
    {
        match self {
            Magnification::X4 => "X4",
            Magnification::X10 => "X10",
            Magnification::X40 => "X40",
            Magnification::X100 => "X100",
            Magnification::Mm4 => "Mm4",
        }
    }

    /// The magnification with a given name.
    pub fn from_key(name: &str) -> (r: Option<Magnification>)
        ensures
            r == named(name@),
    {
        if same_text(name, "X4") {
            Some(Magnification::X4)
        } else if same_text(name, "X10") {
            Some(Magnification::X10)
        } else if same_text(name, "X40") {
            Some(Magnification::X40)
        } else if same_text(name, "X100") {
            Some(Magnification::X100)
        } else if same_text(name, "Mm4") {
            Some(Magnification::Mm4)
        } else {
            None
        }
    }
}

/// One number for each magnification.
#[derive(Clone, Copy, Debug, PartialEq, Eq, Structural)]
pub struct PerMagnification {
    pub x4: Real64,
    pub x10: Real64,
    pub x40: Real64,
    pub x100: Real64,
    pub mm4: Real64,
}

impl PerMagnification {
    /// The number of a magnification.
    pub open spec fn at(self, m: Magnification) -> Real64 {
        match m {
            Magnification::X4 => self.x4,
            Magnification::X10 => self.x10,
            Magnification::X40 => self.x40,
            Magnification::X100 => self.x100,
            Magnification::Mm4 => self.mm4,
        }
    }

    /// The numbers with that of one magnification replaced.
    pub open spec fn with(self, m: Magnification, value: Real64) -> PerMagnification {
        match m {
            Magnification::X4 => PerMagnification { x4: value, ..self },
            Magnification::X10 => PerMagnification { x10: value, ..self },
            Magnification::X40 => PerMagnification { x40: value, ..self },
            Magnification::X100 => PerMagnification { x100: value, ..self },
            Magnification::Mm4 => PerMagnification { mm4: value, ..self },
        }
    }

    /// Zero for each magnification.
    pub open spec fn zeros() -> PerMagnification {
        PerMagnification {
            x4: Real64::zero(),
            x10: Real64::zero(),
            x40: Real64::zero(),
            x100: Real64::zero(),
            mm4: Real64::zero(),
        }
    }

    /// The number of a magnification.
    pub fn get(&self, m: Magnification) -> (r: Real64)
        ensures
            r == self.at(m),
    {
        match m {
            Magnification::X4 => self.x4,
            Magnification::X10 => self.x10,
            Magnification::X40 => self.x40,
            Magnification::X100 => self.x100,
            Magnification::Mm4 => self.mm4,
        }
    }

    /// Replaces the number of one magnification.
    pub fn set(&mut self, m: Magnification, value: Real64)
        ensures
            *final(self) == old(self).with(m, value),
    {
        match m {
            Magnification::X4 => {
                self.x4 = value;
            },
            Magnification::X10 => {
                self.x10 = value;
            },
            Magnification::X40 => {
                self.x40 = value;
            },
            Magnification::X100 => {
                self.x100 = value;
            },
            Magnification::Mm4 => {
                self.mm4 = value;
            },
        }
    }
}

/// What is set is found again, and nothing else changes.
pub proof fn law_set_then_get(p: PerMagnification, m: Magnification, value: Real64, n: Magnification)
    ensures
        p.with(m, value).at(n) == if n == m {
            value
        } else {
            p.at(n)
        },
{
}

/// A calibration as a profile keeps it.
#[derive(Clone, Copy, Debug, PartialEq, Eq, Structural)]
pub struct MicroscopeRatio {
    /// Micrometres per pixel.
    pub map: PerMagnification,
    /// Rotation of the picture, in radians.
    pub rotation_angle: Real32,
}

impl Default for MicroscopeRatio {
    /// Nothing calibrated, no rotation.
    fn default() -> (r: MicroscopeRatio)
        ensures
            r.map == PerMagnification::zeros(),
            r.rotation_angle == Real32::zero(),
    {
        let zero = Real64 { bits: 0 };
        MicroscopeRatio {
            map: PerMagnification { x4: zero, x10: zero, x40: zero, x100: zero, mm4: zero },
            rotation_angle: Real32 { bits: 0 },
        }
    }
}

/// A profile names a magnification that there is not.
#[derive(Clone, Debug)]
pub struct UnknownKey {
    pub name: String,
}

impl UnknownKey {
    /// What to tell the user.
    pub fn message(&self) -> (s: String)
        ensures
            s@ == "unknown calibration key "@ + self.name@,
    {
        let mut s = "unknown calibration key ".to_owned();
        s.append(self.name.as_str());
        s
    }
}

/// What the entries of a profile hold.
pub open spec fn entries_view(entries: Seq<(String, Real64)>) -> Seq<(Seq<char>, Real64)> {
    Seq::new(entries.len(), |i: int| (entries[i].0@, entries[i].1))
}

/// The first name that no magnification has.
pub open spec fn first_unknown(entries: Seq<(Seq<char>, Real64)>) -> Option<Seq<char>>
    decreases entries.len(),
{
    if entries.len() == 0 {
        None
    } else if named(entries[0].0) is None {
        Some(entries[0].0)
    } else {
        first_unknown(entries.skip(1))
    }
}

/// The numbers that remain when each entry in turn replaces that of its magnification.
pub open spec fn assigned(entries: Seq<(Seq<char>, Real64)>) -> PerMagnification
    decreases entries.len(),
{
    if entries.len() == 0 {
        PerMagnification::zeros()
    } else {
        match named(entries.last().0) {
            Some(m) => assigned(entries.drop_last()).with(m, entries.last().1),
            None => assigned(entries.drop_last()),
        }
    }
}

proof fn lemma_first_unknown(entries: Seq<(Seq<char>, Real64)>, k: int)
    requires
        0 <= k <= entries.len(),
        forall|i: int| 0 <= i < k ==> named((#[trigger] entries[i]).0) is Some,
    ensures
        k == entries.len() ==> first_unknown(entries) is None,
        k < entries.len() && named(entries[k].0) is None ==> first_unknown(entries) == Some(
            entries[k].0,
        ),
    decreases k,
{
    if k > 0 {
        assert(named(entries[0].0) is Some);
        let rest = entries.skip(1);
        assert forall|i: int| 0 <= i < k - 1 implies named((#[trigger] rest[i]).0) is Some by {
            assert(rest[i] == entries[i + 1]);
        }
        lemma_first_unknown(rest, k - 1);
    }
}

impl MicroscopeRatio {
    /// Records that a pixel spans `ratio` micrometres at a magnification.
    pub fn calibrate(&mut self, active: Magnification, ratio: Real64)
        ensures
            *final(self) == (MicroscopeRatio {
                map: old(self).map.with(active, ratio),
                ..*old(self)
            }),
    {
        let mut map = self.map;
        map.set(active, ratio);
        self.map = map;
    }

    /// Reads the entries of a profile: a later entry for a magnification replaces an earlier one,
    /// what is not named is zero, and the first name that no magnification has is refused.
    pub fn from_entries(entries: &Vec<(String, Real64)>, rotation_angle: Real32) -> (r: Result<
        MicroscopeRatio,
        UnknownKey,
    >)
        ensures
            match r {
                Ok(ratio) => first_unknown(entries_view(entries@)) is None && ratio
                    == (MicroscopeRatio {
                    map: assigned(entries_view(entries@)),
                    rotation_angle,
                }),
                Err(e) => first_unknown(entries_view(entries@)) == Some(e.name@),
            },
    {
        let mut ratio: MicroscopeRatio = MicroscopeRatio::default();
        let ghost all = entries_view(entries@);
        let mut i: usize = 0;
        while i < entries.len()
            invariant
                i <= entries.len(),
                all == entries_view(entries@),
                ratio.map == assigned(all.take(i as int)),
                forall|j: int| 0 <= j < i ==> named((#[trigger] all[j]).0) is Some,
            decreases entries.len() - i,
        {
            let entry = &entries[i];
            assert(all[i as int].0 == entry.0@);
            proof {
                assert(all.take(i + 1).drop_last() =~= all.take(i as int));
            }
            match Magnification::from_key(entry.0.as_str()) {
                Some(m) => {
                    ratio.map.set(m, entry.1);
                },
                None => {
                    proof {
                        lemma_first_unknown(all, i as int);
                    }
                    return Err(UnknownKey { name: entry.0.clone() });
                },
            }
            i = i + 1;
        }
        proof {
            lemma_first_unknown(all, i as int);
            assert(all.take(i as int) =~= all);
        }
        ratio.rotation_angle = rotation_angle;
        Ok(ratio)
    }
}

/// The entries of a profile that holds these numbers.
pub open spec fn entries_of(map: PerMagnification) -> Seq<(Seq<char>, Real64)> {
    seq![
        (key_name(Magnification::X4), map.x4),
        (key_name(Magnification::X10), map.x10),
        (key_name(Magnification::X40), map.x40),
        (key_name(Magnification::X100), map.x100),
        (key_name(Magnification::Mm4), map.mm4),
    ]
}

impl MicroscopeRatio {
    /// The entries under which a profile keeps the numbers.
    pub fn to_entries(&self) -> (entries: Vec<(String, Real64)>)
        ensures
            entries_view(entries@) == entries_of(self.map),
    {
        let mut entries: Vec<(String, Real64)> = Vec::new();
        entries.push((Magnification::X4.key().to_owned(), self.map.x4));
        entries.push((Magnification::X10.key().to_owned(), self.map.x10));
        entries.push((Magnification::X40.key().to_owned(), self.map.x40));
        entries.push((Magnification::X100.key().to_owned(), self.map.x100));
        entries.push((Magnification::Mm4.key().to_owned(), self.map.mm4));
        assert(entries_view(entries@) =~= entries_of(self.map));
        entries
    }
}

/// Reading the entries that were written gives the same numbers back.
pub proof fn law_entries_round_trip(map: PerMagnification)
    ensures
        first_unknown(entries_of(map)) is None,
        assigned(entries_of(map)) == map,
{
    let e = entries_of(map);
    let x4 = Magnification::X4;
    let x10 = Magnification::X10;
    let x40 = Magnification::X40;
    let x100 = Magnification::X100;
    let mm4 = Magnification::Mm4;
    law_names_are_distinct(x4, key_name(x4));
    law_names_are_distinct(x10, key_name(x10));
    law_names_are_distinct(x40, key_name(x40));
    law_names_are_distinct(x100, key_name(x100));
    law_names_are_distinct(mm4, key_name(mm4));
    lemma_first_unknown(e, 5);
    let e4 = e.drop_last();
    let e3 = e4.drop_last();
    let e2 = e3.drop_last();
    let e1 = e2.drop_last();
    let e0 = e1.drop_last();
    assert(assigned(e0) == PerMagnification::zeros());
    assert(assigned(e1) == assigned(e0).with(x4, map.x4));
    assert(assigned(e2) == assigned(e1).with(x10, map.x10));
    assert(assigned(e3) == assigned(e2).with(x40, map.x40));
    assert(assigned(e4) == assigned(e3).with(x100, map.x100));
    assert(assigned(e) == assigned(e4).with(mm4, map.mm4));
}

/// No name occurs twice.
pub open spec fn names_differ(entries: Seq<(Seq<char>, Real64)>) -> bool {
    forall|i: int, j: int|
        #![trigger entries[i], entries[j]]
        0 <= i < j < entries.len() ==> entries[i].0 != entries[j].0
}

/// Each number that a profile holds was read from an entry with its name, and is zero where no
/// entry has that name.
pub proof fn law_numbers_come_from_entries(entries: Seq<(Seq<char>, Real64)>, m: Magnification)
    ensures
        if exists|i: int| 0 <= i < entries.len() && (#[trigger] entries[i]).0 == key_name(m) {
            entries.contains((key_name(m), assigned(entries).at(m)))
        } else {
            assigned(entries).at(m) == Real64::zero()
        },
    decreases entries.len(),
{
    if entries.len() > 0 {
        let t = entries.drop_last();
        law_numbers_come_from_entries(t, m);
        law_names_are_distinct(m, entries.last().0);
        if entries.last().0 == key_name(m) {
            assert(entries[entries.len() - 1] == (key_name(m), assigned(entries).at(m)));
        } else {
            assert(assigned(entries).at(m) == assigned(t).at(m)) by {
                match named(entries.last().0) {
                    Some(n) => {
                        law_set_then_get(assigned(t), n, entries.last().1, m);
                    },
                    None => {},
                }
            }
            if exists|i: int| 0 <= i < entries.len() && (#[trigger] entries[i]).0 == key_name(m) {
                let i = choose|i: int|
                    0 <= i < entries.len() && (#[trigger] entries[i]).0 == key_name(m);
                assert(t[i].0 == key_name(m));
                let pair = (key_name(m), assigned(t).at(m));
                let k = choose|k: int| 0 <= k < t.len() && t[k] == pair;
                assert(entries[k] == pair);
            } else {
                assert(forall|i: int| 0 <= i < t.len() ==> #[trigger] t[i] == entries[i]);
            }
        }
    }
}

/// Of several entries with the name of a magnification the last one counts.
pub proof fn law_last_entry_counts(entries: Seq<(Seq<char>, Real64)>, m: Magnification, i: int)
    requires
        0 <= i < entries.len(),
        entries[i].0 == key_name(m),
        forall|k: int| i < k < entries.len() ==> (#[trigger] entries[k]).0 != key_name(m),
    ensures
        assigned(entries).at(m) == entries[i].1,
    decreases entries.len(),
{
    let t = entries.drop_last();
    let last = entries.last();
    law_names_are_distinct(m, last.0);
    if i < t.len() {
        law_last_entry_counts(t, m, i);
        assert(entries[entries.len() - 1].0 != key_name(m));
        match named(last.0) {
            Some(n) => {
                law_set_then_get(assigned(t), n, last.1, m);
            },
            None => {},
        }
    } else {
        law_set_then_get(assigned(t), m, last.1, m);
    }
}

/// The name that is refused is that of the first entry that no magnification has; all entries
/// before it have known names, and so have all entries where none is refused.
pub proof fn law_first_unknown_name_is_refused(entries: Seq<(Seq<char>, Real64)>)
    ensures
        match first_unknown(entries) {
            Some(name) => exists|i: int|
                {
                    &&& 0 <= i < entries.len()
                    &&& (#[trigger] entries[i]).0 == name
                    &&& forall|m: Magnification| name != #[trigger] key_name(m)
                    &&& forall|k: int|
                        0 <= k < i ==> exists|m: Magnification|
                            (#[trigger] entries[k]).0 == #[trigger] key_name(m)
                },
            None => forall|k: int|
                0 <= k < entries.len() ==> exists|m: Magnification|
                    (#[trigger] entries[k]).0 == #[trigger] key_name(m),
        },
    decreases entries.len(),
{
    if entries.len() > 0 {
        let rest = entries.skip(1);
        let head = entries[0].0;
        assert(forall|k: int| 0 <= k < rest.len() ==> #[trigger] rest[k] == entries[k + 1]);
        if named(head) is None {
            assert forall|m: Magnification| head != #[trigger] key_name(m) by {
                law_names_are_distinct(m, head);
            }
            assert(entries[0].0 == head);
        } else {
            let m = named(head)->0;
            law_names_are_distinct(m, head);
            assert(head == key_name(m));
            law_first_unknown_name_is_refused(rest);
            match first_unknown(rest) {
                Some(name) => {
                    let i = choose|i: int|
                        {
                            &&& 0 <= i < rest.len()
                            &&& (#[trigger] rest[i]).0 == name
                            &&& forall|m: Magnification| name != #[trigger] key_name(m)
                            &&& forall|k: int|
                                0 <= k < i ==> exists|m: Magnification|
                                    (#[trigger] rest[k]).0 == #[trigger] key_name(m)
                        };
                    assert(entries[i + 1].0 == name);
                    assert forall|k: int| 0 <= k < i + 1 implies exists|m: Magnification|
                        (#[trigger] entries[k]).0 == #[trigger] key_name(m) by {
                        if k > 0 {
                            assert(rest[k - 1] == entries[k]);
                        }
                    }
                },
                None => {
                    assert forall|k: int| 0 <= k < entries.len() implies exists|m: Magnification|
                        (#[trigger] entries[k]).0 == #[trigger] key_name(m) by {
                        if k > 0 {
                            assert(rest[k - 1] == entries[k]);
                        }
                    }
                },
            }
        }
    }
}

/// What is not calibrated is zero, and an entry is seen with its name and its number.
pub proof fn law_entries_are_seen_as_they_are(
    entries: Seq<(String, Real64)>,
    i: int,
    m: Magnification,
)
    requires
        0 <= i < entries.len(),
    ensures
        PerMagnification::zeros().at(m).bits == 0,
        entries_view(entries).len() == entries.len(),
        entries_view(entries)[i].0 == entries[i].0@,
        entries_view(entries)[i].1 == entries[i].1,
{
}

/// The order of entries with different names does not matter.
pub proof fn law_entry_order_is_free(
    a: Seq<(Seq<char>, Real64)>,
    b: Seq<(Seq<char>, Real64)>,
)
    requires
        names_differ(a),
        names_differ(b),
        forall|e: (Seq<char>, Real64)| #[trigger] a.contains(e) <==> b.contains(e),
    ensures
        assigned(a) == assigned(b),
        first_unknown(a) is None <==> first_unknown(b) is None,
{
    lemma_same_numbers(a, b, Magnification::X4);
    lemma_same_numbers(a, b, Magnification::X10);
    lemma_same_numbers(a, b, Magnification::X40);
    lemma_same_numbers(a, b, Magnification::X100);
    lemma_same_numbers(a, b, Magnification::Mm4);
    if first_unknown(a) is None {
        lemma_known_stays_known(a, b);
    }
    if first_unknown(b) is None {
        lemma_known_stays_known(b, a);
    }
}

proof fn lemma_same_numbers(
    a: Seq<(Seq<char>, Real64)>,
    b: Seq<(Seq<char>, Real64)>,
    m: Magnification,
)
    requires
        names_differ(b),
        forall|e: (Seq<char>, Real64)| #[trigger] a.contains(e) <==> b.contains(e),
    ensures
        assigned(a).at(m) == assigned(b).at(m),
{
    law_numbers_come_from_entries(a, m);
    law_numbers_come_from_entries(b, m);
    let name = key_name(m);
    if exists|i: int| 0 <= i < a.len() && (#[trigger] a[i]).0 == name {
        let e = (name, assigned(a).at(m));
        assert(b.contains(e));
        let j = choose|j: int| 0 <= j < b.len() && b[j] == e;
        assert(b[j].0 == name);
        let f = (name, assigned(b).at(m));
        let k = choose|k: int| 0 <= k < b.len() && b[k] == f;
        assert(j == k);
    } else {
        if exists|i: int| 0 <= i < b.len() && (#[trigger] b[i]).0 == name {
            let f = (name, assigned(b).at(m));
            assert(a.contains(f));
            let k = choose|k: int| 0 <= k < a.len() && a[k] == f;
            assert(a[k].0 == name);
        }
    }
}

proof fn lemma_unknown_is_there(entries: Seq<(Seq<char>, Real64)>)
    ensures
        first_unknown(entries) is None <==> forall|i: int|
            0 <= i < entries.len() ==> named((#[trigger] entries[i]).0) is Some,
    decreases entries.len(),
{
    if entries.len() > 0 {
        let rest = entries.skip(1);
        lemma_unknown_is_there(rest);
        assert(forall|i: int| 0 <= i < rest.len() ==> #[trigger] rest[i] == entries[i + 1]);
        if named(entries[0].0) is Some && first_unknown(rest) is None {
            assert forall|i: int| 0 <= i < entries.len() implies named((#[trigger] entries[i]).0)
                is Some by {
                if i > 0 {
                    assert(rest[i - 1] == entries[i]);
                }
            }
        }
    }
}

proof fn lemma_known_stays_known(
    a: Seq<(Seq<char>, Real64)>,
    b: Seq<(Seq<char>, Real64)>,
)
    requires
        forall|e: (Seq<char>, Real64)| #[trigger] a.contains(e) <==> b.contains(e),
        first_unknown(a) is None,
    ensures
        first_unknown(b) is None,
{
    lemma_unknown_is_there(a);
    lemma_unknown_is_there(b);
    assert forall|i: int| 0 <= i < b.len() implies named((#[trigger] b[i]).0) is Some by {
        assert(b.contains(b[i]));
        assert(a.contains(b[i]));
        let k = choose|k: int| 0 <= k < a.len() && a[k] == b[i];
        assert(named(a[k].0) is Some);
    }
}

} // verus!
