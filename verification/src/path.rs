//! Paths of profile files: what they are made of, when they name the same file, and their order.

use crate::text::{chars_of, text_of};
use vstd::prelude::*;
use vstd::string::*;

verus! {

/// One component of a path.
#[derive(Debug)]
pub enum Part {
    /// The root, at the start of an absolute path.
    Root,
    /// The current directory, at the start of a relative path.
    Here,
    /// The directory above.
    Parent,
    /// A file or a directory.
    Name(String),
}

/// What a [`Part`] holds.
pub enum Component {
    Root,
    Here,
    Parent,
    Name(Seq<char>),
}

impl View for Part {
    type V = Component;

    open spec fn view(&self) -> Component {
        match self {
            Part::Root => Component::Root,
            Part::Here => Component::Here,
            Part::Parent => Component::Parent,
            Part::Name(s) => Component::Name(s@),
        }
    }
}

/// What the parts of a path hold.
pub open spec fn components_of(parts: Seq<Part>) -> Seq<Component> {
    Seq::new(parts.len(), |i: int| parts[i]@)
}

/// The components that a segment between two `/` adds to a path: none if it is empty or the
/// current directory, but for the first segment.
pub open spec fn segment_components(segment: Seq<char>, first: bool) -> Seq<Component> {
    if segment.len() == 0 {
        if first {
            seq![Component::Root]
        } else {
            Seq::empty()
        }
    } else if segment == "."@ {
        if first {
            seq![Component::Here]
        } else {
            Seq::empty()
        }
    } else if segment == ".."@ {
        seq![Component::Parent]
    } else {
        seq![Component::Name(segment)]
    }
}

/// The components of a path whose text goes on with `rest` behind an unfinished `segment`.
pub open spec fn components_from(segment: Seq<char>, first: bool, rest: Seq<char>) -> Seq<Component>
    decreases rest.len(),
{
    if rest.len() == 0 {
        segment_components(segment, first)
    } else if rest[0] == '/' {
        segment_components(segment, first) + components_from(Seq::empty(), false, rest.skip(1))
    } else {
        components_from(segment.push(rest[0]), first, rest.skip(1))
    }
}

/// The components of a path. Repeated and trailing `/` do not count, nor does `.` except at the
/// start.
pub open spec fn components(text: Seq<char>) -> Seq<Component> {
    if text.len() == 0 {
        Seq::empty()
    } else {
        components_from(Seq::empty(), true, text)
    }
}

fn push_segment(parts: &mut Vec<Part>, segment: String, first: bool)
    ensures
        components_of(final(parts)@) == components_of(old(parts)@) + segment_components(
            segment@,
            first,
        ),
{
    let ghost before = components_of(parts@);
    let ghost held = segment@;
    if segment.as_str().is_empty() {
        if first {
            parts.push(Part::Root);
        }
    } else if segment == ".".to_owned() {
        if first {
            parts.push(Part::Here);
        }
    } else if segment == "..".to_owned() {
        parts.push(Part::Parent);
    } else {
        parts.push(Part::Name(segment));
    }
    assert(components_of(parts@) =~= before + segment_components(held, first));
}

/// The components of a path.
pub fn parts_of(text: &str) -> (parts: Vec<Part>)
    ensures
        components_of(parts@) == components(text@),
{
    let chars = chars_of(text);
    let mut parts: Vec<Part> = Vec::new();
    if chars.len() == 0 {
        assert(components_of(parts@) =~= Seq::empty());
        return parts;
    }
    let mut segment = String::new();
    let mut first: bool = true;
    let mut i: usize = 0;
    assert(chars@.skip(0) =~= text@);
    assert(components_of(parts@) + components(text@) =~= components(text@));
    while i < chars.len()
        invariant
            i <= chars.len(),
            components(text@) == components_of(parts@) + components_from(
                segment@,
                first,
                chars@.skip(i as int),
            ),
        decreases chars.len() - i,
    {
        let c = chars[i];
        let ghost rest = chars@.skip(i as int);
        assert(rest[0] == c);
        assert(rest.skip(1) =~= chars@.skip(i + 1));
        if c == '/' {
            let ghost before = components_of(parts@);
            let ghost added = segment_components(segment@, first);
            let ghost tail = components_from(Seq::empty(), false, rest.skip(1));
            push_segment(&mut parts, segment, first);
            assert(before + (added + tail) =~= (before + added) + tail);
            segment = String::new();
            first = false;
        } else {
            segment.push(c);
        }
        i = i + 1;
    }
    push_segment(&mut parts, segment, first);
    parts
}

/// Where one thing stands before another.
#[derive(Clone, Copy, Debug, PartialEq, Eq, Structural)]
pub enum Placing {
    Before,
    Same,
    Behind,
}

/// `a` comes before `b`: character by character, and a text before its continuations.
pub open spec fn text_before(a: Seq<char>, b: Seq<char>) -> bool
    decreases a.len(),
{
    if b.len() == 0 {
        false
    } else if a.len() == 0 {
        true
    } else if a[0] != b[0] {
        a[0] < b[0]
    } else {
        text_before(a.skip(1), b.skip(1))
    }
}

/// The place of a component among the kinds.
pub open spec fn kind(c: Component) -> int {
    match c {
        Component::Root => 0,
        Component::Here => 1,
        Component::Parent => 2,
        Component::Name(_) => 3,
    }
}

/// `a` comes before `b`: by kind, and names by their text.
pub open spec fn component_before(a: Component, b: Component) -> bool {
    kind(a) < kind(b) || a is Name && b is Name && text_before(a->Name_0, b->Name_0)
}

/// `a` comes before `b`: component by component, and a path before what lies below it.
pub open spec fn path_before(a: Seq<Component>, b: Seq<Component>) -> bool
    decreases a.len(),
{
    if b.len() == 0 {
        false
    } else if a.len() == 0 {
        true
    } else if a[0] != b[0] {
        component_before(a[0], b[0])
    } else {
        path_before(a.skip(1), b.skip(1))
    }
}

proof fn lemma_text_order(a: Seq<char>, b: Seq<char>)
    ensures
        text_before(a, b) ==> a != b && !text_before(b, a),
        text_before(a, b) || text_before(b, a) || a == b,
    decreases a.len(),
{
    if a.len() > 0 && b.len() > 0 {
        if a[0] == b[0] {
            lemma_text_order(a.skip(1), b.skip(1));
            if a.skip(1) == b.skip(1) {
                assert forall|i: int| 0 <= i < a.len() implies a[i] == b[i] by {
                    if i > 0 {
                        assert(a.skip(1)[i - 1] == b.skip(1)[i - 1]);
                    }
                }
                assert(a.skip(1).len() == b.skip(1).len());
                assert(a =~= b);
            }
        }
    } else if a.len() == 0 && b.len() == 0 {
        assert(a =~= b);
    }
}

proof fn lemma_text_transitive(a: Seq<char>, b: Seq<char>, c: Seq<char>)
    requires
        text_before(a, b),
        text_before(b, c),
    ensures
        text_before(a, c),
    decreases a.len(),
{
    if a.len() > 0 && b.len() > 0 && c.len() > 0 && a[0] == b[0] && b[0] == c[0] {
        lemma_text_transitive(a.skip(1), b.skip(1), c.skip(1));
    }
}

proof fn lemma_component_order(a: Component, b: Component)
    ensures
        component_before(a, b) ==> a != b && !component_before(b, a),
        component_before(a, b) || component_before(b, a) || a == b,
{
    if a is Name && b is Name {
        lemma_text_order(a->Name_0, b->Name_0);
    }
}

proof fn lemma_component_transitive(a: Component, b: Component, c: Component)
    requires
        component_before(a, b),
        component_before(b, c),
    ensures
        component_before(a, c),
{
    if a is Name && b is Name && c is Name {
        lemma_text_transitive(a->Name_0, b->Name_0, c->Name_0);
    }
}

/// Of two different paths exactly one comes before the other.
pub proof fn law_path_order_is_total(a: Seq<Component>, b: Seq<Component>)
    ensures
        path_before(a, b) ==> a != b && !path_before(b, a),
        path_before(a, b) || path_before(b, a) || a == b,
    decreases a.len(),
{
    if a.len() > 0 && b.len() > 0 {
        lemma_component_order(a[0], b[0]);
        if a[0] == b[0] {
            law_path_order_is_total(a.skip(1), b.skip(1));
            if a.skip(1) == b.skip(1) {
                assert forall|i: int| 0 <= i < a.len() implies a[i] == b[i] by {
                    if i > 0 {
                        assert(a.skip(1)[i - 1] == b.skip(1)[i - 1]);
                    }
                }
                assert(a.skip(1).len() == b.skip(1).len());
                assert(a =~= b);
            }
        }
    } else if a.len() == 0 && b.len() == 0 {
        assert(a =~= b);
    }
}

/// The order of paths is transitive.
pub proof fn law_path_order_is_transitive(
    a: Seq<Component>,
    b: Seq<Component>,
    c: Seq<Component>,
)
    requires
        path_before(a, b),
        path_before(b, c),
    ensures
        path_before(a, c),
    decreases a.len(),
{
    if a.len() > 0 && b.len() > 0 && c.len() > 0 {
        lemma_component_order(a[0], b[0]);
        lemma_component_order(b[0], c[0]);
        if a[0] == b[0] && b[0] == c[0] {
            law_path_order_is_transitive(a.skip(1), b.skip(1), c.skip(1));
        } else if a[0] != b[0] && b[0] != c[0] {
            lemma_component_transitive(a[0], b[0], c[0]);
            lemma_component_order(a[0], c[0]);
        }
    }
}

/// How two texts are placed.
pub open spec fn text_placing(a: Seq<char>, b: Seq<char>) -> Placing {
    if text_before(a, b) {
        Placing::Before
    } else if a == b {
        Placing::Same
    } else {
        Placing::Behind
    }
}

/// How two paths are placed.
pub open spec fn path_placing(a: Seq<Component>, b: Seq<Component>) -> Placing {
    if path_before(a, b) {
        Placing::Before
    } else if a == b {
        Placing::Same
    } else {
        Placing::Behind
    }
}

fn place_texts(a: &String, b: &String) -> (r: Placing)
    ensures
        r == text_placing(a@, b@),
{
    let x = chars_of(a.as_str());
    let y = chars_of(b.as_str());
    let mut i: usize = 0;
    assert(a@.skip(0) =~= a@ && b@.skip(0) =~= b@);
    while i < x.len() && i < y.len()
        invariant
            x@ == a@,
            y@ == b@,
            i <= x.len(),
            i <= y.len(),
            text_before(a@, b@) == text_before(a@.skip(i as int), b@.skip(i as int)),
            forall|j: int| 0 <= j < i ==> #[trigger] a@[j] == b@[j],
        decreases x.len() - i,
    {
        if x[i] != y[i] {
            assert(a@.skip(i as int)[0] == x[i as int] && b@.skip(i as int)[0] == y[i as int]);
            if x[i] < y[i] {
                proof {
                    lemma_text_order(a@, b@);
                }
                return Placing::Before;
            } else {
                assert(a@[i as int] != b@[i as int]);
                return Placing::Behind;
            }
        }
        assert(a@.skip(i as int).skip(1) =~= a@.skip(i + 1));
        assert(b@.skip(i as int).skip(1) =~= b@.skip(i + 1));
        i = i + 1;
    }
    if i < y.len() {
        Placing::Before
    } else if i < x.len() {
        Placing::Behind
    } else {
        assert(a@ =~= b@);
        Placing::Same
    }
}

fn kind_of(p: &Part) -> (r: u8)
    ensures
        r == kind(p@),
{
    match p {
        Part::Root => 0,
        Part::Here => 1,
        Part::Parent => 2,
        Part::Name(_) => 3,
    }
}

fn place_parts(a: &Part, b: &Part) -> (r: Placing)
    ensures
        r == Placing::Before <==> component_before(a@, b@),
        r == Placing::Same <==> a@ == b@,
{
    proof {
        lemma_component_order(a@, b@);
    }
    let x: u8 = kind_of(a);
    let y: u8 = kind_of(b);
    if x < y {
        return Placing::Before;
    }
    if x > y {
        return Placing::Behind;
    }
    match (a, b) {
        (Part::Name(s), Part::Name(t)) => {
            proof {
                lemma_text_order(s@, t@);
            }
            place_texts(s, t)
        },
        _ => Placing::Same,
    }
}

fn place_paths(a: &Vec<Part>, b: &Vec<Part>) -> (r: Placing)
    ensures
        r == path_placing(components_of(a@), components_of(b@)),
{
    let ghost x = components_of(a@);
    let ghost y = components_of(b@);
    let mut i: usize = 0;
    assert(x.skip(0) =~= x && y.skip(0) =~= y);
    while i < a.len() && i < b.len()
        invariant
            x == components_of(a@),
            y == components_of(b@),
            i <= a.len(),
            i <= b.len(),
            path_before(x, y) == path_before(x.skip(i as int), y.skip(i as int)),
            forall|j: int| 0 <= j < i ==> #[trigger] x[j] == y[j],
        decreases a.len() - i,
    {
        assert(x.skip(i as int)[0] == a@[i as int]@ && y.skip(i as int)[0] == b@[i as int]@);
        let r = place_parts(&a[i], &b[i]);
        if r != Placing::Same {
            assert(x[i as int] != y[i as int]);
            return r;
        }
        assert(x.skip(i as int).skip(1) =~= x.skip(i + 1));
        assert(y.skip(i as int).skip(1) =~= y.skip(i + 1));
        i = i + 1;
    }
    if i < b.len() {
        Placing::Before
    } else if i < a.len() {
        Placing::Behind
    } else {
        assert(x =~= y);
        Placing::Same
    }
}

/// The path of a profile file.
#[derive(Debug)]
pub struct ProfilePath {
    text: String,
    parts: Vec<Part>,
}

impl View for ProfilePath {
    type V = Seq<char>;

    /// The text of the path.
    closed spec fn view(&self) -> Seq<char> {
        self.text@
    }
}

impl ProfilePath {
    #[verifier::type_invariant]
    spec fn parts_match(self) -> bool {
        components_of(self.parts@) == components(self.text@)
    }

    /// The path with a given text.
    pub fn new(text: String) -> (path: ProfilePath)
        ensures
            path@ == text@,
    {
        let parts = parts_of(text.as_str());
        ProfilePath { text, parts }
    }

    /// The text of the path.
    pub fn text(&self) -> (r: &str)
        ensures
            r@ == self@,
    {
        self.text.as_str()
    }

    /// Another copy of the path.
    pub fn copy(&self) -> (path: ProfilePath)
        ensures
            path@ == self@,
    {
        ProfilePath::new(self.text.clone())
    }

    /// How two paths are placed.
    pub fn place(&self, other: &ProfilePath) -> (r: Placing)
        ensures
            r == path_placing(components(self@), components(other@)),
    {
        proof {
            use_type_invariant(self);
            use_type_invariant(other);
        }
        place_paths(&self.parts, &other.parts)
    }
}

/// The place of the last `.`, or -1 where there is none.
pub open spec fn last_dot(s: Seq<char>) -> int
    decreases s.len(),
{
    if s.len() == 0 {
        -1
    } else if s.last() == '.' {
        s.len() - 1
    } else {
        last_dot(s.drop_last())
    }
}

/// A file name without its extension; a name whose only `.` comes first has none.
pub open spec fn stem(name: Seq<char>) -> Seq<char> {
    if last_dot(name) <= 0 {
        name
    } else {
        name.take(last_dot(name))
    }
}

/// The file name at the end of a path, without its extension.
pub open spec fn path_stem(path: Seq<Component>) -> Option<Seq<char>> {
    if path.len() > 0 && path.last() is Name {
        Some(stem(path.last()->Name_0))
    } else {
        None
    }
}

fn stem_of(name: &String) -> (r: String)
    ensures
        r@ == stem(name@),
{
    let chars = chars_of(name.as_str());
    let mut i: usize = chars.len();
    assert(name@.take(i as int) =~= name@);
    while i > 0
        invariant
            i <= chars.len(),
            chars@ == name@,
            last_dot(name@) == last_dot(name@.take(i as int)),
        decreases i,
    {
        assert(name@.take(i as int).drop_last() =~= name@.take(i - 1));
        if chars[i - 1] == '.' {
            if i - 1 == 0 {
                return name.clone();
            }
            let t = text_of(&chars, 0, i - 1);
            assert(t@ =~= name@.take(i - 1));
            return t;
        }
        i = i - 1;
    }
    name.clone()
}

impl ProfilePath {
    /// The file name at the end of the path, without its extension.
    pub fn file_stem(&self) -> (r: Option<String>)
        ensures
            match r {
                Some(s) => path_stem(components(self@)) == Some(s@),
                None => path_stem(components(self@)) is None,
            },
    {
        proof {
            use_type_invariant(self);
        }
        let n: usize = self.parts.len();
        if n == 0 {
            return None;
        }
        assert(components(self@).last() == self.parts@[n - 1]@);
        match &self.parts[n - 1] {
            Part::Name(name) => Some(stem_of(name)),
            _ => None,
        }
    }
}

/// The directory that holds the profiles.
pub fn profile_dir() -> (r: &'static str)
    ensures
        r@ == "./profiles"@,
{
    "./profiles"
}

/// The file of the profile with a given name: in the directory of the profiles, unless the name
/// is an absolute path.
pub open spec fn profile_file(name: Seq<char>) -> Seq<char> {
    if name.len() > 0 && name[0] == '/' {
        name + ".json"@
    } else {
        "./profiles/"@ + name + ".json"@
    }
}

/// The file of the profile with a given name.
pub fn path_of_profile(name: &String) -> (path: ProfilePath)
    ensures
        path@ == profile_file(name@),
{
    let chars = chars_of(name.as_str());
    let mut text = String::new();
    if !(chars.len() > 0 && chars[0] == '/') {
        text.append("./profiles/");
    }
    text.append(name.as_str());
    text.append(".json");
    assert(text@ =~= profile_file(name@)) by {
        assert(Seq::<char>::empty() + name@ =~= name@);
        assert(Seq::<char>::empty() + "./profiles/"@ =~= "./profiles/"@);
    }
    ProfilePath::new(text)
}

proof fn lemma_components_of_segment(segment: Seq<char>, first: bool, rest: Seq<char>, tail: Seq<char>)
    requires
        !rest.contains('/'),
    ensures
        components_from(segment, first, rest) == segment_components(segment + rest, first),
        components_from(segment, first, rest + seq!['/'] + tail) == segment_components(
            segment + rest,
            first,
        ) + components_from(Seq::empty(), false, tail),
    decreases rest.len(),
{
    let all = rest + seq!['/'] + tail;
    if rest.len() == 0 {
        assert(segment + rest =~= segment);
        assert(all[0] == '/');
        assert(all.skip(1) =~= tail);
    } else {
        let c = rest[0];
        assert(rest.contains(c));
        assert(c != '/');
        assert(all[0] == c);
        let short = rest.skip(1);
        assert forall|i: int| 0 <= i < short.len() implies short[i] != '/' by {
            assert(rest.contains(rest[i + 1]));
        }
        lemma_components_of_segment(segment.push(c), first, short, tail);
        assert(all.skip(1) =~= short + seq!['/'] + tail);
        assert(segment.push(c) + short =~= segment + rest);
    }
}

proof fn lemma_components_of_last_segment(
    segment: Seq<char>,
    first: bool,
    rest: Seq<char>,
    last: Seq<char>,
)
    requires
        !last.contains('/'),
    ensures
        components_from(segment, first, rest + seq!['/'] + last) == components_from(
            segment,
            first,
            rest,
        ) + segment_components(last, false),
    decreases rest.len(),
{
    let all = rest + seq!['/'] + last;
    let empty = Seq::<char>::empty();
    if rest.len() == 0 {
        assert(all[0] == '/');
        assert(all.skip(1) =~= last);
        lemma_components_of_segment(empty, false, last, empty);
        assert(empty + last =~= last);
    } else {
        let short = rest.skip(1);
        assert(all[0] == rest[0]);
        assert(all.skip(1) =~= short + seq!['/'] + last);
        if rest[0] == '/' {
            lemma_components_of_last_segment(empty, false, short, last);
            assert(segment_components(segment, first) + (components_from(empty, false, short)
                + segment_components(last, false)) =~= (segment_components(segment, first)
                + components_from(empty, false, short)) + segment_components(last, false));
        } else {
            lemma_components_of_last_segment(segment.push(rest[0]), first, short, last);
        }
    }
}

/// What a last segment adds to a path: nothing if it is empty or names the same directory, the
/// directory above for two dots, and its name otherwise.
pub proof fn law_path_grows_by_its_last_segment(path: Seq<char>, last: Seq<char>)
    requires
        path.len() > 0,
        !last.contains('/'),
    ensures
        ({
            let all = components(path + seq!['/'] + last);
            &&& last.len() == 0 || last == seq!['.'] ==> all == components(path)
            &&& last == seq!['.', '.'] ==> all == components(path).push(Component::Parent)
            &&& last.len() > 0 && last != seq!['.'] && last != seq!['.', '.'] ==> all == components(
                path,
            ).push(Component::Name(last))
        }),
{
    reveal_strlit(".");
    reveal_strlit("..");
    assert("."@ =~= seq!['.']);
    assert(".."@ =~= seq!['.', '.']);
    let all = path + seq!['/'] + last;
    lemma_components_of_last_segment(Seq::empty(), true, path, last);
    assert(all.len() > 0);
    let before = components(path);
    assert(before + Seq::empty() =~= before);
    assert(before + seq![Component::Parent] =~= before.push(Component::Parent));
    assert(before + seq![Component::Name(last)] =~= before.push(Component::Name(last)));
}

/// A path of one segment is the current directory, the one above, or a name, and is absolute where it
/// starts with `/`. Nothing names nothing.
pub proof fn law_path_of_one_segment(segment: Seq<char>)
    requires
        !segment.contains('/'),
    ensures
        components(Seq::empty()) == Seq::<Component>::empty(),
        components(seq!['.']) == seq![Component::Here],
        components(seq!['.', '.']) == seq![Component::Parent],
        segment.len() > 0 && segment != seq!['.'] && segment != seq!['.', '.'] ==> components(
            segment,
        ) == seq![Component::Name(segment)],
        segment.len() == 0 || segment == seq!['.'] ==> components(seq!['/'] + segment) == seq![
            Component::Root,
        ],
        segment == seq!['.', '.'] ==> components(seq!['/'] + segment) == seq![
            Component::Root,
            Component::Parent,
        ],
        segment.len() > 0 && segment != seq!['.'] && segment != seq!['.', '.'] ==> components(
            seq!['/'] + segment,
        ) == seq![Component::Root, Component::Name(segment)],
{
    reveal_strlit(".");
    reveal_strlit("..");
    assert("."@ =~= seq!['.']);
    assert(".."@ =~= seq!['.', '.']);
    let empty = Seq::<char>::empty();
    lemma_components_of_segment(empty, true, segment, empty);
    lemma_components_of_segment(empty, true, seq!['.'], empty);
    lemma_components_of_segment(empty, true, seq!['.', '.'], empty);
    lemma_components_of_segment(empty, true, empty, segment);
    lemma_components_of_segment(empty, false, segment, empty);
    assert(empty + segment =~= segment);
    assert(empty + seq!['.'] =~= seq!['.']);
    assert(empty + seq!['.', '.'] =~= seq!['.', '.']);
    assert(empty + empty =~= empty);
    let absolute = seq!['/'] + segment;
    assert(empty + seq!['/'] + segment =~= absolute);
    assert(components(absolute) =~= seq![Component::Root] + segment_components(segment, false));
    let root = seq![Component::Root];
    assert(root + Seq::empty() =~= root);
    assert(root + seq![Component::Parent] =~= seq![Component::Root, Component::Parent]);
    assert(root + seq![Component::Name(segment)] =~= seq![
        Component::Root,
        Component::Name(segment),
    ]);
}

/// The first `k` characters are the same, and then `a` ends or has the lower character.
pub open spec fn text_parts_at(a: Seq<char>, b: Seq<char>, k: int) -> bool {
    &&& 0 <= k <= a.len() && k < b.len()
    &&& forall|i: int| 0 <= i < k ==> #[trigger] a[i] == b[i]
    &&& k == a.len() || a[k] < b[k]
}

/// A text comes before another where it ends first or has the lower character, at the first place
/// where they differ.
pub proof fn law_texts_are_ordered_like_words(a: Seq<char>, b: Seq<char>)
    ensures
        text_before(a, b) <==> exists|k: int| #[trigger] text_parts_at(a, b, k),
    decreases a.len(),
{
    if a.len() > 0 && b.len() > 0 && a[0] == b[0] {
        let x = a.skip(1);
        let y = b.skip(1);
        law_texts_are_ordered_like_words(x, y);
        if exists|k: int| #[trigger] text_parts_at(x, y, k) {
            let k = choose|k: int| #[trigger] text_parts_at(x, y, k);
            assert forall|i: int| 0 <= i < k + 1 implies #[trigger] a[i] == b[i] by {
                if i > 0 {
                    assert(x[i - 1] == y[i - 1]);
                }
            }
            assert(text_parts_at(a, b, k + 1));
        }
        if exists|k: int| #[trigger] text_parts_at(a, b, k) {
            let k = choose|k: int| #[trigger] text_parts_at(a, b, k);
            assert(k > 0);
            assert forall|i: int| 0 <= i < k - 1 implies #[trigger] x[i] == y[i] by {
                assert(a[i + 1] == b[i + 1]);
            }
            assert(text_parts_at(x, y, k - 1));
        }
    } else if b.len() > 0 {
        if a.len() == 0 {
            assert(text_parts_at(a, b, 0));
        } else {
            if a[0] < b[0] {
                assert(text_parts_at(a, b, 0));
            }
            if exists|k: int| #[trigger] text_parts_at(a, b, k) {
                let k = choose|k: int| #[trigger] text_parts_at(a, b, k);
                if k > 0 {
                    assert(a[0] == b[0]);
                }
            }
        }
    }
}

/// The first `k` components are the same, and then `a` ends or has the one that comes first.
pub open spec fn path_parts_at(a: Seq<Component>, b: Seq<Component>, k: int) -> bool {
    &&& 0 <= k <= a.len() && k < b.len()
    &&& forall|i: int| 0 <= i < k ==> #[trigger] a[i] == b[i]
    &&& k == a.len() || component_before(a[k], b[k])
}

/// A path comes before another where it ends first or has the component that comes first, at the
/// first place where they differ.
pub proof fn law_paths_are_ordered_by_components(a: Seq<Component>, b: Seq<Component>)
    ensures
        path_before(a, b) <==> exists|k: int| #[trigger] path_parts_at(a, b, k),
    decreases a.len(),
{
    if a.len() > 0 && b.len() > 0 && a[0] == b[0] {
        let x = a.skip(1);
        let y = b.skip(1);
        law_paths_are_ordered_by_components(x, y);
        lemma_component_order(a[0], b[0]);
        if exists|k: int| #[trigger] path_parts_at(x, y, k) {
            let k = choose|k: int| #[trigger] path_parts_at(x, y, k);
            assert forall|i: int| 0 <= i < k + 1 implies #[trigger] a[i] == b[i] by {
                if i > 0 {
                    assert(x[i - 1] == y[i - 1]);
                }
            }
            assert(path_parts_at(a, b, k + 1));
        }
        if exists|k: int| #[trigger] path_parts_at(a, b, k) {
            let k = choose|k: int| #[trigger] path_parts_at(a, b, k);
            assert(k > 0);
            assert forall|i: int| 0 <= i < k - 1 implies #[trigger] x[i] == y[i] by {
                assert(a[i + 1] == b[i + 1]);
            }
            assert(path_parts_at(x, y, k - 1));
        }
    } else if b.len() > 0 {
        if a.len() == 0 {
            assert(path_parts_at(a, b, 0));
        } else {
            if component_before(a[0], b[0]) {
                assert(path_parts_at(a, b, 0));
            }
            if exists|k: int| #[trigger] path_parts_at(a, b, k) {
                let k = choose|k: int| #[trigger] path_parts_at(a, b, k);
                if k > 0 {
                    assert(a[0] == b[0]);
                }
            }
        }
    }
}

/// The root comes first, then the current directory, then the one above, then names in the order of
/// their texts.
pub proof fn law_order_of_components(a: Seq<char>, b: Seq<char>)
    ensures
        component_before(Component::Root, Component::Here),
        component_before(Component::Root, Component::Parent),
        component_before(Component::Root, Component::Name(a)),
        component_before(Component::Here, Component::Parent),
        component_before(Component::Here, Component::Name(a)),
        component_before(Component::Parent, Component::Name(a)),
        component_before(Component::Name(a), Component::Name(b)) <==> text_before(a, b),
        !component_before(Component::Name(a), Component::Root),
        !component_before(Component::Name(a), Component::Here),
        !component_before(Component::Name(a), Component::Parent),
{
}

/// Two paths are placed the same way from either side, and are the same only where all their
/// components are.
pub proof fn law_paths_are_placed_the_same_from_either_side(a: Seq<Component>, b: Seq<Component>)
    ensures
        path_placing(a, b) == Placing::Same <==> a == b,
        path_placing(a, b) == Placing::Before <==> path_before(a, b),
        path_placing(a, b) == Placing::Before <==> path_placing(b, a) == Placing::Behind,
{
    law_path_order_is_total(a, b);
    law_path_order_is_total(b, a);
}

proof fn lemma_last_dot(s: Seq<char>)
    ensures
        -1 <= last_dot(s) < s.len(),
        last_dot(s) >= 0 ==> s[last_dot(s)] == '.',
        forall|k: int| last_dot(s) < k < s.len() ==> #[trigger] s[k] != '.',
    decreases s.len(),
{
    if s.len() > 0 && s.last() != '.' {
        let t = s.drop_last();
        lemma_last_dot(t);
        assert forall|k: int| last_dot(s) < k < s.len() implies #[trigger] s[k] != '.' by {
            if k < t.len() {
                assert(t[k] == s[k]);
            }
        }
    }
}

/// A file name is its stem, or its stem, a dot and an extension without a dot. It has an extension
/// where it has a dot that does not come first, and the stem is never empty for that.
pub proof fn law_stem_and_extension_make_the_name(name: Seq<char>)
    ensures
        ({
            let has_dot = exists|k: int| 0 < k < name.len() && #[trigger] name[k] == '.';
            let n = stem(name).len();
            &&& !has_dot ==> stem(name) == name
            &&& has_dot ==> 0 < n < name.len() && name[n as int] == '.' && stem(name) == name.take(
                n as int,
            ) && !name.skip(n + 1int).contains('.')
        }),
{
    lemma_last_dot(name);
    let d = last_dot(name);
    if exists|k: int| 0 < k < name.len() && #[trigger] name[k] == '.' {
        let k = choose|k: int| 0 < k < name.len() && #[trigger] name[k] == '.';
        assert(d >= k);
        let extension = name.skip(d + 1);
        assert forall|i: int| 0 <= i < extension.len() implies #[trigger] extension[i] != '.' by {
            assert(name[d + 1 + i] != '.');
        }
    } else if d > 0 {
        assert(name[d] == '.');
    }
}

/// A path is shown by the stem of the name at its end, and cannot be shown where it does not end in a
/// name.
pub proof fn law_path_is_shown_by_its_last_name(path: Seq<Component>, name: Seq<char>)
    ensures
        path_stem(path.push(Component::Name(name))) == Some(stem(name)),
        path_stem(path.push(Component::Parent)) is None,
        path_stem(path.push(Component::Here)) is None,
        path_stem(path.push(Component::Root)) is None,
        path_stem(Seq::empty()) is None,
{
}

/// The file of a profile ends with its name and `.json`. What comes before is the directory of the
/// profiles, unless the name is an absolute path.
pub proof fn law_profile_file_ends_with_its_name(name: Seq<char>)
    ensures
        ({
            let file = profile_file(name);
            let absolute = name.len() > 0 && name[0] == '/';
            let dir = file.len() - name.len() - 5;
            &&& dir == if absolute {
                0int
            } else {
                11
            }
            &&& file.skip(dir) == name + ".json"@
            &&& !absolute ==> file.take(dir) == "./profiles"@ + seq!['/']
        }),
{
    reveal_strlit("./profiles/");
    reveal_strlit("./profiles");
    reveal_strlit(".json");
    assert("./profiles/"@.len() == 11 && ".json"@.len() == 5);
    let file = profile_file(name);
    let dir = file.len() - name.len() - 5;
    assert(file.skip(dir) =~= name + ".json"@);
    assert("./profiles/"@ =~= "./profiles"@ + seq!['/']);
    if dir > 0 {
        assert(file.take(dir) =~= "./profiles/"@);
    }
}

/// A profile with a plain name is a JSON file of that name in the directory of the profiles, and
/// is shown under that name.
pub proof fn law_plain_profile_name(name: Seq<char>)
    requires
        name.len() > 0,
        !name.contains('/'),
    ensures
        components(profile_file(name)) == seq![
            Component::Here,
            Component::Name("profiles"@),
            Component::Name(name + ".json"@),
        ],
        path_stem(components(profile_file(name))) == Some(name),
{
    reveal_strlit("./profiles/");
    reveal_strlit(".json");
    reveal_strlit(".");
    reveal_strlit("..");
    reveal_strlit("profiles");
    let dot = "."@;
    let dir = "profiles"@;
    let file = name + ".json"@;
    assert(name.contains(name[0]));
    let empty = Seq::<char>::empty();
    let tail = dir + seq!['/'] + file;
    assert("./profiles/"@ =~= dot + seq!['/'] + dir + seq!['/']);
    assert(profile_file(name) =~= dot + seq!['/'] + tail);
    lemma_components_of_segment(empty, true, dot, tail);
    assert(empty + dot =~= dot);
    lemma_components_of_segment(empty, false, dir, file);
    assert(empty + dir =~= dir);
    assert(!file.contains('/')) by {
        assert forall|i: int| 0 <= i < file.len() implies file[i] != '/' by {
            if i < name.len() {
                assert(name.contains(name[i]));
            } else {
                assert(file[i] == ".json"@[i - name.len()]);
            }
        }
    }
    lemma_components_of_segment(empty, false, file, empty);
    assert(empty + file =~= file);
    assert(file.len() > 5);
    assert(dir.len() == 8);
    let all = components(profile_file(name));
    assert(all =~= seq![Component::Here, Component::Name(dir), Component::Name(file)]);
    let f4 = file.drop_last();
    let f3 = f4.drop_last();
    let f2 = f3.drop_last();
    let f1 = f2.drop_last();
    assert(last_dot(f1) == name.len());
    assert(last_dot(f2) == last_dot(f1));
    assert(last_dot(f3) == last_dot(f2));
    assert(last_dot(f4) == last_dot(f3));
    assert(last_dot(file) == last_dot(f4));
    assert(file.take(name.len() as int) =~= name);
}

} // verus!
