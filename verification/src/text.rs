//! Text: decimal numbers, letter case, search and segments.

use vstd::prelude::*;
use vstd::string::*;

verus! {

/// `String::push` appends one character to the end.
pub assume_specification[ String::push ](s: &mut String, c: char)
    ensures
        final(s)@ == old(s)@.push(c),
;

/// The decimal digit of a number below ten.
pub open spec fn digit(d: nat) -> char {
    (48 + d) as char
}

/// A number in decimal, without leading zeros.
pub open spec fn decimal(n: nat) -> Seq<char>
    decreases n,
{
    if n < 10 {
        seq![digit(n)]
    } else {
        decimal(n / 10).push(digit(n % 10))
    }
}

/// The number that a run of decimal digits stands for.
pub open spec fn number(s: Seq<char>) -> nat
    decreases s.len(),
{
    if s.len() == 0 {
        0
    } else {
        number(s.drop_last()) * 10 + (s.last() as nat - 48) as nat
    }
}

/// A decimal stands for the number that it was made from.
pub proof fn law_decimal_is_the_number(n: nat)
    ensures
        number(decimal(n)) == n,
    decreases n,
{
    if n < 10 {
        assert(decimal(n).drop_last() =~= Seq::empty());
        reveal_with_fuel(number, 2);
    } else {
        law_decimal_is_the_number(n / 10);
        assert(decimal(n).drop_last() =~= decimal(n / 10));
    }
}

/// Different numbers have different decimals.
pub proof fn law_decimal_is_injective(a: nat, b: nat)
    requires
        decimal(a) == decimal(b),
    ensures
        a == b,
{
    law_decimal_is_the_number(a);
    law_decimal_is_the_number(b);
}

/// A decimal holds digits only.
pub proof fn law_decimal_holds_digits(n: nat, i: int)
    requires
        0 <= i < decimal(n).len(),
    ensures
        '0' <= decimal(n)[i] <= '9',
    decreases n,
{
    if n >= 10 && i < decimal(n / 10).len() {
        law_decimal_holds_digits(n / 10, i);
    }
}

/// A digit behind a run of digits makes it ten times as much, and its own value more.
pub proof fn law_number_is_positional(s: Seq<char>, c: char)
    requires
        '0' <= c <= '9',
    ensures
        number(Seq::empty()) == 0,
        number(s.push(c)) == 10 * number(s) + (c as int - '0' as int),
{
    assert(s.push(c).drop_last() =~= s);
}

/// A decimal has no needless zero in front, and is as long as the number needs.
pub proof fn law_decimal_has_no_leading_zero(n: nat)
    ensures
        decimal(n).len() > 0,
        n > 0 ==> decimal(n)[0] != '0',
        n < 10 ==> decimal(n).len() == 1,
        n >= 10 ==> decimal(n).len() == decimal(n / 10).len() + 1,
    decreases n,
{
    if n >= 10 {
        law_decimal_has_no_leading_zero(n / 10);
    }
}

/// Appends a number in decimal.
pub fn push_decimal(s: &mut String, n: u128)
    ensures
        final(s)@ == old(s)@ + decimal(n as nat),
    decreases n,
{
    let d: u8 = 48 + (n % 10) as u8;
    if n >= 10 {
        push_decimal(s, n / 10);
    }
    s.push(d as char);
    assert(s@ =~= old(s)@ + decimal(n as nat));
}

/// An upper-case ASCII letter in lower case; every other character as it is.
pub open spec fn lower(c: char) -> char {
    if 'A' <= c && c <= 'Z' {
        (c as u8 + 32) as char
    } else {
        c
    }
}

/// A text with its ASCII letters in lower case.
pub open spec fn lowered(s: Seq<char>) -> Seq<char> {
    s.map_values(|c: char| lower(c))
}

/// `needle` occurs in `s` at `i`.
pub open spec fn occurs_at(s: Seq<char>, needle: Seq<char>, i: int) -> bool {
    0 <= i && i + needle.len() <= s.len() && s.subrange(i, i + needle.len()) == needle
}

/// `needle` occurs somewhere in `s`.
pub open spec fn occurs_in(needle: Seq<char>, s: Seq<char>) -> bool {
    exists|i: int| #[trigger] occurs_at(s, needle, i)
}

/// Only the letters from A to Z change their case: each becomes the letter at the same distance from
/// a as it has from A.
pub proof fn law_lower_case(c: char)
    ensures
        'A' <= c <= 'Z' ==> lower(c) as int - 'a' as int == c as int - 'A' as int,
        !('A' <= c <= 'Z') ==> lower(c) == c,
        lower(lower(c)) == lower(c),
{
}

/// A text in lower case has each character in lower case.
pub proof fn law_lowered_text(s: Seq<char>, i: int)
    requires
        0 <= i < s.len(),
    ensures
        lowered(s).len() == s.len(),
        lowered(s)[i] == lower(s[i]),
{
}

/// A text occurs in another where that is made of something, the text, and something.
pub proof fn law_occurrence_splits_the_text(needle: Seq<char>, s: Seq<char>)
    ensures
        occurs_in(needle, s) <==> exists|a: Seq<char>, b: Seq<char>| s == #[trigger] ((a + needle) + b),
{
    if occurs_in(needle, s) {
        let i = choose|i: int| #[trigger] occurs_at(s, needle, i);
        let a = s.take(i);
        let b = s.skip(i + needle.len());
        assert(s =~= (a + needle) + b) by {
            assert forall|k: int| 0 <= k < s.len() implies s[k] == ((a + needle) + b)[k] by {
                if i <= k < i + needle.len() {
                    assert(s.subrange(i, i + needle.len())[k - i] == needle[k - i]);
                }
            }
        }
    }
    if exists|a: Seq<char>, b: Seq<char>| s == #[trigger] ((a + needle) + b) {
        let (a, b) = choose|a: Seq<char>, b: Seq<char>| s == #[trigger] ((a + needle) + b);
        assert(s.subrange(a.len() as int, (a.len() + needle.len()) as int) =~= needle);
        assert(occurs_at(s, needle, a.len() as int));
    }
}

/// What is left behind a prefix makes up the text with it, and nothing is left where the text does
/// not start with the prefix.
pub proof fn law_prefix_and_rest_make_the_text(s: Seq<char>, prefix: Seq<char>, rest: Seq<char>)
    ensures
        after_prefix(s, prefix) == Some(rest) <==> s == prefix + rest,
{
    if s == prefix + rest {
        assert(s.subrange(0, 0int + prefix.len()) =~= prefix);
        assert(occurs_at(s, prefix, 0));
        assert(s.skip(prefix.len() as int) =~= rest);
    }
    if after_prefix(s, prefix) == Some(rest) {
        assert forall|k: int| 0 <= k < prefix.len() implies s[k] == prefix[k] by {
            assert(s.subrange(0, 0int + prefix.len())[k] == prefix[k]);
        }
        assert(s =~= prefix + rest);
    }
}

fn lower_char(c: char) -> (r: char)
    ensures
        r == lower(c),
{
    if 'A' <= c && c <= 'Z' {
        (c as u8 + 32) as char
    } else {
        c
    }
}

/// The characters of a text.
pub fn chars_of(s: &str) -> (chars: Vec<char>)
    ensures
        chars@ == s@,
{
    let mut chars: Vec<char> = Vec::new();
    for c in it: s.chars()
        invariant
            it.seq() == s@,
            chars@ == s@.take(it.index() as int),
    {
        chars.push(c);
    }
    assert(s@.take(s@.len() as int) =~= s@);
    chars
}

/// The characters of a text, ASCII letters in lower case.
pub fn lowered_chars(s: &str) -> (chars: Vec<char>)
    ensures
        chars@ == lowered(s@),
{
    let mut chars = chars_of(s);
    let mut i: usize = 0;
    while i < chars.len()
        invariant
            i <= chars.len(),
            chars.len() == s@.len(),
            forall|j: int| 0 <= j < i ==> #[trigger] chars@[j] == lower(s@[j]),
            forall|j: int| i <= j < s@.len() ==> #[trigger] chars@[j] == s@[j],
        decreases chars.len() - i,
    {
        let c = lower_char(chars[i]);
        chars.set(i, c);
        i = i + 1;
    }
    assert(chars@ =~= lowered(s@));
    chars
}

fn matches_at(s: &Vec<char>, needle: &Vec<char>, i: usize) -> (r: bool)
    requires
        i + needle.len() <= s.len(),
    ensures
        r == occurs_at(s@, needle@, i as int),
{
    let mut k: usize = 0;
    while k < needle.len()
        invariant
            k <= needle.len(),
            i + needle.len() <= s.len(),
            forall|j: int| 0 <= j < k ==> s@[i + j] == #[trigger] needle@[j],
        decreases needle.len() - k,
    {
        if s[i + k] != needle[k] {
            assert(s@.subrange(i as int, i + needle.len())[k as int] != needle@[k as int]);
            return false;
        }
        k = k + 1;
    }
    assert(s@.subrange(i as int, i + needle.len()) =~= needle@);
    true
}

/// Whether `needle` occurs in `s`.
pub fn contains_chars(s: &Vec<char>, needle: &Vec<char>) -> (r: bool)
    ensures
        r == occurs_in(needle@, s@),
{
    if needle.len() > s.len() {
        return false;
    }
    let last: usize = s.len() - needle.len();
    let mut i: usize = 0;
    loop
        invariant
            last + needle.len() == s.len(),
            i <= last,
            forall|j: int| 0 <= j < i ==> !#[trigger] occurs_at(s@, needle@, j),
        decreases last - i,
    {
        if matches_at(s, needle, i) {
            return true;
        }
        if i == last {
            return false;
        }
        i = i + 1;
    }
}

/// The text made of some characters.
pub fn text_of(chars: &Vec<char>, from: usize, to: usize) -> (s: String)
    requires
        from <= to <= chars.len(),
    ensures
        s@ == chars@.subrange(from as int, to as int),
{
    let mut s = String::new();
    let mut i: usize = from;
    while i < to
        invariant
            from <= i <= to <= chars.len(),
            s@ == chars@.subrange(from as int, i as int),
        decreases to - i,
    {
        s.push(chars[i]);
        i = i + 1;
        assert(s@ =~= chars@.subrange(from as int, i as int));
    }
    assert(s@ =~= chars@.subrange(from as int, to as int));
    s
}

/// What follows the last `/`, or all of it where there is none.
pub open spec fn last_segment(s: Seq<char>) -> Seq<char>
    decreases s.len(),
{
    if s.len() == 0 || s.last() == '/' {
        Seq::empty()
    } else {
        last_segment(s.drop_last()).push(s.last())
    }
}

/// The last segment holds no `/`, and a `/` or nothing stands before it.
pub proof fn law_last_segment_is_a_suffix(s: Seq<char>)
    ensures
        last_segment(s).len() <= s.len(),
        s.skip(s.len() - last_segment(s).len()) == last_segment(s),
        !last_segment(s).contains('/'),
        last_segment(s).len() < s.len() ==> s[s.len() - last_segment(s).len() - 1] == '/',
    decreases s.len(),
{
    let t = last_segment(s);
    if s.len() == 0 || s.last() == '/' {
        assert(s.skip(s.len() as int) =~= t);
    } else {
        let front = s.drop_last();
        law_last_segment_is_a_suffix(front);
        let u = last_segment(front);
        assert(s.skip(s.len() - t.len()) =~= front.skip(front.len() - u.len()).push(s.last()));
        assert forall|i: int| 0 <= i < t.len() implies t[i] != '/' by {
            if i < u.len() {
                assert(u.contains(u[i]));
                assert(t[i] == u[i]);
            }
        }
    }
}

/// The last segment of a text whose segments are parted by `/`.
pub fn last_segment_of(s: &str) -> (segment: String)
    ensures
        segment@ == last_segment(s@),
{
    let chars = chars_of(s);
    let mut i: usize = chars.len();
    proof {
        law_last_segment_is_a_suffix(s@);
    }
    let ghost start = s@.len() - last_segment(s@).len();
    while i > 0 && chars[i - 1] != '/'
        invariant
            i <= chars.len(),
            chars@ == s@,
            start == s@.len() - last_segment(s@).len(),
            s@.skip(start) == last_segment(s@),
            start > 0 ==> s@[start - 1] == '/',
            !last_segment(s@).contains('/'),
            start <= i,
        decreases i,
    {
        i = i - 1;
    }
    proof {
        if start < i {
            let t = last_segment(s@);
            assert(s@[i - 1] == s@.skip(start)[i - 1 - start]);
            assert(t.contains(t[i - 1 - start]));
        }
        assert(s@.skip(start) =~= s@.subrange(i as int, s@.len() as int));
    }
    let n: usize = chars.len();
    text_of(&chars, i, n)
}

/// Whether two texts are the same but for the case of ASCII letters.
pub fn same_but_for_case(a: &str, b: &str) -> (r: bool)
    ensures
        r == (lowered(a@) == lowered(b@)),
{
    let x = lowered_chars(a);
    let y = lowered_chars(b);
    if x.len() != y.len() {
        return false;
    }
    let r: bool = matches_at(&x, &y, 0);
    assert(x@.subrange(0, x@.len() as int) =~= x@);
    r
}

/// Whether two texts are the same.
pub fn same_text(a: &str, b: &str) -> (r: bool)
    ensures
        r == (a@ == b@),
{
    a.to_owned() == b.to_owned()
}

/// The rest of `s` behind `prefix`, where it starts with that.
pub open spec fn after_prefix(s: Seq<char>, prefix: Seq<char>) -> Option<Seq<char>> {
    if occurs_at(s, prefix, 0) {
        Some(s.skip(prefix.len() as int))
    } else {
        None
    }
}

/// The rest of `s` behind `prefix`, where it starts with that.
pub fn strip_prefix(s: &str, prefix: &str) -> (rest: Option<String>)
    ensures
        match rest {
            Some(t) => after_prefix(s@, prefix@) == Some(t@),
            None => after_prefix(s@, prefix@) is None,
        },
{
    let x = chars_of(s);
    let p = chars_of(prefix);
    if p.len() > x.len() {
        return None;
    }
    if matches_at(&x, &p, 0) {
        let from: usize = p.len();
        let to: usize = x.len();
        let t = text_of(&x, from, to);
        assert(t@ =~= s@.skip(prefix@.len() as int));
        Some(t)
    } else {
        None
    }
}

} // verus!
