//! The list of streams that a camera shows: largest picture first, then highest rate, each size and
//! rate once.

use crate::stream::{
    frame_rate, frames_per_second, law_frame_rate_is_nearest, PixelFormat, StreamDescriptor,
};
use vstd::prelude::*;
use vstd::string::*;

verus! {

/// One line of a camera's stream list.
#[derive(Clone, Debug)]
pub struct StreamInfo {
    pub width: u32,
    pub height: u32,
    pub fps: u32,
    pub pixfmt: String,
}

/// What a [`StreamInfo`] holds.
#[verifier::ext_equal]
pub struct StreamLine {
    pub width: u32,
    pub height: u32,
    pub fps: u32,
    pub pixfmt: Seq<char>,
}

impl View for StreamInfo {
    type V = StreamLine;

    open spec fn view(&self) -> StreamLine {
        StreamLine {
            width: self.width,
            height: self.height,
            fps: self.fps,
            pixfmt: self.pixfmt@,
        }
    }
}

impl StreamLine {
    pub open spec fn pixels(self) -> nat {
        (self.width as nat) * (self.height as nat)
    }
}

/// What a sequence of list lines holds.
pub open spec fn lines(infos: Seq<StreamInfo>) -> Seq<StreamLine> {
    Seq::new(infos.len(), |i: int| infos[i]@)
}

/// `a` has more pixels than `b`, or as many and a higher rate.
pub open spec fn ranks_above(a: StreamLine, b: StreamLine) -> bool {
    a.pixels() > b.pixels() || a.pixels() == b.pixels() && a.fps > b.fps
}

/// `a` and `b` have as many pixels and the same rate.
pub open spec fn ranks_with(a: StreamLine, b: StreamLine) -> bool {
    a.pixels() == b.pixels() && a.fps == b.fps
}

/// The predicate of ranking with `b`.
pub open spec fn rank_of(b: StreamLine) -> spec_fn(StreamLine) -> bool {
    |a: StreamLine| ranks_with(a, b)
}

/// Same size and same rate.
pub open spec fn looks_like(a: StreamLine, b: StreamLine) -> bool {
    a.width == b.width && a.height == b.height && a.fps == b.fps
}

/// Nothing is followed by something that ranks above it.
pub open spec fn is_ranked(s: Seq<StreamLine>) -> bool {
    forall|i: int, j: int|
        #![trigger s[i], s[j]]
        0 <= i < j < s.len() ==> !ranks_above(s[j], s[i])
}

/// `sorted` is `s` with the higher ranks first; what ranks alike keeps its order.
pub open spec fn is_stable_ranking(s: Seq<StreamLine>, sorted: Seq<StreamLine>) -> bool {
    &&& is_ranked(sorted)
    &&& forall|r: StreamLine| s.filter(#[trigger] rank_of(r)) == sorted.filter(rank_of(r))
}

/// A line of `s` looks like `x`.
pub open spec fn has_like(s: Seq<StreamLine>, x: StreamLine) -> bool {
    exists|i: int| 0 <= i < s.len() && looks_like(#[trigger] s[i], x)
}

/// `s` without the lines that look like an earlier one.
pub open spec fn without_repeats(s: Seq<StreamLine>) -> Seq<StreamLine>
    decreases s.len(),
{
    if s.len() == 0 {
        s
    } else if has_like(s.drop_last(), s.last()) {
        without_repeats(s.drop_last())
    } else {
        without_repeats(s.drop_last()).push(s.last())
    }
}

/// The line of an eligible stream.
pub open spec fn line_of(d: StreamDescriptor) -> Option<StreamLine> {
    if d.is_eligible() {
        Some(
            StreamLine {
                width: d.width,
                height: d.height,
                fps: frame_rate(d.interval_ms as nat) as u32,
                pixfmt: "RGB24"@,
            },
        )
    } else {
        None
    }
}

/// The lines of the eligible streams, in the order in which the device names them.
pub open spec fn offered(streams: Seq<StreamDescriptor>) -> Seq<StreamLine> {
    streams.filter_map(|d: StreamDescriptor| line_of(d))
}

/// `listed` is the list that a device with these streams shows.
pub open spec fn is_listing(streams: Seq<StreamDescriptor>, listed: Seq<StreamLine>) -> bool {
    exists|sorted: Seq<StreamLine>|
        #[trigger] is_stable_ranking(offered(streams), sorted) && listed == without_repeats(sorted)
}

proof fn lemma_insert_keeps_ranking(
    s: Seq<StreamLine>,
    sorted: Seq<StreamLine>,
    p: int,
    x: StreamLine,
)
    requires
        is_stable_ranking(s, sorted),
        0 <= p <= sorted.len(),
        forall|i: int| 0 <= i < p ==> !ranks_above(x, #[trigger] sorted[i]),
        p < sorted.len() ==> ranks_above(x, sorted[p]),
    ensures
        is_stable_ranking(s.push(x), sorted.insert(p, x)),
{
    let t = sorted.insert(p, x);
    let front = sorted.take(p);
    let back = sorted.skip(p);
    assert forall|i: int| 0 <= i < back.len() implies ranks_above(x, #[trigger] back[i]) by {
        assert(back[i] == sorted[p + i]);
        assert(!ranks_above(sorted[p + i], sorted[p]) || i == 0);
    }
    assert(is_ranked(t)) by {
        assert forall|i: int, j: int|
            #![trigger t[i], t[j]]
            0 <= i < j < t.len() implies !ranks_above(t[j], t[i]) by {
            assert(i < p ==> t[i] == sorted[i]);
            assert(i > p ==> t[i] == sorted[i - 1]);
            assert(j < p ==> t[j] == sorted[j]);
            assert(j > p ==> t[j] == sorted[j - 1] && t[j] == back[j - 1 - p]);
        }
    }
    assert forall|r: StreamLine| s.push(x).filter(#[trigger] rank_of(r)) == t.filter(rank_of(r)) by {
        let f = rank_of(r);
        let one = seq![x];
        assert(sorted =~= front + back);
        assert(t =~= front + one + back);
        Seq::filter_distributes_over_add(front, back, f);
        Seq::filter_distributes_over_add(front, one, f);
        Seq::filter_distributes_over_add(front + one, back, f);
        assert(s.push(x) =~= s + one);
        Seq::filter_distributes_over_add(s, one, f);
        assert(s.filter(f) == sorted.filter(f));
        assert(one.drop_last() =~= Seq::<StreamLine>::empty());
        reveal_with_fuel(Seq::filter, 2);
        if f(x) {
            assert forall|i: int| 0 <= i < back.len() implies !#[trigger] f(back[i]) by {}
            back.lemma_all_neg_filter_empty(f);
            assert(back.filter(f) =~= Seq::empty());
            assert(t.filter(f) =~= front.filter(f) + one);
        } else {
            assert(one.filter(f) =~= Seq::empty());
        }
    }
}

/// Puts a line behind all lines that it does not rank above.
fn insert_ranked(list: &mut Vec<StreamInfo>, line: StreamInfo, Ghost(s): Ghost<Seq<StreamLine>>)
    requires
        is_stable_ranking(s, lines(old(list)@)),
    ensures
        is_stable_ranking(s.push(line@), lines(final(list)@)),
{
    let pixels: u64 = pixels_of(&line);
    let mut p: usize = 0;
    while p < list.len() && !(pixels > pixels_of(&list[p]) || pixels == pixels_of(&list[p])
        && line.fps > list[p].fps)
        invariant
            p <= list.len(),
            pixels == line@.pixels(),
            forall|i: int| 0 <= i < p ==> !ranks_above(line@, #[trigger] lines(list@)[i]),
        decreases list.len() - p,
    {
        assert(lines(list@)[p as int] == list@[p as int]@);
        p = p + 1;
    }
    let ghost before = lines(list@);
    let ghost shown = line@;
    list.insert(p, line);
    proof {
        lemma_insert_keeps_ranking(s, before, p as int, shown);
        assert(lines(list@) =~= before.insert(p as int, shown));
    }
}

fn pixels_of(line: &StreamInfo) -> (pixels: u64)
    ensures
        pixels == line@.pixels(),
{
    assert(line.width * line.height <= u64::MAX) by (nonlinear_arith)
        requires
            line.width <= u32::MAX,
            line.height <= u32::MAX,
    ;
    (line.width as u64) * (line.height as u64)
}

/// Whether a line of the list looks like `line`.
fn holds_like(list: &Vec<StreamInfo>, line: &StreamInfo) -> (r: bool)
    ensures
        r == has_like(lines(list@), line@),
{
    let mut i: usize = 0;
    while i < list.len()
        invariant
            i <= list.len(),
            forall|j: int| 0 <= j < i ==> !looks_like(#[trigger] lines(list@)[j], line@),
        decreases list.len() - i,
    {
        assert(lines(list@)[i as int] == list@[i as int]@);
        if list[i].width == line.width && list[i].height == line.height && list[i].fps == line.fps {
            return true;
        }
        i = i + 1;
    }
    false
}

/// Drops every line that looks like an earlier one.
fn drop_repeats(list: Vec<StreamInfo>) -> (kept: Vec<StreamInfo>)
    ensures
        lines(kept@) == without_repeats(lines(list@)),
{
    let mut kept: Vec<StreamInfo> = Vec::new();
    let ghost all = lines(list@);
    let mut i: usize = 0;
    assert(lines(kept@) =~= without_repeats(all.take(0)));
    while i < list.len()
        invariant
            i <= list.len(),
            all == lines(list@),
            lines(kept@) == without_repeats(all.take(i as int)),
        decreases list.len() - i,
    {
        let line = &list[i];
        let ghost seen = all.take(i + 1);
        proof {
            assert(seen.drop_last() =~= all.take(i as int));
            assert(seen.last() == line@);
            lemma_kept_has_like(all.take(i as int), line@);
        }
        if !holds_like(&kept, line) {
            let ghost before = lines(kept@);
            let copy = StreamInfo {
                width: line.width,
                height: line.height,
                fps: line.fps,
                pixfmt: line.pixfmt.clone(),
            };
            kept.push(copy);
            assert(lines(kept@) =~= before.push(line@));
        }
        i = i + 1;
    }
    assert(all.take(i as int) =~= all);
    kept
}

/// The list that a device with these streams shows.
pub fn list_streams(streams: &Vec<StreamDescriptor>) -> (list: Vec<StreamInfo>)
    ensures
        is_listing(streams@, lines(list@)),
        forall|i: int, j: int|
            #![trigger list@[i], list@[j]]
            0 <= i < j < list.len() ==> {
                let a = list@[i];
                let b = list@[j];
                &&& a.width * a.height >= b.width * b.height
                &&& a.width * a.height == b.width * b.height ==> a.fps >= b.fps
                &&& !(a.width == b.width && a.height == b.height && a.fps == b.fps)
            },
{
    let mut sorted: Vec<StreamInfo> = Vec::new();
    let mut i: usize = 0;
    let ghost f = |d: StreamDescriptor| line_of(d);
    proof {
        let none = Seq::<StreamLine>::empty();
        assert(lines(sorted@) =~= none);
        assert(offered(streams@.take(0)) =~= none);
    }
    while i < streams.len()
        invariant
            i <= streams.len(),
            f == (|d: StreamDescriptor| line_of(d)),
            is_stable_ranking(offered(streams@.take(i as int)), lines(sorted@)),
        decreases streams.len() - i,
    {
        let d = streams[i];
        let ghost before = streams@.take(i as int);
        proof {
            assert(streams@.take(i + 1).drop_last() =~= before);
            assert(streams@.take(i + 1).last() == d);
        }
        if d.eligible() {
            let line = StreamInfo {
                width: d.width,
                height: d.height,
                fps: frames_per_second(d.interval_ms),
                pixfmt: "RGB24".to_owned(),
            };
            assert(line_of(d) == Some(line@));
            assert(offered(streams@.take(i + 1)) =~= offered(before).push(line@));
            insert_ranked(&mut sorted, line, Ghost(offered(before)));
        } else {
            assert(offered(streams@.take(i + 1)) == offered(before));
        }
        i = i + 1;
    }
    assert(streams@.take(i as int) =~= streams@);
    let list = drop_repeats(sorted);
    proof {
        law_listing_shows_the_streams(streams@, lines(list@));
        assert forall|i: int, j: int|
            #![trigger list@[i], list@[j]]
            0 <= i < j < list.len() implies {
            let a = list@[i];
            let b = list@[j];
            &&& a.width * a.height >= b.width * b.height
            &&& a.width * a.height == b.width * b.height ==> a.fps >= b.fps
            &&& !(a.width == b.width && a.height == b.height && a.fps == b.fps)
        } by {
            law_line_holds_the_fields(list@, i);
            law_line_holds_the_fields(list@, j);
            law_list_runs_from_large_to_small(streams@, lines(list@), i, j);
        }
    }
    list
}

/// Two rankings of the same lines are the same.
pub proof fn law_ranking_is_unique(s: Seq<StreamLine>, a: Seq<StreamLine>, b: Seq<StreamLine>)
    requires
        is_stable_ranking(s, a),
        is_stable_ranking(s, b),
    ensures
        a == b,
{
    lemma_ranked_unique(a, b);
}

proof fn lemma_ranked_unique(a: Seq<StreamLine>, b: Seq<StreamLine>)
    requires
        is_ranked(a),
        is_ranked(b),
        forall|r: StreamLine| a.filter(#[trigger] rank_of(r)) == b.filter(rank_of(r)),
    ensures
        a == b,
    decreases a.len(),
{
    broadcast use {Seq::lemma_filter_contains_rev, Seq::lemma_filter_contains};

    reveal_with_fuel(Seq::filter, 2);
    if a.len() == 0 {
        if b.len() > 0 {
            let r = b.last();
            assert(b.filter(rank_of(r)).len() > 0);
            assert(a.filter(rank_of(r)).len() == 0);
        }
        assert(a =~= b);
    } else {
        let x = a.last();
        let fx = rank_of(x);
        assert(a.filter(fx).last() == x);
        assert(b.filter(fx).len() > 0);
        assert(b.len() > 0);
        let y = b.last();
        let fy = rank_of(y);
        assert(b.filter(fy).last() == y);
        // Each last line occurs in the other list, so neither ranks above the other.
        assert(b.filter(fx).contains(x)) by {
            assert(b.filter(fx)[b.filter(fx).len() - 1] == x);
        }
        assert(b.contains(x));
        assert(a.filter(fy).contains(y)) by {
            assert(a.filter(fy)[a.filter(fy).len() - 1] == y);
        }
        assert(a.contains(y));
        let i = choose|i: int| 0 <= i < b.len() && b[i] == x;
        let j = choose|j: int| 0 <= j < a.len() && a[j] == y;
        assert(!ranks_above(b[b.len() - 1], b[i]) || i == b.len() - 1);
        assert(!ranks_above(a[a.len() - 1], a[j]) || j == a.len() - 1);
        assert(ranks_with(x, y));
        assert(fx(y));
        assert(b.filter(fx).last() == y);
        assert(x == y);
        let a1 = a.drop_last();
        let b1 = b.drop_last();
        assert forall|r: StreamLine| a1.filter(#[trigger] rank_of(r)) == b1.filter(rank_of(r)) by {
            let f = rank_of(r);
            assert(a.filter(f) == b.filter(f));
            if f(x) {
                assert(a.filter(f) == a1.filter(f).push(x));
                assert(b.filter(f) == b1.filter(f).push(x));
                assert(a1.filter(f) =~= a.filter(f).drop_last());
                assert(b1.filter(f) =~= b.filter(f).drop_last());
            }
        }
        assert(is_ranked(a1)) by {
            assert(forall|k: int| 0 <= k < a1.len() ==> #[trigger] a1[k] == a[k]);
        }
        assert(is_ranked(b1)) by {
            assert(forall|k: int| 0 <= k < b1.len() ==> #[trigger] b1[k] == b[k]);
        }
        lemma_ranked_unique(a1, b1);
        assert(a =~= a1.push(x));
        assert(b =~= b1.push(x));
    }
}

/// A device shows one list only.
pub proof fn law_listing_is_unique(
    streams: Seq<StreamDescriptor>,
    a: Seq<StreamLine>,
    b: Seq<StreamLine>,
)
    requires
        is_listing(streams, a),
        is_listing(streams, b),
    ensures
        a == b,
{
    let s = offered(streams);
    let sa = choose|t: Seq<StreamLine>|
        #[trigger] is_stable_ranking(s, t) && a == without_repeats(t);
    let sb = choose|t: Seq<StreamLine>|
        #[trigger] is_stable_ranking(s, t) && b == without_repeats(t);
    law_ranking_is_unique(s, sa, sb);
}

/// No two lines look alike.
pub open spec fn all_differ(s: Seq<StreamLine>) -> bool {
    forall|i: int, j: int|
        #![trigger s[i], s[j]]
        0 <= i < j < s.len() ==> !looks_like(s[i], s[j])
}

proof fn lemma_kept_differ(s: Seq<StreamLine>)
    ensures
        all_differ(without_repeats(s)),
    decreases s.len(),
{
    if s.len() > 0 {
        let t = s.drop_last();
        let v = without_repeats(t);
        let w = without_repeats(s);
        lemma_kept_differ(t);
        lemma_kept_has_like(t, s.last());
        if !has_like(t, s.last()) {
            assert forall|i: int, j: int|
                #![trigger w[i], w[j]]
                0 <= i < j < w.len() implies !looks_like(w[i], w[j]) by {
                assert(w[i] == v[i]);
                if j < v.len() {
                    assert(w[j] == v[j]);
                }
            }
        }
    }
}

proof fn lemma_kept_from(s: Seq<StreamLine>)
    ensures
        forall|i: int|
            0 <= i < without_repeats(s).len() ==> s.contains(#[trigger] without_repeats(s)[i]),
    decreases s.len(),
{
    if s.len() > 0 {
        let t = s.drop_last();
        let v = without_repeats(t);
        let w = without_repeats(s);
        lemma_kept_from(t);
        assert forall|i: int| 0 <= i < w.len() implies s.contains(#[trigger] w[i]) by {
            if i < v.len() {
                assert(w[i] == v[i]);
                assert(t.contains(v[i]));
                let k = choose|k: int| 0 <= k < t.len() && t[k] == v[i];
                assert(s[k] == v[i]);
            } else {
                assert(s[s.len() - 1] == w[i]);
            }
        }
    }
}

/// What looks like a line looks like one that is kept.
proof fn lemma_kept_has_like(s: Seq<StreamLine>, x: StreamLine)
    ensures
        has_like(without_repeats(s), x) == has_like(s, x),
    decreases s.len(),
{
    if s.len() > 0 {
        let t = s.drop_last();
        let v = without_repeats(t);
        let w = without_repeats(s);
        lemma_kept_has_like(t, x);
        lemma_kept_from(s);
        if has_like(s, x) {
            let k = choose|k: int| 0 <= k < s.len() && looks_like(#[trigger] s[k], x);
            if k < t.len() {
                assert(looks_like(t[k], x));
            } else if has_like(t, s.last()) {
                let j = choose|j: int| 0 <= j < t.len() && looks_like(#[trigger] t[j], s.last());
                assert(looks_like(t[j], x));
            } else {
                assert(looks_like(w[w.len() - 1], x));
            }
            if has_like(v, x) {
                let i = choose|i: int| 0 <= i < v.len() && looks_like(#[trigger] v[i], x);
                assert(w[i] == v[i]);
            }
        }
        if has_like(w, x) {
            let i = choose|i: int| 0 <= i < w.len() && looks_like(#[trigger] w[i], x);
            assert(s.contains(w[i]));
        }
    }
}

proof fn lemma_kept_ranked(s: Seq<StreamLine>)
    requires
        is_ranked(s),
    ensures
        is_ranked(without_repeats(s)),
    decreases s.len(),
{
    if s.len() > 0 {
        let t = s.drop_last();
        let v = without_repeats(t);
        let w = without_repeats(s);
        assert(is_ranked(t)) by {
            assert(forall|k: int| 0 <= k < t.len() ==> #[trigger] t[k] == s[k]);
        }
        lemma_kept_ranked(t);
        lemma_kept_from(t);
        if w.len() > v.len() {
            assert forall|i: int, j: int|
                #![trigger w[i], w[j]]
                0 <= i < j < w.len() implies !ranks_above(w[j], w[i]) by {
                assert(w[i] == v[i]);
                if j == v.len() {
                    assert(t.contains(v[i]));
                    let k = choose|k: int| 0 <= k < t.len() && t[k] == v[i];
                    assert(!ranks_above(s[s.len() - 1], s[k]));
                } else {
                    assert(w[j] == v[j]);
                }
            }
        }
    }
}

proof fn lemma_filter_map_members(streams: Seq<StreamDescriptor>)
    ensures
        forall|i: int|
            0 <= i < offered(streams).len() ==> exists|k: int|
                0 <= k < streams.len() && line_of(#[trigger] streams[k]) == Some(
                    #[trigger] offered(streams)[i],
                ),
        forall|k: int|
            0 <= k < streams.len() && (#[trigger] streams[k]).is_eligible() ==> offered(
                streams,
            ).contains(line_of(streams[k])->0),
    decreases streams.len(),
{
    if streams.len() > 0 {
        let t = streams.drop_last();
        lemma_filter_map_members(t);
        assert(forall|k: int| 0 <= k < t.len() ==> #[trigger] t[k] == streams[k]);
        let o = offered(streams);
        let ot = offered(t);
        assert forall|i: int| 0 <= i < o.len() implies exists|k: int|
            0 <= k < streams.len() && line_of(#[trigger] streams[k]) == Some(#[trigger] o[i]) by {
            if i < ot.len() {
                assert(o[i] == ot[i]);
                let k = choose|k: int|
                    0 <= k < t.len() && line_of(#[trigger] t[k]) == Some(ot[i]);
                assert(streams[k] == t[k]);
            } else {
                assert(line_of(streams[streams.len() - 1]) == Some(o[i]));
            }
        }
        assert forall|k: int|
            0 <= k < streams.len() && (#[trigger] streams[k]).is_eligible() implies o.contains(
            line_of(streams[k])->0,
        ) by {
            if k < t.len() {
                assert(t[k] == streams[k]);
                let x = line_of(t[k])->0;
                let i = choose|i: int| 0 <= i < ot.len() && ot[i] == x;
                assert(o[i] == x);
            } else {
                assert(o[o.len() - 1] == line_of(streams[k])->0);
            }
        }
    }
}

proof fn lemma_ranking_members(s: Seq<StreamLine>, sorted: Seq<StreamLine>)
    requires
        is_stable_ranking(s, sorted),
    ensures
        forall|x: StreamLine| #[trigger] s.contains(x) <==> sorted.contains(x),
{
    broadcast use {Seq::lemma_filter_contains_rev, Seq::lemma_filter_contains};

    assert forall|x: StreamLine| #[trigger] s.contains(x) <==> sorted.contains(x) by {
        let f = rank_of(x);
        assert(s.filter(f) == sorted.filter(f));
        if s.contains(x) {
            let i = choose|i: int| 0 <= i < s.len() && s[i] == x;
            assert(f(s[i]));
            assert(s.filter(f).contains(s[i]));
        }
        if sorted.contains(x) {
            let i = choose|i: int| 0 <= i < sorted.len() && sorted[i] == x;
            assert(f(sorted[i]));
            assert(sorted.filter(f).contains(sorted[i]));
        }
    }
}

/// A list runs from high to low rank, no two lines look alike, each line stands for an eligible
/// stream of the device, and each eligible stream is found in it by size and rate.
pub proof fn law_listing_shows_the_streams(
    streams: Seq<StreamDescriptor>,
    listed: Seq<StreamLine>,
)
    requires
        is_listing(streams, listed),
    ensures
        is_ranked(listed),
        all_differ(listed),
        forall|i: int|
            0 <= i < listed.len() ==> exists|k: int|
                0 <= k < streams.len() && line_of(#[trigger] streams[k]) == Some(
                    #[trigger] listed[i],
                ),
        forall|k: int|
            0 <= k < streams.len() && (#[trigger] streams[k]).is_eligible() ==> exists|i: int|
                0 <= i < listed.len() && looks_like(
                    #[trigger] listed[i],
                    line_of(streams[k])->0,
                ),
{
    let o = offered(streams);
    let t = choose|t: Seq<StreamLine>|
        #[trigger] is_stable_ranking(o, t) && listed == without_repeats(t);
    lemma_kept_ranked(t);
    lemma_kept_differ(t);
    lemma_kept_from(t);
    lemma_ranking_members(o, t);
    lemma_filter_map_members(streams);
    assert forall|i: int| 0 <= i < listed.len() implies exists|k: int|
        0 <= k < streams.len() && line_of(#[trigger] streams[k]) == Some(#[trigger] listed[i]) by {
        assert(t.contains(listed[i]));
        assert(o.contains(listed[i]));
        let n = choose|n: int| 0 <= n < o.len() && o[n] == listed[i];
        assert(o[n] == listed[i]);
    }
    assert forall|k: int|
        0 <= k < streams.len() && (#[trigger] streams[k]).is_eligible() implies exists|i: int|
        0 <= i < listed.len() && looks_like(#[trigger] listed[i], line_of(streams[k])->0) by {
        let x = line_of(streams[k])->0;
        assert(o.contains(x));
        assert(t.contains(x));
        let n = choose|n: int| 0 <= n < t.len() && t[n] == x;
        assert(looks_like(t[n], x));
        lemma_kept_has_like(t, x);
    }
}

/// A line holds what the entry of a list holds.
pub proof fn law_line_holds_the_fields(infos: Seq<StreamInfo>, i: int)
    requires
        0 <= i < infos.len(),
    ensures
        lines(infos).len() == infos.len(),
        lines(infos)[i].width == infos[i].width,
        lines(infos)[i].height == infos[i].height,
        lines(infos)[i].fps == infos[i].fps,
        lines(infos)[i].pixfmt == infos[i].pixfmt@,
{
}

/// A stream has a line where it is packed 24-bit RGB of at most 2560 pixels a row. The line tells
/// its size, its rate to the nearest whole number, and the name of its format.
pub proof fn law_line_tells_size_and_rate(d: StreamDescriptor)
    ensures
        line_of(d) is Some <==> d.format == PixelFormat::Rgb(24) && d.width <= 2560,
        line_of(d) matches Some(line) ==> {
            &&& line.width == d.width
            &&& line.height == d.height
            &&& line.pixfmt == "RGB24"@
            &&& d.interval_ms == 0 ==> line.fps == u32::MAX
            &&& d.interval_ms > 0 ==> (2 * line.fps - 1) * d.interval_ms <= 2000 < (2 * line.fps + 1)
                * d.interval_ms
        },
{
    if d.interval_ms > 0 {
        law_frame_rate_is_nearest(d.interval_ms as nat);
    }
}

/// The lines of the streams that can be captured are in the order in which the device names them.
pub proof fn law_lines_are_offered_in_order(streams: Seq<StreamDescriptor>, d: StreamDescriptor)
    ensures
        offered(Seq::empty()) == Seq::<StreamLine>::empty(),
        offered(streams.push(d)) == match line_of(d) {
            Some(line) => offered(streams).push(line),
            None => offered(streams),
        },
{
    assert(streams.push(d).drop_last() =~= streams);
    assert(offered(Seq::empty()) =~= Seq::<StreamLine>::empty());
}

/// Earlier lines of a list have more pixels, or as many and a rate that is not lower, and no two
/// lines have the same size and rate.
pub proof fn law_list_runs_from_large_to_small(
    streams: Seq<StreamDescriptor>,
    listed: Seq<StreamLine>,
    i: int,
    j: int,
)
    requires
        is_listing(streams, listed),
        0 <= i < j < listed.len(),
    ensures
        listed[i].width * listed[i].height >= listed[j].width * listed[j].height,
        listed[i].width * listed[i].height == listed[j].width * listed[j].height ==> listed[i].fps
            >= listed[j].fps,
        !(listed[i].width == listed[j].width && listed[i].height == listed[j].height
            && listed[i].fps == listed[j].fps),
{
    law_listing_shows_the_streams(streams, listed);
    assert(!ranks_above(listed[j], listed[i]));
}

/// Each line of a list has the size of a stream that can be captured, and its rate.
pub proof fn law_listed_line_is_a_stream(
    streams: Seq<StreamDescriptor>,
    listed: Seq<StreamLine>,
    i: int,
)
    requires
        is_listing(streams, listed),
        0 <= i < listed.len(),
    ensures
        exists|k: int|
            {
                &&& 0 <= k < streams.len()
                &&& (#[trigger] streams[k]).format == PixelFormat::Rgb(24)
                &&& streams[k].width <= 2560
                &&& streams[k].width == listed[i].width
                &&& streams[k].height == listed[i].height
                &&& listed[i].fps == frame_rate(streams[k].interval_ms as nat)
            },
        listed[i].pixfmt == "RGB24"@,
{
    law_listing_shows_the_streams(streams, listed);
    let k = choose|k: int|
        0 <= k < streams.len() && line_of(#[trigger] streams[k]) == Some(listed[i]);
    law_line_tells_size_and_rate(streams[k]);
    if streams[k].interval_ms > 0 {
        law_frame_rate_is_nearest(streams[k].interval_ms as nat);
    }
}

/// Each stream that can be captured is found in a list by its size and rate.
pub proof fn law_stream_is_listed(
    streams: Seq<StreamDescriptor>,
    listed: Seq<StreamLine>,
    k: int,
)
    requires
        is_listing(streams, listed),
        0 <= k < streams.len(),
        streams[k].format == PixelFormat::Rgb(24),
        streams[k].width <= 2560,
    ensures
        exists|i: int|
            {
                &&& 0 <= i < listed.len()
                &&& (#[trigger] listed[i]).width == streams[k].width
                &&& listed[i].height == streams[k].height
                &&& listed[i].fps == frame_rate(streams[k].interval_ms as nat)
            },
{
    law_listing_shows_the_streams(streams, listed);
    assert(streams[k].is_eligible());
    let i = choose|i: int|
        0 <= i < listed.len() && looks_like(#[trigger] listed[i], line_of(streams[k])->0);
    if streams[k].interval_ms > 0 {
        law_frame_rate_is_nearest(streams[k].interval_ms as nat);
    }
    assert(listed[i].width == streams[k].width);
}

/// Whatever looks like `y` in `s` comes behind something that looks like `x`.
pub open spec fn precedes(s: Seq<StreamLine>, x: StreamLine, y: StreamLine) -> bool {
    forall|l: int|
        0 <= l < s.len() && looks_like(#[trigger] s[l], y) ==> has_like(s.take(l), x)
}

proof fn lemma_has_like_push(s: Seq<StreamLine>, z: StreamLine, x: StreamLine)
    ensures
        has_like(s.push(z), x) <==> has_like(s, x) || looks_like(z, x),
{
    let t = s.push(z);
    if has_like(s, x) {
        let i = choose|i: int| 0 <= i < s.len() && looks_like(#[trigger] s[i], x);
        assert(looks_like(t[i], x));
    }
    if looks_like(z, x) {
        assert(looks_like(t[s.len() as int], x));
    }
    if has_like(t, x) {
        let i = choose|i: int| 0 <= i < t.len() && looks_like(#[trigger] t[i], x);
        if i < s.len() {
            assert(looks_like(s[i], x));
        }
    }
}

proof fn lemma_precedes_prefix(s: Seq<StreamLine>, z: StreamLine, x: StreamLine, y: StreamLine)
    requires
        precedes(s.push(z), x, y),
    ensures
        precedes(s, x, y),
        looks_like(z, y) ==> has_like(s, x),
{
    let t = s.push(z);
    assert forall|l: int| 0 <= l < s.len() && looks_like(#[trigger] s[l], y) implies has_like(
        s.take(l),
        x,
    ) by {
        assert(looks_like(t[l], y));
        assert(t.take(l) =~= s.take(l));
    }
    if looks_like(z, y) {
        let n = s.len() as int;
        assert(looks_like(t[n], y));
        assert(t.take(n) =~= s);
    }
}

proof fn lemma_precedes_extend(s: Seq<StreamLine>, z: StreamLine, x: StreamLine, y: StreamLine)
    requires
        precedes(s, x, y),
        looks_like(z, y) ==> has_like(s, x),
    ensures
        precedes(s.push(z), x, y),
{
    let t = s.push(z);
    assert forall|l: int| 0 <= l < t.len() && looks_like(#[trigger] t[l], y) implies has_like(
        t.take(l),
        x,
    ) by {
        if l < s.len() {
            assert(looks_like(s[l], y));
            assert(t.take(l) =~= s.take(l));
        } else {
            assert(t.take(l) =~= s);
        }
    }
}

proof fn lemma_precedes_push(s: Seq<StreamLine>, z: StreamLine, x: StreamLine, y: StreamLine)
    ensures
        precedes(s.push(z), x, y) <==> precedes(s, x, y) && (looks_like(z, y) ==> has_like(s, x)),
        has_like(s.push(z), x) <==> has_like(s, x) || looks_like(z, x),
{
    lemma_has_like_push(s, z, x);
    if precedes(s.push(z), x, y) {
        lemma_precedes_prefix(s, z, x, y);
    }
    if precedes(s, x, y) && (looks_like(z, y) ==> has_like(s, x)) {
        lemma_precedes_extend(s, z, x, y);
    }
}

proof fn lemma_precedes_in_rank(
    s: Seq<StreamLine>,
    f: spec_fn(StreamLine) -> bool,
    x: StreamLine,
    y: StreamLine,
)
    requires
        forall|z: StreamLine| #![trigger f(z)] looks_like(z, x) || looks_like(z, y) ==> f(z),
    ensures
        precedes(s.filter(f), x, y) <==> precedes(s, x, y),
        has_like(s.filter(f), x) <==> has_like(s, x),
    decreases s.len(),
{
    reveal_with_fuel(Seq::filter, 2);
    if s.len() > 0 {
        let t = s.drop_last();
        let z = s.last();
        lemma_precedes_in_rank(t, f, x, y);
        assert(s =~= t.push(z));
        lemma_precedes_push(t, z, x, y);
        lemma_precedes_push(t.filter(f), z, x, y);
        assert(looks_like(z, x) || looks_like(z, y) ==> f(z));
    }
}

proof fn lemma_kept_precedes(s: Seq<StreamLine>, x: StreamLine, y: StreamLine)
    requires
        precedes(without_repeats(s), x, y),
    ensures
        precedes(s, x, y),
    decreases s.len(),
{
    if s.len() > 0 {
        let t = s.drop_last();
        let z = s.last();
        let v = without_repeats(t);
        assert(s =~= t.push(z));
        lemma_precedes_push(t, z, x, y);
        lemma_precedes_push(v, z, x, y);
        lemma_kept_precedes(t, x, y);
        lemma_kept_has_like(t, x);
        if looks_like(z, y) && has_like(t, z) {
            let l = choose|l: int| 0 <= l < t.len() && looks_like(#[trigger] t[l], z);
            assert(looks_like(t[l], y));
            assert(has_like(t.take(l), x));
            let i = choose|i: int| 0 <= i < t.take(l).len() && looks_like(#[trigger] t.take(l)[i], x);
            assert(looks_like(t[i], x));
        }
    }
}

proof fn lemma_offered_precedes(
    streams: Seq<StreamDescriptor>,
    x: StreamLine,
    y: StreamLine,
    l: int,
)
    requires
        precedes(offered(streams), x, y),
        0 <= l < streams.len(),
        line_of(streams[l]) matches Some(z) && looks_like(z, y),
    ensures
        exists|k: int|
            0 <= k < l && line_of(#[trigger] streams[k]) is Some && looks_like(
                line_of(streams[k])->0,
                x,
            ),
    decreases streams.len(),
{
    let t = streams.drop_last();
    let d = streams.last();
    assert(streams =~= t.push(d));
    law_lines_are_offered_in_order(t, d);
    if line_of(d) is Some {
        lemma_precedes_push(offered(t), line_of(d)->0, x, y);
    }
    if l < t.len() {
        lemma_offered_precedes(t, x, y, l);
        let k = choose|k: int|
            0 <= k < l && line_of(#[trigger] t[k]) is Some && looks_like(line_of(t[k])->0, x);
        assert(streams[k] == t[k]);
    } else {
        let o = offered(t);
        let i = choose|i: int| 0 <= i < o.len() && looks_like(#[trigger] o[i], x);
        lemma_filter_map_members(t);
        let k = choose|k: int| 0 <= k < t.len() && line_of(#[trigger] t[k]) == Some(o[i]);
        assert(streams[k] == t[k]);
    }
}

/// Of two lines with as many pixels and the same rate, the one that comes first in a list is that
/// of the stream that the device names first.
pub proof fn law_equal_lines_keep_their_order(
    streams: Seq<StreamDescriptor>,
    listed: Seq<StreamLine>,
    i: int,
    j: int,
    l: int,
)
    requires
        is_listing(streams, listed),
        0 <= i < j < listed.len(),
        listed[i].width * listed[i].height == listed[j].width * listed[j].height,
        listed[i].fps == listed[j].fps,
        0 <= l < streams.len(),
        streams[l].is_eligible(),
        streams[l].width == listed[j].width,
        streams[l].height == listed[j].height,
        frame_rate(streams[l].interval_ms as nat) == listed[j].fps,
    ensures
        exists|k: int|
            {
                &&& 0 <= k < l
                &&& (#[trigger] streams[k]).is_eligible()
                &&& streams[k].width == listed[i].width
                &&& streams[k].height == listed[i].height
                &&& frame_rate(streams[k].interval_ms as nat) == listed[i].fps
            },
{
    let o = offered(streams);
    let t = choose|t: Seq<StreamLine>|
        #[trigger] is_stable_ranking(o, t) && listed == without_repeats(t);
    let x = listed[i];
    let y = listed[j];
    lemma_kept_differ(t);
    assert(precedes(listed, x, y)) by {
        assert forall|n: int| 0 <= n < listed.len() && looks_like(#[trigger] listed[n], y) implies has_like(
            listed.take(n),
            x,
        ) by {
            if n < j {
                assert(!looks_like(listed[n], listed[j]));
            } else if n > j {
                assert(!looks_like(listed[j], listed[n]));
            }
            assert(looks_like(listed.take(n)[i], x));
        }
    }
    lemma_kept_precedes(t, x, y);
    let f = rank_of(x);
    assert(o.filter(f) == t.filter(f));
    assert forall|z: StreamLine| #![trigger f(z)] looks_like(z, x) || looks_like(z, y) implies f(z) by {}
    lemma_precedes_in_rank(t, f, x, y);
    lemma_precedes_in_rank(o, f, x, y);
    lemma_offered_precedes(streams, x, y, l);
    let k = choose|k: int|
        0 <= k < l && line_of(#[trigger] streams[k]) is Some && looks_like(
            line_of(streams[k])->0,
            x,
        );
    assert(streams[k].is_eligible());
    if streams[k].interval_ms > 0 {
        law_frame_rate_is_nearest(streams[k].interval_ms as nat);
    }
}

/// No two lines of a list have the same size and rate.
pub proof fn law_listing_has_no_duplicates(
    streams: Seq<StreamDescriptor>,
    listed: Seq<StreamLine>,
    i: int,
    j: int,
)
    requires
        is_listing(streams, listed),
        0 <= i < j < listed.len(),
    ensures
        !looks_like(listed[i], listed[j]),
{
    law_listing_shows_the_streams(streams, listed);
}

} // verus!
