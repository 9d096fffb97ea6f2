//! Capture streams: which ones a camera offers, in what order they are shown, and which one is
//! opened.

use vstd::prelude::*;

verus! {

/// Widest picture that is considered for capture, in pixels.
pub const MAX_WIDTH: u32 = 2560;

/// How a stream encodes its pixels.
#[derive(Clone, Copy, Debug, PartialEq, Eq, Structural)]
pub enum PixelFormat {
    /// Packed red, green and blue samples, with this many bits per pixel.
    Rgb(u32),
    /// Any other encoding.
    Other,
}

/// One stream that a capture device offers.
#[derive(Clone, Copy, Debug, PartialEq, Eq, Structural)]
pub struct StreamDescriptor {
    pub width: u32,
    pub height: u32,
    pub format: PixelFormat,
    /// Time between two frames, in whole milliseconds.
    pub interval_ms: u128,
}

impl StreamDescriptor {
    /// Packed 24-bit RGB.
    pub open spec fn is_rgb24(self) -> bool {
        self.format == PixelFormat::Rgb(24)
    }

    /// Packed 24-bit RGB that is not wider than [`MAX_WIDTH`].
    pub open spec fn is_eligible(self) -> bool {
        self.is_rgb24() && self.width <= MAX_WIDTH
    }

    /// Pixels per millisecond, rounded down.
    pub open spec fn throughput(self) -> nat
        recommends
            self.interval_ms > 0,
    {
        (self.width as nat) * (self.height as nat) / (self.interval_ms as nat)
    }

    /// Whether the stream is packed 24-bit RGB of a supported width.
    pub fn eligible(&self) -> (r: bool)
        ensures
            r == self.is_eligible(),
            r == (self.format == PixelFormat::Rgb(24) && self.width <= 2560),
    {
        self.format == PixelFormat::Rgb(24) && self.width <= MAX_WIDTH
    }
}

/// The whole number nearest to `1000 / interval_ms`, a tie going up. An interval of zero counts
/// as the highest rate there is.
pub open spec fn frame_rate(interval_ms: nat) -> nat {
    if interval_ms == 0 {
        u32::MAX as nat
    } else {
        (2000 + interval_ms) / (2 * interval_ms)
    }
}

/// Half a frame below and half a frame above the rate enclose `1000 / interval_ms`.
pub proof fn law_frame_rate_is_nearest(interval_ms: nat)
    requires
        interval_ms > 0,
    ensures
        (2 * frame_rate(interval_ms) - 1) * interval_ms <= 2000 < (2 * frame_rate(interval_ms) + 1)
            * interval_ms,
        frame_rate(interval_ms) <= 1000,
{
    let q = frame_rate(interval_ms);
    assert((2 * q - 1) * interval_ms <= 2000 < (2 * q + 1) * interval_ms) by (nonlinear_arith)
        requires
            interval_ms > 0,
            q == (2000 + interval_ms) / (2 * interval_ms),
    ;
    assert(q <= 1000) by (nonlinear_arith)
        requires
            interval_ms > 0,
            (2 * q - 1) * interval_ms <= 2000,
    ;
}

/// Frames per second of a stream that delivers a frame every `interval_ms` milliseconds.
pub fn frames_per_second(interval_ms: u128) -> (fps: u32)
    ensures
        fps == frame_rate(interval_ms as nat),
        interval_ms == 0 ==> fps == u32::MAX,
        interval_ms > 0 ==> fps <= 1000 && (2 * fps - 1) * interval_ms <= 2000 < (2 * fps + 1)
            * interval_ms,
{
    if interval_ms == 0 {
        return u32::MAX;
    }
    proof {
        law_frame_rate_is_nearest(interval_ms as nat);
    }
    if interval_ms > 2000 {
        let ghost q = frame_rate(interval_ms as nat);
        assert(q == 0) by (nonlinear_arith)
            requires
                interval_ms > 2000,
                (2 * q - 1) * interval_ms <= 2000,
        ;
        0
    } else {
        ((2000 + interval_ms) / (2 * interval_ms)) as u32
    }
}

/// Whether stream `i` has the highest throughput of the eligible ones, and is the last to reach
/// it.
pub open spec fn is_best(streams: Seq<StreamDescriptor>, i: int) -> bool {
    &&& 0 <= i < streams.len()
    &&& streams[i].is_eligible()
    &&& forall|j: int|
        0 <= j < streams.len() && (#[trigger] streams[j]).is_eligible() ==> {
            &&& streams[j].throughput() <= streams[i].throughput()
            &&& i < j ==> streams[j].throughput() < streams[i].throughput()
        }
}

/// Whether the throughput of every eligible stream is defined.
pub open spec fn rates_defined(streams: Seq<StreamDescriptor>) -> bool {
    forall|i: int|
        0 <= i < streams.len() && (#[trigger] streams[i]).is_eligible() ==> streams[i].interval_ms
            > 0
}

/// The eligible stream with the highest throughput, the last one if several share it; none if no
/// stream is eligible.
pub fn best_stream(streams: &Vec<StreamDescriptor>) -> (best: Option<usize>)
    requires
        rates_defined(streams@),
    ensures
        best is None <==> forall|i: int|
            0 <= i < streams.len() ==> !(#[trigger] streams@[i]).is_eligible(),
        best matches Some(i) ==> is_best(streams@, i as int),
        best is None <==> forall|i: int|
            0 <= i < streams.len() ==> !((#[trigger] streams@[i]).format == PixelFormat::Rgb(24)
                && streams@[i].width <= 2560),
        best matches Some(i) ==> {
            let b = streams@[i as int];
            &&& i < streams.len() && b.format == PixelFormat::Rgb(24) && b.width <= 2560
            &&& forall|j: int|
                0 <= j < streams.len() && (#[trigger] streams@[j]).format == PixelFormat::Rgb(24)
                    && streams@[j].width <= 2560 ==> {
                    let pace = (streams@[j].width as nat) * (streams@[j].height as nat) / (
                    streams@[j].interval_ms as nat);
                    let best_pace = (b.width as nat) * (b.height as nat) / (b.interval_ms as nat);
                    pace <= best_pace && (i < j ==> pace < best_pace)
                }
        },
{
    let mut best: Option<usize> = None;
    let mut best_rate: u128 = 0;
    let mut i: usize = 0;
    while i < streams.len()
        invariant
            rates_defined(streams@),
            i <= streams.len(),
            best is None ==> forall|j: int| 0 <= j < i ==> !(#[trigger] streams@[j]).is_eligible(),
            best matches Some(b) ==> {
                &&& b < i
                &&& is_best(streams@.take(i as int), b as int)
                &&& best_rate == streams@[b as int].throughput()
            },
        decreases streams.len() - i,
    {
        let s = streams[i];
        let ghost seen = streams@.take(i as int);
        let ghost next = streams@.take(i + 1);
        assert(forall|j: int| 0 <= j < i ==> #[trigger] next[j] == seen[j]);
        assert(next[i as int] == s);
        if s.eligible() {
            assert((s.width as u128) * (s.height as u128) <= u64::MAX as u128) by (nonlinear_arith)
                requires
                    s.width <= u32::MAX,
                    s.height <= u32::MAX,
            ;
            let rate: u128 = (s.width as u128) * (s.height as u128) / s.interval_ms;
            assert(rate == s.throughput());
            match best {
                None => {
                    best = Some(i);
                    best_rate = rate;
                },
                Some(_) => {
                    if rate >= best_rate {
                        best = Some(i);
                        best_rate = rate;
                    }
                },
            }
        }
        i = i + 1;
    }
    assert(streams@.take(i as int) =~= streams@);
    best
}

/// Two's complement reading of a 32-bit number.
pub open spec fn as_signed(x: u32) -> int {
    if x <= i32::MAX {
        x as int
    } else {
        x - 0x1_0000_0000
    }
}

/// Frames per second as a signed 32-bit number, at most the highest there is.
pub open spec fn signed_rate(interval_ms: nat) -> int {
    if interval_ms == 0 {
        i32::MAX as int
    } else {
        frame_rate(interval_ms) as int
    }
}

/// How far the frame rate of a stream is from the wanted one.
pub open spec fn rate_gap(s: StreamDescriptor, target_fps: u32) -> int {
    let d = signed_rate(s.interval_ms as nat) - as_signed(target_fps);
    if d < 0 {
        -d
    } else {
        d
    }
}

/// Packed 24-bit RGB of exactly this size.
pub open spec fn has_size(s: StreamDescriptor, width: u32, height: u32) -> bool {
    s.is_rgb24() && s.width == width && s.height == height
}

/// Whether stream `i` is nearest to the wanted rate of those with the wanted size, and the first
/// that is so near.
pub open spec fn is_closest(
    streams: Seq<StreamDescriptor>,
    width: u32,
    height: u32,
    target_fps: u32,
    i: int,
) -> bool {
    &&& 0 <= i < streams.len()
    &&& has_size(streams[i], width, height)
    &&& forall|j: int|
        #![trigger streams[j]]
        0 <= j < streams.len() && has_size(streams[j], width, height) ==> {
            &&& rate_gap(streams[i], target_fps) <= rate_gap(streams[j], target_fps)
            &&& j < i ==> rate_gap(streams[i], target_fps) < rate_gap(streams[j], target_fps)
        }
}

/// Whether the distance of every stream of the wanted size from the wanted rate fits in a signed
/// 32-bit number.
pub open spec fn gaps_fit(
    streams: Seq<StreamDescriptor>,
    width: u32,
    height: u32,
    target_fps: u32,
) -> bool {
    forall|i: int|
        #![trigger streams[i]]
        0 <= i < streams.len() && has_size(streams[i], width, height) ==> rate_gap(
            streams[i],
            target_fps,
        ) <= i32::MAX
}

fn rate_gap_of(s: &StreamDescriptor, target_fps: u32) -> (gap: i64)
    ensures
        gap == rate_gap(*s, target_fps),
        0 <= gap <= 2 * i32::MAX + 1,
{
    let rate: i64 = if s.interval_ms == 0 {
        i32::MAX as i64
    } else {
        frames_per_second(s.interval_ms) as i64
    };
    let target: i64 = if target_fps <= i32::MAX as u32 {
        target_fps as i64
    } else {
        target_fps as i64 - 0x1_0000_0000
    };
    if rate < target {
        target - rate
    } else {
        rate - target
    }
}

/// Whether [`closest_stream`] can measure every stream of the wanted size.
pub fn rate_gaps_fit(
    streams: &Vec<StreamDescriptor>,
    width: u32,
    height: u32,
    target_fps: u32,
) -> (r: bool)
    ensures
        r == gaps_fit(streams@, width, height, target_fps),
{
    let mut i: usize = 0;
    while i < streams.len()
        invariant
            i <= streams.len(),
            gaps_fit(streams@.take(i as int), width, height, target_fps),
        decreases streams.len() - i,
    {
        let s = streams[i];
        assert(streams@.take(i + 1)[i as int] == s);
        assert(forall|j: int|
            0 <= j < i ==> #[trigger] streams@.take(i + 1)[j] == streams@.take(i as int)[j]);
        if s.format == PixelFormat::Rgb(24) && s.width == width && s.height == height {
            if rate_gap_of(&s, target_fps) > i32::MAX as i64 {
                assert(has_size(streams@[i as int], width, height));
                return false;
            }
        }
        i = i + 1;
    }
    assert(streams@.take(i as int) =~= streams@);
    true
}

/// The stream of the wanted size whose frame rate is nearest to the wanted one, the first if
/// several are; none if no stream has that size.
pub fn closest_stream(
    streams: &Vec<StreamDescriptor>,
    width: u32,
    height: u32,
    target_fps: u32,
) -> (closest: Option<usize>)
    requires
        gaps_fit(streams@, width, height, target_fps),
    ensures
        closest is None <==> forall|i: int|
            0 <= i < streams.len() ==> !has_size(#[trigger] streams@[i], width, height),
        closest matches Some(i) ==> is_closest(streams@, width, height, target_fps, i as int),
        closest is None <==> forall|i: int|
            #![trigger streams@[i]]
            0 <= i < streams.len() ==> !(streams@[i].format == PixelFormat::Rgb(24)
                && streams@[i].width == width && streams@[i].height == height),
        closest matches Some(i) ==> {
            let c = streams@[i as int];
            &&& i < streams.len() && c.format == PixelFormat::Rgb(24)
            &&& c.width == width && c.height == height
        },
{
    let mut closest: Option<usize> = None;
    let mut closest_gap: i64 = 0;
    let mut i: usize = 0;
    while i < streams.len()
        invariant
            i <= streams.len(),
            closest is None ==> forall|j: int|
                0 <= j < i ==> !has_size(#[trigger] streams@[j], width, height),
            closest matches Some(c) ==> {
                &&& c < i
                &&& is_closest(streams@.take(i as int), width, height, target_fps, c as int)
                &&& closest_gap == rate_gap(streams@[c as int], target_fps)
            },
        decreases streams.len() - i,
    {
        let s = streams[i];
        let ghost seen = streams@.take(i as int);
        let ghost next = streams@.take(i + 1);
        assert(forall|j: int| 0 <= j < i ==> #[trigger] next[j] == seen[j]);
        assert(next[i as int] == s);
        if s.format == PixelFormat::Rgb(24) && s.width == width && s.height == height {
            let gap: i64 = rate_gap_of(&s, target_fps);
            match closest {
                None => {
                    closest = Some(i);
                    closest_gap = gap;
                },
                Some(_) => {
                    if gap < closest_gap {
                        closest = Some(i);
                        closest_gap = gap;
                    }
                },
            }
        }
        i = i + 1;
    }
    assert(streams@.take(i as int) =~= streams@);
    closest
}

/// A stream can be captured where it is packed 24-bit RGB of at most 2560 pixels a row.
pub proof fn law_eligible_streams(s: StreamDescriptor)
    ensures
        s.is_eligible() <==> s.format == PixelFormat::Rgb(24) && s.width <= 2560,
        s.is_rgb24() <==> s.format == PixelFormat::Rgb(24),
{
}

/// Throughput is the largest whole number of pixels per millisecond that the stream reaches: over
/// one interval it counts at most the pixels of a frame, and one more would count too many.
pub proof fn law_throughput_is_pixels_per_millisecond(s: StreamDescriptor)
    requires
        s.interval_ms > 0,
    ensures
        s.throughput() * s.interval_ms <= s.width * s.height < (s.throughput() + 1) * s.interval_ms,
{
    let pixels = (s.width as nat) * (s.height as nat);
    let ms = s.interval_ms as nat;
    let t = s.throughput();
    assert(t * ms <= pixels < (t + 1) * ms) by (nonlinear_arith)
        requires
            ms > 0,
            t == pixels / ms,
    ;
}

/// No stream that can be captured delivers more pixels per millisecond than the best one, by a
/// whole pixel or more: what it delivers in as much time as it takes the best one to deliver a
/// frame stays below one pixel per millisecond more than that frame.
pub proof fn law_best_stream_delivers_most(streams: Seq<StreamDescriptor>, i: int, j: int)
    requires
        rates_defined(streams),
        is_best(streams, i),
        0 <= j < streams.len(),
        streams[j].format == PixelFormat::Rgb(24),
        streams[j].width <= 2560,
    ensures
        0 <= i < streams.len(),
        streams[i].format == PixelFormat::Rgb(24),
        streams[i].width <= 2560,
        streams[i].interval_ms > 0,
        ({
            let a = streams[i];
            let b = streams[j];
            &&& (b.width as nat) * (b.height as nat) / (b.interval_ms as nat) <= (a.width as nat) * (
            a.height as nat) / (a.interval_ms as nat)
            &&& i < j ==> (b.width as nat) * (b.height as nat) / (b.interval_ms as nat) < (
            a.width as nat) * (a.height as nat) / (a.interval_ms as nat)
            &&& b.width * b.height * a.interval_ms < (a.width * a.height + a.interval_ms)
                * b.interval_ms
        }),
{
    let a = streams[i];
    let b = streams[j];
    assert(b.is_eligible() && a.is_eligible());
    law_throughput_is_pixels_per_millisecond(a);
    law_throughput_is_pixels_per_millisecond(b);
    let ta = a.throughput();
    let tb = b.throughput();
    let pa = a.width * a.height;
    let pb = b.width * b.height;
    let ma = a.interval_ms as int;
    let mb = b.interval_ms as int;
    assert(pb * ma < (pa + ma) * mb) by (nonlinear_arith)
        requires
            tb <= ta,
            0 < ma,
            0 < mb,
            ta * ma <= pa,
            pb < (tb + 1) * mb,
    ;
}

/// Of two streams with the same interval the one with more pixels is never beaten by the other,
/// and neither is the faster of two with the same size.
pub proof fn law_more_pixels_or_speed_is_better(a: StreamDescriptor, b: StreamDescriptor)
    requires
        a.width * a.height >= b.width * b.height,
        0 < a.interval_ms <= b.interval_ms,
    ensures
        a.throughput() >= b.throughput(),
{
    law_throughput_is_pixels_per_millisecond(a);
    law_throughput_is_pixels_per_millisecond(b);
    let ta = a.throughput();
    let tb = b.throughput();
    let pa = a.width * a.height;
    let pb = b.width * b.height;
    let ma = a.interval_ms as int;
    let mb = b.interval_ms as int;
    assert(tb <= ta) by (nonlinear_arith)
        requires
            pa >= pb,
            0 < ma <= mb,
            pa < (ta + 1) * ma,
            tb * mb <= pb,
            tb >= 0,
    ;
}

/// The throughput of every stream that can be captured is defined where none of them has an
/// interval of zero.
pub proof fn law_rates_are_defined(streams: Seq<StreamDescriptor>)
    ensures
        rates_defined(streams) <==> forall|i: int|
            0 <= i < streams.len() && (#[trigger] streams[i]).format == PixelFormat::Rgb(24)
                && streams[i].width <= 2560 ==> streams[i].interval_ms > 0,
{
}

/// A 32-bit number and its signed reading differ by a multiple of 2^32.
pub proof fn law_signed_reading(x: u32)
    ensures
        i32::MIN <= as_signed(x) <= i32::MAX,
        (x - as_signed(x)) % 0x1_0000_0000 == 0,
        x <= i32::MAX ==> as_signed(x) == x,
{
}

/// The distance of a stream from the wanted rate is that of its rate, rounded to the nearest
/// whole number, on either side.
pub proof fn law_rate_gap_is_the_distance(s: StreamDescriptor, target_fps: u32)
    ensures
        signed_rate(s.interval_ms as nat) == if s.interval_ms == 0 {
            i32::MAX as int
        } else {
            frame_rate(s.interval_ms as nat) as int
        },
        rate_gap(s, target_fps) >= 0,
        s.interval_ms > 0 ==> {
            let rate = (2000 + s.interval_ms) / (2 * s.interval_ms as int);
            ||| as_signed(target_fps) + rate_gap(s, target_fps) == rate
            ||| as_signed(target_fps) - rate_gap(s, target_fps) == rate
        },
        s.interval_ms == 0 ==> as_signed(target_fps) + rate_gap(s, target_fps) == i32::MAX,
{
    law_signed_reading(target_fps);
}

/// A stream has the wanted size where it is packed 24-bit RGB of that width and height.
pub proof fn law_size_is_width_and_height(s: StreamDescriptor, width: u32, height: u32)
    ensures
        has_size(s, width, height) <==> s.format == PixelFormat::Rgb(24) && s.width == width
            && s.height == height,
{
}

/// The closest stream has the wanted size. No stream of that size has a rate nearer to the wanted
/// one, and none before it has one as near.
pub proof fn law_closest_stream_is_nearest(
    streams: Seq<StreamDescriptor>,
    width: u32,
    height: u32,
    target_fps: u32,
    i: int,
    j: int,
)
    requires
        is_closest(streams, width, height, target_fps, i),
        target_fps <= i32::MAX,
        0 <= j < streams.len(),
        streams[j].format == PixelFormat::Rgb(24),
        streams[j].width == width,
        streams[j].height == height,
        streams[j].interval_ms > 0,
    ensures
        0 <= i < streams.len(),
        streams[i].format == PixelFormat::Rgb(24),
        streams[i].width == width,
        streams[i].height == height,
        ({
            let rate = (2000 + streams[j].interval_ms) / (2 * streams[j].interval_ms as int);
            let found = if streams[i].interval_ms == 0 {
                i32::MAX as int
            } else {
                (2000 + streams[i].interval_ms) / (2 * streams[i].interval_ms as int)
            };
            let away = if rate <= target_fps {
                target_fps - rate
            } else {
                rate - target_fps
            };
            &&& target_fps - away <= found <= target_fps + away
            &&& j < i ==> target_fps - away < found < target_fps + away
        }),
{
    assert(has_size(streams[j], width, height));
    law_rate_gap_is_the_distance(streams[i], target_fps);
    law_rate_gap_is_the_distance(streams[j], target_fps);
}

/// Whatever rate is wanted, no stream of the wanted size is at a smaller distance from it than the
/// closest one, and none before that is at the same distance.
pub proof fn law_closest_stream_has_the_least_gap(
    streams: Seq<StreamDescriptor>,
    width: u32,
    height: u32,
    target_fps: u32,
    i: int,
    j: int,
)
    requires
        is_closest(streams, width, height, target_fps, i),
        0 <= j < streams.len(),
        streams[j].format == PixelFormat::Rgb(24),
        streams[j].width == width,
        streams[j].height == height,
    ensures
        0 <= i < streams.len(),
        streams[i].format == PixelFormat::Rgb(24),
        streams[i].width == width,
        streams[i].height == height,
        rate_gap(streams[i], target_fps) <= rate_gap(streams[j], target_fps),
        j < i ==> rate_gap(streams[i], target_fps) < rate_gap(streams[j], target_fps),
{
    assert(has_size(streams[j], width, height));
}

/// Where a stream of the wanted size delivers the wanted number of frames per second, to the
/// nearest whole number, so does the stream that is opened.
pub proof fn law_wanted_rate_is_opened(
    streams: Seq<StreamDescriptor>,
    width: u32,
    height: u32,
    target_fps: u32,
    i: int,
    j: int,
)
    requires
        is_closest(streams, width, height, target_fps, i),
        0 <= j < streams.len(),
        streams[j].format == PixelFormat::Rgb(24),
        streams[j].width == width,
        streams[j].height == height,
        streams[j].interval_ms > 0,
        (2 * target_fps - 1) * streams[j].interval_ms <= 2000 < (2 * target_fps + 1)
            * streams[j].interval_ms,
    ensures
        0 <= i < streams.len(),
        streams[i].width == width,
        streams[i].height == height,
        streams[i].interval_ms > 0,
        (2 * target_fps - 1) * streams[i].interval_ms <= 2000 < (2 * target_fps + 1)
            * streams[i].interval_ms,
        i <= j,
{
    let ms = streams[j].interval_ms as nat;
    law_frame_rate_is_nearest(ms);
    let q = frame_rate(ms) as int;
    let t = target_fps as int;
    assert(q == t) by (nonlinear_arith)
        requires
            ms > 0,
            (2 * q - 1) * ms <= 2000 < (2 * q + 1) * ms,
            (2 * t - 1) * ms <= 2000 < (2 * t + 1) * ms,
    ;
    assert(has_size(streams[j], width, height));
    law_rate_gap_is_the_distance(streams[i], target_fps);
    law_rate_gap_is_the_distance(streams[j], target_fps);
    assert(rate_gap(streams[j], target_fps) == 0);
    if streams[i].interval_ms > 0 {
        law_frame_rate_is_nearest(streams[i].interval_ms as nat);
    }
}

/// Rates can be compared with any wanted one that is no negative number in its signed reading, and
/// otherwise where no distance exceeds the largest signed number.
pub proof fn law_rates_can_be_compared(
    streams: Seq<StreamDescriptor>,
    width: u32,
    height: u32,
    target_fps: u32,
)
    ensures
        target_fps <= i32::MAX ==> gaps_fit(streams, width, height, target_fps),
        target_fps > i32::MAX ==> (gaps_fit(streams, width, height, target_fps) <==> forall|i: int|
            #![trigger streams[i]]
            0 <= i < streams.len() && streams[i].format == PixelFormat::Rgb(24)
                && streams[i].width == width && streams[i].height == height
                ==> streams[i].interval_ms > 0 && (2000 + streams[i].interval_ms) / (2
                * streams[i].interval_ms as int) + 0x1_0000_0000 - target_fps <= i32::MAX),
{
    assert forall|i: int| #![trigger streams[i]] 0 <= i < streams.len() implies {
        let s = streams[i];
        &&& target_fps <= i32::MAX ==> rate_gap(s, target_fps) <= i32::MAX
        &&& target_fps > i32::MAX && s.interval_ms > 0 ==> rate_gap(s, target_fps) == (2000
            + s.interval_ms) / (2 * s.interval_ms as int) + 0x1_0000_0000 - target_fps
        &&& target_fps > i32::MAX && s.interval_ms == 0 ==> rate_gap(s, target_fps) > i32::MAX
    } by {
        law_rate_gap_is_the_distance(streams[i], target_fps);
        if streams[i].interval_ms > 0 {
            law_frame_rate_is_nearest(streams[i].interval_ms as nat);
        }
    }
}

/// There is at most one closest stream.
pub proof fn law_closest_stream_is_unique(
    streams: Seq<StreamDescriptor>,
    width: u32,
    height: u32,
    target_fps: u32,
    i: int,
    j: int,
)
    requires
        is_closest(streams, width, height, target_fps, i),
        is_closest(streams, width, height, target_fps, j),
    ensures
        i == j,
{
    assert(has_size(streams[i], width, height) && has_size(streams[j], width, height));
}

/// There is at most one best stream.
pub proof fn law_best_stream_is_unique(streams: Seq<StreamDescriptor>, i: int, j: int)
    requires
        is_best(streams, i),
        is_best(streams, j),
    ensures
        i == j,
{
    assert(streams[i].is_eligible() && streams[j].is_eligible());
}

} // verus!
