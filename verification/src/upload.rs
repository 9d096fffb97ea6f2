//! What the viewer hands to the GPU: rectangles, packed RGB frames, frames in DMA buffers.

use crate::binary::Real32;
use crate::bytes::{
    dimension_block, dimension_bytes, law_rect_block_size, native_order, rect_block, rect_bytes,
    ByteOrder,
};
use crate::dmabuf::DmaBufFrame;
use crate::frame::SharedFrame;
use crate::player::{GpuRect, Point, UVCPlayer};
use vstd::arithmetic::power2::{lemma_pow2_unfold, lemma_pow2_strictly_increases, pow2};
use vstd::prelude::*;

verus! {

/// A power of two.
pub open spec fn is_power_of_two(n: nat) -> bool {
    exists|k: nat| n == #[trigger] pow2(k)
}

/// `p` is the least power of two that is not below `n`.
pub open spec fn is_least_power(n: nat, p: nat) -> bool {
    &&& is_power_of_two(p)
    &&& n <= p
    &&& forall|q: nat| #[trigger] is_power_of_two(q) && n <= q ==> p <= q
}

/// The least power of two that is not below `n`.
pub fn power_of_two_from(n: u64) -> (p: u64)
    requires
        n <= 0x8000_0000_0000_0000,
    ensures
        is_least_power(n as nat, p as nat),
{
    let mut p: u64 = 1;
    let ghost mut k: nat = 0;
    proof {
        vstd::arithmetic::power2::lemma2_to64();
        vstd::arithmetic::power2::lemma2_to64_rest();
    }
    while p < n
        invariant
            n <= 0x8000_0000_0000_0000,
            0x8000_0000_0000_0000 == pow2(63),
            p == pow2(k),
            k <= 63,
            k > 0 ==> p < 2 * n,
        decreases 63 - k,
    {
        proof {
            lemma_pow2_unfold(k + 1);
            k = k + 1;
            if k < 63 {
                lemma_pow2_strictly_increases(k, 63);
            }
        }
        p = p * 2;
    }
    proof {
        assert(is_power_of_two(p as nat));
        assert forall|q: nat| #[trigger] is_power_of_two(q) && n <= q implies p <= q by {
            let j = choose|j: nat| q == #[trigger] pow2(j);
            if j < k {
                lemma_pow2_unfold(k);
                if j < k - 1 {
                    lemma_pow2_strictly_increases(j, (k - 1) as nat);
                }
                assert(2 * pow2((k - 1) as nat) == p);
            } else if j > k {
                lemma_pow2_strictly_increases(k, j);
            }
        }
    }
    p
}

/// The least multiple of four that is not below `n`.
pub open spec fn word_aligned(n: nat) -> nat {
    (n + 3) / 4 * 4
}

/// The number of groups of eight that cover `n`.
pub open spec fn groups_of_eight(n: u32) -> u32 {
    ((n + 7) / 8) as u32
}

fn cover_by_eight(n: u32) -> (r: u32)
    ensures
        r == groups_of_eight(n),
{
    if n % 8 == 0 {
        n / 8
    } else {
        n / 8 + 1
    }
}

/// The work groups of a compute pass cover the picture, and none lies outside it.
pub proof fn law_work_groups_cover(n: u32)
    ensures
        n <= groups_of_eight(n) * 8 < n + 8,
{
}

/// The rectangles that can be drawn, in their order.
pub open spec fn drawable(candidates: Seq<Option<GpuRect>>) -> Seq<GpuRect> {
    candidates.filter_map(|c: Option<GpuRect>| c)
}

/// Bytes that some rectangles take on the GPU; there is room for one at least.
pub open spec fn rect_room(n: nat) -> nat {
    if n == 0 {
        32
    } else {
        32 * n
    }
}

impl GpuRect {
    /// The numbers of a rectangle in the order in which the shaders read them.
    pub open spec fn numbers(
        origin: Point,
        unit_x: Point,
        unit_y: Point,
        width: Real32,
        height: Real32,
    ) -> Seq<Real32> {
        seq![origin.x, origin.y, unit_x.x, unit_x.y, unit_y.x, unit_y.y, width, height]
    }

    /// The rectangle with this origin, unit vectors along its sides, width and height; none if it
    /// is empty.
    pub fn from_sides(
        origin: Point,
        unit_x: Point,
        unit_y: Point,
        width: Real32,
        height: Real32,
    ) -> (r: Option<GpuRect>)
        ensures
            match r {
                Some(rect) => {
                    &&& !width.is_at_most_zero() && !height.is_at_most_zero()
                    &&& rect.values@ == Self::numbers(origin, unit_x, unit_y, width, height)
                    &&& rect.values@[0] == origin.x && rect.values@[1] == origin.y
                    &&& rect.values@[2] == unit_x.x && rect.values@[3] == unit_x.y
                    &&& rect.values@[4] == unit_y.x && rect.values@[5] == unit_y.y
                    &&& rect.values@[6] == width && rect.values@[7] == height
                },
                None => width.is_at_most_zero() || height.is_at_most_zero(),
            },
    {
        if width.at_most_zero() || height.at_most_zero() {
            return None;
        }
        let rect = GpuRect {
            values: [
                origin.x,
                origin.y,
                unit_x.x,
                unit_x.y,
                unit_y.x,
                unit_y.y,
                width,
                height,
            ],
        };
        assert(rect.values@ =~= Self::numbers(origin, unit_x, unit_y, width, height));
        Some(rect)
    }
}

/// The shaders read the numbers of a rectangle in pairs: where it starts, along which vector its
/// width runs, along which its height runs, and how long both are.
pub proof fn law_rect_is_read_in_pairs(
    origin: Point,
    unit_x: Point,
    unit_y: Point,
    width: Real32,
    height: Real32,
)
    ensures
        ({
            let v = GpuRect::numbers(origin, unit_x, unit_y, width, height);
            &&& v.len() == 8
            &&& origin == Point { x: v[0], y: v[1] }
            &&& unit_x == Point { x: v[2], y: v[3] }
            &&& unit_y == Point { x: v[4], y: v[5] }
            &&& (width, height) == (v[6], v[7])
        }),
{
}

/// The least power of two that is not below a number is below its double.
pub proof fn law_least_power_is_below_the_double(n: nat, p: nat)
    requires
        is_least_power(n, p),
    ensures
        exists|k: nat| p == #[trigger] pow2(k),
        n <= p,
        n > 0 ==> p < 2 * n,
        n == 0 ==> p == 1,
{
    vstd::arithmetic::power2::lemma2_to64();
    let k = choose|k: nat| p == #[trigger] pow2(k);
    if k > 0 {
        lemma_pow2_unfold(k);
        let q = pow2((k - 1) as nat);
        assert(is_power_of_two(q));
        assert(p == 2 * q);
        assert(q > 0) by {
            vstd::arithmetic::power2::lemma_pow2_pos((k - 1) as nat);
        }
        if n <= q {
            assert(p <= q);
        }
    }
}

/// A power of two is a number that halving leads to one.
pub proof fn law_powers_of_two(n: nat)
    ensures
        is_power_of_two(1),
        is_power_of_two(n) ==> is_power_of_two(2 * n),
        is_power_of_two(n) && n > 1 ==> n % 2 == 0 && is_power_of_two(n / 2),
{
    vstd::arithmetic::power2::lemma2_to64();
    assert(1 == pow2(0));
    if is_power_of_two(n) {
        let k = choose|k: nat| n == #[trigger] pow2(k);
        lemma_pow2_unfold(k + 1);
        assert(2 * n == pow2(k + 1));
        if n > 1 {
            lemma_pow2_unfold(k);
            assert(n / 2 == pow2((k - 1) as nat));
        }
    }
}

/// Whole words of four bytes cover a number of bytes, with less than a word to spare.
pub proof fn law_words_cover(n: nat)
    ensures
        word_aligned(n) % 4 == 0,
        n <= word_aligned(n) < n + 4,
{
}

/// A frame takes three bytes for each pixel, in whole words.
pub proof fn law_frame_takes_three_bytes_a_pixel(width: u32, height: u32)
    ensures
        frame_room(width, height) % 4 == 0,
        3 * (width * height) <= frame_room(width, height) < 3 * (width * height) + 4,
{
    assert(width * height * 3 == 3 * (width * height)) by (nonlinear_arith);
    assert(0 <= width * height) by (nonlinear_arith);
    law_words_cover((width * height * 3) as nat);
}

/// There is room for one rectangle of 32 bytes at least, and for as many as there are.
pub proof fn law_rects_take_32_bytes(n: nat)
    ensures
        rect_room(0) == 32,
        rect_room(1) == 32,
        n > 0 ==> rect_room(n + 1) == rect_room(n) + 32,
{
}

/// The rectangles that can be drawn are kept in their order, and the others are left out.
pub proof fn law_drawable_rects_keep_their_order(candidates: Seq<Option<GpuRect>>, rect: GpuRect)
    ensures
        drawable(Seq::empty()) == Seq::<GpuRect>::empty(),
        drawable(candidates.push(Some(rect))) == drawable(candidates).push(rect),
        drawable(candidates.push(None)) == drawable(candidates),
{
    assert(candidates.push(Some(rect)).drop_last() =~= candidates);
    assert(candidates.push(None).drop_last() =~= candidates);
    assert(drawable(Seq::empty()) =~= Seq::<GpuRect>::empty());
}

/// What is to be done with the rectangles on the GPU.
#[derive(Debug)]
pub struct RectUpload {
    /// A new buffer of this size is needed.
    pub new_buffer: Option<u64>,
    /// Bytes to write to the start of the buffer.
    pub bytes: Option<Vec<u8>>,
}

/// What is to be done with a packed RGB frame on the GPU.
#[derive(Debug)]
pub struct FrameUpload {
    /// A new video texture of this size is needed.
    pub new_texture: Option<(u32, u32)>,
    /// A new buffer of this size is needed for the frame.
    pub new_buffer: Option<u64>,
    /// The uniform block of the compute pass.
    pub dimensions: Vec<u8>,
    /// A new bind group is needed.
    pub new_bind_group: bool,
    /// Work groups across and down.
    pub groups: (u32, u32),
}

/// What is to be done with an imported DMA buffer on the GPU.
#[derive(Debug)]
pub struct DmaUpload {
    /// A new video texture of this size is needed.
    pub new_texture: Option<(u32, u32)>,
    /// The uniform block of the compute pass.
    pub dimensions: Vec<u8>,
    /// Work groups across and down.
    pub groups: (u32, u32),
}

impl UVCPlayer {
    /// The uniform block of a compute pass over a picture of this size.
    pub fn dimensions_bytes(&self, width: u32, height: u32) -> (bytes: Vec<u8>)
        ensures
            exists|order: ByteOrder|
                bytes@ == #[trigger] dimension_block(
                    order,
                    width,
                    height,
                    self.gpu_rects@.len(),
                ),
            bytes.len() == 16,
    {
        let order = native_order();
        dimension_bytes(order, width, height, self.gpu_rects.len())
    }

    /// Replaces the rectangles on the GPU by those of the candidates that can be drawn. A buffer
    /// that is too small grows to a power of two, and the bind groups have to be made anew.
    pub fn update_gpu_rects(&mut self, candidates: &Vec<Option<GpuRect>>) -> (r: RectUpload)
        requires
            drawable(candidates@).len() * 32 <= usize::MAX,
            drawable(candidates@).len() * 32 <= 0x8000_0000_0000_0000,
        ensures
            final(self).gpu_rects@ == drawable(candidates@),
            match r.new_buffer {
                Some(size) => {
                    &&& rect_room(drawable(candidates@).len()) > old(self).inverse_rect_capacity
                    &&& is_least_power(rect_room(drawable(candidates@).len()), size as nat)
                    &&& *final(self) == (UVCPlayer {
                        gpu_rects: final(self).gpu_rects,
                        inverse_rect_capacity: size,
                        rgb_bound: false,
                        yuyv_bound: false,
                        ..*old(self)
                    })
                },
                None => {
                    &&& rect_room(drawable(candidates@).len()) <= old(self).inverse_rect_capacity
                    &&& *final(self) == (UVCPlayer {
                        gpu_rects: final(self).gpu_rects,
                        ..*old(self)
                    })
                },
            },
            match r.bytes {
                Some(bytes) => drawable(candidates@).len() > 0 && exists|order: ByteOrder|
                    bytes@ == #[trigger] rect_block(order, drawable(candidates@)),
                None => drawable(candidates@).len() == 0,
            },
            r.bytes matches Some(bytes) ==> bytes.len() <= final(self).inverse_rect_capacity,
            old(self).inverse_rect_capacity <= final(self).inverse_rect_capacity,
            old(self).ready() ==> final(self).ready(),
    {
        let kept = drawable_of(candidates);
        let n: usize = kept.len();
        self.gpu_rects = kept;
        let room: u64 = if n == 0 {
            32
        } else {
            (n * 32) as u64
        };
        let mut new_buffer: Option<u64> = None;
        if room > self.inverse_rect_capacity {
            let size: u64 = power_of_two_from(room);
            self.inverse_rect_capacity = size;
            self.rgb_bound = false;
            self.yuyv_bound = false;
            new_buffer = Some(size);
        }
        let mut bytes: Option<Vec<u8>> = None;
        if n > 0 {
            let order = native_order();
            let b = rect_bytes(order, &self.gpu_rects);
            proof {
                law_rect_block_size(order, self.gpu_rects@);
            }
            bytes = Some(b);
        }
        RectUpload { new_buffer, bytes }
    }
}

fn drawable_of(candidates: &Vec<Option<GpuRect>>) -> (kept: Vec<GpuRect>)
    ensures
        kept@ == drawable(candidates@),
{
    let mut kept: Vec<GpuRect> = Vec::new();
    let mut i: usize = 0;
    assert(kept@ =~= drawable(candidates@.take(0)));
    while i < candidates.len()
        invariant
            i <= candidates.len(),
            kept@ == drawable(candidates@.take(i as int)),
        decreases candidates.len() - i,
    {
        let c = candidates[i];
        proof {
            assert(candidates@.take(i + 1).drop_last() =~= candidates@.take(i as int));
            assert(candidates@.take(i + 1).last() == c);
        }
        match c {
            Some(rect) => {
                kept.push(rect);
            },
            None => {},
        }
        i = i + 1;
        assert(kept@ =~= drawable(candidates@.take(i as int)));
    }
    assert(candidates@.take(i as int) =~= candidates@);
    kept
}

/// The bytes that a packed RGB frame takes on the GPU.
pub open spec fn frame_room(width: u32, height: u32) -> nat {
    word_aligned((width * height * 3) as nat)
}

impl UVCPlayer {
    /// The frame has not been shown yet, and the GPU reads no DMA buffer.
    pub open spec fn shows<F>(self, frame: SharedFrame<F>) -> bool {
        frame.seq != 0 && frame.seq != self.last_frame_seq && self.dma_in_flight is None
    }

    /// Whether a frame is to be shown: it has not been yet, and the GPU reads no DMA buffer.
    pub fn is_due<F>(&self, frame: &SharedFrame<F>) -> (r: bool)
        ensures
            r == self.shows(*frame),
    {
        frame.seq != 0 && frame.seq != self.last_frame_seq && self.dma_in_flight.is_none()
    }

    /// Shows a packed RGB frame, unless it is shown already or the GPU still reads a DMA buffer.
    /// The texture follows the size of the frame, the buffer grows to hold it, and either has the
    /// bind group made anew.
    pub fn upload_frame<F>(&mut self, frame: &SharedFrame<F>) -> (r: Option<FrameUpload>)
        requires
            old(self).shows(*frame) ==> frame_room(frame.width, frame.height) <= u64::MAX,
        ensures
            match r {
                None => !old(self).shows(*frame) && *final(self) == *old(self),
                Some(up) => {
                    let size = (frame.width, frame.height);
                    let room = frame_room(frame.width, frame.height);
                    let resize = old(self).video_size != size;
                    let grow = room > old(self).rgb_buffer_capacity;
                    &&& old(self).shows(*frame)
                    &&& up.new_texture == if resize {
                        Some(size)
                    } else {
                        None
                    }
                    &&& up.new_buffer == if grow {
                        Some(room as u64)
                    } else {
                        None
                    }
                    &&& up.new_bind_group == (resize || grow || !old(self).rgb_bound)
                    &&& exists|order: ByteOrder|
                        up.dimensions@ == #[trigger] dimension_block(
                            order,
                            frame.width,
                            frame.height,
                            old(self).gpu_rects@.len(),
                        )
                    &&& up.groups == (groups_of_eight(frame.width), groups_of_eight(frame.height))
                    &&& *final(self) == (UVCPlayer {
                        last_frame_seq: frame.seq,
                        video_size: size,
                        rgb_buffer_capacity: if grow {
                            room as u64
                        } else {
                            old(self).rgb_buffer_capacity
                        },
                        rgb_bound: true,
                        ..*old(self)
                    })
                },
            },
            r is Some ==> frame.width * frame.height * 3 <= final(self).rgb_buffer_capacity,
            old(self).rgb_buffer_capacity <= final(self).rgb_buffer_capacity,
            !final(self).shows(*frame),
            old(self).ready() ==> final(self).ready(),
    {
        if !self.is_due(frame) {
            return None;
        }
        self.last_frame_seq = frame.seq;
        let mut new_texture: Option<(u32, u32)> = None;
        if self.video_size.0 != frame.width || self.video_size.1 != frame.height {
            self.video_size = (frame.width, frame.height);
            self.rgb_bound = false;
            new_texture = Some((frame.width, frame.height));
        }
        let room: u64 = frame_room_of(frame.width, frame.height);
        let mut new_buffer: Option<u64> = None;
        if room > self.rgb_buffer_capacity {
            self.rgb_buffer_capacity = room;
            self.rgb_bound = false;
            new_buffer = Some(room);
        }
        let dimensions = self.dimensions_bytes(frame.width, frame.height);
        let new_bind_group: bool = !self.rgb_bound;
        self.rgb_bound = true;
        Some(
            FrameUpload {
                new_texture,
                new_buffer,
                dimensions,
                new_bind_group,
                groups: (cover_by_eight(frame.width), cover_by_eight(frame.height)),
            },
        )
    }

    /// How the state changes when the GPU was asked whether it is done: a DMA buffer that it has
    /// read goes back to the camera.
    pub open spec fn polled<F>(
        self,
        frame: SharedFrame<F>,
        done: bool,
        next: UVCPlayer,
        next_frame: SharedFrame<F>,
    ) -> bool {
        if self.dma_in_flight is Some && done {
            &&& next == (UVCPlayer { dma_in_flight: None, ..self })
            &&& next_frame == (SharedFrame { dma_requeue: self.dma_in_flight, ..frame })
        } else {
            next == self && next_frame == frame
        }
    }

    /// How the state changes when a DMA buffer was imported: the GPU reads it from now on, and the
    /// texture follows the size of the frame.
    pub open spec fn imported(self, metadata: DmaBufFrame, next: UVCPlayer) -> bool {
        next == (UVCPlayer {
            video_size: (metadata.width, metadata.height),
            yuyv_bound: true,
            dma_in_flight: Some(metadata.buffer_index),
            ..self
        })
    }

    /// What is taken for import from a frame, and what is left of it: nothing is taken while the
    /// GPU reads a DMA buffer.
    pub open spec fn takes<F>(
        self,
        frame: SharedFrame<F>,
        taken: Option<(F, DmaBufFrame)>,
        next_frame: SharedFrame<F>,
    ) -> bool {
        if self.dma_in_flight is None {
            taken == frame.dma && next_frame == (SharedFrame { dma: None, ..frame })
        } else {
            taken is None && next_frame == frame
        }
    }

    /// The GPU was asked whether it is done. A DMA buffer that it has read goes back to the camera;
    /// while it still reads one, the result says that it has to be asked again.
    pub fn poll_dma<F>(&mut self, frame: &mut SharedFrame<F>, done: bool) -> (ask_again: bool)
        ensures
            old(self).polled(*old(frame), done, *final(self), *final(frame)),
            ask_again == (old(self).dma_in_flight is Some && !done),
            old(self).ready() ==> final(self).ready(),
    {
        match self.dma_in_flight {
            Some(index) => {
                if done {
                    self.dma_in_flight = None;
                    frame.dma_requeue = Some(index);
                    false
                } else {
                    true
                }
            },
            None => false,
        }
    }

    /// The frame in a DMA buffer that is to be imported next: none while the GPU reads one.
    pub fn take_dma<F>(&self, frame: &mut SharedFrame<F>) -> (r: Option<(F, DmaBufFrame)>)
        ensures
            self.takes(*old(frame), r, *final(frame)),
    {
        if self.dma_in_flight.is_some() {
            return None;
        }
        frame.dma.take()
    }

    /// A DMA buffer was imported: the GPU reads it from now on, the texture follows the size of
    /// the frame.
    pub fn dma_imported(&mut self, metadata: &DmaBufFrame) -> (up: DmaUpload)
        ensures
            up.new_texture == if old(self).video_size != (metadata.width, metadata.height) {
                Some((metadata.width, metadata.height))
            } else {
                None
            },
            exists|order: ByteOrder|
                up.dimensions@ == #[trigger] dimension_block(
                    order,
                    metadata.width,
                    metadata.height,
                    old(self).gpu_rects@.len(),
                ),
            up.groups == (groups_of_eight(metadata.width), groups_of_eight(metadata.height)),
            old(self).imported(*metadata, *final(self)),
            old(self).ready() ==> final(self).ready(),
    {
        let mut new_texture: Option<(u32, u32)> = None;
        if self.video_size.0 != metadata.width || self.video_size.1 != metadata.height {
            self.video_size = (metadata.width, metadata.height);
            new_texture = Some((metadata.width, metadata.height));
        }
        self.yuyv_bound = true;
        let dimensions = self.dimensions_bytes(metadata.width, metadata.height);
        self.dma_in_flight = Some(metadata.buffer_index);
        DmaUpload {
            new_texture,
            dimensions,
            groups: (cover_by_eight(metadata.width), cover_by_eight(metadata.height)),
        }
    }
}

/// A DMA buffer could not be imported: it goes back to the camera.
pub fn dma_import_failed<F>(frame: &mut SharedFrame<F>, metadata: &DmaBufFrame)
    ensures
        *final(frame) == (SharedFrame { dma_requeue: Some(metadata.buffer_index), ..*old(frame) }),
{
    frame.dma_requeue = Some(metadata.buffer_index);
}

fn frame_room_of(width: u32, height: u32) -> (room: u64)
    requires
        frame_room(width, height) <= u64::MAX,
    ensures
        room == frame_room(width, height),
{
    let bytes: u128 = (width as u128) * (height as u128) * 3;
    ((bytes + 3) / 4 * 4) as u64
}

/// A frame is shown where it has a number, has another than the last one shown, and the GPU reads no
/// DMA buffer.
pub proof fn law_frame_is_shown_once<F>(p: UVCPlayer, frame: SharedFrame<F>)
    ensures
        p.shows(frame) <==> frame.seq != 0 && frame.seq != p.last_frame_seq && p.dma_in_flight
            is None,
{
}

/// Asking the GPU changes nothing but what becomes of a DMA buffer: once it is done, the buffer that
/// it read goes back to the camera and no other.
pub proof fn law_polling_gives_back_what_was_read<F>(
    p: UVCPlayer,
    frame: SharedFrame<F>,
    done: bool,
    next: UVCPlayer,
    next_frame: SharedFrame<F>,
)
    requires
        p.polled(frame, done, next, next_frame),
    ensures
        done ==> next.dma_in_flight is None,
        !done ==> next.dma_in_flight == p.dma_in_flight,
        done && p.dma_in_flight is Some ==> next_frame.dma_requeue == p.dma_in_flight,
        !done || p.dma_in_flight is None ==> next_frame.dma_requeue == frame.dma_requeue,
        next_frame.dma == frame.dma,
        next_frame.seq == frame.seq && next_frame.rgb == frame.rgb,
        next_frame.width == frame.width && next_frame.height == frame.height,
        next == (UVCPlayer { dma_in_flight: next.dma_in_flight, ..p }),
{
}

/// Taking a DMA buffer hands over the very frame that was there, and leaves the rest of the shared
/// frame alone.
pub proof fn law_taking_hands_over_the_frame<F>(
    p: UVCPlayer,
    frame: SharedFrame<F>,
    taken: Option<(F, DmaBufFrame)>,
    next_frame: SharedFrame<F>,
)
    requires
        p.takes(frame, taken, next_frame),
    ensures
        p.dma_in_flight is None ==> taken == frame.dma && next_frame.dma is None,
        p.dma_in_flight is Some ==> taken is None && next_frame.dma == frame.dma,
        next_frame.dma_requeue == frame.dma_requeue,
        next_frame.seq == frame.seq && next_frame.rgb == frame.rgb,
        next_frame.width == frame.width && next_frame.height == frame.height,
{
}

/// An imported DMA buffer is the one that the GPU reads, the texture has the size of its frame, and
/// nothing else changes.
pub proof fn law_imported_buffer_is_read(p: UVCPlayer, metadata: DmaBufFrame, next: UVCPlayer)
    requires
        p.imported(metadata, next),
    ensures
        next.dma_in_flight == Some(metadata.buffer_index),
        next.video_size.0 == metadata.width,
        next.video_size.1 == metadata.height,
        next.last_frame_seq == p.last_frame_seq,
        next.rgb_bound == p.rgb_bound,
        next == (UVCPlayer {
            video_size: next.video_size,
            yuyv_bound: true,
            dma_in_flight: next.dma_in_flight,
            ..p
        }),
{
}

/// While the GPU reads a DMA buffer, no other is taken, no packed RGB frame is shown, and the
/// buffer is not given back.
pub proof fn law_dma_buffer_is_kept_while_read<F>(
    p: UVCPlayer,
    frame: SharedFrame<F>,
    taken: Option<(F, DmaBufFrame)>,
    after_take: SharedFrame<F>,
    next: UVCPlayer,
    after_poll: SharedFrame<F>,
)
    requires
        p.dma_in_flight is Some,
        p.takes(frame, taken, after_take),
        p.polled(frame, false, next, after_poll),
    ensures
        taken is None,
        after_take == frame,
        !p.shows(frame),
        next == p,
        after_poll == frame,
{
}

/// A DMA buffer that is taken and imported goes back to the camera once the GPU is done with it.
pub proof fn law_dma_buffer_goes_back<F>(
    p: UVCPlayer,
    frame: SharedFrame<F>,
    handle: F,
    metadata: DmaBufFrame,
    after_take: SharedFrame<F>,
    reading: UVCPlayer,
    done: UVCPlayer,
    after_poll: SharedFrame<F>,
)
    requires
        p.takes(frame, Some((handle, metadata)), after_take),
        p.imported(metadata, reading),
        reading.polled(after_take, true, done, after_poll),
    ensures
        done.dma_in_flight is None,
        after_poll.dma is None,
        after_poll.dma_requeue == Some(metadata.buffer_index),
        done.video_size == (metadata.width, metadata.height),
{
}

} // verus!
