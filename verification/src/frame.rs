//! The frame that the capture side hands to the viewer.

use crate::dmabuf::DmaBufFrame;
use vstd::prelude::*;

verus! {

/// The latest frame, as packed RGB bytes or in a DMA buffer to which `F` is a handle.
#[derive(Debug)]
pub struct SharedFrame<F> {
    /// Number of the frame; zero before the first.
    pub seq: u64,
    pub width: u32,
    pub height: u32,
    /// Packed red, green and blue bytes.
    pub rgb: Vec<u8>,
    /// A frame in a DMA buffer that nobody has taken yet.
    pub dma: Option<(F, DmaBufFrame)>,
    /// A DMA buffer that the viewer is done with.
    pub dma_requeue: Option<u32>,
}

/// The first `n` bytes of `s`, or all of them and zeros up to `n`.
pub open spec fn resized(s: Seq<u8>, n: nat) -> Seq<u8> {
    Seq::new(
        n,
        |i: int|
            if i < s.len() {
                s[i]
            } else {
                0u8
            },
    )
}

/// The number after `seq`; after the highest comes zero.
pub open spec fn next_seq(seq: u64) -> u64 {
    if seq == u64::MAX {
        0
    } else {
        (seq + 1) as u64
    }
}

impl<F> SharedFrame<F> {
    /// No frame.
    pub open spec fn is_blank(self) -> bool {
        &&& self.seq == 0 && self.width == 0 && self.height == 0
        &&& self.rgb@ == Seq::<u8>::empty()
        &&& self.dma is None && self.dma_requeue is None
    }

    /// No frame.
    pub fn blank() -> (frame: SharedFrame<F>)
        ensures
            frame.is_blank(),
    {
        SharedFrame { seq: 0, width: 0, height: 0, rgb: Vec::new(), dma: None, dma_requeue: None }
    }

    /// The number of bytes of a packed RGB frame.
    pub open spec fn rgb_size(width: u32, height: u32) -> int {
        width * height * 3
    }

    /// How the frame changes when it makes room for packed RGB frames of one size.
    pub open spec fn prepared(self, width: u32, height: u32, next: SharedFrame<F>) -> bool {
        &&& next.rgb@ == resized(self.rgb@, Self::rgb_size(width, height) as nat)
        &&& next == (SharedFrame { width, height, rgb: next.rgb, ..self })
    }

    /// Makes room for packed RGB frames of one size.
    pub fn prepare_rgb(&mut self, width: u32, height: u32)
        requires
            Self::rgb_size(width, height) <= usize::MAX,
        ensures
            old(self).prepared(width, height, *final(self)),
    {
        self.width = width;
        self.height = height;
        let needed: usize = rgb_len(width, height);
        let ghost before = self.rgb@;
        if self.rgb.len() != needed {
            self.rgb.resize(needed, 0);
        }
        assert(self.rgb@ =~= resized(before, needed as nat));
    }

    /// Shows a packed RGB frame as the one after `seq`.
    fn publish_rgb(&mut self, data: &[u8], seq: u64) -> (next: u64)
        requires
            data@.len() == old(self).rgb.len(),
        ensures
            next == next_seq(seq),
            final(self).rgb@ == data@,
            *final(self) == (SharedFrame { rgb: final(self).rgb, seq: next, ..*old(self) }),
    {
        let ghost before = *self;
        let mut i: usize = 0;
        while i < data.len()
            invariant
                i <= data@.len(),
                self.rgb.len() == data@.len(),
                forall|j: int| 0 <= j < i ==> #[trigger] self.rgb@[j] == data@[j],
                *self == (SharedFrame { rgb: self.rgb, ..before }),
            decreases data@.len() - i,
        {
            self.rgb.set(i, data[i]);
            i = i + 1;
        }
        assert(self.rgb@ =~= data@);
        let next: u64 = seq.wrapping_add(1);
        self.seq = next;
        next
    }

    /// A frame of packed RGB came from the camera, which was opened for one size; it is shown as
    /// the one after `seq`, unless it has another size.
    pub fn offer_rgb(&mut self, width: u32, height: u32, data: &[u8], seq: u64) -> (next: Option<
        u64,
    >)
        requires
            Self::rgb_size(width, height) <= usize::MAX,
            data@.len() == Self::rgb_size(width, height) ==> old(self).rgb.len() == data@.len(),
        ensures
            match next {
                Some(n) => {
                    &&& data@.len() == Self::rgb_size(width, height)
                    &&& n == next_seq(seq)
                    &&& final(self).rgb@ == data@
                    &&& *final(self) == (SharedFrame {
                        rgb: final(self).rgb,
                        seq: n,
                        ..*old(self)
                    })
                },
                None => data@.len() != Self::rgb_size(width, height) && *final(self) == *old(self),
            },
    {
        if data.len() != rgb_len(width, height) {
            return None;
        }
        Some(self.publish_rgb(data, seq))
    }

    /// Shows a frame in a DMA buffer as the one after `seq`. A frame that nobody took is dropped.
    pub fn publish_dma(&mut self, handle: F, metadata: DmaBufFrame, seq: u64) -> (next: u64)
        ensures
            next == next_seq(seq),
            *final(self) == (SharedFrame {
                width: metadata.width,
                height: metadata.height,
                dma: Some((handle, metadata)),
                seq: next,
                ..*old(self)
            }),
    {
        self.width = metadata.width;
        self.height = metadata.height;
        self.dma = Some((handle, metadata));
        let next: u64 = seq.wrapping_add(1);
        self.seq = next;
        next
    }

    /// The DMA buffer to give back to the camera, if the viewer is done with one.
    pub fn take_requeue(&mut self) -> (index: Option<u32>)
        ensures
            index == old(self).dma_requeue,
            *final(self) == (SharedFrame { dma_requeue: None, ..*old(self) }),
    {
        let index: Option<u32> = self.dma_requeue;
        self.dma_requeue = None;
        index
    }
}

/// A frame that makes room keeps the bytes that fit, and what it lacks is zero.
pub proof fn law_resizing_keeps_what_fits(s: Seq<u8>, n: nat, i: int)
    requires
        0 <= i < n,
    ensures
        resized(s, n).len() == n,
        i < s.len() ==> resized(s, n)[i] == s[i],
        i >= s.len() ==> resized(s, n)[i] == 0,
{
}

/// Frames are numbered one after the other, and zero follows the highest number.
pub proof fn law_frames_are_numbered(seq: u64)
    ensures
        next_seq(seq) == (seq + 1) % 0x1_0000_0000_0000_0000,
        next_seq(0) == 1,
{
}

/// A frame that makes room has three bytes for each pixel of the new size. Its number and its DMA
/// buffers stay.
pub proof fn law_prepared_frame_has_its_size<F>(
    frame: SharedFrame<F>,
    width: u32,
    height: u32,
    next: SharedFrame<F>,
)
    requires
        frame.prepared(width, height, next),
    ensures
        next.width == width,
        next.height == height,
        next.rgb@.len() == 3 * (width * height),
        next.seq == frame.seq,
        next.dma == frame.dma,
        next.dma_requeue == frame.dma_requeue,
        forall|i: int|
            0 <= i < next.rgb@.len() && i < frame.rgb@.len() ==> #[trigger] next.rgb@[i]
                == frame.rgb@[i],
{
    assert(width * height * 3 == 3 * (width * height)) by (nonlinear_arith);
    assert(0 <= width * height) by (nonlinear_arith);
}

/// A blank frame has no number, no size, no bytes and no DMA buffer.
pub proof fn law_blank_frame_holds_nothing<F>(frame: SharedFrame<F>)
    requires
        frame.is_blank(),
    ensures
        frame.seq == 0 && frame.width == 0 && frame.height == 0,
        frame.rgb@.len() == 0,
        frame.dma is None && frame.dma_requeue is None,
{
}

fn rgb_len(width: u32, height: u32) -> (n: usize)
    requires
        width * height * 3 <= usize::MAX,
    ensures
        n == width * height * 3,
{
    assert(width * height <= width * height * 3 && 0 <= width * height) by (nonlinear_arith)
        requires
            width >= 0,
            height >= 0,
    ;
    (width as usize) * (height as usize) * 3
}

} // verus!
