//! Capturing: which stream is read, and how it is opened.

use crate::camera::StreamSelection;
use crate::dmabuf::{CameraBuffer, DmaBufFrame};
use crate::frame::{next_seq, resized, SharedFrame};
use crate::text::{after_prefix, strip_prefix};
use vstd::prelude::*;

verus! {

/// What reaches the side that captures.
#[derive(Debug)]
pub enum PumpEvent {
    /// The value that says whether to shut down has changed.
    Shutdown(bool),
    /// The stream to capture may have changed.
    Selection,
    /// The stream to capture will not change any more.
    Closed,
}

/// What the capturing side does first on an event.
#[derive(Clone, Copy, Debug, PartialEq, Eq, Structural)]
pub struct PumpStep {
    /// A capture is under way and is told to end.
    pub end_current: bool,
    /// The capturing side stops. Otherwise it waits for the capture that was told to end, and goes
    /// on with the stream that is to be captured by then.
    pub exit: bool,
}

/// What the capturing side goes on with.
#[derive(Debug)]
pub enum PumpNext {
    /// There is nothing to capture: the shared frame is cleared.
    Clear,
    /// This stream is captured.
    Capture(StreamSelection),
}

/// Whether a capture is under way.
#[derive(Debug)]
pub struct Pump {
    pub capturing: bool,
}

impl Pump {
    /// Nothing is captured yet.
    pub fn new() -> (pump: Pump)
        ensures
            !pump.capturing,
    {
        Pump { capturing: false }
    }

    /// The event ends the capturing side.
    pub open spec fn ends(event: PumpEvent) -> bool {
        event == PumpEvent::Shutdown(true) || event == PumpEvent::Closed
    }

    /// Deals with an event. A capture under way is told to end in any case, so there is never more
    /// than one that was not.
    pub fn step(&mut self, event: PumpEvent) -> (r: PumpStep)
        ensures
            r.end_current == old(self).capturing,
            r.exit == Self::ends(event),
            !final(self).capturing,
    {
        let end_current: bool = self.capturing;
        self.capturing = false;
        let exit: bool = match event {
            PumpEvent::Shutdown(down) => down,
            PumpEvent::Closed => true,
            PumpEvent::Selection => false,
        };
        PumpStep { end_current, exit }
    }

    /// Goes on after an event, once no capture is under way, with the stream that is to be captured
    /// by now.
    pub fn go_on(&mut self, selection: Option<StreamSelection>) -> (next: PumpNext)
        requires
            !old(self).capturing,
        ensures
            final(self).capturing == (selection is Some),
            match selection {
                Some(s) => next == PumpNext::Capture(s),
                None => next is Clear,
            },
    {
        match selection {
            Some(s) => {
                self.capturing = true;
                PumpNext::Capture(s)
            },
            None => PumpNext::Clear,
        }
    }
}

/// What precedes the device path in the address of a Video4Linux camera.
pub open spec fn v4l_prefix() -> Seq<char> {
    "v4l://"@
}

/// How a Video4Linux device is opened for capture into DMA buffers.
#[derive(Debug)]
pub struct DmaRequest {
    pub path: String,
    /// Width, height and rate; the device's best where none are given.
    pub mode: Option<(u32, u32, u32)>,
}

impl StreamSelection {
    /// How the stream is captured into DMA buffers: only from a Video4Linux camera.
    pub fn dma_request(&self) -> (r: Option<DmaRequest>)
        ensures
            match r {
                Some(q) => after_prefix(self.uri@, v4l_prefix()) == Some(q.path@) && q.mode
                    == self.resolution,
                None => after_prefix(self.uri@, v4l_prefix()) is None,
            },
    {
        match strip_prefix(self.uri.as_str(), "v4l://") {
            Some(path) => Some(DmaRequest { path, mode: self.resolution }),
            None => None,
        }
    }
}

/// How a stream is opened.
#[derive(Debug)]
pub enum Way {
    /// For capture into DMA buffers.
    Dma(DmaRequest),
    /// For packed RGB frames of this width and height, at the rate nearest to this one.
    Closest(u32, u32, u32),
    /// For packed RGB frames, the best stream of the camera.
    Best,
}

/// What trying to open a stream gave.
#[derive(Clone, Copy, Debug, PartialEq, Eq, Structural)]
pub enum Opened {
    /// It is open for capture into DMA buffers.
    Dma,
    /// It cannot be captured into DMA buffers.
    DmaRefused,
    /// It is open for packed RGB frames of this width and height.
    Rgb(u32, u32),
    /// It cannot be opened for packed RGB frames.
    RgbRefused,
}

/// What follows once a stream was opened or refused.
#[derive(Debug)]
pub enum Opening {
    /// It is tried this way.
    Try(Way),
    /// Frames in DMA buffers are captured.
    CaptureDma,
    /// Packed RGB frames are captured.
    CaptureRgb,
    /// Nothing can be captured.
    End,
}

impl StreamSelection {
    /// The stream is opened `way`: for DMA buffers where the camera has them and did not refuse,
    /// and for packed RGB frames otherwise, by size and rate where these are given.
    pub open spec fn goes(self, dma_refused: bool, way: Way) -> bool {
        match after_prefix(self.uri@, v4l_prefix()) {
            Some(path) if !dma_refused => {
                way matches Way::Dma(q) && q.path@ == path && q.mode == self.resolution
            },
            _ => match self.resolution {
                Some((w, h, f)) => way == Way::Closest(w, h, f),
                None => way == Way::Best,
            },
        }
    }

    /// How the stream is opened, before and after the camera refused to fill DMA buffers.
    pub fn way(&self, dma_refused: bool) -> (w: Way)
        ensures
            self.goes(dma_refused, w),
    {
        if !dma_refused {
            match self.dma_request() {
                Some(request) => {
                    return Way::Dma(request);
                },
                None => {},
            }
        }
        match self.resolution {
            Some((w, h, f)) => Way::Closest(w, h, f),
            None => Way::Best,
        }
    }

    /// The stream was opened or refused. Refused for DMA buffers, it is tried for packed RGB
    /// frames; refused for these, the shared frame is cleared; opened for them, the shared frame
    /// takes their size.
    pub fn opened<F>(&self, frame: &mut SharedFrame<F>, got: Opened) -> (next: Opening)
        requires
            got matches Opened::Rgb(w, h) ==> SharedFrame::<F>::rgb_size(w, h) <= usize::MAX,
        ensures
            match got {
                Opened::Dma => next is CaptureDma && *final(frame) == *old(frame),
                Opened::DmaRefused => {
                    &&& next matches Opening::Try(way) && self.goes(true, way)
                    &&& *final(frame) == *old(frame)
                },
                Opened::Rgb(width, height) => {
                    &&& next is CaptureRgb
                    &&& old(frame).prepared(width, height, *final(frame))
                },
                Opened::RgbRefused => next is End && final(frame).is_blank(),
            },
    {
        match got {
            Opened::Dma => Opening::CaptureDma,
            Opened::DmaRefused => Opening::Try(self.way(true)),
            Opened::Rgb(width, height) => {
                frame.prepare_rgb(width, height);
                Opening::CaptureRgb
            },
            Opened::RgbRefused => {
                *frame = SharedFrame::blank();
                Opening::End
            },
        }
    }
}

/// The capturing side ends where it is told to shut down, or where no stream will be selected any
/// more, and on nothing else.
pub proof fn law_events_that_end(event: PumpEvent)
    ensures
        Pump::ends(event) <==> match event {
            PumpEvent::Shutdown(down) => down,
            PumpEvent::Selection => false,
            PumpEvent::Closed => true,
        },
{
}

/// A stream whose address is `v4l://` and a path is first opened for DMA buffers, at that path and in
/// the mode that was asked for.
pub proof fn law_video4linux_is_opened_at_its_path(
    selection: StreamSelection,
    path: Seq<char>,
    way: Way,
)
    requires
        selection.uri@ == "v4l://"@ + path,
        selection.goes(false, way),
    ensures
        way matches Way::Dma(q) && q.path@ == path && q.mode == selection.resolution,
{
    crate::text::law_prefix_and_rest_make_the_text(selection.uri@, v4l_prefix(), path);
}

/// Any other stream, and one that was refused, is opened for packed RGB frames: by size and rate
/// where these were asked for, and the best one otherwise.
pub proof fn law_other_streams_are_opened_for_rgb(
    selection: StreamSelection,
    refused: bool,
    way: Way,
)
    requires
        selection.goes(refused, way),
        refused || forall|path: Seq<char>| selection.uri@ != #[trigger] ("v4l://"@ + path),
    ensures
        match selection.resolution {
            Some((width, height, fps)) => way == Way::Closest(width, height, fps),
            None => way == Way::Best,
        },
{
    if !refused && after_prefix(selection.uri@, v4l_prefix()) is Some {
        let path = after_prefix(selection.uri@, v4l_prefix())->0;
        crate::text::law_prefix_and_rest_make_the_text(selection.uri@, v4l_prefix(), path);
    }
}

/// A stream is tried at most twice: a way that follows a refusal asks for no DMA buffers.
pub proof fn law_refused_dma_is_not_tried_again(selection: StreamSelection, way: Way)
    requires
        selection.goes(true, way),
    ensures
        !(way is Dma),
{
}

/// A run of frames from one stream.
#[derive(Debug)]
pub struct Capture {
    /// Number of the last frame that was shown.
    pub seq: u64,
}

/// What a capture of packed RGB frames does next.
#[derive(Clone, Copy, Debug, PartialEq, Eq, Structural)]
pub enum CaptureStep {
    /// It ends: the camera gave no frame.
    End,
    /// It goes on; the frame had the wrong size, or the viewer was reading the one before.
    Skip,
    /// It goes on; the frame is shown.
    Shown,
}

/// What reaches a capture into DMA buffers.
#[derive(Debug)]
pub enum DmaEvent<F> {
    /// The next frame is due.
    Due,
    /// A buffer was given back to the camera, or could not be.
    Requeued(bool),
    /// The camera filled a buffer with a frame, or failed to.
    Dequeued(Option<(F, CameraBuffer)>),
}

/// What a capture into DMA buffers does next.
#[derive(Clone, Copy, Debug, PartialEq, Eq, Structural)]
pub enum DmaAction {
    /// It gives this buffer back to the camera.
    Requeue(u32),
    /// It waits for a frame.
    Dequeue,
    /// It goes on with the next frame; this one is shown.
    Shown,
    /// It ends.
    End,
}

impl Capture {
    /// No frame has been shown yet.
    pub fn new() -> (capture: Capture)
        ensures
            capture.seq == 0,
    {
        Capture { seq: 0 }
    }

    /// The camera, opened for packed RGB frames of one size, gave a frame or failed to.
    pub fn rgb_frame<F>(
        &mut self,
        frame: &mut SharedFrame<F>,
        width: u32,
        height: u32,
        data: Option<&[u8]>,
    ) -> (step: CaptureStep)
        requires
            SharedFrame::<F>::rgb_size(width, height) <= usize::MAX,
            data matches Some(d) ==> d@.len() == SharedFrame::<F>::rgb_size(width, height)
                ==> old(frame).rgb.len() == d@.len(),
        ensures
            match data {
                None => step == CaptureStep::End && *final(self) == *old(self) && *final(frame)
                    == *old(frame),
                Some(d) => if d@.len() != SharedFrame::<F>::rgb_size(width, height) {
                    step == CaptureStep::Skip && *final(self) == *old(self) && *final(frame)
                        == *old(frame)
                } else {
                    &&& step == CaptureStep::Shown
                    &&& final(self).seq == next_seq(old(self).seq)
                    &&& final(frame).rgb@ == d@
                    &&& *final(frame) == (SharedFrame {
                        rgb: final(frame).rgb,
                        seq: final(self).seq,
                        ..*old(frame)
                    })
                },
            },
    {
        match data {
            None => CaptureStep::End,
            Some(d) => match frame.offer_rgb(width, height, d, self.seq) {
                Some(next) => {
                    self.seq = next;
                    CaptureStep::Shown
                },
                None => CaptureStep::Skip,
            },
        }
    }

    /// The camera gave a frame of packed RGB or failed to, while the viewer was reading the one
    /// before. The frame is not waited for.
    pub fn rgb_frame_unshown(&self, data: Option<&[u8]>) -> (step: CaptureStep)
        ensures
            step == if data is Some {
                CaptureStep::Skip
            } else {
                CaptureStep::End
            },
    {
        match data {
            Some(_) => CaptureStep::Skip,
            None => CaptureStep::End,
        }
    }

    /// How frame and capture change when a frame in a DMA buffer is shown.
    pub open spec fn shown_dma<F>(
        self,
        frame: SharedFrame<F>,
        handle: F,
        metadata: DmaBufFrame,
        next: Capture,
        next_frame: SharedFrame<F>,
    ) -> bool {
        &&& next.seq == next_seq(self.seq)
        &&& next_frame == (SharedFrame {
            width: metadata.width,
            height: metadata.height,
            dma: Some((handle, metadata)),
            seq: next.seq,
            ..frame
        })
    }

    /// Deals with an event: before each frame a buffer that the viewer is done with goes back to
    /// the camera, and a failure ends the capture.
    pub fn dma_step<F>(&mut self, frame: &mut SharedFrame<F>, event: DmaEvent<F>) -> (action:
        DmaAction)
        ensures
            match event {
                DmaEvent::Due => {
                    &&& action == match old(frame).dma_requeue {
                        Some(index) => DmaAction::Requeue(index),
                        None => DmaAction::Dequeue,
                    }
                    &&& *final(self) == *old(self)
                    &&& *final(frame) == (SharedFrame { dma_requeue: None, ..*old(frame) })
                },
                DmaEvent::Requeued(done) => {
                    &&& action == if done {
                        DmaAction::Dequeue
                    } else {
                        DmaAction::End
                    }
                    &&& *final(self) == *old(self)
                    &&& *final(frame) == *old(frame)
                },
                DmaEvent::Dequeued(Some((handle, buffer))) => {
                    &&& action == DmaAction::Shown
                    &&& old(self).shown_dma(
                        *old(frame),
                        handle,
                        buffer.as_frame(),
                        *final(self),
                        *final(frame),
                    )
                },
                DmaEvent::Dequeued(None) => {
                    &&& action == DmaAction::End
                    &&& *final(self) == *old(self)
                    &&& *final(frame) == *old(frame)
                },
            },
    {
        match event {
            DmaEvent::Due => match frame.take_requeue() {
                Some(index) => DmaAction::Requeue(index),
                None => DmaAction::Dequeue,
            },
            DmaEvent::Requeued(done) => {
                if done {
                    DmaAction::Dequeue
                } else {
                    DmaAction::End
                }
            },
            DmaEvent::Dequeued(Some((handle, buffer))) => {
                self.dma_frame(frame, handle, buffer.frame());
                DmaAction::Shown
            },
            DmaEvent::Dequeued(None) => DmaAction::End,
        }
    }

    /// The camera filled a DMA buffer with a frame.
    pub fn dma_frame<F>(&mut self, frame: &mut SharedFrame<F>, handle: F, metadata: DmaBufFrame)
        ensures
            old(self).shown_dma(*old(frame), handle, metadata, *final(self), *final(frame)),
    {
        self.seq = frame.publish_dma(handle, metadata, self.seq);
    }
}

/// A frame in a DMA buffer that is shown is the one that the camera filled, with its size and the
/// next number. The packed bytes and a buffer that is to go back stay.
pub proof fn law_shown_dma_frame_is_the_cameras<F>(
    capture: Capture,
    frame: SharedFrame<F>,
    handle: F,
    metadata: DmaBufFrame,
    next: Capture,
    next_frame: SharedFrame<F>,
)
    requires
        capture.shown_dma(frame, handle, metadata, next, next_frame),
    ensures
        next_frame.dma == Some((handle, metadata)),
        next_frame.width == metadata.width,
        next_frame.height == metadata.height,
        next_frame.seq == next.seq,
        next.seq == (capture.seq + 1) % 0x1_0000_0000_0000_0000,
        next_frame.rgb == frame.rgb,
        next_frame.dma_requeue == frame.dma_requeue,
{
}

/// A frame that is prepared for a size takes every packed RGB frame of that size.
pub proof fn law_prepared_frame_takes_its_size(rgb: Seq<u8>, n: nat)
    ensures
        resized(rgb, n).len() == n,
        rgb.len() == n ==> resized(rgb, n) == rgb,
{
    if rgb.len() == n {
        assert(resized(rgb, n) =~= rgb);
    }
}

} // verus!
