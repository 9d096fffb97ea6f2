//! Saving the shown frame as a picture file.

use crate::frame::SharedFrame;
use crate::picture::{rgba_samples, with_opacity};
use crate::player::UVCPlayer;
use crate::text::{decimal, push_decimal};
use vstd::prelude::*;
use vstd::string::*;

verus! {

/// What the place where captures are kept is.
#[derive(Clone, Copy, Debug, PartialEq, Eq, Structural)]
pub enum Target {
    /// It does not exist yet.
    Absent,
    Directory,
    /// It exists and is no directory.
    Other,
}

/// Why a frame cannot be captured.
#[derive(Clone, Copy, Debug, PartialEq, Eq, Structural)]
pub enum CaptureError {
    NoFrame,
    BufferTooSmall,
    NotADirectory,
}

/// A picture to be saved: width, height, and four bytes for each pixel, row by row.
#[derive(Debug)]
pub struct Snapshot {
    pub width: u32,
    pub height: u32,
    pub rgba: Vec<u8>,
}

impl CaptureError {
    /// What the user is told, with the target as it is shown.
    pub open spec fn text(self, target: Seq<char>) -> Seq<char> {
        match self {
            CaptureError::NoFrame => "no frame available to capture"@,
            CaptureError::BufferTooSmall => "frame buffer too small"@,
            CaptureError::NotADirectory => "target path exists but is not a directory: "@ + target,
        }
    }

    /// What the user is told, with the target as it is shown.
    pub fn message(&self, target: &str) -> (s: String)
        ensures
            s@ == self.text(target@),
    {
        match self {
            CaptureError::NoFrame => "no frame available to capture".to_owned(),
            CaptureError::BufferTooSmall => "frame buffer too small".to_owned(),
            CaptureError::NotADirectory => {
                let mut s = "target path exists but is not a directory: ".to_owned();
                s.append(target);
                s
            },
        }
    }
}

/// Why a frame cannot be captured, if it cannot; of several reasons the first.
pub open spec fn refusal<F>(frame: SharedFrame<F>, target: Target) -> Option<CaptureError> {
    if frame.seq == 0 {
        Some(CaptureError::NoFrame)
    } else if frame.rgb@.len() < frame.width * frame.height * 3 {
        Some(CaptureError::BufferTooSmall)
    } else if target == Target::Other {
        Some(CaptureError::NotADirectory)
    } else {
        None
    }
}

/// The name of a capture's file.
pub open spec fn file_name(millis: nat) -> Seq<char> {
    "capture-"@ + decimal(millis) + ".png"@
}

/// The name of the file for a capture at a time, in milliseconds since 1970.
pub fn capture_file_name(millis: u128) -> (s: String)
    ensures
        s@ == file_name(millis as nat),
{
    let mut s = "capture-".to_owned();
    push_decimal(&mut s, millis);
    s.append(".png");
    s
}

/// Captures at different times go to different files.
pub proof fn law_capture_names_differ(a: nat, b: nat)
    requires
        file_name(a) == file_name(b),
    ensures
        a == b,
{
    let x = file_name(a);
    let y = file_name(b);
    let p = "capture-"@.len();
    let q = ".png"@.len();
    assert(x.subrange(p as int, x.len() - q) =~= decimal(a));
    assert(y.subrange(p as int, y.len() - q) =~= decimal(b));
    crate::text::law_decimal_is_injective(a, b);
}

/// The name of a capture's file has the time in it, and nothing else that varies.
pub proof fn law_capture_name_tells_the_time(millis: nat)
    ensures
        file_name(millis).len() == decimal(millis).len() + 12,
        file_name(millis).take(8) == "capture-"@,
        file_name(millis).skip(8).take(decimal(millis).len() as int) == decimal(millis),
        file_name(millis).skip(file_name(millis).len() - 4) == ".png"@,
{
    reveal_strlit("capture-");
    reveal_strlit(".png");
    let f = file_name(millis);
    assert("capture-"@.len() == 8 && ".png"@.len() == 4);
    assert(f.take(8) =~= "capture-"@);
    assert(f.skip(8).take(decimal(millis).len() as int) =~= decimal(millis));
    assert(f.skip(f.len() - 4) =~= ".png"@);
}

/// A capture is refused where there is no frame, where the bytes do not fill the frame, or where the
/// target is no directory, and for no other reason; the first of these is told.
pub proof fn law_reasons_for_refusal<F>(frame: SharedFrame<F>, target: Target)
    ensures
        refusal(frame, target) is None <==> frame.seq != 0 && 3 * (frame.width * frame.height)
            <= frame.rgb@.len() && (target is Absent || target is Directory),
        refusal(frame, target) == Some(CaptureError::NoFrame) <==> frame.seq == 0,
        refusal(frame, target) == Some(CaptureError::BufferTooSmall) <==> frame.seq != 0
            && frame.rgb@.len() < 3 * (frame.width * frame.height),
{
    assert(frame.width * frame.height * 3 == 3 * (frame.width * frame.height)) by (nonlinear_arith);
}

impl UVCPlayer {
    /// The picture of a frame, to be saved in a directory.
    pub fn capture_to_path<F>(&self, frame: &SharedFrame<F>, target: Target) -> (r: Result<
        Snapshot,
        CaptureError,
    >)
        requires
            frame.seq != 0 ==> frame.width * frame.height * 3 <= usize::MAX,
            frame.seq != 0 && frame.rgb@.len() >= frame.width * frame.height * 3 ==> frame.width * 4
                <= usize::MAX && frame.width * frame.height * 4 <= isize::MAX,
        ensures
            match r {
                Ok(shot) => {
                    &&& refusal(*frame, target) is None
                    &&& shot.width == frame.width && shot.height == frame.height
                    &&& shot.rgba@ == with_opacity(
                        frame.rgb@,
                        (frame.width * frame.height) as nat,
                    )
                },
                Err(e) => refusal(*frame, target) == Some(e),
            },
    {
        if frame.seq == 0 {
            return Err(CaptureError::NoFrame);
        }
        assert(frame.width * frame.height <= frame.width * frame.height * 3 && 0 <= frame.width
            * frame.height) by (nonlinear_arith)
            requires
                frame.width >= 0,
                frame.height >= 0,
        ;
        if frame.rgb.len() < (frame.width as usize) * (frame.height as usize) * 3 {
            return Err(CaptureError::BufferTooSmall);
        }
        let rgba = rgba_samples(&frame.rgb, frame.width, frame.height);
        if target == Target::Other {
            return Err(CaptureError::NotADirectory);
        }
        Ok(Snapshot { width: frame.width, height: frame.height, rgba })
    }

    /// A capture was saved under the path that is shown.
    pub fn capture_saved(&mut self, path: &str)
        ensures
            final(self).last_capture_status matches Some(s) && s@ == "Saved "@ + path@,
            *final(self) == (UVCPlayer {
                last_capture_status: final(self).last_capture_status,
                ..*old(self)
            }),
            old(self).ready() ==> final(self).ready(),
    {
        let mut s = "Saved ".to_owned();
        s.append(path);
        self.last_capture_status = Some(s);
    }

    /// A capture failed.
    pub fn capture_failed(&mut self, reason: &str)
        ensures
            final(self).last_capture_status matches Some(s) && s@ == "Error: "@ + reason@,
            *final(self) == (UVCPlayer {
                last_capture_status: final(self).last_capture_status,
                ..*old(self)
            }),
            old(self).ready() ==> final(self).ready(),
    {
        let mut s = "Error: ".to_owned();
        s.append(reason);
        self.last_capture_status = Some(s);
    }
}

} // verus!
