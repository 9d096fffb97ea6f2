//! The cameras: what is known of each, and which one is in use.

use crate::listing::{
    is_listing, law_listing_shows_the_streams, line_of, lines, list_streams, looks_like, StreamInfo,
    StreamLine,
};
use crate::stream::{
    best_stream, frame_rate, frames_per_second, is_best, law_best_stream_delivers_most,
    law_frame_rate_is_nearest, rates_defined, PixelFormat, StreamDescriptor,
};
use vstd::prelude::*;

verus! {

/// What is known of a camera.
#[derive(Clone, Debug)]
pub struct CameraInfo {
    pub uri: String,
    pub product: String,
    /// Width and height of the best stream.
    pub resolution: Option<(u32, u32)>,
    /// Rate of the best stream.
    pub fps: Option<u32>,
    /// The list of its streams.
    pub all_streams: Vec<StreamInfo>,
}

/// No stream is eligible.
pub open spec fn none_eligible(streams: Seq<StreamDescriptor>) -> bool {
    forall|i: int| 0 <= i < streams.len() ==> !(#[trigger] streams[i]).is_eligible()
}

/// `resolution` and `fps` are those of the best stream, if there is one.
pub open spec fn describes_best(
    streams: Seq<StreamDescriptor>,
    resolution: Option<(u32, u32)>,
    fps: Option<u32>,
) -> bool {
    if none_eligible(streams) {
        resolution is None && fps is None
    } else {
        exists|i: int|
            #[trigger] is_best(streams, i) && resolution == Some(
                (streams[i].width, streams[i].height),
            ) && fps == Some(frame_rate(streams[i].interval_ms as nat) as u32)
    }
}

/// What is known of a camera whose streams could be read, or could not.
pub fn describe_camera(
    uri: String,
    product: String,
    streams: Option<Vec<StreamDescriptor>>,
) -> (info: CameraInfo)
    requires
        streams matches Some(s) ==> rates_defined(s@),
    ensures
        info.uri@ == uri@,
        info.product@ == product@,
        match streams {
            Some(s) => is_listing(s@, lines(info.all_streams@)) && describes_best(
                s@,
                info.resolution,
                info.fps,
            ),
            None => info.resolution is None && info.fps is None && info.all_streams@.len() == 0,
        },
{
    let mut resolution: Option<(u32, u32)> = None;
    let mut fps: Option<u32> = None;
    let mut all_streams: Vec<StreamInfo> = Vec::new();
    match &streams {
        Some(s) => {
            all_streams = list_streams(s);
            match best_stream(s) {
                Some(i) => {
                    resolution = Some((s[i].width, s[i].height));
                    fps = Some(frames_per_second(s[i].interval_ms));
                    assert(!none_eligible(s@)) by {
                        assert(s@[i as int].is_eligible());
                    }
                },
                None => {},
            }
        },
        None => {},
    }
    CameraInfo { uri, product, resolution, fps, all_streams }
}

/// The best stream is in the list of streams, by size and rate.
pub proof fn law_best_stream_is_listed(
    streams: Seq<StreamDescriptor>,
    listed: Seq<StreamLine>,
    i: int,
)
    requires
        is_listing(streams, listed),
        is_best(streams, i),
    ensures
        exists|k: int|
            0 <= k < listed.len() && looks_like(#[trigger] listed[k], line_of(streams[i])->0),
{
    law_listing_shows_the_streams(streams, listed);
    assert(streams[i].is_eligible());
}

/// A camera tells size and rate of its best stream: one that can be captured and that delivers as
/// many pixels per millisecond as any other, rounded down. It tells none where no stream can be
/// captured.
pub proof fn law_camera_tells_its_best_stream(
    streams: Seq<StreamDescriptor>,
    resolution: Option<(u32, u32)>,
    fps: Option<u32>,
    j: int,
)
    requires
        rates_defined(streams),
        describes_best(streams, resolution, fps),
        0 <= j < streams.len(),
        streams[j].format == PixelFormat::Rgb(24),
        streams[j].width <= 2560,
    ensures
        exists|i: int|
            {
                &&& 0 <= i < streams.len()
                &&& (#[trigger] streams[i]).format == PixelFormat::Rgb(24)
                &&& streams[i].width <= 2560
                &&& resolution == Some((streams[i].width, streams[i].height))
                &&& fps is Some && (2 * fps->0 - 1) * streams[i].interval_ms <= 2000 < (2 * fps->0
                    + 1) * streams[i].interval_ms
                &&& (streams[j].width as nat) * (streams[j].height as nat) / (
                streams[j].interval_ms as nat) <= (streams[i].width as nat) * (
                streams[i].height as nat) / (streams[i].interval_ms as nat)
            },
{
    assert(streams[j].is_eligible());
    assert(!none_eligible(streams));
    let i = choose|i: int|
        #[trigger] is_best(streams, i) && resolution == Some((streams[i].width, streams[i].height))
            && fps == Some(frame_rate(streams[i].interval_ms as nat) as u32);
    law_best_stream_delivers_most(streams, i, j);
    law_frame_rate_is_nearest(streams[i].interval_ms as nat);
    assert(streams[i].format == PixelFormat::Rgb(24));
}

/// A camera none of whose streams can be captured tells neither size nor rate.
pub proof fn law_camera_without_streams_tells_nothing(
    streams: Seq<StreamDescriptor>,
    resolution: Option<(u32, u32)>,
    fps: Option<u32>,
)
    requires
        describes_best(streams, resolution, fps),
        forall|i: int|
            0 <= i < streams.len() ==> (#[trigger] streams[i]).format != PixelFormat::Rgb(24)
                || streams[i].width > 2560,
    ensures
        resolution is None && fps is None,
{
    assert(none_eligible(streams));
}

/// What the user asks of the cameras.
#[derive(Clone, Debug)]
pub enum CameraCommand {
    /// Look for cameras again.
    Refresh,
    /// Use a camera, with its best stream.
    Select(String),
    /// Use a camera, with a stream of this width, height and rate.
    SelectWithResolution(String, u32, u32, u32),
}

/// The stream that is to be captured.
#[derive(Clone, Debug)]
pub struct StreamSelection {
    pub uri: String,
    /// Width, height and rate; the best stream where none are given.
    pub resolution: Option<(u32, u32, u32)>,
}

/// What reaches the side that looks after the cameras.
#[derive(Debug)]
pub enum CameraEvent {
    /// The value that says whether to shut down has changed.
    Shutdown(bool),
    /// The user wants something.
    Command(CameraCommand),
    /// No more commands will come.
    Closed,
}

/// What the side that looks after the cameras does next.
#[derive(Debug)]
pub enum CameraAction {
    /// Wait for the next event.
    Wait,
    /// Stop.
    Stop,
    /// Look for cameras, and hand the result in.
    Enumerate,
    /// Have this stream captured.
    Publish(StreamSelection),
}

/// The cameras that were found, and the one in use.
#[derive(Debug)]
pub struct Cameras {
    pub available: Vec<CameraInfo>,
    pub selected: Option<String>,
}

/// What a text that may be missing holds.
pub open spec fn text_in(s: Option<String>) -> Option<Seq<char>> {
    match s {
        Some(t) => Some(t@),
        None => None,
    }
}

impl CameraAction {
    /// Has the stream of `uri` captured with these dimensions.
    pub open spec fn publishes(
        self,
        uri: Seq<char>,
        resolution: Option<(u32, u32, u32)>,
    ) -> bool {
        self matches CameraAction::Publish(s) && s.uri@ == uri && s.resolution == resolution
    }
}

/// To publish a stream is to name the address of its camera and its dimensions, and nothing else is
/// published.
pub proof fn law_published_stream_is_named(
    action: CameraAction,
    uri: Seq<char>,
    resolution: Option<(u32, u32, u32)>,
)
    ensures
        action.publishes(uri, resolution) <==> match action {
            CameraAction::Publish(s) => s.uri@ == uri && s.resolution == resolution,
            _ => false,
        },
{
}

/// A camera is in use where its address is the selected one.
pub proof fn law_camera_in_use_is_selected(cameras: Cameras, uri: Seq<char>)
    ensures
        cameras.uses(uri) <==> match cameras.selected {
            Some(s) => s@ == uri,
            None => false,
        },
{
}

impl Cameras {
    /// The camera with this address is in use.
    pub open spec fn uses(self, uri: Seq<char>) -> bool {
        text_in(self.selected) == Some(uri)
    }

    /// The first cameras have been found: the first one is in use, with its best stream.
    pub fn start(available: Vec<CameraInfo>) -> (r: (Cameras, CameraAction))
        ensures
            r.0.available@ == available@,
            if available@.len() == 0 {
                r.0.selected is None && r.1 == CameraAction::Wait
            } else {
                r.0.uses(available@[0].uri@) && r.1.publishes(available@[0].uri@, None)
            },
    {
        if available.len() == 0 {
            return (Cameras { available, selected: None }, CameraAction::Wait);
        }
        let uri = available[0].uri.clone();
        let selection = StreamSelection { uri: uri.clone(), resolution: None };
        (Cameras { available, selected: Some(uri) }, CameraAction::Publish(selection))
    }

    /// Deals with an event. Choosing the camera in use again changes nothing, but choosing one of
    /// its streams does.
    pub fn step(&mut self, event: CameraEvent) -> (action: CameraAction)
        ensures
            final(self).available == old(self).available,
            action matches CameraAction::Publish(s) ==> final(self).uses(s.uri@),
            match event {
                CameraEvent::Shutdown(down) => {
                    &&& action == if down {
                        CameraAction::Stop
                    } else {
                        CameraAction::Wait
                    }
                    &&& *final(self) == *old(self)
                },
                CameraEvent::Closed => action == CameraAction::Stop && *final(self) == *old(self),
                CameraEvent::Command(CameraCommand::Refresh) => action == CameraAction::Enumerate
                    && *final(self) == *old(self),
                CameraEvent::Command(CameraCommand::Select(uri)) => if old(self).uses(uri@) {
                    action == CameraAction::Wait && *final(self) == *old(self)
                } else {
                    action.publishes(uri@, None) && final(self).uses(uri@)
                },
                CameraEvent::Command(CameraCommand::SelectWithResolution(uri, w, h, f)) => {
                    action.publishes(uri@, Some((w, h, f))) && final(self).uses(uri@)
                },
            },
    {
        match event {
            CameraEvent::Shutdown(down) => {
                if down {
                    CameraAction::Stop
                } else {
                    CameraAction::Wait
                }
            },
            CameraEvent::Closed => CameraAction::Stop,
            CameraEvent::Command(CameraCommand::Refresh) => CameraAction::Enumerate,
            CameraEvent::Command(CameraCommand::Select(uri)) => {
                let already: bool = match &self.selected {
                    Some(current) => *current == uri,
                    None => false,
                };
                if already {
                    return CameraAction::Wait;
                }
                self.selected = Some(uri.clone());
                CameraAction::Publish(StreamSelection { uri, resolution: None })
            },
            CameraEvent::Command(CameraCommand::SelectWithResolution(uri, w, h, f)) => {
                self.selected = Some(uri.clone());
                CameraAction::Publish(StreamSelection { uri, resolution: Some((w, h, f)) })
            },
        }
    }

    /// The cameras have been looked for again: the one in use, if any, is captured anew with its
    /// best stream.
    pub fn refreshed(&mut self, available: Vec<CameraInfo>) -> (action: CameraAction)
        ensures
            final(self).available == available,
            final(self).selected == old(self).selected,
            match old(self).selected {
                Some(uri) => action.publishes(uri@, None),
                None => action == CameraAction::Wait,
            },
    {
        self.available = available;
        match &self.selected {
            Some(uri) => CameraAction::Publish(
                StreamSelection { uri: uri.clone(), resolution: None },
            ),
            None => CameraAction::Wait,
        }
    }
}

} // verus!
