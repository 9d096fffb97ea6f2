//! The camera panel: captions, colours and clicks.

use crate::camera::{CameraCommand, CameraInfo};
use crate::listing::StreamInfo;
use crate::player::UVCPlayer;
use crate::text::{
    decimal, last_segment, last_segment_of, law_decimal_holds_digits, law_decimal_is_injective,
    push_decimal,
};
use vstd::prelude::*;
use vstd::string::*;

verus! {

/// A colour by its red, green and blue.
#[derive(Clone, Copy, Debug, PartialEq, Eq, Structural)]
pub struct Rgb {
    pub r: u8,
    pub g: u8,
    pub b: u8,
}

/// Size and rate in words.
pub open spec fn size_and_rate(width: u32, height: u32, fps: u32) -> Seq<char> {
    decimal(width as nat) + "x"@ + decimal(height as nat) + " "@ + decimal(fps as nat) + "fps"@
}

fn push_size_and_rate(s: &mut String, width: u32, height: u32, fps: u32)
    ensures
        final(s)@ == old(s)@ + size_and_rate(width, height, fps),
{
    push_decimal(s, width as u128);
    s.append("x");
    push_decimal(s, height as u128);
    s.append(" ");
    push_decimal(s, fps as u128);
    s.append("fps");
    assert(s@ =~= old(s)@ + size_and_rate(width, height, fps));
}

/// A text made of the address of a camera and the size and rate of one of its streams.
pub open spec fn id_text(uri: Seq<char>, width: u32, height: u32, fps: u32) -> Seq<char> {
    uri + "_"@ + decimal(width as nat) + "x"@ + decimal(height as nat) + "_"@ + decimal(fps as nat)
}

proof fn lemma_split_at_last(a: Seq<char>, b: Seq<char>, sep: Seq<char>, x: nat, y: nat)
    requires
        sep.len() == 1,
        !('0' <= sep[0] <= '9'),
        a + sep + decimal(x) == b + sep + decimal(y),
    ensures
        a == b,
        x == y,
{
    let s = a + sep + decimal(x);
    let dx = decimal(x);
    let dy = decimal(y);
    if dx.len() < dy.len() {
        let i = dy.len() - dx.len() - 1;
        law_decimal_holds_digits(y, i);
        assert(s[s.len() - dx.len() - 1] == sep[0]);
        assert(s[s.len() - dx.len() - 1] == dy[i]);
    } else if dy.len() < dx.len() {
        let i = dx.len() - dy.len() - 1;
        law_decimal_holds_digits(x, i);
        assert(s[s.len() - dy.len() - 1] == sep[0]);
        assert(s[s.len() - dy.len() - 1] == dx[i]);
    }
    assert(s.skip(s.len() - dx.len()) =~= dx);
    assert(s.skip(s.len() - dy.len()) =~= dy);
    law_decimal_is_injective(x, y);
    assert(s.take(s.len() - dx.len() - 1) =~= a);
    assert(s.take(s.len() - dy.len() - 1) =~= b);
}

/// Different streams have different texts, whichever cameras they belong to.
pub proof fn law_stream_ids_differ(
    uri: Seq<char>,
    w: u32,
    h: u32,
    f: u32,
    uri2: Seq<char>,
    w2: u32,
    h2: u32,
    f2: u32,
)
    requires
        id_text(uri, w, h, f) == id_text(uri2, w2, h2, f2),
    ensures
        uri == uri2 && w == w2 && h == h2 && f == f2,
{
    reveal_strlit("_");
    reveal_strlit("x");
    let a = uri + "_"@ + decimal(w as nat);
    let a2 = uri2 + "_"@ + decimal(w2 as nat);
    let b = a + "x"@ + decimal(h as nat);
    let b2 = a2 + "x"@ + decimal(h2 as nat);
    lemma_split_at_last(b, b2, "_"@, f as nat, f2 as nat);
    lemma_split_at_last(a, a2, "x"@, h as nat, h2 as nat);
    lemma_split_at_last(uri, uri2, "_"@, w as nat, w2 as nat);
}

/// A caption tells the width, an `x`, the height, a space, the rate and the word `fps`, in that
/// order.
pub proof fn law_caption_tells_size_and_rate(width: u32, height: u32, fps: u32)
    ensures
        ({
            let s = size_and_rate(width, height, fps);
            let w = decimal(width as nat);
            let h = decimal(height as nat);
            let f = decimal(fps as nat);
            let (nw, nh, nf) = (w.len() as int, h.len() as int, f.len() as int);
            &&& s.len() == nw + nh + nf + 5
            &&& s.take(nw) == w
            &&& s[nw] == 'x'
            &&& s.subrange(nw + 1, nw + 1 + nh) == h
            &&& s[nw + 1 + nh] == ' '
            &&& s.subrange(nw + nh + 2, nw + nh + 2 + nf) == f
            &&& s.skip(s.len() - 3) == "fps"@
        }),
{
    reveal_strlit("x");
    reveal_strlit(" ");
    reveal_strlit("fps");
    let s = size_and_rate(width, height, fps);
    let w = decimal(width as nat);
    let h = decimal(height as nat);
    let f = decimal(fps as nat);
    let (nw, nh, nf) = (w.len() as int, h.len() as int, f.len() as int);
    assert("x"@.len() == 1 && " "@.len() == 1 && "fps"@.len() == 3);
    assert(s.take(nw) =~= w);
    assert(s.subrange(nw + 1, nw + 1 + nh) =~= h);
    assert(s.subrange(nw + nh + 2, nw + nh + 2 + nf) =~= f);
    assert(s.skip(s.len() - 3) =~= "fps"@);
}

/// The text that tells streams apart starts with the address of the camera, and goes on with width,
/// height and rate.
pub proof fn law_stream_id_tells_camera_size_and_rate(
    uri: Seq<char>,
    width: u32,
    height: u32,
    fps: u32,
)
    ensures
        ({
            let s = id_text(uri, width, height, fps);
            let w = decimal(width as nat);
            let h = decimal(height as nat);
            let f = decimal(fps as nat);
            let (nu, nw, nh, nf) = (uri.len() as int, w.len() as int, h.len() as int, f.len() as int);
            &&& s.len() == nu + nw + nh + nf + 3
            &&& s.take(nu) == uri
            &&& s[nu] == '_'
            &&& s.skip(nu + 1).take(nw) == w
            &&& s[nu + 1 + nw] == 'x'
            &&& s.skip(nu + nw + 2).take(nh) == h
            &&& s[nu + 2 + nw + nh] == '_'
            &&& s.skip(s.len() - nf) == f
        }),
{
    reveal_strlit("_");
    reveal_strlit("x");
    let s = id_text(uri, width, height, fps);
    let w = decimal(width as nat);
    let h = decimal(height as nat);
    let f = decimal(fps as nat);
    let (nu, nw, nh, nf) = (uri.len() as int, w.len() as int, h.len() as int, f.len() as int);
    assert("x"@.len() == 1 && "_"@.len() == 1);
    assert(s.take(nu) =~= uri);
    assert(s.skip(nu + 1).take(nw) =~= w);
    assert(s.skip(nu + nw + 2).take(nh) =~= h);
    assert(s.skip(s.len() - nf) =~= f);
}

impl CameraInfo {
    /// The name of the device: the last segment of its address.
    pub fn device_name(&self) -> (s: String)
        ensures
            s@ == last_segment(self.uri@),
    {
        last_segment_of(self.uri.as_str())
    }

    /// The best stream in words.
    pub fn best_caption(&self) -> (s: String)
        ensures
            s@ == match (self.resolution, self.fps) {
                (Some((w, h)), Some(fps)) => size_and_rate(w, h, fps),
                _ => "no RGB stream"@,
            },
    {
        match self.resolution {
            Some((w, h)) => match self.fps {
                Some(fps) => {
                    let mut s = String::new();
                    push_size_and_rate(&mut s, w, h, fps);
                    assert(s@ =~= size_and_rate(w, h, fps));
                    s
                },
                None => "no RGB stream".to_owned(),
            },
            None => "no RGB stream".to_owned(),
        }
    }

    /// Whether the camera is the one in use.
    pub fn is_in_use(&self, selected: &Option<String>) -> (r: bool)
        ensures
            r == (selected matches Some(u) && u@ == self.uri@),
    {
        match selected {
            Some(u) => *u == self.uri,
            None => false,
        }
    }

    /// A text that tells the streams of all cameras apart.
    pub fn stream_id(&self, stream: &StreamInfo) -> (s: String)
        ensures
            s@ == id_text(self.uri@, stream.width, stream.height, stream.fps),
    {
        let mut s = self.uri.clone();
        s.append("_");
        push_decimal(&mut s, stream.width as u128);
        s.append("x");
        push_decimal(&mut s, stream.height as u128);
        s.append("_");
        push_decimal(&mut s, stream.fps as u128);
        s
    }
}

impl StreamInfo {
    /// The stream in words, indented.
    pub fn caption(&self) -> (s: String)
        ensures
            s@ == "  "@ + size_and_rate(self.width, self.height, self.fps),
    {
        let mut s = "  ".to_owned();
        push_size_and_rate(&mut s, self.width, self.height, self.fps);
        s
    }
}

/// Background of a camera's heading above its streams.
pub fn header_fill(in_use: bool) -> (c: Rgb)
    ensures
        c == if in_use {
            Rgb { r: 50, g: 65, b: 50 }
        } else {
            Rgb { r: 35, g: 35, b: 40 }
        },
{
    if in_use {
        Rgb { r: 50, g: 65, b: 50 }
    } else {
        Rgb { r: 35, g: 35, b: 40 }
    }
}

/// Background of a stream.
pub fn stream_fill(chosen: bool, hovered: bool) -> (c: Rgb)
    ensures
        c == if chosen {
            Rgb { r: 60, g: 90, b: 60 }
        } else if hovered {
            Rgb { r: 55, g: 55, b: 65 }
        } else {
            Rgb { r: 45, g: 45, b: 50 }
        },
{
    if chosen {
        Rgb { r: 60, g: 90, b: 60 }
    } else if hovered {
        Rgb { r: 55, g: 55, b: 65 }
    } else {
        Rgb { r: 45, g: 45, b: 50 }
    }
}

/// Colour of a stream's caption.
pub fn stream_text(chosen: bool) -> (c: Rgb)
    ensures
        c == if chosen {
            Rgb { r: 180, g: 255, b: 180 }
        } else {
            Rgb { r: 150, g: 200, b: 150 }
        },
{
    if chosen {
        Rgb { r: 180, g: 255, b: 180 }
    } else {
        Rgb { r: 150, g: 200, b: 150 }
    }
}

/// Background of a camera that is shown without its streams.
pub fn camera_fill(in_use: bool) -> (c: Rgb)
    ensures
        c == if in_use {
            Rgb { r: 60, g: 80, b: 60 }
        } else {
            Rgb { r: 40, g: 40, b: 45 }
        },
{
    if in_use {
        Rgb { r: 60, g: 80, b: 60 }
    } else {
        Rgb { r: 40, g: 40, b: 45 }
    }
}

impl UVCPlayer {
    /// Whether a stream of a camera is the one that was chosen by hand.
    pub fn is_stream_chosen(&self, camera_in_use: bool, stream: &StreamInfo) -> (r: bool)
        ensures
            r == (camera_in_use && self.selected_stream == Some(
                (stream.width, stream.height, stream.fps),
            )),
    {
        match self.selected_stream {
            Some((w, h, f)) => camera_in_use && w == stream.width && h == stream.height && f
                == stream.fps,
            None => false,
        }
    }

    /// A stream of a camera was clicked: it is to be captured.
    pub fn click_stream(&mut self, camera: &CameraInfo, stream: &StreamInfo) -> (cmd: CameraCommand)
        ensures
            *final(self) == (UVCPlayer {
                selected_stream: Some((stream.width, stream.height, stream.fps)),
                ..*old(self)
            }),
            cmd matches CameraCommand::SelectWithResolution(uri, w, h, f) && uri@ == camera.uri@
                && w == stream.width && h == stream.height && f == stream.fps,
            old(self).ready() ==> final(self).ready(),
    {
        self.selected_stream = Some((stream.width, stream.height, stream.fps));
        CameraCommand::SelectWithResolution(
            camera.uri.clone(),
            stream.width,
            stream.height,
            stream.fps,
        )
    }

    /// A camera was clicked: its best stream is to be captured, and none is chosen by hand.
    pub fn click_camera(&mut self, camera: &CameraInfo) -> (cmd: CameraCommand)
        ensures
            *final(self) == (UVCPlayer { selected_stream: None, ..*old(self) }),
            cmd matches CameraCommand::Select(uri) && uri@ == camera.uri@,
            old(self).ready() ==> final(self).ready(),
    {
        self.selected_stream = None;
        CameraCommand::Select(camera.uri.clone())
    }
}

} // verus!
