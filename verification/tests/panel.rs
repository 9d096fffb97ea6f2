use vid_uvc::adapter::{choose_adapter, wants_vulkan_only, AdapterInfo};
use vid_uvc::camera::{describe_camera, CameraCommand, CameraInfo};
use vid_uvc::listing::StreamInfo;
use vid_uvc::panel::{camera_fill, header_fill, stream_fill, stream_text, Rgb};
use vid_uvc::player::UVCPlayer;
use vid_uvc::stream::{PixelFormat, StreamDescriptor};
use vid_uvc::text::{last_segment_of, same_but_for_case, strip_prefix};

fn gpu(name: &str, integrated: bool) -> AdapterInfo {
    AdapterInfo { name: name.to_string(), integrated }
}

fn rgb(r: u8, g: u8, b: u8) -> Rgb {
    Rgb { r, g, b }
}

fn scope() -> CameraInfo {
    let streams = vec![
        StreamDescriptor { width: 640, height: 480, format: PixelFormat::Rgb(24), interval_ms: 33 },
        StreamDescriptor { width: 1280, height: 720, format: PixelFormat::Rgb(24), interval_ms: 100 },
    ];
    describe_camera("v4l:///dev/video2".to_string(), "Scope".to_string(), Some(streams))
}

#[test]
fn integrated_gpu_is_preferred() {
    let all = vec![gpu("RTX", false), gpu("Iris", true), gpu("Vega", true)];
    assert_eq!(choose_adapter(&all, None), Ok(1));
    assert_eq!(choose_adapter(&vec![gpu("RTX", false), gpu("GTX", false)], None), Ok(0));
}

#[test]
fn requested_gpu_is_found_by_part_of_its_name() {
    let all = vec![gpu("Intel Iris", true), gpu("NVIDIA GeForce RTX", false), gpu("nvidia", false)];
    assert_eq!(choose_adapter(&all, Some(&"geforce".to_string())), Ok(1));
    assert_eq!(choose_adapter(&all, Some(&"NviDia".to_string())), Ok(1));
    assert_eq!(choose_adapter(&all, Some(&"".to_string())), Ok(0));
}

#[test]
fn request_ignores_case_of_ascii_letters_only() {
    let all = vec![gpu("Ärger", false)];
    assert_eq!(choose_adapter(&all, Some(&"ÄRGER".to_string())), Ok(0));
    assert!(choose_adapter(&all, Some(&"ärger".to_string())).is_err());
}

#[test]
fn request_that_matches_nothing_is_refused() {
    let all = vec![gpu("Iris", true)];
    assert_eq!(
        choose_adapter(&all, Some(&"RTX".to_string())),
        Err("VID_UVC_GPU did not match an adapter: RTX".to_string())
    );
}

#[test]
fn no_gpu_is_refused() {
    assert_eq!(
        choose_adapter(&vec![], None),
        Err("wgpu did not expose any adapters".to_string())
    );
}

#[test]
fn vulkan_alone_is_asked_for() {
    for yes in ["1", "true", "TRUE", "True"] {
        assert!(wants_vulkan_only(Some(&yes.to_string())));
    }
    for no in ["", "0", "yes", "11", "true ", "false"] {
        assert!(!wants_vulkan_only(Some(&no.to_string())));
    }
    assert!(!wants_vulkan_only(None));
}

#[test]
fn case_is_ignored_in_ascii_letters() {
    for (a, b) in [("aZ[", "Az["), ("@", "`"), ("é", "É"), ("", ""), ("a", "ab")] {
        assert_eq!(same_but_for_case(a, b), a.eq_ignore_ascii_case(b), "{a} {b}");
    }
}

#[test]
fn last_segment_follows_the_last_slash() {
    for s in ["v4l:///dev/video0", "video0", "", "/", "a/", "a//b", "/x/\u{e9}t\u{e9}"] {
        assert_eq!(last_segment_of(s), s.split('/').last().unwrap_or(s));
    }
}

#[test]
fn prefixes_are_stripped() {
    for (s, p) in [("abc", "ab"), ("abc", ""), ("abc", "abc"), ("abc", "abcd"), ("abc", "b")] {
        assert_eq!(strip_prefix(s, p), s.strip_prefix(p).map(|t| t.to_string()));
    }
}

#[test]
fn captions_tell_size_and_rate() {
    let cam = scope();
    assert_eq!(cam.device_name(), "video2");
    assert_eq!(cam.best_caption(), "640x480 30fps");
    assert_eq!(cam.all_streams[0].caption(), "  1280x720 10fps");
    assert_eq!(cam.stream_id(&cam.all_streams[0]), "v4l:///dev/video2_1280x720_10");
    let none = describe_camera("a".to_string(), "b".to_string(), None);
    assert_eq!(none.best_caption(), "no RGB stream");
}

#[test]
fn captions_agree_with_formatting() {
    for (width, height, fps) in [(0, 0, 0), (9, 10, 99), (100, 1000, u32::MAX)] {
        let s = StreamInfo { width, height, fps, pixfmt: "RGB24".to_string() };
        assert_eq!(s.caption(), format!("  {}x{} {}fps", width, height, fps));
    }
}

#[test]
fn stream_ids_differ() {
    let line = |width, height, fps| StreamInfo { width, height, fps, pixfmt: "RGB24".to_string() };
    let a = describe_camera("u".to_string(), "".to_string(), None);
    let b = describe_camera("u_1x2".to_string(), "".to_string(), None);
    let ids = [
        a.stream_id(&line(1, 2, 3)),
        a.stream_id(&line(12, 3, 3)),
        a.stream_id(&line(1, 23, 3)),
        b.stream_id(&line(1, 2, 3)),
    ];
    for i in 0..ids.len() {
        for j in 0..i {
            assert_ne!(ids[i], ids[j]);
        }
    }
}

#[test]
fn camera_in_use_is_known_by_its_address() {
    let cam = scope();
    assert!(cam.is_in_use(&Some("v4l:///dev/video2".to_string())));
    assert!(!cam.is_in_use(&Some("v4l:///dev/video20".to_string())));
    assert!(!cam.is_in_use(&None));
}

#[test]
fn colours_tell_what_is_in_use() {
    assert_eq!(header_fill(true), rgb(50, 65, 50));
    assert_eq!(header_fill(false), rgb(35, 35, 40));
    assert_eq!(stream_fill(true, false), rgb(60, 90, 60));
    assert_eq!(stream_fill(true, true), rgb(60, 90, 60));
    assert_eq!(stream_fill(false, true), rgb(55, 55, 65));
    assert_eq!(stream_fill(false, false), rgb(45, 45, 50));
    assert_eq!(stream_text(true), rgb(180, 255, 180));
    assert_eq!(stream_text(false), rgb(150, 200, 150));
    assert_eq!(camera_fill(true), rgb(60, 80, 60));
    assert_eq!(camera_fill(false), rgb(40, 40, 45));
}

#[test]
fn clicking_a_stream_chooses_it() {
    let mut player = UVCPlayer::new();
    let cam = scope();
    match player.click_stream(&cam, &cam.all_streams[1]) {
        CameraCommand::SelectWithResolution(uri, w, h, f) => {
            assert_eq!((uri.as_str(), w, h, f), ("v4l:///dev/video2", 640, 480, 30))
        }
        other => panic!("{other:?}"),
    }
    assert!(player.is_stream_chosen(true, &cam.all_streams[1]));
    assert!(!player.is_stream_chosen(false, &cam.all_streams[1]));
    assert!(!player.is_stream_chosen(true, &cam.all_streams[0]));
}

#[test]
fn clicking_a_camera_drops_the_chosen_stream() {
    let mut player = UVCPlayer::new();
    let cam = scope();
    player.click_stream(&cam, &cam.all_streams[1]);
    match player.click_camera(&cam) {
        CameraCommand::Select(uri) => assert_eq!(uri, "v4l:///dev/video2"),
        other => panic!("{other:?}"),
    }
    assert_eq!(player.selected_stream, None);
    assert!(!player.is_stream_chosen(true, &cam.all_streams[1]));
}
