use vid_uvc::camera::{
    describe_camera, CameraAction, CameraCommand, CameraEvent, CameraInfo, Cameras,
};
use vid_uvc::listing::{list_streams, StreamInfo};
use vid_uvc::stream::{
    best_stream, closest_stream, frames_per_second, rate_gaps_fit, PixelFormat, StreamDescriptor,
    MAX_WIDTH,
};

fn rgb(width: u32, height: u32, interval_ms: u128) -> StreamDescriptor {
    StreamDescriptor { width, height, format: PixelFormat::Rgb(24), interval_ms }
}

fn lines(list: &Vec<StreamInfo>) -> Vec<(u32, u32, u32)> {
    list.iter().map(|s| (s.width, s.height, s.fps)).collect()
}

#[test]
fn rates_are_rounded() {
    assert_eq!(frames_per_second(33), 30);
    assert_eq!(frames_per_second(40), 25);
    assert_eq!(frames_per_second(16), 63);
    assert_eq!(frames_per_second(1), 1000);
    assert_eq!(frames_per_second(2000), 1);
    assert_eq!(frames_per_second(2001), 0);
    assert_eq!(frames_per_second(u128::MAX), 0);
    assert_eq!(frames_per_second(0), u32::MAX);
}

#[test]
fn rates_agree_with_floating_point() {
    for ms in 0u128..200_000 {
        let fps = (1000.0 / ms as f32).round();
        assert_eq!(frames_per_second(ms), fps as u32, "{ms}");
    }
    for shift in 0..128 {
        let ms = 1u128 << shift;
        assert_eq!(frames_per_second(ms), (1000.0 / ms as f32).round() as u32);
    }
}

#[test]
fn rate_is_nearest() {
    for ms in 1u128..=3000 {
        let fps = frames_per_second(ms) as i128;
        assert!((2 * fps - 1) * ms as i128 <= 2000);
        assert!(2000 < (2 * fps + 1) * ms as i128);
    }
}

#[test]
fn eligible_streams_are_rgb24_of_supported_width() {
    assert!(rgb(MAX_WIDTH, 1, 1).eligible());
    assert!(!rgb(MAX_WIDTH + 1, 1, 1).eligible());
    assert!(!StreamDescriptor { format: PixelFormat::Rgb(32), ..rgb(640, 480, 33) }.eligible());
    assert!(!StreamDescriptor { format: PixelFormat::Other, ..rgb(640, 480, 33) }.eligible());
}

#[test]
fn best_stream_has_most_pixels_per_millisecond() {
    let streams = vec![rgb(640, 480, 16), rgb(1280, 720, 33), rgb(1920, 1080, 200)];
    assert_eq!(best_stream(&streams), Some(1));
}

#[test]
fn last_of_equally_good_streams_is_best() {
    let streams = vec![rgb(640, 480, 33), rgb(480, 640, 33), rgb(320, 240, 33)];
    assert_eq!(best_stream(&streams), Some(1));
}

#[test]
fn too_wide_stream_is_never_best() {
    let streams = vec![rgb(3840, 2160, 33), rgb(640, 480, 33)];
    assert_eq!(best_stream(&streams), Some(1));
    assert_eq!(best_stream(&vec![rgb(3840, 2160, 33)]), None);
    assert_eq!(best_stream(&vec![]), None);
}

#[test]
fn closest_stream_has_size_and_nearest_rate() {
    let streams = vec![rgb(640, 480, 100), rgb(640, 480, 33), rgb(640, 480, 16), rgb(320, 240, 33)];
    assert!(rate_gaps_fit(&streams, 640, 480, 30));
    assert_eq!(closest_stream(&streams, 640, 480, 30), Some(1));
    assert_eq!(closest_stream(&streams, 640, 480, 60), Some(2));
    assert_eq!(closest_stream(&streams, 640, 480, 1), Some(0));
    assert_eq!(closest_stream(&streams, 800, 600, 30), None);
}

#[test]
fn first_of_equally_close_streams_is_taken() {
    let streams = vec![rgb(640, 480, 50), rgb(640, 480, 25)];
    assert_eq!(closest_stream(&streams, 640, 480, 30), Some(0));
}

#[test]
fn width_limit_does_not_bind_a_stream_asked_for_by_size() {
    let streams = vec![rgb(3840, 2160, 33)];
    assert_eq!(closest_stream(&streams, 3840, 2160, 30), Some(0));
}

#[test]
fn rate_gap_may_not_fit() {
    let still = vec![rgb(640, 480, 0)];
    assert!(rate_gaps_fit(&still, 640, 480, 30));
    assert_eq!(closest_stream(&still, 640, 480, 30), Some(0));
    assert!(!rate_gaps_fit(&still, 640, 480, u32::MAX));
    assert!(rate_gaps_fit(&still, 320, 240, u32::MAX));
}

#[test]
fn list_runs_from_large_to_small_and_fast_to_slow() {
    let streams = vec![
        rgb(640, 480, 33),
        rgb(1280, 720, 100),
        rgb(640, 480, 16),
        rgb(1280, 720, 33),
        rgb(3840, 2160, 33),
    ];
    let list = list_streams(&streams);
    assert_eq!(lines(&list), [(1280, 720, 30), (1280, 720, 10), (640, 480, 63), (640, 480, 30)]);
    assert!(list.iter().all(|s| s.pixfmt == "RGB24"));
}

#[test]
fn list_drops_lines_that_look_alike() {
    let streams = vec![rgb(640, 480, 33), rgb(640, 480, 33), rgb(640, 480, 34)];
    assert_eq!(lines(&list_streams(&streams)), [(640, 480, 30), (640, 480, 29)]);
    let told_apart = vec![rgb(640, 480, 666), rgb(640, 480, 700)];
    assert_eq!(lines(&list_streams(&told_apart)), [(640, 480, 2), (640, 480, 1)]);
    let rounded_alike = vec![rgb(640, 480, 1400), rgb(640, 480, 1500)];
    assert_eq!(lines(&list_streams(&rounded_alike)), [(640, 480, 1)]);
}

#[test]
fn list_drops_lines_that_look_alike_and_are_apart() {
    let streams = vec![rgb(400, 300, 33), rgb(300, 400, 33), rgb(400, 300, 33)];
    assert_eq!(lines(&list_streams(&streams)), [(400, 300, 30), (300, 400, 30)]);
    let info = describe_camera("a".to_string(), "b".to_string(), Some(streams));
    assert_eq!(lines(&info.all_streams), [(400, 300, 30), (300, 400, 30)]);
}

#[test]
fn list_keeps_order_of_equal_ranks() {
    let streams = vec![rgb(200, 100, 33), rgb(50, 400, 33), rgb(100, 200, 33)];
    assert_eq!(
        lines(&list_streams(&streams)),
        [(200, 100, 30), (50, 400, 30), (100, 200, 30)]
    );
}

#[test]
fn list_agrees_with_a_stable_sort() {
    let mut streams = Vec::new();
    let mut x: u32 = 7;
    for _ in 0..60 {
        x = x.wrapping_mul(1103515245).wrapping_add(12345);
        let size = [(640, 480), (480, 640), (320, 240), (2560, 1440), (2561, 1)][(x >> 16) as usize % 5];
        let ms = [16, 33, 33, 50][(x >> 20) as usize % 4];
        streams.push(rgb(size.0, size.1, ms));
    }
    let mut sorted: Vec<(u32, u32, u32)> = streams
        .iter()
        .filter(|s| s.width <= 2560)
        .map(|s| (s.width, s.height, (1000.0 / s.interval_ms as f32).round() as u32))
        .collect();
    sorted.sort_by(|a, b| {
        let pa = a.0 as u64 * a.1 as u64;
        let pb = b.0 as u64 * b.1 as u64;
        pb.cmp(&pa).then(b.2.cmp(&a.2))
    });
    let mut expected: Vec<(u32, u32, u32)> = Vec::new();
    for line in sorted {
        if !expected.contains(&line) {
            expected.push(line);
        }
    }
    assert_eq!(lines(&list_streams(&streams)), expected);
}

fn camera(uri: &str) -> CameraInfo {
    describe_camera(uri.to_string(), "Microscope".to_string(), None)
}

#[test]
fn camera_is_described_by_its_streams() {
    let streams = vec![rgb(640, 480, 33), rgb(1280, 720, 33)];
    let info = describe_camera("v4l:///dev/video0".to_string(), "Scope".to_string(), Some(streams));
    assert_eq!(info.uri, "v4l:///dev/video0");
    assert_eq!(info.product, "Scope");
    assert_eq!(info.resolution, Some((1280, 720)));
    assert_eq!(info.fps, Some(30));
    assert_eq!(lines(&info.all_streams), [(1280, 720, 30), (640, 480, 30)]);
    let best = (info.resolution.unwrap().0, info.resolution.unwrap().1, info.fps.unwrap());
    assert!(lines(&info.all_streams).contains(&best));
}

#[test]
fn camera_without_streams_is_described() {
    for streams in [None, Some(vec![]), Some(vec![rgb(3840, 2160, 0)])] {
        let info = describe_camera("a".to_string(), "b".to_string(), streams);
        assert_eq!(info.resolution, None);
        assert_eq!(info.fps, None);
        assert!(info.all_streams.is_empty());
    }
}

#[test]
fn first_camera_is_used_at_the_start() {
    let (cameras, action) = Cameras::start(vec![camera("a"), camera("b")]);
    assert_eq!(cameras.available.len(), 2);
    assert_eq!(cameras.selected.as_deref(), Some("a"));
    match action {
        CameraAction::Publish(s) => assert_eq!((s.uri.as_str(), s.resolution), ("a", None)),
        other => panic!("{other:?}"),
    }
    let (none, action) = Cameras::start(vec![]);
    assert_eq!(none.selected, None);
    assert!(matches!(action, CameraAction::Wait));
}

#[test]
fn choosing_a_camera_publishes_it_once() {
    let (mut cameras, _) = Cameras::start(vec![camera("a"), camera("b")]);
    let select = |uri: &str| CameraEvent::Command(CameraCommand::Select(uri.to_string()));
    match cameras.step(select("b")) {
        CameraAction::Publish(s) => assert_eq!((s.uri.as_str(), s.resolution), ("b", None)),
        other => panic!("{other:?}"),
    }
    assert_eq!(cameras.selected.as_deref(), Some("b"));
    assert!(matches!(cameras.step(select("b")), CameraAction::Wait));
}

#[test]
fn choosing_a_stream_publishes_it_every_time() {
    let (mut cameras, _) = Cameras::start(vec![camera("a")]);
    for _ in 0..2 {
        let cmd = CameraCommand::SelectWithResolution("a".to_string(), 640, 480, 30);
        match cameras.step(CameraEvent::Command(cmd)) {
            CameraAction::Publish(s) => {
                assert_eq!((s.uri.as_str(), s.resolution), ("a", Some((640, 480, 30))))
            }
            other => panic!("{other:?}"),
        }
    }
}

#[test]
fn refreshing_reopens_the_camera_in_use() {
    let (mut cameras, _) = Cameras::start(vec![camera("a"), camera("b")]);
    assert!(matches!(
        cameras.step(CameraEvent::Command(CameraCommand::Refresh)),
        CameraAction::Enumerate
    ));
    match cameras.refreshed(vec![camera("b")]) {
        CameraAction::Publish(s) => assert_eq!((s.uri.as_str(), s.resolution), ("a", None)),
        other => panic!("{other:?}"),
    }
    assert_eq!(cameras.available.len(), 1);
    assert_eq!(cameras.selected.as_deref(), Some("a"));

    let (mut none, _) = Cameras::start(vec![]);
    assert!(matches!(none.refreshed(vec![camera("b")]), CameraAction::Wait));
    assert_eq!(none.selected, None);
}

#[test]
fn camera_side_stops_when_told_or_left_alone() {
    let (mut cameras, _) = Cameras::start(vec![camera("a")]);
    assert!(matches!(cameras.step(CameraEvent::Shutdown(false)), CameraAction::Wait));
    assert!(matches!(cameras.step(CameraEvent::Shutdown(true)), CameraAction::Stop));
    assert!(matches!(cameras.step(CameraEvent::Closed), CameraAction::Stop));
    assert_eq!(cameras.selected.as_deref(), Some("a"));
}
