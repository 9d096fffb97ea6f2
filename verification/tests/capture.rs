use vid_uvc::camera::StreamSelection;
use vid_uvc::capture::{capture_file_name, CaptureError, Target};
use vid_uvc::dmabuf::{
    is_supported, support_status, Backend, CameraBuffer, DmaBufFrame, GpuInfo, ImportLayout,
};
use vid_uvc::frame::SharedFrame;
use vid_uvc::picture::rgba_samples;
use vid_uvc::player::UVCPlayer;
use vid_uvc::pump::{
    Capture, CaptureStep, DmaAction, DmaEvent, Opened, Opening, Pump, PumpEvent, PumpNext, Way,
};

fn frame_of(width: u32, height: u32, rgb: Vec<u8>) -> SharedFrame<u8> {
    let mut frame: SharedFrame<u8> = SharedFrame::blank();
    frame.prepare_rgb(width, height);
    let mut capture = Capture::new();
    assert_eq!(capture.rgb_frame(&mut frame, width, height, Some(&rgb)), CaptureStep::Shown);
    frame
}

fn dma(buffer_index: u32, width: u32, height: u32) -> DmaBufFrame {
    DmaBufFrame {
        buffer_index,
        width,
        height,
        fourcc: 0x56595559,
        modifier: 0,
        stride: 2 * width,
        offset: 16,
    }
}

#[test]
fn opacity_follows_each_pixel() {
    let rgb = vec![1, 2, 3, 4, 5, 6, 7, 8, 9, 10, 11, 12];
    assert_eq!(
        rgba_samples(&rgb, 2, 2),
        [1, 2, 3, 255, 4, 5, 6, 255, 7, 8, 9, 255, 10, 11, 12, 255]
    );
    assert_eq!(rgba_samples(&rgb, 1, 2), [1, 2, 3, 255, 4, 5, 6, 255]);
    assert_eq!(rgba_samples(&rgb, 0, 5), Vec::<u8>::new());
}

#[test]
fn samples_agree_with_a_raster_picture() {
    let rgb: Vec<u8> = (0..60u8).collect();
    let samples = rgba_samples(&rgb, 5, 4);
    let picture = image::RgbaImage::from_raw(5, 4, samples).unwrap();
    for y in 0..4u32 {
        for x in 0..5u32 {
            let i = 3 * (5 * y + x) as u8;
            assert_eq!(picture.get_pixel(x, y).0, [i, i + 1, i + 2, 255]);
        }
    }
}

#[test]
fn capture_gives_the_picture() {
    let player = UVCPlayer::new();
    let frame = frame_of(2, 1, vec![9, 8, 7, 6, 5, 4]);
    for target in [Target::Absent, Target::Directory] {
        let shot = player.capture_to_path(&frame, target).unwrap();
        assert_eq!((shot.width, shot.height), (2, 1));
        assert_eq!(shot.rgba, [9, 8, 7, 255, 6, 5, 4, 255]);
    }
}

#[test]
fn capture_needs_a_frame() {
    let player = UVCPlayer::new();
    let frame: SharedFrame<u8> = SharedFrame::blank();
    assert_eq!(player.capture_to_path(&frame, Target::Other).unwrap_err(), CaptureError::NoFrame);
}

#[test]
fn capture_needs_enough_bytes() {
    let player = UVCPlayer::new();
    let mut frame = frame_of(2, 1, vec![0; 6]);
    frame.height = 2;
    assert_eq!(
        player.capture_to_path(&frame, Target::Other).unwrap_err(),
        CaptureError::BufferTooSmall
    );
}

#[test]
fn capture_needs_a_directory() {
    let player = UVCPlayer::new();
    let frame = frame_of(2, 1, vec![0; 6]);
    assert_eq!(
        player.capture_to_path(&frame, Target::Other).unwrap_err(),
        CaptureError::NotADirectory
    );
}

#[test]
fn capture_errors_have_messages() {
    assert_eq!(CaptureError::NoFrame.message("\"x\""), "no frame available to capture");
    assert_eq!(CaptureError::BufferTooSmall.message("\"x\""), "frame buffer too small");
    assert_eq!(
        CaptureError::NotADirectory.message("\"x\""),
        "target path exists but is not a directory: \"x\""
    );
}

#[test]
fn capture_files_are_named_by_time() {
    assert_eq!(capture_file_name(0), "capture-0.png");
    assert_eq!(capture_file_name(1700000000123), "capture-1700000000123.png");
    for millis in [10, 99, 100, 12345678901234567890, u128::MAX] {
        assert_eq!(capture_file_name(millis), format!("capture-{}.png", millis));
    }
    assert_ne!(capture_file_name(1), capture_file_name(10));
}

#[test]
fn capture_status_is_kept() {
    let mut player = UVCPlayer::new();
    player.capture_saved("./captures/capture-1.png");
    assert_eq!(player.last_capture_status.as_deref(), Some("Saved ./captures/capture-1.png"));
    player.capture_failed("no frame available to capture");
    assert_eq!(
        player.last_capture_status.as_deref(),
        Some("Error: no frame available to capture")
    );
}

#[test]
fn blank_frame_holds_nothing() {
    let frame: SharedFrame<u8> = SharedFrame::blank();
    assert_eq!((frame.seq, frame.width, frame.height), (0, 0, 0));
    assert!(frame.rgb.is_empty() && frame.dma.is_none() && frame.dma_requeue.is_none());
}

#[test]
fn frame_is_resized_to_its_picture() {
    let mut frame = frame_of(1, 2, vec![1, 2, 3, 4, 5, 6]);
    frame.prepare_rgb(1, 1);
    assert_eq!(frame.rgb, [1, 2, 3]);
    frame.prepare_rgb(2, 1);
    assert_eq!(frame.rgb, [1, 2, 3, 0, 0, 0]);
    assert_eq!((frame.width, frame.height, frame.seq), (2, 1, 1));
}

#[test]
fn frames_are_counted() {
    let mut frame: SharedFrame<u8> = SharedFrame::blank();
    frame.prepare_rgb(1, 1);
    let mut capture = Capture::new();
    for n in 1..=3u8 {
        let step = capture.rgb_frame(&mut frame, 1, 1, Some(&[n, n, n]));
        assert_eq!(step, CaptureStep::Shown);
        assert_eq!((frame.seq, capture.seq), (n as u64, n as u64));
        assert_eq!(frame.rgb, [n, n, n]);
    }
    capture.seq = u64::MAX;
    capture.rgb_frame(&mut frame, 1, 1, Some(&[9, 9, 9]));
    assert_eq!(frame.seq, 0);
}

#[test]
fn frame_of_another_size_is_skipped() {
    let mut frame = frame_of(1, 1, vec![1, 2, 3]);
    let mut capture = Capture { seq: 1 };
    assert_eq!(capture.rgb_frame(&mut frame, 1, 1, Some(&[1, 2])), CaptureStep::Skip);
    assert_eq!(capture.rgb_frame(&mut frame, 1, 1, None), CaptureStep::End);
    assert_eq!((capture.seq, frame.seq), (1, 1));
    assert_eq!(frame.rgb, [1, 2, 3]);
}

#[test]
fn dma_frame_replaces_the_one_before() {
    let mut frame: SharedFrame<u8> = SharedFrame::blank();
    let mut capture = Capture::new();
    capture.dma_frame(&mut frame, 7, dma(0, 640, 480));
    capture.dma_frame(&mut frame, 8, dma(1, 320, 240));
    assert_eq!((frame.seq, frame.width, frame.height), (2, 320, 240));
    assert_eq!(frame.dma, Some((8, dma(1, 320, 240))));
    assert_eq!(frame.take_requeue(), None);
}

#[test]
fn dma_buffer_goes_round() {
    let mut player = UVCPlayer::new();
    let mut frame: SharedFrame<u8> = SharedFrame::blank();
    let mut capture = Capture::new();
    capture.dma_frame(&mut frame, 7, dma(3, 640, 480));
    assert!(!player.poll_dma(&mut frame, true));
    let (handle, metadata) = player.take_dma(&mut frame).unwrap();
    assert_eq!((handle, metadata), (7, dma(3, 640, 480)));
    assert!(frame.dma.is_none());
    let up = player.dma_imported(&metadata);
    assert_eq!(up.new_texture, Some((640, 480)));
    assert_eq!(up.groups, (80, 60));
    assert_eq!(player.dma_in_flight, Some(3));
    assert_eq!(player.video_size, (640, 480));

    capture.dma_frame(&mut frame, 8, dma(4, 640, 480));
    assert!(player.poll_dma(&mut frame, false));
    assert!(player.take_dma(&mut frame).is_none());
    assert!(player.upload_frame(&frame).is_none());
    assert_eq!(frame.take_requeue(), None);
    assert!(frame.dma.is_some());

    assert!(!player.poll_dma(&mut frame, true));
    assert_eq!(player.dma_in_flight, None);
    assert_eq!(frame.take_requeue(), Some(3));
    assert_eq!(frame.take_requeue(), None);
    let (_, metadata) = player.take_dma(&mut frame).unwrap();
    assert_eq!(player.dma_imported(&metadata).new_texture, None);
}

#[test]
fn dma_buffer_that_cannot_be_imported_goes_back() {
    let mut frame: SharedFrame<u8> = SharedFrame::blank();
    vid_uvc::upload::dma_import_failed(&mut frame, &dma(5, 1, 1));
    assert_eq!(frame.dma_requeue, Some(5));
}

#[test]
fn dma_pixels_take_two_bytes() {
    let raw = dma(1, 640, 480).raw();
    assert_eq!((raw.width, raw.height, raw.buffer_index), (1280, 480, 1));
    assert_eq!(dma(1, 0x7fff_ffff, 1).raw().width, 0xffff_fffe);
    let wide = DmaBufFrame { width: 0x8000_0000, ..dma(1, 1, 1) };
    assert_eq!(wide.raw().width, u32::MAX);
    assert_eq!(
        raw.import_layout(),
        ImportLayout { width: 1280, height: 480, modifier: 0, stride: 1280, offset: 16 }
    );
}

#[test]
fn gpu_support_is_told() {
    let gpu = GpuInfo { name: "Iris".to_string(), backend: Backend::Vulkan, imports_dma_buf: true };
    assert_eq!(support_status(&gpu), "GPU: Iris (Vulkan); Vulkan DMA-BUF/YUYV-R8: true");
    assert!(is_supported(&gpu));
    let gl = GpuInfo { backend: Backend::Gl, ..gpu.clone() };
    assert_eq!(support_status(&gl), "GPU: Iris (Gl); Vulkan DMA-BUF/YUYV-R8: true");
    assert!(!is_supported(&gl));
    let old = GpuInfo { imports_dma_buf: false, ..gpu };
    assert_eq!(support_status(&old), "GPU: Iris (Vulkan); Vulkan DMA-BUF/YUYV-R8: false");
    assert!(!is_supported(&old));
}

#[test]
fn backends_have_names() {
    let all = [
        Backend::Noop,
        Backend::Vulkan,
        Backend::Metal,
        Backend::Dx12,
        Backend::Gl,
        Backend::BrowserWebGpu,
    ];
    for backend in all {
        assert_eq!(backend.name(), format!("{backend:?}"));
    }
}

fn selection(uri: &str, resolution: Option<(u32, u32, u32)>) -> StreamSelection {
    StreamSelection { uri: uri.to_string(), resolution }
}

#[test]
fn pump_captures_what_is_selected() {
    let mut pump = Pump::new();
    let first = pump.step(PumpEvent::Selection);
    assert!(!first.end_current && !first.exit);
    assert!(matches!(pump.go_on(Some(selection("a", None))), PumpNext::Capture(s) if s.uri == "a"));
    let second = pump.step(PumpEvent::Selection);
    assert!(second.end_current && !second.exit);
    let next = pump.go_on(Some(selection("b", Some((1, 2, 3)))));
    assert!(matches!(next, PumpNext::Capture(s) if s.resolution == Some((1, 2, 3))));
    let third = pump.step(PumpEvent::Selection);
    assert!(third.end_current && !third.exit);
    assert!(matches!(pump.go_on(None), PumpNext::Clear));
    let fourth = pump.step(PumpEvent::Shutdown(false));
    assert!(!fourth.end_current && !fourth.exit);
    assert!(matches!(pump.go_on(None), PumpNext::Clear));
}

#[test]
fn pump_exits_when_told_or_left_alone() {
    for event in [PumpEvent::Shutdown(true), PumpEvent::Closed] {
        let mut pump = Pump::new();
        pump.step(PumpEvent::Shutdown(false));
        pump.go_on(Some(selection("a", None)));
        assert!(pump.capturing);
        let step = pump.step(event);
        assert!(step.end_current && step.exit);
        assert!(!pump.capturing);
    }
}

#[test]
fn only_video4linux_is_captured_into_dma_buffers() {
    let request = selection("v4l:///dev/video0", Some((640, 480, 30))).dma_request().unwrap();
    assert_eq!(request.path, "/dev/video0");
    assert_eq!(request.mode, Some((640, 480, 30)));
    let request = selection("v4l://", None).dma_request().unwrap();
    assert_eq!((request.path.as_str(), request.mode), ("", None));
    assert!(selection("v4l:/dev/video0", None).dma_request().is_none());
    assert!(selection("uvc://046d:0825", None).dma_request().is_none());
    assert!(selection(" v4l://x", None).dma_request().is_none());
}

fn camera_buffer(buffer_index: u32) -> CameraBuffer {
    CameraBuffer { buffer_index, width: 640, height: 480, fourcc: 0x56595559, stride: 1280, offset: 16 }
}

#[test]
fn camera_buffer_is_not_tiled() {
    assert_eq!(camera_buffer(2).frame(), dma(2, 640, 480));
}

#[test]
fn dma_buffers_are_tried_first() {
    match selection("v4l:///dev/video0", Some((640, 480, 30))).way(false) {
        Way::Dma(q) => {
            assert_eq!((q.path.as_str(), q.mode), ("/dev/video0", Some((640, 480, 30))))
        }
        other => panic!("{other:?}"),
    }
    assert!(matches!(selection("uvc://x", Some((1, 2, 3))).way(false), Way::Closest(1, 2, 3)));
    assert!(matches!(selection("uvc://x", None).way(false), Way::Best));
}

#[test]
fn refused_dma_falls_back_to_packed_frames() {
    let sized = selection("v4l:///dev/video0", Some((640, 480, 30)));
    let auto = selection("v4l:///dev/video0", None);
    let mut frame = frame_of(1, 1, vec![1, 2, 3]);
    assert!(matches!(
        sized.opened(&mut frame, Opened::DmaRefused),
        Opening::Try(Way::Closest(640, 480, 30))
    ));
    assert!(matches!(auto.opened(&mut frame, Opened::DmaRefused), Opening::Try(Way::Best)));
    assert_eq!((frame.seq, frame.rgb.as_slice()), (1, [1u8, 2, 3].as_slice()));
}

#[test]
fn opened_stream_is_captured() {
    let auto = selection("v4l:///dev/video0", None);
    let mut frame = frame_of(1, 1, vec![1, 2, 3]);
    assert!(matches!(auto.opened(&mut frame, Opened::Dma), Opening::CaptureDma));
    assert_eq!((frame.width, frame.height, frame.rgb.len()), (1, 1, 3));
    assert!(matches!(auto.opened(&mut frame, Opened::Rgb(2, 1)), Opening::CaptureRgb));
    assert_eq!((frame.width, frame.height), (2, 1));
    assert_eq!(frame.rgb, [1, 2, 3, 0, 0, 0]);
}

#[test]
fn refused_stream_clears_the_frame() {
    let auto = selection("v4l:///dev/video0", None);
    let mut frame = frame_of(1, 1, vec![1, 2, 3]);
    assert!(matches!(auto.opened(&mut frame, Opened::RgbRefused), Opening::End));
    assert_eq!((frame.seq, frame.width, frame.height), (0, 0, 0));
    assert!(frame.rgb.is_empty());
}

#[test]
fn buffer_goes_back_before_the_next_frame() {
    let mut frame: SharedFrame<u8> = SharedFrame::blank();
    let mut capture = Capture::new();
    assert_eq!(capture.dma_step(&mut frame, DmaEvent::Due), DmaAction::Dequeue);
    let filled = DmaEvent::Dequeued(Some((7, camera_buffer(2))));
    assert_eq!(capture.dma_step(&mut frame, filled), DmaAction::Shown);
    assert_eq!((frame.seq, capture.seq), (1, 1));
    assert_eq!(frame.dma, Some((7, dma(2, 640, 480))));
    frame.dma_requeue = Some(2);
    assert_eq!(capture.dma_step(&mut frame, DmaEvent::Due), DmaAction::Requeue(2));
    assert_eq!(frame.dma_requeue, None);
    assert_eq!(capture.dma_step(&mut frame, DmaEvent::Requeued(true)), DmaAction::Dequeue);
}

#[test]
fn dma_failure_ends_the_capture() {
    let mut frame: SharedFrame<u8> = SharedFrame::blank();
    let mut capture = Capture::new();
    assert_eq!(capture.dma_step(&mut frame, DmaEvent::Requeued(false)), DmaAction::End);
    assert_eq!(capture.dma_step(&mut frame, DmaEvent::Dequeued(None)), DmaAction::End);
    assert_eq!((capture.seq, frame.seq), (0, 0));
}

#[test]
fn frame_is_skipped_while_the_viewer_reads() {
    let capture = Capture { seq: 4 };
    assert_eq!(capture.rgb_frame_unshown(Some(&[1, 2, 3])), CaptureStep::Skip);
    assert_eq!(capture.rgb_frame_unshown(None), CaptureStep::End);
}
