use vid_uvc::binary::{Real32, Real64};
use vid_uvc::bytes::{dimension_bytes, order_from_one, push_word, rect_bytes, ByteOrder};
use vid_uvc::calibration::{Magnification, MicroscopeRatio};
use vid_uvc::frame::SharedFrame;
use vid_uvc::player::{GpuRect, Point, Scan, SelectionRect, UVCPlayer};
use vid_uvc::pointer::{DragEvent, DragTask};
use vid_uvc::pump::Capture;
use vid_uvc::scale::{target_groups, Calibration, CalibrationAxis, LengthLabel, TargetFill};
use vid_uvc::upload::power_of_two_from;

fn r64(x: f64) -> Real64 {
    Real64 { bits: x.to_bits() }
}

fn r32(x: f32) -> Real32 {
    Real32 { bits: x.to_bits() }
}

fn at(x: f32, y: f32) -> Point {
    Point { x: r32(x), y: r32(y) }
}

fn square(side: f32) -> SelectionRect {
    SelectionRect { corners: [at(0.0, 0.0), at(side, 0.0), at(side, side), at(0.0, side)] }
}

fn gpu_rect(width: f32, height: f32) -> Option<GpuRect> {
    GpuRect::from_sides(at(1.0, 2.0), at(1.0, 0.0), at(0.0, 1.0), r32(width), r32(height))
}

fn loaded() -> UVCPlayer {
    let mut player = UVCPlayer::new();
    let scan: Scan<String> = Scan::Missing(Ok(()));
    player.load_profiles(scan).unwrap();
    player
}

fn shown(width: u32, height: u32) -> SharedFrame<u8> {
    let mut frame: SharedFrame<u8> = SharedFrame::blank();
    frame.prepare_rgb(width, height);
    let data = vec![0u8; frame.rgb.len()];
    Capture::new().rgb_frame(&mut frame, width, height, Some(&data));
    frame
}

#[test]
fn signs_are_those_of_floating_point() {
    let numbers = [
        0.0f32,
        -0.0,
        1.0,
        -1.0,
        f32::MIN_POSITIVE,
        -f32::MIN_POSITIVE,
        f32::from_bits(1),
        f32::from_bits(0x8000_0001),
        f32::MAX,
        f32::INFINITY,
        f32::NEG_INFINITY,
        f32::NAN,
        -f32::NAN,
        f32::from_bits(0x7f80_0001),
        f32::from_bits(0xff80_0001),
    ];
    for x in numbers {
        assert_eq!(r32(x).positive(), x > 0.0, "{x}");
        assert_eq!(r32(x).at_most_zero(), x <= 0.0, "{x}");
        assert_eq!(r32(x).zeroed(), x == 0.0, "{x}");
        assert_eq!(r64(x as f64).positive(), x as f64 > 0.0, "{x}");
    }
    assert!(r64(f64::from_bits(1)).positive());
    assert!(r64(f64::MAX).positive());
    assert!(!r64(f64::from_bits(0x7ff0_0000_0000_0001)).positive());
}

#[test]
fn targets_are_grouped() {
    let groups = target_groups();
    assert_eq!(groups.len(), 2);
    assert_eq!(groups[0].name, "Microscope");
    assert_eq!(
        groups[0].targets,
        [Magnification::X4, Magnification::X10, Magnification::X40, Magnification::X100]
    );
    assert_eq!(groups[1].name, "Camera");
    assert_eq!(groups[1].targets, [Magnification::Mm4]);
}

#[test]
fn target_buttons_tell_their_state() {
    let mut c = Calibration::default();
    assert_eq!(c.target_fill(Magnification::X4), TargetFill::Plain);
    c.result.calibrate(Magnification::X4, r64(0.5));
    assert_eq!(c.target_fill(Magnification::X4), TargetFill::Measured);
    c.choose_target(Magnification::X4);
    assert_eq!(c.target_fill(Magnification::X4), TargetFill::Active);
    c.result.calibrate(Magnification::X10, r64(f64::NAN));
    assert_eq!(c.target_fill(Magnification::X10), TargetFill::Plain);
}

#[test]
fn axis_button_toggles() {
    let mut c = Calibration::default();
    c.choose_target(Magnification::X10);
    c.press_axes(false, true);
    assert!(c.axis_selected(CalibrationAxis::Height) && !c.axis_selected(CalibrationAxis::Width));
    c.press_axes(true, true);
    assert!(c.axis_selected(CalibrationAxis::Width) && !c.axis_selected(CalibrationAxis::Height));
    c.press_axes(true, false);
    assert!(!c.calibrating);
    c.press_axes(false, false);
    assert!(!c.calibrating);
    c.press_axes(true, false);
    c.choose_target(Magnification::Mm4);
    assert!(!c.calibrating);
    assert_eq!(c.active, Some(Magnification::Mm4));
}

#[test]
fn hint_names_target_and_axis() {
    let mut c = Calibration::default();
    assert_eq!(c.hint(), None);
    c.choose_target(Magnification::X10);
    c.press_axes(false, true);
    assert_eq!(
        c.hint().as_deref(),
        Some("Drag a rectangle over a known 10x 0.7mm target using its height.")
    );
    c.press_axes(true, false);
    assert_eq!(
        c.hint().as_deref(),
        Some("Drag a rectangle over a known 10x 0.7mm target using its width.")
    );
}

#[test]
fn rectangle_calibrates_along_the_chosen_axis() {
    let mut c = Calibration::default();
    assert_eq!(c.calibration_length(r32(3.0), r32(4.0)), None);
    c.choose_target(Magnification::X40);
    assert_eq!(c.calibration_length(r32(3.0), r32(4.0)), None);
    c.press_axes(true, false);
    assert_eq!(c.calibration_length(r32(3.0), r32(4.0)), Some((Magnification::X40, r32(3.0))));
    c.press_axes(false, true);
    assert_eq!(c.calibration_length(r32(3.0), r32(4.0)), Some((Magnification::X40, r32(4.0))));
    assert_eq!(c.calibration_length(r32(3.0), r32(0.0)), None);
}

#[test]
fn unit_follows_the_target() {
    let mut c = Calibration::default();
    assert_eq!(c.length_label(), LengthLabel::Pixels);
    c.choose_target(Magnification::X4);
    assert_eq!(c.length_label(), LengthLabel::Micrometres);
    assert_eq!(c.active_rate(), r64(0.0));
    c.press_axes(true, false);
    assert_eq!(c.length_label(), LengthLabel::Millimetres);
    c.choose_target(Magnification::Mm4);
    assert_eq!(c.length_label(), LengthLabel::Micrometres);
    c.result.calibrate(Magnification::Mm4, r64(12.5));
    assert_eq!(c.length_label(), LengthLabel::Millimetres);
    assert_eq!(c.active_rate(), r64(12.5));
    c.choose_target(Magnification::X4);
    assert_eq!(c.length_label(), LengthLabel::Micrometres);
}

#[test]
fn drag_draws_a_rectangle() {
    let mut player = loaded();
    player.drag(true, true, Some(at(1.0, 2.0)));
    player.drag(false, true, Some(at(5.0, 6.0)));
    player.drag(false, true, None);
    assert_eq!(player.drawing_line(), Some((at(1.0, 2.0), at(5.0, 6.0))));
    assert_eq!(player.turning_line(), None);
    assert_eq!(player.shown_rects(Some(square(4.0))).len(), 1);
    player.keep_rect(square(4.0), false);
    assert!(player.rects.is_empty() && player.drawing_line().is_some());
    player.keep_rect(square(4.0), true);
    assert_eq!(player.rects.len(), 1);
    assert_eq!(player.rects[0].corners, square(4.0).corners);
    assert_eq!(player.drawing_line(), None);
    let both = player.shown_rects(Some(square(9.0)));
    assert_eq!(both.len(), 2);
    assert_eq!(both[1].corners, square(9.0).corners);
    assert_eq!(player.shown_rects(None).len(), 1);
}

#[test]
fn drag_while_turning_draws_a_line() {
    let mut player = loaded();
    player.set_turning(true);
    player.drag(true, false, Some(at(1.0, 2.0)));
    assert_eq!(player.turning_line(), None);
    player.drag(false, true, Some(at(5.0, 6.0)));
    assert_eq!(player.drawing_line(), None);
    assert_eq!(player.turning_line(), Some((at(1.0, 2.0), at(5.0, 6.0))));
    assert_eq!(player.turning_done(false), None);
    assert_eq!(player.turning_done(true), Some((at(1.0, 2.0), at(5.0, 6.0))));
}

#[test]
fn turning_is_kept_in_the_profile() {
    let mut player = loaded();
    player.set_turning(true);
    assert!(player.finish_turning(Some(r32(0.5))));
    assert!(!player.rotation_calibrating && player.is_turned());
    assert_eq!(player.dump_profile().unwrap().1.rotation_angle, r32(0.5));
    player.set_turning(true);
    player.drag(true, true, Some(at(1.0, 2.0)));
    assert!(!player.finish_turning(None));
    assert_eq!(player.rotation_angle, r32(0.5));
    assert!(!player.rotation_calibrating && player.rotation_begin.is_none());
    player.reset_turning();
    assert!(!player.is_turned());
    assert_eq!(player.dump_profile().unwrap().1, MicroscopeRatio::default());
}

#[test]
fn negative_zero_is_no_turning() {
    let mut player = UVCPlayer::new();
    player.rotation_angle = r32(-0.0);
    assert!(!player.is_turned());
}

#[test]
fn end_of_a_drag_ends_the_calibration() {
    let mut player = loaded();
    player.ratio.choose_target(Magnification::X4);
    player.ratio.press_axes(true, false);
    player.calibrate(Magnification::X4, r64(2.0));
    assert!(!player.finish_drag(false));
    assert!(player.ratio.calibrating);
    assert_eq!(player.dump_profile().unwrap().1, MicroscopeRatio::default());
    assert!(player.finish_drag(true));
    assert!(!player.ratio.calibrating);
    assert_eq!(player.dump_profile().unwrap().1.map.get(Magnification::X4), r64(2.0));
}

#[test]
fn keys_clear_and_toggle() {
    let mut player = loaded();
    player.keep_rect(square(1.0), true);
    player.set_turning(true);
    player.drag(true, true, Some(at(1.0, 1.0)));
    player.press_keys(false, true);
    assert!(!player.show_labels && player.rects.len() == 1 && player.rotation_calibrating);
    player.press_keys(true, true);
    assert!(player.show_labels && player.rects.is_empty());
    assert!(!player.rotation_calibrating && player.rotation_motion.is_none());
    player.press_keys(false, false);
    assert!(player.show_labels);
}

#[test]
fn powers_of_two_are_least() {
    for n in [0u64, 1, 2, 3, 8192, 8193, 8224, 1 << 40, (1 << 40) + 1, 1 << 63] {
        assert_eq!(power_of_two_from(n), n.next_power_of_two());
    }
}

#[test]
fn words_are_written_in_either_order() {
    let mut bytes = Vec::new();
    push_word(&mut bytes, ByteOrder::Little, 0x01020304);
    push_word(&mut bytes, ByteOrder::Big, 0x01020304);
    assert_eq!(bytes, [4, 3, 2, 1, 1, 2, 3, 4]);
    for order in [ByteOrder::Little, ByteOrder::Big] {
        let mut one = Vec::new();
        push_word(&mut one, order, 1);
        assert_eq!(order_from_one([one[0], one[1], one[2], one[3]]), order);
    }
}

#[test]
fn dimensions_are_four_words() {
    assert_eq!(
        dimension_bytes(ByteOrder::Little, 640, 480, 3),
        [128, 2, 0, 0, 224, 1, 0, 0, 3, 0, 0, 0, 0, 0, 0, 0]
    );
    assert_eq!(
        dimension_bytes(ByteOrder::Big, 640, 480, 3),
        [0, 0, 2, 128, 0, 0, 1, 224, 0, 0, 0, 3, 0, 0, 0, 0]
    );
}

#[test]
fn dimensions_are_in_the_order_of_the_machine() {
    let mut player = UVCPlayer::new();
    player.update_gpu_rects(&vec![gpu_rect(3.0, 4.0)]);
    let expected =
        [640u32.to_ne_bytes(), 480u32.to_ne_bytes(), 1u32.to_ne_bytes(), 0u32.to_ne_bytes()];
    assert_eq!(player.dimensions_bytes(640, 480), expected.concat());
}

#[test]
fn rectangle_holds_origin_sides_and_size() {
    let rect = gpu_rect(3.0, 4.0).unwrap();
    let values: Vec<f32> = rect.values.iter().map(|v| f32::from_bits(v.bits)).collect();
    assert_eq!(values, [1.0, 2.0, 1.0, 0.0, 0.0, 1.0, 3.0, 4.0]);
    assert!(gpu_rect(0.0, 4.0).is_none());
    assert!(gpu_rect(3.0, -0.0).is_none());
    assert!(gpu_rect(3.0, -1.0).is_none());
    assert!(gpu_rect(f32::NAN, 4.0).is_some());
}

#[test]
fn rectangles_are_sent_in_the_order_of_the_machine() {
    let mut player = UVCPlayer::new();
    let up = player.update_gpu_rects(&vec![gpu_rect(3.0, 4.0), None, gpu_rect(5.0, 6.0)]);
    assert_eq!(player.gpu_rects.len(), 2);
    assert_eq!(up.new_buffer, None);
    let mut expected = Vec::new();
    for x in [1.0f32, 2.0, 1.0, 0.0, 0.0, 1.0, 3.0, 4.0, 1.0, 2.0, 1.0, 0.0, 0.0, 1.0, 5.0, 6.0] {
        expected.extend_from_slice(&x.to_ne_bytes());
    }
    assert_eq!(up.bytes, Some(expected));
    assert_eq!(rect_bytes(ByteOrder::Little, &player.gpu_rects).len(), 64);
    let none = player.update_gpu_rects(&vec![None]);
    assert!(none.bytes.is_none() && none.new_buffer.is_none());
    assert!(player.gpu_rects.is_empty());
}

#[test]
fn rectangle_buffer_grows_to_a_power_of_two() {
    let mut player = UVCPlayer::new();
    player.upload_frame(&shown(2, 2));
    assert!(player.rgb_bound);
    let full = player.update_gpu_rects(&vec![gpu_rect(1.0, 1.0); 256]);
    assert_eq!(full.new_buffer, None);
    let more = player.update_gpu_rects(&vec![gpu_rect(1.0, 1.0); 257]);
    assert_eq!(more.new_buffer, Some(16384));
    assert_eq!(more.bytes.unwrap().len(), 257 * 32);
    assert_eq!(player.inverse_rect_capacity, 16384);
    assert!(!player.rgb_bound && !player.yuyv_bound);
    assert_eq!(player.update_gpu_rects(&vec![]).new_buffer, None);
    assert_eq!(player.inverse_rect_capacity, 16384);
}

#[test]
fn frame_is_uploaded_once() {
    let mut player = UVCPlayer::new();
    let frame = shown(640, 481);
    let up = player.upload_frame(&frame).unwrap();
    assert_eq!(up.new_texture, Some((640, 481)));
    assert_eq!(up.new_buffer, Some(640 * 481 * 3));
    assert!(up.new_bind_group);
    assert_eq!(up.groups, (80, 61));
    assert_eq!(player.video_size, (640, 481));
    assert!(player.upload_frame(&frame).is_none());
}

#[test]
fn next_frame_of_the_same_size_reuses_everything() {
    let mut player = UVCPlayer::new();
    let mut frame = shown(3, 3);
    let up = player.upload_frame(&frame).unwrap();
    assert_eq!(up.new_texture, Some((3, 3)));
    assert_eq!(up.new_buffer, None);
    assert_eq!(up.groups, (1, 1));
    frame.seq = 2;
    let up = player.upload_frame(&frame).unwrap();
    assert!(up.new_texture.is_none() && up.new_buffer.is_none() && !up.new_bind_group);
    assert_eq!(player.last_frame_seq, 2);
}

#[test]
fn frame_buffer_holds_whole_words() {
    let mut player = UVCPlayer::new();
    let up = player.upload_frame(&shown(257, 257)).unwrap();
    assert_eq!(up.new_buffer, Some((257u64 * 257 * 3).next_multiple_of(4)));
    assert_eq!(player.rgb_buffer_capacity % 4, 0);
}

#[test]
fn blank_frame_is_not_uploaded() {
    let mut player = UVCPlayer::new();
    let frame: SharedFrame<u8> = SharedFrame::blank();
    assert!(player.upload_frame(&frame).is_none());
    assert_eq!(player.video_size, (256, 256));
}

#[test]
fn calibration_reaches_the_active_profile_only() {
    let mut player = loaded();
    player.make_profile();
    player.drag(true, true, Some(at(0.0, 0.0)));
    player.drag(false, true, Some(at(8.0, 8.0)));
    player.calibrate(Magnification::X4, r64(2.0));
    player.keep_rect(square(8.0), true);
    assert!(player.finish_drag(true));
    assert_eq!(player.rects.len(), 1);
    assert_eq!(player.drawing_line(), None);
    let (path, written) = player.dump_profile().unwrap();
    assert_eq!(path, "./profiles/0.5x.json");
    assert_eq!(written.map.get(Magnification::X4), r64(2.0));
    assert_eq!(written.map.get(Magnification::X10), r64(0.0));
    let other = player.profiles.get(&UVCPlayer::path_default_profile());
    assert_eq!(other, Some(MicroscopeRatio::default()));
}

fn pointer(started: bool, moved: bool, pos: Point) -> DragEvent {
    DragEvent::Pointer { started, moved, pos: Some(pos) }
}

#[test]
fn frames_of_a_drag_draw_and_calibrate() {
    let mut player = loaded();
    player.ratio.choose_target(Magnification::X4);
    player.ratio.press_axes(true, false);
    let step = player.drag_step(false, pointer(true, false, at(0.0, 0.0)));
    assert!(!step.write && matches!(step.task, DragTask::Done));
    let step = player.drag_step(false, pointer(false, true, at(8.0, 8.0)));
    match step.task {
        DragTask::Outline(begin, end) => assert_eq!((begin, end), (at(0.0, 0.0), at(8.0, 8.0))),
        other => panic!("{other:?}"),
    }
    let outlined = DragEvent::Outlined { rect: square(8.0), width: r32(8.0), height: r32(8.0) };
    match player.drag_step(false, outlined).task {
        DragTask::Measure(rect, m, length) => {
            assert_eq!(rect.corners, square(8.0).corners);
            assert_eq!((m, length), (Magnification::X4, r32(8.0)));
        }
        other => panic!("{other:?}"),
    }
    let measured = DragEvent::Measured(square(8.0), Magnification::X4, r64(125.0));
    let step = player.drag_step(false, measured);
    assert!(!step.write && matches!(step.task, DragTask::Done));
    assert!(player.rects.is_empty() && player.ratio.calibrating);
    assert_eq!(player.ratio.active_rate(), r64(125.0));

    let measured = DragEvent::Measured(square(9.0), Magnification::X4, r64(100.0));
    let step = player.drag_step(true, measured);
    assert!(step.write && matches!(step.task, DragTask::Done));
    assert_eq!(player.rects[0].corners, square(9.0).corners);
    assert!(!player.ratio.calibrating && player.drawing_line().is_none());
    assert_eq!(player.dump_profile().unwrap().1, player.ratio.result);
    assert_eq!(player.ratio.active_rate(), r64(100.0));
}

#[test]
fn last_frame_without_calibration_keeps_the_rectangle() {
    let mut player = loaded();
    player.drag_step(false, pointer(true, true, at(0.0, 0.0)));
    let step = player.drag_step(true, pointer(false, true, at(3.0, 3.0)));
    assert!(!step.write && matches!(step.task, DragTask::Outline(_, _)));
    let outlined = DragEvent::Outlined { rect: square(3.0), width: r32(3.0), height: r32(3.0) };
    let step = player.drag_step(true, outlined);
    assert!(step.write && matches!(step.task, DragTask::Done));
    assert_eq!(player.rects.len(), 1);
}

#[test]
fn last_frame_of_a_turning_drag_turns() {
    let mut player = loaded();
    player.set_turning(true);
    player.drag_step(false, pointer(true, true, at(0.0, 0.0)));
    let step = player.drag_step(true, pointer(false, true, at(3.0, 1.0)));
    assert!(!step.write);
    assert!(matches!(step.task, DragTask::Turn(b, m) if b == at(0.0, 0.0) && m == at(3.0, 1.0)));
    let step = player.drag_step(true, DragEvent::Turned(Some(r32(-0.25))));
    assert!(step.write && matches!(step.task, DragTask::Done));
    assert!(!player.rotation_calibrating);
    assert_eq!(player.dump_profile().unwrap().1.rotation_angle, r32(-0.25));
}

#[test]
fn frame_without_a_drag_needs_no_profile() {
    let mut player = UVCPlayer::new();
    let idle = DragEvent::Pointer { started: false, moved: false, pos: None };
    let step = player.drag_step(false, idle);
    assert!(!step.write && matches!(step.task, DragTask::Done));
    assert!(!player.finish_drag(false));
    assert!(!player.finish_turning(None));
}

#[test]
fn frame_is_due_until_it_is_shown() {
    let mut player = UVCPlayer::new();
    let frame = shown(2, 2);
    assert!(player.is_due(&frame));
    player.upload_frame(&frame);
    assert!(!player.is_due(&frame));
    assert!(!player.is_due(&SharedFrame::<u8>::blank()));
}
