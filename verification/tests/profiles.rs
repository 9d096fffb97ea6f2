use std::path::PathBuf;
use vid_uvc::binary::{Real32, Real64};
use vid_uvc::calibration::{Magnification, MicroscopeRatio};
use vid_uvc::path::{path_of_profile, profile_dir, Placing, ProfilePath};
use vid_uvc::player::{Scan, UVCPlayer};
use vid_uvc::profiles::Profiles;
use vid_uvc::scale::CalibrationAxis;

const ALL: [Magnification; 5] = [
    Magnification::X4,
    Magnification::X10,
    Magnification::X40,
    Magnification::X100,
    Magnification::Mm4,
];

fn r64(x: f64) -> Real64 {
    Real64 { bits: x.to_bits() }
}

fn r32(x: f32) -> Real32 {
    Real32 { bits: x.to_bits() }
}

fn path(text: &str) -> ProfilePath {
    ProfilePath::new(text.to_string())
}

fn ratio(x40: f64, angle: f32) -> MicroscopeRatio {
    let mut ratio = MicroscopeRatio::default();
    ratio.calibrate(Magnification::X40, r64(x40));
    ratio.rotation_angle = r32(angle);
    ratio
}

fn nothing() -> Scan<String> {
    Scan::Missing(Ok(()))
}

fn loaded() -> UVCPlayer {
    let mut player = UVCPlayer::new();
    player.load_profiles(nothing()).unwrap();
    player
}

fn rows(profiles: &Profiles) -> Vec<String> {
    (0..profiles.len()).map(|i| profiles.path_at(i).text().to_string()).collect()
}

#[test]
fn magnifications_have_captions() {
    let captions: Vec<&str> = ALL.iter().map(|m| m.button_text()).collect();
    assert_eq!(captions, ["4x 1mm", "10x 0.7mm", "40x 0.15mm", "100X 0.05mm", "4mm"]);
}

#[test]
fn magnifications_have_target_lengths() {
    let lengths: Vec<f64> = ALL.iter().map(|m| m.default_cal_len() as f64).collect();
    assert_eq!(lengths, [1e3, 0.7e3, 0.15e3, 0.05e3, 4e3]);
}

#[test]
fn magnifications_are_found_by_name() {
    for m in ALL {
        assert_eq!(Magnification::from_key(m.key()), Some(m));
        assert_eq!(m.key(), format!("{m:?}"));
    }
    for name in ["", "x4", "X4 ", "X1000", "4mm"] {
        assert_eq!(Magnification::from_key(name), None);
    }
}

#[test]
fn what_is_set_is_found_again() {
    for m in ALL {
        let mut numbers = MicroscopeRatio::default().map;
        numbers.set(m, r64(2.5));
        for n in ALL {
            assert_eq!(numbers.get(n), if n == m { r64(2.5) } else { r64(0.0) });
        }
    }
}

#[test]
fn calibrating_changes_one_magnification() {
    let mut r = ratio(1.5, 0.25);
    r.calibrate(Magnification::Mm4, r64(4000.0 / 320.0));
    assert_eq!(r.map.get(Magnification::Mm4), r64(12.5));
    assert_eq!(r.map.get(Magnification::X40), r64(1.5));
    assert_eq!(r.rotation_angle, r32(0.25));
}

#[test]
fn entries_come_back() {
    let mut r = ratio(1.5, 0.25);
    r.calibrate(Magnification::X4, r64(f64::NAN));
    r.calibrate(Magnification::X100, r64(-0.0));
    let entries = r.to_entries();
    let names: Vec<&str> = entries.iter().map(|e| e.0.as_str()).collect();
    assert_eq!(names, ["X4", "X10", "X40", "X100", "Mm4"]);
    let mut backwards = entries.clone();
    backwards.reverse();
    for e in [entries, backwards] {
        assert_eq!(MicroscopeRatio::from_entries(&e, r.rotation_angle).unwrap(), r);
    }
}

#[test]
fn missing_entries_are_zero_and_later_ones_win() {
    let none = MicroscopeRatio::from_entries(&vec![], r32(1.0)).unwrap();
    assert_eq!(none.map, MicroscopeRatio::default().map);
    assert_eq!(none.rotation_angle, r32(1.0));
    let twice = vec![("X40".to_string(), r64(1.0)), ("X40".to_string(), r64(2.0))];
    assert_eq!(MicroscopeRatio::from_entries(&twice, r32(0.0)).unwrap(), ratio(2.0, 0.0));
}

#[test]
fn unknown_entry_is_refused() {
    let entries = vec![
        ("X4".to_string(), r64(1.0)),
        ("X5".to_string(), r64(1.0)),
        ("X6".to_string(), r64(1.0)),
    ];
    let error = MicroscopeRatio::from_entries(&entries, r32(0.0)).unwrap_err();
    assert_eq!(error.name, "X5");
    assert_eq!(error.message(), "unknown calibration key X5");
}

#[test]
fn default_ratio_is_zero() {
    let r = MicroscopeRatio::default();
    assert!(ALL.iter().all(|m| r.map.get(*m) == r64(0.0)));
    assert_eq!(r.rotation_angle, r32(0.0));
}

#[test]
fn paths_are_placed_like_path_buffers() {
    let texts = [
        "", ".", "/", "a", "a/", "a/b", "a//b", "./a/b", "a/./b", "a/../b", "../a", "a.json",
        "./profiles/default.json", "./profiles//default.json", "./profiles/0.5x.json", "/a", "//a",
        "./", "a/b/", "profiles/default.json", "é", "a\u{10000}", "a\u{e000}", "ab", "..", "a/..",
    ];
    for a in texts {
        for b in texts {
            let expected = if PathBuf::from(a) < PathBuf::from(b) {
                Placing::Before
            } else if PathBuf::from(a) == PathBuf::from(b) {
                Placing::Same
            } else {
                Placing::Behind
            };
            assert_eq!(path(a).place(&path(b)), expected, "{a:?} {b:?}");
        }
    }
}

#[test]
fn stems_are_those_of_path_buffers() {
    let texts = [
        "", ".", "/", "..", "a", "a.json", "./profiles/0.5x.json", ".hidden", "a/.hidden.json",
        "a/..", "a/.", "dir/a.", "dir/a..", "...", "a/b.c/",
    ];
    for text in texts {
        let expected = PathBuf::from(text).file_stem().map(|s| s.to_str().unwrap().to_string());
        assert_eq!(path(text).file_stem(), expected, "{text:?}");
    }
}

#[test]
fn profile_paths_are_those_of_path_buffers() {
    for name in ["0.5x", "", "/abs", "a/b", "../up", "."] {
        let expected = PathBuf::from_iter(&[profile_dir(), &(name.to_string() + ".json")]);
        let made = path_of_profile(&name.to_string());
        assert_eq!(made.text(), expected.to_str().unwrap());
    }
}

#[test]
fn plain_profile_is_shown_under_its_name() {
    let made = path_of_profile(&"0.5x".to_string());
    assert_eq!(made.text(), "./profiles/0.5x.json");
    assert_eq!(made.file_stem().as_deref(), Some("0.5x"));
    assert_eq!(profile_dir(), "./profiles");
}

#[test]
fn profiles_are_kept_in_order() {
    let mut profiles = Profiles::new();
    for text in ["./profiles/b.json", "./profiles/a.json", "/z", "./profiles/c.json"] {
        profiles.insert(path(text), ratio(1.0, 0.0));
    }
    assert_eq!(
        rows(&profiles),
        ["/z", "./profiles/a.json", "./profiles/b.json", "./profiles/c.json"]
    );
}

#[test]
fn profile_of_the_same_path_is_replaced() {
    let mut profiles = Profiles::new();
    profiles.insert(path("./profiles/a.json"), ratio(1.0, 0.0));
    profiles.insert(path("./profiles//a.json"), ratio(2.0, 0.0));
    assert_eq!(rows(&profiles), ["./profiles/a.json"]);
    assert_eq!(profiles.get(&path("./profiles/./a.json")), Some(ratio(2.0, 0.0)));
    assert_eq!(profiles.get(&path("./profiles/b.json")), None);
}

#[test]
fn active_profile_keeps_the_text_of_its_row() {
    let mut player = loaded();
    let scan: Scan<String> =
        Scan::Found(vec![Ok((path("./profiles//default.json"), ratio(1.0, 0.0)))]);
    player.load_profiles(scan).unwrap();
    assert_eq!(rows(&player.profiles), ["./profiles/default.json"]);
    player.pick_profile(0);
    assert_eq!(player.dump_profile().unwrap().0, "./profiles/default.json");
}

#[test]
fn viewer_starts_with_nothing() {
    let player = UVCPlayer::new();
    assert_eq!(player.ratio.calibrate_by, CalibrationAxis::Width);
    assert_eq!(player.video_size, (256, 256));
    assert_eq!(player.rgb_buffer_capacity, 256 * 256 * 3);
    assert_eq!(player.inverse_rect_capacity, 256 * 32);
    assert_eq!(player.new_profile_name, "0.5x");
    assert_eq!(player.save_path, "./captures");
    assert!(player.show_labels && !player.verbose_camera_ui);
    assert!(player.active_profile.is_none() && player.profiles.len() == 0);
    assert!(player.dump_profile().is_none());
    assert!(player.last_capture_status.is_none() && player.selected_stream.is_none());
}

#[test]
fn default_profile_always_is() {
    let player = loaded();
    assert_eq!(rows(&player.profiles), ["./profiles/default.json"]);
    assert_eq!(player.active_profile.as_ref().unwrap().text(), "./profiles/default.json");
    assert_eq!(UVCPlayer::path_default_profile().text(), "./profiles/default.json");
    assert_eq!(player.ratio.result, MicroscopeRatio::default());
    assert!(player.is_active_row(0));
}

#[test]
fn loading_takes_up_every_file() {
    let mut player = UVCPlayer::new();
    let scan: Scan<String> = Scan::Found(vec![
        Ok((path("./profiles/b.json"), ratio(1.0, 0.5))),
        Ok((path("./profiles/default.json"), ratio(2.0, 0.25))),
        Ok((path("./profiles/a.json"), ratio(3.0, 0.125))),
    ]);
    player.load_profiles(scan).unwrap();
    assert_eq!(
        rows(&player.profiles),
        ["./profiles/a.json", "./profiles/b.json", "./profiles/default.json"]
    );
    assert_eq!(player.ratio.result, ratio(2.0, 0.25));
    assert_eq!(player.rotation_angle, r32(0.25));
    assert!(player.is_active_row(2) && !player.is_active_row(0));
}

#[test]
fn loading_stops_at_the_first_failure() {
    let mut player = UVCPlayer::new();
    let scan = Scan::Found(vec![
        Ok((path("./profiles/a.json"), ratio(1.0, 0.0))),
        Err("first".to_string()),
        Ok((path("./profiles/b.json"), ratio(2.0, 0.0))),
        Err("second".to_string()),
    ]);
    assert_eq!(player.load_profiles(scan), Err("first".to_string()));
    assert_eq!(rows(&player.profiles), ["./profiles/a.json"]);
    assert!(player.active_profile.is_none());
    let missing: Scan<String> = Scan::Missing(Err("no".to_string()));
    assert_eq!(player.load_profiles(missing), Err("no".to_string()));
    assert_eq!(rows(&player.profiles), ["./profiles/a.json"]);
}

#[test]
fn loading_forgets_nothing() {
    let mut player = loaded();
    player.make_profile();
    player.load_profiles(nothing()).unwrap();
    assert_eq!(rows(&player.profiles), ["./profiles/0.5x.json", "./profiles/default.json"]);
    assert_eq!(player.active_profile.as_ref().unwrap().text(), "./profiles/0.5x.json");
}

#[test]
fn single_profile_is_taken_up_or_refused() {
    let mut player = loaded();
    let taken: Result<(), String> =
        player.profile_load(path("./profiles/a.json"), Ok(ratio(1.0, 0.0)));
    assert_eq!(taken, Ok(()));
    let refused = player.profile_load(path("./profiles/b.json"), Err("bad".to_string()));
    assert_eq!(refused, Err("bad".to_string()));
    assert_eq!(rows(&player.profiles), ["./profiles/a.json", "./profiles/default.json"]);
}

#[test]
fn profile_gives_back_what_it_took() {
    let mut player = loaded();
    player.calibrate(Magnification::X40, r64(1.5));
    player.rotation_angle = r32(0.5);
    player.sync_to_profile();
    player.calibrate(Magnification::X40, r64(9.0));
    player.rotation_angle = r32(0.0);
    player.sync_from_profile();
    assert_eq!(player.ratio.result, ratio(1.5, 0.5));
    assert_eq!(player.rotation_angle, r32(0.5));
}

#[test]
fn made_profile_holds_the_calibration_in_use() {
    let mut player = loaded();
    player.calibrate(Magnification::X40, r64(1.5));
    player.rotation_angle = r32(0.5);
    player.new_profile_name = "mine".to_string();
    player.make_profile();
    let (text, written) = player.dump_profile().unwrap();
    assert_eq!(text, "./profiles/mine.json");
    assert_eq!(written, ratio(1.5, 0.5));

    let entries = written.to_entries();
    let read = MicroscopeRatio::from_entries(&entries, written.rotation_angle).unwrap();
    let scan: Scan<String> = Scan::Found(vec![
        Ok((path("./profiles/mine.json"), read)),
        Ok((path("./profiles/default.json"), ratio(7.0, 0.0))),
    ]);
    player.load_profiles(scan).unwrap();
    assert_eq!(player.active_profile.as_ref().unwrap().text(), "./profiles/mine.json");
    assert_eq!(player.ratio.result, ratio(1.5, 0.5));
    assert_eq!(player.rotation_angle, r32(0.5));
}

#[test]
fn picked_profile_is_active_and_takes_over_later() {
    let mut player = loaded();
    player.make_profile();
    player.calibrate(Magnification::X40, r64(1.5));
    player.pick_profile(1);
    assert_eq!(player.active_profile.as_ref().unwrap().text(), "./profiles/default.json");
    assert_eq!(player.ratio.result, ratio(1.5, 0.0));
    assert_eq!(player.dump_profile().unwrap().1, MicroscopeRatio::default());
    assert!(player.finish_drag(true));
    assert_eq!(player.dump_profile().unwrap().1, ratio(1.5, 0.0));
}
