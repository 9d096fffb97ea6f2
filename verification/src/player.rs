//! The viewer's state, and how it keeps its calibration in profiles.

use crate::binary::Real32;
use crate::calibration::{Magnification, MicroscopeRatio, PerMagnification};
use crate::path::{
    components, law_path_order_is_total, path_of_profile, profile_file, Component, Placing,
    ProfilePath,
};
use crate::profiles::{
    law_profile_is_in_a_row, law_setting_a_known_profile, law_setting_a_new_profile,
    law_setting_changes_one_profile, profile_map, rows_ordered, rows_with, ProfileRows, Profiles,
};
use crate::scale::{Calibration, CalibrationAxis};
use vstd::prelude::*;
use vstd::string::*;

verus! {

/// A point on the screen or in the picture.
#[derive(Clone, Copy, Debug, PartialEq, Eq, Structural)]
pub struct Point {
    pub x: Real32,
    pub y: Real32,
}

/// A rectangle drawn over the picture: its corners in the order left top, right top, right
/// bottom, left bottom, in pixels of the picture.
#[derive(Clone, Copy, Debug)]
pub struct SelectionRect {
    pub corners: [Point; 4],
}

/// A rectangle as the shaders read it: origin, unit vectors of its sides, width and height.
#[derive(Clone, Copy, Debug)]
pub struct GpuRect {
    pub values: [Real32; 8],
}

/// The state of the viewer.
#[derive(Debug)]
pub struct UVCPlayer {
    /// Width and height of the video texture.
    pub video_size: (u32, u32),
    /// Size of the buffer that takes packed RGB frames, in bytes.
    pub rgb_buffer_capacity: u64,
    /// Size of the buffer that takes the rectangles, in bytes.
    pub inverse_rect_capacity: u64,
    pub gpu_rects: Vec<GpuRect>,
    /// The bind group of the packed RGB pass has been made, and that pass or the rectangles have
    /// not asked for another since. A texture that follows the size of a DMA frame does not renew
    /// it.
    pub rgb_bound: bool,
    /// The bind group of the YUYV pass has been made, and the rectangles have not asked for another
    /// since.
    pub yuyv_bound: bool,
    /// The DMA buffer that the GPU still reads.
    pub dma_in_flight: Option<u32>,
    pub last_frame_seq: u64,
    pub rects: Vec<SelectionRect>,
    pub rect_begin: Option<Point>,
    pub rect_motion: Option<Point>,
    /// Rotation of the picture, in radians.
    pub rotation_angle: Real32,
    pub rotation_calibrating: bool,
    pub rotation_begin: Option<Point>,
    pub rotation_motion: Option<Point>,
    pub ratio: Calibration,
    pub profiles: Profiles,
    pub active_profile: Option<ProfilePath>,
    pub new_profile_name: String,
    pub show_labels: bool,
    /// Width, height and rate of the stream that was chosen by hand.
    pub selected_stream: Option<(u32, u32, u32)>,
    pub verbose_camera_ui: bool,
    pub save_path: String,
    pub last_capture_status: Option<String>,
}

/// Initial width and height of the video texture.
pub const INITIAL_SIDE: u32 = 256;

/// Initial size of the buffer that takes packed RGB frames, in bytes.
pub const INITIAL_RGB_CAPACITY: u64 = 196608;

/// Initial size of the buffer that takes the rectangles, in bytes.
pub const INITIAL_RECT_CAPACITY: u64 = 8192;

/// What reading the directory of the profiles gave.
pub enum Scan<E> {
    /// It could not be read; whether it could be created.
    Missing(Result<(), E>),
    /// Its files in turn, each with what it holds, or why it could not be read.
    Found(Vec<Result<(ProfilePath, MicroscopeRatio), E>>),
}

/// What the profiles hold by path.
pub type ProfileMap = Map<Seq<Component>, MicroscopeRatio>;

impl UVCPlayer {
    /// The profiles are in order, the active one is known, and a calibration under way has a
    /// magnification.
    pub open spec fn wf(self) -> bool {
        &&& self.profiles.wf()
        &&& self.ratio.wf()
        &&& self.active_profile matches Some(p) ==> self.profiles.map().contains_key(
            components(p@),
        )
    }

    /// Well-formed, with an active profile.
    pub open spec fn ready(self) -> bool {
        self.wf() && self.active_profile is Some
    }

    /// The components of the path of the active profile.
    pub open spec fn active_key(self) -> Seq<Component>
        recommends
            self.active_profile is Some,
    {
        components(self.active_profile->0@)
    }

    /// The state at the start.
    pub fn new() -> (player: UVCPlayer)
        ensures
            player.wf(),
            player.video_size == (INITIAL_SIDE, INITIAL_SIDE),
            player.rgb_buffer_capacity == INITIAL_RGB_CAPACITY,
            player.rgb_buffer_capacity == INITIAL_SIDE * INITIAL_SIDE * 3,
            player.inverse_rect_capacity == INITIAL_RECT_CAPACITY,
            player.gpu_rects@ == Seq::<GpuRect>::empty(),
            !player.rgb_bound && !player.yuyv_bound,
            player.dma_in_flight is None,
            player.last_frame_seq == 0,
            player.rects@ == Seq::<SelectionRect>::empty(),
            player.rect_begin is None && player.rect_motion is None,
            player.rotation_angle == Real32::zero(),
            !player.rotation_calibrating,
            player.rotation_begin is None && player.rotation_motion is None,
            player.ratio.result.map == PerMagnification::zeros(),
            player.ratio.result.rotation_angle == Real32::zero(),
            player.ratio.active is None && !player.ratio.calibrating,
            player.ratio.calibrate_by == CalibrationAxis::Width,
            player.profiles.map() == ProfileMap::empty(),
            player.active_profile is None,
            player.new_profile_name@ == "0.5x"@,
            player.show_labels,
            player.selected_stream is None,
            !player.verbose_camera_ui,
            player.save_path@ == "./captures"@,
            player.last_capture_status is None,
    {
        UVCPlayer {
            video_size: (INITIAL_SIDE, INITIAL_SIDE),
            rgb_buffer_capacity: INITIAL_RGB_CAPACITY,
            inverse_rect_capacity: INITIAL_RECT_CAPACITY,
            gpu_rects: Vec::new(),
            rgb_bound: false,
            yuyv_bound: false,
            dma_in_flight: None,
            last_frame_seq: 0,
            rects: Vec::new(),
            rect_begin: None,
            rect_motion: None,
            rotation_angle: Real32 { bits: 0 },
            rotation_calibrating: false,
            rotation_begin: None,
            rotation_motion: None,
            ratio: Calibration::default(),
            profiles: Profiles::new(),
            active_profile: None,
            new_profile_name: "0.5x".to_owned(),
            show_labels: true,
            selected_stream: None,
            verbose_camera_ui: false,
            save_path: "./captures".to_owned(),
            last_capture_status: None,
        }
    }

    /// The path of the profile that always is.
    pub fn path_default_profile() -> (path: ProfilePath)
        ensures
            path@ == "./profiles/default.json"@,
    {
        ProfilePath::new("./profiles/default.json".to_owned())
    }

    /// The calibration in use, with the rotation of the picture.
    pub open spec fn current_ratio(self) -> MicroscopeRatio {
        MicroscopeRatio { rotation_angle: self.rotation_angle, ..self.ratio.result }
    }

    /// How the state changes when the active profile takes over the calibration in use.
    pub open spec fn synced_to(self, next: UVCPlayer) -> bool {
        &&& next.profiles.wf()
        &&& next.profiles@ == rows_with(
            self.profiles@,
            self.active_profile->0@,
            self.current_ratio(),
        )
        &&& next.profiles.map() == self.profiles.map().insert(
            self.active_key(),
            self.current_ratio(),
        )
        &&& next == (UVCPlayer {
            profiles: next.profiles,
            ratio: Calibration { result: self.current_ratio(), ..self.ratio },
            ..self
        })
    }

    /// How the state changes when the calibration of the active profile comes into use.
    pub open spec fn synced_from(self, next: UVCPlayer) -> bool {
        next == (UVCPlayer {
            ratio: Calibration {
                result: self.profiles.map()[self.active_key()],
                ..self.ratio
            },
            rotation_angle: self.profiles.map()[self.active_key()].rotation_angle,
            ..self
        })
    }

    /// The active profile takes over the calibration in use.
    pub fn sync_to_profile(&mut self)
        requires
            old(self).profiles.wf(),
            old(self).active_profile is Some,
        ensures
            old(self).synced_to(*final(self)),
            old(self).ratio.wf() ==> final(self).ready(),
    {
        self.ratio.result.rotation_angle = self.rotation_angle;
        let path = self.active_profile.as_ref().unwrap().copy();
        let result = self.ratio.result;
        self.profiles.insert(path, result);
    }

    /// The calibration of the active profile comes into use.
    pub fn sync_from_profile(&mut self)
        requires
            old(self).ready(),
        ensures
            old(self).synced_from(*final(self)),
            final(self).ready(),
    {
        let result = self.profiles.get(self.active_profile.as_ref().unwrap()).unwrap();
        self.ratio.result = result;
        self.rotation_angle = result.rotation_angle;
    }

    /// What is to be written to the file of the active profile.
    pub fn dump_profile(&self) -> (r: Option<(String, MicroscopeRatio)>)
        requires
            self.profiles.wf(),
        ensures
            r is Some <==> self.active_profile is Some && self.profiles.map().contains_key(
                self.active_key(),
            ),
            r matches Some((text, ratio)) ==> text@ == self.active_profile->0@ && ratio
                == self.profiles.map()[self.active_key()],
    {
        match &self.active_profile {
            Some(p) => match self.profiles.get(p) {
                Some(ratio) => Some((p.text().to_owned(), ratio)),
                None => None,
            },
            None => None,
        }
    }

    /// Takes up the profile of a file, if its contents could be read.
    pub fn profile_load<E>(&mut self, p: ProfilePath, data: Result<MicroscopeRatio, E>) -> (r:
        Result<(), E>)
        requires
            old(self).profiles.wf(),
        ensures
            final(self).profiles.wf(),
            match data {
                Ok(ratio) => {
                    &&& r is Ok
                    &&& final(self).profiles@ == rows_with(old(self).profiles@, p@, ratio)
                    &&& final(self).profiles.map() == old(self).profiles.map().insert(
                        components(p@),
                        ratio,
                    )
                    &&& *final(self) == (UVCPlayer {
                        profiles: final(self).profiles,
                        ..*old(self)
                    })
                },
                Err(e) => r == Err::<(), E>(e) && *final(self) == *old(self),
            },
            old(self).wf() ==> final(self).wf(),
    {
        match data {
            Ok(ratio) => {
                self.profiles.insert(p, ratio);
                Ok(())
            },
            Err(e) => Err(e),
        }
    }
}

/// Files of the directory of the profiles, each with what it holds, or why it could not be read.
pub type ScanItems<E> = Seq<Result<(ProfilePath, MicroscopeRatio), E>>;

/// The rows of the profiles once the first `n` files have been taken up.
pub open spec fn merged_rows<E>(rows: ProfileRows, items: ScanItems<E>, n: nat) -> ProfileRows
    decreases n,
{
    if n == 0 {
        rows
    } else {
        let before = merged_rows(rows, items, (n - 1) as nat);
        match items[n - 1] {
            Ok((path, ratio)) => rows_with(before, path@, ratio),
            Err(_) => before,
        }
    }
}

/// What the profiles hold once the first `n` files have been taken up.
pub open spec fn merged<E>(map: ProfileMap, items: ScanItems<E>, n: nat) -> ProfileMap
    decreases n,
{
    if n == 0 {
        map
    } else {
        let before = merged(map, items, (n - 1) as nat);
        match items[n - 1] {
            Ok((path, ratio)) => before.insert(components(path@), ratio),
            Err(_) => before,
        }
    }
}

/// Every file could be read.
pub open spec fn all_read<E>(items: ScanItems<E>) -> bool {
    forall|i: int| 0 <= i < items.len() ==> (#[trigger] items[i]) is Ok
}

/// The first file that could not be read is number `i`.
pub open spec fn first_failure<E>(items: ScanItems<E>, i: int) -> bool {
    &&& 0 <= i < items.len()
    &&& items[i] is Err
    &&& forall|k: int| 0 <= k < i ==> (#[trigger] items[k]) is Ok
}

/// The components of the path of the profile that always is.
pub open spec fn default_key() -> Seq<Component> {
    components("./profiles/default.json"@)
}

/// A calibration that holds nothing.
pub open spec fn empty_ratio() -> MicroscopeRatio {
    MicroscopeRatio { map: PerMagnification::zeros(), rotation_angle: Real32::zero() }
}

/// The rows with that of the profile that always is, which holds nothing if it was not there.
pub open spec fn rows_with_default(rows: ProfileRows) -> ProfileRows {
    if profile_map(rows).contains_key(default_key()) {
        rows
    } else {
        rows_with(rows, "./profiles/default.json"@, empty_ratio())
    }
}

/// The profiles with the one that always is, which holds nothing if it was not there.
pub open spec fn with_default(map: ProfileMap) -> ProfileMap {
    if map.contains_key(default_key()) {
        map
    } else {
        map.insert(default_key(), empty_ratio())
    }
}

impl UVCPlayer {
    /// How the state changes when the files of a directory have been read: the profiles are those
    /// of `rows`, which hold `map`, with the one that always is; this one becomes active if none
    /// was; and the calibration of the active profile comes into use.
    pub open spec fn loaded(self, rows: ProfileRows, map: ProfileMap, next: UVCPlayer) -> bool {
        let active = match self.active_profile {
            Some(p) => p@,
            None => "./profiles/default.json"@,
        };
        let result = with_default(map)[components(active)];
        &&& next.profiles@ == rows_with_default(rows)
        &&& next.profiles.map() == with_default(map)
        &&& next.active_profile is Some && next.active_profile->0@ == active
        &&& next == (UVCPlayer {
            profiles: next.profiles,
            active_profile: next.active_profile,
            ratio: Calibration { result, ..self.ratio },
            rotation_angle: result.rotation_angle,
            ..self
        })
    }

    /// How the state changes when only the first `n` files of a directory have been taken up.
    pub open spec fn stopped_at<E>(self, items: ScanItems<E>, n: nat, next: UVCPlayer) -> bool {
        &&& next.profiles@ == merged_rows(self.profiles@, items, n)
        &&& next.profiles.map() == merged(self.profiles.map(), items, n)
        &&& next == (UVCPlayer { profiles: next.profiles, ..self })
    }

    fn finish_loading(&mut self)
        requires
            old(self).wf(),
        ensures
            old(self).loaded(old(self).profiles@, old(self).profiles.map(), *final(self)),
            final(self).ready(),
    {
        let default_path = UVCPlayer::path_default_profile();
        if self.profiles.get(&default_path).is_none() {
            self.profiles.insert(default_path.copy(), MicroscopeRatio::default());
        }
        if self.active_profile.is_none() {
            self.active_profile = Some(default_path);
        }
        self.sync_from_profile();
    }

    /// Takes up the profiles of a directory. The first failure ends it, with the files before it
    /// taken up and nothing else changed.
    pub fn load_profiles<E>(&mut self, scan: Scan<E>) -> (r: Result<(), E>)
        requires
            old(self).wf(),
        ensures
            final(self).wf(),
            match scan {
                Scan::Missing(Ok(_)) => r is Ok && old(self).loaded(
                    old(self).profiles@,
                    old(self).profiles.map(),
                    *final(self),
                ),
                Scan::Missing(Err(e)) => r == Err::<(), E>(e) && *final(self) == *old(self),
                Scan::Found(items) => match r {
                    Ok(_) => all_read(items@) && old(self).loaded(
                        merged_rows(old(self).profiles@, items@, items@.len()),
                        merged(old(self).profiles.map(), items@, items@.len()),
                        *final(self),
                    ),
                    Err(e) => exists|i: int|
                        #[trigger] first_failure(items@, i) && items@[i]->Err_0 == e && old(self).stopped_at(items@, i as nat, *final(self)),
                },
            },
            r is Ok ==> final(self).ready(),
    {
        match scan {
            Scan::Missing(created) => match created {
                Ok(_) => {
                    self.finish_loading();
                    Ok(())
                },
                Err(e) => Err(e),
            },
            Scan::Found(items) => {
                let ghost all = items@;
                let ghost before = *self;
                for item in it: items
                    invariant
                        it.seq() == all,
                        scan is Found && scan->Found_0@ == all,
                        self.wf(),
                        before == *old(self),
                        before.stopped_at(all, it.index() as nat, *self),
                        forall|k: int| 0 <= k < it.index() ==> (#[trigger] all[k]) is Ok,
                {
                    match item {
                        Ok((path, ratio)) => {
                            self.profiles.insert(path, ratio);
                        },
                        Err(e) => {
                            assert(first_failure(all, it.index() as int));
                            return Err(e);
                        },
                    }
                }
                self.finish_loading();
                Ok(())
            },
        }
    }

    /// Makes the profile whose name was entered the active one, holding the calibration in use.
    /// It is then to be written to its file, and the profiles to be loaded again.
    pub fn make_profile(&mut self)
        requires
            old(self).wf(),
        ensures
            final(self).ready(),
            final(self).active_profile->0@ == profile_file(old(self).new_profile_name@),
            (UVCPlayer { active_profile: final(self).active_profile, ..*old(self) }).synced_to(
                *final(self),
            ),
    {
        let path = path_of_profile(&self.new_profile_name);
        self.active_profile = Some(path);
        self.sync_to_profile();
    }

    /// The profile in row `i` of the list was picked: it is active from now on. The calibration in
    /// use stays as it is.
    pub fn pick_profile(&mut self, i: usize)
        requires
            old(self).wf(),
            i < old(self).profiles@.len(),
        ensures
            final(self).ready(),
            final(self).active_profile->0@ == old(self).profiles@[i as int].0,
            *final(self) == (UVCPlayer {
                active_profile: final(self).active_profile,
                ..*old(self)
            }),
    {
        let path = self.profiles.path_at(i).copy();
        proof {
            crate::profiles::lemma_row_is_mapped(self.profiles@, i as int);
        }
        self.active_profile = Some(path);
    }

    /// Whether the profile in row `i` of the list is the active one.
    pub fn is_active_row(&self, i: usize) -> (r: bool)
        requires
            i < self.profiles@.len(),
        ensures
            r == (self.active_profile is Some && self.active_key() == components(
                self.profiles@[i as int].0,
            )),
    {
        match &self.active_profile {
            Some(p) => {
                proof {
                    law_path_order_is_total(self.active_key(), components(self.profiles@[i as int].0));
                }
                p.place(self.profiles.path_at(i)) == Placing::Same
            },
            None => false,
        }
    }
}

/// What the active profile took over comes back unchanged.
pub proof fn law_profile_gives_back_what_it_took(a: UVCPlayer, b: UVCPlayer, c: UVCPlayer)
    requires
        a.active_profile is Some,
        a.synced_to(b),
        b.synced_from(c),
    ensures
        c == b,
        c.ratio.result.map == a.ratio.result.map,
        c.rotation_angle == a.rotation_angle,
{
}

proof fn lemma_merged<E>(map: ProfileMap, items: ScanItems<E>, n: nat, key: Seq<Component>)
    requires
        n <= items.len(),
    ensures
        map.contains_key(key) ==> merged(map, items, n).contains_key(key),
        map.contains_key(key) && (forall|i: int|
            #![trigger items[i]]
            0 <= i < n && items[i] is Ok && components(items[i]->Ok_0.0@) == key
                ==> items[i]->Ok_0.1 == map[key]) ==> merged(map, items, n)[key] == map[key],
    decreases n,
{
    if n > 0 {
        lemma_merged(map, items, (n - 1) as nat, key);
    }
}

/// Loading forgets no profile.
pub proof fn law_loading_forgets_nothing<E>(
    a: UVCPlayer,
    items: ScanItems<E>,
    b: UVCPlayer,
    key: Seq<Component>,
)
    requires
        a.loaded(
            merged_rows(a.profiles@, items, items.len()),
            merged(a.profiles.map(), items, items.len()),
            b,
        ),
        a.profiles.map().contains_key(key),
    ensures
        b.profiles.map().contains_key(key),
        b.profiles.map().contains_key(default_key()),
{
    lemma_merged(a.profiles.map(), items, items.len(), key);
}

/// A profile that was written to its file and is read back from it stays active and in use as it
/// was.
pub proof fn law_written_profile_is_read_back<E>(
    a: UVCPlayer,
    made: UVCPlayer,
    items: ScanItems<E>,
    b: UVCPlayer,
)
    requires
        a.active_profile is Some,
        a.synced_to(made),
        forall|i: int|
            #![trigger items[i]]
            0 <= i < items.len() && items[i] is Ok && components(items[i]->Ok_0.0@)
                == a.active_key() ==> items[i]->Ok_0.1 == a.current_ratio(),
        made.loaded(
            merged_rows(made.profiles@, items, items.len()),
            merged(made.profiles.map(), items, items.len()),
            b,
        ),
    ensures
        b.active_profile->0@ == a.active_profile->0@,
        b.profiles.map()[b.active_key()] == a.current_ratio(),
        b.ratio.result == a.current_ratio(),
        b.rotation_angle == a.rotation_angle,
{
    let key = a.active_key();
    lemma_merged(made.profiles.map(), items, items.len(), key);
}

/// The active profile takes over the numbers in use and the angle of the picture, under the path of
/// the active profile. All other profiles stay, and so does everything else of the state.
pub proof fn law_active_profile_takes_over(a: UVCPlayer, b: UVCPlayer, key: Seq<Component>)
    requires
        a.active_profile is Some,
        a.synced_to(b),
    ensures
        ({
            let active = components(a.active_profile->0@);
            &&& b.profiles.map().contains_key(active)
            &&& b.profiles.map()[active].map == a.ratio.result.map
            &&& b.profiles.map()[active].rotation_angle == a.rotation_angle
            &&& key != active ==> (b.profiles.map().contains_key(key) <==> a.profiles.map().contains_key(
                key,
            )) && b.profiles.map()[key] == a.profiles.map()[key]
        }),
        b.ratio.result.map == a.ratio.result.map,
        b.ratio.active == a.ratio.active,
        b.ratio.calibrating == a.ratio.calibrating,
        b.ratio.calibrate_by == a.ratio.calibrate_by,
        b.rotation_angle == a.rotation_angle,
        b.active_profile == a.active_profile,
        b == (UVCPlayer { profiles: b.profiles, ratio: b.ratio, ..a }),
{
}

/// The numbers and the angle of the active profile come into use, whatever was in use before. The
/// target and everything else of the state stay.
pub proof fn law_active_profile_comes_into_use(a: UVCPlayer, b: UVCPlayer)
    requires
        a.active_profile is Some,
        a.synced_from(b),
    ensures
        b.ratio.result == a.profiles.map()[components(a.active_profile->0@)],
        b.rotation_angle == a.profiles.map()[components(a.active_profile->0@)].rotation_angle,
        b.ratio.active == a.ratio.active,
        b.ratio.calibrating == a.ratio.calibrating,
        b.ratio.calibrate_by == a.ratio.calibrate_by,
        b == (UVCPlayer { ratio: b.ratio, rotation_angle: b.rotation_angle, ..a }),
{
}

/// The calibration in use is made of the numbers in use and the angle of the picture.
pub proof fn law_calibration_in_use(p: UVCPlayer)
    ensures
        p.current_ratio().map == p.ratio.result.map,
        p.current_ratio().rotation_angle == p.rotation_angle,
        p.active_profile is Some ==> p.active_key() == components(p.active_profile->0@),
        p.ready() ==> p.active_profile is Some && p.profiles.map().contains_key(
            components(p.active_profile->0@),
        ),
        p.wf() && p.ratio.calibrating ==> p.ratio.active is Some,
{
}

/// Of several files of the same path the last one counts.
pub proof fn law_last_file_counts<E>(map: ProfileMap, items: ScanItems<E>, n: nat, i: int)
    requires
        0 <= i < n <= items.len(),
        items[i] is Ok,
        forall|k: int|
            #![trigger items[k]]
            i < k < n && items[k] is Ok ==> components(items[k]->Ok_0.0@) != components(
                items[i]->Ok_0.0@,
            ),
    ensures
        merged(map, items, n).contains_key(components(items[i]->Ok_0.0@)),
        merged(map, items, n)[components(items[i]->Ok_0.0@)] == items[i]->Ok_0.1,
    decreases n,
{
    if i < n - 1 {
        law_last_file_counts(map, items, (n - 1) as nat, i);
        assert(items[n - 1] is Ok ==> components(items[n - 1]->Ok_0.0@) != components(
            items[i]->Ok_0.0@,
        ));
    }
}

/// A profile that no file names stays as it was, known or not.
pub proof fn law_profile_without_a_file_stays<E>(
    map: ProfileMap,
    items: ScanItems<E>,
    n: nat,
    key: Seq<Component>,
)
    requires
        n <= items.len(),
        forall|k: int|
            #![trigger items[k]]
            0 <= k < n && items[k] is Ok ==> components(items[k]->Ok_0.0@) != key,
    ensures
        merged(map, items, n).contains_key(key) <==> map.contains_key(key),
        map.contains_key(key) ==> merged(map, items, n)[key] == map[key],
    decreases n,
{
    if n > 0 {
        assert(items[n - 1] is Ok ==> components(items[n - 1]->Ok_0.0@) != key);
        law_profile_without_a_file_stays(map, items, (n - 1) as nat, key);
    }
}

/// The rows of the loaded profiles are in order and hold what the files hold.
pub proof fn law_loaded_rows_hold_the_files<E>(rows: ProfileRows, items: ScanItems<E>, n: nat)
    requires
        rows_ordered(rows),
        n <= items.len(),
    ensures
        rows_ordered(merged_rows(rows, items, n)),
        profile_map(merged_rows(rows, items, n)) == merged(profile_map(rows), items, n),
    decreases n,
{
    if n > 0 {
        law_loaded_rows_hold_the_files(rows, items, (n - 1) as nat);
        match items[n - 1] {
            Ok((path, ratio)) => {
                law_setting_changes_one_profile(
                    merged_rows(rows, items, (n - 1) as nat),
                    path@,
                    ratio,
                );
            },
            Err(_) => {},
        }
    }
}

/// A row keeps the text of its path, whatever files are loaded.
pub proof fn law_loading_keeps_the_texts<E>(
    rows: ProfileRows,
    items: ScanItems<E>,
    n: nat,
    i: int,
)
    requires
        rows_ordered(rows),
        n <= items.len(),
        0 <= i < rows.len(),
    ensures
        exists|k: int|
            0 <= k < merged_rows(rows, items, n).len() && (#[trigger] merged_rows(
                rows,
                items,
                n,
            )[k]).0 == rows[i].0,
    decreases n,
{
    if n > 0 {
        let before = merged_rows(rows, items, (n - 1) as nat);
        let after = merged_rows(rows, items, n);
        law_loading_keeps_the_texts(rows, items, (n - 1) as nat, i);
        law_loaded_rows_hold_the_files(rows, items, (n - 1) as nat);
        let k = choose|k: int| 0 <= k < before.len() && (#[trigger] before[k]).0 == rows[i].0;
        match items[n - 1] {
            Ok((path, ratio)) => {
                if exists|j: int|
                    0 <= j < before.len() && components((#[trigger] before[j]).0) == components(
                        path@,
                    ) {
                    let j = choose|j: int|
                        0 <= j < before.len() && components((#[trigger] before[j]).0) == components(
                            path@,
                        );
                    law_setting_a_known_profile(before, path@, ratio, j, k);
                    assert(after[k].0 == rows[i].0);
                } else {
                    law_setting_a_new_profile(before, path@, ratio);
                    let j = choose|j: int|
                        {
                            &&& 0 <= j < rows_with(before, path@, ratio).len()
                            &&& #[trigger] rows_with(before, path@, ratio)[j] == (path@, ratio)
                            &&& rows_with(before, path@, ratio).remove(j) == before
                        };
                    let l = if k < j {
                        k
                    } else {
                        k + 1
                    };
                    assert(after.remove(j)[k] == before[k]);
                    assert(after[l].0 == rows[i].0);
                }
            },
            Err(_) => {
                assert(after[k].0 == rows[i].0);
            },
        }
    } else {
        assert(merged_rows(rows, items, n)[i].0 == rows[i].0);
    }
}

/// The profile that always is holds what it held, or zeros where it was not there. No other profile
/// comes or goes for that.
pub proof fn law_default_profile_always_is(map: ProfileMap, key: Seq<Component>, m: Magnification)
    ensures
        with_default(map).contains_key(components("./profiles/default.json"@)),
        map.contains_key(components("./profiles/default.json"@)) ==> with_default(map) == map,
        !map.contains_key(components("./profiles/default.json"@)) ==> {
            let held = with_default(map)[components("./profiles/default.json"@)];
            held.map.at(m).bits == 0 && held.rotation_angle.bits == 0
        },
        key != components("./profiles/default.json"@) ==> (with_default(map).contains_key(key)
            <==> map.contains_key(key)) && (map.contains_key(key) ==> with_default(map)[key]
            == map[key]),
{
}

/// The row of the profile that always is has the text of its path, where it was not there.
pub proof fn law_default_row_always_is(rows: ProfileRows)
    requires
        rows_ordered(rows),
    ensures
        rows_ordered(rows_with_default(rows)),
        profile_map(rows_with_default(rows)) == with_default(profile_map(rows)),
        profile_map(rows).contains_key(components("./profiles/default.json"@)) ==> rows_with_default(
            rows,
        ) == rows,
        !profile_map(rows).contains_key(components("./profiles/default.json"@)) ==> exists|i: int|
            {
                &&& 0 <= i < rows_with_default(rows).len()
                &&& (#[trigger] rows_with_default(rows)[i]).0 == "./profiles/default.json"@
                &&& rows_with_default(rows).remove(i) == rows
            },
{
    let text = "./profiles/default.json"@;
    law_setting_changes_one_profile(rows, text, empty_ratio());
    if !profile_map(rows).contains_key(components(text)) {
        assert forall|i: int| 0 <= i < rows.len() implies components((#[trigger] rows[i]).0)
            != components(text) by {
            law_profile_is_in_a_row(rows, components(text), i);
        }
        law_setting_a_new_profile(rows, text, empty_ratio());
        let i = choose|i: int|
            {
                &&& 0 <= i < rows_with(rows, text, empty_ratio()).len()
                &&& #[trigger] rows_with(rows, text, empty_ratio())[i] == (text, empty_ratio())
                &&& rows_with(rows, text, empty_ratio()).remove(i) == rows
            };
        assert(rows_with_default(rows)[i].0 == text);
    }
}

/// Loading keeps the active profile, or makes the one that always is active where none was. What it
/// holds then comes into use, and the rest of the state stays.
pub proof fn law_loading_brings_the_active_profile_into_use(
    a: UVCPlayer,
    rows: ProfileRows,
    map: ProfileMap,
    b: UVCPlayer,
)
    requires
        a.loaded(rows, map, b),
    ensures
        b.active_profile is Some,
        a.active_profile is Some ==> b.active_profile->0@ == a.active_profile->0@,
        a.active_profile is None ==> b.active_profile->0@ == "./profiles/default.json"@,
        b.profiles@ == rows_with_default(rows),
        b.profiles.map() == with_default(map),
        b.ratio.result == b.profiles.map()[components(b.active_profile->0@)],
        b.rotation_angle == b.ratio.result.rotation_angle,
        b.ratio.active == a.ratio.active,
        b.ratio.calibrating == a.ratio.calibrating,
        b.ratio.calibrate_by == a.ratio.calibrate_by,
        b == (UVCPlayer {
            profiles: b.profiles,
            active_profile: b.active_profile,
            ratio: b.ratio,
            rotation_angle: b.rotation_angle,
            ..a
        }),
{
}

/// Loading that stops leaves all but the profiles alone, and takes up the files before the one that
/// failed.
pub proof fn law_stopped_loading_takes_up_the_files_before<E>(
    a: UVCPlayer,
    items: ScanItems<E>,
    n: nat,
    b: UVCPlayer,
)
    requires
        a.stopped_at(items, n, b),
    ensures
        b.profiles@ == merged_rows(a.profiles@, items, n),
        b.profiles.map() == merged(a.profiles.map(), items, n),
        b.active_profile == a.active_profile,
        b.ratio == a.ratio,
        b.rotation_angle == a.rotation_angle,
        b == (UVCPlayer { profiles: b.profiles, ..a }),
{
}

/// The file that failed first is one that failed, and all files before it were read; there is none
/// where all were read.
pub proof fn law_first_failure_is_the_first<E>(items: ScanItems<E>, i: int, k: int)
    requires
        first_failure(items, i),
        0 <= k < items.len(),
    ensures
        0 <= i < items.len(),
        items[i] is Err,
        items[k] is Err ==> i <= k,
        !all_read(items),
{
    assert(items[i] is Err);
}

} // verus!
