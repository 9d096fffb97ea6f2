//! Keys and drags: drawing rectangles, calibrating with them, and turning the picture.

use crate::binary::{Real32, Real64};
use crate::calibration::{Magnification, MicroscopeRatio};
use crate::path::Component;
use crate::player::{Point, SelectionRect, UVCPlayer};
use crate::scale::{Calibration, CalibrationAxis};
use vstd::prelude::*;

verus! {

/// Start and current end of a drag, where it has both.
pub open spec fn line(begin: Option<Point>, motion: Option<Point>) -> Option<(Point, Point)> {
    match (begin, motion) {
        (Some(b), Some(m)) => Some((b, m)),
        _ => None,
    }
}

/// What happens to a drag in one frame.
#[derive(Debug)]
pub enum DragEvent {
    /// A drag started, went on, or both, with the pointer at `pos`.
    Pointer { started: bool, moved: bool, pos: Option<Point> },
    /// The line for turning the picture gave a new angle, or was too short.
    Turned(Option<Real32>),
    /// The rectangle that is being drawn is this one, of this width and height.
    Outlined { rect: SelectionRect, width: Real32, height: Real32 },
    /// The rectangle that is being drawn says that a pixel spans so many micrometres.
    Measured(SelectionRect, Magnification, Real64),
}

/// What is to be worked out next of a drag.
#[derive(Debug)]
pub enum DragTask {
    /// The angle that a line between these points gives.
    Turn(Point, Point),
    /// The rectangle between these points.
    Outline(Point, Point),
    /// The micrometres per pixel at a magnification whose target is so long on the screen.
    Measure(SelectionRect, Magnification, Real32),
    /// Nothing; the frame is done.
    Done,
}

/// What follows from an event of a drag.
#[derive(Debug)]
pub struct DragStep {
    /// The active profile is to be written.
    pub write: bool,
    pub task: DragTask,
}

fn line_of(begin: Option<Point>, motion: Option<Point>) -> (r: Option<(Point, Point)>)
    ensures
        r == line(begin, motion),
{
    match begin {
        Some(b) => match motion {
            Some(m) => Some((b, m)),
            None => None,
        },
        None => None,
    }
}

impl UVCPlayer {
    /// Keys were pressed: escape removes all rectangles and ends the turning of the picture, the
    /// other key shows or hides the labels.
    pub fn press_keys(&mut self, escape: bool, toggle_labels: bool)
        ensures
            final(self).rects@ == if escape {
                Seq::<SelectionRect>::empty()
            } else {
                old(self).rects@
            },
            *final(self) == (UVCPlayer {
                rects: final(self).rects,
                rotation_calibrating: !escape && old(self).rotation_calibrating,
                rotation_begin: if escape {
                    None
                } else {
                    old(self).rotation_begin
                },
                rotation_motion: if escape {
                    None
                } else {
                    old(self).rotation_motion
                },
                show_labels: old(self).show_labels != toggle_labels,
                ..*old(self)
            }),
            old(self).wf() ==> final(self).wf(),
            old(self).ready() ==> final(self).ready(),
    {
        if escape {
            self.rects.clear();
            self.set_turning(false);
        }
        if toggle_labels {
            self.show_labels = !self.show_labels;
        }
    }

    /// Starts or gives up turning the picture; no line has been drawn for it.
    pub fn set_turning(&mut self, on: bool)
        ensures
            *final(self) == (UVCPlayer {
                rotation_calibrating: on,
                rotation_begin: None,
                rotation_motion: None,
                ..*old(self)
            }),
            old(self).wf() ==> final(self).wf(),
            old(self).ready() ==> final(self).ready(),
    {
        self.rotation_calibrating = on;
        self.rotation_begin = None;
        self.rotation_motion = None;
    }

    /// The state after a drag started, went on, or both, with the pointer at `pos`. It draws a
    /// line while the picture is being turned, and a rectangle otherwise.
    pub open spec fn dragged(self, started: bool, moved: bool, pos: Option<Point>) -> UVCPlayer {
        let at_start = |was: Option<Point>|
            if started && pos is Some {
                pos
            } else {
                was
            };
        let at_end = |was: Option<Point>|
            if moved && pos is Some {
                pos
            } else {
                was
            };
        if self.rotation_calibrating {
            UVCPlayer {
                rotation_begin: at_start(self.rotation_begin),
                rotation_motion: at_end(self.rotation_motion),
                ..self
            }
        } else {
            UVCPlayer {
                rect_begin: at_start(self.rect_begin),
                rect_motion: at_end(self.rect_motion),
                ..self
            }
        }
    }

    /// A drag started, went on, or both, with the pointer at `pos`.
    pub fn drag(&mut self, started: bool, moved: bool, pos: Option<Point>)
        ensures
            *final(self) == old(self).dragged(started, moved, pos),
            old(self).wf() ==> final(self).wf(),
            old(self).ready() ==> final(self).ready(),
    {
        if pos.is_some() {
            if started {
                if self.rotation_calibrating {
                    self.rotation_begin = pos;
                } else {
                    self.rect_begin = pos;
                }
            }
            if moved {
                if self.rotation_calibrating {
                    self.rotation_motion = pos;
                } else {
                    self.rect_motion = pos;
                }
            }
        }
    }

    /// The line by which the picture is to be turned, once it has been drawn.
    pub fn turning_line(&self) -> (r: Option<(Point, Point)>)
        ensures
            r == if self.rotation_calibrating {
                line(self.rotation_begin, self.rotation_motion)
            } else {
                None
            },
    {
        if self.rotation_calibrating {
            line_of(self.rotation_begin, self.rotation_motion)
        } else {
            None
        }
    }

    /// The line by which the picture is to be turned, once the drag that draws it has ended.
    pub fn turning_done(&self, stopped: bool) -> (r: Option<(Point, Point)>)
        ensures
            r == if stopped && self.rotation_calibrating {
                line(self.rotation_begin, self.rotation_motion)
            } else {
                None
            },
    {
        if stopped {
            self.turning_line()
        } else {
            None
        }
    }

    /// How the state changes once the line for turning the picture is complete: the picture is no
    /// longer being turned, and the active profile takes over the angle that the line gave.
    pub open spec fn turned(self, angle: Option<Real32>, next: UVCPlayer) -> bool {
        let still = UVCPlayer {
            rotation_calibrating: false,
            rotation_begin: None,
            rotation_motion: None,
            ..self
        };
        match angle {
            Some(a) => (UVCPlayer { rotation_angle: a, ..still }).synced_to(next),
            None => next == still,
        }
    }

    /// The line for turning the picture is complete. A line that was long enough gave a new angle,
    /// which the active profile takes over; the result says whether it is to be written.
    pub fn finish_turning(&mut self, angle: Option<Real32>) -> (write: bool)
        requires
            angle is Some ==> old(self).profiles.wf() && old(self).active_profile is Some,
        ensures
            old(self).ready() ==> final(self).ready(),
            write == (angle is Some),
            !final(self).rotation_calibrating,
            final(self).rotation_begin is None && final(self).rotation_motion is None,
            old(self).turned(angle, *final(self)),
    {
        match angle {
            Some(a) => {
                self.rotation_angle = a;
                self.sync_to_profile();
            },
            None => {},
        }
        self.set_turning(false);
        angle.is_some()
    }

    /// Whether the picture is turned.
    pub fn is_turned(&self) -> (r: bool)
        ensures
            r == !self.rotation_angle.is_zero(),
    {
        !self.rotation_angle.zeroed()
    }

    /// Turns the picture back, and has the active profile take that over.
    pub fn reset_turning(&mut self)
        requires
            old(self).profiles.wf(),
            old(self).active_profile is Some,
        ensures
            old(self).ready() ==> final(self).ready(),
            (UVCPlayer { rotation_angle: Real32::zero(), ..*old(self) }).synced_to(*final(self)),
    {
        self.rotation_angle = Real32 { bits: 0 };
        self.sync_to_profile();
    }

    /// Two corners of the rectangle that is being drawn.
    pub fn drawing_line(&self) -> (r: Option<(Point, Point)>)
        ensures
            r == line(self.rect_begin, self.rect_motion),
    {
        line_of(self.rect_begin, self.rect_motion)
    }

    /// The state with the calibration of one magnification replaced.
    pub open spec fn calibrated(self, active: Magnification, ratio: Real64) -> UVCPlayer {
        let result = MicroscopeRatio {
            map: self.ratio.result.map.with(active, ratio),
            ..self.ratio.result
        };
        UVCPlayer { ratio: Calibration { result, ..self.ratio }, ..self }
    }

    /// Records what the rectangle that is being drawn says of a magnification.
    pub fn calibrate(&mut self, active: Magnification, ratio: Real64)
        ensures
            *final(self) == old(self).calibrated(active, ratio),
            old(self).wf() ==> final(self).wf(),
            old(self).ready() ==> final(self).ready(),
    {
        self.ratio.result.calibrate(active, ratio);
    }

    /// How the state changes when a rectangle is complete: it stays, and none is being drawn.
    pub open spec fn kept(self, rect: SelectionRect, next: UVCPlayer) -> bool {
        &&& next.rects@ == self.rects@.push(rect)
        &&& next == (UVCPlayer { rects: next.rects, rect_begin: None, rect_motion: None, ..self })
    }

    /// A rectangle was drawn this far. Once its drag has ended it stays, and none is being drawn.
    pub fn keep_rect(&mut self, rect: SelectionRect, stopped: bool)
        ensures
            if stopped {
                old(self).kept(rect, *final(self))
            } else {
                *final(self) == *old(self)
            },
            old(self).wf() ==> final(self).wf(),
            old(self).ready() ==> final(self).ready(),
    {
        if stopped {
            self.rects.push(rect);
            self.rect_begin = None;
            self.rect_motion = None;
        }
    }

    /// How the state changes when a drag has ended: so has a calibration under way, and the active
    /// profile takes over what it gave.
    pub open spec fn drag_ended(self, next: UVCPlayer) -> bool {
        (UVCPlayer { ratio: Calibration { calibrating: false, ..self.ratio }, ..self }).synced_to(
            next,
        )
    }

    /// Once a drag has ended, so does a calibration under way, and the active profile takes over
    /// what it gave; the result says whether it is to be written.
    pub fn finish_drag(&mut self, stopped: bool) -> (write: bool)
        requires
            stopped ==> old(self).profiles.wf() && old(self).active_profile is Some,
        ensures
            old(self).ready() ==> final(self).ready(),
            write == stopped,
            if stopped {
                old(self).drag_ended(*final(self))
            } else {
                *final(self) == *old(self)
            },
    {
        if stopped {
            self.ratio.calibrating = false;
            self.sync_to_profile();
        }
        stopped
    }

    /// How the state changes at the end of a frame in which no rectangle was drawn further.
    pub open spec fn settled(self, stopped: bool, next: UVCPlayer) -> bool {
        if stopped {
            self.drag_ended(next)
        } else {
            next == self
        }
    }

    /// How the state changes at the end of a frame in which a rectangle was drawn this far.
    pub open spec fn outlined(self, rect: SelectionRect, stopped: bool, next: UVCPlayer) -> bool {
        if stopped {
            exists|with_rect: UVCPlayer|
                #[trigger] self.kept(rect, with_rect) && with_rect.drag_ended(next)
        } else {
            next == self
        }
    }

    /// What follows once the picture was turned, or was not to be: the rectangle that is being
    /// drawn is worked out, or the frame ends.
    pub open spec fn after_turning(
        self,
        stopped: bool,
        write: bool,
        next: UVCPlayer,
        step: DragStep,
    ) -> bool {
        match line(self.rect_begin, self.rect_motion) {
            Some((b, m)) => next == self && step == (DragStep { write, task: DragTask::Outline(b, m) }),
            None => self.settled(stopped, next) && step == (DragStep {
                write: write || stopped,
                task: DragTask::Done,
            }),
        }
    }

    /// How state and task follow from an event of one frame, in which a drag has ended or has not.
    pub open spec fn drag_stepped(
        self,
        stopped: bool,
        event: DragEvent,
        next: UVCPlayer,
        step: DragStep,
    ) -> bool {
        match event {
            DragEvent::Pointer { started, moved, pos } => {
                let moved_to = self.dragged(started, moved, pos);
                match line(moved_to.rotation_begin, moved_to.rotation_motion) {
                    Some((b, m)) if stopped && self.rotation_calibrating => next == moved_to && step
                        == (DragStep { write: false, task: DragTask::Turn(b, m) }),
                    _ => moved_to.after_turning(stopped, false, next, step),
                }
            },
            DragEvent::Turned(angle) => exists|turned: UVCPlayer|
                #[trigger] self.turned(angle, turned) && turned.after_turning(
                    stopped,
                    angle is Some,
                    next,
                    step,
                ),
            DragEvent::Outlined { rect, width, height } => match self.ratio.to_calibrate(
                width,
                height,
            ) {
                Some((m, length)) => next == self && step == (DragStep {
                    write: false,
                    task: DragTask::Measure(rect, m, length),
                }),
                None => self.outlined(rect, stopped, next) && step == (DragStep {
                    write: stopped,
                    task: DragTask::Done,
                }),
            },
            DragEvent::Measured(rect, m, ratio) => self.calibrated(m, ratio).outlined(
                rect,
                stopped,
                next,
            ) && step == (DragStep { write: stopped, task: DragTask::Done }),
        }
    }

    /// Deals with an event of one frame, in which a drag has ended or has not. The pointer comes
    /// first, then the turning of the picture, then the rectangle with what it calibrates, and
    /// the end of the drag last.
    pub fn drag_step(&mut self, stopped: bool, event: DragEvent) -> (step: DragStep)
        requires
            old(self).ratio.wf(),
            stopped ==> old(self).profiles.wf() && old(self).active_profile is Some,
            event matches DragEvent::Turned(Some(_)) ==> old(self).profiles.wf()
                && old(self).active_profile is Some,
        ensures
            old(self).drag_stepped(stopped, event, *final(self), step),
            final(self).ratio.wf(),
            old(self).ready() ==> final(self).ready(),
    {
        match event {
            DragEvent::Pointer { started, moved, pos } => {
                self.drag(started, moved, pos);
                match self.turning_done(stopped) {
                    Some((b, m)) => DragStep { write: false, task: DragTask::Turn(b, m) },
                    None => self.go_on(stopped, false),
                }
            },
            DragEvent::Turned(angle) => {
                let write: bool = self.finish_turning(angle);
                let ghost turned = *self;
                let step = self.go_on(stopped, write);
                assert(old(self).turned(angle, turned));
                step
            },
            DragEvent::Outlined { rect, width, height } => match self.ratio.calibration_length(
                width,
                height,
            ) {
                Some((m, length)) => DragStep {
                    write: false,
                    task: DragTask::Measure(rect, m, length),
                },
                None => self.end_outline(rect, stopped),
            },
            DragEvent::Measured(rect, m, ratio) => {
                self.calibrate(m, ratio);
                self.end_outline(rect, stopped)
            },
        }
    }

    fn go_on(&mut self, stopped: bool, write: bool) -> (step: DragStep)
        requires
            old(self).ratio.wf(),
            stopped ==> old(self).profiles.wf() && old(self).active_profile is Some,
        ensures
            old(self).after_turning(stopped, write, *final(self), step),
            final(self).ratio.wf(),
            old(self).ready() ==> final(self).ready(),
    {
        match self.drawing_line() {
            Some((b, m)) => DragStep { write, task: DragTask::Outline(b, m) },
            None => {
                let ended: bool = self.finish_drag(stopped);
                DragStep { write: write || ended, task: DragTask::Done }
            },
        }
    }

    fn end_outline(&mut self, rect: SelectionRect, stopped: bool) -> (step: DragStep)
        requires
            old(self).ratio.wf(),
            stopped ==> old(self).profiles.wf() && old(self).active_profile is Some,
        ensures
            old(self).outlined(rect, stopped, *final(self)),
            step == (DragStep { write: stopped, task: DragTask::Done }),
            final(self).ratio.wf(),
            old(self).ready() ==> final(self).ready(),
    {
        self.keep_rect(rect, stopped);
        let ghost with_rect = *self;
        let write: bool = self.finish_drag(stopped);
        assert(stopped ==> old(self).kept(rect, with_rect));
        DragStep { write, task: DragTask::Done }
    }

    /// The rectangles to show: those that stay, and the one that is being drawn.
    pub fn shown_rects(&self, drawn: Option<SelectionRect>) -> (shown: Vec<SelectionRect>)
        ensures
            shown@ == match drawn {
                Some(rect) => self.rects@.push(rect),
                None => self.rects@,
            },
    {
        let mut shown: Vec<SelectionRect> = Vec::new();
        let mut i: usize = 0;
        while i < self.rects.len()
            invariant
                i <= self.rects.len(),
                shown@ == self.rects@.take(i as int),
            decreases self.rects.len() - i,
        {
            shown.push(self.rects[i]);
            i = i + 1;
            assert(shown@ =~= self.rects@.take(i as int));
        }
        assert(self.rects@.take(i as int) =~= self.rects@);
        match drawn {
            Some(rect) => {
                shown.push(rect);
            },
            None => {},
        }
        shown
    }
}

/// A drag outside the turning of the picture spans the rectangle from where it started to where
/// the pointer is.
pub proof fn law_drag_spans_a_rectangle(p: UVCPlayer, from: Point, to: Point)
    requires
        !p.rotation_calibrating,
    ensures
        ({
            let q = p.dragged(true, false, Some(from)).dragged(false, true, Some(to));
            &&& line(q.rect_begin, q.rect_motion) == Some((from, to))
            &&& q.rotation_begin == p.rotation_begin && q.rotation_motion == p.rotation_motion
        }),
{
}

/// A drag while the picture is being turned draws the line for it, and no rectangle.
pub proof fn law_drag_while_turning_draws_a_line(p: UVCPlayer, from: Point, to: Point)
    requires
        p.rotation_calibrating,
    ensures
        ({
            let q = p.dragged(true, false, Some(from)).dragged(false, true, Some(to));
            &&& line(q.rotation_begin, q.rotation_motion) == Some((from, to))
            &&& q.rect_begin == p.rect_begin && q.rect_motion == p.rect_motion
        }),
{
}

/// A drag that has ended leaves one more rectangle and draws none.
pub proof fn law_ended_drag_leaves_a_rectangle(
    p: UVCPlayer,
    from: Point,
    to: Point,
    rect: SelectionRect,
    kept: UVCPlayer,
    done: UVCPlayer,
)
    requires
        !p.rotation_calibrating,
        p.dragged(true, false, Some(from)).dragged(false, true, Some(to)).kept(rect, kept),
        kept.drag_ended(done),
    ensures
        done.rects@ == p.rects@.push(rect),
        line(done.rect_begin, done.rect_motion) is None,
        !done.ratio.calibrating,
{
}

/// A drag that calibrates a magnification and has ended leaves one more rectangle and draws none.
/// What it calibrated is in use and in the active profile, with what was in use for the other
/// magnifications. The other profiles stay as they are.
pub proof fn law_calibrating_drag_reaches_the_profile(
    p: UVCPlayer,
    from: Point,
    to: Point,
    m: Magnification,
    ratio: Real64,
    rect: SelectionRect,
    kept: UVCPlayer,
    done: UVCPlayer,
    n: Magnification,
)
    requires
        !p.rotation_calibrating,
        p.active_profile is Some,
        p.dragged(true, false, Some(from)).dragged(false, true, Some(to)).calibrated(
            m,
            ratio,
        ).kept(rect, kept),
        kept.drag_ended(done),
    ensures
        done.rects@ == p.rects@.push(rect),
        line(done.rect_begin, done.rect_motion) is None,
        !done.ratio.calibrating,
        done.active_key() == p.active_key(),
        done.profiles.map()[p.active_key()] == done.ratio.result,
        done.profiles.map()[p.active_key()].map.at(m) == ratio,
        n != m ==> done.profiles.map()[p.active_key()].map.at(n) == p.ratio.result.map.at(n),
        done.profiles.map()[p.active_key()].rotation_angle == p.rotation_angle,
        forall|key: Seq<Component>|
            key != p.active_key() ==> #[trigger] done.profiles.map().contains_key(key)
                == p.profiles.map().contains_key(key),
        forall|key: Seq<Component>|
            key != p.active_key() ==> #[trigger] done.profiles.map()[key] == p.profiles.map()[key],
{
}

/// The frame in which a drag ends with a measured rectangle does all of it: the rectangle stays,
/// none is being drawn, no calibration is under way, and the active profile holds what was
/// measured and is to be written.
pub proof fn law_last_frame_of_a_drag(
    p: UVCPlayer,
    rect: SelectionRect,
    m: Magnification,
    ratio: Real64,
    done: UVCPlayer,
    step: DragStep,
)
    requires
        p.active_profile is Some,
        p.drag_stepped(true, DragEvent::Measured(rect, m, ratio), done, step),
    ensures
        step.write && step.task is Done,
        done.rects@ == p.rects@.push(rect),
        line(done.rect_begin, done.rect_motion) is None,
        !done.ratio.calibrating,
        done.profiles.map()[p.active_key()] == done.ratio.result,
        done.ratio.result.map == p.ratio.result.map.with(m, ratio),
{
    let with_rect = choose|with_rect: UVCPlayer|
        #[trigger] p.calibrated(m, ratio).kept(rect, with_rect) && with_rect.drag_ended(done);
    assert(p.calibrated(m, ratio).kept(rect, with_rect));
}

/// The angle to which the picture is turned is in the active profile, with the calibration in use.
pub proof fn law_turning_reaches_the_profile(p: UVCPlayer, angle: Real32, done: UVCPlayer)
    requires
        p.active_profile is Some,
        p.turned(Some(angle), done),
    ensures
        done.rotation_angle == angle,
        done.profiles.map()[p.active_key()].rotation_angle == angle,
        done.profiles.map()[p.active_key()].map == p.ratio.result.map,
{
}

/// A drag has two ends once it has been started and gone on.
pub proof fn law_line_has_two_ends(begin: Option<Point>, motion: Option<Point>)
    ensures
        line(begin, motion) is Some <==> begin is Some && motion is Some,
        line(begin, motion) matches Some((b, m)) ==> begin == Some(b) && motion == Some(m),
{
}

/// Without a pointer nothing is dragged. A drag that starts and goes on in one frame does so one after
/// the other, and changes nothing but its ends.
pub proof fn law_drag_starts_and_then_goes_on(
    p: UVCPlayer,
    started: bool,
    moved: bool,
    pos: Option<Point>,
)
    ensures
        p.dragged(started, moved, None) == p,
        p.dragged(false, false, pos) == p,
        p.dragged(started, moved, pos) == p.dragged(started, false, pos).dragged(false, moved, pos),
        p.dragged(started, moved, pos) == (UVCPlayer {
            rect_begin: p.dragged(started, moved, pos).rect_begin,
            rect_motion: p.dragged(started, moved, pos).rect_motion,
            rotation_begin: p.dragged(started, moved, pos).rotation_begin,
            rotation_motion: p.dragged(started, moved, pos).rotation_motion,
            ..p
        }),
{
}

/// The pointer sets the end of a drag that it belongs to and no other.
pub proof fn law_pointer_sets_one_end(p: UVCPlayer, pos: Point)
    ensures
        !p.rotation_calibrating ==> p.dragged(true, false, Some(pos)) == (UVCPlayer {
            rect_begin: Some(pos),
            ..p
        }),
        !p.rotation_calibrating ==> p.dragged(false, true, Some(pos)) == (UVCPlayer {
            rect_motion: Some(pos),
            ..p
        }),
        p.rotation_calibrating ==> p.dragged(true, false, Some(pos)) == (UVCPlayer {
            rotation_begin: Some(pos),
            ..p
        }),
        p.rotation_calibrating ==> p.dragged(false, true, Some(pos)) == (UVCPlayer {
            rotation_motion: Some(pos),
            ..p
        }),
{
}

/// Turning that is complete ends in any case, with the angle of the line or that of before. The
/// rectangles and the numbers stay.
pub proof fn law_turning_ends(p: UVCPlayer, angle: Option<Real32>, done: UVCPlayer)
    requires
        p.turned(angle, done),
    ensures
        !done.rotation_calibrating,
        done.rotation_begin is None && done.rotation_motion is None,
        done.rotation_angle == match angle {
            Some(a) => a,
            None => p.rotation_angle,
        },
        angle is None ==> done.profiles == p.profiles && done.ratio == p.ratio,
        done.ratio.result.map == p.ratio.result.map,
        done.rects == p.rects,
        done.rect_begin == p.rect_begin && done.rect_motion == p.rect_motion,
        done.active_profile == p.active_profile,
{
}

/// Calibrating a magnification replaces its number and no other, and touches nothing else.
pub proof fn law_calibrating_replaces_one_number(
    p: UVCPlayer,
    m: Magnification,
    ratio: Real64,
    n: Magnification,
)
    ensures
        p.calibrated(m, ratio).ratio.result.map.at(n) == if n == m {
            ratio
        } else {
            p.ratio.result.map.at(n)
        },
        p.calibrated(m, ratio).ratio.result.rotation_angle == p.ratio.result.rotation_angle,
        p.calibrated(m, ratio).ratio.active == p.ratio.active,
        p.calibrated(m, ratio).ratio.calibrating == p.ratio.calibrating,
        p.calibrated(m, ratio).ratio.calibrate_by == p.ratio.calibrate_by,
        p.calibrated(m, ratio) == (UVCPlayer { ratio: p.calibrated(m, ratio).ratio, ..p }),
{
}

/// A kept rectangle stands behind those that were there, and none of these changes.
pub proof fn law_kept_rectangle_comes_last(
    p: UVCPlayer,
    rect: SelectionRect,
    next: UVCPlayer,
    i: int,
)
    requires
        p.kept(rect, next),
        0 <= i < p.rects@.len(),
    ensures
        next.rects@.len() == p.rects@.len() + 1,
        next.rects@.last() == rect,
        next.rects@[i] == p.rects@[i],
        next.rect_begin is None && next.rect_motion is None,
        next.ratio == p.ratio && next.profiles == p.profiles,
        next.rotation_calibrating == p.rotation_calibrating,
{
}

/// The end of a drag ends a calibration and writes what is in use to the active profile. The
/// rectangles, the target and the axis stay.
pub proof fn law_end_of_a_drag_ends_the_calibration(p: UVCPlayer, next: UVCPlayer)
    requires
        p.active_profile is Some,
        p.drag_ended(next),
    ensures
        !next.ratio.calibrating,
        next.ratio.active == p.ratio.active,
        next.ratio.calibrate_by == p.ratio.calibrate_by,
        next.ratio.result.map == p.ratio.result.map,
        next.ratio.result.rotation_angle == p.rotation_angle,
        next.profiles.map()[p.active_key()] == next.ratio.result,
        next == (UVCPlayer { profiles: next.profiles, ratio: next.ratio, ..p }),
{
}

/// A frame in which nothing is dragged and nothing was being drawn changes nothing.
pub proof fn law_idle_frame_changes_nothing(p: UVCPlayer, next: UVCPlayer, step: DragStep)
    requires
        p.rect_begin is None || p.rect_motion is None,
        p.drag_stepped(
            false,
            DragEvent::Pointer { started: false, moved: false, pos: None },
            next,
            step,
        ),
    ensures
        next == p,
        !step.write,
        step.task is Done,
{
}

/// While a rectangle is being drawn, each frame asks for the rectangle from where the drag started to
/// where the pointer is, and changes only that end of it.
pub proof fn law_frame_asks_for_the_rectangle(
    p: UVCPlayer,
    stopped: bool,
    from: Point,
    to: Point,
    next: UVCPlayer,
    step: DragStep,
)
    requires
        !p.rotation_calibrating,
        p.rect_begin == Some(from),
        p.drag_stepped(
            stopped,
            DragEvent::Pointer { started: false, moved: true, pos: Some(to) },
            next,
            step,
        ),
    ensures
        step.task == DragTask::Outline(from, to),
        !step.write,
        next == (UVCPlayer { rect_motion: Some(to), ..p }),
{
}

/// The last frame of a drag that turns the picture asks for the angle of its line, from where the
/// drag started to where the pointer is; an earlier frame asks for none.
pub proof fn law_last_frame_asks_for_the_angle(
    p: UVCPlayer,
    stopped: bool,
    from: Point,
    to: Point,
    next: UVCPlayer,
    step: DragStep,
)
    requires
        p.rotation_calibrating,
        p.rotation_begin == Some(from),
        p.drag_stepped(
            stopped,
            DragEvent::Pointer { started: false, moved: true, pos: Some(to) },
            next,
            step,
        ),
    ensures
        stopped ==> step.task == DragTask::Turn(from, to),
        stopped ==> next == (UVCPlayer { rotation_motion: Some(to), ..p }),
        !stopped ==> !(step.task is Turn),
        step.task is Turn ==> !step.write,
{
}

/// Once the angle is known, the picture has it, the active profile holds it and is to be written.
pub proof fn law_known_angle_is_taken_over(
    p: UVCPlayer,
    angle: Real32,
    next: UVCPlayer,
    step: DragStep,
)
    requires
        p.active_profile is Some,
        p.rect_begin is None || p.rect_motion is None,
        p.drag_stepped(true, DragEvent::Turned(Some(angle)), next, step),
    ensures
        step.write && step.task is Done,
        next.rotation_angle == angle,
        next.profiles.map()[p.active_key()].rotation_angle == angle,
        next.profiles.map()[p.active_key()].map == p.ratio.result.map,
        !next.rotation_calibrating && !next.ratio.calibrating,
        next.rotation_begin is None && next.rotation_motion is None,
        next.rects == p.rects,
{
    let turned = choose|turned: UVCPlayer|
        #[trigger] p.turned(Some(angle), turned) && turned.after_turning(true, true, next, step);
    assert(p.turned(Some(angle), turned));
    assert(line(turned.rect_begin, turned.rect_motion) is None);
    assert(turned.drag_ended(next));
}

/// Once the picture was turned, or the line was too short for that, the rectangle that is being drawn
/// comes next, and the end of the frame where there is none. A new angle has the active profile
/// written, and so has the end of the drag.
pub proof fn law_rectangle_comes_after_the_turning(
    p: UVCPlayer,
    stopped: bool,
    angle: Option<Real32>,
    next: UVCPlayer,
    step: DragStep,
)
    requires
        p.drag_stepped(stopped, DragEvent::Turned(angle), next, step),
    ensures
        match (p.rect_begin, p.rect_motion) {
            (Some(b), Some(m)) => step.task == DragTask::Outline(b, m) && step.write == (angle
                is Some) && p.turned(angle, next),
            _ => step.task is Done && step.write == (angle is Some || stopped),
        },
        next.rotation_angle == match angle {
            Some(a) => a,
            None => p.rotation_angle,
        },
        !next.rotation_calibrating,
        next.rects == p.rects,
{
    let turned = choose|turned: UVCPlayer|
        #[trigger] p.turned(angle, turned) && turned.after_turning(
            stopped,
            angle is Some,
            next,
            step,
        );
    assert(p.turned(angle, turned));
    law_turning_ends(p, angle, turned);
}

/// A frame in which no line for turning the picture is complete asks for the rectangle that is being
/// drawn, and is done where there is none. It is done with the end of the drag, if that has come.
pub proof fn law_frame_without_turning(
    p: UVCPlayer,
    stopped: bool,
    started: bool,
    moved: bool,
    pos: Option<Point>,
    next: UVCPlayer,
    step: DragStep,
)
    requires
        !stopped || !p.rotation_calibrating,
        p.drag_stepped(stopped, DragEvent::Pointer { started, moved, pos }, next, step),
    ensures
        ({
            let q = p.dragged(started, moved, pos);
            match (q.rect_begin, q.rect_motion) {
                (Some(b), Some(m)) => step.task == DragTask::Outline(b, m) && !step.write && next
                    == q,
                _ => step.task is Done && step.write == stopped && (!stopped ==> next == q) && (
                stopped ==> q.drag_ended(next)),
            }
        }),
{
}

/// A rectangle whose side along the axis of a calibration is empty calibrates nothing. It stays once
/// its drag has ended, and changes nothing before that.
pub proof fn law_empty_side_calibrates_nothing(
    p: UVCPlayer,
    stopped: bool,
    rect: SelectionRect,
    width: Real32,
    height: Real32,
    next: UVCPlayer,
    step: DragStep,
)
    requires
        p.active_profile is Some,
        p.ratio.calibrate_by == CalibrationAxis::Width ==> width.bits == 0,
        p.ratio.calibrate_by == CalibrationAxis::Height ==> height.bits == 0,
        p.drag_stepped(stopped, DragEvent::Outlined { rect, width, height }, next, step),
    ensures
        step.task is Done,
        step.write == stopped,
        !stopped ==> next == p,
        stopped ==> next.rects@ == p.rects@.push(rect),
        stopped ==> next.ratio.result.map == p.ratio.result.map,
{
    if stopped {
        let with_rect = choose|with_rect: UVCPlayer|
            #[trigger] p.kept(rect, with_rect) && with_rect.drag_ended(next);
        assert(p.kept(rect, with_rect));
    }
}

/// A rectangle of a calibration is measured along the axis of that, where its side is longer than
/// nothing, and the state waits for what that gives.
pub proof fn law_calibrating_rectangle_is_measured(
    p: UVCPlayer,
    stopped: bool,
    rect: SelectionRect,
    width: Real32,
    height: Real32,
    next: UVCPlayer,
    step: DragStep,
)
    requires
        p.ratio.calibrating,
        p.ratio.active is Some,
        p.ratio.calibrate_by == CalibrationAxis::Width ==> 0 < width.bits <= 0x7f80_0000,
        p.ratio.calibrate_by == CalibrationAxis::Height ==> 0 < height.bits <= 0x7f80_0000,
        p.drag_stepped(stopped, DragEvent::Outlined { rect, width, height }, next, step),
    ensures
        p.ratio.calibrate_by == CalibrationAxis::Width ==> step.task == DragTask::Measure(
            rect,
            p.ratio.active->0,
            width,
        ),
        p.ratio.calibrate_by == CalibrationAxis::Height ==> step.task == DragTask::Measure(
            rect,
            p.ratio.active->0,
            height,
        ),
        !step.write,
        next == p,
{
}

/// A rectangle outside a calibration stays once its drag has ended, with the active profile to be
/// written, and changes nothing before that.
pub proof fn law_plain_rectangle_stays(
    p: UVCPlayer,
    stopped: bool,
    rect: SelectionRect,
    width: Real32,
    height: Real32,
    next: UVCPlayer,
    step: DragStep,
)
    requires
        p.active_profile is Some,
        !p.ratio.calibrating,
        p.drag_stepped(stopped, DragEvent::Outlined { rect, width, height }, next, step),
    ensures
        step.task is Done,
        step.write == stopped,
        !stopped ==> next == p,
        stopped ==> next.rects@ == p.rects@.push(rect),
        stopped ==> line(next.rect_begin, next.rect_motion) is None,
        stopped ==> next.ratio.result.map == p.ratio.result.map,
        stopped ==> next.profiles.map()[p.active_key()] == next.ratio.result,
{
    if stopped {
        let with_rect = choose|with_rect: UVCPlayer|
            #[trigger] p.kept(rect, with_rect) && with_rect.drag_ended(next);
        assert(p.kept(rect, with_rect));
    }
}

/// A measured rectangle whose drag goes on replaces the number of its magnification, and keeps
/// nothing yet.
pub proof fn law_measured_rectangle_of_a_drag_that_goes_on(
    p: UVCPlayer,
    rect: SelectionRect,
    m: Magnification,
    ratio: Real64,
    next: UVCPlayer,
    step: DragStep,
)
    requires
        p.drag_stepped(false, DragEvent::Measured(rect, m, ratio), next, step),
    ensures
        step.task is Done && !step.write,
        next.ratio.result.map == p.ratio.result.map.with(m, ratio),
        next.ratio.calibrating == p.ratio.calibrating,
        next.rects == p.rects,
        next.rect_begin == p.rect_begin && next.rect_motion == p.rect_motion,
        next.profiles == p.profiles,
{
}

} // verus!
