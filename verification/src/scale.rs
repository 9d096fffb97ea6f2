//! The scale panel: which target is measured, along which axis, and how lengths are written.

use crate::binary::{Real32, Real64};
use crate::calibration::{caption, Magnification, MicroscopeRatio, PerMagnification};
use vstd::prelude::*;
use vstd::string::*;

verus! {

/// The side of a rectangle that a calibration measures.
#[derive(Clone, Copy, Debug, PartialEq, Eq, Structural)]
pub enum CalibrationAxis {
    Width,
    Height,
}

impl Default for CalibrationAxis {
    fn default() -> (r: CalibrationAxis)
        ensures
            r == CalibrationAxis::Width,
    {
        CalibrationAxis::Width
    }
}

/// The calibration in use and the state of its panel.
#[derive(Clone, Copy, Debug, PartialEq, Eq, Structural)]
pub struct Calibration {
    pub result: MicroscopeRatio,
    pub active: Option<Magnification>,
    pub calibrating: bool,
    pub calibrate_by: CalibrationAxis,
}

impl Default for Calibration {
    /// Nothing calibrated, no magnification chosen.
    fn default() -> (r: Calibration)
        ensures
            r.result.map == PerMagnification::zeros(),
            r.result.rotation_angle == Real32::zero(),
            r.active is None,
            !r.calibrating,
            r.calibrate_by == CalibrationAxis::Width,
            r.wf(),
    {
        Calibration {
            result: MicroscopeRatio::default(),
            active: None,
            calibrating: false,
            calibrate_by: CalibrationAxis::default(),
        }
    }
}

/// A named group of calibration targets.
pub struct TargetGroup {
    pub name: &'static str,
    pub targets: Vec<Magnification>,
}

/// The groups in which the panel shows the targets.
pub fn target_groups() -> (groups: Vec<TargetGroup>)
    ensures
        groups.len() == 2,
        groups@[0].name@ == "Microscope"@,
        groups@[0].targets@ == seq![
            Magnification::X4,
            Magnification::X10,
            Magnification::X40,
            Magnification::X100,
        ],
        groups@[1].name@ == "Camera"@,
        groups@[1].targets@ == seq![Magnification::Mm4],
{
    let mut microscope: Vec<Magnification> = Vec::new();
    microscope.push(Magnification::X4);
    microscope.push(Magnification::X10);
    microscope.push(Magnification::X40);
    microscope.push(Magnification::X100);
    let mut camera: Vec<Magnification> = Vec::new();
    camera.push(Magnification::Mm4);
    let mut groups: Vec<TargetGroup> = Vec::new();
    groups.push(TargetGroup { name: "Microscope", targets: microscope });
    groups.push(TargetGroup { name: "Camera", targets: camera });
    groups
}

/// How a target's button looks.
#[derive(Clone, Copy, Debug, PartialEq, Eq, Structural)]
pub enum TargetFill {
    /// Not calibrated.
    Plain,
    /// Calibrated.
    Measured,
    /// In use.
    Active,
}

/// The unit in which a length is written.
#[derive(Clone, Copy, Debug, PartialEq, Eq, Structural)]
pub enum LengthLabel {
    /// Millimetres, beside the number of pixels.
    Millimetres,
    Micrometres,
    Pixels,
}

/// The name of an axis in running text.
pub open spec fn axis_word(axis: CalibrationAxis) -> Seq<char> {
    match axis {
        CalibrationAxis::Width => "width"@,
        CalibrationAxis::Height => "height"@,
    }
}

impl Calibration {
    /// A calibration under way is one of a chosen magnification.
    pub open spec fn wf(self) -> bool {
        self.calibrating ==> self.active is Some
    }

    /// How a target's button looks: being in use outweighs being calibrated.
    pub fn target_fill(&self, target: Magnification) -> (fill: TargetFill)
        ensures
            fill == if self.active == Some(target) {
                TargetFill::Active
            } else if self.result.map.at(target).is_positive() {
                TargetFill::Measured
            } else {
                TargetFill::Plain
            },
    {
        let in_use: bool = match self.active {
            Some(m) => m == target,
            None => false,
        };
        if in_use {
            TargetFill::Active
        } else if self.result.map.get(target).positive() {
            TargetFill::Measured
        } else {
            TargetFill::Plain
        }
    }

    /// A target's button was pressed: the target is in use, and no calibration is under way.
    pub fn choose_target(&mut self, target: Magnification)
        ensures
            *final(self) == (Calibration {
                calibrating: false,
                active: Some(target),
                ..*old(self)
            }),
            final(self).wf(),
    {
        self.calibrating = false;
        self.active = Some(target);
    }

    /// A calibration along this axis is under way.
    pub open spec fn measures(self, axis: CalibrationAxis) -> bool {
        self.calibrating && self.calibrate_by == axis
    }

    /// Whether an axis button is shown as pressed.
    pub fn axis_selected(&self, axis: CalibrationAxis) -> (r: bool)
        ensures
            r == self.measures(axis),
    {
        self.calibrating && self.calibrate_by == axis
    }

    /// What pressing an axis button leads to: it ends a calibration along that axis, and starts
    /// one otherwise.
    pub open spec fn axis_pressed(self, axis: CalibrationAxis) -> Calibration {
        if self.measures(axis) {
            Calibration { calibrating: false, ..self }
        } else {
            Calibration { calibrating: true, calibrate_by: axis, ..self }
        }
    }

    /// The axis buttons, where a target is in use; of two presses at once that of the width counts.
    pub fn press_axes(&mut self, width: bool, height: bool)
        requires
            old(self).active is Some,
        ensures
            *final(self) == if width {
                old(self).axis_pressed(CalibrationAxis::Width)
            } else if height {
                old(self).axis_pressed(CalibrationAxis::Height)
            } else {
                *old(self)
            },
            final(self).wf(),
    {
        if width {
            self.press_axis(CalibrationAxis::Width);
        } else if height {
            self.press_axis(CalibrationAxis::Height);
        }
    }

    fn press_axis(&mut self, axis: CalibrationAxis)
        requires
            old(self).active is Some,
        ensures
            *final(self) == old(self).axis_pressed(axis),
    {
        if self.calibrating && self.calibrate_by == axis {
            self.calibrating = false;
        } else {
            self.calibrate_by = axis;
            self.calibrating = true;
        }
    }

    /// What to do next, while a calibration is under way.
    pub fn hint(&self) -> (hint: Option<String>)
        requires
            self.wf(),
        ensures
            match hint {
                Some(s) => self.calibrating && s@ == "Drag a rectangle over a known "@ + caption(
                    self.active->0,
                ) + " target using its "@ + axis_word(self.calibrate_by) + "."@,
                None => !self.calibrating,
            },
    {
        if !self.calibrating {
            return None;
        }
        match self.active {
            Some(active) => {
                let mut s = "Drag a rectangle over a known ".to_owned();
                s.append(active.button_text());
                s.append(" target using its ");
                s.append(
                    match self.calibrate_by {
                        CalibrationAxis::Width => "width",
                        CalibrationAxis::Height => "height",
                    },
                );
                s.append(".");
                Some(s)
            },
            None => None,
        }
    }

    /// Micrometres per pixel at the magnification in use.
    pub fn active_rate(&self) -> (rate: Real64)
        requires
            self.active is Some,
        ensures
            rate == self.result.map.at(self.active->0),
    {
        self.result.map.get(self.active.unwrap())
    }

    /// The length to calibrate with, where a calibration is under way: the side of the rectangle
    /// along the chosen axis, unless that is empty.
    pub open spec fn to_calibrate(self, width: Real32, height: Real32) -> Option<
        (Magnification, Real32),
    > {
        let length = match self.calibrate_by {
            CalibrationAxis::Width => width,
            CalibrationAxis::Height => height,
        };
        if self.calibrating && length.is_positive() {
            Some((self.active->0, length))
        } else {
            None
        }
    }

    /// The magnification to calibrate with a rectangle, and the side of it to use.
    pub fn calibration_length(&self, width: Real32, height: Real32) -> (r: Option<
        (Magnification, Real32),
    >)
        requires
            self.wf(),
        ensures
            r == self.to_calibrate(width, height),
    {
        if !self.calibrating {
            return None;
        }
        let length = match self.calibrate_by {
            CalibrationAxis::Width => width,
            CalibrationAxis::Height => height,
        };
        if length.positive() {
            Some((self.active.unwrap(), length))
        } else {
            None
        }
    }

    /// The unit in which lengths are written.
    pub open spec fn unit(self) -> LengthLabel {
        if self.active is None {
            LengthLabel::Pixels
        } else if self.calibrating || self.active == Some(Magnification::Mm4)
            && self.result.map.mm4.is_positive() {
            LengthLabel::Millimetres
        } else {
            LengthLabel::Micrometres
        }
    }

    /// The unit in which lengths are written.
    pub fn length_label(&self) -> (unit: LengthLabel)
        ensures
            unit == self.unit(),
            unit == LengthLabel::Pixels <==> self.active is None,
            self.calibrating && self.active is Some ==> unit == LengthLabel::Millimetres,
            !self.calibrating && self.active is Some && self.active != Some(Magnification::Mm4)
                ==> unit == LengthLabel::Micrometres,
            !self.calibrating && self.active == Some(Magnification::Mm4) ==> unit == (
            if self.result.map.mm4.is_positive() {
                LengthLabel::Millimetres
            } else {
                LengthLabel::Micrometres
            }),
    {
        match self.active {
            None => LengthLabel::Pixels,
            Some(active) => {
                if self.calibrating || active == Magnification::Mm4
                    && self.result.map.mm4.positive() {
                    LengthLabel::Millimetres
                } else {
                    LengthLabel::Micrometres
                }
            },
        }
    }
}

/// Lengths are written in pixels only where no magnification is in use. While a calibration is
/// under way they are written in millimetres. Otherwise they are written in micrometres at every
/// magnification of the microscope, whatever is calibrated, and through the camera alone in
/// millimetres once that is calibrated.
pub proof fn law_unit_follows_the_magnification(c: Calibration)
    ensures
        c.unit() == LengthLabel::Pixels <==> c.active is None,
        c.active is Some && c.calibrating ==> c.unit() == LengthLabel::Millimetres,
        c.active == Some(Magnification::X4) && !c.calibrating ==> c.unit()
            == LengthLabel::Micrometres,
        c.active == Some(Magnification::X10) && !c.calibrating ==> c.unit()
            == LengthLabel::Micrometres,
        c.active == Some(Magnification::X40) && !c.calibrating ==> c.unit()
            == LengthLabel::Micrometres,
        c.active == Some(Magnification::X100) && !c.calibrating ==> c.unit()
            == LengthLabel::Micrometres,
        c.active == Some(Magnification::Mm4) && !c.calibrating ==> (c.unit()
            == LengthLabel::Millimetres <==> 0 < c.result.map.mm4.bits
            <= 0x7ff0_0000_0000_0000),
        c.active == Some(Magnification::Mm4) && !c.calibrating ==> c.unit()
            != LengthLabel::Pixels,
{
}

/// The unit depends on the number of no magnification but that of the camera.
pub proof fn law_unit_ignores_other_numbers(c: Calibration, m: Magnification, value: Real64)
    requires
        m != Magnification::Mm4,
    ensures
        (Calibration {
            result: MicroscopeRatio { map: c.result.map.with(m, value), ..c.result },
            ..c
        }).unit() == c.unit(),
{
}

/// A rectangle calibrates only while a calibration is under way, and with the side along the chosen
/// axis, where that is longer than nothing. The other side does not matter.
pub proof fn law_rectangle_calibrates_along_the_axis(
    c: Calibration,
    width: Real32,
    height: Real32,
    other: Real32,
)
    requires
        c.wf(),
    ensures
        !c.calibrating ==> c.to_calibrate(width, height) is None,
        c.calibrating && c.calibrate_by == CalibrationAxis::Width ==> {
            &&& c.to_calibrate(width, height) == c.to_calibrate(width, other)
            &&& c.to_calibrate(width, height) is Some <==> 0 < width.bits <= 0x7f80_0000
            &&& c.to_calibrate(width, height) matches Some((m, length)) ==> c.active == Some(m)
                && length == width
        },
        c.calibrating && c.calibrate_by == CalibrationAxis::Height ==> {
            &&& c.to_calibrate(width, height) == c.to_calibrate(other, height)
            &&& c.to_calibrate(width, height) is Some <==> 0 < height.bits <= 0x7f80_0000
            &&& c.to_calibrate(width, height) matches Some((m, length)) ==> c.active == Some(m)
                && length == height
        },
{
}

/// An axis button starts a calibration along its axis, also while one along the other axis is under
/// way, and ends one along its own. It touches neither the numbers nor the target.
pub proof fn law_axis_button_starts_or_ends(c: Calibration, axis: CalibrationAxis)
    ensures
        c.measures(axis) <==> c.calibrating && c.calibrate_by == axis,
        c.calibrating && c.calibrate_by == axis ==> !c.axis_pressed(axis).calibrating,
        !(c.calibrating && c.calibrate_by == axis) ==> c.axis_pressed(axis).calibrating,
        c.axis_pressed(axis).calibrate_by == axis,
        c.axis_pressed(axis).result == c.result,
        c.axis_pressed(axis).active == c.active,
{
}

/// Pressing an axis button twice starts a calibration and ends it, whatever the axis was before.
pub proof fn law_axis_button_toggles(c: Calibration, axis: CalibrationAxis)
    ensures
        c.axis_pressed(axis).measures(axis) == !c.measures(axis),
        c.axis_pressed(axis).axis_pressed(axis).calibrating == c.measures(axis),
{
}

} // verus!
