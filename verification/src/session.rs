//! One tick of the timer, and the alarm that follows when it has run down.
//!
//! The caller runs the loop: it polls the keyboard, reads the clock once, and
//! hands both to `tick`, which gives back the mode to go on with, the frame to
//! paint and whether the timer has run down. From then on `alarm_step` says, at
//! each reading of the clock, which frame to paint before the next pause, until
//! the alarm is over.

use crate::clock::{phase, phase_spec, span, span_between, BLINK_NANOS};
use crate::mode::{
    expired, is_expired, lemma_seconds_below_sixty, project, project_spec, step, step_spec, Key,
    Mode, ModeView,
};
use crate::render::Colour;
use vstd::prelude::*;

verus! {

/// The length of the alarm: ten seconds, in nanoseconds.
pub const ALARM_NANOS: u64 = 10_000_000_000;

/// What is painted: four digits, the colour of the digits and the colour of
/// the colon.
#[derive(Clone, Copy, Debug, PartialEq, Eq)]
pub struct Frame {
    pub digits: [u64; 4],
    pub time_colour: Colour,
    pub colon_colour: Colour,
}

/// A frame over unbounded integers.
pub struct FrameView {
    pub digits: Seq<int>,
    pub time_colour: Colour,
    pub colon_colour: Colour,
}

impl View for Frame {
    type V = FrameView;

    open spec fn view(&self) -> FrameView {
        FrameView {
            digits: self.digits@.map_values(|d: u64| d as int),
            time_colour: self.time_colour,
            colon_colour: self.colon_colour,
        }
    }
}

/// What one tick gives: the mode to go on with, the frame to paint, and
/// whether the timer has run down.
#[derive(Clone, Copy, Debug, PartialEq, Eq)]
pub struct Tick {
    pub mode: Mode,
    pub frame: Frame,
    pub done: bool,
}

/// The alarm: the instant at which it began, and whether the next frame is
/// lit.
#[derive(Clone, Copy, Debug, PartialEq, Eq, Structural)]
pub struct Alarm {
    pub began: u64,
    pub lit: bool,
}

/// The four digits that show `minutes` and `seconds`: tens and units of each.
pub open spec fn digits_spec(minutes: int, seconds: int) -> Seq<int> {
    seq![minutes / 10, minutes % 10, seconds / 10, seconds % 10]
}

/// The colour of the digits and the colour of the colon. While the blink clock
/// is on, a running timer dims its colon and a paused timer dims its digits;
/// all else is in the terminal's own colour.
pub open spec fn colours_spec(mode: ModeView, on: bool) -> (Colour, Colour) {
    if on {
        match mode {
            ModeView::Setup(_) => (Colour::Off, Colour::Off),
            ModeView::Running(_) => (Colour::Off, Colour::Dim),
            ModeView::Paused(_, _) => (Colour::Dim, Colour::Off),
        }
    } else {
        (Colour::Off, Colour::Off)
    }
}

/// The frame that shows `mode` at `now`, for a blink clock that started at
/// `start`.
pub open spec fn frame_spec(mode: ModeView, now: int, start: int) -> FrameView {
    let shown = project_spec(mode, now);
    let colours = colours_spec(mode, phase_spec(start, now, BLINK_NANOS as int));
    FrameView {
        digits: digits_spec(shown.0, shown.1),
        time_colour: colours.0,
        colon_colour: colours.1,
    }
}

/// The frame of the alarm: four zeros, in yellow when lit.
pub open spec fn alarm_frame_spec(lit: bool) -> FrameView {
    FrameView {
        digits: seq![0, 0, 0, 0],
        time_colour: if lit {
            Colour::Warm
        } else {
            Colour::Off
        },
        colon_colour: if lit {
            Colour::Warm
        } else {
            Colour::Off
        },
    }
}

/// Whether an alarm that began at `began` still goes on at `now`.
pub open spec fn alarm_goes_on(began: int, now: int) -> bool {
    span(began, now) < ALARM_NANOS
}

/// One step of the alarm at `now`: while the alarm goes on, the frame to paint
/// and the alarm to go on with, whose next frame is lit if this one was not;
/// nothing once the alarm is over.
pub open spec fn alarm_step_spec(alarm: Alarm, now: int) -> Option<(FrameView, Alarm)> {
    if alarm_goes_on(alarm.began as int, now) {
        Some((alarm_frame_spec(alarm.lit), Alarm { began: alarm.began, lit: !alarm.lit }))
    } else {
        None
    }
}

/// The four digits that show `minutes` and `seconds`.
pub fn digits(minutes: u64, seconds: u64) -> (d: [u64; 4])
    ensures
        d@.map_values(|x: u64| x as int) == digits_spec(minutes as int, seconds as int),
{
    let d: [u64; 4] = [minutes / 10, minutes % 10, seconds / 10, seconds % 10];
    assert(d@.map_values(|x: u64| x as int) =~= digits_spec(minutes as int, seconds as int));
    d
}

/// The colour of the digits and the colour of the colon for `mode`, while the
/// blink clock is on or off.
pub fn colours(mode: Mode, on: bool) -> (pair: (Colour, Colour))
    ensures
        pair == colours_spec(mode@, on),
{
    if on {
        match mode {
            Mode::Setup(_) => (Colour::Off, Colour::Off),
            Mode::Running(_) => (Colour::Off, Colour::Dim),
            Mode::Paused(_, _) => (Colour::Dim, Colour::Off),
        }
    } else {
        (Colour::Off, Colour::Off)
    }
}

/// One tick: the mode after a poll at `now` that brought `event`, the frame
/// that shows it, and whether the timer has run down.
pub fn tick(mode: Mode, event: Option<Key>, now: u64, start: u64) -> (t: Tick)
    requires
        step_spec(mode@, event, now as int).fits(),
    ensures
        t.mode@ == step_spec(mode@, event, now as int),
        t.frame@ == frame_spec(t.mode@, now as int, start as int),
        t.done == expired(t.mode@, now as int),
{
    let next = step(mode, event, now);
    let shown = project(next, now);
    let on = phase(start, now, BLINK_NANOS);
    let pair = colours(next, on);
    let frame = Frame {
        digits: digits(shown.0, shown.1),
        time_colour: pair.0,
        colon_colour: pair.1,
    };
    Tick { mode: next, frame, done: is_expired(next, now) }
}

/// The alarm that begins at `now`, with its first frame lit.
pub fn start_alarm(now: u64) -> (alarm: Alarm)
    ensures
        alarm == (Alarm { began: now, lit: true }),
{
    Alarm { began: now, lit: true }
}

/// The frame of the alarm, lit or not.
pub fn alarm_frame(lit: bool) -> (frame: Frame)
    ensures
        frame@ == alarm_frame_spec(lit),
{
    let colour = if lit {
        Colour::Warm
    } else {
        Colour::Off
    };
    let frame = Frame { digits: [0, 0, 0, 0], time_colour: colour, colon_colour: colour };
    assert(frame@.digits =~= seq![0, 0, 0, 0]);
    frame
}

/// One step of the alarm at `now`: while the alarm goes on, the frame to paint
/// before the next pause and the alarm to go on with, whose frame is lit if
/// this one was not; nothing once the alarm is over.
pub fn alarm_step(alarm: Alarm, now: u64) -> (next: Option<(Frame, Alarm)>)
    ensures
        match next {
            Some((frame, after)) => alarm_step_spec(alarm, now as int) == Some((frame@, after)),
            None => alarm_step_spec(alarm, now as int) is None,
        },
{
    if span_between(alarm.began, now) < ALARM_NANOS {
        Some((alarm_frame(alarm.lit), Alarm { began: alarm.began, lit: !alarm.lit }))
    } else {
        None
    }
}

/// A timer that shows less than a hundred minutes gives a frame of four
/// digits that are all below ten.
pub proof fn lemma_frame_digits(mode: ModeView, now: int, start: int)
    requires
        0 <= project_spec(mode, now).0 < 100,
    ensures
        frame_spec(mode, now, start).digits.len() == 4,
        forall|i: int| 0 <= i < 4 ==> 0 <= #[trigger] frame_spec(mode, now, start).digits[i] < 10,
{
    lemma_seconds_below_sixty(mode, now);
}

} // verus!
