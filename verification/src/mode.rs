//! The timer's modes, the transitions between them and what a mode shows.
//!
//! A timer is being set up, is running towards an instant at which it fires, or
//! is paused. A pause is kept as the pair of the instant at which the timer
//! would have fired and the instant of the pause, so that resuming gives back
//! exactly the time that was left.
//!
//! The transitions are stated over `ModeView`, whose numbers are unbounded
//! integers. The executable functions work on `Mode`, whose numbers are `u64`,
//! and ask of their caller that the mode they are to return can be held.

use crate::clock::{
    ceil_div, lemma_min_sec_total, lemma_shown_secs_is_ceiling, min_sec, min_sec_until, span,
    span_between, NANOS_PER_SEC,
};
use vstd::prelude::*;

verus! {

/// Nanoseconds in one minute.
pub const NANOS_PER_MIN: u64 = 60_000_000_000;

/// A key, as far as the timer tells keys apart.
#[derive(Clone, Copy, Debug, PartialEq, Eq, Structural)]
pub enum Key {
    /// A key that stands for a character.
    Character(char),
    /// The enter key of the keypad.
    Enter,
    /// The arrow that points up.
    Up,
    /// The arrow that points down.
    Down,
    /// Any other key.
    Other,
}

/// The mode of the timer. Instants are nanoseconds on the monotonic clock.
#[derive(Clone, Copy, Debug, PartialEq, Eq, Structural)]
pub enum Mode {
    /// The user is choosing a number of minutes.
    Setup(u64),
    /// The timer runs and fires at the given instant.
    Running(u64),
    /// The timer, which would have fired at the first instant, was paused at
    /// the second.
    Paused(u64, u64),
}

/// A mode over unbounded integers.
pub enum ModeView {
    Setup(int),
    Running(int),
    Paused(int, int),
}

impl View for Mode {
    type V = ModeView;

    open spec fn view(&self) -> ModeView {
        match *self {
            Mode::Setup(m) => ModeView::Setup(m as int),
            Mode::Running(end) => ModeView::Running(end as int),
            Mode::Paused(end, at) => ModeView::Paused(end as int, at as int),
        }
    }
}

/// Whether `n` can be held in a `u64`.
pub open spec fn in_u64(n: int) -> bool {
    0 <= n <= u64::MAX
}

impl ModeView {
    /// Whether a `Mode` can hold this mode.
    pub open spec fn fits(self) -> bool {
        match self {
            ModeView::Setup(m) => in_u64(m),
            ModeView::Running(end) => in_u64(end),
            ModeView::Paused(end, at) => in_u64(end) && in_u64(at),
        }
    }

    /// A mode that is being set up stands at one minute or more.
    pub open spec fn wf(self) -> bool {
        self matches ModeView::Setup(m) ==> m >= 1
    }
}

/// Whether `key` starts, pauses and resumes the timer: the space bar and
/// either enter key do.
pub open spec fn toggles(key: Key) -> bool {
    key == Key::Character(' ') || key == Key::Character('\n') || key == Key::Enter
}

/// The mode after `key` was pressed at `now`.
pub open spec fn press(mode: ModeView, key: Key, now: int) -> ModeView {
    match mode {
        ModeView::Setup(m) => {
            if toggles(key) {
                ModeView::Running(now + m * NANOS_PER_MIN)
            } else if key == Key::Up {
                ModeView::Setup(m + 1)
            } else if key == Key::Down {
                ModeView::Setup(
                    if m > 1 {
                        m - 1
                    } else {
                        1
                    },
                )
            } else {
                mode
            }
        },
        ModeView::Running(end) => {
            if toggles(key) {
                ModeView::Paused(end, now)
            } else {
                mode
            }
        },
        ModeView::Paused(end, at) => {
            if toggles(key) {
                ModeView::Running(now + span(at, end))
            } else {
                mode
            }
        },
    }
}

/// The mode after one poll of the keyboard at `now`, which brought `event` or
/// nothing.
pub open spec fn step_spec(mode: ModeView, event: Option<Key>, now: int) -> ModeView {
    match event {
        Some(key) => press(mode, key, now),
        None => mode,
    }
}

/// The minutes and seconds that `mode` shows at `now`.
pub open spec fn project_spec(mode: ModeView, now: int) -> (int, int) {
    match mode {
        ModeView::Setup(m) => (m, 0),
        ModeView::Running(end) => min_sec(now, end),
        ModeView::Paused(end, at) => min_sec(at, end),
    }
}

/// Whether the timer has run down at `now`.
pub open spec fn expired(mode: ModeView, now: int) -> bool {
    mode matches ModeView::Running(end) && span(now, end) == 0
}

/// The mode in which the timer starts: set up at the preset, or at one minute
/// where there is no preset.
pub open spec fn initial_mode_spec(preset: Option<u8>) -> ModeView {
    match preset {
        Some(minutes) => ModeView::Setup(minutes as int),
        None => ModeView::Setup(1),
    }
}

/// Whether `key` starts, pauses and resumes the timer.
pub fn is_toggle(key: Key) -> (b: bool)
    ensures
        b == toggles(key),
{
    match key {
        Key::Character(c) => c == ' ' || c == '\n',
        Key::Enter => true,
        _ => false,
    }
}

/// The mode in which the timer starts.
pub fn initial_mode(preset: Option<u8>) -> (mode: Mode)
    ensures
        mode@ == initial_mode_spec(preset),
        preset != Some(0u8) ==> mode@.wf(),
{
    match preset {
        Some(minutes) => Mode::Setup(minutes as u64),
        None => Mode::Setup(1),
    }
}

/// Whether the mode that follows `state` when `input` is pressed at
/// `current_time` can be held in a `Mode`.
pub fn press_fits(state: Mode, input: Key, current_time: u64) -> (ok: bool)
    ensures
        ok == press(state@, input, current_time as int).fits(),
{
    match state {
        Mode::Setup(minutes) => {
            if is_toggle(input) {
                match minutes.checked_mul(NANOS_PER_MIN) {
                    Some(length) => current_time.checked_add(length).is_some(),
                    None => false,
                }
            } else {
                match input {
                    Key::Up => minutes < u64::MAX,
                    _ => true,
                }
            }
        },
        Mode::Running(_) => true,
        Mode::Paused(end_time, pause_time) => {
            if is_toggle(input) {
                current_time.checked_add(span_between(pause_time, end_time)).is_some()
            } else {
                true
            }
        },
    }
}

/// Whether the mode that follows `mode` after a poll at `now` that brought
/// `event` can be held in a `Mode`.
pub fn step_fits(mode: Mode, event: Option<Key>, now: u64) -> (ok: bool)
    ensures
        ok == step_spec(mode@, event, now as int).fits(),
{
    match event {
        Some(key) => press_fits(mode, key, now),
        None => true,
    }
}

/// The mode that follows `state` when `input` is pressed at `current_time`.
pub fn handle_input(state: Mode, input: Key, current_time: u64) -> (next: Mode)
    requires
        press(state@, input, current_time as int).fits(),
    ensures
        next@ == press(state@, input, current_time as int),
{
    match state {
        Mode::Setup(minutes) => {
            if is_toggle(input) {
                Mode::Running(current_time + minutes * NANOS_PER_MIN)
            } else {
                match input {
                    Key::Up => Mode::Setup(minutes + 1),
                    Key::Down => Mode::Setup(
                        if minutes > 1 {
                            minutes - 1
                        } else {
                            1
                        },
                    ),
                    _ => state,
                }
            }
        },
        Mode::Running(end_time) => {
            if is_toggle(input) {
                Mode::Paused(end_time, current_time)
            } else {
                state
            }
        },
        Mode::Paused(end_time, pause_time) => {
            if is_toggle(input) {
                Mode::Running(current_time + span_between(pause_time, end_time))
            } else {
                state
            }
        },
    }
}

/// The mode after one poll of the keyboard at `now`, which brought `event` or
/// nothing.
pub fn step(mode: Mode, event: Option<Key>, now: u64) -> (next: Mode)
    requires
        step_spec(mode@, event, now as int).fits(),
    ensures
        next@ == step_spec(mode@, event, now as int),
{
    match event {
        Some(key) => handle_input(mode, key, now),
        None => mode,
    }
}

/// The minutes and seconds that `mode` shows at `now`.
pub fn project(mode: Mode, now: u64) -> (shown: (u64, u64))
    ensures
        (shown.0 as int, shown.1 as int) == project_spec(mode@, now as int),
        shown.1 < 60,
{
    match mode {
        Mode::Setup(minutes) => (minutes, 0),
        Mode::Running(end_time) => min_sec_until(now, end_time),
        Mode::Paused(end_time, pause_time) => min_sec_until(pause_time, end_time),
    }
}

/// Whether the timer has run down at `now`.
pub fn is_expired(mode: Mode, now: u64) -> (done: bool)
    ensures
        done == expired(mode@, now as int),
{
    match mode {
        Mode::Running(end_time) => span_between(now, end_time) == 0,
        _ => false,
    }
}

/// The arrow down takes one minute off, and stops at one minute.
pub proof fn lemma_down_stops_at_one(m: int, now: int)
    ensures
        step_spec(ModeView::Setup(m), Some(Key::Down), now) == ModeView::Setup(
            if m - 1 > 1 {
                m - 1
            } else {
                1
            },
        ),
{
}

/// The arrow up adds one minute.
pub proof fn lemma_up_adds_one(m: int, now: int)
    ensures
        step_spec(ModeView::Setup(m), Some(Key::Up), now) == ModeView::Setup(m + 1),
{
}

/// A running timer keeps the instant at which it fires, whatever happens,
/// unless a key pauses it: then it is paused at the instant of the key, with
/// the instant at which it would have fired unchanged.
pub proof fn lemma_running_keeps_end(end: int, event: Option<Key>, now: int)
    ensures
        (event matches Some(key) && toggles(key)) ==> step_spec(
            ModeView::Running(end),
            event,
            now,
        ) == ModeView::Paused(end, now),
        !(event matches Some(key) && toggles(key)) ==> step_spec(
            ModeView::Running(end),
            event,
            now,
        ) == ModeView::Running(end),
{
}

/// A paused timer that is resumed runs for exactly the time that was left when
/// it was paused.
pub proof fn lemma_resume_keeps_remaining(end: int, at: int, key: Key, now: int)
    requires
        toggles(key),
    ensures
        step_spec(ModeView::Paused(end, at), Some(key), now) matches ModeView::Running(resumed)
            && resumed - now == span(at, end) && (at <= end ==> resumed - now == end - at),
{
}

/// Setting up and stepping never leave a timer set up at less than one minute.
pub proof fn lemma_step_keeps_wf(mode: ModeView, event: Option<Key>, now: int)
    requires
        mode.wf(),
    ensures
        step_spec(mode, event, now).wf(),
{
}

/// The seconds shown are always below sixty, and neither number is negative
/// for a mode whose numbers are not.
pub proof fn lemma_seconds_below_sixty(mode: ModeView, now: int)
    ensures
        0 <= project_spec(mode, now).1 < 60,
        !(mode is Setup) ==> 0 <= project_spec(mode, now).0,
{
    match mode {
        ModeView::Setup(_) => {},
        ModeView::Running(end) => lemma_min_sec_total(now, end),
        ModeView::Paused(end, at) => lemma_min_sec_total(at, end),
    }
}

/// A running timer that has not fired shows the time left, rounded up to a
/// whole second: never more than that, and never a second less.
pub proof fn lemma_running_shows_ceiling(end: int, now: int)
    requires
        end >= now,
    ensures
        ({
            let shown = project_spec(ModeView::Running(end), now);
            let total = shown.0 * 60 + shown.1;
            let ceiling = ceil_div(end - now, NANOS_PER_SEC as int);
            &&& total == ceiling
            &&& total <= ceiling
            &&& ceiling - total <= 1
        }),
{
    lemma_min_sec_total(now, end);
    lemma_shown_secs_is_ceiling(end - now);
}

/// Pausing and resuming changes nothing but the instant at which the timer
/// fires, which moves by the length of the pause: a timer paused at `t0` and
/// resumed at `t1` shows at any later `t2` what it would have shown, had it
/// never been paused, at `t2` less the length of the pause.
pub proof fn lemma_pause_resume_round_trip(end: int, key: Key, t0: int, t1: int, t2: int)
    requires
        toggles(key),
        t0 <= t1 <= t2,
    ensures
        step_spec(ModeView::Running(end), Some(key), t0) == ModeView::Paused(end, t0),
        step_spec(ModeView::Paused(end, t0), Some(key), t1) == ModeView::Running(
            t1 + span(t0, end),
        ),
        project_spec(ModeView::Running(t1 + span(t0, end)), t2) == project_spec(
            ModeView::Running(end),
            t2 - (t1 - t0),
        ),
        forall|t: int|
            t0 <= t <= t1 ==> #[trigger] project_spec(ModeView::Paused(end, t0), t)
                == project_spec(ModeView::Running(end), t0),
{
}

} // verus!
