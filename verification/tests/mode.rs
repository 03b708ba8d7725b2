use timer::mode::{
    handle_input, initial_mode, is_expired, is_toggle, press_fits, project, step, step_fits, Key,
    Mode, NANOS_PER_MIN,
};

const SEC: u64 = 1_000_000_000;

#[test]
fn a_minute_is_sixty_seconds() {
    assert_eq!(NANOS_PER_MIN, 60 * SEC);
}

#[test]
fn space_and_both_enter_keys_toggle() {
    assert!(is_toggle(Key::Character(' ')));
    assert!(is_toggle(Key::Character('\n')));
    assert!(is_toggle(Key::Enter));
}

#[test]
fn other_keys_do_not_toggle() {
    assert!(!is_toggle(Key::Up));
    assert!(!is_toggle(Key::Down));
    assert!(!is_toggle(Key::Other));
    assert!(!is_toggle(Key::Character('x')));
    assert!(!is_toggle(Key::Character('\r')));
}

#[test]
fn initial_mode_without_preset_is_one_minute() {
    assert_eq!(initial_mode(None), Mode::Setup(1));
}

#[test]
fn initial_mode_takes_the_preset() {
    assert_eq!(initial_mode(Some(2)), Mode::Setup(2));
    assert_eq!(initial_mode(Some(255)), Mode::Setup(255));
    assert_eq!(initial_mode(Some(0)), Mode::Setup(0));
}

#[test]
fn setup_starts_on_space_or_enter() {
    let now = 7 * SEC;
    assert_eq!(step(Mode::Setup(3), Some(Key::Character(' ')), now), Mode::Running(187 * SEC));
    assert_eq!(step(Mode::Setup(3), Some(Key::Character('\n')), now), Mode::Running(187 * SEC));
    assert_eq!(step(Mode::Setup(3), Some(Key::Enter), now), Mode::Running(187 * SEC));
}

#[test]
fn setup_up_adds_a_minute() {
    assert_eq!(step(Mode::Setup(1), Some(Key::Up), 0), Mode::Setup(2));
    assert_eq!(step(Mode::Setup(99), Some(Key::Up), 5), Mode::Setup(100));
    assert_eq!(step(Mode::Setup(u64::MAX - 1), Some(Key::Up), 5), Mode::Setup(u64::MAX));
}

#[test]
fn setup_down_takes_a_minute_off() {
    assert_eq!(step(Mode::Setup(5), Some(Key::Down), 0), Mode::Setup(4));
    assert_eq!(step(Mode::Setup(2), Some(Key::Down), 0), Mode::Setup(1));
}

#[test]
fn setup_down_stops_at_one() {
    assert_eq!(step(Mode::Setup(1), Some(Key::Down), 0), Mode::Setup(1));
    assert_eq!(step(Mode::Setup(0), Some(Key::Down), 0), Mode::Setup(1));
}

#[test]
fn setup_ignores_other_keys_and_silence() {
    assert_eq!(step(Mode::Setup(4), Some(Key::Other), 9), Mode::Setup(4));
    assert_eq!(step(Mode::Setup(4), Some(Key::Character('q')), 9), Mode::Setup(4));
    assert_eq!(step(Mode::Setup(4), None, 9), Mode::Setup(4));
}

#[test]
fn running_pauses_on_space_or_enter() {
    let running = Mode::Running(60 * SEC);
    let end = 60 * SEC;
    assert_eq!(step(running, Some(Key::Character(' ')), 20 * SEC), Mode::Paused(end, 20 * SEC));
    assert_eq!(step(running, Some(Key::Enter), 21 * SEC), Mode::Paused(end, 21 * SEC));
    assert_eq!(step(running, Some(Key::Character('\n')), 22 * SEC), Mode::Paused(end, 22 * SEC));
}

#[test]
fn running_keeps_its_end_otherwise() {
    let running = Mode::Running(60 * SEC);
    assert_eq!(step(running, None, 20 * SEC), running);
    assert_eq!(step(running, Some(Key::Up), 20 * SEC), running);
    assert_eq!(step(running, Some(Key::Down), 20 * SEC), running);
    assert_eq!(step(running, Some(Key::Other), 20 * SEC), running);
    assert_eq!(step(running, Some(Key::Character('p')), 20 * SEC), running);
}

#[test]
fn paused_resumes_with_the_time_that_was_left() {
    let paused = Mode::Paused(60 * SEC, 20 * SEC);
    assert_eq!(step(paused, Some(Key::Character(' ')), 40 * SEC), Mode::Running(80 * SEC));
    assert_eq!(step(paused, Some(Key::Enter), 40 * SEC), Mode::Running(80 * SEC));
    assert_eq!(
        step(paused, Some(Key::Character('\n')), 1000 * SEC + 1),
        Mode::Running(1040 * SEC + 1)
    );
}

#[test]
fn paused_after_the_end_resumes_with_nothing_left() {
    let paused = Mode::Paused(60 * SEC, 61 * SEC);
    assert_eq!(step(paused, Some(Key::Enter), 90 * SEC), Mode::Running(90 * SEC));
}

#[test]
fn paused_stays_otherwise() {
    let paused = Mode::Paused(60 * SEC, 20 * SEC);
    assert_eq!(step(paused, None, 40 * SEC), paused);
    assert_eq!(step(paused, Some(Key::Up), 40 * SEC), paused);
    assert_eq!(step(paused, Some(Key::Down), 40 * SEC), paused);
    assert_eq!(step(paused, Some(Key::Other), 40 * SEC), paused);
}

#[test]
fn resume_keeps_the_remaining_time_exactly() {
    let end: u64 = 123_456_789_012;
    let at: u64 = 23_456_789_999;
    let now: u64 = 987_654_321_001;
    match step(Mode::Paused(end, at), Some(Key::Character(' ')), now) {
        Mode::Running(resumed) => assert_eq!(resumed - now, end - at),
        other => panic!("not running: {:?}", other),
    }
}

#[test]
fn handle_input_is_step_with_a_key() {
    let modes = [Mode::Setup(3), Mode::Running(50 * SEC), Mode::Paused(50 * SEC, 10 * SEC)];
    let keys = [
        Key::Character(' '),
        Key::Character('\n'),
        Key::Character('a'),
        Key::Enter,
        Key::Up,
        Key::Down,
        Key::Other,
    ];
    for mode in modes {
        for key in keys {
            assert_eq!(handle_input(mode, key, 30 * SEC), step(mode, Some(key), 30 * SEC));
        }
    }
}

#[test]
fn step_fits_for_ordinary_values() {
    assert!(step_fits(Mode::Setup(1), Some(Key::Enter), 0));
    assert!(step_fits(Mode::Setup(255), Some(Key::Up), 5 * SEC));
    assert!(step_fits(Mode::Running(9), Some(Key::Enter), u64::MAX));
    assert!(step_fits(Mode::Paused(60 * SEC, 20 * SEC), Some(Key::Enter), 40 * SEC));
    assert!(step_fits(Mode::Setup(u64::MAX), None, u64::MAX));
    assert!(step_fits(Mode::Setup(u64::MAX), Some(Key::Down), u64::MAX));
    assert!(step_fits(Mode::Setup(u64::MAX), Some(Key::Other), u64::MAX));
}

#[test]
fn step_does_not_fit_past_the_last_minute() {
    assert!(!step_fits(Mode::Setup(u64::MAX), Some(Key::Up), 0));
    assert!(step_fits(Mode::Setup(u64::MAX - 1), Some(Key::Up), 0));
}

#[test]
fn step_does_not_fit_past_the_last_instant() {
    let most: u64 = u64::MAX / NANOS_PER_MIN;
    assert!(step_fits(Mode::Setup(most), Some(Key::Enter), 0));
    assert!(step_fits(Mode::Setup(most), Some(Key::Enter), u64::MAX - most * NANOS_PER_MIN));
    assert!(!step_fits(Mode::Setup(most), Some(Key::Enter), u64::MAX - most * NANOS_PER_MIN + 1));
    assert!(!step_fits(Mode::Setup(most + 1), Some(Key::Enter), 0));
    assert!(!step_fits(Mode::Setup(1), Some(Key::Character(' ')), u64::MAX));
    assert!(!step_fits(Mode::Paused(10, 5), Some(Key::Enter), u64::MAX - 4));
    assert!(step_fits(Mode::Paused(10, 5), Some(Key::Enter), u64::MAX - 5));
    assert!(step_fits(Mode::Paused(5, 10), Some(Key::Enter), u64::MAX));
}

#[test]
fn press_fits_agrees_with_step_fits() {
    assert!(press_fits(Mode::Setup(1), Key::Enter, 0));
    assert!(!press_fits(Mode::Setup(u64::MAX), Key::Up, 0));
    assert!(!press_fits(Mode::Setup(1), Key::Enter, u64::MAX));
    assert!(press_fits(Mode::Running(1), Key::Enter, u64::MAX));
}

#[test]
fn project_setup_shows_the_minutes() {
    assert_eq!(project(Mode::Setup(1), 0), (1, 0));
    assert_eq!(project(Mode::Setup(25), 999 * SEC), (25, 0));
    assert_eq!(project(Mode::Setup(0), 0), (0, 0));
}

#[test]
fn project_running_shows_the_time_left() {
    assert_eq!(project(Mode::Running(60 * SEC), 0), (1, 0));
    assert_eq!(project(Mode::Running(60 * SEC), 30 * SEC), (0, 30));
    assert_eq!(project(Mode::Running(60 * SEC), 59 * SEC + 999_999_999), (0, 1));
    assert_eq!(project(Mode::Running(60 * SEC), 60 * SEC), (0, 0));
    assert_eq!(project(Mode::Running(60 * SEC), 61 * SEC), (0, 0));
}

#[test]
fn project_paused_shows_the_time_left_at_the_pause() {
    assert_eq!(project(Mode::Paused(60 * SEC, 20 * SEC), 20 * SEC), (0, 40));
    assert_eq!(project(Mode::Paused(60 * SEC, 20 * SEC), 4000 * SEC), (0, 40));
    assert_eq!(project(Mode::Paused(60 * SEC, 61 * SEC), 62 * SEC), (0, 0));
}

#[test]
fn project_keeps_seconds_below_sixty() {
    let mut now: u64 = 0;
    while now < 400 * SEC {
        assert!(project(Mode::Running(371 * SEC + 5), now).1 < 60);
        assert!(project(Mode::Paused(371 * SEC + 5, now), 0).1 < 60);
        now += 777_777_777;
    }
}

#[test]
fn only_a_running_timer_expires() {
    assert!(is_expired(Mode::Running(SEC), SEC));
    assert!(is_expired(Mode::Running(SEC), 2 * SEC));
    assert!(!is_expired(Mode::Running(SEC), SEC - 1));
    assert!(!is_expired(Mode::Setup(0), 5 * SEC));
    assert!(!is_expired(Mode::Paused(SEC, 0), 5 * SEC));
    assert!(!is_expired(Mode::Paused(SEC, 2 * SEC), 5 * SEC));
}

#[test]
fn pause_then_resume_shifts_the_display_by_the_pause() {
    let end = 90 * SEC;
    let t0 = 10 * SEC + 123;
    let t1 = 47 * SEC + 456;
    let paused = step(Mode::Running(end), Some(Key::Character(' ')), t0);
    assert_eq!(paused, Mode::Paused(end, t0));
    let resumed = step(paused, Some(Key::Character(' ')), t1);
    assert_eq!(resumed, Mode::Running(t1 + (end - t0)));
    let mut t2 = t1;
    while t2 < t1 + 100 * SEC {
        assert_eq!(project(resumed, t2), project(Mode::Running(end), t2 - (t1 - t0)));
        t2 += 1_234_567_891;
    }
}

#[test]
fn pause_then_immediate_resume_changes_nothing() {
    let running = Mode::Running(75 * SEC);
    let t = 12 * SEC + 7;
    let paused = step(running, Some(Key::Enter), t);
    assert_eq!(step(paused, Some(Key::Enter), t), running);
}
