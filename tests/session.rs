use pomocl::clock::{parse_clock_time, resolve_local_time, LocalTime};
use pomocl::commands::{pause_cmd, start_cmd, status_cmd, stop_cmd, unpause_cmd, watch_cmd};
use pomocl::decimal::parse_decimal;
use pomocl::display::format_duration;
use pomocl::error::FixMeLaterError;
use pomocl::pomo::{CurrentSection, Pomodoro, PomodoroSection, PomodoroState};
use pomocl::setting::PomodoroSetting;

const T0: i64 = 1_700_000_000;
const MIN: i64 = 60;

fn work(m: i64) -> PomodoroSection {
    PomodoroSection { duration: m * MIN, state: PomodoroState::Work }
}

fn brk(m: i64) -> PomodoroSection {
    PomodoroSection { duration: m * MIN, state: PomodoroState::Break }
}

fn session_2p10b5() -> Pomodoro {
    PomodoroSetting::from_string("2p10b5", T0).unwrap().to_pomodoro()
}

#[test]
fn build_from_spec_2p10b5() {
    let p = session_2p10b5();
    assert_eq!(p.sections, vec![work(10), brk(5), work(10)]);
    assert_eq!(p.start, T0);
    assert!(p.active);
    assert_eq!(p.pause_started, None);
}

#[test]
fn build_alternates_work_and_break() {
    let p = PomodoroSetting::from_string("4p45b15", T0).unwrap().to_pomodoro();
    assert_eq!(p.sections.len(), 7);
    for (i, s) in p.sections.iter().enumerate() {
        if i % 2 == 0 {
            assert_eq!(*s, work(45));
        } else {
            assert_eq!(*s, brk(15));
        }
    }
    assert_eq!(p.repetitions(), 4);
    assert_eq!(p.end(), T0 + 4 * 45 * MIN + 3 * 15 * MIN);
}

#[test]
fn build_single_repetition_has_no_break() {
    let p = PomodoroSetting::from_string("1p25b5", T0).unwrap().to_pomodoro();
    assert_eq!(p.sections, vec![work(25)]);
}

#[test]
fn build_zero_repetitions_is_empty() {
    let p = PomodoroSetting::from_string("0p25b5", T0).unwrap().to_pomodoro();
    assert!(p.sections.is_empty());
    assert_eq!(p.current_section(T0), CurrentSection::AferEnd);
}

#[test]
fn description_fields() {
    let s = PomodoroSetting::from_string("3p20b7", T0).unwrap();
    assert_eq!(s.start, T0);
    assert_eq!(s.repetitions, 3);
    assert_eq!(s.work_time, 20 * MIN);
    assert_eq!(s.break_time, 7 * MIN);
}

#[test]
fn description_defaults() {
    let s = PomodoroSetting::from_string("", T0).unwrap();
    assert_eq!(s.repetitions, 4);
    assert_eq!(s.work_time, 40 * MIN);
    assert_eq!(s.break_time, 10 * MIN);
    let s = PomodoroSetting::from_string("p30", T0).unwrap();
    assert_eq!(s.repetitions, 4);
    assert_eq!(s.work_time, 30 * MIN);
    assert_eq!(s.break_time, 10 * MIN);
}

#[test]
fn description_break_only_at_end() {
    let s = PomodoroSetting::from_string("2b5p30", T0).unwrap();
    assert_eq!(s.repetitions, 2);
    assert_eq!(s.work_time, 30 * MIN);
    assert_eq!(s.break_time, 10 * MIN);
}

#[test]
fn description_too_many_repetitions() {
    let r = PomodoroSetting::from_string("99999999999p10b5", T0);
    assert_eq!(r.err(), Some(FixMeLaterError::InvalidDescription));
}

#[test]
fn description_non_ascii_digits() {
    let r = PomodoroSetting::from_string("\u{0663}p10b5", T0);
    assert_eq!(r.err(), Some(FixMeLaterError::InvalidDescription));
}

#[test]
fn from_groups_reads_each_field() {
    let s = PomodoroSetting::from_groups(
        Some("6".to_string()),
        None,
        Some("3".to_string()),
        T0,
    )
    .unwrap();
    assert_eq!(s.repetitions, 6);
    assert_eq!(s.work_time, 40 * MIN);
    assert_eq!(s.break_time, 3 * MIN);
    let r = PomodoroSetting::from_groups(Some("x".to_string()), None, None, T0);
    assert_eq!(r.err(), Some(FixMeLaterError::InvalidDescription));
}

#[test]
fn decimal_parsing() {
    assert_eq!(parse_decimal("0"), Some(0));
    assert_eq!(parse_decimal("045"), Some(45));
    assert_eq!(parse_decimal("18446744073709551615"), Some(u64::MAX));
    assert_eq!(parse_decimal("18446744073709551616"), None);
    assert_eq!(parse_decimal(""), None);
    assert_eq!(parse_decimal("1a"), None);
}

#[test]
fn state_scenario_2p10b5() {
    let p = session_2p10b5();
    let s = p.state(T0 + 3 * MIN);
    assert_eq!(s.current_state, PomodoroState::Work);
    assert_eq!(s.next_state, PomodoroState::Break);
    assert_eq!(s.duration, 7 * MIN);
    assert_eq!(s.completed_repetitions, 1);
    assert_eq!(s.total_repetitions, 2);
    assert!(!s.pause);

    let s = p.state(T0 + 12 * MIN);
    assert_eq!(s.current_state, PomodoroState::Break);
    assert_eq!(s.next_state, PomodoroState::Work);
    assert_eq!(s.duration, 3 * MIN);
    assert_eq!(s.completed_repetitions, 1);

    let s = p.state(T0 + 30 * MIN);
    assert_eq!(s.current_state, PomodoroState::Done);
    assert_eq!(s.next_state, PomodoroState::Done);
    assert_eq!(s.duration, 0);
    assert_eq!(s.completed_repetitions, 2);
    assert_eq!(s.total_repetitions, 2);
}

#[test]
fn state_before_start() {
    let p = session_2p10b5();
    let s = p.state(T0 - 90);
    assert_eq!(s.current_state, PomodoroState::NotStarted);
    assert_eq!(s.next_state, PomodoroState::Work);
    assert_eq!(s.duration, 90);
    assert_eq!(s.completed_repetitions, 0);
    assert_eq!(s.total_repetitions, 2);
}

#[test]
fn state_of_stopped_session() {
    let mut p = session_2p10b5();
    p.set_active(false);
    let s = p.state(T0 + 3 * MIN);
    assert_eq!(s.current_state, PomodoroState::Done);
    assert_eq!(s.next_state, PomodoroState::Done);
    assert_eq!(s.duration, 0);
    assert_eq!(s.completed_repetitions, 0);
    assert_eq!(s.total_repetitions, 0);
}

#[test]
fn section_windows_are_half_open() {
    let p = session_2p10b5();
    assert_eq!(p.current_section(T0 - 1), CurrentSection::BeforeStart);
    assert_eq!(p.current_section(T0), CurrentSection::Section(0));
    assert_eq!(p.current_section(T0 + 10 * MIN - 1), CurrentSection::Section(0));
    assert_eq!(p.current_section(T0 + 10 * MIN), CurrentSection::Section(1));
    assert_eq!(p.current_section(T0 + 15 * MIN), CurrentSection::Section(2));
    assert_eq!(p.current_section(T0 + 25 * MIN - 1), CurrentSection::Section(2));
    assert_eq!(p.current_section(T0 + 25 * MIN), CurrentSection::AferEnd);
    let mut q = p.clone();
    q.set_active(false);
    assert_eq!(q.current_section(T0), CurrentSection::Inactive);
}

#[test]
fn stop_twice_same_as_once() {
    let mut once = session_2p10b5();
    once.set_active(false);
    let mut twice = session_2p10b5();
    twice.set_active(false);
    twice.set_active(false);
    assert_eq!(once.sections, twice.sections);
    assert_eq!(once.active, twice.active);
    assert_eq!(once.pause_started, twice.pause_started);
    for t in [T0 - 60, T0, T0 + 5 * MIN, T0 + 40 * MIN] {
        assert_eq!(once.state(t), twice.state(t));
    }
}

#[test]
fn stop_keeps_pause_marker() {
    let mut p = session_2p10b5();
    p.set_pause(T0 + 60);
    stop_cmd(&mut p);
    assert!(!p.active);
    assert_eq!(p.pause_started, Some(T0 + 60));
}

#[test]
fn pause_freezes_and_resume_splices() {
    let mut p = session_2p10b5();
    p.set_pause(T0 + 3 * MIN);
    let s = p.state(T0 + 100 * MIN);
    assert_eq!(s.current_state, PomodoroState::Work);
    assert_eq!(s.duration, 7 * MIN);
    assert!(s.pause);
    let before = p.end();
    assert_eq!(p.set_unpause(T0 + 8 * MIN), Ok(()));
    assert_eq!(p.sections, vec![work(3), brk(5), work(7), brk(5), work(10)]);
    assert_eq!(p.pause_started, None);
    assert_eq!(p.end(), before + 5 * MIN);
    let s = p.state(T0 + 9 * MIN);
    assert_eq!(s.current_state, PomodoroState::Work);
    assert_eq!(s.duration, 6 * MIN);
}

#[test]
fn repause_moves_freeze_point() {
    let mut p = session_2p10b5();
    p.set_pause(T0 + 3 * MIN);
    pause_cmd(&mut p, T0 + 4 * MIN);
    assert_eq!(p.pause_started, Some(T0 + 4 * MIN));
    assert_eq!(p.state(T0 + 50 * MIN).duration, 6 * MIN);
}

#[test]
fn resume_without_pause_changes_nothing() {
    let mut p = session_2p10b5();
    assert_eq!(p.set_unpause(T0 + 8 * MIN), Ok(()));
    assert_eq!(p.sections, vec![work(10), brk(5), work(10)]);
}

#[test]
fn resume_after_pause_outside_sections_only_clears() {
    let mut p = session_2p10b5();
    p.set_pause(T0 - 5 * MIN);
    assert_eq!(p.set_unpause(T0 + 8 * MIN), Ok(()));
    assert_eq!(p.sections, vec![work(10), brk(5), work(10)]);
    assert_eq!(p.pause_started, None);
}

#[test]
fn resume_at_section_boundary_is_rejected() {
    let mut p = session_2p10b5();
    p.set_pause(T0 + 10 * MIN);
    assert_eq!(
        p.set_unpause(T0 + 12 * MIN),
        Err(FixMeLaterError::PauseInvariantViolation)
    );
    assert_eq!(p.sections, vec![work(10), brk(5), work(10)]);
    assert_eq!(p.pause_started, Some(T0 + 10 * MIN));
}

#[test]
fn resume_before_pause_is_rejected() {
    let mut p = session_2p10b5();
    p.set_pause(T0 + 3 * MIN);
    assert_eq!(
        unpause_cmd(&mut p, T0 + 2 * MIN),
        Err(FixMeLaterError::PauseInvariantViolation)
    );
    assert_eq!(p.sections.len(), 3);
}

#[test]
fn resume_past_the_instant_range_is_rejected() {
    let mut p = session_2p10b5();
    p.set_pause(T0 + 3 * MIN);
    assert_eq!(
        unpause_cmd(&mut p, 4_503_599_627_370_496),
        Err(FixMeLaterError::OutOfRange)
    );
}

#[test]
fn fit_to_three_hours() {
    let mut s = PomodoroSetting { start: T0, repetitions: 4, work_time: 45 * MIN, break_time: 15 * MIN };
    assert_eq!(s.adjust_end_to(T0 + 3 * 60 * MIN), Ok(()));
    assert_eq!(s.repetitions, 3);
    assert_eq!(s.work_time, 50 * MIN);
    assert_eq!(s.break_time, 15 * MIN);
    let total = s.repetitions as i64 * s.work_time + (s.repetitions as i64 - 1) * s.break_time;
    assert!((total - 3 * 60 * MIN).abs() <= 1);
    assert!(s.repetitions >= 1);
}

#[test]
fn fit_to_end_before_start_is_rejected() {
    let mut s = PomodoroSetting { start: T0, repetitions: 4, work_time: 45 * MIN, break_time: 15 * MIN };
    assert_eq!(s.adjust_end_to(T0), Err(FixMeLaterError::InvalidTimeRange));
    assert_eq!(s.adjust_end_to(T0 - 1), Err(FixMeLaterError::InvalidTimeRange));
    assert_eq!(s.repetitions, 4);
    assert_eq!(s.work_time, 45 * MIN);
}

#[test]
fn fit_to_short_span_keeps_one_repetition() {
    let mut s = PomodoroSetting { start: T0, repetitions: 4, work_time: 45 * MIN, break_time: 15 * MIN };
    assert_eq!(s.adjust_end_to(T0 + 20 * MIN), Ok(()));
    assert_eq!(s.repetitions, 1);
    assert_eq!(s.work_time, 20 * MIN);
}

#[test]
fn start_command_builds_session() {
    let p = start_cmd("2p10b5", T0, None).unwrap();
    assert_eq!(p.sections, vec![work(10), brk(5), work(10)]);
    let p = start_cmd("4p45b15", T0, Some(T0 + 3 * 60 * MIN)).unwrap();
    assert_eq!(p.sections, vec![work(50), brk(15), work(50), brk(15), work(50)]);
    assert_eq!(
        start_cmd("4p45b15", T0, Some(T0 - 1)).err(),
        Some(FixMeLaterError::InvalidTimeRange)
    );
}

#[test]
fn well_formedness_check() {
    let p = session_2p10b5();
    assert!(p.is_well_formed());
    let mut q = p.clone();
    q.sections[1].duration = -1;
    assert!(!q.is_well_formed());
    let mut q = p.clone();
    q.start = i64::MAX;
    assert!(!q.is_well_formed());
}

#[test]
fn duration_text() {
    assert_eq!(format_duration(0), "00:00:00");
    assert_eq!(format_duration(3725), "01:02:05");
    assert_eq!(format_duration(100 * 3600 + 59), "100:00:59");
}

#[test]
fn status_lines() {
    let mut p = session_2p10b5();
    assert_eq!(p.state(T0 + 3 * MIN).to_string(), "work 00:07:00 (-> break) 1/2");
    assert_eq!(p.state(T0 + 22 * MIN).to_string(), "work 00:03:00 (-> done) 2/2");
    assert_eq!(p.state(T0 + 30 * MIN).to_string(), "done 2/2");
    assert_eq!(p.state(T0 - 60).to_string(), "not started 00:01:00 (-> work) 0/2");
    p.set_pause(T0 + 3 * MIN);
    assert_eq!(p.state(T0 + 9 * MIN).to_string(), "work 00:07:00 (-> break) 1/2 (paused)");
    assert_eq!(PomodoroState::NotStarted.to_string(), "not started");
    assert_eq!(PomodoroState::Break.name(), "break");
}

#[test]
fn status_command_line() {
    let p = session_2p10b5();
    assert_eq!(status_cmd(&p, T0 + 12 * MIN), "break 00:03:00 (-> work) 1/2");
}

#[test]
fn watch_notifies_on_change_only() {
    let p = session_2p10b5();
    let s = p.state(T0 + 3 * MIN);
    assert_eq!(watch_cmd(PomodoroState::NotStarted, &s), (PomodoroState::Work, true));
    assert_eq!(watch_cmd(PomodoroState::Work, &s), (PomodoroState::Work, false));
}

#[test]
fn resumed_session_keeps_earlier_and_shifts_later_instants() {
    let mut p = session_2p10b5();
    let before_start = p.state(T0 + 2 * MIN);
    let later = p.state(T0 + 20 * MIN);
    p.set_pause(T0 + 3 * MIN);
    p.set_unpause(T0 + 8 * MIN).unwrap();
    let s = p.state(T0 + 2 * MIN);
    assert_eq!(s.current_state, before_start.current_state);
    assert_eq!(s.duration, 1 * MIN);
    let shifted = p.state(T0 + 25 * MIN);
    assert_eq!(shifted.current_state, later.current_state);
    assert_eq!(shifted.duration, later.duration);
}

#[test]
fn clock_time_reading() {
    assert_eq!(parse_clock_time("09:30"), Ok((9, 30)));
    assert_eq!(parse_clock_time("23:59"), Ok((23, 59)));
    assert_eq!(parse_clock_time("7:05"), Ok((7, 5)));
    assert_eq!(parse_clock_time("24:00"), Err(FixMeLaterError::InvalidClockTime));
    assert_eq!(parse_clock_time("12:60"), Err(FixMeLaterError::InvalidClockTime));
    assert_eq!(parse_clock_time("noon"), Err(FixMeLaterError::InvalidClockTime));
}

#[test]
fn local_time_resolution() {
    assert_eq!(resolve_local_time(LocalTime::Single(T0)), Ok(T0));
    assert_eq!(
        resolve_local_time(LocalTime::Ambiguous),
        Err(FixMeLaterError::AmbiguousLocalTime)
    );
    assert_eq!(resolve_local_time(LocalTime::Missing), Err(FixMeLaterError::MissingLocalTime));
}

#[test]
fn description_accepts_large_minute_counts() {
    let s = PomodoroSetting::from_groups(
        Some("1".to_string()),
        Some("150119987579017".to_string()),
        Some("0".to_string()),
        T0,
    )
    .unwrap();
    assert_eq!(s.repetitions, 1);
    assert_eq!(s.work_time, 150_119_987_579_017 * MIN);
    assert_eq!(s.break_time, 0);
    let s = PomodoroSetting::from_string("1p153722867280912b153722867280912", T0).unwrap();
    assert_eq!(s.work_time, 153_722_867_280_912 * MIN);
    assert_eq!(s.break_time, 153_722_867_280_912 * MIN);
    let r = PomodoroSetting::from_string("1p153722867280913b5", T0);
    assert_eq!(r.err(), Some(FixMeLaterError::InvalidDescription));
}

#[test]
fn fit_recomputes_large_work_length() {
    let p = start_cmd("2p150119987579017b5", T0, Some(T0 + 3 * 60 * MIN)).unwrap();
    assert!(p.is_well_formed());
    assert_eq!(p.end(), T0 + 3 * 60 * MIN);
    assert_eq!(p.sections, vec![work(180)]);
}

#[test]
fn fit_without_positive_work_is_rejected() {
    let mut s = PomodoroSetting { start: 0, repetitions: 4, work_time: 1, break_time: 20 };
    assert_eq!(s.adjust_end_to(10), Err(FixMeLaterError::InvalidFit));
    assert_eq!(s.repetitions, 4);
    assert_eq!(s.work_time, 1);
    let mut s = PomodoroSetting { start: 0, repetitions: 4, work_time: 0, break_time: 3 };
    assert_eq!(s.adjust_end_to(2), Err(FixMeLaterError::InvalidFit));
    assert_eq!(s.repetitions, 4);
    assert_eq!(s.work_time, 0);
}

#[test]
fn start_beyond_instant_range_is_rejected() {
    let r = start_cmd("2p153722867280912b5", T0, None);
    assert_eq!(r.err(), Some(FixMeLaterError::OutOfRange));
}
