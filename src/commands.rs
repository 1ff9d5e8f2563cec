use vstd::prelude::*;

use crate::error::FixMeLaterError;
use crate::display::status_text;
use crate::pomo::{CurrentPomoState, Pomodoro, PomodoroState};
use crate::setting::{
    first_group, setting_from_fields, PomodoroSetting, BREAK_TIME_PATTERN, REPETITIONS_PATTERN,
    WORK_TIME_PATTERN,
};
use crate::timeline::{valid_instant, MAX_INSTANT};

verus! {

/// The parameters that a start request settles on: those that `description`
/// describes, fitted to end at `until` where it is given.
pub open spec fn start_setting(description: Seq<char>, now: i64, until: Option<i64>) -> Result<
    PomodoroSetting,
    FixMeLaterError,
> {
    let parsed = setting_from_fields(
        first_group(REPETITIONS_PATTERN@, description),
        first_group(WORK_TIME_PATTERN@, description),
        first_group(BREAK_TIME_PATTERN@, description),
        now,
    );
    match (parsed, until) {
        (Ok(s), Some(u)) => s.adjusted(u as int),
        _ => parsed,
    }
}

impl PomodoroSetting {
    /// Whether the session these parameters describe fits in the instants
    /// that the library handles.
    pub fn is_buildable(&self) -> (r: bool)
        requires
            self.wf(),
        ensures
            r == self.buildable(),
    {
        let reps = self.repetitions as i128;
        let span: i128 = if reps == 0 {
            0
        } else {
            proof {
                assert(reps * self.work_time <= 0x1_0000_0000 * 0x40_0000_0000_0000)
                    by (nonlinear_arith)
                    requires
                        0 <= reps <= 0x1_0000_0000,
                        0 <= self.work_time <= 0x40_0000_0000_0000,
                ;
                assert((reps - 1) * self.break_time <= 0x1_0000_0000 * 0x40_0000_0000_0000)
                    by (nonlinear_arith)
                    requires
                        1 <= reps <= 0x1_0000_0000,
                        0 <= self.break_time <= 0x40_0000_0000_0000,
                ;
                assert(reps * self.work_time >= 0) by (nonlinear_arith)
                    requires
                        0 <= reps,
                        0 <= self.work_time,
                ;
                assert((reps - 1) * self.break_time >= 0) by (nonlinear_arith)
                    requires
                        1 <= reps,
                        0 <= self.break_time,
                ;
            }
            reps * (self.work_time as i128) + (reps - 1) * (self.break_time as i128)
        };
        (self.start as i128) + span <= MAX_INSTANT as i128 && self.repetitions <= i32::MAX as u32
    }
}

/// Builds the session that a start request asks for, from a description
/// such as `4p45b15`, the current instant, and an end instant to fit to.
pub fn start_cmd(description: &str, now: i64, until: Option<i64>) -> (r: Result<
    Pomodoro,
    FixMeLaterError,
>)
    requires
        valid_instant(now as int),
        until matches Some(u) ==> valid_instant(u as int),
    ensures
        match start_setting(description@, now, until) {
            Err(e) => r == Err::<Pomodoro, FixMeLaterError>(e),
            Ok(s) => if s.buildable() {
                r matches Ok(p) && s.builds(p)
            } else {
                r == Err::<Pomodoro, FixMeLaterError>(FixMeLaterError::OutOfRange)
            },
        },
        r matches Ok(p) ==> p.wf(),
{
    let mut setting = PomodoroSetting::from_string(description, now)?;
    if let Some(u) = until {
        setting.adjust_end_to(u)?;
    }
    if !setting.is_buildable() {
        return Err(FixMeLaterError::OutOfRange);
    }
    Ok(setting.to_pomodoro())
}

/// Stops a session.
pub fn stop_cmd(pomo: &mut Pomodoro)
    ensures
        *final(pomo) == old(pomo).with_active(false),
{
    pomo.set_active(false);
}

/// Pauses a session at `now`.
pub fn pause_cmd(pomo: &mut Pomodoro, now: i64)
    ensures
        *final(pomo) == old(pomo).with_pause(now),
{
    pomo.set_pause(now);
}

/// A resume at `now` keeps the session within the library's bounds.
pub open spec fn resume_fits(p: Pomodoro, now: int) -> bool {
    &&& p.sections@.len() + 2 <= u32::MAX
    &&& p.pause_started matches Some(q) ==> p.end_instant() + (now - q) <= MAX_INSTANT
}

/// Resumes a paused session at `now`, where the result stays within the
/// library's bounds.
pub fn unpause_cmd(pomo: &mut Pomodoro, now: i64) -> (r: Result<(), FixMeLaterError>)
    requires
        old(pomo).wf(),
        valid_instant(now as int),
    ensures
        !resume_fits(*old(pomo), now as int) ==> {
            &&& r == Err::<(), FixMeLaterError>(FixMeLaterError::OutOfRange)
            &&& *final(pomo) == *old(pomo)
        },
        resume_fits(*old(pomo), now as int) && old(pomo).resume_ok(now as int) ==> {
            &&& r is Ok
            &&& final(pomo).sections@ == old(pomo).resumed_sections(now as int)
            &&& final(pomo).pause_started is None
            &&& final(pomo).start == old(pomo).start
            &&& final(pomo).active == old(pomo).active
        },
        resume_fits(*old(pomo), now as int) && !old(pomo).resume_ok(now as int) ==> {
            &&& r == Err::<(), FixMeLaterError>(FixMeLaterError::PauseInvariantViolation)
            &&& *final(pomo) == *old(pomo)
        },
        final(pomo).wf(),
{
    if pomo.sections.len() > (u32::MAX - 2) as usize {
        return Err(FixMeLaterError::OutOfRange);
    }
    if let Some(q) = pomo.pause_started {
        let end = pomo.end();
        if now > q && now - q > MAX_INSTANT - end {
            return Err(FixMeLaterError::OutOfRange);
        }
    }
    pomo.set_unpause(now)
}

/// The status line of a session at `now`.
pub fn status_cmd(pomo: &Pomodoro, now: i64) -> (r: String)
    requires
        pomo.wf(),
        valid_instant(now as int),
    ensures
        r@ == status_text(pomo.state_at(now as int)),
{
    pomo.state(now).to_string()
}

/// One poll of a watched session: the kind now shown, and whether it differs
/// from the kind shown at the previous poll, which calls for a notification.
pub fn watch_cmd(last: PomodoroState, current: &CurrentPomoState) -> (r: (PomodoroState, bool))
    ensures
        r == (current.current_state, current.current_state != last),
{
    (current.current_state, current.current_state != last)
}

} // verus!
