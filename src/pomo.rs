use vstd::prelude::*;

use crate::error::FixMeLaterError;
use crate::timeline::{
    durations_nonneg, lemma_take_full, lemma_total_concat, lemma_total_mono, lemma_total_one,
    lemma_total_step, lemma_total_three, lemma_works_bound, total, valid_instant, works,
    MAX_INSTANT,
};

verus! {

/// What a section of a session is spent on, or where a session stands.
#[derive(PartialEq, Eq, Structural, Clone, Copy, Debug)]
pub enum PomodoroState {
    NotStarted,
    Work,
    Break,
    Done,
}

/// One timed stretch of a session.
#[derive(PartialEq, Eq, Structural, Clone, Copy, Debug)]
pub struct PomodoroSection {
    /// Length in seconds.
    pub duration: i64,
    pub state: PomodoroState,
}

/// A session: sections laid end to end from `start`.
#[derive(Clone, Debug)]
pub struct Pomodoro {
    pub sections: Vec<PomodoroSection>,
    /// Instant at which the first section begins.
    pub start: i64,
    /// False once the session has been stopped.
    pub active: bool,
    /// Instant at which the running pause began, if the session is paused.
    pub pause_started: Option<i64>,
}

/// Where an instant falls in a session.
#[derive(PartialEq, Eq, Structural, Clone, Copy, Debug)]
pub enum CurrentSection {
    Inactive,
    BeforeStart,
    Section(usize),
    AferEnd,
}

/// What a session shows at an instant.
#[derive(PartialEq, Eq, Structural, Clone, Copy, Debug)]
pub struct CurrentPomoState {
    pub current_state: PomodoroState,
    pub next_state: PomodoroState,
    /// Seconds left in the current stretch.
    pub duration: i64,
    pub completed_repetitions: u32,
    pub total_repetitions: u32,
    pub pause: bool,
}

/// Section `i` of `s` cut at `pre` seconds into it, with a break of `gap`
/// seconds put in the cut.
pub open spec fn spliced(s: Seq<PomodoroSection>, i: int, pre: int, gap: int) -> Seq<PomodoroSection> {
    s.take(i) + seq![
        PomodoroSection { duration: pre as i64, state: s[i].state },
        PomodoroSection { duration: gap as i64, state: PomodoroState::Break },
        PomodoroSection { duration: (s[i].duration - pre) as i64, state: s[i].state },
    ] + s.skip(i + 1)
}

proof fn lemma_spliced(s: Seq<PomodoroSection>, i: int, pre: int, gap: int)
    requires
        0 <= i < s.len(),
        0 <= pre <= s[i].duration,
        0 <= gap <= i64::MAX,
        durations_nonneg(s),
    ensures
        total(spliced(s, i, pre, gap)) == total(s) + gap,
        durations_nonneg(spliced(s, i, pre, gap)),
        spliced(s, i, pre, gap).len() == s.len() + 2,
{
    let mid = seq![
        PomodoroSection { duration: pre as i64, state: s[i].state },
        PomodoroSection { duration: gap as i64, state: PomodoroState::Break },
        PomodoroSection { duration: (s[i].duration - pre) as i64, state: s[i].state },
    ];
    let one = seq![s[i]];
    assert(s =~= s.take(i) + one + s.skip(i + 1));
    lemma_total_concat(s.take(i) + one, s.skip(i + 1));
    lemma_total_concat(s.take(i), one);
    lemma_total_concat(s.take(i) + mid, s.skip(i + 1));
    lemma_total_concat(s.take(i), mid);
    lemma_total_one(s[i]);
    lemma_total_three(mid[0], mid[1], mid[2]);
    assert(mid =~= seq![mid[0], mid[1], mid[2]]);
    assert(spliced(s, i, pre, gap) == s.take(i) + mid + s.skip(i + 1));
    let r = spliced(s, i, pre, gap);
    assert forall|k: int| 0 <= k < r.len() implies r[k].duration >= 0 by {
        if k >= i + 3 {
            assert(r[k] == s[k - 2]);
        }
    }
}

impl Pomodoro {
    /// The bounds under which every query and change is defined.
    pub open spec fn wf(self) -> bool {
        &&& durations_nonneg(self.sections@)
        &&& valid_instant(self.start as int)
        &&& self.end_instant() <= MAX_INSTANT
        &&& self.sections@.len() <= u32::MAX
        &&& (self.pause_started matches Some(p) ==> valid_instant(p as int))
    }

    pub open spec fn end_instant(self) -> int {
        self.start + total(self.sections@)
    }

    /// Instant at which section `i` begins.
    pub open spec fn section_start(self, i: int) -> int {
        self.start + total(self.sections@.take(i))
    }

    /// The instant that queries look at: the start of the pause while paused.
    pub open spec fn effective(self, t: int) -> int {
        match self.pause_started {
            Some(p) => p as int,
            None => t,
        }
    }

    /// Instant `e` lies in the half-open window of section `i`.
    pub open spec fn in_section(self, i: int, e: int) -> bool {
        &&& 0 <= i < self.sections@.len()
        &&& self.section_start(i) <= e < self.section_start(i) + self.sections@[i].duration
    }

    /// Where instant `t` falls in the session.
    pub open spec fn section_at(self, t: int) -> CurrentSection {
        let e = self.effective(t);
        if !self.active {
            CurrentSection::Inactive
        } else if e < self.start {
            CurrentSection::BeforeStart
        } else if e >= self.end_instant() {
            CurrentSection::AferEnd
        } else {
            CurrentSection::Section((choose|i: int| self.in_section(i, e)) as usize)
        }
    }

    /// Two section windows never share an instant.
    pub proof fn lemma_in_section_unique(self, i: int, j: int, e: int)
        requires
            self.wf(),
            self.in_section(i, e),
            self.in_section(j, e),
        ensures
            i == j,
    {
        if i < j {
            lemma_total_step(self.sections@, i);
            lemma_total_mono(self.sections@, i + 1, j);
        } else if j < i {
            lemma_total_step(self.sections@, j);
            lemma_total_mono(self.sections@, j + 1, i);
        }
    }

    /// Where instant `t` falls in the session.
    pub fn current_section(&self, t: i64) -> (r: CurrentSection)
        requires
            self.wf(),
            valid_instant(t as int),
        ensures
            r == self.section_at(t as int),
            r matches CurrentSection::Section(i) ==> self.in_section(i as int, self.effective(t as int)),
    {
        if !self.active {
            return CurrentSection::Inactive;
        }
        let time = match self.pause_started {
            Some(p) => p,
            None => t,
        };
        if time < self.start {
            return CurrentSection::BeforeStart;
        }
        let mut acc: i64 = self.start;
        let mut i: usize = 0;
        let n = self.sections.len();
        proof {
            assert(self.sections@.take(0) =~= Seq::<PomodoroSection>::empty());
        }
        while i < n
            invariant
                self.wf(),
                n == self.sections@.len(),
                i <= n,
                acc == self.section_start(i as int),
                acc <= time,
                self.start <= time,
                time == self.effective(t as int),
                self.active,
            decreases n - i,
        {
            let d = self.sections[i].duration;
            proof {
                lemma_total_step(self.sections@, i as int);
                lemma_total_mono(self.sections@, i as int + 1, n as int);
                lemma_take_full(self.sections@);
            }
            if time < acc + d {
                proof {
                    assert(self.in_section(i as int, time as int));
                    assert forall|j: int| #[trigger] self.in_section(j, time as int) implies j == i by {
                        self.lemma_in_section_unique(i as int, j, time as int);
                    }
                    assert(time < self.end_instant());
                    let c = choose|j: int| self.in_section(j, time as int);
                    assert(c == i);
                }
                return CurrentSection::Section(i);
            }
            acc = acc + d;
            i = i + 1;
        }
        proof {
            lemma_take_full(self.sections@);
        }
        CurrentSection::AferEnd
    }

    /// Whether the session lies within the bounds under which every query
    /// and change is defined.
    pub fn is_well_formed(&self) -> (r: bool)
        ensures
            r == self.wf(),
    {
        if self.start < -MAX_INSTANT || self.start > MAX_INSTANT {
            return false;
        }
        if let Some(p) = self.pause_started {
            if p < -MAX_INSTANT || p > MAX_INSTANT {
                return false;
            }
        }
        let n = self.sections.len();
        if n > u32::MAX as usize {
            return false;
        }
        let mut acc: i64 = self.start;
        let mut k: usize = 0;
        proof {
            assert(self.sections@.take(0) =~= Seq::<PomodoroSection>::empty());
        }
        while k < n
            invariant
                n == self.sections@.len(),
                k <= n,
                valid_instant(self.start as int),
                acc == self.section_start(k as int),
                acc <= MAX_INSTANT,
                acc >= self.start,
                durations_nonneg(self.sections@.take(k as int)),
            decreases n - k,
        {
            let d = self.sections[k].duration;
            proof {
                lemma_total_step(self.sections@, k as int);
            }
            if d < 0 || d > MAX_INSTANT - acc {
                proof {
                    if self.wf() {
                        lemma_total_mono(self.sections@, k as int + 1, n as int);
                        lemma_take_full(self.sections@);
                    }
                }
                return false;
            }
            proof {
                assert forall|i: int| 0 <= i < k + 1 implies #[trigger] self.sections@.take(
                    k + 1,
                )[i].duration >= 0 by {
                    if i < k {
                        assert(self.sections@.take(k as int)[i] == self.sections@[i]);
                    }
                }
            }
            acc = acc + d;
            k = k + 1;
        }
        proof {
            lemma_take_full(self.sections@);
        }
        true
    }

    /// Kind of section `i`, or `Done` past the last one.
    pub open spec fn kind_at(self, i: int) -> PomodoroState {
        if 0 <= i < self.sections@.len() {
            self.sections@[i].state
        } else {
            PomodoroState::Done
        }
    }

    /// What the session shows at instant `t`.
    pub open spec fn state_at(self, t: int) -> CurrentPomoState {
        let e = self.effective(t);
        let pause = self.pause_started is Some;
        let reps = works(self.sections@) as u32;
        match self.section_at(t) {
            CurrentSection::Inactive => CurrentPomoState {
                current_state: PomodoroState::Done,
                next_state: PomodoroState::Done,
                duration: 0,
                completed_repetitions: 0,
                total_repetitions: 0,
                pause,
            },
            CurrentSection::BeforeStart => CurrentPomoState {
                current_state: PomodoroState::NotStarted,
                next_state: self.kind_at(0),
                duration: (self.start - e) as i64,
                completed_repetitions: 0,
                total_repetitions: reps,
                pause,
            },
            CurrentSection::Section(i) => CurrentPomoState {
                current_state: self.sections@[i as int].state,
                next_state: self.kind_at(i + 1),
                duration: (self.section_start(i as int) + self.sections@[i as int].duration - e) as i64,
                completed_repetitions: works(self.sections@.take(i + 1)) as u32,
                total_repetitions: reps,
                pause,
            },
            CurrentSection::AferEnd => CurrentPomoState {
                current_state: PomodoroState::Done,
                next_state: PomodoroState::Done,
                duration: 0,
                completed_repetitions: reps,
                total_repetitions: reps,
                pause,
            },
        }
    }

    /// Instant at which section `i` begins.
    pub fn start_of(&self, i: usize) -> (r: i64)
        requires
            self.wf(),
            i <= self.sections@.len(),
        ensures
            r == self.section_start(i as int),
    {
        let mut acc: i64 = self.start;
        let mut k: usize = 0;
        proof {
            assert(self.sections@.take(0) =~= Seq::<PomodoroSection>::empty());
        }
        while k < i
            invariant
                self.wf(),
                k <= i <= self.sections@.len(),
                acc == self.section_start(k as int),
            decreases i - k,
        {
            proof {
                lemma_total_step(self.sections@, k as int);
                lemma_total_mono(self.sections@, k as int + 1, self.sections@.len() as int);
                lemma_take_full(self.sections@);
                lemma_total_mono(self.sections@, 0, k as int);
            }
            acc = acc + self.sections[k].duration;
            k = k + 1;
        }
        acc
    }

    /// Number of work sections among the first `n`.
    pub fn works_in(&self, n: usize) -> (r: u32)
        requires
            self.wf(),
            n <= self.sections@.len(),
        ensures
            r == works(self.sections@.take(n as int)),
    {
        let mut c: u32 = 0;
        let mut k: usize = 0;
        proof {
            assert(self.sections@.take(0) =~= Seq::<PomodoroSection>::empty());
        }
        while k < n
            invariant
                self.wf(),
                k <= n <= self.sections@.len(),
                c == works(self.sections@.take(k as int)),
            decreases n - k,
        {
            proof {
                lemma_total_step(self.sections@, k as int);
                lemma_works_bound(self.sections@.take(k as int));
            }
            if self.sections[k].state == PomodoroState::Work {
                c = c + 1;
            }
            k = k + 1;
        }
        c
    }

    /// Number of work sections in the session.
    pub fn repetitions(&self) -> (r: u32)
        requires
            self.wf(),
        ensures
            r == works(self.sections@),
    {
        proof {
            lemma_take_full(self.sections@);
        }
        self.works_in(self.sections.len())
    }

    /// Instant at which the last section ends.
    pub fn end(&self) -> (r: i64)
        requires
            self.wf(),
        ensures
            r == self.end_instant(),
            self.start <= r,
    {
        proof {
            lemma_take_full(self.sections@);
            assert(self.sections@.take(0) =~= Seq::<PomodoroSection>::empty());
            lemma_total_mono(self.sections@, 0, self.sections@.len() as int);
        }
        self.start_of(self.sections.len())
    }

    /// What the session shows at instant `t`.
    pub fn state(&self, t: i64) -> (r: CurrentPomoState)
        requires
            self.wf(),
            valid_instant(t as int),
        ensures
            r == self.state_at(t as int),
            r.duration >= 0,
    {
        let time = match self.pause_started {
            Some(p) => p,
            None => t,
        };
        let pause = self.pause_started.is_some();
        let n = self.sections.len();
        match self.current_section(t) {
            CurrentSection::Inactive => CurrentPomoState {
                current_state: PomodoroState::Done,
                next_state: PomodoroState::Done,
                duration: 0,
                completed_repetitions: 0,
                total_repetitions: 0,
                pause,
            },
            CurrentSection::BeforeStart => CurrentPomoState {
                current_state: PomodoroState::NotStarted,
                next_state: if n > 0 {
                    self.sections[0].state
                } else {
                    PomodoroState::Done
                },
                duration: self.start - time,
                completed_repetitions: 0,
                total_repetitions: self.repetitions(),
                pause,
            },
            CurrentSection::Section(i) => {
                proof {
                    lemma_total_step(self.sections@, i as int);
                    lemma_total_mono(self.sections@, i as int + 1, n as int);
                    lemma_take_full(self.sections@);
                    lemma_total_mono(self.sections@, 0, i as int);
                }
                let end_time = self.start_of(i + 1);
                CurrentPomoState {
                    current_state: self.sections[i].state,
                    next_state: if i + 1 < n {
                        self.sections[i + 1].state
                    } else {
                        PomodoroState::Done
                    },
                    duration: end_time - time,
                    completed_repetitions: self.works_in(i + 1),
                    total_repetitions: self.repetitions(),
                    pause,
                }
            },
            CurrentSection::AferEnd => {
                let reps = self.repetitions();
                CurrentPomoState {
                    current_state: PomodoroState::Done,
                    next_state: PomodoroState::Done,
                    duration: 0,
                    completed_repetitions: reps,
                    total_repetitions: reps,
                    pause,
                }
            },
        }
    }

    pub open spec fn with_active(self, a: bool) -> Pomodoro {
        Pomodoro { active: a, ..self }
    }

    pub open spec fn with_pause(self, p: i64) -> Pomodoro {
        Pomodoro { pause_started: Some(p), ..self }
    }

    /// A resume at `now` either needs no cut, or cuts the paused section into
    /// pieces that all have a positive length.
    pub open spec fn resume_ok(self, now: int) -> bool {
        match self.pause_started {
            Some(p) => match self.section_at(p as int) {
                CurrentSection::Section(i) => self.section_start(i as int) < p && p < now,
                _ => true,
            },
            None => true,
        }
    }

    /// The sections after a resume at `now`.
    pub open spec fn resumed_sections(self, now: int) -> Seq<PomodoroSection> {
        match self.pause_started {
            Some(p) => match self.section_at(p as int) {
                CurrentSection::Section(i) => spliced(
                    self.sections@,
                    i as int,
                    p - self.section_start(i as int),
                    now - p,
                ),
                _ => self.sections@,
            },
            None => self.sections@,
        }
    }

    /// Marks the session as running or stopped.
    pub fn set_active(&mut self, a: bool)
        ensures
            *final(self) == old(self).with_active(a),
    {
        self.active = a;
    }

    /// Freezes the session at `pause_start`, or moves the freeze there.
    pub fn set_pause(&mut self, pause_start: i64)
        ensures
            *final(self) == old(self).with_pause(pause_start),
    {
        self.pause_started = Some(pause_start);
    }

    /// Ends a pause at `pause_end`. Where the pause began inside a section,
    /// that section is cut at the pause and a break as long as the pause is
    /// put in the cut.
    pub fn set_unpause(&mut self, pause_end: i64) -> (r: Result<(), FixMeLaterError>)
        requires
            old(self).wf(),
            valid_instant(pause_end as int),
            old(self).sections@.len() + 2 <= u32::MAX,
            old(self).pause_started matches Some(p) ==> old(self).end_instant() + (pause_end - p)
                <= MAX_INSTANT,
        ensures
            old(self).resume_ok(pause_end as int) ==> {
                &&& r is Ok
                &&& final(self).sections@ == old(self).resumed_sections(pause_end as int)
                &&& final(self).pause_started is None
                &&& final(self).start == old(self).start
                &&& final(self).active == old(self).active
            },
            !old(self).resume_ok(pause_end as int) ==> {
                &&& r == Err::<(), FixMeLaterError>(FixMeLaterError::PauseInvariantViolation)
                &&& *final(self) == *old(self)
            },
            final(self).wf(),
    {
        if let Some(pause_start) = self.pause_started {
            let sec = self.current_section(pause_start);
            if let CurrentSection::Section(s) = sec {
                let section_start_time = self.start_of(s);
                if pause_start <= section_start_time || pause_end <= pause_start {
                    return Err(FixMeLaterError::PauseInvariantViolation);
                }
                let old_section = self.sections[s];
                let new_section_dur = pause_start - section_start_time;
                proof {
                    lemma_spliced(
                        self.sections@,
                        s as int,
                        new_section_dur as int,
                        pause_end - pause_start,
                    );
                }
                self.sections.set(
                    s,
                    PomodoroSection { duration: new_section_dur, state: old_section.state },
                );
                self.sections.insert(
                    s + 1,
                    PomodoroSection { duration: pause_end - pause_start, state: PomodoroState::Break },
                );
                self.sections.insert(
                    s + 2,
                    PomodoroSection {
                        duration: old_section.duration - new_section_dur,
                        state: old_section.state,
                    },
                );
                proof {
                    assert(self.sections@ =~= spliced(
                        old(self).sections@,
                        s as int,
                        new_section_dur as int,
                        pause_end - pause_start,
                    ));
                }
            }
            self.pause_started = None;
        }
        Ok(())
    }
}

/// Some section window holds each instant from `section_start(k)` up to the
/// end of the session.
proof fn lemma_covered(p: Pomodoro, e: int, k: int)
    requires
        p.wf(),
        0 <= k <= p.sections@.len(),
        p.section_start(k) <= e < p.end_instant(),
    ensures
        exists|i: int| p.in_section(i, e),
    decreases p.sections@.len() - k,
{
    lemma_take_full(p.sections@);
    if k < p.sections@.len() {
        lemma_total_step(p.sections@, k);
        if e < p.section_start(k + 1) {
            assert(p.in_section(k, e));
        } else {
            lemma_covered(p, e, k + 1);
        }
    }
}

/// Where an instant falls is one of four outcomes, and exactly one. While the
/// session runs, the section windows follow one another without gap or
/// overlap from its start to its end, so an instant in that span lies in
/// exactly one window, and `section_at` names it.
pub proof fn law_section_at_partition(p: Pomodoro, t: int)
    requires
        p.wf(),
    ensures
        p.section_start(0) == p.start,
        p.section_start(p.sections@.len() as int) == p.end_instant(),
        forall|i: int|
            0 <= i < p.sections@.len() ==> p.section_start(i) + p.sections@[i].duration
                == #[trigger] p.section_start(i + 1),
        forall|i: int, j: int|
            p.in_section(i, p.effective(t)) && p.in_section(j, p.effective(t)) ==> i == j,
        (p.start <= p.effective(t) < p.end_instant()) ==> exists|i: int|
            p.in_section(i, p.effective(t)),
        (p.section_at(t) == CurrentSection::Inactive) <==> !p.active,
        (p.section_at(t) == CurrentSection::BeforeStart) <==> (p.active && p.effective(t)
            < p.start),
        (p.section_at(t) == CurrentSection::AferEnd) <==> (p.active && p.effective(t)
            >= p.end_instant()),
        (p.section_at(t) is Section) <==> (p.active && p.start <= p.effective(t)
            < p.end_instant()),
        p.section_at(t) matches CurrentSection::Section(i) ==> p.in_section(i as int, p.effective(t)),
{
    let e = p.effective(t);
    assert(p.sections@.take(0) =~= Seq::<PomodoroSection>::empty());
    lemma_take_full(p.sections@);
    lemma_total_mono(p.sections@, 0, p.sections@.len() as int);
    assert forall|i: int| 0 <= i < p.sections@.len() implies p.section_start(i)
        + p.sections@[i].duration == #[trigger] p.section_start(i + 1) by {
        lemma_total_step(p.sections@, i);
    }
    assert forall|i: int, j: int| p.in_section(i, e) && p.in_section(j, e) implies i == j by {
        p.lemma_in_section_unique(i, j, e);
    }
    if p.start <= e < p.end_instant() {
        lemma_covered(p, e, 0);
    }
}

/// Position of an outcome along a running session: before the start, then
/// each section in turn, then after the end.
pub open spec fn outcome_rank(p: Pomodoro, c: CurrentSection) -> int {
    match c {
        CurrentSection::Inactive => -1,
        CurrentSection::BeforeStart => 0,
        CurrentSection::Section(i) => i + 1,
        CurrentSection::AferEnd => p.sections@.len() as int + 1,
    }
}

/// While a session runs, where an instant falls never moves back as time
/// goes on.
pub proof fn law_section_at_monotonic(p: Pomodoro, t1: int, t2: int)
    requires
        p.wf(),
        p.active,
        t1 <= t2,
    ensures
        outcome_rank(p, p.section_at(t1)) <= outcome_rank(p, p.section_at(t2)),
{
    law_section_at_partition(p, t1);
    law_section_at_partition(p, t2);
    if let CurrentSection::Section(i) = p.section_at(t1) {
        if let CurrentSection::Section(j) = p.section_at(t2) {
            if j < i {
                lemma_total_step(p.sections@, j as int);
                lemma_total_mono(p.sections@, j as int + 1, i as int);
            }
        }
    }
}

/// While a running session is not paused and no section is empty, every
/// outcome is reached: before the start, each section from its first
/// instant, and after the end from the end on.
pub proof fn law_section_at_reaches_all(p: Pomodoro)
    requires
        p.wf(),
        p.active,
        p.pause_started is None,
        forall|k: int| 0 <= k < p.sections@.len() ==> #[trigger] p.sections@[k].duration > 0,
    ensures
        p.section_at(p.start - 1) == CurrentSection::BeforeStart,
        p.section_at(p.end_instant()) == CurrentSection::AferEnd,
        forall|i: int|
            0 <= i < p.sections@.len() ==> #[trigger] p.section_at(p.section_start(i))
                == CurrentSection::Section(i as usize),
{
    law_section_at_partition(p, p.start - 1);
    law_section_at_partition(p, p.end_instant());
    assert forall|i: int| 0 <= i < p.sections@.len() implies #[trigger] p.section_at(
        p.section_start(i),
    ) == CurrentSection::Section(i as usize) by {
        let e = p.section_start(i);
        assert(p.sections@.take(0) =~= Seq::<PomodoroSection>::empty());
        lemma_total_mono(p.sections@, 0, i);
        lemma_total_step(p.sections@, i);
        lemma_total_mono(p.sections@, i + 1, p.sections@.len() as int);
        lemma_take_full(p.sections@);
        assert(p.in_section(i, e));
        law_section_at_partition(p, e);
        let c = choose|j: int| p.in_section(j, e);
        p.lemma_in_section_unique(i, c, e);
    }
}

/// Pausing inside a section and resuming later keeps what the section held:
/// the pieces before and after the pause add up to the section that was cut,
/// the break between them is as long as the pause, and the session grows by
/// exactly that length.
pub proof fn law_pause_resume_conserves(p: Pomodoro, pause: i64, resume: i64)
    requires
        p.wf(),
        valid_instant(pause as int),
        p.with_pause(pause).section_at(pause as int) is Section,
        p.with_pause(pause).resume_ok(resume as int),
        resume - pause <= i64::MAX,
    ensures
        ({
            let q = p.with_pause(pause);
            let i = q.section_at(pause as int)->Section_0 as int;
            let r = q.resumed_sections(resume as int);
            &&& r.len() == p.sections@.len() + 2
            &&& total(r) == total(p.sections@) + (resume - pause)
            &&& r[i].duration + r[i + 2].duration == p.sections@[i].duration
            &&& r[i].state == p.sections@[i].state
            &&& r[i + 2].state == p.sections@[i].state
            &&& r[i + 1] == PomodoroSection {
                duration: (resume - pause) as i64,
                state: PomodoroState::Break,
            }
        }),
        ({
            let q = p.with_pause(pause);
            let i = q.section_at(pause as int)->Section_0 as int;
            let r = q.resumed_sections(resume as int);
            let s = p.sections@;
            &&& forall|k: int| 0 <= k <= i ==> #[trigger] r.take(k) == s.take(k)
            &&& forall|k: int| i < k < s.len() ==> #[trigger] r[k + 2] == s[k]
            &&& forall|k: int|
                i < k < s.len() ==> #[trigger] total(r.take(k + 2)) == total(s.take(k)) + (resume
                    - pause)
        }),
{
    let q = p.with_pause(pause);
    law_section_at_partition(q, pause as int);
    let i = q.section_at(pause as int)->Section_0 as int;
    let s = p.sections@;
    let pre = pause - q.section_start(i);
    let gap = resume - pause;
    lemma_spliced(s, i, pre, gap);
    let r = q.resumed_sections(resume as int);
    assert forall|k: int| 0 <= k <= i implies #[trigger] r.take(k) == s.take(k) by {
        assert(r.take(k) =~= s.take(k));
    }
    assert forall|k: int| i < k < s.len() implies #[trigger] r[k + 2] == s[k] by {}
    assert forall|k: int| i < k < s.len() implies #[trigger] total(r.take(k + 2)) == total(
        s.take(k),
    ) + gap by {
        let mid = seq![
            PomodoroSection { duration: pre as i64, state: s[i].state },
            PomodoroSection { duration: gap as i64, state: PomodoroState::Break },
            PomodoroSection { duration: (s[i].duration - pre) as i64, state: s[i].state },
        ];
        let one = seq![s[i]];
        let tail = s.skip(i + 1).take(k - i - 1);
        assert(r.take(k + 2) =~= s.take(i) + mid + tail);
        assert(s.take(k) =~= s.take(i) + one + tail);
        lemma_total_concat(s.take(i) + mid, tail);
        lemma_total_concat(s.take(i), mid);
        lemma_total_concat(s.take(i) + one, tail);
        lemma_total_concat(s.take(i), one);
        lemma_total_one(s[i]);
        lemma_total_three(mid[0], mid[1], mid[2]);
        assert(mid =~= seq![mid[0], mid[1], mid[2]]);
    }
}

/// Stopping a session twice leaves it as stopping it once.
pub proof fn law_stop_idempotent(p: Pomodoro)
    ensures
        p.with_active(false).with_active(false) == p.with_active(false),
{
}

} // verus!
