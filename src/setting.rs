use vstd::prelude::*;

use crate::decimal::{decimal, parse_decimal};
use crate::error::FixMeLaterError;
use crate::pomo::{Pomodoro, PomodoroSection, PomodoroState};
use crate::timeline::{total, valid_instant, works, MAX_INSTANT};

verus! {

/// Number of work stretches where the description gives none.
pub const DEFAULT_REPETITIONS: u64 = 4;

/// Work minutes where the description gives none.
pub const DEFAULT_WORK_MINUTES: u64 = 40;

/// Break minutes where the description gives none.
pub const DEFAULT_BREAK_MINUTES: u64 = 10;

/// Where a description such as `4p45b15` gives the number of work stretches.
pub const REPETITIONS_PATTERN: &'static str = "^(\\d+)";

/// Where a description gives the work minutes.
pub const WORK_TIME_PATTERN: &'static str = "p(\\d+)";

/// Where a description gives the break minutes.
pub const BREAK_TIME_PATTERN: &'static str = "b(\\d+)$";

/// The text of the first group of the leftmost match of regular expression
/// `pattern` in `text`, if the pattern compiles and matches.
pub uninterp spec fn first_group(pattern: Seq<char>, text: Seq<char>) -> Option<Seq<char>>;

pub open spec fn opt_view(o: Option<String>) -> Option<Seq<char>> {
    match o {
        Some(t) => Some(t@),
        None => None,
    }
}

/// Relies on `regex::Regex::new` and `Regex::captures`: compiles `pattern`
/// and hands back the text of group one of the leftmost match in `text`.
#[verifier::external_body]
fn capture_group(pattern: &str, text: &str) -> (r: Option<String>)
    ensures
        opt_view(r) == first_group(pattern@, text@),
{
    let re = regex::Regex::new(pattern).ok()?;
    let caps = re.captures(text)?;
    let m = caps.get(1)?;
    Some(m.as_str().to_string())
}

/// The number a field gives: the decimal text found, or `default` where the
/// field is absent.
pub open spec fn field_value(g: Option<Seq<char>>, default: int) -> Option<int> {
    match g {
        Some(t) => decimal(t),
        None => Some(default),
    }
}

/// The parameters that the three fields of a description give.
pub open spec fn setting_from_fields(
    reps: Option<Seq<char>>,
    work: Option<Seq<char>>,
    brk: Option<Seq<char>>,
    start: i64,
) -> Result<PomodoroSetting, FixMeLaterError> {
    let r = field_value(reps, DEFAULT_REPETITIONS as int);
    let w = field_value(work, DEFAULT_WORK_MINUTES as int);
    let b = field_value(brk, DEFAULT_BREAK_MINUTES as int);
    if r is Some && w is Some && b is Some && r->0 <= u32::MAX && w->0 * 60 <= MAX_SPAN && b->0
        * 60 <= MAX_SPAN {
        Ok(
            PomodoroSetting {
                start,
                repetitions: r->0 as u32,
                work_time: (w->0 * 60) as i64,
                break_time: (b->0 * 60) as i64,
            },
        )
    } else {
        Err(FixMeLaterError::InvalidDescription)
    }
}

fn field(g: &Option<String>, default: u64) -> (r: Option<u64>)
    ensures
        match r {
            Some(x) => field_value(opt_view(*g), default as int) == Some(x as int),
            None => field_value(opt_view(*g), default as int) is None || field_value(
                opt_view(*g),
                default as int,
            )->0 > u64::MAX,
        },
{
    match g {
        Some(t) => parse_decimal(t.as_str()),
        None => Some(default),
    }
}

/// Largest number of minutes in a work or break stretch: the most whole
/// minutes whose milliseconds fit in an `i64`.
pub const MAX_MINUTES: u64 = 153_722_867_280_912;

/// Largest length, in seconds, of a work or break stretch: `MAX_MINUTES`
/// minutes.
pub const MAX_SPAN: i64 = 9_223_372_036_854_720;

/// The parameters from which a session is built.
pub struct PomodoroSetting {
    /// Instant at which the session begins.
    pub start: i64,
    /// Number of work stretches.
    pub repetitions: u32,
    /// Length of each work stretch, in seconds.
    pub work_time: i64,
    /// Length of each break between two work stretches, in seconds.
    pub break_time: i64,
}

/// The first `n` sections of a session that alternates work stretches of `w`
/// seconds and breaks of `b` seconds, starting with work.
pub open spec fn alternating(n: int, w: i64, b: i64) -> Seq<PomodoroSection> {
    Seq::new(
        n as nat,
        |i: int|
            if i % 2 == 0 {
                PomodoroSection { duration: w, state: PomodoroState::Work }
            } else {
                PomodoroSection { duration: b, state: PomodoroState::Break }
            },
    )
}

/// Number of sections in a session of `r` work stretches.
pub open spec fn built_len(r: int) -> int {
    if r == 0 {
        0
    } else {
        2 * r - 1
    }
}

/// Work length that fits `r` work stretches and the `r - 1` breaks of `b`
/// seconds between them into `d` seconds, each quotient rounded down.
pub open spec fn fitted_work(d: int, b: int, r: int) -> int {
    d / r - (b * (r - 1)) / r
}

/// How far the fitted work length for `r` stretches is from `w0`.
pub open spec fn work_gap(d: int, b: int, w0: int, r: int) -> int {
    let x = fitted_work(d, b, r) - w0;
    if x < 0 {
        -x
    } else {
        x
    }
}

/// `r` is the first count, going up from one, after which the gap stops
/// shrinking.
pub open spec fn first_local_min(d: int, b: int, w0: int, r: int) -> bool {
    &&& r >= 1
    &&& work_gap(d, b, w0, r + 1) >= work_gap(d, b, w0, r)
    &&& forall|k: int| 1 <= k < r ==> #[trigger] work_gap(d, b, w0, k + 1) < work_gap(d, b, w0, k)
}

/// The repetition count that the search for an end instant settles on.
pub open spec fn fit_reps(d: int, b: int, w0: int) -> int {
    choose|r: int| first_local_min(d, b, w0, r)
}

proof fn lemma_first_local_min_unique(d: int, b: int, w0: int, r1: int, r2: int)
    requires
        first_local_min(d, b, w0, r1),
        first_local_min(d, b, w0, r2),
    ensures
        r1 == r2,
{
    if r1 < r2 {
        assert(work_gap(d, b, w0, r1 + 1) < work_gap(d, b, w0, r1));
    } else if r2 < r1 {
        assert(work_gap(d, b, w0, r2 + 1) < work_gap(d, b, w0, r2));
    }
}

fn fit_work(d: u128, b: u128, r: u128) -> (w: i128)
    requires
        1 <= r <= 0x1000_0000_0000_0000,
        d <= MAX_SPAN,
        b <= MAX_SPAN,
    ensures
        w == fitted_work(d as int, b as int, r as int),
        w <= d,
        w >= -(b as int),
{
    assert(b * (r - 1) <= 0x40_0000_0000_0000 * 0x1000_0000_0000_0000) by (nonlinear_arith)
        requires
            b <= 0x40_0000_0000_0000,
            r - 1 <= 0x1000_0000_0000_0000,
            r >= 1,
    ;
    assert(d / r <= d) by (nonlinear_arith)
        requires
            r >= 1,
            d >= 0,
    ;
    assert((b as int * (r as int - 1)) / (r as int) <= b as int) by (nonlinear_arith)
        requires
            r >= 1,
            b >= 0,
    ;
    (d / r) as i128 - ((b * (r - 1)) / r) as i128
}

fn gap_of(d: u128, b: u128, w0: i128, r: u128) -> (g: i128)
    requires
        1 <= r <= 0x1000_0000_0000_0000,
        d <= MAX_SPAN,
        b <= MAX_SPAN,
        0 <= w0 <= MAX_SPAN,
    ensures
        g == work_gap(d as int, b as int, w0 as int, r as int),
{
    let x = fit_work(d, b, r) - w0;
    if x < 0 {
        -x
    } else {
        x
    }
}

impl PomodoroSetting {
    pub open spec fn wf(self) -> bool {
        &&& valid_instant(self.start as int)
        &&& 0 <= self.work_time <= MAX_SPAN
        &&& 0 <= self.break_time <= MAX_SPAN
    }

    /// The parameters fitted to end at `end_time`: see `adjust_end_to`.
    pub open spec fn adjusted(self, end_time: int) -> Result<PomodoroSetting, FixMeLaterError> {
        if end_time <= self.start {
            Err(FixMeLaterError::InvalidTimeRange)
        } else {
            let d = end_time - self.start;
            let reps = fit_reps(d, self.break_time as int, self.work_time as int);
            let w = fitted_work(d, self.break_time as int, reps);
            if 0 < w && reps <= u32::MAX {
                Ok(PomodoroSetting { repetitions: reps as u32, work_time: w as i64, ..self })
            } else {
                Err(FixMeLaterError::InvalidFit)
            }
        }
    }

    /// `p` is the fresh session that these parameters describe.
    pub open spec fn builds(self, p: Pomodoro) -> bool {
        &&& p.sections@ == alternating(
            built_len(self.repetitions as int),
            self.work_time,
            self.break_time,
        )
        &&& p.start == self.start
        &&& p.active
        &&& p.pause_started is None
    }

    /// The session fits in the instants that the library handles, and its
    /// sections can be counted in a `u32`.
    pub open spec fn buildable(self) -> bool {
        &&& self.wf()
        &&& self.start + self.span() <= MAX_INSTANT
        &&& self.repetitions <= i32::MAX
    }

    /// Length of the session that these parameters describe.
    pub open spec fn span(self) -> int {
        if self.repetitions == 0 {
            0
        } else {
            self.repetitions * self.work_time + (self.repetitions - 1) * self.break_time
        }
    }

    /// Builds the session: work and break stretches in turn, starting and
    /// ending with work, running and not paused.
    pub fn to_pomodoro(&self) -> (r: Pomodoro)
        requires
            self.buildable(),
        ensures
            self.builds(r),
            works(r.sections@) == self.repetitions,
            total(r.sections@) == self.span(),
            r.wf(),
    {
        let mut pomo = Pomodoro { sections: Vec::new(), start: self.start, active: true, pause_started: None };
        let reps = self.repetitions;
        let w = self.work_time;
        let b = self.break_time;
        let mut i: u32 = 0;
        let ghost mut breaks: int = 0;
        while i < reps
            invariant
                i <= reps,
                reps == self.repetitions,
                w == self.work_time,
                b == self.break_time,
                self.wf(),
                pomo.start == self.start,
                pomo.active,
                pomo.pause_started is None,
                breaks == (if i == 0 { 0 } else if i == reps { i - 1 } else { i as int }),
                pomo.sections@ == alternating(i + breaks, w, b),
                works(pomo.sections@) == i,
                total(pomo.sections@) == i * w + breaks * b,
            decreases reps - i,
        {
            let ghost before = pomo.sections@;
            pomo.sections.push(PomodoroSection { duration: w, state: PomodoroState::Work });
            proof {
                assert(pomo.sections@.drop_last() == before);
                assert(total(pomo.sections@) == total(before) + w);
                assert(works(pomo.sections@) == works(before) + 1);
                assert(pomo.sections@ =~= alternating(i + breaks + 1, w, b));
                assert((i + 1) * w == i * w + w) by (nonlinear_arith);
            }
            if i < reps - 1 {
                let ghost before2 = pomo.sections@;
                pomo.sections.push(PomodoroSection { duration: b, state: PomodoroState::Break });
                proof {
                    assert(pomo.sections@.drop_last() == before2);
                    assert(total(pomo.sections@) == total(before2) + b);
                    assert(works(pomo.sections@) == works(before2));
                    assert(pomo.sections@ =~= alternating(i + breaks + 2, w, b));
                    assert((breaks + 1) * b == breaks * b + b) by (nonlinear_arith);
                    breaks = breaks + 1;
                }
            }
            i = i + 1;
        }
        proof {
            assert forall|k: int| 0 <= k < pomo.sections@.len() implies pomo.sections@[k].duration
                >= 0 by {}
        }
        pomo
    }

    /// Picks the repetition count and work length that make the session end
    /// at `end_time`, keeping the break length. Counts are tried going up from
    /// one, and the search stops once the fitted work length stops getting
    /// closer to the current one. Changes nothing and fails with
    /// `InvalidTimeRange` where `end_time` is not after the start, and with
    /// `InvalidFit` where the fit gives no positive work length or more
    /// repetitions than a `u32` holds.
    pub fn adjust_end_to(&mut self, end_time: i64) -> (r: Result<(), FixMeLaterError>)
        requires
            old(self).wf(),
            valid_instant(end_time as int),
        ensures
            match old(self).adjusted(end_time as int) {
                Ok(fitted) => r is Ok && *final(self) == fitted,
                Err(e) => r == Err::<(), FixMeLaterError>(e) && *final(self) == *old(self),
            },
            final(self).wf(),
    {
        if end_time <= self.start {
            return Err(FixMeLaterError::InvalidTimeRange);
        }
        let d = (end_time - self.start) as u128;
        let b = self.break_time as u128;
        let w0 = self.work_time as i128;
        let mut reps: u128 = 1;
        let mut gap = gap_of(d, b, w0, 1);
        let ghost gap1 = gap as int;
        proof {
            assert(gap1 <= 0x80_0000_0000_0000);
        }
        let mut next = gap_of(d, b, w0, 2);
        while next < gap
            invariant
                d == end_time - self.start,
                d <= MAX_SPAN,
                b == self.break_time,
                w0 == self.work_time,
                self.wf(),
                reps >= 1,
                reps - 1 <= gap1 - gap,
                gap1 <= 0x80_0000_0000_0000,
                gap == work_gap(d as int, b as int, w0 as int, reps as int),
                next == work_gap(d as int, b as int, w0 as int, reps + 1),
                forall|k: int|
                    1 <= k < reps ==> #[trigger] work_gap(d as int, b as int, w0 as int, k + 1)
                        < work_gap(d as int, b as int, w0 as int, k),
            decreases gap,
        {
            reps = reps + 1;
            gap = next;
            next = gap_of(d, b, w0, reps + 1);
        }
        proof {
            assert(first_local_min(d as int, b as int, w0 as int, reps as int));
            let c = fit_reps(d as int, b as int, w0 as int);
            lemma_first_local_min_unique(d as int, b as int, w0 as int, c, reps as int);
        }
        let w = fit_work(d, b, reps);
        if w <= 0 || reps > u32::MAX as u128 {
            return Err(FixMeLaterError::InvalidFit);
        }
        self.repetitions = reps as u32;
        self.work_time = w as i64;
        Ok(())
    }

    /// Builds parameters from the three fields of a description: the number
    /// of work stretches, the work minutes and the break minutes, each
    /// absent or the decimal text found.
    pub fn from_groups(
        reps: Option<String>,
        work: Option<String>,
        brk: Option<String>,
        start: i64,
    ) -> (r: Result<PomodoroSetting, FixMeLaterError>)
        ensures
            r == setting_from_fields(opt_view(reps), opt_view(work), opt_view(brk), start),
            valid_instant(start as int) ==> (r matches Ok(s) ==> s.wf()),
    {
        let r = field(&reps, DEFAULT_REPETITIONS);
        let w = field(&work, DEFAULT_WORK_MINUTES);
        let b = field(&brk, DEFAULT_BREAK_MINUTES);
        match (r, w, b) {
            (Some(r), Some(w), Some(b)) => {
                if r > u32::MAX as u64 || w > MAX_MINUTES || b > MAX_MINUTES {
                    return Err(FixMeLaterError::InvalidDescription);
                }
                Ok(
                    PomodoroSetting {
                        start,
                        repetitions: r as u32,
                        work_time: (w * 60) as i64,
                        break_time: (b * 60) as i64,
                    },
                )
            },
            _ => Err(FixMeLaterError::InvalidDescription),
        }
    }

    /// Reads a description such as `4p45b15`: 4 work stretches of 45 minutes
    /// with breaks of 15 minutes. A missing field takes its default.
    pub fn from_string(s: &str, start: i64) -> (r: Result<PomodoroSetting, FixMeLaterError>)
        ensures
            r == setting_from_fields(
                first_group(REPETITIONS_PATTERN@, s@),
                first_group(WORK_TIME_PATTERN@, s@),
                first_group(BREAK_TIME_PATTERN@, s@),
                start,
            ),
            valid_instant(start as int) ==> (r matches Ok(v) ==> v.wf()),
    {
        let reps = capture_group(REPETITIONS_PATTERN, s);
        let work = capture_group(WORK_TIME_PATTERN, s);
        let brk = capture_group(BREAK_TIME_PATTERN, s);
        Self::from_groups(reps, work, brk, start)
    }
}

} // verus!
