use vstd::prelude::*;

use crate::pomo::{PomodoroSection, PomodoroState};

verus! {

/// Largest magnitude, in seconds, of an instant that the library handles.
pub const MAX_INSTANT: i64 = 4_503_599_627_370_496;

pub open spec fn valid_instant(t: int) -> bool {
    -MAX_INSTANT <= t <= MAX_INSTANT
}

/// Sum of the durations of a run of sections.
pub open spec fn total(s: Seq<PomodoroSection>) -> int
    decreases s.len(),
{
    if s.len() == 0 {
        0
    } else {
        total(s.drop_last()) + s.last().duration
    }
}

/// Number of work sections in a run of sections.
pub open spec fn works(s: Seq<PomodoroSection>) -> nat
    decreases s.len(),
{
    if s.len() == 0 {
        0
    } else {
        works(s.drop_last()) + if s.last().state == PomodoroState::Work {
            1nat
        } else {
            0nat
        }
    }
}

pub open spec fn durations_nonneg(s: Seq<PomodoroSection>) -> bool {
    forall|i: int| 0 <= i < s.len() ==> s[i].duration >= 0
}

pub proof fn lemma_total_step(s: Seq<PomodoroSection>, i: int)
    requires
        0 <= i < s.len(),
    ensures
        total(s.take(i + 1)) == total(s.take(i)) + s[i].duration,
        works(s.take(i + 1)) == works(s.take(i)) + if s[i].state == PomodoroState::Work {
            1nat
        } else {
            0nat
        },
{
    assert(s.take(i + 1).drop_last() =~= s.take(i));
}

pub proof fn lemma_take_full(s: Seq<PomodoroSection>)
    ensures
        s.take(s.len() as int) == s,
{
    assert(s.take(s.len() as int) =~= s);
}

/// With no negative duration, the start of a later section is not earlier.
pub proof fn lemma_total_mono(s: Seq<PomodoroSection>, i: int, j: int)
    requires
        durations_nonneg(s),
        0 <= i <= j <= s.len(),
    ensures
        total(s.take(i)) <= total(s.take(j)),
    decreases j - i,
{
    if i < j {
        lemma_total_mono(s, i, j - 1);
        lemma_total_step(s, j - 1);
    }
}

pub proof fn lemma_works_bound(s: Seq<PomodoroSection>)
    ensures
        works(s) <= s.len(),
    decreases s.len(),
{
    if s.len() > 0 {
        lemma_works_bound(s.drop_last());
    }
}

pub proof fn lemma_total_concat(a: Seq<PomodoroSection>, b: Seq<PomodoroSection>)
    ensures
        total(a + b) == total(a) + total(b),
        works(a + b) == works(a) + works(b),
    decreases b.len(),
{
    if b.len() == 0 {
        assert(a + b =~= a);
    } else {
        lemma_total_concat(a, b.drop_last());
        assert((a + b).drop_last() =~= a + b.drop_last());
    }
}

pub proof fn lemma_total_one(x: PomodoroSection)
    ensures
        total(seq![x]) == x.duration,
{
    assert(seq![x].drop_last() =~= Seq::<PomodoroSection>::empty());
    assert(total(seq![x].drop_last()) == 0);
}

pub proof fn lemma_total_three(x: PomodoroSection, y: PomodoroSection, z: PomodoroSection)
    ensures
        total(seq![x, y, z]) == x.duration + y.duration + z.duration,
{
    let s = seq![x, y, z];
    assert(s.drop_last() =~= seq![x, y]);
    assert(seq![x, y].drop_last() =~= seq![x]);
    lemma_total_one(x);
    assert(total(seq![x, y]) == x.duration + y.duration);
}

} // verus!
