use vstd::prelude::*;
use vstd::string::StringExecFns;

use crate::pomo::{CurrentPomoState, PomodoroState};

verus! {

pub open spec fn digit_char(d: nat) -> char {
    if d == 0 {
        '0'
    } else if d == 1 {
        '1'
    } else if d == 2 {
        '2'
    } else if d == 3 {
        '3'
    } else if d == 4 {
        '4'
    } else if d == 5 {
        '5'
    } else if d == 6 {
        '6'
    } else if d == 7 {
        '7'
    } else if d == 8 {
        '8'
    } else {
        '9'
    }
}

/// `n` written in decimal, with no leading zero.
pub open spec fn decimal_text(n: nat) -> Seq<char>
    decreases n,
{
    if n < 10 {
        seq![digit_char(n)]
    } else {
        decimal_text(n / 10) + seq![digit_char(n % 10)]
    }
}

/// `n` written in decimal with at least two digits.
pub open spec fn two_digit_text(n: nat) -> Seq<char> {
    if n < 10 {
        seq!['0'] + decimal_text(n)
    } else {
        decimal_text(n)
    }
}

/// A length of `d` seconds as hours, minutes and seconds: `HH:MM:SS`.
pub open spec fn duration_text(d: nat) -> Seq<char> {
    two_digit_text(d / 3600) + seq![':'] + two_digit_text((d / 60) % 60) + seq![':']
        + two_digit_text(d % 60)
}

pub open spec fn state_name(s: PomodoroState) -> Seq<char> {
    match s {
        PomodoroState::NotStarted => "not started"@,
        PomodoroState::Work => "work"@,
        PomodoroState::Break => "break"@,
        PomodoroState::Done => "done"@,
    }
}

/// The status line of a session: the current kind, the time left in it,
/// the kind that comes next where it differs, the repetitions done out of
/// all, and whether the session is paused.
pub open spec fn status_text(s: CurrentPomoState) -> Seq<char> {
    let duration = if s.current_state != PomodoroState::Done {
        duration_text(s.duration as nat) + " "@
    } else {
        Seq::empty()
    };
    let next = if s.next_state != s.current_state {
        "(-> "@ + state_name(s.next_state) + ") "@
    } else {
        Seq::empty()
    };
    let pause = if s.pause {
        " (paused)"@
    } else {
        Seq::empty()
    };
    state_name(s.current_state) + " "@ + duration + next + decimal_text(
        s.completed_repetitions as nat,
    ) + "/"@ + decimal_text(s.total_repetitions as nat) + pause
}

fn digit_str(d: u64) -> (r: &'static str)
    requires
        d < 10,
    ensures
        r@ == seq![digit_char(d as nat)],
{
    proof {
        reveal_strlit("0");
        reveal_strlit("1");
        reveal_strlit("2");
        reveal_strlit("3");
        reveal_strlit("4");
        reveal_strlit("5");
        reveal_strlit("6");
        reveal_strlit("7");
        reveal_strlit("8");
        reveal_strlit("9");
    }
    match d {
        0 => "0",
        1 => "1",
        2 => "2",
        3 => "3",
        4 => "4",
        5 => "5",
        6 => "6",
        7 => "7",
        8 => "8",
        _ => "9",
    }
}

fn append_decimal(out: &mut String, n: u64)
    ensures
        final(out)@ == old(out)@ + decimal_text(n as nat),
    decreases n,
{
    if n >= 10 {
        append_decimal(out, n / 10);
    }
    out.append(digit_str(n % 10));
    proof {
        assert(final(out)@ =~= old(out)@ + decimal_text(n as nat));
    }
}

fn append_two_digits(out: &mut String, n: u64)
    ensures
        final(out)@ == old(out)@ + two_digit_text(n as nat),
{
    if n < 10 {
        out.append("0");
        proof {
            reveal_strlit("0");
        }
    }
    append_decimal(out, n);
    proof {
        assert(final(out)@ =~= old(out)@ + two_digit_text(n as nat));
    }
}

/// Writes a length of `d` seconds as `HH:MM:SS`.
pub fn format_duration(d: i64) -> (r: String)
    requires
        d >= 0,
    ensures
        r@ == duration_text(d as nat),
{
    let d = d as u64;
    let mut out = String::new();
    append_two_digits(&mut out, d / 3600);
    out.append(":");
    append_two_digits(&mut out, (d / 60) % 60);
    out.append(":");
    append_two_digits(&mut out, d % 60);
    proof {
        reveal_strlit(":");
        assert(out@ =~= duration_text(d as nat));
    }
    out
}

impl PomodoroState {
    /// The kind's name as the status line shows it.
    pub fn name(&self) -> (r: &'static str)
        ensures
            r@ == state_name(*self),
    {
        match self {
            PomodoroState::NotStarted => "not started",
            PomodoroState::Work => "work",
            PomodoroState::Break => "break",
            PomodoroState::Done => "done",
        }
    }

    /// The kind's name as the status line shows it.
    pub fn to_string(&self) -> (r: String)
        ensures
            r@ == state_name(*self),
    {
        String::from_str(self.name())
    }
}

impl CurrentPomoState {
    /// The status line, such as `work 00:07:00 (-> break) 0/2`.
    pub fn to_string(&self) -> (r: String)
        requires
            self.duration >= 0,
        ensures
            r@ == status_text(*self),
    {
        let mut out = String::from_str(self.current_state.name());
        out.append(" ");
        if self.current_state != PomodoroState::Done {
            let d = format_duration(self.duration);
            out.append(d.as_str());
            out.append(" ");
        }
        if self.next_state != self.current_state {
            out.append("(-> ");
            out.append(self.next_state.name());
            out.append(") ");
        }
        append_decimal(&mut out, self.completed_repetitions as u64);
        out.append("/");
        append_decimal(&mut out, self.total_repetitions as u64);
        if self.pause {
            out.append(" (paused)");
        }
        proof {
            assert(out@ =~= status_text(*self));
        }
        out
    }
}

} // verus!
