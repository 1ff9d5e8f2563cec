use vstd::prelude::*;
use vstd::string::StrSliceExecFns;

verus! {

pub open spec fn is_digit(c: char) -> bool {
    '0' <= c && c <= '9'
}

/// Value of a run of decimal digits, most significant first.
pub open spec fn digits_value(s: Seq<char>) -> int
    decreases s.len(),
{
    if s.len() == 0 {
        0
    } else {
        digits_value(s.drop_last()) * 10 + (s.last() as u32 - '0' as u32)
    }
}

/// The number that `s` writes in decimal, if it is a non-empty run of ASCII digits.
pub open spec fn decimal(s: Seq<char>) -> Option<int> {
    if 0 < s.len() && forall|i: int| 0 <= i < s.len() ==> is_digit(#[trigger] s[i]) {
        Some(digits_value(s))
    } else {
        None
    }
}

proof fn lemma_digits_value_nonneg(s: Seq<char>)
    requires
        forall|i: int| 0 <= i < s.len() ==> is_digit(#[trigger] s[i]),
    ensures
        0 <= digits_value(s),
    decreases s.len(),
{
    if s.len() > 0 {
        assert(is_digit(s[s.len() - 1]));
        lemma_digits_value_nonneg(s.drop_last());
    }
}

/// Reads `t` as a decimal number that fits in a `u64`.
pub fn parse_decimal(t: &str) -> (r: Option<u64>)
    ensures
        match r {
            Some(x) => decimal(t@) == Some(x as int),
            None => decimal(t@) is None || decimal(t@)->0 > u64::MAX,
        },
{
    let n = t.unicode_len();
    if n == 0 {
        return None;
    }
    let mut value: u64 = 0;
    let mut k: usize = 0;
    let mut fits = true;
    proof {
        assert(t@.take(0) =~= Seq::<char>::empty());
    }
    while k < n
        invariant
            n == t@.len(),
            k <= n,
            forall|i: int| 0 <= i < k ==> is_digit(#[trigger] t@[i]),
            fits ==> value == digits_value(t@.take(k as int)),
            !fits ==> digits_value(t@.take(k as int)) > u64::MAX,
        decreases n - k,
    {
        let c = t.get_char(k);
        if c < '0' || c > '9' {
            return None;
        }
        proof {
            assert(t@.take(k + 1).drop_last() =~= t@.take(k as int));
            assert forall|i: int| 0 <= i < t@.take(k as int).len() implies is_digit(
                #[trigger] t@.take(k as int)[i],
            ) by {
                assert(t@.take(k as int)[i] == t@[i]);
            }
            lemma_digits_value_nonneg(t@.take(k as int));
        }
        let dv = (c as u32 - '0' as u32) as u64;
        if fits {
            if value > (u64::MAX - dv) / 10 {
                fits = false;
            } else {
                value = value * 10 + dv;
            }
        }
        k = k + 1;
    }
    proof {
        assert(t@.take(n as int) =~= t@);
    }
    if fits {
        Some(value)
    } else {
        None
    }
}

} // verus!
