use vstd::prelude::*;

verus! {

/// Severity tier for a percentage value shown in a coverage report.
#[derive(Clone, Copy, Debug, PartialEq, Eq, Structural)]
pub enum Tier {
    Good,
    Warning,
    Critical,
}

/// A decimal digit character.
pub open spec fn is_digit(c: char) -> bool {
    '0' <= c && c <= '9'
}

pub open spec fn all_digits(s: Seq<char>) -> bool {
    forall|i: int| 0 <= i < s.len() ==> is_digit(#[trigger] s[i])
}

/// Numeric value of a single digit character.
pub open spec fn digit_val(c: char) -> int {
    c as int - '0' as int
}

/// Numeric value of a string of decimal digits.
pub open spec fn digits_val(s: Seq<char>) -> int
    decreases s.len(),
{
    if s.len() == 0 {
        0
    } else {
        digits_val(s.drop_last()) * 10 + digit_val(s.last())
    }
}

/// Do the fractional digits add anything beyond the integer part?
pub open spec fn frac_positive(f: Seq<char>) -> bool {
    exists|i: int| 0 <= i < f.len() && #[trigger] f[i] != '0'
}

/// The percentage written `<int_digits>.<frac>` is strictly above `bound`.
pub open spec fn pct_above(int_digits: Seq<char>, frac: Seq<char>, bound: int) -> bool {
    digits_val(int_digits) > bound || (digits_val(int_digits) == bound && frac_positive(frac))
}

/// Tier of a percentage: above 90 is good, above 75 is warning, the rest is
/// critical; both boundaries are exclusive.
pub open spec fn tier_for(int_digits: Seq<char>, frac: Seq<char>) -> Tier {
    if pct_above(int_digits, frac, 90) {
        Tier::Good
    } else if pct_above(int_digits, frac, 75) {
        Tier::Warning
    } else {
        Tier::Critical
    }
}

/// `x` held down to at most 100; enough to place a percentage in its tier.
pub open spec fn clamp100(x: int) -> int {
    if x > 100 {
        100
    } else {
        x
    }
}

/// Clamped numeric value of the digits `s[from..to]`, computed left to right.
fn clamped_digits_val(s: &str, from: usize, to: usize) -> (v: u32)
    requires
        from <= to <= s@.len(),
        all_digits(s@.subrange(from as int, to as int)),
    ensures
        v == clamp100(digits_val(s@.subrange(from as int, to as int))),
{
    let mut v: u32 = 0;
    let mut i: usize = from;
    while i < to
        invariant
            from <= i <= to <= s@.len(),
            all_digits(s@.subrange(from as int, to as int)),
            v == clamp100(digits_val(s@.subrange(from as int, i as int))),
        decreases to - i,
    {
        let c = s.get_char(i);
        proof {
            assert(s@.subrange(from as int, to as int)[i - from] == s@[i as int]);
            assert(s@.subrange(from as int, i + 1 as int).drop_last() =~= s@.subrange(
                from as int,
                i as int,
            ));
            assert(s@.subrange(from as int, i + 1 as int).last() == s@[i as int]);
        }
        let d: u32 = (c as u32) - 48;
        let step: u32 = v * 10 + d;
        let ghost full = digits_val(s@.subrange(from as int, i as int)) * 10 + digit_val(s@[i as int]);
        proof {
            if digits_val(s@.subrange(from as int, i as int)) > 100 {
                assert(full > 100) by (nonlinear_arith)
                    requires
                        full == digits_val(s@.subrange(from as int, i as int)) * 10 + digit_val(
                            s@[i as int],
                        ),
                        digits_val(s@.subrange(from as int, i as int)) > 100,
                        digit_val(s@[i as int]) >= 0,
                ;
            }
        }
        v = if step > 100 {
            100
        } else {
            step
        };
        i = i + 1;
    }
    proof {
        assert(s@.subrange(from as int, i as int) =~= s@.subrange(from as int, to as int));
    }
    v
}

/// Is any digit of `s[from..to]` other than zero?
fn has_nonzero_digit(s: &str, from: usize, to: usize) -> (b: bool)
    requires
        from <= to <= s@.len(),
    ensures
        b == frac_positive(s@.subrange(from as int, to as int)),
{
    let mut i: usize = from;
    while i < to
        invariant
            from <= i <= to <= s@.len(),
            !frac_positive(s@.subrange(from as int, i as int)),
        decreases to - i,
    {
        let c = s.get_char(i);
        if c as u32 != 48 {
            proof {
                assert(s@.subrange(from as int, to as int)[i - from] != '0');
            }
            return true;
        }
        proof {
            let pre = s@.subrange(from as int, i + 1 as int);
            assert forall|j: int| 0 <= j < pre.len() implies pre[j] == '0' by {
                if j < i - from {
                    assert(s@.subrange(from as int, i as int)[j] == pre[j]);
                }
            }
        }
        i = i + 1;
    }
    proof {
        assert(s@.subrange(from as int, i as int) =~= s@.subrange(from as int, to as int));
    }
    false
}

/// Tier of the percentage whose integer digits are `s[int_from..int_to]` and
/// whose fractional digits are `s[frac_from..frac_to]`.
pub fn tier_of_parts(
    s: &str,
    int_from: usize,
    int_to: usize,
    frac_from: usize,
    frac_to: usize,
) -> (t: Tier)
    requires
        int_from <= int_to <= s@.len(),
        frac_from <= frac_to <= s@.len(),
        all_digits(s@.subrange(int_from as int, int_to as int)),
    ensures
        t == tier_for(
            s@.subrange(int_from as int, int_to as int),
            s@.subrange(frac_from as int, frac_to as int),
        ),
{
    let v = clamped_digits_val(s, int_from, int_to);
    let frac_pos = has_nonzero_digit(s, frac_from, frac_to);
    if v > 90 || (v == 90 && frac_pos) {
        Tier::Good
    } else if v > 75 || (v == 75 && frac_pos) {
        Tier::Warning
    } else {
        Tier::Critical
    }
}

} // verus!
