//! Durations written as runs of a number and a unit, such as `1week` or
//! `2h30m`, read as a number of seconds.

use vstd::prelude::*;
use crate::sanitize::is_digit;
use crate::text::chars_of;
use crate::youtube::decimal_value;

verus! {

/// The longest duration accepted, in seconds (the range of a millisecond count in 64 bits).
pub const MAX_SECONDS: u64 = 9_223_372_036_854_775;

pub open spec fn is_letter(c: char) -> bool {
    (0x41 <= (c as u32) <= 0x5a) || (0x61 <= (c as u32) <= 0x7a)
}

/// `a` is the lowercase letter `b` in either case.
pub open spec fn same_letter(a: char, b: char) -> bool {
    a == b || (a as u32) + 32 == (b as u32)
}

/// `u` spells the lowercase word `w`, ignoring case.
pub open spec fn spells(u: Seq<char>, w: Seq<char>) -> bool {
    u.len() == w.len() && forall|i: int| 0 <= i < u.len() ==> same_letter(#[trigger] u[i], w[i])
}

/// Seconds per unit; unknown units count for nothing.
pub open spec fn unit_seconds(u: Seq<char>) -> int {
    if spells(u, "s"@) || spells(u, "second"@) || spells(u, "seconds"@) {
        1
    } else if spells(u, "m"@) || spells(u, "minute"@) || spells(u, "minutes"@) {
        60
    } else if spells(u, "h"@) || spells(u, "hour"@) || spells(u, "hours"@) {
        3600
    } else if spells(u, "d"@) || spells(u, "day"@) || spells(u, "days"@) {
        86400
    } else if spells(u, "w"@) || spells(u, "week"@) || spells(u, "weeks"@) {
        604800
    } else {
        0
    }
}

/// How many digits end just before position `k`.
pub open spec fn digits_before(s: Seq<char>, k: int) -> nat
    decreases k,
{
    if 0 < k <= s.len() && is_digit(s[k - 1]) {
        1 + digits_before(s, k - 1)
    } else {
        0
    }
}

/// Where the run of letters starting at `k` ends.
pub open spec fn letters_end(s: Seq<char>, k: int) -> int
    decreases s.len() - k,
{
    if 0 <= k < s.len() && is_letter(s[k]) {
        letters_end(s, k + 1)
    } else {
        k
    }
}

/// A unit starts at `k`: a run of letters right after a run of digits.
pub open spec fn unit_starts(s: Seq<char>, k: int) -> bool {
    0 < k < s.len() && is_letter(s[k]) && is_digit(s[k - 1])
}

/// The number just before position `k`.
pub open spec fn number_before(s: Seq<char>, k: int) -> int {
    decimal_value(s.subrange(k - digits_before(s, k), k))
}

/// The seconds a number-and-unit pair whose unit starts at `k` stands for.
pub open spec fn pair_seconds(s: Seq<char>, k: int) -> int {
    if unit_starts(s, k) {
        number_before(s, k) * unit_seconds(s.subrange(k, letters_end(s, k)))
    } else {
        0
    }
}

/// The seconds of the pairs whose units start before position `n`.
pub open spec fn seconds_upto(s: Seq<char>, n: int) -> int
    decreases n,
{
    if n <= 0 {
        0
    } else {
        seconds_upto(s, n - 1) + pair_seconds(s, n - 1)
    }
}

/// The total of every number-and-unit pair in the text.
pub open spec fn duration_seconds(s: Seq<char>) -> int {
    seconds_upto(s, s.len() as int)
}

proof fn lemma_decimal_nonneg(s: Seq<char>)
    requires
        forall|i: int| 0 <= i < s.len() ==> is_digit(#[trigger] s[i]),
    ensures
        decimal_value(s) >= 0,
    decreases s.len(),
{
    if s.len() > 0 {
        lemma_decimal_nonneg(s.drop_last());
    }
}

proof fn lemma_digits_before(s: Seq<char>, k: int)
    requires
        0 <= k <= s.len(),
    ensures
        digits_before(s, k) <= k,
        forall|j: int| k - digits_before(s, k) <= j < k ==> is_digit(#[trigger] s[j]),
    decreases k,
{
    if 0 < k && is_digit(s[k - 1]) {
        lemma_digits_before(s, k - 1);
    }
}

proof fn lemma_pair_nonneg(s: Seq<char>, k: int)
    requires
        0 <= k <= s.len(),
    ensures
        pair_seconds(s, k) >= 0,
{
    if unit_starts(s, k) {
        lemma_digits_before(s, k);
        let t = s.subrange(k - digits_before(s, k), k);
        assert forall|i: int| 0 <= i < t.len() implies is_digit(#[trigger] t[i]) by {
            assert(t[i] == s[k - digits_before(s, k) + i]);
        }
        lemma_decimal_nonneg(t);
        let u = unit_seconds(s.subrange(k, letters_end(s, k)));
        assert(u >= 0);
        assert(number_before(s, k) * u >= 0) by (nonlinear_arith)
            requires number_before(s, k) >= 0, u >= 0;
    }
}

proof fn lemma_upto_monotone(s: Seq<char>, a: int, b: int)
    requires
        0 <= a <= b <= s.len(),
    ensures
        seconds_upto(s, a) <= seconds_upto(s, b),
    decreases b - a,
{
    if a < b {
        lemma_upto_monotone(s, a, b - 1);
        lemma_pair_nonneg(s, b - 1);
    }
}

proof fn lemma_letters_end(s: Seq<char>, k: int)
    requires
        0 <= k <= s.len(),
    ensures
        k <= letters_end(s, k) <= s.len(),
    decreases s.len() - k,
{
    if k < s.len() && is_letter(s[k]) {
        lemma_letters_end(s, k + 1);
    }
}

fn is_letter_exec(c: char) -> (r: bool)
    ensures
        r == is_letter(c),
{
    let u = c as u32;
    (0x41 <= u && u <= 0x5a) || (0x61 <= u && u <= 0x7a)
}

fn is_digit_exec(c: char) -> (r: bool)
    ensures
        r == is_digit(c),
{
    let u = c as u32;
    0x30 <= u && u <= 0x39
}

/// Whether `s[a..b]` spells the lowercase word `w`.
fn spells_exec(s: &Vec<char>, a: usize, b: usize, w: &str) -> (r: bool)
    requires
        a <= b <= s.len(),
    ensures
        r == spells(s@.subrange(a as int, b as int), w@),
{
    let wc = chars_of(w);
    let ghost u = s@.subrange(a as int, b as int);
    if b - a != wc.len() {
        return false;
    }
    let mut i: usize = 0;
    while i < wc.len()
        invariant
            a <= b <= s.len(),
            b - a == wc.len(),
            wc@ == w@,
            u == s@.subrange(a as int, b as int),
            0 <= i <= wc.len(),
            forall|j: int| 0 <= j < i ==> same_letter(#[trigger] u[j], wc@[j]),
        decreases wc.len() - i,
    {
        let x = s[a + i];
        let y = wc[i];
        if !(x == y || ((y as u32) >= 32 && (x as u32) == (y as u32) - 32)) {
            proof {
                assert(u[i as int] == x);
            }
            return false;
        }
        proof {
            assert(u[i as int] == x);
        }
        i = i + 1;
    }
    true
}

fn unit_seconds_exec(s: &Vec<char>, a: usize, b: usize) -> (r: u128)
    requires
        a <= b <= s.len(),
    ensures
        r == unit_seconds(s@.subrange(a as int, b as int)),
{
    if spells_exec(s, a, b, "s") || spells_exec(s, a, b, "second") || spells_exec(s, a, b, "seconds") {
        1
    } else if spells_exec(s, a, b, "m") || spells_exec(s, a, b, "minute") || spells_exec(s, a, b, "minutes") {
        60
    } else if spells_exec(s, a, b, "h") || spells_exec(s, a, b, "hour") || spells_exec(s, a, b, "hours") {
        3600
    } else if spells_exec(s, a, b, "d") || spells_exec(s, a, b, "day") || spells_exec(s, a, b, "days") {
        86400
    } else if spells_exec(s, a, b, "w") || spells_exec(s, a, b, "week") || spells_exec(s, a, b, "weeks") {
        604800
    } else {
        0
    }
}

/// Reads a duration such as `1week`, `36h` or `2hours30minutes`: every run of
/// digits directly followed by a run of letters is a number and its unit
/// (`s`, `m`, `h`, `d`, `w`, or those words, singular or plural, in any case);
/// unknown units and everything else count for nothing. `None` when the total
/// is above `MAX_SECONDS`.
pub fn parse_duration(text: &str) -> (r: Option<i64>)
    ensures
        duration_seconds(text@) <= MAX_SECONDS ==> r == Some(duration_seconds(text@) as i64),
        duration_seconds(text@) > MAX_SECONDS ==> r is None,
{
    let s = chars_of(text);
    let n = s.len();
    let cap: u128 = MAX_SECONDS as u128 + 1;
    let mut total: u128 = 0;
    let mut run: u128 = 0;
    let mut k: usize = 0;
    while k < n
        invariant
            n == s.len(),
            s@ == text@,
            cap == MAX_SECONDS + 1,
            0 <= k <= n,
            total == seconds_upto(s@, k as int),
            total <= MAX_SECONDS,
            run == (if number_before(s@, k as int) < cap { number_before(s@, k as int) } else { cap as int }),
        decreases n - k,
    {
        let c = s[k];
        proof {
            lemma_digits_before(s@, k as int);
        }
        if k > 0 && is_letter_exec(c) && is_digit_exec(s[k - 1]) {
            let mut e: usize = k;
            while e < n && is_letter_exec(s[e])
                invariant
                    n == s.len(),
                    k <= e <= n,
                    letters_end(s@, k as int) == letters_end(s@, e as int),
                decreases n - e,
            {
                e = e + 1;
            }
            proof {
                lemma_letters_end(s@, k as int);
            }
            let unit = unit_seconds_exec(&s, k, e);
            proof {
                assert(unit_starts(s@, k as int));
                lemma_pair_nonneg(s@, k as int);
            }
            if unit > 0 {
                if run >= cap {
                    proof {
                        assert(pair_seconds(s@, k as int) >= number_before(s@, k as int)) by (nonlinear_arith)
                            requires
                                pair_seconds(s@, k as int) == number_before(s@, k as int) * unit,
                                unit >= 1,
                                number_before(s@, k as int) >= 0;
                        lemma_upto_monotone(s@, k + 1, n as int);
                    }
                    return None;
                }
                assert(run * unit <= cap * 604800) by (nonlinear_arith)
                    requires run < cap, unit <= 604800;
                let term = run * unit;
                if total + term > MAX_SECONDS as u128 {
                    proof {
                        lemma_upto_monotone(s@, k + 1, n as int);
                    }
                    return None;
                }
                total = total + term;
            }
        }
        let ghost old_k = k;
        if is_digit_exec(c) {
            let d = (c as u32 - 0x30) as u128;
            run = if run >= cap {
                cap
            } else if run * 10 + d >= cap {
                cap
            } else {
                run * 10 + d
            };
        } else {
            run = 0;
        }
        k = k + 1;
        proof {
            let start = k - digits_before(s@, k as int);
            if is_digit(c) {
                assert(digits_before(s@, k as int) == 1 + digits_before(s@, old_k as int));
                let t = s@.subrange(start, k as int);
                assert(t.drop_last() =~= s@.subrange(start, old_k as int));
                assert(t.last() == c);
                assert(number_before(s@, k as int) == number_before(s@, old_k as int) * 10 + (c as u32 - 0x30));
                if number_before(s@, old_k as int) >= cap {
                    assert(number_before(s@, k as int) >= cap) by (nonlinear_arith)
                        requires
                            number_before(s@, k as int) == number_before(s@, old_k as int) * 10 + (c as u32 - 0x30),
                            number_before(s@, old_k as int) >= cap,
                            (c as u32 - 0x30) >= 0;
                }
            } else {
                assert(digits_before(s@, k as int) == 0);
                assert(s@.subrange(k as int, k as int).len() == 0);
            }
        }
    }
    Some(total as i64)
}

} // verus!
