//! Conversions between strings and character vectors.

use vstd::prelude::*;

verus! {

/// Relies on `str::chars` collected into a `Vec`: one element per character, in order.
#[verifier::external_body]
pub(crate) fn chars_of(s: &str) -> (r: Vec<char>)
    ensures
        r@ == s@,
{
    s.chars().collect()
}

/// Relies on collecting an iterator of characters into a `String`.
#[verifier::external_body]
pub(crate) fn string_of(v: &Vec<char>) -> (r: String)
    ensures
        r@ == v@,
{
    v.iter().collect()
}

/// Appends the characters of `s` to `out`.
pub(crate) fn push_str_chars(out: &mut Vec<char>, s: &str)
    ensures
        final(out)@ == old(out)@ + s@,
{
    let cs = chars_of(s);
    let mut i: usize = 0;
    while i < cs.len()
        invariant
            0 <= i <= cs.len(),
            cs@ == s@,
            out@ == old(out)@ + cs@.subrange(0, i as int),
        decreases cs.len() - i,
    {
        out.push(cs[i]);
        i = i + 1;
        proof {
            assert(cs@.subrange(0, i as int) =~= cs@.subrange(0, i - 1) + seq![cs@[i - 1]]);
        }
    }
    proof {
        assert(cs@.subrange(0, cs.len() as int) =~= cs@);
    }
}

/// The elements of `v` from `a` up to (not including) `b`.
pub(crate) fn copy_range<T: Copy>(v: &Vec<T>, a: usize, b: usize) -> (r: Vec<T>)
    requires
        a <= b <= v.len(),
    ensures
        r@ == v@.subrange(a as int, b as int),
{
    let mut r: Vec<T> = Vec::new();
    let mut i: usize = a;
    while i < b
        invariant
            a <= i <= b <= v.len(),
            r@ == v@.subrange(a as int, i as int),
        decreases b - i,
    {
        r.push(v[i]);
        i = i + 1;
        proof {
            assert(v@.subrange(a as int, i as int) =~= v@.subrange(a as int, i - 1).push(v@[i - 1]));
        }
    }
    r
}

/// Number of leading elements of `s` that satisfy `f`.
pub open spec fn lead_run<A>(s: Seq<A>, f: spec_fn(A) -> bool) -> nat
    decreases s.len(),
{
    if s.len() > 0 && f(s[0]) {
        1 + lead_run(s.drop_first(), f)
    } else {
        0
    }
}

/// Number of trailing elements of `s` that satisfy `f`.
pub open spec fn tail_run<A>(s: Seq<A>, f: spec_fn(A) -> bool) -> nat
    decreases s.len(),
{
    if s.len() > 0 && f(s.last()) {
        1 + tail_run(s.drop_last(), f)
    } else {
        0
    }
}

pub proof fn lemma_lead_run<A>(s: Seq<A>, f: spec_fn(A) -> bool, k: int)
    requires
        0 <= k <= s.len(),
        forall|j: int| 0 <= j < k ==> f(#[trigger] s[j]),
        k == s.len() || !f(s[k]),
    ensures
        lead_run(s, f) == k,
    decreases k,
{
    if k > 0 {
        let t = s.drop_first();
        assert forall|j: int| 0 <= j < k - 1 implies f(#[trigger] t[j]) by {
            assert(t[j] == s[j + 1]);
        }
        if k < s.len() {
            assert(t[k - 1] == s[k]);
        }
        lemma_lead_run(t, f, k - 1);
    }
}

pub proof fn lemma_tail_run<A>(s: Seq<A>, f: spec_fn(A) -> bool, k: int)
    requires
        0 <= k <= s.len(),
        forall|j: int| s.len() - k <= j < s.len() ==> f(#[trigger] s[j]),
        k == s.len() || !f(s[s.len() - k - 1]),
    ensures
        tail_run(s, f) == k,
    decreases k,
{
    if k > 0 {
        let t = s.drop_last();
        assert forall|j: int| t.len() - (k - 1) <= j < t.len() implies f(#[trigger] t[j]) by {
            assert(t[j] == s[j]);
        }
        if k < s.len() {
            assert(t[t.len() - (k - 1) - 1] == s[s.len() - k - 1]);
        }
        lemma_tail_run(t, f, k - 1);
    }
}

pub proof fn lemma_lead_run_props<A>(s: Seq<A>, f: spec_fn(A) -> bool)
    ensures
        lead_run(s, f) <= s.len(),
        forall|j: int| 0 <= j < lead_run(s, f) ==> f(#[trigger] s[j]),
        lead_run(s, f) < s.len() ==> !f(s[lead_run(s, f) as int]),
    decreases s.len(),
{
    if s.len() > 0 && f(s[0]) {
        let t = s.drop_first();
        lemma_lead_run_props(t, f);
        assert forall|j: int| 0 <= j < lead_run(s, f) implies f(#[trigger] s[j]) by {
            if j > 0 {
                assert(s[j] == t[j - 1]);
            }
        }
        if lead_run(s, f) < s.len() {
            assert(s[lead_run(s, f) as int] == t[lead_run(t, f) as int]);
        }
    }
}

pub proof fn lemma_tail_run_props<A>(s: Seq<A>, f: spec_fn(A) -> bool)
    ensures
        tail_run(s, f) <= s.len(),
        forall|j: int| s.len() - tail_run(s, f) <= j < s.len() ==> f(#[trigger] s[j]),
        tail_run(s, f) < s.len() ==> !f(s[s.len() - tail_run(s, f) - 1]),
    decreases s.len(),
{
    if s.len() > 0 && f(s.last()) {
        let t = s.drop_last();
        lemma_tail_run_props(t, f);
        assert forall|j: int| s.len() - tail_run(s, f) <= j < s.len() implies f(#[trigger] s[j]) by {
            if j < s.len() - 1 {
                assert(s[j] == t[j]);
            }
        }
        if tail_run(s, f) < s.len() {
            assert(s[s.len() - tail_run(s, f) - 1] == t[t.len() - tail_run(t, f) - 1]);
        }
    }
}

/// The predicate "equal to `c`".
pub open spec fn equals_char(c: char) -> spec_fn(char) -> bool {
    |x: char| x == c
}

pub open spec fn digit_char(d: int) -> char {
    if d == 0 { '0' }
    else if d == 1 { '1' }
    else if d == 2 { '2' }
    else if d == 3 { '3' }
    else if d == 4 { '4' }
    else if d == 5 { '5' }
    else if d == 6 { '6' }
    else if d == 7 { '7' }
    else if d == 8 { '8' }
    else { '9' }
}

/// The decimal digits of `n`, most significant first, without leading zeros.
pub open spec fn decimal(n: nat) -> Seq<char>
    decreases n,
{
    if n < 10 {
        seq![digit_char(n as int)]
    } else {
        decimal(n / 10).push(digit_char((n % 10) as int))
    }
}

fn digit_exec(d: u64) -> (c: char)
    requires
        d < 10,
    ensures
        c == digit_char(d as int),
{
    if d == 0 { '0' }
    else if d == 1 { '1' }
    else if d == 2 { '2' }
    else if d == 3 { '3' }
    else if d == 4 { '4' }
    else if d == 5 { '5' }
    else if d == 6 { '6' }
    else if d == 7 { '7' }
    else if d == 8 { '8' }
    else { '9' }
}

/// The decimal form of `n`.
pub fn decimal_string(n: u64) -> (r: String)
    ensures
        r@ == decimal(n as nat),
    decreases n,
{
    if n < 10 {
        let v = vec![digit_exec(n)];
        string_of(&v)
    } else {
        let head = decimal_string(n / 10);
        let mut v = chars_of(head.as_str());
        v.push(digit_exec(n % 10));
        string_of(&v)
    }
}

} // verus!
