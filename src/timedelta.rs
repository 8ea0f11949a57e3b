//! Signed durations in whole seconds, their short input notation and their
//! `HH:MM` rendering.
use crate::text::{
    chars_of, decimal_text, digit_char, digit_value, is_digit, lemma_numeral_nonneg, numeral_value,
    push_two_digits, two_digit_text,
};
use vstd::arithmetic::div_mod::{lemma_fundamental_div_mod, lemma_mod_mod};
use crate::traits::Parsable;
use vstd::prelude::*;

verus! {

/// The largest magnitude, in seconds, of a duration read from text
/// (`i64::MAX` milliseconds, in whole seconds).
pub const MAX_SECONDS: i64 = 9_223_372_036_854_775;

/// A signed span of time, in seconds.
#[derive(Clone, Copy, Debug, PartialEq, Eq, Structural)]
pub struct Duration {
    pub seconds: i64,
}

impl Duration {
    /// Within the range of a chrono `TimeDelta` of whole seconds.
    pub open spec fn wf(&self) -> bool {
        -MAX_SECONDS <= self.seconds <= MAX_SECONDS
    }
}

/// Length of the run of ASCII digits in `t` that starts at `p`.
pub open spec fn digit_run(t: Seq<char>, p: int) -> nat
    decreases t.len() - p,
{
    if 0 <= p < t.len() && is_digit(t[p]) {
        1 + digit_run(t, p + 1)
    } else {
        0
    }
}

/// The value of the digit run that starts at `p`.
pub open spec fn run_value(t: Seq<char>, p: int) -> int {
    numeral_value(t.subrange(p, p + digit_run(t, p)))
}

/// At `p` stand digits, a colon and two more digits (`8:15`).
pub open spec fn colon_clock_at(t: Seq<char>, p: int) -> bool {
    let l = digit_run(t, p);
    &&& l >= 1
    &&& p + l + 2 < t.len()
    &&& t[p + l] == ':'
    &&& is_digit(t[p + l + 1])
    &&& is_digit(t[p + l + 2])
}

/// At `p` starts an hours-and-minutes form: digits, an optional colon and
/// exactly two minute digits (`8:15`, `815`).
pub open spec fn clock_at(t: Seq<char>, p: int) -> bool {
    colon_clock_at(t, p) || digit_run(t, p) >= 3
}

/// Hours and minutes of the hours-and-minutes form at `p`: with the colon
/// where one follows the whole digit run, else the last two digits of the
/// run are the minutes.
pub open spec fn clock_parts_at(t: Seq<char>, p: int) -> (int, int) {
    let l = digit_run(t, p) as int;
    if colon_clock_at(t, p) {
        (numeral_value(t.subrange(p, p + l)), numeral_value(t.subrange(p + l + 1, p + l + 3)))
    } else {
        (numeral_value(t.subrange(p, p + l - 2)), numeral_value(t.subrange(p + l - 2, p + l)))
    }
}

/// At `p` stand digits directly followed by `m` (`45m`).
pub open spec fn minutes_at(t: Seq<char>, p: int) -> bool {
    let l = digit_run(t, p);
    l >= 1 && p + l < t.len() && t[p + l] == 'm'
}

/// At `p` stands a digit.
pub open spec fn hours_at(t: Seq<char>, p: int) -> bool {
    digit_run(t, p) >= 1
}

/// The leftmost position at or after `p` where the hours-and-minutes form starts.
pub open spec fn first_clock(t: Seq<char>, p: int) -> Option<int>
    decreases t.len() - p,
{
    if !(0 <= p < t.len()) {
        None
    } else if clock_at(t, p) {
        Some(p)
    } else {
        first_clock(t, p + 1)
    }
}

/// The leftmost position at or after `p` where the minutes form starts.
pub open spec fn first_minutes(t: Seq<char>, p: int) -> Option<int>
    decreases t.len() - p,
{
    if !(0 <= p < t.len()) {
        None
    } else if minutes_at(t, p) {
        Some(p)
    } else {
        first_minutes(t, p + 1)
    }
}

/// The leftmost position at or after `p` where a digit stands.
pub open spec fn first_hours(t: Seq<char>, p: int) -> Option<int>
    decreases t.len() - p,
{
    if !(0 <= p < t.len()) {
        None
    } else if hours_at(t, p) {
        Some(p)
    } else {
        first_hours(t, p + 1)
    }
}

/// Hours and minutes found in a duration text. The forms are tried in turn,
/// each at its leftmost occurrence anywhere in the text: hours and minutes
/// (`8:15`, `08:15`, `815`), minutes (`45m`), whole hours (`8`).
/// Minutes are not limited to 59.
pub open spec fn duration_parts(t: Seq<char>) -> Option<(int, int)> {
    match first_clock(t, 0) {
        Some(p) => Some(clock_parts_at(t, p)),
        None => match first_minutes(t, 0) {
            Some(p) => Some((0, run_value(t, p))),
            None => match first_hours(t, 0) {
                Some(p) => Some((run_value(t, p), 0)),
                None => None,
            },
        },
    }
}

/// The seconds that a duration text stands for, where it has a form and
/// the value does not exceed `MAX_SECONDS`.
pub open spec fn duration_seconds(t: Seq<char>) -> Option<int> {
    match duration_parts(t) {
        Some((h, m)) => if h * 3600 + m * 60 <= MAX_SECONDS {
            Some(h * 3600 + m * 60)
        } else {
            None
        },
        None => None,
    }
}

/// The message for a text that is no duration.
pub open spec fn parse_error_text(t: Seq<char>) -> Seq<char> {
    "Could not parse timedelta string '"@ + t + "'."@
}

/// The `(-)HH:MM` rendering of a number of seconds: hours and minutes of
/// the magnitude, seconds dropped, hours not wrapped at 24.
pub open spec fn hhmm_text(s: int) -> Seq<char> {
    let a = if s < 0 { -s } else { s };
    let body = two_digit_text((a / 3600) as nat) + seq![':'] + two_digit_text(((a % 3600) / 60) as nat);
    if s < 0 { seq!['-'] + body } else { body }
}

/// A numeral is at least as large as any of its prefixes.
proof fn lemma_numeral_prefix(t: Seq<char>, a: int, i: int, b: int)
    requires
        0 <= a <= i <= b <= t.len(),
        forall|j: int| a <= j < b ==> is_digit(t[j]),
    ensures
        numeral_value(t.subrange(a, i)) <= numeral_value(t.subrange(a, b)),
    decreases b - i,
{
    if i < b {
        lemma_numeral_prefix(t, a, i, b - 1);
        assert(t.subrange(a, b).drop_last() =~= t.subrange(a, b - 1));
        lemma_numeral_nonneg(t.subrange(a, b - 1));
    }
}

/// Position of the first non-digit at or after `p`.
fn run_end(t: &Vec<char>, p: usize) -> (r: usize)
    requires
        p <= t@.len(),
    ensures
        p <= r <= t@.len(),
        r - p == digit_run(t@, p as int),
        forall|j: int| p <= j < r ==> is_digit(t@[j]),
{
    let mut j = p;
    while j < t.len() && '0' <= t[j] && t[j] <= '9'
        invariant
            p <= j <= t@.len(),
            digit_run(t@, p as int) == (j - p) + digit_run(t@, j as int),
            forall|k: int| p <= k < j ==> is_digit(t@[k]),
        decreases t@.len() - j,
    {
        j += 1;
    }
    j
}

/// The value of the digits in `t[a..b]`, where it does not exceed `bound`.
fn numeral_at(t: &Vec<char>, a: usize, b: usize, bound: u64) -> (r: Option<u64>)
    requires
        a <= b <= t@.len(),
        forall|j: int| a <= j < b ==> is_digit(t@[j]),
    ensures
        numeral_value(t@.subrange(a as int, b as int)) >= 0,
        match r {
            Some(v) => v == numeral_value(t@.subrange(a as int, b as int)) && v <= bound,
            None => numeral_value(t@.subrange(a as int, b as int)) > bound,
        },
{
    proof {
        lemma_numeral_nonneg(t@.subrange(a as int, b as int));
    }
    let mut v: u64 = 0;
    let mut i = a;
    assert(t@.subrange(a as int, a as int).len() == 0);
    while i < b
        invariant
            a <= i <= b <= t@.len(),
            forall|j: int| a <= j < b ==> is_digit(t@[j]),
            v == numeral_value(t@.subrange(a as int, i as int)),
            v <= bound,
        decreases b - i,
    {
        let d = (t[i] as u32 - '0' as u32) as u128;
        assert(t@.subrange(a as int, i + 1).drop_last() =~= t@.subrange(a as int, i as int));
        assert(d == digit_value(t@[i as int]));
        let nv: u128 = v as u128 * 10 + d;
        if nv > bound as u128 {
            proof {
                lemma_numeral_prefix(t@, a as int, i + 1, b as int);
            }
            return None;
        }
        v = nv as u64;
        i += 1;
    }
    Some(v)
}

/// The leftmost start of the hours-and-minutes form, and the hours and
/// minutes text bounds there.
fn find_clock(t: &Vec<char>) -> (r: Option<(usize, usize, usize, usize)>)
    ensures
        match r {
            Some((h0, h1, m0, m1)) => first_clock(t@, 0) == Some(h0 as int) && ({
                let p = h0 as int;
                let l = digit_run(t@, p) as int;
                &&& colon_clock_at(t@, p) ==> h1 == p + l && m0 == p + l + 1 && m1 == p + l + 3
                &&& !colon_clock_at(t@, p) ==> h1 == p + l - 2 && m0 == p + l - 2 && m1 == p + l
            }) && h0 <= h1 <= t@.len() && m0 <= m1 <= t@.len()
                && (forall|j: int| h0 <= j < h1 ==> is_digit(t@[j]))
                && (forall|j: int| m0 <= j < m1 ==> is_digit(t@[j])),
            None => first_clock(t@, 0) is None,
        },
{
    let mut p: usize = 0;
    while p < t.len()
        invariant
            p <= t@.len(),
            first_clock(t@, 0) == first_clock(t@, p as int),
        decreases t@.len() - p,
    {
        let e = run_end(t, p);
        let l = e - p;
        if l >= 1 && t.len() - e > 2 && t[e] == ':' && '0' <= t[e + 1] && t[e + 1] <= '9'
            && '0' <= t[e + 2] && t[e + 2] <= '9' {
            return Some((p, e, e + 1, e + 3));
        }
        if l >= 3 {
            return Some((p, e - 2, e - 2, e));
        }
        p += 1;
    }
    None
}

/// The leftmost start of the minutes form, and the end of its digits.
fn find_minutes(t: &Vec<char>) -> (r: Option<(usize, usize)>)
    ensures
        match r {
            Some((p, e)) => first_minutes(t@, 0) == Some(p as int) && e == p + digit_run(
                t@,
                p as int,
            ) && e <= t@.len() && (forall|j: int| p <= j < e ==> is_digit(t@[j])),
            None => first_minutes(t@, 0) is None,
        },
{
    let mut p: usize = 0;
    while p < t.len()
        invariant
            p <= t@.len(),
            first_minutes(t@, 0) == first_minutes(t@, p as int),
        decreases t@.len() - p,
    {
        let e = run_end(t, p);
        if e > p && e < t.len() && t[e] == 'm' {
            return Some((p, e));
        }
        p += 1;
    }
    None
}

/// The leftmost digit run: its start and end.
fn find_hours(t: &Vec<char>) -> (r: Option<(usize, usize)>)
    ensures
        match r {
            Some((p, e)) => first_hours(t@, 0) == Some(p as int) && e == p + digit_run(
                t@,
                p as int,
            ) && e <= t@.len() && (forall|j: int| p <= j < e ==> is_digit(t@[j])),
            None => first_hours(t@, 0) is None,
        },
{
    let mut p: usize = 0;
    while p < t.len()
        invariant
            p <= t@.len(),
            first_hours(t@, 0) == first_hours(t@, p as int),
        decreases t@.len() - p,
    {
        let e = run_end(t, p);
        if e > p {
            return Some((p, e));
        }
        p += 1;
    }
    None
}

/// Hours and minutes of a duration text, each bounded so that the
/// seconds they make fit the range of a duration; `Err` with the message
/// where the text has no form or the value is too large.
fn to_hours_and_minutes(text: &str) -> (r: Result<(u64, u64), String>)
    ensures
        match r {
            Ok((h, m)) => duration_seconds(text@) == Some(h * 3600 + m * 60),
            Err(e) => duration_seconds(text@) is None && e@ == parse_error_text(text@),
        },
{
    let t = chars_of(text);
    let hb: u64 = MAX_SECONDS as u64 / 3600;
    let mb: u64 = MAX_SECONDS as u64 / 60;
    let parts: Option<(Option<u64>, Option<u64>)> = match find_clock(&t) {
        Some((h0, h1, m0, m1)) => Some((numeral_at(&t, h0, h1, hb), numeral_at(&t, m0, m1, mb))),
        None => match find_minutes(&t) {
            Some((p, e)) => Some((Some(0), numeral_at(&t, p, e, mb))),
            None => match find_hours(&t) {
                Some((p, e)) => Some((numeral_at(&t, p, e, hb), Some(0))),
                None => None,
            },
        },
    };
    if let Some((Some(h), Some(m))) = parts {
        if h * 3600 + m * 60 <= MAX_SECONDS as u64 {
            return Ok((h, m));
        }
    }
    let mut e = String::from_str("Could not parse timedelta string '");
    e.append(text);
    e.append("'.");
    Err(e)
}

/// Renders a number of seconds as `(-)HH:MM`; see `hhmm_text`.
pub fn hhmm(s: i128) -> (r: String)
    requires
        s > i128::MIN,
    ensures
        r@ == hhmm_text(s as int),
{
    let a: u128 = if s < 0 { (-s) as u128 } else { s as u128 };
    let mut out = if s < 0 { String::from_str("-") } else { String::new() };
    proof {
        reveal_strlit("-");
    }
    push_two_digits(&mut out, a / 3600);
    out.append(":");
    proof {
        reveal_strlit(":");
    }
    push_two_digits(&mut out, (a % 3600) / 60);
    assert(out@ =~= hhmm_text(s as int));
    out
}

impl Parsable for Duration {
    /// Reads `H:MM`/`HH:MM` (colon optional), `<N>m` or `<N>` hours; see
    /// `duration_seconds`.
    fn from_str(text: &str) -> (r: Result<Duration, String>)
        ensures
            match duration_seconds(text@) {
                Some(s) => r == Ok::<Duration, String>(Duration { seconds: s as i64 }) && r->Ok_0.wf(),
                None => r is Err && r->Err_0@ == parse_error_text(text@),
            },
    {
        match to_hours_and_minutes(text) {
            Ok((h, m)) => Ok(Duration { seconds: (h * 3600 + m * 60) as i64 }),
            Err(e) => Err(e),
        }
    }

    /// Renders the duration as `(-)HH:MM`; see `hhmm_text`.
    fn to_hhmm(&self) -> (r: String)
        ensures
            r@ == hhmm_text(self.seconds as int),
    {
        hhmm(self.seconds as i128)
    }
}

proof fn lemma_decimal_text(n: nat)
    ensures
        decimal_text(n).len() >= 1,
        n < 10 ==> decimal_text(n).len() == 1,
        n >= 10 ==> decimal_text(n).len() >= 2,
        10 <= n < 100 ==> decimal_text(n).len() == 2,
        forall|i: int| 0 <= i < decimal_text(n).len() ==> is_digit(#[trigger] decimal_text(n)[i]),
        numeral_value(decimal_text(n)) == n,
    decreases n,
{
    if n < 10 {
        assert(decimal_text(n).drop_last() =~= Seq::<char>::empty());
        assert(numeral_value(Seq::<char>::empty()) == 0);
        assert(digit_value(digit_char(n as int)) == n);
    } else {
        lemma_decimal_text(n / 10);
        let d = decimal_text(n);
        assert(d.drop_last() =~= decimal_text(n / 10));
        assert(d.last() == digit_char((n % 10) as int));
        assert(digit_value(digit_char((n % 10) as int)) == n % 10);
        lemma_fundamental_div_mod(n as int, 10);
        assert(numeral_value(d) == numeral_value(d.drop_last()) * 10 + digit_value(d.last()));
        assert(is_digit(digit_char((n % 10) as int)));
        assert forall|i: int| 0 <= i < d.len() implies is_digit(#[trigger] d[i]) by {
            if i < d.len() - 1 {
                assert(d[i] == decimal_text(n / 10)[i]);
            }
        }
    }
}

proof fn lemma_leading_zero(x: Seq<char>)
    requires
        forall|i: int| 0 <= i < x.len() ==> is_digit(x[i]),
    ensures
        numeral_value(seq!['0'] + x) == numeral_value(x),
    decreases x.len(),
{
    let y = seq!['0'] + x;
    if x.len() == 0 {
        assert(y.drop_last() =~= Seq::<char>::empty());
        assert(y.last() == '0');
        assert(numeral_value(Seq::<char>::empty()) == 0);
        assert(numeral_value(y) == numeral_value(y.drop_last()) * 10 + digit_value(y.last()));
    } else {
        lemma_leading_zero(x.drop_last());
        assert(y.drop_last() =~= seq!['0'] + x.drop_last());
        assert(y.last() == x.last());
        assert(numeral_value(y) == numeral_value(y.drop_last()) * 10 + digit_value(y.last()));
        assert(numeral_value(x) == numeral_value(x.drop_last()) * 10 + digit_value(x.last()));
    }
}

proof fn lemma_two_digit_text(n: nat)
    ensures
        two_digit_text(n).len() >= 2,
        n < 100 ==> two_digit_text(n).len() == 2,
        forall|i: int| 0 <= i < two_digit_text(n).len() ==> is_digit(#[trigger] two_digit_text(n)[i]),
        numeral_value(two_digit_text(n)) == n,
{
    lemma_decimal_text(n);
    if n < 10 {
        lemma_leading_zero(decimal_text(n));
        let t = two_digit_text(n);
        assert forall|i: int| 0 <= i < t.len() implies is_digit(#[trigger] t[i]) by {
            if i > 0 {
                assert(t[i] == decimal_text(n)[i - 1]);
            }
        }
    }
}

proof fn lemma_digit_run_to(t: Seq<char>, p: int, q: int)
    requires
        0 <= p <= q <= t.len(),
        forall|i: int| p <= i < q ==> is_digit(t[i]),
        q < t.len() ==> !is_digit(t[q]),
    ensures
        digit_run(t, p) == q - p,
    decreases q - p,
{
    if p < q {
        lemma_digit_run_to(t, p + 1, q);
    }
}

/// A non-negative duration written as `HH:MM` reads back as the same
/// number of seconds, less the seconds past the last full minute.
pub proof fn lemma_hhmm_round_trip(s: int)
    requires
        0 <= s <= MAX_SECONDS,
    ensures
        duration_seconds(hhmm_text(s)) == Some(s - s % 60),
{
    let h = s / 3600;
    let m = (s % 3600) / 60;
    let hs = two_digit_text(h as nat);
    let ms = two_digit_text(m as nat);
    let t = hhmm_text(s);
    lemma_two_digit_text(h as nat);
    lemma_two_digit_text(m as nat);
    assert(t =~= hs + seq![':'] + ms);
    let l = hs.len() as int;
    assert forall|i: int| 0 <= i < l implies is_digit(t[i]) by {
        assert(t[i] == hs[i]);
    }
    assert(t[l] == ':');
    lemma_digit_run_to(t, 0, l);
    assert(t[l + 1] == ms[0]);
    assert(t[l + 2] == ms[1]);
    assert(colon_clock_at(t, 0));
    assert(first_clock(t, 0) == Some(0int));
    assert(t.subrange(0, l) =~= hs);
    assert(t.subrange(l + 1, l + 3) =~= ms);
    lemma_fundamental_div_mod(s, 3600);
    lemma_fundamental_div_mod(s % 3600, 60);
    lemma_mod_mod(s, 60, 60);
    assert(h * 3600 + m * 60 == s - s % 60);
}

} // verus!
