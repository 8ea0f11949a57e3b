//! Extraction of flags, options and dates from an unordered list of
//! command-line tokens. Each operation returns what it found and the tokens
//! that are left.
use crate::naive_date::{day_numbers, iso_date_of, monday_of, parse_iso_date, Date, MAX_DAYS, MIN_DAYS};
use crate::text::same_text;
use vstd::prelude::*;

verus! {

/// `ts` without any token equal to `m`, order kept.
pub open spec fn without_marker(ts: Seq<String>, m: Seq<char>) -> Seq<String>
    decreases ts.len(),
{
    if ts.len() == 0 {
        ts
    } else {
        let rest = without_marker(ts.drop_last(), m);
        if ts.last()@ == m {
            rest
        } else {
            rest.push(ts.last())
        }
    }
}

/// Some token of `ts` equals `m`.
pub open spec fn has_marker(ts: Seq<String>, m: Seq<char>) -> bool {
    exists|i: int| 0 <= i < ts.len() && ts[i]@ == m
}

/// Index of the first token at or after `p` that equals `m`.
pub open spec fn marker_index_from(ts: Seq<String>, m: Seq<char>, p: int) -> Option<int>
    decreases ts.len() - p,
{
    if !(0 <= p < ts.len()) {
        None
    } else if ts[p]@ == m {
        Some(p)
    } else {
        marker_index_from(ts, m, p + 1)
    }
}

/// Index of the first token that equals `m`.
pub open spec fn marker_index(ts: Seq<String>, m: Seq<char>) -> Option<int> {
    marker_index_from(ts, m, 0)
}

/// `ts` without the `n` tokens from index `i` on.
pub open spec fn cut(ts: Seq<String>, i: int, n: int) -> Seq<String> {
    ts.subrange(0, i) + ts.subrange(i + n, ts.len() as int)
}

/// Appends `src[a..b]` to `out`.
fn copy_range(src: &Vec<String>, a: usize, b: usize, out: &mut Vec<String>)
    requires
        a <= b <= src@.len(),
    ensures
        final(out)@ == old(out)@ + src@.subrange(a as int, b as int),
{
    let mut j = a;
    while j < b
        invariant
            a <= j <= b <= src@.len(),
            out@ == old(out)@ + src@.subrange(a as int, j as int),
        decreases b - j,
    {
        out.push(src[j].clone());
        j += 1;
        assert(out@ =~= old(out)@ + src@.subrange(a as int, j as int));
    }
    assert(out@ =~= old(out)@ + src@.subrange(a as int, b as int));
}

/// Index of the first token equal to `target`.
fn find_marker(target: &str, args: &Vec<String>) -> (r: Option<usize>)
    ensures
        match r {
            Some(i) => marker_index(args@, target@) == Some(i as int) && i < args@.len(),
            None => marker_index(args@, target@) is None,
        },
{
    let mut i: usize = 0;
    while i < args.len()
        invariant
            i <= args@.len(),
            marker_index(args@, target@) == marker_index_from(args@, target@, i as int),
        decreases args@.len() - i,
    {
        if same_text(args[i].as_str(), target) {
            return Some(i);
        }
        i += 1;
    }
    None
}

/// Whether `target` occurs among the tokens, and the tokens with every
/// occurrence of it removed.
pub fn consume_bool(target: &str, args: Vec<String>) -> (r: (bool, Vec<String>))
    ensures
        r.0 == has_marker(args@, target@),
        r.1@ == without_marker(args@, target@),
{
    let mut rest: Vec<String> = Vec::new();
    let mut found = false;
    let mut j: usize = 0;
    while j < args.len()
        invariant
            j <= args@.len(),
            rest@ == without_marker(args@.subrange(0, j as int), target@),
            found == has_marker(args@.subrange(0, j as int), target@),
        decreases args@.len() - j,
    {
        let ghost pre = args@.subrange(0, j as int);
        let ghost next = args@.subrange(0, j + 1);
        assert(next.drop_last() =~= pre);
        if same_text(args[j].as_str(), target) {
            found = true;
        } else {
            rest.push(args[j].clone());
        }
        assert(found == has_marker(next, target@)) by {
            if next[j as int]@ == target@ {
                assert(0 <= j < next.len() && next[j as int]@ == target@);
            }
            if has_marker(pre, target@) {
                let k = choose|k: int| 0 <= k < pre.len() && pre[k]@ == target@;
                assert(next[k] == pre[k]);
            }
            if has_marker(next, target@) && next[j as int]@ != target@ {
                let k = choose|k: int| 0 <= k < next.len() && next[k]@ == target@;
                assert(pre[k] == next[k]);
            }
        }
        j += 1;
    }
    assert(args@.subrange(0, args@.len() as int) =~= args@);
    (found, rest)
}

/// The token after the first `target`. With no `target`: `Ok(None)` and the
/// tokens unchanged. With `target` last: an error and the tokens unchanged.
/// Otherwise the value, and the tokens without `target` and its value.
pub fn consume_after_target(target: &str, args: Vec<String>) -> (r: (
    Result<Option<String>, String>,
    Vec<String>,
))
    ensures
        match marker_index(args@, target@) {
            None => r.0 == Ok::<Option<String>, String>(None) && r.1@ == args@,
            Some(i) => if i + 1 >= args@.len() {
                &&& r.0 is Err
                &&& r.0->Err_0@ == "No argument after "@ + target@
                &&& r.1@ == args@
            } else {
                &&& r.0 == Ok::<Option<String>, String>(Some(args@[i + 1]))
                &&& r.1@ == cut(args@, i, 2)
            },
        },
{
    match find_marker(target, &args) {
        None => (Ok(None), args),
        Some(i) => {
            if args.len() - i <= 1 {
                let mut e = String::from_str("No argument after ");
                e.append(target);
                (Err(e), args)
            } else {
                let value = args[i + 1].clone();
                let mut rest: Vec<String> = Vec::new();
                copy_range(&args, 0, i, &mut rest);
                copy_range(&args, i + 2, args.len(), &mut rest);
                (Ok(Some(value)), rest)
            }
        },
    }
}

/// The two tokens after the first `target`. With no `target`: `Ok(None)`
/// and the tokens unchanged. With fewer than two tokens after it: an error
/// and the tokens unchanged. Otherwise the values, and the tokens without
/// `target` and its two values.
pub fn consume_two_after_target(target: &str, args: Vec<String>) -> (r: (
    Result<Option<(String, String)>, String>,
    Vec<String>,
))
    ensures
        match marker_index(args@, target@) {
            None => r.0 == Ok::<Option<(String, String)>, String>(None) && r.1@ == args@,
            Some(i) => if i + 2 >= args@.len() {
                &&& r.0 is Err
                &&& r.0->Err_0@ == "Not enough arguments after "@ + target@
                &&& r.1@ == args@
            } else {
                &&& r.0 == Ok::<Option<(String, String)>, String>(
                    Some((args@[i + 1], args@[i + 2])),
                )
                &&& r.1@ == cut(args@, i, 3)
            },
        },
{
    match find_marker(target, &args) {
        None => (Ok(None), args),
        Some(i) => {
            if args.len() - i <= 2 {
                let mut e = String::from_str("Not enough arguments after ");
                e.append(target);
                (Err(e), args)
            } else {
                let s1 = args[i + 1].clone();
                let s2 = args[i + 2].clone();
                let mut rest: Vec<String> = Vec::new();
                copy_range(&args, 0, i, &mut rest);
                copy_range(&args, i + 3, args.len(), &mut rest);
                (Ok(Some((s1, s2))), rest)
            }
        },
    }
}

proof fn lemma_without_marker_excludes(ts: Seq<String>, m: Seq<char>)
    ensures
        forall|k: int| 0 <= k < without_marker(ts, m).len() ==> without_marker(ts, m)[k]@ != m,
    decreases ts.len(),
{
    if ts.len() > 0 {
        let rest = without_marker(ts.drop_last(), m);
        lemma_without_marker_excludes(ts.drop_last(), m);
        if ts.last()@ != m {
            assert forall|k: int| 0 <= k < rest.push(ts.last()).len() implies rest.push(
                ts.last(),
            )[k]@ != m by {
                if k < rest.len() {
                    assert(rest.push(ts.last())[k] == rest[k]);
                }
            }
        }
    }
}

proof fn lemma_without_absent_marker(ts: Seq<String>, m: Seq<char>)
    requires
        forall|k: int| 0 <= k < ts.len() ==> ts[k]@ != m,
    ensures
        without_marker(ts, m) == ts,
    decreases ts.len(),
{
    if ts.len() > 0 {
        lemma_without_absent_marker(ts.drop_last(), m);
        assert(ts.drop_last().push(ts.last()) =~= ts);
    }
}

/// Consuming a flag twice: the second consumption finds no occurrence and
/// leaves the tokens as the first left them.
pub proof fn lemma_consume_bool_idempotent(ts: Seq<String>, m: Seq<char>)
    ensures
        !has_marker(without_marker(ts, m), m),
        without_marker(without_marker(ts, m), m) == without_marker(ts, m),
{
    lemma_without_marker_excludes(ts, m);
    lemma_without_absent_marker(without_marker(ts, m), m);
}

/// What `str::to_lowercase` makes of a text.
pub uninterp spec fn lower_of(s: Seq<char>) -> Seq<char>;

/// Relies on `str::to_lowercase`: the result depends on the characters alone.
#[verifier::external_body]
fn lowercase(s: &str) -> (r: String)
    ensures
        r@ == lower_of(s@),
{
    s.to_lowercase()
}

/// Position of a lowercase weekday name in the week (Monday 0 .. Sunday 6).
pub open spec fn weekday_number(name: Seq<char>) -> Option<int> {
    if name == "monday"@ {
        Some(0)
    } else if name == "tuesday"@ {
        Some(1)
    } else if name == "wednesday"@ {
        Some(2)
    } else if name == "thursday"@ {
        Some(3)
    } else if name == "friday"@ {
        Some(4)
    } else if name == "saturday"@ {
        Some(5)
    } else if name == "sunday"@ {
        Some(6)
    } else {
        None
    }
}

/// The date that a token names, given its lowercase form, its reading as an
/// ISO date and today's day number: `yesterday`, else a weekday of the
/// current (Monday-first) week, else the ISO date.
pub open spec fn token_date(lower: Seq<char>, iso: Option<int>, today: int) -> Option<int> {
    if lower == "yesterday"@ {
        Some(today - 1)
    } else {
        match weekday_number(lower) {
            Some(k) => Some(monday_of(today) + k),
            None => iso,
        }
    }
}

/// The date that a token names, as a day number.
pub open spec fn arg_date(token: Seq<char>, today: int) -> Option<int> {
    token_date(lower_of(token), iso_date_of(token), today)
}

/// The day numbers of optional dates.
pub open spec fn date_days(d: Option<Date>) -> Option<int> {
    match d {
        Some(x) => Some(x.days as int),
        None => None,
    }
}

/// A day far enough inside the representable range that every day of its
/// week, and the same day a week earlier, is representable.
pub open spec fn today_ok(today: Date) -> bool {
    MIN_DAYS + 7 <= today.days <= MAX_DAYS - 7
}

/// Position of a lowercase weekday name in the week; see `weekday_number`.
fn weekday_index(name: &str) -> (r: Option<u32>)
    ensures
        match r {
            Some(k) => weekday_number(name@) == Some(k as int),
            None => weekday_number(name@) is None,
        },
{
    if same_text(name, "monday") {
        Some(0)
    } else if same_text(name, "tuesday") {
        Some(1)
    } else if same_text(name, "wednesday") {
        Some(2)
    } else if same_text(name, "thursday") {
        Some(3)
    } else if same_text(name, "friday") {
        Some(4)
    } else if same_text(name, "saturday") {
        Some(5)
    } else if same_text(name, "sunday") {
        Some(6)
    } else {
        None
    }
}

/// Resolves a token whose lowercase form is `lowered` and whose reading as
/// an ISO date is `iso`; see `token_date`.
pub fn resolve_date_token(lowered: &str, iso: Option<Date>, today: Date) -> (r: Option<Date>)
    requires
        today_ok(today),
        iso matches Some(d) ==> d.wf(),
    ensures
        date_days(r) == token_date(lowered@, date_days(iso), today.days as int),
        r matches Some(d) ==> d.wf(),
{
    if same_text(lowered, "yesterday") {
        return Some(Date { days: today.days - 1 });
    }
    match weekday_index(lowered) {
        Some(k) => {
            let monday = today.days - today.weekday_from_monday() as i32;
            Some(Date { days: monday + k as i32 })
        },
        None => iso,
    }
}

/// The date a token names relative to `today`; see `arg_date`.
pub fn date_from_arg(arg: &String, today: Date) -> (r: Option<Date>)
    requires
        today_ok(today),
    ensures
        date_days(r) == arg_date(arg@, today.days as int),
        r matches Some(d) ==> d.wf(),
{
    let lowered = lowercase(arg.as_str());
    let iso = parse_iso_date(arg.as_str());
    resolve_date_token(lowered.as_str(), iso, today)
}

/// Index of the first token at or after `p` that names a date.
pub open spec fn date_index_from(ts: Seq<String>, today: int, p: int) -> Option<int>
    decreases ts.len() - p,
{
    if !(0 <= p < ts.len()) {
        None
    } else if arg_date(ts[p]@, today) is Some {
        Some(p)
    } else {
        date_index_from(ts, today, p + 1)
    }
}

/// The dates named by the tokens, found by repeatedly taking the first
/// token that names one, and the tokens that are left.
pub open spec fn dates_taken(ts: Seq<String>, today: int) -> (Seq<int>, Seq<String>)
    decreases ts.len(),
{
    match date_index_from(ts, today, 0) {
        None => (Seq::empty(), ts),
        Some(i) => if 0 <= i < ts.len() {
            let rest = dates_taken(ts.remove(i), today);
            (seq![arg_date(ts[i]@, today)->0] + rest.0, rest.1)
        } else {
            (Seq::empty(), ts)
        },
    }
}

proof fn lemma_date_index_bound(ts: Seq<String>, today: int, p: int)
    ensures
        date_index_from(ts, today, p) matches Some(i) ==> p <= i < ts.len()
            && arg_date(ts[i]@, today) is Some,
    decreases ts.len() - p,
{
    if 0 <= p < ts.len() && arg_date(ts[p]@, today) is None {
        lemma_date_index_bound(ts, today, p + 1);
    }
}

/// The first token that names a date, taken out of the tokens.
fn consume_date(args: Vec<String>, today: Date) -> (r: (Option<Date>, Vec<String>))
    requires
        today_ok(today),
    ensures
        match date_index_from(args@, today.days as int, 0) {
            None => r.0 is None && r.1@ == args@,
            Some(i) => 0 <= i < args@.len() && date_days(r.0) == arg_date(args@[i]@, today.days as int)
                && r.1@ == args@.remove(i),
        },
        r.0 matches Some(d) ==> d.wf(),
{
    let mut i: usize = 0;
    while i < args.len()
        invariant
            i <= args@.len(),
            today_ok(today),
            date_index_from(args@, today.days as int, 0) == date_index_from(
                args@,
                today.days as int,
                i as int,
            ),
        decreases args@.len() - i,
    {
        let d = date_from_arg(&args[i], today);
        if d.is_some() {
            let mut rest: Vec<String> = Vec::new();
            copy_range(&args, 0, i, &mut rest);
            copy_range(&args, i + 1, args.len(), &mut rest);
            assert(rest@ =~= args@.remove(i as int));
            return (d, rest);
        }
        i += 1;
    }
    (None, args)
}

/// The dates the tokens name, in the order found by always rescanning the
/// remaining tokens from the start, and the tokens that are left.
pub fn consume_dates(args: Vec<String>, today: Date) -> (r: (Vec<Date>, Vec<String>))
    requires
        today_ok(today),
    ensures
        day_numbers(r.0@) == dates_taken(args@, today.days as int).0,
        r.1@ == dates_taken(args@, today.days as int).1,
        forall|k: int| 0 <= k < r.0@.len() ==> r.0@[k].wf(),
{
    let ghost all = dates_taken(args@, today.days as int);
    let mut dates: Vec<Date> = Vec::new();
    let mut rest = args;
    loop
        invariant
            today_ok(today),
            all == dates_taken(args@, today.days as int),
            all.0 == day_numbers(dates@) + dates_taken(rest@, today.days as int).0,
            all.1 == dates_taken(rest@, today.days as int).1,
            forall|k: int| 0 <= k < dates@.len() ==> dates@[k].wf(),
        decreases rest@.len(),
    {
        let ghost before = rest@;
        proof {
            lemma_date_index_bound(before, today.days as int, 0);
        }
        let (d, next) = consume_date(rest, today);
        match d {
            Some(x) => {
                let ghost old_dates = dates@;
                dates.push(x);
                assert(day_numbers(dates@) =~= day_numbers(old_dates).push(x.days as int));
                assert(day_numbers(dates@) + dates_taken(next@, today.days as int).0
                    =~= day_numbers(old_dates) + dates_taken(before, today.days as int).0);
                rest = next;
            },
            None => {
                assert(next@ == before);
                assert(dates_taken(before, today.days as int) == (Seq::<int>::empty(), before));
                assert(day_numbers(dates@) + dates_taken(next@, today.days as int).0
                    =~= day_numbers(dates@));
                return (dates, next);
            },
        }
    }
}

} // verus!
