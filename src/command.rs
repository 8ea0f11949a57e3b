//! From command-line tokens to day edits and to what a command shows:
//! clock times, project references, the edits a command makes, and the
//! dispatch of undo, redo, project registration and reports.
use crate::argparse::{
    consume_after_target, consume_bool, consume_dates, consume_two_after_target, cut,
    dates_taken, has_marker, marker_index, today_ok, without_marker,
};
use crate::config::{redo_spec, undo_spec, Config, Ledger};
use crate::day::{copy_entries, DateTime, Day};
use crate::naive_date::{
    clock_time_of, day_numbers, from_ymd, in_range, last_day_of_month, last_of_month,
    parse_clock_time, weekday_of, year_month, year_month_of, ymd_days, Date,
};
use crate::text::{
    chars_of, decimal_text, is_digit, lemma_numeral_nonneg, numeral_value, push_decimal, same_text,
};
use crate::timedelta::{duration_seconds, parse_error_text, Duration};
use crate::traits::Parsable;
use vstd::prelude::*;

verus! {

/// The time part read from a clock-time token: the token itself where it
/// holds a colon, else the token followed by `:00` (a bare hour).
pub open spec fn time_text(text: Seq<char>) -> Seq<char> {
    if text.contains(':') {
        text
    } else {
        text + ":00"@
    }
}

/// The instant on `today` at a time of day read as `clock`, or the
/// message for the clock-time token `text`.
pub open spec fn clock_result(text: Seq<char>, clock: Result<int, Seq<char>>, today: Date) -> Result<DateTime, Seq<char>> {
    match clock {
        Ok(s) => Ok(DateTime { date: today, seconds: s as u32 }),
        Err(e) => Err("Could not parse date string '"@ + text + "'. Error: '"@ + e + "'"@),
    }
}

/// The instant that a clock-time token names on `today`, or the message.
pub open spec fn clock_parse(text: Seq<char>, today: Date) -> Result<DateTime, Seq<char>> {
    clock_result(text, clock_time_of(time_text(text)), today)
}

/// The instant on `today` at the time of day `clock` (seconds since
/// midnight, or a parse error's text) read from token `text`; see
/// `clock_result`.
pub fn clock_on(text: &str, clock: Result<u32, String>, today: Date) -> (r: Result<DateTime, String>)
    ensures
        match clock_result(
            text@,
            match clock {
                Ok(s) => Ok(s as int),
                Err(e) => Err(e@),
            },
            today,
        ) {
            Ok(dt) => r == Ok::<DateTime, String>(dt),
            Err(m) => r is Err && r->Err_0@ == m,
        },
{
    match clock {
        Ok(s) => Ok(DateTime { date: today, seconds: s }),
        Err(e) => {
            let mut m = String::from_str("Could not parse date string '");
            m.append(text);
            m.append("'. Error: '");
            m.append(e.as_str());
            m.append("'");
            Err(m)
        },
    }
}

fn has_colon(text: &str) -> (r: bool)
    ensures
        r == text@.contains(':'),
{
    let t = chars_of(text);
    let mut i: usize = 0;
    while i < t.len()
        invariant
            t@ == text@,
            i <= t@.len(),
            forall|j: int| 0 <= j < i ==> t@[j] != ':',
        decreases t@.len() - i,
    {
        if t[i] == ':' {
            assert(t@[i as int] == ':');
            return true;
        }
        i += 1;
    }
    false
}

/// Reads a clock time (`8`, `8:30`, `08:30`) as an instant on `today`.
pub fn parse_date(text: &str, today: Date) -> (r: Result<DateTime, String>)
    requires
        today.wf(),
    ensures
        match clock_parse(text@, today) {
            Ok(dt) => r == Ok::<DateTime, String>(dt) && dt.wf(),
            Err(m) => r is Err && r->Err_0@ == m,
        },
{
    let time = if has_colon(text) {
        String::from_str(text)
    } else {
        let mut t = String::from_str(text);
        t.append(":00");
        t
    };
    let clock = parse_clock_time(time.as_str());
    proof {
        if let Ok(s) = clock {
            assert(s < 86400);
        }
    }
    clock_on(text, clock, today)
}

/// Every character is an ASCII digit.
pub open spec fn all_digits(s: Seq<char>) -> bool {
    forall|i: int| 0 <= i < s.len() ==> is_digit(s[i])
}

/// A token without its leading `+`, if any.
pub open spec fn index_digits(s: Seq<char>) -> Seq<char> {
    if s.len() > 0 && s[0] == '+' {
        s.drop_first()
    } else {
        s
    }
}

/// The value of a token read as an unsigned integer of at most `bound`:
/// an optional `+`, then one or more ASCII digits, of a value that fits.
pub open spec fn unsigned_value(s: Seq<char>, bound: int) -> Option<int> {
    let digits = index_digits(s);
    if digits.len() > 0 && all_digits(digits) && numeral_value(digits) <= bound {
        Some(numeral_value(digits))
    } else {
        None
    }
}

/// The value of a token read as an unsigned machine-size integer.
pub open spec fn index_value(s: Seq<char>) -> Option<int> {
    unsigned_value(s, usize::MAX as int)
}

/// A numeral is at least as large as any of its prefixes.
proof fn lemma_prefix_bound(s: Seq<char>, k: int)
    requires
        0 <= k <= s.len(),
        forall|j: int| 0 <= j < s.len() ==> is_digit(s[j]),
    ensures
        numeral_value(s.subrange(0, k)) <= numeral_value(s),
    decreases s.len(),
{
    if k < s.len() {
        lemma_prefix_bound(s.drop_last(), k);
        assert(s.drop_last().subrange(0, k) =~= s.subrange(0, k));
        lemma_numeral_nonneg(s.drop_last());
    } else {
        assert(s.subrange(0, k) =~= s);
    }
}

/// Reads a token as an unsigned machine-size integer; see `index_value`.
fn parse_index(text: &str) -> (r: Option<usize>)
    ensures
        match r {
            Some(n) => index_value(text@) == Some(n as int),
            None => index_value(text@) is None,
        },
{
    match parse_unsigned(text, usize::MAX as u64) {
        Some(n) => Some(n as usize),
        None => None,
    }
}

/// Reads a token as an unsigned integer of at most `bound`; see
/// `unsigned_value`.
pub(crate) fn parse_unsigned(text: &str, bound: u64) -> (r: Option<u64>)
    ensures
        match r {
            Some(n) => unsigned_value(text@, bound as int) == Some(n as int) && n <= bound,
            None => unsigned_value(text@, bound as int) is None,
        },
{
    let t = chars_of(text);
    let start: usize = if t.len() > 0 && t[0] == '+' { 1 } else { 0 };
    let ghost digits = index_digits(t@);
    assert(digits =~= t@.subrange(start as int, t@.len() as int));
    if start >= t.len() {
        return None;
    }
    let mut v: u128 = 0;
    let mut i: usize = start;
    while i < t.len()
        invariant
            start <= i <= t@.len(),
            t@ == text@,
            digits == t@.subrange(start as int, t@.len() as int),
            digits == index_digits(text@),
            forall|j: int| start <= j < i ==> is_digit(t@[j]),
            v == numeral_value(t@.subrange(start as int, i as int)),
            v <= bound,
        decreases t@.len() - i,
    {
        if !('0' <= t[i] && t[i] <= '9') {
            assert(!is_digit(digits[i - start]));
            assert(!all_digits(digits));
            return None;
        }
        assert(t@.subrange(start as int, i + 1).drop_last() =~= t@.subrange(start as int, i as int));
        let nv: u128 = v * 10 + (t[i] as u32 - '0' as u32) as u128;
        assert(nv == numeral_value(t@.subrange(start as int, i + 1)));
        i += 1;
        if nv > bound as u128 {
            proof {
                if all_digits(digits) {
                    lemma_prefix_bound(digits, i - start);
                    assert(digits.subrange(0, i - start) =~= t@.subrange(start as int, i as int));
                }
            }
            return None;
        }
        v = nv;
    }
    assert(t@.subrange(start as int, t@.len() as int) == digits);
    assert(all_digits(digits));
    Some(v as u64)
}

/// The project that a reference names: a registered name as written, else
/// a reference number (2 for the first registered project), or the message.
pub open spec fn resolve_project(project: String, names: Seq<String>) -> Result<String, Seq<char>> {
    if exists|i: int| 0 <= i < names.len() && names[i]@ == project@ {
        Ok(project)
    } else {
        match index_value(project@) {
            None => Err("Unknown project '"@ + project@ + "'"@),
            Some(n) => if n == 0 {
                Err("No project with index 0"@)
            } else if n == 1 {
                Err("Cannot report time on default project"@)
            } else if n - 2 < names.len() {
                Ok(names[n - 2])
            } else {
                Err("No project with index "@ + decimal_text(n as nat))
            },
        }
    }
}

/// The project entries and the remaining tokens that `project <ref> <time>`
/// yields, or the message; no `project` marker yields no entry.
pub open spec fn projects_parsed(ts: Seq<String>, names: Seq<String>) -> Result<
    (Seq<(String, Duration)>, Seq<String>),
    Seq<char>,
> {
    match marker_index(ts, "project"@) {
        None => Ok((Seq::empty(), ts)),
        Some(i) => if i + 2 >= ts.len() {
            Err("Not enough arguments after "@ + "project"@)
        } else {
            match duration_seconds(ts[i + 2]@) {
                None => Err(parse_error_text(ts[i + 2]@)),
                Some(sec) => match resolve_project(ts[i + 1], names) {
                    Err(e) => Err(e),
                    Ok(p) => Ok((seq![(p, Duration { seconds: sec as i64 })], cut(ts, i, 3))),
                },
            }
        },
    }
}

fn is_registered(project: &String, names: &Vec<String>) -> (r: bool)
    ensures
        r == exists|i: int| 0 <= i < names@.len() && names@[i]@ == project@,
{
    let mut i: usize = 0;
    while i < names.len()
        invariant
            i <= names@.len(),
            forall|j: int| 0 <= j < i ==> names@[j]@ != project@,
        decreases names@.len() - i,
    {
        if names[i] == *project {
            return true;
        }
        i += 1;
    }
    false
}

/// The project a reference names; see `resolve_project`.
fn project_for(project: String, project_names: &Vec<String>) -> (r: Result<String, String>)
    ensures
        match resolve_project(project, project_names@) {
            Ok(p) => r == Ok::<String, String>(p),
            Err(m) => r is Err && r->Err_0@ == m,
        },
{
    if is_registered(&project, project_names) {
        return Ok(project);
    }
    match parse_index(project.as_str()) {
        None => {
            let mut m = String::from_str("Unknown project '");
            m.append(project.as_str());
            m.append("'");
            Err(m)
        },
        Some(n) => {
            if n == 0 {
                Err(String::from_str("No project with index 0"))
            } else if n == 1 {
                Err(String::from_str("Cannot report time on default project"))
            } else if n - 2 < project_names.len() {
                Ok(project_names[n - 2].clone())
            } else {
                let mut m = String::from_str("No project with index ");
                push_decimal(&mut m, n as u128);
                Err(m)
            }
        },
    }
}

/// The time logged against one project by `project <ref> <time>`, and the
/// remaining tokens; see `projects_parsed`.
pub fn parse_projects(args: Vec<String>, project_names: &Vec<String>) -> (r: Result<
    (Vec<(String, Duration)>, Vec<String>),
    String,
>)
    ensures
        match projects_parsed(args@, project_names@) {
            Ok((ps, rest)) => r is Ok && r->Ok_0.0@ == ps && r->Ok_0.1@ == rest,
            Err(m) => r is Err && r->Err_0@ == m,
        },
        r matches Ok((ps, _)) ==> ps@.len() <= 1 && forall|i: int| 0 <= i < ps@.len() ==> #[trigger] ps@[i].1.wf(),
{
    let (result, args) = consume_two_after_target("project", args);
    let (project, timedelta) = match result {
        Ok(option) => match option {
            Some((project, timedelta)) => (project, timedelta),
            None => return Ok((Vec::new(), args)),
        },
        Err(message) => return Err(message),
    };
    let timedelta = match Duration::from_str(timedelta.as_str()) {
        Ok(dt) => dt,
        Err(message) => return Err(message),
    };
    let project = match project_for(project, project_names) {
        Ok(p) => p,
        Err(message) => return Err(message),
    };
    let mut entries: Vec<(String, Duration)> = Vec::new();
    entries.push((project, timedelta));
    Ok((entries, args))
}

/// What `consume_after_target` yields for marker `m`: the value, if the
/// marker is present, and the remaining tokens; or the message.
pub open spec fn after_value(ts: Seq<String>, m: Seq<char>) -> Result<
    (Option<String>, Seq<String>),
    Seq<char>,
> {
    match marker_index(ts, m) {
        None => Ok((None, ts)),
        Some(i) => if i + 1 >= ts.len() {
            Err("No argument after "@ + m)
        } else {
            Ok((Some(ts[i + 1]), cut(ts, i, 2)))
        },
    }
}

/// The clock time after marker `m`, read on `today`, and the remaining
/// tokens; or the message.
pub open spec fn clock_field(ts: Seq<String>, m: Seq<char>, today: Date) -> Result<
    (Option<DateTime>, Seq<String>),
    Seq<char>,
> {
    match after_value(ts, m) {
        Err(e) => Err(e),
        Ok((None, rest)) => Ok((None, rest)),
        Ok((Some(t), rest)) => match clock_parse(t@, today) {
            Ok(dt) => Ok((Some(dt), rest)),
            Err(e) => Err(e),
        },
    }
}

/// The duration after `lunch` and the remaining tokens; or the message.
pub open spec fn lunch_field(ts: Seq<String>) -> Result<(Option<Duration>, Seq<String>), Seq<char>> {
    match after_value(ts, "lunch"@) {
        Err(e) => Err(e),
        Ok((None, rest)) => Ok((None, rest)),
        Ok((Some(t), rest)) => match duration_seconds(t@) {
            Some(s) => Ok((Some(Duration { seconds: s as i64 }), rest)),
            None => Err(parse_error_text(t@)),
        },
    }
}

/// The day a week earlier.
pub open spec fn shifted_back(d: int) -> int {
    d - 7
}

/// The dates named, else today.
pub open spec fn base_dates(named: Seq<int>, today: int) -> Seq<int> {
    if named.len() == 0 {
        seq![today]
    } else {
        named
    }
}

/// The dates a command edits: those named, else today; a week earlier with
/// `last`. `None` where a date a week earlier is not representable.
pub open spec fn edit_dates(named: Seq<int>, today: int, last: bool) -> Option<Seq<int>> {
    let base = base_dates(named, today);
    if !last {
        Some(base)
    } else if forall|k: int| 0 <= k < base.len() ==> in_range(#[trigger] shifted_back(base[k])) {
        Some(base.map_values(|d: int| shifted_back(d)))
    } else {
        None
    }
}

/// The edits a command makes: one per date, all with the same facts.
pub struct DaysPlan {
    pub dates: Seq<int>,
    pub start: Option<DateTime>,
    pub stop: Option<DateTime>,
    pub lunch: Option<Duration>,
    pub projects: Seq<(String, Duration)>,
    pub rest: Seq<String>,
}

/// The edits that the tokens ask for, and the tokens left over; or the
/// first message. Read in turn: `start`, `stop`, `lunch`, the dates, then
/// `project`.
pub open spec fn days_plan(ts: Seq<String>, names: Seq<String>, last: bool, today: Date) -> Result<
    DaysPlan,
    Seq<char>,
> {
    match clock_field(ts, "start"@, today) {
        Err(e) => Err(e),
        Ok((start, ts1)) => match clock_field(ts1, "stop"@, today) {
            Err(e) => Err(e),
            Ok((stop, ts2)) => match lunch_field(ts2) {
                Err(e) => Err(e),
                Ok((lunch, ts3)) => {
                    let (named, ts4) = dates_taken(ts3, today.days as int);
                    match projects_parsed(ts4, names) {
                        Err(e) => Err(e),
                        Ok((ps, ts5)) => match edit_dates(named, today.days as int, last) {
                            None => Err("Date out of range"@),
                            Some(ds) => Ok(
                                DaysPlan { dates: ds, start, stop, lunch, projects: ps, rest: ts5 },
                            ),
                        },
                    }
                },
            },
        },
    }
}

/// The clock time after `marker`; see `clock_field`.
fn clock_option(args: Vec<String>, marker: &str, today: Date) -> (r: Result<
    (Option<DateTime>, Vec<String>),
    String,
>)
    requires
        today.wf(),
    ensures
        match clock_field(args@, marker@, today) {
            Ok((v, rest)) => r is Ok && r->Ok_0.0 == v && r->Ok_0.1@ == rest,
            Err(m) => r is Err && r->Err_0@ == m,
        },
        r matches Ok((Some(dt), _)) ==> dt.wf(),
{
    let (value, args) = consume_after_target(marker, args);
    match value {
        Ok(option) => match option {
            None => Ok((None, args)),
            Some(text) => match parse_date(text.as_str(), today) {
                Ok(dt) => Ok((Some(dt), args)),
                Err(e) => Err(e),
            },
        },
        Err(error) => Err(error),
    }
}

/// The duration after `lunch`; see `lunch_field`.
fn lunch_option(args: Vec<String>) -> (r: Result<(Option<Duration>, Vec<String>), String>)
    ensures
        match lunch_field(args@) {
            Ok((v, rest)) => r is Ok && r->Ok_0.0 == v && r->Ok_0.1@ == rest,
            Err(m) => r is Err && r->Err_0@ == m,
        },
        r matches Ok((Some(d), _)) ==> d.wf(),
{
    let (value, args) = consume_after_target("lunch", args);
    match value {
        Ok(option) => match option {
            None => Ok((None, args)),
            Some(text) => match Duration::from_str(text.as_str()) {
                Ok(dt) => Ok((Some(dt), args)),
                Err(e) => Err(e),
            },
        },
        Err(error) => Err(error),
    }
}

/// The dates a command edits; see `edit_dates`.
fn shift_dates(named: Vec<Date>, today: Date, last: bool) -> (r: Option<Vec<Date>>)
    requires
        today.wf(),
        forall|k: int| 0 <= k < named@.len() ==> #[trigger] named@[k].wf(),
    ensures
        match edit_dates(day_numbers(named@), today.days as int, last) {
            Some(ds) => r is Some && day_numbers(r->0@) == ds
                && forall|k: int| 0 <= k < r->0@.len() ==> #[trigger] r->0@[k].wf(),
            None => r is None,
        },
{
    let ghost named_days = day_numbers(named@);
    let base = if named.len() == 0 {
        let mut v: Vec<Date> = Vec::new();
        v.push(today);
        assert(day_numbers(v@) =~= seq![today.days as int]);
        v
    } else {
        named
    };
    let ghost base_days = day_numbers(base@);
    assert(base_days == base_dates(named_days, today.days as int));
    if !last {
        return Some(base);
    }
    let mut out: Vec<Date> = Vec::new();
    let mut k: usize = 0;
    while k < base.len()
        invariant
            k <= base@.len(),
            base_days == day_numbers(base@),
            base_days == base_dates(named_days, today.days as int),
            named_days == day_numbers(named@),
            last,
            forall|i: int| 0 <= i < base@.len() ==> #[trigger] base@[i].wf(),
            out@.len() == k,
            forall|i: int| 0 <= i < k ==> #[trigger] out@[i].days == base@[i].days - 7,
            forall|i: int| 0 <= i < k ==> #[trigger] out@[i].wf(),
            forall|i: int| 0 <= i < k ==> in_range(#[trigger] shifted_back(base_days[i])),
        decreases base@.len() - k,
    {
        assert(base@[k as int].wf());
        match base[k].add_days(-7) {
            Some(d) => out.push(d),
            None => {
                assert(base_days[k as int] == base@[k as int].days as int);
                assert(!in_range(shifted_back(base_days[k as int])));
                return None;
            },
        }
        k += 1;
    }
    assert(day_numbers(out@) =~= base_days.map_values(|d: int| shifted_back(d)));
    Some(out)
}

/// The edits that the tokens ask for and the tokens left over; see
/// `days_plan`. Every edit is well formed.
pub fn parse_days(args: Vec<String>, project_names: &Vec<String>, last: bool, today: Date) -> (r: Result<
    (Vec<Day>, Vec<String>),
    String,
>)
    requires
        today_ok(today),
    ensures
        match days_plan(args@, project_names@, last, today) {
            Ok(p) => r is Ok && ({
                let (days, rest) = r->Ok_0;
                &&& rest@ == p.rest
                &&& days@.len() == p.dates.len()
                &&& forall|k: int| 0 <= k < days@.len() ==> {
                    &&& #[trigger] days@[k].date.days == p.dates[k]
                    &&& days@[k].start == p.start
                    &&& days@[k].stop == p.stop
                    &&& days@[k].lunch == p.lunch
                    &&& days@[k].projects@ == p.projects
                    &&& days@[k].wf()
                }
            }),
            Err(m) => r is Err && r->Err_0@ == m,
        },
{
    let ghost ts0 = args@;
    let (start, args) = match clock_option(args, "start", today) {
        Ok(v) => v,
        Err(e) => return Err(e),
    };
    let ghost ts1 = args@;
    let (stop, args) = match clock_option(args, "stop", today) {
        Ok(v) => v,
        Err(e) => return Err(e),
    };
    let ghost ts2 = args@;
    let (lunch, args) = match lunch_option(args) {
        Ok(v) => v,
        Err(e) => return Err(e),
    };
    let ghost ts3 = args@;
    let (named, args) = consume_dates(args, today);
    let ghost ts4 = args@;
    assert(dates_taken(ts3, today.days as int) == (day_numbers(named@), ts4));
    let (projects, args) = match parse_projects(args, project_names) {
        Ok(v) => v,
        Err(message) => return Err(message),
    };
    let ghost ts5 = args@;
    let ghost named_days = day_numbers(named@);
    let dates = match shift_dates(named, today, last) {
        Some(ds) => ds,
        None => return Err(String::from_str("Date out of range")),
    };
    let ghost p = days_plan(ts0, project_names@, last, today);
    assert(p is Ok);
    assert(p->Ok_0.dates == day_numbers(dates@));
    assert(p->Ok_0.rest == ts5);
    assert(p->Ok_0.projects == projects@);
    let mut days: Vec<Day> = Vec::new();
    let mut k: usize = 0;
    while k < dates.len()
        invariant
            k <= dates@.len(),
            forall|i: int| 0 <= i < dates@.len() ==> #[trigger] dates@[i].wf(),
            start matches Some(s) ==> s.wf(),
            stop matches Some(s) ==> s.wf(),
            lunch matches Some(l) ==> l.wf(),
            projects@.len() <= 1,
            forall|i: int| 0 <= i < projects@.len() ==> #[trigger] projects@[i].1.wf(),
            days@.len() == k,
            forall|i: int| 0 <= i < k ==> {
                &&& #[trigger] days@[i].date == dates@[i]
                &&& days@[i].start == start
                &&& days@[i].stop == stop
                &&& days@[i].lunch == lunch
                &&& days@[i].projects@ == projects@
                &&& days@[i].wf()
            },
        decreases dates@.len() - k,
    {
        let day = Day { date: dates[k], start, stop, lunch, projects: copy_entries(&projects) };
        assert(day.wf());
        days.push(day);
        k += 1;
    }
    proof {
        assert forall|i: int| 0 <= i < days@.len() implies #[trigger] days@[i].date.days == day_numbers(dates@)[i] by {}
    }
    Ok((days, args))
}

/// Whether to show the weekend: asked for with `--weekend`, or an edited
/// date falls on a weekend; and the tokens without `--weekend`.
pub fn get_show_weekend(days: &Vec<Day>, args: Vec<String>) -> (r: (bool, Vec<String>))
    requires
        forall|k: int| 0 <= k < days@.len() ==> #[trigger] days@[k].wf(),
    ensures
        r.0 == (has_marker(args@, "--weekend"@) || exists|k: int|
            0 <= k < days@.len() && weekday_of(#[trigger] days@[k].date.days as int) >= 5),
        r.1@ == without_marker(args@, "--weekend"@),
{
    let (show_weekend, args) = consume_bool("--weekend", args);
    let mut on_weekend = false;
    let mut k: usize = 0;
    while k < days.len()
        invariant
            k <= days@.len(),
            forall|i: int| 0 <= i < days@.len() ==> #[trigger] days@[i].wf(),
            on_weekend == exists|i: int| 0 <= i < k && weekday_of(#[trigger] days@[i].date.days as int) >= 5,
        decreases days@.len() - k,
    {
        assert(days@[k as int].wf());
        if days[k].date.is_weekend() {
            on_weekend = true;
        }
        k += 1;
    }
    (show_weekend || on_weekend, args)
}

/// Position of a lowercase English month name in the year (January 0).
pub open spec fn month_number(name: Seq<char>) -> Option<int> {
    if name == "january"@ {
        Some(0)
    } else if name == "february"@ {
        Some(1)
    } else if name == "march"@ {
        Some(2)
    } else if name == "april"@ {
        Some(3)
    } else if name == "may"@ {
        Some(4)
    } else if name == "june"@ {
        Some(5)
    } else if name == "july"@ {
        Some(6)
    } else if name == "august"@ {
        Some(7)
    } else if name == "september"@ {
        Some(8)
    } else if name == "october"@ {
        Some(9)
    } else if name == "november"@ {
        Some(10)
    } else if name == "december"@ {
        Some(11)
    } else {
        None
    }
}

fn month_index(name: &str) -> (r: Option<u32>)
    ensures
        match r {
            Some(k) => month_number(name@) == Some(k as int),
            None => month_number(name@) is None,
        },
{
    if same_text(name, "january") {
        Some(0)
    } else if same_text(name, "february") {
        Some(1)
    } else if same_text(name, "march") {
        Some(2)
    } else if same_text(name, "april") {
        Some(3)
    } else if same_text(name, "may") {
        Some(4)
    } else if same_text(name, "june") {
        Some(5)
    } else if same_text(name, "july") {
        Some(6)
    } else if same_text(name, "august") {
        Some(7)
    } else if same_text(name, "september") {
        Some(8)
    } else if same_text(name, "october") {
        Some(9)
    } else if same_text(name, "november") {
        Some(10)
    } else if same_text(name, "december") {
        Some(11)
    } else {
        None
    }
}

/// The first and last date that `show <value>` covers: `week` is today's
/// week (last week with `last`); a month name is that month of this year,
/// or of last year where the month is still to come. Or the message.
pub open spec fn show_range(value: Seq<char>, today: Date, last: bool) -> Result<(int, int), Seq<char>> {
    if value == "week"@ {
        let d = if last { today.days - 7 } else { today.days as int };
        Ok((d, d))
    } else {
        match month_number(value) {
            Some(m) => {
                let (y, current) = year_month_of(today.days as int);
                let year = if m + 1 > current { y - 1 } else { y };
                match ymd_days(year, m + 1, 1) {
                    Some(first) => match last_of_month(first) {
                        Some(l) => Ok((first, l)),
                        None => Err("Date out of range"@),
                    },
                    None => Err("Date out of range"@),
                }
            },
            None => Err("Unknown show command: "@ + value),
        }
    }
}

/// The dates that `show <value>` covers; see `show_range`.
fn show_dates(value: &str, today: Date, last: bool) -> (r: Result<(Date, Date), String>)
    requires
        today_ok(today),
    ensures
        match show_range(value@, today, last) {
            Ok((f, l)) => r is Ok && r->Ok_0.0.days == f && r->Ok_0.1.days == l && r->Ok_0.0.wf()
                && r->Ok_0.1.wf(),
            Err(m) => r is Err && r->Err_0@ == m,
        },
{
    if same_text(value, "week") {
        let d = if last { Date { days: today.days - 7 } } else { today };
        return Ok((d, d));
    }
    match month_index(value) {
        Some(m) => {
            let (y, current) = year_month(today);
            let year = if m + 1 > current { y - 1 } else { y };
            match from_ymd(year, m + 1, 1) {
                Some(first) => match last_day_of_month(first) {
                    Some(l) => Ok((first, l)),
                    None => Err(String::from_str("Date out of range")),
                },
                None => Err(String::from_str("Date out of range")),
            }
        },
        None => {
            let mut e = String::from_str("Unknown show command: ");
            e.append(value);
            Err(e)
        },
    }
}

/// What a command shows.
pub enum Report {
    /// A message, shown as it is.
    Message(String),
    /// The weekly tables from the week of `first_date` to that of `last_date`.
    Table { first_date: Date, last_date: Date, show_weekend: bool, html: bool },
}

/// What a command shows, and whether the ledger it leaves is to be stored.
pub struct Outcome {
    pub report: Report,
    pub save: bool,
}

/// The tokens joined with `sep` between them.
pub open spec fn joined(ts: Seq<String>, sep: Seq<char>) -> Seq<char>
    decreases ts.len(),
{
    if ts.len() == 0 {
        Seq::empty()
    } else if ts.len() == 1 {
        ts[0]@
    } else {
        joined(ts.drop_last(), sep) + sep + ts.last()@
    }
}

/// The outcome shows message `m` and stores nothing.
pub open spec fn shows_message(r: Outcome, m: Seq<char>) -> bool {
    &&& !r.save
    &&& r.report matches Report::Message(t) && t@ == m
}

/// The outcome shows the tables from `first` to `last` and stores the ledger.
pub open spec fn shows_table(r: Outcome, first: int, last: int, show_weekend: bool, html: bool) -> bool {
    &&& r.save
    &&& r.report matches Report::Table { first_date, last_date, show_weekend: w, html: h }
        && first_date.days == first && last_date.days == last && w == show_weekend && h == html
}

/// Some fact is recorded by the plan.
pub open spec fn plan_has_content(p: DaysPlan) -> bool {
    p.start is Some || p.stop is Some || p.lunch is Some || p.projects.len() > 0
}

/// The ledger records the plan's edits, in date order, where they hold any
/// fact; otherwise it is unchanged.
pub open spec fn edits_recorded(before: Ledger, after: Ledger, p: DaysPlan) -> bool {
    if plan_has_content(p) {
        &&& after.undone.len() == 0
        &&& after.days.len() == before.days.len() + p.dates.len()
        &&& after.days.subrange(0, before.days.len() as int) == before.days
        &&& forall|k: int| 0 <= k < p.dates.len() ==> {
            let d = #[trigger] after.days[before.days.len() + k];
            &&& d.date.days == p.dates[k]
            &&& d.start == p.start
            &&& d.stop == p.stop
            &&& d.lunch == p.lunch
            &&& d.projects@ == p.projects
        }
    } else {
        after == before
    }
}

/// The effect of `undo` or `redo`: the ledger step, then the message, or
/// the table of the affected date.
pub open spec fn step_outcome(
    before: Config,
    after: Config,
    r: Outcome,
    next: Ledger,
    moved: Seq<Day>,
    message: Seq<char>,
) -> bool {
    &&& after.ledger() == next
    &&& after.project_names == before.project_names
    &&& after.working_time_per_day == before.working_time_per_day
    &&& if moved.len() == 0 {
        shows_message(r, message)
    } else {
        let d = moved.last().date.days as int;
        shows_table(r, d, d, weekday_of(d) >= 5, false)
    }
}

/// The effect of the edits and report that tokens `ts` ask for, once
/// `add`, `last`, `html` and `show` are taken out; see `run_command`.
pub open spec fn plan_outcome(
    ts: Seq<String>,
    names: Seq<String>,
    show: Option<String>,
    html: bool,
    last: bool,
    today: Date,
    before: Ledger,
    after: Ledger,
    r: Outcome,
) -> bool {
    match days_plan(ts, names, last, today) {
        Err(m) => shows_message(r, m) && after == before,
        Ok(p) => {
            let weekend = has_marker(p.rest, "--weekend"@) || exists|k: int|
                0 <= k < p.dates.len() && weekday_of(#[trigger] p.dates[k]) >= 5;
            let leftover = without_marker(p.rest, "--weekend"@);
            if leftover.len() > 0 {
                &&& shows_message(r, "Unknown or extra argument '"@ + joined(leftover, ", "@) + "'"@)
                &&& after == before
            } else {
                match show {
                    None => edits_recorded(before, after, p) && shows_table(
                        r,
                        p.dates[0],
                        p.dates[0],
                        weekend,
                        false,
                    ),
                    Some(v) => match show_range(v@, today, last) {
                        Err(m) => shows_message(r, m) && after == before,
                        Ok((f, l)) => edits_recorded(before, after, p) && shows_table(
                            r,
                            f,
                            l,
                            weekend,
                            html,
                        ),
                    },
                }
            }
        },
    }
}

/// The effect of a command that neither undoes nor redoes: `add <name>`
/// registers a project first; see `plan_outcome` for the rest.
pub open spec fn edit_outcome(ts: Seq<String>, today: Date, before: Config, after: Config, r: Outcome) -> bool {
    &&& after.working_time_per_day == before.working_time_per_day
    &&& match after_value(ts, "add"@) {
        Err(m) => shows_message(r, m) && after.ledger() == before.ledger(),
        Ok((added, t1)) => {
            let names = match added {
                Some(n) => before.project_names@.push(n),
                None => before.project_names@,
            };
            let last = has_marker(t1, "last"@);
            let t2 = without_marker(t1, "last"@);
            let html = has_marker(t2, "html"@);
            let t3 = without_marker(t2, "html"@);
            &&& after.project_names@ == names
            &&& match after_value(t3, "show"@) {
                Err(m) => shows_message(r, m) && after.ledger() == before.ledger(),
                Ok((show, t4)) => plan_outcome(
                    t4,
                    names,
                    show,
                    html,
                    last,
                    today,
                    before.ledger(),
                    after.ledger(),
                    r,
                ),
            }
        },
    }
}

fn message(m: String) -> (r: Outcome)
    ensures
        shows_message(r, m@),
{
    Outcome { report: Report::Message(m), save: false }
}

/// The tokens joined with `, `; see `joined`.
fn join_tokens(ts: &Vec<String>) -> (r: String)
    ensures
        r@ == joined(ts@, ", "@),
{
    let mut out = String::new();
    let mut i: usize = 0;
    while i < ts.len()
        invariant
            i <= ts@.len(),
            out@ == joined(ts@.subrange(0, i as int), ", "@),
        decreases ts@.len() - i,
    {
        let ghost next = ts@.subrange(0, i + 1);
        assert(next.drop_last() =~= ts@.subrange(0, i as int));
        if i > 0 {
            out.append(", ");
        }
        out.append(ts[i].as_str());
        i += 1;
        assert(out@ =~= joined(next, ", "@));
    }
    assert(ts@.subrange(0, ts@.len() as int) =~= ts@);
    out
}

/// Undoes the last edit; see `step_outcome`.
fn undo_report(config: &mut Config) -> (r: Outcome)
    requires
        old(config).wf(),
    ensures
        final(config).wf(),
        step_outcome(
            *old(config),
            *final(config),
            r,
            undo_spec(old(config).ledger()),
            old(config).ledger().days,
            "Nothing to undo"@,
        ),
{
    match config.undo() {
        Ok(date) => Outcome {
            report: Report::Table {
                first_date: date,
                last_date: date,
                show_weekend: date.is_weekend(),
                html: false,
            },
            save: true,
        },
        Err(m) => message(m),
    }
}

/// Redoes the last undone edit; see `step_outcome`.
fn redo_report(config: &mut Config) -> (r: Outcome)
    requires
        old(config).wf(),
    ensures
        final(config).wf(),
        step_outcome(
            *old(config),
            *final(config),
            r,
            redo_spec(old(config).ledger()),
            old(config).ledger().undone,
            "Nothing to redo"@,
        ),
{
    match config.redo() {
        Ok(date) => Outcome {
            report: Report::Table {
                first_date: date,
                last_date: date,
                show_weekend: date.is_weekend(),
                html: false,
            },
            save: true,
        },
        Err(m) => message(m),
    }
}

/// Records copies of the edits where the first holds any fact.
fn record_edits(config: &mut Config, days: &Vec<Day>)
    requires
        old(config).wf(),
        forall|i: int| 0 <= i < days@.len() ==> #[trigger] days@[i].wf(),
    ensures
        final(config).wf(),
        final(config).project_names == old(config).project_names,
        final(config).working_time_per_day == old(config).working_time_per_day,
        if days@.len() > 0 && days@[0].has_content_spec() {
            &&& final(config).ledger().undone.len() == 0
            &&& final(config).ledger().days.len() == old(config).ledger().days.len() + days@.len()
            &&& final(config).ledger().days.subrange(0, old(config).ledger().days.len() as int)
                == old(config).ledger().days
            &&& forall|k: int| 0 <= k < days@.len() ==> {
                let d = #[trigger] final(config).ledger().days[old(config).ledger().days.len() + k];
                &&& d.date == days@[k].date
                &&& d.start == days@[k].start
                &&& d.stop == days@[k].stop
                &&& d.lunch == days@[k].lunch
                &&& d.projects@ == days@[k].projects@
            }
        } else {
            final(config).ledger() == old(config).ledger()
        },
{
    if days.len() == 0 || !days[0].has_content() {
        return;
    }
    let ghost before = config.ledger().days;
    let mut k: usize = 0;
    while k < days.len()
        invariant
            k <= days@.len(),
            config.wf(),
            forall|i: int| 0 <= i < days@.len() ==> #[trigger] days@[i].wf(),
            config.project_names == old(config).project_names,
            config.working_time_per_day == old(config).working_time_per_day,
            before == old(config).ledger().days,
            k > 0 ==> config.ledger().undone.len() == 0,
            config.ledger().days.len() == before.len() + k,
            config.ledger().days.subrange(0, before.len() as int) == before,
            forall|i: int| 0 <= i < k ==> {
                let d = #[trigger] config.ledger().days[before.len() + i];
                &&& d.date == days@[i].date
                &&& d.start == days@[i].start
                &&& d.stop == days@[i].stop
                &&& d.lunch == days@[i].lunch
                &&& d.projects@ == days@[i].projects@
            },
        decreases days@.len() - k,
    {
        assert(days@[k as int].wf());
        let ghost prev = config.ledger().days;
        config.add_day(days[k].duplicate());
        assert(config.ledger().days.subrange(0, before.len() as int) =~= prev.subrange(
            0,
            before.len() as int,
        ));
        k += 1;
    }
}

/// The edits and report that the remaining tokens ask for; see
/// `plan_outcome`.
fn report_edits(
    args: Vec<String>,
    show: Option<String>,
    show_html: bool,
    last: bool,
    config: &mut Config,
    today: Date,
) -> (r: Outcome)
    requires
        old(config).wf(),
        today_ok(today),
    ensures
        final(config).wf(),
        final(config).project_names == old(config).project_names,
        final(config).working_time_per_day == old(config).working_time_per_day,
        plan_outcome(
            args@,
            old(config).project_names@,
            show,
            show_html,
            last,
            today,
            old(config).ledger(),
            final(config).ledger(),
            r,
        ),
{
    let ghost t4 = args@;
    let (days, args) = match parse_days(args, &config.project_names, last, today) {
        Ok(v) => v,
        Err(m) => return message(m),
    };
    let ghost p = days_plan(t4, config.project_names@, last, today)->Ok_0;
    assert(p.dates.len() >= 1);
    assert forall|k: int| 0 <= k < days@.len() implies #[trigger] days@[k].wf() by {}
    let (show_weekend, args) = get_show_weekend(&days, args);
    assert(show_weekend == (has_marker(p.rest, "--weekend"@) || exists|k: int|
        0 <= k < p.dates.len() && weekday_of(#[trigger] p.dates[k]) >= 5)) by {
        if exists|k: int| 0 <= k < days@.len() && weekday_of(#[trigger] days@[k].date.days as int) >= 5 {
            let k = choose|k: int| 0 <= k < days@.len() && weekday_of(#[trigger] days@[k].date.days as int) >= 5;
            assert(weekday_of(p.dates[k]) >= 5);
        }
        if exists|k: int| 0 <= k < p.dates.len() && weekday_of(#[trigger] p.dates[k]) >= 5 {
            let k = choose|k: int| 0 <= k < p.dates.len() && weekday_of(#[trigger] p.dates[k]) >= 5;
            assert(weekday_of(days@[k].date.days as int) >= 5);
        }
    }
    if args.len() > 0 {
        let mut m = String::from_str("Unknown or extra argument '");
        m.append(join_tokens(&args).as_str());
        m.append("'");
        return message(m);
    }
    let (first_date, last_date, html) = match show {
        None => (days[0].date, days[0].date, false),
        Some(v) => match show_dates(v.as_str(), today, last) {
            Ok((f, l)) => (f, l, show_html),
            Err(m) => return message(m),
        },
    };
    let ghost before = config.ledger();
    record_edits(config, &days);
    proof {
        assert(days@[0].date.days == p.dates[0]);
        assert(days@[0].has_content_spec() == plan_has_content(p));
        if plan_has_content(p) {
            assert forall|k: int| 0 <= k < p.dates.len() implies {
                let d = #[trigger] config.ledger().days[before.days.len() + k];
                &&& d.date.days == p.dates[k]
                &&& d.start == p.start
                &&& d.stop == p.stop
                &&& d.lunch == p.lunch
                &&& d.projects@ == p.projects
            } by {
                assert(days@[k].date.days == p.dates[k]);
            }
        }
    }
    Outcome { report: Report::Table { first_date, last_date, show_weekend, html }, save: true }
}

/// A command that neither undoes nor redoes; see `edit_outcome`.
fn edit_command(args: Vec<String>, config: &mut Config, today: Date) -> (r: Outcome)
    requires
        old(config).wf(),
        today_ok(today),
    ensures
        final(config).wf(),
        edit_outcome(args@, today, *old(config), *final(config), r),
{
    let (project_name, args) = consume_after_target("add", args);
    let project_name = match project_name {
        Ok(v) => v,
        Err(m) => return message(m),
    };
    let (last, args) = consume_bool("last", args);
    match project_name {
        Some(name) => config.add_project(name),
        None => {},
    }
    let (show_html, args) = consume_bool("html", args);
    let (show, args) = consume_after_target("show", args);
    let show = match show {
        Ok(v) => v,
        Err(m) => return message(m),
    };
    report_edits(args, show, show_html, last, config, today)
}

/// Carries out one command against the ledger, with `today`'s date: `undo`,
/// `redo`, or registering a project (`add <name>`), recording edits and
/// choosing the report (`show week`, `show <month>`, `html`, `last`,
/// `--weekend`). A message outcome stores nothing.
pub fn run_command(args: Vec<String>, config: &mut Config, today: Date) -> (r: Outcome)
    requires
        old(config).wf(),
        today_ok(today),
    ensures
        final(config).wf(),
        has_marker(args@, "undo"@) ==> step_outcome(
            *old(config),
            *final(config),
            r,
            undo_spec(old(config).ledger()),
            old(config).ledger().days,
            "Nothing to undo"@,
        ),
        !has_marker(args@, "undo"@) && has_marker(without_marker(args@, "undo"@), "redo"@)
            ==> step_outcome(
            *old(config),
            *final(config),
            r,
            redo_spec(old(config).ledger()),
            old(config).ledger().undone,
            "Nothing to redo"@,
        ),
        !has_marker(args@, "undo"@) && !has_marker(without_marker(args@, "undo"@), "redo"@)
            ==> edit_outcome(
            without_marker(without_marker(args@, "undo"@), "redo"@),
            today,
            *old(config),
            *final(config),
            r,
        ),
{
    let (has_undo, args) = consume_bool("undo", args);
    if has_undo {
        return undo_report(config);
    }
    let (has_redo, args) = consume_bool("redo", args);
    if has_redo {
        return redo_report(config);
    }
    edit_command(args, config, today)
}

} // verus!
