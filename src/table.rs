//! The report engine: worked time, default-project time and flex per day,
//! and the text of the weekly table that shows them.
use crate::day::{durations_ok, project_time, projects_sum, Day};
use crate::naive_date::{day_numbers, in_range, iso_text, iso_text_of, monday_of, Date};
use crate::text::{decimal_text, push_decimal};
use crate::timedelta::{hhmm, hhmm_text, Duration, MAX_SECONDS};
use vstd::prelude::*;

verus! {

/// Time between clock-in and clock-out minus lunch, where all three are
/// recorded.
pub open spec fn worked_seconds(d: Day) -> Option<int> {
    match (d.start, d.stop, d.lunch) {
        (Some(a), Some(b), Some(l)) => Some(b.instant() - a.instant() - l.seconds),
        _ => None,
    }
}

/// Worked time not logged against a named project; may be negative.
pub open spec fn default_project_seconds(d: Day) -> Option<int> {
    match worked_seconds(d) {
        Some(w) => Some(w - projects_sum(d.projects@)),
        None => None,
    }
}

/// Worked time minus the expected working time.
pub open spec fn flex_seconds(d: Day, working: int) -> Option<int> {
    match worked_seconds(d) {
        Some(w) => Some(w - working),
        None => None,
    }
}

fn worked_time(day: &Day) -> (r: Option<i128>)
    requires
        day.wf(),
    ensures
        match r {
            Some(w) => worked_seconds(*day) == Some(w as int) && -(MAX_SECONDS + 20_000_000_000_000) <= w
                <= MAX_SECONDS + 20_000_000_000_000,
            None => worked_seconds(*day) is None,
        },
{
    match (day.start, day.stop, day.lunch) {
        (Some(a), Some(b), Some(l)) => {
            let ia = a.date.days as i128 * 86400 + a.seconds as i128;
            let ib = b.date.days as i128 * 86400 + b.seconds as i128;
            Some(ib - ia - l.seconds as i128)
        },
        _ => None,
    }
}

fn sum_projects(ps: &Vec<(String, Duration)>) -> (r: i128)
    requires
        durations_ok(ps@),
    ensures
        r == projects_sum(ps@),
        -(ps@.len() * MAX_SECONDS) <= r <= ps@.len() * MAX_SECONDS,
{
    let mut acc: i128 = 0;
    let mut i: usize = 0;
    while i < ps.len()
        invariant
            i <= ps@.len(),
            durations_ok(ps@),
            acc == projects_sum(ps@.subrange(0, i as int)),
            -(i * MAX_SECONDS) <= acc <= i * MAX_SECONDS,
        decreases ps@.len() - i,
    {
        assert(ps@.subrange(0, i + 1).drop_last() =~= ps@.subrange(0, i as int));
        assert(ps@[i as int].1.wf());
        acc = acc + ps[i].1.seconds as i128;
        i += 1;
    }
    assert(ps@.subrange(0, ps@.len() as int) =~= ps@);
    acc
}

/// Worked time not logged against a named project; see
/// `default_project_seconds`.
pub fn default_project_time(day: &Day) -> (r: Option<i128>)
    requires
        day.wf(),
    ensures
        match r {
            Some(s) => default_project_seconds(*day) == Some(s as int),
            None => default_project_seconds(*day) is None,
        },
        r matches Some(s) ==> s > i128::MIN,
{
    match worked_time(day) {
        Some(w) => {
            let p = sum_projects(&day.projects);
            let n = day.projects.len();
            assert(n * MAX_SECONDS <= 18_446_744_073_709_551_615 * 9_223_372_036_854_775)
                by (nonlinear_arith)
                requires
                    n <= 18_446_744_073_709_551_615,
            ;
            Some(w - p)
        },
        None => None,
    }
}

/// Worked time minus the expected working time; see `flex_seconds`.
pub fn flex_time(day: &Day, working_time_per_day: Duration) -> (r: Option<i128>)
    requires
        day.wf(),
        working_time_per_day.wf(),
    ensures
        match r {
            Some(s) => flex_seconds(*day, working_time_per_day.seconds as int) == Some(s as int),
            None => flex_seconds(*day, working_time_per_day.seconds as int) is None,
        },
        r matches Some(s) ==> s > i128::MIN,
{
    match worked_time(day) {
        Some(w) => Some(w - working_time_per_day.seconds as i128),
        None => None,
    }
}

/// The rows of the table below the two date rows.
pub enum RowKind {
    Start,
    Stop,
    Lunch,
    DefaultProject,
    Project(String),
    Flex,
}

/// Rendering of optional seconds: `HH:MM`, or empty.
pub open spec fn optional_hhmm(s: Option<int>) -> Seq<char> {
    match s {
        Some(x) => hhmm_text(x),
        None => Seq::empty(),
    }
}

/// The text of one row's cell for a recorded day.
pub open spec fn cell_text(d: Day, row: RowKind, working: int) -> Seq<char> {
    match row {
        RowKind::Start => match d.start {
            Some(t) => hhmm_text(t.seconds as int),
            None => Seq::empty(),
        },
        RowKind::Stop => match d.stop {
            Some(t) => hhmm_text(t.seconds as int),
            None => Seq::empty(),
        },
        RowKind::Lunch => match d.lunch {
            Some(l) => hhmm_text(l.seconds as int),
            None => Seq::empty(),
        },
        RowKind::DefaultProject => optional_hhmm(default_project_seconds(d)),
        RowKind::Project(name) => optional_hhmm(project_time(d.projects@, name@)),
        RowKind::Flex => optional_hhmm(flex_seconds(d, working)),
    }
}

/// The first day at or after `p` with the given date.
pub open spec fn day_for_from(ds: Seq<Day>, date: int, p: int) -> Option<Day>
    decreases ds.len() - p,
{
    if !(0 <= p < ds.len()) {
        None
    } else if ds[p].date.days == date {
        Some(ds[p])
    } else {
        day_for_from(ds, date, p + 1)
    }
}

/// The text of one row's cell for a date: empty where nothing is recorded.
pub open spec fn week_cell(ds: Seq<Day>, date: int, row: RowKind, working: int) -> Seq<char> {
    match day_for_from(ds, date, 0) {
        Some(d) => cell_text(d, row, working),
        None => Seq::empty(),
    }
}

/// The dates of the week that holds `date`, Monday first: five, or seven
/// with the weekend.
pub open spec fn week_of(date: int, show_weekend: bool) -> Seq<int> {
    Seq::new(if show_weekend { 7 } else { 5 }, |k: int| monday_of(date) + k)
}

/// Every date of the week that holds `date` is representable.
pub open spec fn week_in_range(date: int) -> bool {
    in_range(monday_of(date)) && in_range(monday_of(date) + 6)
}

/// The English name of a weekday (Monday 0).
pub open spec fn weekday_name(k: int) -> Seq<char> {
    if k == 0 {
        "Monday"@
    } else if k == 1 {
        "Tuesday"@
    } else if k == 2 {
        "Wednesday"@
    } else if k == 3 {
        "Thursday"@
    } else if k == 4 {
        "Friday"@
    } else if k == 5 {
        "Saturday"@
    } else {
        "Sunday"@
    }
}

/// The characters of each string.
pub open spec fn texts(v: Seq<String>) -> Seq<Seq<char>> {
    v.map_values(|s: String| s@)
}

/// The characters of each cell of each row.
pub open spec fn table_texts(rows: Seq<Vec<String>>) -> Seq<Seq<Seq<char>>> {
    rows.map_values(|row: Vec<String>| texts(row@))
}

/// A labelled row of cells over the week.
pub open spec fn cells_row(
    label: Seq<char>,
    week: Seq<int>,
    ds: Seq<Day>,
    row: RowKind,
    working: int,
) -> Seq<Seq<char>> {
    seq![label] + Seq::new(week.len(), |k: int| week_cell(ds, week[k], row, working))
}

/// The label of the named project at position `i`: its reference number
/// (`i + 2`), a dot and its name.
pub open spec fn project_label(i: int, name: Seq<char>) -> Seq<char> {
    decimal_text((i + 2) as nat) + ". "@ + name
}

/// The rows of the table for the week of `date`: dates, weekday names,
/// start, stop, lunch, the default project, each named project, flex.
pub open spec fn table_spec(
    date: int,
    ds: Seq<Day>,
    show_weekend: bool,
    names: Seq<String>,
    working: int,
) -> Seq<Seq<Seq<char>>> {
    let week = week_of(date, show_weekend);
    seq![
        seq![Seq::<char>::empty()] + Seq::new(week.len(), |k: int| iso_text_of(week[k])),
        seq![Seq::<char>::empty()] + Seq::new(week.len(), |k: int| weekday_name(k)),
        cells_row("start"@, week, ds, RowKind::Start, working),
        cells_row("stop"@, week, ds, RowKind::Stop, working),
        cells_row("lunch"@, week, ds, RowKind::Lunch, working),
        cells_row("1. Default project"@, week, ds, RowKind::DefaultProject, working),
    ] + Seq::new(
        names.len(),
        |i: int| cells_row(project_label(i, names[i]@), week, ds, RowKind::Project(names[i]), working),
    ) + seq![cells_row("Flex"@, week, ds, RowKind::Flex, working)]
}

/// Position of the first day with the given date.
fn find_day(ds: &Vec<Day>, date: Date) -> (r: Option<usize>)
    ensures
        match r {
            Some(j) => j < ds@.len() && day_for_from(ds@, date.days as int, 0) == Some(ds@[j as int]),
            None => day_for_from(ds@, date.days as int, 0) is None,
        },
{
    let mut j: usize = 0;
    while j < ds.len()
        invariant
            j <= ds@.len(),
            day_for_from(ds@, date.days as int, 0) == day_for_from(ds@, date.days as int, j as int),
        decreases ds@.len() - j,
    {
        if ds[j].date.days == date.days {
            return Some(j);
        }
        j += 1;
    }
    None
}

/// Time logged against `name`; the last entry with that name counts.
fn project_lookup(ps: &Vec<(String, Duration)>, name: &String) -> (r: Option<i64>)
    ensures
        match r {
            Some(s) => project_time(ps@, name@) == Some(s as int),
            None => project_time(ps@, name@) is None,
        },
{
    let mut i: usize = ps.len();
    assert(ps@.subrange(0, ps@.len() as int) =~= ps@);
    while i > 0
        invariant
            i <= ps@.len(),
            project_time(ps@, name@) == project_time(ps@.subrange(0, i as int), name@),
        decreases i,
    {
        assert(ps@.subrange(0, i as int).drop_last() =~= ps@.subrange(0, i - 1));
        if ps[i - 1].0 == *name {
            return Some(ps[i - 1].1.seconds);
        }
        i -= 1;
    }
    None
}

fn optional_text(s: Option<i128>) -> (r: String)
    requires
        s matches Some(x) ==> x > i128::MIN,
    ensures
        r@ == optional_hhmm(match s {
            Some(x) => Some(x as int),
            None => None,
        }),
{
    match s {
        Some(x) => hhmm(x),
        None => String::new(),
    }
}

/// The text of one row's cell for a recorded day; see `cell_text`.
fn cell(day: &Day, row: &RowKind, working_time_per_day: Duration) -> (r: String)
    requires
        day.wf(),
        working_time_per_day.wf(),
    ensures
        r@ == cell_text(*day, *row, working_time_per_day.seconds as int),
{
    match row {
        RowKind::Start => match day.start {
            Some(t) => hhmm(t.seconds as i128),
            None => String::new(),
        },
        RowKind::Stop => match day.stop {
            Some(t) => hhmm(t.seconds as i128),
            None => String::new(),
        },
        RowKind::Lunch => match day.lunch {
            Some(l) => hhmm(l.seconds as i128),
            None => String::new(),
        },
        RowKind::DefaultProject => optional_text(default_project_time(day)),
        RowKind::Project(name) => match project_lookup(&day.projects, name) {
            Some(x) => hhmm(x as i128),
            None => String::new(),
        },
        RowKind::Flex => optional_text(flex_time(day, working_time_per_day)),
    }
}

/// A labelled row: `label`, then the row's cell for each date.
fn labelled_row(
    label: String,
    week_days: &Vec<Date>,
    days: &Vec<Day>,
    row: &RowKind,
    working_time_per_day: Duration,
) -> (r: Vec<String>)
    requires
        forall|i: int| 0 <= i < days@.len() ==> #[trigger] days@[i].wf(),
        working_time_per_day.wf(),
    ensures
        texts(r@) == seq![label@] + Seq::new(
            week_days@.len(),
            |k: int| week_cell(days@, week_days@[k].days as int, *row, working_time_per_day.seconds as int),
        ),
{
    let ghost want = seq![label@] + Seq::new(
        week_days@.len(),
        |k: int| week_cell(days@, week_days@[k].days as int, *row, working_time_per_day.seconds as int),
    );
    let mut r: Vec<String> = Vec::new();
    r.push(label);
    let mut k: usize = 0;
    while k < week_days.len()
        invariant
            k <= week_days@.len(),
            forall|i: int| 0 <= i < days@.len() ==> #[trigger] days@[i].wf(),
            working_time_per_day.wf(),
            want == seq![want[0]] + Seq::new(
                week_days@.len(),
                |k: int| week_cell(days@, week_days@[k].days as int, *row, working_time_per_day.seconds as int),
            ),
            texts(r@) == want.subrange(0, k + 1),
        decreases week_days@.len() - k,
    {
        let text = match find_day(days, week_days[k]) {
            Some(j) => cell(&days[j], row, working_time_per_day),
            None => String::new(),
        };
        assert(text@ == want[k + 1]);
        let ghost prev = r@;
        r.push(text);
        assert(texts(r@) =~= texts(prev).push(text@));
        k += 1;
        assert(texts(r@) =~= want.subrange(0, k + 1));
    }
    assert(want.subrange(0, week_days@.len() as int + 1) =~= want);
    r
}

/// The dates of the week that holds `date`, Monday first; see `week_of`.
fn days_in_week_of(date: Date, show_weekend: bool) -> (r: Vec<Date>)
    requires
        date.wf(),
        week_in_range(date.days as int),
    ensures
        day_numbers(r@) == week_of(date.days as int, show_weekend),
        forall|k: int| 0 <= k < r@.len() ==> #[trigger] r@[k].wf(),
{
    let monday = date.days - date.weekday_from_monday() as i32;
    let count: i32 = if show_weekend { 7 } else { 5 };
    let mut r: Vec<Date> = Vec::new();
    let mut k: i32 = 0;
    while k < count
        invariant
            0 <= k <= count,
            count == (if show_weekend { 7int } else { 5int }),
            monday == monday_of(date.days as int),
            week_in_range(date.days as int),
            r@.len() == k,
            forall|i: int| 0 <= i < k ==> #[trigger] r@[i].days == monday + i,
            forall|i: int| 0 <= i < r@.len() ==> #[trigger] r@[i].wf(),
        decreases count - k,
    {
        r.push(Date { days: monday + k });
        k += 1;
    }
    assert(day_numbers(r@) =~= week_of(date.days as int, show_weekend));
    r
}

/// The English name of a weekday; see `weekday_name`.
fn weekday_text(k: u32) -> (r: String)
    ensures
        r@ == weekday_name(k as int),
{
    String::from_str(
        if k == 0 {
            "Monday"
        } else if k == 1 {
            "Tuesday"
        } else if k == 2 {
            "Wednesday"
        } else if k == 3 {
            "Thursday"
        } else if k == 4 {
            "Friday"
        } else if k == 5 {
            "Saturday"
        } else {
            "Sunday"
        },
    )
}

/// The two heading rows: ISO dates, and weekday names.
fn date_rows(week_days: &Vec<Date>) -> (r: (Vec<String>, Vec<String>))
    requires
        forall|k: int| 0 <= k < week_days@.len() ==> #[trigger] week_days@[k].wf(),
        week_days@.len() <= 7,
    ensures
        texts(r.0@) == seq![Seq::<char>::empty()] + Seq::new(
            week_days@.len(),
            |k: int| iso_text_of(week_days@[k].days as int),
        ),
        texts(r.1@) == seq![Seq::<char>::empty()] + Seq::new(
            week_days@.len(),
            |k: int| weekday_name(k),
        ),
{
    let ghost want0 = seq![Seq::<char>::empty()] + Seq::new(
        week_days@.len(),
        |k: int| iso_text_of(week_days@[k].days as int),
    );
    let ghost want1 = seq![Seq::<char>::empty()] + Seq::new(
        week_days@.len(),
        |k: int| weekday_name(k),
    );
    let mut dates: Vec<String> = Vec::new();
    let mut names: Vec<String> = Vec::new();
    dates.push(String::new());
    names.push(String::new());
    let mut k: usize = 0;
    while k < week_days.len()
        invariant
            k <= week_days@.len() <= 7,
            forall|i: int| 0 <= i < week_days@.len() ==> #[trigger] week_days@[i].wf(),
            want0 == seq![Seq::<char>::empty()] + Seq::new(
                week_days@.len(),
                |k: int| iso_text_of(week_days@[k].days as int),
            ),
            want1 == seq![Seq::<char>::empty()] + Seq::new(week_days@.len(), |k: int| weekday_name(k)),
            texts(dates@) == want0.subrange(0, k + 1),
            texts(names@) == want1.subrange(0, k + 1),
        decreases week_days@.len() - k,
    {
        let d = iso_text(week_days[k]);
        let n = weekday_text(k as u32);
        assert(d@ == want0[k + 1]);
        assert(n@ == want1[k + 1]);
        let ghost prev0 = dates@;
        let ghost prev1 = names@;
        dates.push(d);
        names.push(n);
        assert(texts(dates@) =~= texts(prev0).push(d@));
        assert(texts(names@) =~= texts(prev1).push(n@));
        k += 1;
        assert(texts(dates@) =~= want0.subrange(0, k + 1));
        assert(texts(names@) =~= want1.subrange(0, k + 1));
    }
    assert(want0.subrange(0, week_days@.len() as int + 1) =~= want0);
    assert(want1.subrange(0, week_days@.len() as int + 1) =~= want1);
    (dates, names)
}

/// The label of the named project at position `i`; see `project_label`.
fn project_row_label(i: usize, name: &String) -> (r: String)
    requires
        i < usize::MAX - 2,
    ensures
        r@ == project_label(i as int, name@),
{
    let mut label = String::new();
    push_decimal(&mut label, i as u128 + 2);
    label.append(". ");
    label.append(name.as_str());
    label
}

/// The rows of the table for the week of `date_to_display`; see
/// `table_spec`. `day_from_date` is a reconciled view.
pub fn create_table(
    date_to_display: Date,
    day_from_date: &Vec<Day>,
    show_weekend: bool,
    project_names: &Vec<String>,
    working_time_per_day: &Duration,
) -> (r: Vec<Vec<String>>)
    requires
        date_to_display.wf(),
        week_in_range(date_to_display.days as int),
        forall|i: int| 0 <= i < day_from_date@.len() ==> #[trigger] day_from_date@[i].wf(),
        working_time_per_day.wf(),
        project_names@.len() < usize::MAX - 2,
    ensures
        table_texts(r@) == table_spec(
            date_to_display.days as int,
            day_from_date@,
            show_weekend,
            project_names@,
            working_time_per_day.seconds as int,
        ),
{
    let working = *working_time_per_day;
    let ghost w = working.seconds as int;
    let ghost want = table_spec(
        date_to_display.days as int,
        day_from_date@,
        show_weekend,
        project_names@,
        w,
    );
    let week_days = days_in_week_of(date_to_display, show_weekend);
    let ghost week = week_of(date_to_display.days as int, show_weekend);
    assert forall|k: int| 0 <= k < week_days@.len() implies #[trigger] week_days@[k].days as int == week[k] by {
        assert(day_numbers(week_days@)[k] == week_days@[k].days as int);
    }
    let (dates, names) = date_rows(&week_days);
    let start = labelled_row(String::from_str("start"), &week_days, day_from_date, &RowKind::Start, working);
    let stop = labelled_row(String::from_str("stop"), &week_days, day_from_date, &RowKind::Stop, working);
    let lunch = labelled_row(String::from_str("lunch"), &week_days, day_from_date, &RowKind::Lunch, working);
    let default_project = labelled_row(
        String::from_str("1. Default project"),
        &week_days,
        day_from_date,
        &RowKind::DefaultProject,
        working,
    );
    assert(texts(dates@) =~= want[0]);
    assert(texts(names@) =~= want[1]);
    assert(texts(start@) =~= want[2]);
    assert(texts(stop@) =~= want[3]);
    assert(texts(lunch@) =~= want[4]);
    assert(texts(default_project@) =~= want[5]);
    let mut rows: Vec<Vec<String>> = Vec::new();
    rows.push(dates);
    rows.push(names);
    rows.push(start);
    rows.push(stop);
    rows.push(lunch);
    rows.push(default_project);
    assert(table_texts(rows@) =~= want.subrange(0, 6));
    let mut i: usize = 0;
    while i < project_names.len()
        invariant
            i <= project_names@.len() < usize::MAX - 2,
            forall|j: int| 0 <= j < day_from_date@.len() ==> #[trigger] day_from_date@[j].wf(),
            working.wf(),
            w == working.seconds,
            want == table_spec(date_to_display.days as int, day_from_date@, show_weekend, project_names@, w),
            week == week_of(date_to_display.days as int, show_weekend),
            week_days@.len() == week.len(),
            forall|k: int| 0 <= k < week_days@.len() ==> #[trigger] week_days@[k].days as int == week[k],
            table_texts(rows@) == want.subrange(0, 6 + i),
        decreases project_names@.len() - i,
    {
        let label = project_row_label(i, &project_names[i]);
        let row = RowKind::Project(project_names[i].clone());
        let cells = labelled_row(label, &week_days, day_from_date, &row, working);
        assert(texts(cells@) =~= want[6 + i]);
        let ghost prev = rows@;
        rows.push(cells);
        assert(table_texts(rows@) =~= table_texts(prev).push(texts(cells@)));
        i += 1;
        assert(table_texts(rows@) =~= want.subrange(0, 6 + i));
    }
    let flex = labelled_row(String::from_str("Flex"), &week_days, day_from_date, &RowKind::Flex, working);
    assert(texts(flex@) =~= want[6 + project_names@.len() as int]);
    let ghost prev = rows@;
    rows.push(flex);
    assert(table_texts(rows@) =~= table_texts(prev).push(texts(flex@)));
    assert(table_texts(rows@) =~= want);
    rows
}

} // verus!
