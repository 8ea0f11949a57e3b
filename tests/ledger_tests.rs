use timereport::naive_date::Date;
use timereport::{Config, DateTime, Day, Duration};

const FRIDAY: i32 = 739002;

fn at(days: i32, h: u32, m: u32) -> Option<DateTime> {
    Some(DateTime { date: Date { days }, seconds: h * 3600 + m * 60 })
}

fn day(days: i32) -> Day {
    Day { date: Date { days }, start: None, stop: None, lunch: None, projects: Vec::new() }
}

fn project(name: &str, hours: i64) -> (String, Duration) {
    (name.to_string(), Duration { seconds: hours * 3600 })
}

fn time_of(d: &Day, name: &str) -> Option<i64> {
    d.projects.iter().find(|p| p.0 == name).map(|p| p.1.seconds)
}

#[test]
fn combine_later_edit_wins_each_field() {
    let mut a = day(FRIDAY);
    a.start = at(FRIDAY, 8, 0);
    a.lunch = Some(Duration { seconds: 1800 });
    let mut b = day(FRIDAY);
    b.start = at(FRIDAY, 9, 0);
    b.stop = at(FRIDAY, 17, 0);
    let c = a.combine(&b);
    assert_eq!(c.start, b.start);
    assert_eq!(c.stop, b.stop);
    assert_eq!(c.lunch, a.lunch);
    assert_eq!(c.date, a.date);
}

#[test]
fn combine_start_for_all_presence_combinations() {
    for (sa, sb) in [(None, None), (at(FRIDAY, 8, 0), None), (None, at(FRIDAY, 9, 0)), (at(FRIDAY, 8, 0), at(FRIDAY, 9, 0))] {
        let mut a = day(FRIDAY);
        a.start = sa;
        let mut b = day(FRIDAY);
        b.start = sb;
        assert_eq!(a.combine(&b).start, sb.or(sa));
    }
}

#[test]
fn combine_unites_projects_later_wins() {
    let mut a = day(FRIDAY);
    a.projects = vec![project("p1", 1), project("p2", 2)];
    let mut b = day(FRIDAY);
    b.projects = vec![project("p2", 5), project("p3", 3)];
    let c = a.combine(&b);
    assert_eq!(c.projects.len(), 3);
    assert_eq!(time_of(&c, "p1"), Some(3600));
    assert_eq!(time_of(&c, "p2"), Some(5 * 3600));
    assert_eq!(time_of(&c, "p3"), Some(3 * 3600));
}

#[test]
fn has_content() {
    assert!(!day(FRIDAY).has_content());
    let mut d = day(FRIDAY);
    d.lunch = Some(Duration { seconds: 0 });
    assert!(d.has_content());
    let mut p = day(FRIDAY);
    p.projects = vec![project("p", 1)];
    assert!(p.has_content());
}

#[test]
fn new_config_has_default_working_time() {
    let c = Config::new(Vec::new());
    assert_eq!(c.working_time_per_day.seconds, 27900);
    assert!(c.project_names.is_empty());
    assert!(c.days.is_empty() && c.undone.is_empty());
}

#[test]
fn nothing_to_undo_on_fresh_ledger() {
    let mut c = Config::new(Vec::new());
    assert_eq!(c.undo(), Err("Nothing to undo".to_string()));
    assert!(c.days.is_empty() && c.undone.is_empty());
}

#[test]
fn nothing_to_redo_on_fresh_ledger() {
    let mut c = Config::new(Vec::new());
    assert_eq!(c.redo(), Err("Nothing to redo".to_string()));
}

#[test]
fn undo_then_redo() {
    let mut c = Config::new(Vec::new());
    let mut d = day(FRIDAY);
    d.start = at(FRIDAY, 8, 0);
    c.add_day(d);
    assert_eq!(c.undo(), Ok(Date { days: FRIDAY }));
    assert!(c.day_from_date().is_empty());
    assert_eq!(c.undone.len(), 1);
    assert_eq!(c.redo(), Ok(Date { days: FRIDAY }));
    let view = c.day_from_date();
    assert_eq!(view.len(), 1);
    assert_eq!(view[0].start, at(FRIDAY, 8, 0));
}

#[test]
fn add_then_undo_restores_view() {
    let mut c = Config::new(Vec::new());
    let mut first = day(FRIDAY);
    first.start = at(FRIDAY, 8, 0);
    c.add_day(first);
    let before = format!("{:?}", c.day_from_date());
    let mut second = day(FRIDAY);
    second.start = at(FRIDAY, 9, 0);
    c.add_day(second);
    assert_ne!(format!("{:?}", c.day_from_date()), before);
    c.undo().unwrap();
    assert_eq!(format!("{:?}", c.day_from_date()), before);
}

#[test]
fn adding_day_clears_undone() {
    let mut c = Config::new(Vec::new());
    c.add_day(day(FRIDAY));
    c.undo().unwrap();
    c.add_day(day(FRIDAY));
    assert_eq!(c.redo(), Err("Nothing to redo".to_string()));
}

#[test]
fn day_from_date_merges_same_date_in_order() {
    let mut c = Config::new(Vec::new());
    let mut a = day(FRIDAY);
    a.start = at(FRIDAY, 7, 0);
    let mut b = day(FRIDAY - 1);
    b.start = at(FRIDAY - 1, 6, 0);
    let mut d = day(FRIDAY);
    d.stop = at(FRIDAY, 15, 0);
    c.add_day(a);
    c.add_day(b);
    c.add_day(d);
    let view = c.day_from_date();
    assert_eq!(view.len(), 2);
    assert_eq!(view[0].date, Date { days: FRIDAY });
    assert_eq!(view[0].start, at(FRIDAY, 7, 0));
    assert_eq!(view[0].stop, at(FRIDAY, 15, 0));
    assert_eq!(view[1].date, Date { days: FRIDAY - 1 });
}

#[test]
fn edit_order_of_same_date_matters() {
    let mut a = day(FRIDAY);
    a.start = at(FRIDAY, 7, 0);
    let mut b = day(FRIDAY);
    b.start = at(FRIDAY, 9, 0);
    let mut one = Config::new(Vec::new());
    one.add_day(a.clone());
    one.add_day(b.clone());
    let mut two = Config::new(Vec::new());
    two.add_day(b);
    two.add_day(a);
    assert_eq!(one.day_from_date()[0].start, at(FRIDAY, 9, 0));
    assert_eq!(two.day_from_date()[0].start, at(FRIDAY, 7, 0));
}
