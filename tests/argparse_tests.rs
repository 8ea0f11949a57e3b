use timereport::argparse::{
    consume_after_target, consume_bool, consume_dates, consume_two_after_target, date_from_arg,
    resolve_date_token,
};
use timereport::Date;

fn tokens(s: &str) -> Vec<String> {
    s.split_whitespace().map(|t| t.to_string()).collect()
}

// 2024-04-26, a Friday.
const FRIDAY: i32 = 739002;
// 2024-04-22, the Monday of that week.
const MONDAY: i32 = 738998;

#[test]
fn consume_bool_removes_every_occurrence() {
    let (found, rest) = consume_bool("last", tokens("last a last b"));
    assert!(found);
    assert_eq!(rest, tokens("a b"));
}

#[test]
fn consume_bool_absent() {
    let (found, rest) = consume_bool("last", tokens("a b"));
    assert!(!found);
    assert_eq!(rest, tokens("a b"));
}

#[test]
fn consume_bool_twice_finds_nothing() {
    let (_, once) = consume_bool("undo", tokens("undo x undo y"));
    let (found, twice) = consume_bool("undo", once.clone());
    assert!(!found);
    assert_eq!(twice, once);
}

#[test]
fn consume_after_target_takes_value() {
    let (value, rest) = consume_after_target("start", tokens("monday start 8:30 x"));
    assert_eq!(value, Ok(Some("8:30".to_string())));
    assert_eq!(rest, tokens("monday x"));
}

#[test]
fn consume_after_target_first_occurrence_only() {
    let (value, rest) = consume_after_target("start", tokens("start 8 start 9"));
    assert_eq!(value, Ok(Some("8".to_string())));
    assert_eq!(rest, tokens("start 9"));
}

#[test]
fn consume_after_target_absent() {
    let (value, rest) = consume_after_target("start", tokens("a b"));
    assert_eq!(value, Ok(None));
    assert_eq!(rest, tokens("a b"));
}

#[test]
fn consume_after_target_missing_value() {
    let (value, rest) = consume_after_target("start", tokens("a start"));
    assert_eq!(value, Err("No argument after start".to_string()));
    assert_eq!(rest, tokens("a start"));
}

#[test]
fn consume_two_after_target_takes_two() {
    let (value, rest) = consume_two_after_target("project", tokens("x project p 8 y"));
    assert_eq!(value, Ok(Some(("p".to_string(), "8".to_string()))));
    assert_eq!(rest, tokens("x y"));
}

#[test]
fn consume_two_after_target_not_enough() {
    let (value, rest) = consume_two_after_target("project", tokens("project p"));
    assert_eq!(value, Err("Not enough arguments after project".to_string()));
    assert_eq!(rest, tokens("project p"));
}

#[test]
fn consume_two_after_target_absent() {
    let (value, rest) = consume_two_after_target("project", tokens("p 8"));
    assert_eq!(value, Ok(None));
    assert_eq!(rest, tokens("p 8"));
}

#[test]
fn weekday_names_resolve_in_current_week() {
    let today = Date { days: FRIDAY };
    assert_eq!(date_from_arg(&"monday".to_string(), today), Some(Date { days: MONDAY }));
    assert_eq!(date_from_arg(&"Sunday".to_string(), today), Some(Date { days: MONDAY + 6 }));
    assert_eq!(date_from_arg(&"FRIDAY".to_string(), today), Some(Date { days: FRIDAY }));
}

#[test]
fn yesterday_is_day_before() {
    let today = Date { days: FRIDAY };
    assert_eq!(date_from_arg(&"yesterday".to_string(), today), Some(Date { days: FRIDAY - 1 }));
    assert_eq!(date_from_arg(&"Yesterday".to_string(), today), Some(Date { days: FRIDAY - 1 }));
}

#[test]
fn iso_date_is_read_literally() {
    let today = Date { days: FRIDAY };
    assert_eq!(date_from_arg(&"2024-04-22".to_string(), today), Some(Date { days: MONDAY }));
    assert_eq!(date_from_arg(&"2024-02-30".to_string(), today), None);
    assert_eq!(date_from_arg(&"start".to_string(), today), None);
}

#[test]
fn resolve_date_token_prefers_words_over_iso() {
    let today = Date { days: FRIDAY };
    let iso = Some(Date { days: 5 });
    assert_eq!(resolve_date_token("tuesday", iso, today), Some(Date { days: MONDAY + 1 }));
    assert_eq!(resolve_date_token("yesterday", iso, today), Some(Date { days: FRIDAY - 1 }));
    assert_eq!(resolve_date_token("other", iso, today), iso);
}

#[test]
fn consume_dates_in_discovery_order() {
    let today = Date { days: FRIDAY };
    let (dates, rest) = consume_dates(tokens("tuesday start monday 8 2024-04-26"), today);
    assert_eq!(
        dates,
        vec![Date { days: MONDAY + 1 }, Date { days: MONDAY }, Date { days: FRIDAY }]
    );
    assert_eq!(rest, tokens("start 8"));
}

#[test]
fn consume_dates_none() {
    let today = Date { days: FRIDAY };
    let (dates, rest) = consume_dates(tokens("start 8"), today);
    assert!(dates.is_empty());
    assert_eq!(rest, tokens("start 8"));
}
