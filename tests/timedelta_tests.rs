use timereport::timedelta::{hhmm, Duration};
use timereport::traits::Parsable;

fn seconds(text: &str) -> i64 {
    Duration::from_str(text).expect("a duration").seconds
}

#[test]
fn parse_error() {
    let actual = Duration::from_str("foo");
    assert_eq!(actual, Err("Could not parse timedelta string 'foo'.".to_string()));
}

#[test]
fn empty_text_is_an_error() {
    assert_eq!(
        Duration::from_str(""),
        Err("Could not parse timedelta string ''.".to_string())
    );
}

#[test]
fn lunch_1_75_is_one_hour_seventy_five_minutes_and_renders_2_15() {
    let d = Duration::from_str("1:75").unwrap();
    assert_eq!(d.seconds, 3600 + 75 * 60);
    assert_eq!(d.to_hhmm(), "02:15");
}

#[test]
fn hours_and_minutes_forms() {
    assert_eq!(seconds("8:15"), 8 * 3600 + 15 * 60);
    assert_eq!(seconds("08:15"), 8 * 3600 + 15 * 60);
    assert_eq!(seconds("815"), 8 * 3600 + 15 * 60);
    assert_eq!(seconds("12:30"), 12 * 3600 + 30 * 60);
}

#[test]
fn minutes_form() {
    assert_eq!(seconds("45m"), 45 * 60);
    assert_eq!(seconds("5m"), 5 * 60);
}

#[test]
fn hours_form() {
    assert_eq!(seconds("8"), 8 * 3600);
    assert_eq!(seconds("0"), 0);
}

#[test]
fn three_digits_before_m_read_as_hours_and_minutes() {
    assert_eq!(seconds("123m"), 3600 + 23 * 60);
}

#[test]
fn form_found_anywhere_in_text() {
    assert_eq!(seconds("x8:15y"), 8 * 3600 + 15 * 60);
    assert_eq!(seconds("about 45m"), 45 * 60);
}

#[test]
fn too_large_is_an_error() {
    assert!(Duration::from_str("99999999999999999999").is_err());
}

#[test]
fn hhmm_pads_and_keeps_sign() {
    assert_eq!(Duration { seconds: 0 }.to_hhmm(), "00:00");
    assert_eq!(Duration { seconds: 8 * 3600 }.to_hhmm(), "08:00");
    assert_eq!(Duration { seconds: -5400 }.to_hhmm(), "-01:30");
    assert_eq!(Duration { seconds: -1800 }.to_hhmm(), "-00:30");
    assert_eq!(Duration { seconds: 100 * 3600 + 59 }.to_hhmm(), "100:00");
    assert_eq!(hhmm(7 * 3600 + 15 * 60), "07:15");
}

#[test]
fn round_trip_at_minute_granularity() {
    for s in [0i64, 59, 60, 61, 3599, 3600, 27900, 27959, 360000, 86399 * 3] {
        let text = Duration { seconds: s }.to_hhmm();
        assert_eq!(seconds(&text), s - s % 60, "{}", text);
    }
}

#[test]
fn negative_rendering_reads_back_without_sign() {
    let text = Duration { seconds: -60 }.to_hhmm();
    assert_eq!(text, "-00:01");
    assert_eq!(seconds(&text), 60);
}
