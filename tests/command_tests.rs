use timereport::command::{clock_on, parse_days, parse_projects};
use timereport::naive_date::Date;
use timereport::table::create_table;
use timereport::{get_show_weekend, parse_date, run_command, Config, Report};

// 2024-04-26, a Friday.
const FRIDAY: i32 = 739002;
const MONDAY: i32 = 738998;

fn tokens(s: &str) -> Vec<String> {
    s.split_whitespace().map(|t| t.to_string()).collect()
}

fn today() -> Date {
    Date { days: FRIDAY }
}

fn message(report: &Report) -> String {
    match report {
        Report::Message(m) => m.clone(),
        Report::Table { .. } => panic!("expected a message"),
    }
}

fn week_table(config: &Config, date: Date) -> Vec<Vec<String>> {
    create_table(date, &config.day_from_date(), false, &config.project_names, &config.working_time_per_day)
}

#[test]
fn parse_date_reads_hour_and_minutes() {
    let dt = parse_date("8:30", today()).unwrap();
    assert_eq!(dt.date, today());
    assert_eq!(dt.seconds, 8 * 3600 + 30 * 60);
    assert_eq!(parse_date("8", today()).unwrap().seconds, 8 * 3600);
    assert_eq!(parse_date("16:00", today()).unwrap().seconds, 16 * 3600);
}

#[test]
fn parse_date_error() {
    let output = parse_date("2024-01-32", today());
    assert_eq!(
        output,
        Err("Could not parse date string '2024-01-32'. Error: 'input contains invalid characters'"
            .to_string())
    );
}

#[test]
fn parse_date_out_of_range_hour() {
    assert!(parse_date("25", today()).is_err());
}

#[test]
fn parse_projects_unknown_project() {
    let names: Vec<String> = Vec::new();
    let r = parse_projects(tokens("project myproject 8"), &names);
    assert_eq!(r.err(), Some("Unknown project 'myproject'".to_string()));
}

#[test]
fn parse_projects_by_name_and_number() {
    let names = vec!["p1".to_string(), "p2".to_string()];
    let (ps, rest) = parse_projects(tokens("x project p2 1:30"), &names).unwrap();
    assert_eq!(ps.len(), 1);
    assert_eq!(ps[0].0, "p2");
    assert_eq!(ps[0].1.seconds, 5400);
    assert_eq!(rest, tokens("x"));
    let (ps, _) = parse_projects(tokens("project 2 8"), &names).unwrap();
    assert_eq!(ps[0].0, "p1");
    let (ps, _) = parse_projects(tokens("project +3 8"), &names).unwrap();
    assert_eq!(ps[0].0, "p2");
}

#[test]
fn parse_projects_index_errors() {
    let names = vec!["myproject".to_string()];
    assert_eq!(
        parse_projects(tokens("project 0 8"), &names).err(),
        Some("No project with index 0".to_string())
    );
    assert_eq!(
        parse_projects(tokens("project 1 8"), &names).err(),
        Some("Cannot report time on default project".to_string())
    );
    assert_eq!(
        parse_projects(tokens("project 999 8"), &names).err(),
        Some("No project with index 999".to_string())
    );
    assert_eq!(
        parse_projects(tokens("project myproject eight"), &names).err(),
        Some("Could not parse timedelta string 'eight'.".to_string())
    );
}

#[test]
fn parse_days_builds_one_edit_per_date() {
    let names: Vec<String> = Vec::new();
    let (days, rest) = parse_days(tokens("monday tuesday start 8 foo"), &names, false, today()).unwrap();
    assert_eq!(days.len(), 2);
    assert_eq!(days[0].date, Date { days: MONDAY });
    assert_eq!(days[1].date, Date { days: MONDAY + 1 });
    assert_eq!(days[0].start.unwrap().seconds, 8 * 3600);
    assert_eq!(rest, tokens("foo"));
}

#[test]
fn parse_days_defaults_to_today_and_last_shifts_a_week() {
    let names: Vec<String> = Vec::new();
    let (days, _) = parse_days(tokens("stop 17"), &names, false, today()).unwrap();
    assert_eq!(days[0].date, today());
    let (days, _) = parse_days(tokens("saturday start 8"), &names, true, today()).unwrap();
    assert_eq!(days[0].date, Date { days: MONDAY + 5 - 7 });
}

#[test]
fn parse_days_missing_value() {
    let names: Vec<String> = Vec::new();
    let r = parse_days(tokens("start"), &names, false, today());
    assert_eq!(r.err(), Some("No argument after start".to_string()));
}

#[test]
fn show_weekend_from_flag_or_date() {
    let names: Vec<String> = Vec::new();
    let (days, rest) = parse_days(tokens("start 8 --weekend"), &names, false, today()).unwrap();
    let (show, rest) = get_show_weekend(&days, rest);
    assert!(show);
    assert!(rest.is_empty());
    let (days, rest) = parse_days(tokens("sunday start 8"), &names, false, today()).unwrap();
    assert!(get_show_weekend(&days, rest).0);
    let (days, rest) = parse_days(tokens("start 8"), &names, false, today()).unwrap();
    assert!(!get_show_weekend(&days, rest).0);
}

#[test]
fn start_scenario_shows_week_with_start_on_the_date() {
    let mut config = Config::new(Vec::new());
    let outcome = run_command(tokens("2024-04-26 start 8:30"), &mut config, today());
    assert!(outcome.save);
    match outcome.report {
        Report::Table { first_date, last_date, show_weekend, html } => {
            assert_eq!(first_date, today());
            assert_eq!(last_date, today());
            assert!(!show_weekend);
            assert!(!html);
        }
        Report::Message(m) => panic!("{}", m),
    }
    let rows = week_table(&config, today());
    assert_eq!(rows[0], vec!["", "2024-04-22", "2024-04-23", "2024-04-24", "2024-04-25", "2024-04-26"]);
    assert_eq!(rows[1], vec!["", "Monday", "Tuesday", "Wednesday", "Thursday", "Friday"]);
    assert_eq!(rows[2], vec!["start", "", "", "", "", "08:30"]);
    assert_eq!(rows[3], vec!["stop", "", "", "", "", ""]);
}

#[test]
fn lunch_scenario_renders_2_15() {
    let mut config = Config::new(Vec::new());
    run_command(tokens("lunch 1:75"), &mut config, today());
    let rows = week_table(&config, today());
    assert_eq!(rows[4], vec!["lunch", "", "", "", "", "02:15"]);
}

#[test]
fn unknown_project_scenario() {
    let mut config = Config::new(Vec::new());
    let outcome = run_command(tokens("project myproject 8"), &mut config, today());
    assert!(!outcome.save);
    assert_eq!(message(&outcome.report), "Unknown project 'myproject'");
    assert!(config.days.is_empty());
}

#[test]
fn flex_and_default_project_scenario() {
    let mut config = Config::new(Vec::new());
    run_command(tokens("start 8:00 stop 16:00 lunch 45m"), &mut config, today());
    let rows = week_table(&config, today());
    assert_eq!(rows[5], vec!["1. Default project", "", "", "", "", "07:15"]);
    assert_eq!(rows.last().unwrap(), &vec!["Flex", "", "", "", "", "-00:30"]);
}

#[test]
fn positive_and_negative_flex() {
    let mut config = Config::new(Vec::new());
    run_command(tokens("start 8 stop 17 lunch 45m"), &mut config, today());
    assert_eq!(week_table(&config, today()).last().unwrap()[5], "00:30");
    let mut config = Config::new(Vec::new());
    run_command(tokens("start 8 stop 15 lunch 45m"), &mut config, today());
    assert_eq!(week_table(&config, today()).last().unwrap()[5], "-01:30");
}

#[test]
fn project_time_reduces_default_project() {
    let mut config = Config::new(Vec::new());
    run_command(tokens("add p1"), &mut config, today());
    run_command(tokens("project p1 1"), &mut config, today());
    run_command(tokens("start 8:00 stop 16:00 lunch 45m"), &mut config, today());
    let rows = week_table(&config, today());
    assert_eq!(rows[5][5], "06:15");
    assert_eq!(rows[6], vec!["2. p1", "", "", "", "", "01:00"]);
}

#[test]
fn undo_scenario_on_fresh_ledger() {
    let mut config = Config::new(Vec::new());
    let outcome = run_command(tokens("undo"), &mut config, today());
    assert!(!outcome.save);
    assert_eq!(message(&outcome.report), "Nothing to undo");
    assert!(config.days.is_empty() && config.undone.is_empty());
}

#[test]
fn undo_and_redo_commands() {
    let mut config = Config::new(Vec::new());
    run_command(tokens("start 8"), &mut config, today());
    let outcome = run_command(tokens("undo"), &mut config, today());
    assert!(outcome.save);
    assert!(week_table(&config, today())[2][5].is_empty());
    run_command(tokens("redo"), &mut config, today());
    assert_eq!(week_table(&config, today())[2][5], "08:00");
    let outcome = run_command(tokens("redo"), &mut config, today());
    assert_eq!(message(&outcome.report), "Nothing to redo");
}

#[test]
fn extra_argument_is_reported_and_nothing_recorded() {
    let mut config = Config::new(Vec::new());
    let outcome = run_command(tokens("start 8 blargh foo"), &mut config, today());
    assert!(!outcome.save);
    assert_eq!(message(&outcome.report), "Unknown or extra argument 'blargh, foo'");
    assert!(config.days.is_empty());
}

#[test]
fn show_week_and_month() {
    let mut config = Config::new(Vec::new());
    let outcome = run_command(tokens("show last week --weekend"), &mut config, today());
    match outcome.report {
        Report::Table { first_date, last_date, show_weekend, .. } => {
            assert_eq!(first_date, Date { days: FRIDAY - 7 });
            assert_eq!(last_date, Date { days: FRIDAY - 7 });
            assert!(show_weekend);
        }
        Report::Message(m) => panic!("{}", m),
    }
    let outcome = run_command(tokens("show january html"), &mut config, today());
    match outcome.report {
        Report::Table { first_date, last_date, html, .. } => {
            assert_eq!(first_date, Date { days: 738886 });
            assert_eq!(last_date, Date { days: 738886 + 30 });
            assert!(html);
        }
        Report::Message(m) => panic!("{}", m),
    }
    let outcome = run_command(tokens("show december"), &mut config, today());
    match outcome.report {
        Report::Table { first_date, .. } => assert_eq!(first_date, Date { days: 738885 - 30 }),
        Report::Message(m) => panic!("{}", m),
    }
}

#[test]
fn show_unknown() {
    let mut config = Config::new(Vec::new());
    let outcome = run_command(tokens("show foo"), &mut config, today());
    assert_eq!(message(&outcome.report), "Unknown show command: foo");
}

#[test]
fn added_project_is_numbered() {
    let mut config = Config::new(Vec::new());
    run_command(tokens("add myproject"), &mut config, today());
    assert_eq!(config.project_names, vec!["myproject".to_string()]);
    assert_eq!(week_table(&config, today())[6][0], "2. myproject");
    let outcome = run_command(tokens("project 2 8"), &mut config, today());
    assert!(outcome.save);
    assert_eq!(week_table(&config, today())[6][5], "08:00");
}

#[test]
fn clock_on_builds_instant_or_message() {
    let dt = clock_on("8", Ok(8 * 3600), today()).unwrap();
    assert_eq!(dt.date, today());
    assert_eq!(dt.seconds, 8 * 3600);
    assert_eq!(
        clock_on("x", Err("input is not enough".to_string()), today()),
        Err("Could not parse date string 'x'. Error: 'input is not enough'".to_string())
    );
}
