use timereport::html_table::{
    changed_cells, time_to_decimal_string, time_to_decimal_string_flex,
    time_to_decimal_string_normal, to_html_row, to_html_table,
};

fn row(cells: &[&str]) -> Vec<String> {
    cells.iter().map(|c| c.to_string()).collect()
}

#[test]
fn decimal_hours() {
    assert_eq!(time_to_decimal_string_normal("07:45".to_string()), "7,75");
    assert_eq!(time_to_decimal_string_normal("00:01".to_string()), "0,02");
    assert_eq!(time_to_decimal_string_normal("08:00".to_string()), "8,00");
    assert_eq!(time_to_decimal_string_normal("-01:30".to_string()), "-1,50");
    assert_eq!(time_to_decimal_string_normal("".to_string()), "");
    assert_eq!(time_to_decimal_string_normal("23:59".to_string()), "23,98");
}

#[test]
fn decimal_flex() {
    assert_eq!(time_to_decimal_string_flex("-00:45".to_string()), "0,75");
    assert_eq!(time_to_decimal_string_flex("00:30".to_string()), "");
    assert_eq!(time_to_decimal_string_flex("00:00".to_string()), "0,00");
    assert_eq!(time_to_decimal_string_flex("-00:00".to_string()), "-0,00");
}

#[test]
fn decimal_errors() {
    assert_eq!(
        time_to_decimal_string("8".to_string(), false),
        "Error: Invalid format '8'. Use HH:MM"
    );
    assert_eq!(
        time_to_decimal_string("24:00".to_string(), false),
        "Error: Hours in '24:00' must be < 24"
    );
    assert_eq!(
        time_to_decimal_string("01:60".to_string(), false),
        "Error: Minutes in '01:60' must be < 60"
    );
    assert_eq!(time_to_decimal_string("x:00".to_string(), false), "Error: Invalid hours 'x'");
    assert_eq!(time_to_decimal_string("1:y".to_string(), false), "Error: Invalid minutes 'y'");
}

#[test]
fn html_row_has_copy_button() {
    let r = to_html_row(&row(&["1. Default project", "07:15", "", "08:00"]), false);
    assert_eq!(
        r,
        row(&[
            "<button onclick=\"copyToClipboard('7,25\t\t8,00')\">1. Default project</button>",
            "7,25",
            "",
            "8,00"
        ])
    );
}

#[test]
fn html_table_rows() {
    let rows = vec![
        row(&["", "2024-04-26"]),
        row(&["", "Friday"]),
        row(&["start", "10:00"]),
        row(&["stop", "17:00"]),
        row(&["lunch", "00:00"]),
        row(&["1. Default project", "07:00"]),
        row(&["Flex", "-00:45"]),
    ];
    let html = to_html_table(&rows);
    assert_eq!(html[2], row(&["start", "10:00"]));
    assert_eq!(html[5][1], "7,00");
    assert_eq!(html[6][1], "0,75");
    assert!(html[6][0].contains(">Flex</button>"));
}

#[test]
fn changed_cells_lists_differences() {
    let a = vec![row(&["start", "08:30"]), row(&["stop", ""])];
    let b = vec![row(&["start", ""]), row(&["stop", ""])];
    assert_eq!(changed_cells(&a, &b), vec![(0, 1)]);
    assert!(changed_cells(&a, &a).is_empty());
}
