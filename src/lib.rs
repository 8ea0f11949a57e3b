//! Time tracking: duration parsing and formatting, consumption of
//! command-line tokens, date resolution, reconciliation of day edits and the
//! derived report arithmetic.
pub mod argparse;
pub mod command;
pub mod config;
pub mod day;
pub mod html_table;
pub mod naive_date;
pub mod table;
pub mod text;
pub mod timedelta;
pub mod traits;

pub use command::{get_show_weekend, parse_date, run_command, Outcome, Report};
pub use config::Config;
pub use day::{DateTime, Day};
pub use naive_date::Date;
pub use timedelta::Duration;
