//! Streaming text statistics: byte, character, line and word counts and the
//! longest line of each input, folded into grand totals and rendered as a
//! fixed-column report.
pub mod fixed_string;
pub mod laws;
pub mod report;
pub mod stats;

pub use fixed_string::FixedString;
pub use report::{has_total, header, shows_names, total, Options};
pub use stats::{read_file, Statistics};
