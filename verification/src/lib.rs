//! Tasks in prose documents: headings marked `TODO` or `DONE` with directives
//! such as `SCHEDULED: <2024-12-01 Sun 10:00 +1w>`, and the agendas of days,
//! weeks and months that show them as scheduled, overdue or upcoming.

pub mod agenda;
pub mod cli;
pub mod clock;
pub mod date;
pub mod directive;
pub mod dispatch;
pub mod document;
pub mod error;
pub mod extract;
pub mod glob;
pub mod heading;
pub mod holidays;
pub mod laws;
pub mod occurrence;
pub mod render;
pub mod repeater;
pub mod roundtrip;
pub mod run;
pub mod text;
pub mod timestamp;
pub mod types;
