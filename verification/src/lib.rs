//! The engine behind a month-grid calendar: date arithmetic, the mapping of
//! grid cells to days, the lifecycle of events and of the application state,
//! and the rules that decide when the events are saved.
//!
//! - [`date`]: dates, leap years, the lengths of months, steps by month and
//!   by year.
//! - [`days`]: the number of each day, weekdays, steps by day and by week.
//! - [`grid`]: which day each cell of the six-by-seven grid shows.
//! - [`text`]: dates as text, written and read back.
//! - [`event`]: an event and its edit states.
//! - [`app`]: the application state, its messages, and when to save.
//! - [`persist`]: the saved events as records, and the steps of loading and
//!   saving with their errors.
//!
//! Every function is verified against its contract, but for the calls into
//! `chrono`, whose contracts are taken on trust.

pub mod app;
pub mod date;
pub mod days;
pub mod event;
mod gregorian;
pub mod grid;
pub mod persist;
pub mod text;
