//! Data models of the habit tracker.

pub mod date;
pub mod habit;
pub mod log;
pub mod week;

pub use date::Date;
pub use habit::{Frequency, Habit};
pub use log::{HabitLog, HabitStatus};
pub use week::Week;
