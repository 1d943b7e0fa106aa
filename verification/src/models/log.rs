//! The three-valued status of a habit on a day, and the log entry that
//! records it.

use crate::models::date::Date;
use crate::text::option_text;
use vstd::prelude::*;

verus! {

/// Status of a habit for a given day.
#[derive(Debug, Clone, Copy, PartialEq, Eq, Structural)]
pub enum HabitStatus {
    /// Habit was completed.
    Done,
    /// Habit was intentionally skipped.
    Skipped,
    /// No status recorded (the default).
    Unmarked,
}

impl Default for HabitStatus {
    fn default() -> (r: Self)
        ensures
            r == HabitStatus::Unmarked,
    {
        HabitStatus::Unmarked
    }
}

impl HabitStatus {
    /// The successor of a status in the fixed cycle
    /// `Done -> Skipped -> Unmarked -> Done`.
    pub open spec fn next(self) -> HabitStatus {
        match self {
            HabitStatus::Done => HabitStatus::Skipped,
            HabitStatus::Skipped => HabitStatus::Unmarked,
            HabitStatus::Unmarked => HabitStatus::Done,
        }
    }

    /// The text shown for a status.
    pub open spec fn label(self) -> Seq<char> {
        match self {
            HabitStatus::Done => "[Done]"@,
            HabitStatus::Skipped => "[Skipped]"@,
            HabitStatus::Unmarked => "[ ]"@,
        }
    }

    /// Cycle through statuses: Done -> Skipped -> Unmarked -> Done.
    pub fn cycle(&self) -> (r: Self)
        ensures
            r == self.next(),
    {
        match self {
            HabitStatus::Done => HabitStatus::Skipped,
            HabitStatus::Skipped => HabitStatus::Unmarked,
            HabitStatus::Unmarked => HabitStatus::Done,
        }
    }

    /// Get the display string for the status.
    pub fn display_str(&self) -> (r: &'static str)
        ensures
            r@ == self.label(),
    {
        match self {
            HabitStatus::Done => "[Done]",
            HabitStatus::Skipped => "[Skipped]",
            HabitStatus::Unmarked => "[ ]",
        }
    }
}

/// The cycle has period exactly three: three steps lead back to the start,
/// and the three statuses visited on the way are pairwise distinct.
pub proof fn lemma_cycle_period_three(s: HabitStatus)
    ensures
        s.next().next().next() == s,
        s != s.next(),
        s.next() != s.next().next(),
        s.next().next() != s,
{
}

/// What a log entry is, as a mathematical value.
pub struct LogModel {
    /// Identifier of the habit that the entry refers to.
    pub habit_id: u128,
    /// Day number of the entry's date.
    pub day: int,
    /// Status of the habit on that day.
    pub status: HabitStatus,
    /// Optional note about the habit on that day.
    pub note: Option<Seq<char>>,
}

impl LogModel {
    /// The entry that is created the first time a habit and a day are
    /// written to: unmarked and without a note.
    pub open spec fn blank(habit_id: u128, day: int) -> LogModel {
        LogModel { habit_id, day, status: HabitStatus::Unmarked, note: None }
    }

    /// Whether the entry is the one for the given habit and day.
    pub open spec fn is_for(self, habit_id: u128, day: int) -> bool {
        self.habit_id == habit_id && self.day == day
    }
}

/// Log entry for a habit on a specific day.
#[derive(Debug, Clone, PartialEq, Eq)]
pub struct HabitLog {
    /// ID of the habit this log entry refers to.
    pub habit_id: u128,
    /// Date for this log entry.
    pub date: Date,
    /// Status of the habit on this day.
    pub status: HabitStatus,
    /// Optional note about this habit on this day.
    pub note: Option<String>,
}

impl View for HabitLog {
    type V = LogModel;

    open spec fn view(&self) -> LogModel {
        LogModel {
            habit_id: self.habit_id,
            day: self.date@,
            status: self.status,
            note: option_text(self.note),
        }
    }
}

impl HabitLog {
    /// Create a new habit log entry.
    pub fn new(habit_id: u128, date: Date) -> (r: Self)
        ensures
            r@ == LogModel::blank(habit_id, date@),
    {
        HabitLog { habit_id, date, status: HabitStatus::Unmarked, note: None }
    }

    /// Create a new habit log entry with a specific status.
    pub fn with_status(habit_id: u128, date: Date, status: HabitStatus) -> (r: Self)
        ensures
            r@ == (LogModel { status, ..LogModel::blank(habit_id, date@) }),
    {
        HabitLog { habit_id, date, status, note: None }
    }

    /// Add or update the note for this log entry.
    pub fn set_note(&mut self, note: Option<String>)
        ensures
            final(self)@ == (LogModel { note: option_text(note), ..old(self)@ }),
    {
        self.note = note;
    }

    /// Toggle the status to the next value.
    pub fn toggle_status(&mut self)
        ensures
            final(self)@ == (LogModel { status: old(self).status.next(), ..old(self)@ }),
    {
        self.status = self.status.cycle();
    }
}

} // verus!
