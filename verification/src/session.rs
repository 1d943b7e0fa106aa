//! The editing session as a mathematical value: what each operation of
//! the session makes of it, and what holds of staging and committing
//! whatever the session holds.

use crate::app::{day_symbol, AppView, HabitMgmtMode};
use crate::document::{is_first_log, lemma_log_position, log_position, sorted_by_order, DataModel};
use crate::laws::{
    lemma_ensure_log_reads, lemma_propagate_idempotent, lemma_propagate_reads,
    lemma_set_same_status, lemma_set_status_reads,
};
use crate::models::date::{in_range, weekday_index};
use crate::models::habit::{Frequency, HabitModel};
use crate::models::log::HabitStatus;
use crate::models::week::{days_since_monday, monday_of};
use crate::storage::StorageModel;
use crate::text::{is_blank, trimmed};
use vstd::prelude::*;

verus! {

/// The session as a mathematical value.
pub struct AppModel {
    /// The store.
    pub storage: StorageModel,
    /// Day number of the first day of the week being viewed.
    pub week_start: int,
    /// Selected day index (0 = Monday, 6 = Sunday).
    pub selected_day_idx: nat,
    /// Selected habit index in the current day.
    pub selected_habit_idx: nat,
    /// Current view.
    pub view: AppView,
    /// Whether the session should end.
    pub should_quit: bool,
    /// Input buffer for note editing and habit management.
    pub input_buffer: Seq<char>,
    /// Habit management mode.
    pub habit_mgmt_mode: HabitMgmtMode,
    /// Selected habit index in habit management view.
    pub habit_mgmt_selected_idx: nat,
    /// Last export file path.
    pub last_export_path: Option<Seq<char>>,
    /// The staged status change: habit, day number and pending status.
    pub staged: Option<(u128, int, HabitStatus)>,
}

/// Whether the registry's first habit `id` is a weekly one.
pub open spec fn is_weekly(data: DataModel, id: u128) -> bool {
    match data.habit(id) {
        Some(habit) => habit.frequency == Frequency::Weekly,
        None => false,
    }
}

/// The document after a status was committed: the status is written, and a
/// `Done` on a weekly habit back-fills the earlier days of the week.
pub open spec fn committed(data: DataModel, id: u128, day: int, status: HabitStatus) -> DataModel {
    let written = data.set_status(id, day, status);
    if status == HabitStatus::Done && is_weekly(written, id) {
        written.propagate(id, day)
    } else {
        written
    }
}

impl AppModel {
    /// Well-formedness of a session: a day of the week is selected, and
    /// all seven days of the week are representable dates.
    pub open spec fn wf(self) -> bool {
        &&& self.selected_day_idx < 7
        &&& in_range(self.week_start)
        &&& in_range(self.week_start + 6)
    }

    /// The day number of the selected date.
    pub open spec fn selected_day(self) -> int {
        self.week_start + self.selected_day_idx
    }

    /// The habits in display order.
    pub open spec fn habits(self) -> Seq<HabitModel> {
        sorted_by_order(self.storage.data.habits)
    }

    /// The habit selected in the day view, if the index names one.
    pub open spec fn selected_habit(self) -> Option<HabitModel> {
        if self.selected_habit_idx < self.habits().len() {
            Some(self.habits()[self.selected_habit_idx as int])
        } else {
            None
        }
    }

    /// The habit selected in the management view, if the index names one.
    pub open spec fn managed_habit(self) -> Option<HabitModel> {
        if self.habit_mgmt_selected_idx < self.habits().len() {
            Some(self.habits()[self.habit_mgmt_selected_idx as int])
        } else {
            None
        }
    }

    /// The effective status of a habit on a day: the staged status where
    /// one is staged for exactly that habit and day, else the committed
    /// status, else `Unmarked`.
    pub open spec fn effective_status(self, id: u128, day: int) -> HabitStatus {
        match self.staged {
            Some((staged_id, staged_day, status)) => if staged_id == id && staged_day == day {
                status
            } else {
                self.storage.data.status(id, day)
            },
            None => self.storage.data.status(id, day),
        }
    }

    /// The session after a toggle: the next status of the selected habit on
    /// the selected day is staged, in place of whatever was staged. The
    /// store is not touched.
    pub open spec fn toggle(self) -> AppModel {
        match self.selected_habit() {
            Some(habit) => AppModel {
                staged: Some(
                    (
                        habit.id,
                        self.selected_day(),
                        self.effective_status(habit.id, self.selected_day()).next(),
                    ),
                ),
                ..self
            },
            None => self,
        }
    }

    /// The session with the staged change dropped.
    pub open spec fn cancel(self) -> AppModel {
        AppModel { staged: None, ..self }
    }

    /// The session after a commit: the staged change is written to the
    /// store, which is marked for saving, and the staged slot is cleared;
    /// with nothing staged, nothing changes.
    pub open spec fn commit(self) -> AppModel {
        match self.staged {
            Some((id, day, status)) => AppModel {
                storage: StorageModel {
                    data: committed(self.storage.data, id, day, status),
                    unsaved: true,
                },
                staged: None,
                ..self
            },
            None => self,
        }
    }

    /// The session after a move to the previous day: the staged change is
    /// committed, the selection moves back one day, to the Sunday of the
    /// week before from a Monday, and the first habit is selected.
    pub open spec fn prev_day(self) -> AppModel {
        let c = self.commit();
        if c.selected_day_idx > 0 {
            AppModel {
                selected_day_idx: (c.selected_day_idx - 1) as nat,
                selected_habit_idx: 0,
                ..c
            }
        } else {
            AppModel {
                week_start: c.week_start - 7,
                selected_day_idx: 6,
                selected_habit_idx: 0,
                ..c
            }
        }
    }

    /// The session after a move to the next day: the staged change is
    /// committed, the selection moves on one day, to the Monday of the week
    /// after from a Sunday, and the first habit is selected.
    pub open spec fn next_day(self) -> AppModel {
        let c = self.commit();
        if c.selected_day_idx < 6 {
            AppModel { selected_day_idx: c.selected_day_idx + 1, selected_habit_idx: 0, ..c }
        } else {
            AppModel {
                week_start: c.week_start + 7,
                selected_day_idx: 0,
                selected_habit_idx: 0,
                ..c
            }
        }
    }

    /// The session after a move to the previous habit: the staged change is
    /// committed and the selection moves up one habit, from the first to
    /// the last.
    pub open spec fn prev_habit(self) -> AppModel {
        let c = self.commit();
        let count = c.habits().len();
        if count == 0 {
            c
        } else if c.selected_habit_idx > 0 {
            AppModel { selected_habit_idx: (c.selected_habit_idx - 1) as nat, ..c }
        } else {
            AppModel { selected_habit_idx: (count - 1) as nat, ..c }
        }
    }

    /// The session after a move to the next habit: the staged change is
    /// committed and the selection moves down one habit, from the last to
    /// the first.
    pub open spec fn next_habit(self) -> AppModel {
        let c = self.commit();
        let count = c.habits().len();
        if count == 0 {
            c
        } else if c.selected_habit_idx < count - 1 {
            AppModel { selected_habit_idx: c.selected_habit_idx + 1, ..c }
        } else {
            AppModel { selected_habit_idx: 0, ..c }
        }
    }

    /// The session after a move to the previous week: the staged change is
    /// committed and the week starts seven days earlier.
    pub open spec fn prev_week(self) -> AppModel {
        let c = self.commit();
        AppModel { week_start: c.week_start - 7, ..c }
    }

    /// The session after a move to the next week: the staged change is
    /// committed and the week starts seven days later.
    pub open spec fn next_week(self) -> AppModel {
        let c = self.commit();
        AppModel { week_start: c.week_start + 7, ..c }
    }

    /// The session after a jump to the week of `today`, with `today`
    /// selected: the staged change is committed first.
    pub open spec fn go_to(self, today: int) -> AppModel {
        let c = self.commit();
        AppModel {
            week_start: monday_of(today),
            selected_day_idx: days_since_monday(today),
            ..c
        }
    }

    /// The session after a jump to today, where today is `today`: the jump
    /// is made where the week of `today` can be shown, and nothing changes
    /// where it cannot.
    pub open spec fn go_to_today(self, today: int) -> AppModel {
        if AppModel::can_show(today) {
            self.go_to(today)
        } else {
            self
        }
    }

    /// Whether the week of `today` can be shown: its seven days are
    /// representable dates.
    pub open spec fn can_show(today: int) -> bool {
        in_range(monday_of(today)) && in_range(monday_of(today) + 6)
    }

    /// The session that starts on `today` over the given store: the week of
    /// `today` with `today` selected, on the main view, with nothing typed
    /// and nothing staged.
    pub open spec fn start(storage: StorageModel, today: int) -> AppModel {
        AppModel {
            storage,
            week_start: monday_of(today),
            selected_day_idx: days_since_monday(today),
            selected_habit_idx: 0,
            view: AppView::Main,
            should_quit: false,
            input_buffer: Seq::empty(),
            habit_mgmt_mode: HabitMgmtMode::List,
            habit_mgmt_selected_idx: 0,
            last_export_path: None,
            staged: None,
        }
    }

    /// The committed note of the selected habit on the selected day.
    pub open spec fn current_note(self) -> Option<Seq<char>> {
        match self.selected_habit() {
            Some(habit) => self.storage.data.note(habit.id, self.selected_day()),
            None => None,
        }
    }

    /// The session after the note of the selected habit on the selected day
    /// was written: straight to the store, which is marked for saving. With
    /// no habit selected nothing changes.
    pub open spec fn update_note(self, note: Option<Seq<char>>) -> AppModel {
        match self.selected_habit() {
            Some(habit) => AppModel {
                storage: StorageModel {
                    data: self.storage.data.set_note(habit.id, self.selected_day(), note),
                    unsaved: true,
                },
                ..self
            },
            None => self,
        }
    }

    /// The effective statuses of all habits on a day, in display order.
    pub open spec fn day_statuses(self, day: int) -> Seq<HabitStatus> {
        Seq::new(self.habits().len(), |i: int| self.effective_status(self.habits()[i].id, day))
    }

    /// The symbol of the day with the given index in the week being viewed,
    /// as seen on `today`.
    pub open spec fn day_status(self, day_idx: int, today: int) -> char {
        day_symbol(self.day_statuses(self.week_start + day_idx), self.week_start + day_idx > today)
    }

    /// The number of the first `n` days of the week being viewed on which
    /// the effective status of the habit `id` is `status`.
    pub open spec fn week_count(self, id: u128, status: HabitStatus, n: nat) -> nat
        decreases n,
    {
        if n == 0 {
            0
        } else {
            let rest = self.week_count(id, status, (n - 1) as nat);
            if self.effective_status(id, self.week_start + n - 1) == status {
                rest + 1
            } else {
                rest
            }
        }
    }

    /// The session with another view shown. Leaving the main view commits
    /// the staged change.
    pub open spec fn set_view(self, view: AppView) -> AppModel {
        let c = if self.view == AppView::Main && view != AppView::Main {
            self.commit()
        } else {
            self
        };
        AppModel { view, ..c }
    }

    /// The session asked to end.
    pub open spec fn quit(self) -> AppModel {
        AppModel { should_quit: true, ..self }
    }

    /// The session in note editing: the staged change is committed, the
    /// buffer holds the current note, or nothing where there is none.
    pub open spec fn start_note_input(self) -> AppModel {
        let c = self.commit();
        AppModel {
            input_buffer: match c.current_note() {
                Some(note) => note,
                None => Seq::empty(),
            },
            view: AppView::NoteInput,
            ..c
        }
    }

    /// The note that the buffer stands for: its trimmed text, and none
    /// where that is empty.
    pub open spec fn typed_note(self) -> Option<Seq<char>> {
        if is_blank(self.input_buffer) {
            None
        } else {
            Some(trimmed(self.input_buffer))
        }
    }

    /// The session after the typed note was saved: the note is written, the
    /// buffer is empty and the main view is shown.
    pub open spec fn save_note_input(self) -> AppModel {
        AppModel {
            input_buffer: Seq::empty(),
            view: AppView::Main,
            ..self.update_note(self.typed_note())
        }
    }

    /// The session after note editing was abandoned.
    pub open spec fn cancel_note_input(self) -> AppModel {
        AppModel { input_buffer: Seq::empty(), view: AppView::Main, ..self }
    }

    /// The session with one more character typed.
    pub open spec fn input_char(self, c: char) -> AppModel {
        AppModel { input_buffer: self.input_buffer.push(c), ..self }
    }

    /// The session with the last typed character removed, if there is one.
    pub open spec fn input_backspace(self) -> AppModel {
        if self.input_buffer.len() > 0 {
            AppModel { input_buffer: self.input_buffer.drop_last(), ..self }
        } else {
            self
        }
    }

    /// The session in habit management: the staged change is committed and
    /// the list is shown with its first habit selected.
    pub open spec fn enter_habit_management(self) -> AppModel {
        AppModel {
            habit_mgmt_mode: HabitMgmtMode::List,
            habit_mgmt_selected_idx: 0,
            ..self.set_view(AppView::HabitManagement)
        }
    }

    /// The session ready to take the name of a new habit.
    pub open spec fn start_add_habit(self) -> AppModel {
        AppModel { input_buffer: Seq::empty(), habit_mgmt_mode: HabitMgmtMode::AddHabit, ..self }
    }

    /// The session ready to edit the name of the managed habit; unchanged
    /// where the index names none.
    pub open spec fn start_edit_habit(self) -> AppModel {
        match self.managed_habit() {
            Some(habit) => AppModel {
                input_buffer: habit.name,
                habit_mgmt_mode: HabitMgmtMode::EditHabit,
                ..self
            },
            None => self,
        }
    }

    /// The session after the typed name was saved as a new habit with the
    /// identifier `id`: a name that is empty once trimmed adds nothing.
    /// Either way the buffer is empty and the list is shown.
    pub open spec fn save_new_habit(self, id: u128) -> AppModel {
        let storage = if is_blank(self.input_buffer) {
            self.storage
        } else {
            StorageModel {
                data: self.storage.data.add_habit(id, trimmed(self.input_buffer)),
                unsaved: true,
            }
        };
        AppModel {
            storage,
            input_buffer: Seq::empty(),
            habit_mgmt_mode: HabitMgmtMode::List,
            ..self
        }
    }

    /// The session after the typed name was saved as the managed habit's
    /// name: a name that is empty once trimmed renames nothing. Either way
    /// the buffer is empty and the list is shown.
    pub open spec fn save_edited_habit(self) -> AppModel {
        let storage = match self.managed_habit() {
            Some(habit) => if is_blank(self.input_buffer) {
                self.storage
            } else {
                StorageModel {
                    data: self.storage.data.rename_habit(habit.id, trimmed(self.input_buffer)),
                    unsaved: true,
                }
            },
            None => self.storage,
        };
        AppModel {
            storage,
            input_buffer: Seq::empty(),
            habit_mgmt_mode: HabitMgmtMode::List,
            ..self
        }
    }

    /// The session after adding or editing a habit was abandoned.
    pub open spec fn cancel_habit_input(self) -> AppModel {
        AppModel { input_buffer: Seq::empty(), habit_mgmt_mode: HabitMgmtMode::List, ..self }
    }

    /// The session after the managed habit was deleted with its log
    /// entries; the selection stays on the list. Unchanged where the index
    /// names no habit.
    pub open spec fn delete_selected_habit(self) -> AppModel {
        match self.managed_habit() {
            Some(habit) => {
                let data = self.storage.data.delete_habit(habit.id);
                let count = sorted_by_order(data.habits).len();
                AppModel {
                    storage: StorageModel { data, unsaved: true },
                    habit_mgmt_selected_idx: if self.habit_mgmt_selected_idx >= count && count
                        > 0 {
                        (count - 1) as nat
                    } else {
                        self.habit_mgmt_selected_idx
                    },
                    ..self
                }
            },
            None => self,
        }
    }

    /// The session after the managed habit was moved to `target` in the
    /// registry, the selection following it.
    pub open spec fn move_habit_to(self, target: nat) -> AppModel {
        match self.managed_habit() {
            Some(habit) => AppModel {
                storage: StorageModel {
                    data: self.storage.data.reorder_habit(habit.id, target),
                    unsaved: true,
                },
                habit_mgmt_selected_idx: target,
                ..self
            },
            None => self,
        }
    }

    /// The session after the managed habit was moved up one place;
    /// unchanged on the first habit.
    pub open spec fn move_habit_up(self) -> AppModel {
        if self.habit_mgmt_selected_idx > 0 {
            self.move_habit_to((self.habit_mgmt_selected_idx - 1) as nat)
        } else {
            self
        }
    }

    /// The session after the managed habit was moved down one place;
    /// unchanged on the last habit.
    pub open spec fn move_habit_down(self) -> AppModel {
        if self.habit_mgmt_selected_idx + 1 < self.habits().len() {
            self.move_habit_to(self.habit_mgmt_selected_idx + 1)
        } else {
            self
        }
    }

    /// The session with the habit above selected in the management view.
    pub open spec fn habit_mgmt_prev(self) -> AppModel {
        if self.habits().len() > 0 && self.habit_mgmt_selected_idx > 0 {
            AppModel { habit_mgmt_selected_idx: (self.habit_mgmt_selected_idx - 1) as nat, ..self }
        } else {
            self
        }
    }

    /// The session with the habit below selected in the management view.
    pub open spec fn habit_mgmt_next(self) -> AppModel {
        if self.habit_mgmt_selected_idx + 1 < self.habits().len() {
            AppModel { habit_mgmt_selected_idx: self.habit_mgmt_selected_idx + 1, ..self }
        } else {
            self
        }
    }

    /// The session after the managed habit's frequency stepped to the next
    /// one; unchanged where the index names no habit.
    pub open spec fn cycle_habit_frequency(self) -> AppModel {
        match self.managed_habit() {
            Some(habit) => AppModel {
                storage: StorageModel {
                    data: self.storage.data.set_frequency(habit.id, habit.frequency.next()),
                    unsaved: true,
                },
                ..self
            },
            None => self,
        }
    }

    /// The session showing the confirmation of an export to `path`; the
    /// staged change is committed on the way.
    pub open spec fn confirm_export(self, path: Seq<char>) -> AppModel {
        AppModel { last_export_path: Some(path), ..self.set_view(AppView::ExportConfirmation) }
    }
}

/// Staging isolation: a toggle changes nothing in the store. Only the
/// effective status of the selected habit on the selected day moves on, by
/// one step of the cycle.
pub proof fn lemma_toggle_stages_only(app: AppModel)
    ensures
        app.toggle().storage == app.storage,
        forall|id: u128, day: int| #[trigger]
            app.toggle().storage.data.status(id, day) == app.storage.data.status(id, day),
        app.selected_habit() matches Some(habit) ==> app.toggle().effective_status(
            habit.id,
            app.selected_day(),
        ) == app.effective_status(habit.id, app.selected_day()).next(),
{
}

/// Commit clears staging: after a commit nothing is staged, and a second
/// commit writes nothing and leaves the session as it is. With nothing
/// staged a commit does nothing at all.
pub proof fn lemma_commit_clears_staging(app: AppModel)
    ensures
        app.commit().staged is None,
        app.commit().commit() == app.commit(),
        app.staged is None ==> app.commit() == app,
{
}

/// Reading after a commit: the habit and day that were committed have the
/// committed status. Where `Done` was committed for a weekly habit, the
/// earlier days of that week on which the habit was unmarked read
/// `Skipped`. Everything else reads as before: days that had a status, the
/// days after the committed one, other weeks and other habits.
pub proof fn lemma_commit_reads(
    data: DataModel,
    id: u128,
    day: int,
    status: HabitStatus,
    id2: u128,
    day2: int,
)
    ensures
        committed(data, id, day, status).status(id2, day2) == if id2 == id && day2 == day {
            status
        } else if status == HabitStatus::Done && is_weekly(data, id) && id2 == id && monday_of(day)
            <= day2 < day && in_range(day2) && data.status(id, day2) == HabitStatus::Unmarked {
            HabitStatus::Skipped
        } else {
            data.status(id2, day2)
        },
        committed(data, id, day, status).note(id2, day2) == data.note(id2, day2),
        committed(data, id, day, status).habits == data.habits,
{
    let written = data.set_status(id, day, status);
    lemma_set_status_reads(data, id, day, status, id2, day2);
    lemma_set_status_reads(data, id, day, status, id, day2);
    lemma_propagate_reads(written, id, day, id2, day2);
}

/// Weekly propagation never overwrites: a day on which the habit already
/// had a status other than `Unmarked` keeps that status when `Done` is
/// committed on another day, whatever the habit's frequency.
pub proof fn lemma_commit_keeps_marks(data: DataModel, id: u128, done_day: int, day: int)
    requires
        day != done_day,
        data.status(id, day) != HabitStatus::Unmarked,
    ensures
        committed(data, id, done_day, HabitStatus::Done).status(id, day) == data.status(id, day),
{
    lemma_commit_reads(data, id, done_day, HabitStatus::Done, id, day);
}

/// Weekly propagation never marks ahead: committing a status on a day
/// leaves every later day as it was.
pub proof fn lemma_commit_leaves_later_days(
    data: DataModel,
    id: u128,
    day: int,
    status: HabitStatus,
    later: int,
)
    requires
        later > day,
    ensures
        committed(data, id, day, status).status(id, later) == data.status(id, later),
{
    lemma_commit_reads(data, id, day, status, id, later);
}

/// A status write removes no log entry.
proof fn lemma_log_survives_write(
    data: DataModel,
    id: u128,
    day: int,
    status: HabitStatus,
    id2: u128,
    day2: int,
)
    requires
        data.log(id2, day2) is Some,
    ensures
        data.set_status(id, day, status).log(id2, day2) is Some,
{
    let with_entry = data.ensure_log(id, day);
    let after = data.set_status(id, day, status);
    let i = log_position(data.logs, id2, day2).unwrap();
    assert(is_first_log(data.logs, id2, day2, i));
    assert(with_entry.logs[i] == data.logs[i]);
    assert(after.logs[i].is_for(id2, day2));
    assert forall|j: int| 0 <= j < i implies !(#[trigger] after.logs[j]).is_for(id2, day2) by {
        assert(with_entry.logs[j] == data.logs[j]);
        assert(!data.logs[j].is_for(id2, day2));
    }
    lemma_log_position(after.logs, id2, day2, i);
}

/// A back-fill removes no log entry.
proof fn lemma_log_survives_backfill(
    data: DataModel,
    id: u128,
    done_day: int,
    n: nat,
    id2: u128,
    day2: int,
)
    requires
        data.log(id2, day2) is Some,
    ensures
        data.backfill(id, done_day, n).log(id2, day2) is Some,
    decreases n,
{
    if n > 0 {
        let first = data.backfill_day(id, done_day - n);
        assert(first.log(id2, day2) is Some) by {
            if first != data {
                lemma_log_survives_write(data, id, done_day - n, HabitStatus::Skipped, id2, day2);
            }
        }
        lemma_log_survives_backfill(first, id, done_day, (n - 1) as nat, id2, day2);
    }
}

/// Committing is idempotent: committing the same status for the same habit
/// and day a second time changes nothing, with or without the weekly
/// propagation.
pub proof fn lemma_commit_twice(data: DataModel, id: u128, day: int, status: HabitStatus)
    ensures
        committed(committed(data, id, day, status), id, day, status) == committed(
            data,
            id,
            day,
            status,
        ),
{
    let written = data.set_status(id, day, status);
    let once = committed(data, id, day, status);
    lemma_ensure_log_reads(data, id, day, id, day);
    lemma_set_status_reads(data, id, day, status, id, day);
    lemma_commit_reads(data, id, day, status, id, day);
    assert(written.log(id, day) is Some) by {
        let i = data.ensured_position(id, day);
        let with_entry = data.ensure_log(id, day);
        assert(is_first_log(with_entry.logs, id, day, i));
        assert(is_first_log(written.logs, id, day, i)) by {
            assert forall|j: int| 0 <= j < i implies !(#[trigger] written.logs[j]).is_for(
                id,
                day,
            ) by {
                assert(written.logs[j] == with_entry.logs[j]);
            }
        }
        lemma_log_position(written.logs, id, day, i);
    }
    if status == HabitStatus::Done && is_weekly(written, id) {
        lemma_propagate_idempotent(written, id, day);
        lemma_propagate_reads(written, id, day, id, day);
        lemma_log_survives_backfill(written, id, day, days_since_monday(day), id, day);
    }
    assert(once.log(id, day) is Some);
    lemma_set_same_status(once, id, day);
}

/// Weekly propagation is idempotent at the session: staging and committing
/// `Done` for a habit and day, then staging and committing the same again,
/// leaves the session as the first commit left it.
pub proof fn lemma_recommit_done(app: AppModel, id: u128, day: int)
    ensures
        ({
            let once = (AppModel { staged: Some((id, day, HabitStatus::Done)), ..app }).commit();
            let twice = (AppModel {
                staged: Some((id, day, HabitStatus::Done)),
                ..once
            }).commit();
            twice == once
        }),
{
    lemma_commit_twice(app.storage.data, id, day, HabitStatus::Done);
}

/// Well-formedness is an invariant of the session: the session that starts
/// on a day whose week can be shown is well-formed, and every operation
/// keeps a well-formed session well-formed, a move to another week provided
/// that all days of that week are representable.
pub proof fn lemma_session_stays_well_formed(
    app: AppModel,
    storage: StorageModel,
    today: int,
    view: AppView,
    c: char,
    note: Option<Seq<char>>,
    id: u128,
    path: Seq<char>,
)
    requires
        app.wf(),
    ensures
        AppModel::can_show(today) && 0 <= weekday_index(today) < 7 ==> AppModel::start(
            storage,
            today,
        ).wf(),
        AppModel::can_show(today) && 0 <= weekday_index(today) < 7 ==> app.go_to(today).wf(),
        app.toggle().wf(),
        app.commit().wf(),
        app.cancel().wf(),
        app.selected_day_idx > 0 || in_range(app.week_start - 7) ==> app.prev_day().wf(),
        app.selected_day_idx < 6 || in_range(app.week_start + 13) ==> app.next_day().wf(),
        in_range(app.week_start - 7) ==> app.prev_week().wf(),
        in_range(app.week_start + 13) ==> app.next_week().wf(),
        app.prev_habit().wf(),
        app.next_habit().wf(),
        app.update_note(note).wf(),
        app.set_view(view).wf(),
        app.quit().wf(),
        app.start_note_input().wf(),
        app.save_note_input().wf(),
        app.cancel_note_input().wf(),
        app.input_char(c).wf(),
        app.input_backspace().wf(),
        app.enter_habit_management().wf(),
        app.start_add_habit().wf(),
        app.start_edit_habit().wf(),
        app.save_new_habit(id).wf(),
        app.save_edited_habit().wf(),
        app.cancel_habit_input().wf(),
        app.delete_selected_habit().wf(),
        app.move_habit_up().wf(),
        app.move_habit_down().wf(),
        app.habit_mgmt_prev().wf(),
        app.habit_mgmt_next().wf(),
        app.cycle_habit_frequency().wf(),
        app.confirm_export(path).wf(),
{
}

} // verus!