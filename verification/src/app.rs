//! The editing session: which week, day and habit are selected, which
//! screen is shown, the text being typed, and the one status change that is
//! staged but not yet committed to the store.

use crate::laws::lemma_sorted_member;
use crate::models::date::{in_range, lemma_date_equality, Date, MAX_DAYS};
use crate::models::habit::{Frequency, Habit};
use crate::models::log::HabitStatus;
use crate::models::week::{monday_of, Week};
use crate::session::AppModel;
use crate::storage::{habit_ref_models, Storage};
use crate::text::{is_blank_str, lemma_trimmed_blank, option_text, trimmed_string};
use vstd::prelude::*;

verus! {

/// Different screens/views in the application.
#[derive(Debug, Clone, Copy, PartialEq, Eq, Structural)]
pub enum AppView {
    /// Main view showing week and day details.
    Main,
    /// Weekly stats view.
    Stats,
    /// Habit management screen.
    HabitManagement,
    /// Help screen showing keyboard shortcuts.
    Help,
    /// Note input mode.
    NoteInput,
    /// Export confirmation view.
    ExportConfirmation,
}

/// Habit management mode.
#[derive(Debug, Clone, Copy, PartialEq, Eq, Structural)]
pub enum HabitMgmtMode {
    /// Viewing list of habits.
    List,
    /// Adding a new habit.
    AddHabit,
    /// Editing an existing habit.
    EditHabit,
}

/// Application state.
pub struct App {
    /// Storage backend.
    pub storage: Storage,
    /// Current week being viewed.
    pub current_week: Week,
    /// Selected day index (0 = Monday, 6 = Sunday).
    pub selected_day_idx: usize,
    /// Selected habit index in the current day.
    pub selected_habit_idx: usize,
    /// Current view.
    pub view: AppView,
    /// Whether the app should quit.
    pub should_quit: bool,
    /// Input buffer for note editing and habit management.
    pub input_buffer: String,
    /// Habit management mode.
    pub habit_mgmt_mode: HabitMgmtMode,
    /// Selected habit index in habit management view.
    pub habit_mgmt_selected_idx: usize,
    /// Last export file path.
    pub last_export_path: Option<String>,
    /// Staged status change (habit, date, new status) that hasn't been
    /// committed yet.
    pub staged_status: Option<(u128, Date, HabitStatus)>,
}

/// The staged change with its date as a day number.
pub open spec fn staged_model(staged: Option<(u128, Date, HabitStatus)>) -> Option<
    (u128, int, HabitStatus),
> {
    match staged {
        Some((id, date, status)) => Some((id, date@, status)),
        None => None,
    }
}

impl View for App {
    type V = AppModel;

    open spec fn view(&self) -> AppModel {
        AppModel {
            storage: self.storage@,
            week_start: self.current_week.start@,
            selected_day_idx: self.selected_day_idx as nat,
            selected_habit_idx: self.selected_habit_idx as nat,
            view: self.view,
            should_quit: self.should_quit,
            input_buffer: self.input_buffer@,
            habit_mgmt_mode: self.habit_mgmt_mode,
            habit_mgmt_selected_idx: self.habit_mgmt_selected_idx as nat,
            last_export_path: option_text(self.last_export_path),
            staged: staged_model(self.staged_status),
        }
    }
}

/// The symbol of a fully completed day.
pub const SYMBOL_COMPLETE: char = '\u{2713}';

/// The symbol of a day on which a habit was skipped.
pub const SYMBOL_SKIPPED: char = '\u{2717}';

/// The symbol of a day on which some habits are done and none is skipped.
pub const SYMBOL_PARTIAL: char = '~';

/// The symbol of a day without a mark, and of every day in the future.
pub const SYMBOL_BLANK: char = ' ';

/// The symbol that sums up a day, from the effective statuses of its
/// habits and whether the day lies in the future: blank where there is no
/// habit, where the day is in the future or where nothing is marked;
/// complete where every habit is done; skipped where any habit is skipped;
/// partial otherwise.
pub open spec fn day_symbol(statuses: Seq<HabitStatus>, in_future: bool) -> char {
    if statuses.len() == 0 {
        SYMBOL_BLANK
    } else if in_future || (forall|i: int|
        0 <= i < statuses.len() ==> statuses[i] == HabitStatus::Unmarked) {
        SYMBOL_BLANK
    } else if forall|i: int| 0 <= i < statuses.len() ==> statuses[i] == HabitStatus::Done {
        SYMBOL_COMPLETE
    } else if exists|i: int| 0 <= i < statuses.len() && statuses[i] == HabitStatus::Skipped {
        SYMBOL_SKIPPED
    } else {
        SYMBOL_PARTIAL
    }
}

impl App {
    /// Whether the session is well-formed: a day of the week is selected
    /// and all seven days of the week are representable dates.
    pub fn is_well_formed(&self) -> (r: bool)
        ensures
            r == self@.wf(),
    {
        let start: i32 = self.current_week.start.num_days_from_ce();
        self.selected_day_idx < 7 && start <= MAX_DAYS - 6
    }

    /// Get the currently selected date.
    pub fn selected_date(&self) -> (r: Date)
        requires
            self@.wf(),
        ensures
            r@ == self@.selected_day(),
    {
        self.current_week.start.add_days(self.selected_day_idx as i32)
    }

    /// Get habits sorted by order.
    pub fn habits(&self) -> (r: Vec<&Habit>)
        ensures
            habit_ref_models(r@) == self@.habits(),
    {
        self.storage.habits()
    }

    /// Check if a habit should be shown on a given date. Every habit shows
    /// every day: the frequency is informational.
    fn should_show_habit(&self, habit: &Habit, _date: Date) -> (r: bool)
        ensures
            r,
    {
        match habit.frequency {
            Frequency::Daily => true,
            Frequency::Weekly => true,
            Frequency::AsNeeded => true,
        }
    }

    /// Get habits that should be shown for a given date: all of them, in
    /// display order.
    pub fn habits_for_date(&self, date: Date) -> (r: Vec<&Habit>)
        ensures
            habit_ref_models(r@) == self@.habits(),
    {
        let all = self.storage.habits();
        let mut shown: Vec<&Habit> = Vec::new();
        let mut i: usize = 0;
        assert(habit_ref_models(shown@) =~= habit_ref_models(all@).take(0));
        while i < all.len()
            invariant
                i <= all@.len(),
                habit_ref_models(shown@) == habit_ref_models(all@).take(i as int),
            decreases all@.len() - i,
        {
            if self.should_show_habit(all[i], date) {
                let ghost before = habit_ref_models(shown@);
                shown.push(all[i]);
                assert(habit_ref_models(shown@) =~= before.push(all@[i as int]@));
                assert(habit_ref_models(all@).take(i + 1) =~= habit_ref_models(all@).take(
                    i as int,
                ).push(all@[i as int]@));
            }
            i += 1;
        }
        assert(habit_ref_models(all@).take(i as int) =~= habit_ref_models(all@));
        shown
    }

    /// Get the currently selected habit (from the list for the selected
    /// date).
    pub fn selected_habit(&self) -> (r: Option<&Habit>)
        requires
            self@.wf(),
        ensures
            match r {
                Some(habit) => self@.selected_habit() == Some(habit@),
                None => self@.selected_habit() is None,
            },
    {
        let date = self.selected_date();
        let habits = self.habits_for_date(date);
        if self.selected_habit_idx < habits.len() {
            assert(habit_ref_models(habits@)[self.selected_habit_idx as int]
                == habits@[self.selected_habit_idx as int]@);
            Some(habits[self.selected_habit_idx])
        } else {
            None
        }
    }

    /// Get the status for a habit on a specific date (checks staged changes
    /// first).
    pub fn get_habit_status(&self, habit_id: u128, date: Date) -> (r: HabitStatus)
        ensures
            r == self@.effective_status(habit_id, date@),
    {
        if let Some((staged_id, staged_date, staged_status)) = self.staged_status {
            proof {
                lemma_date_equality(staged_date, date);
            }
            if staged_id == habit_id && staged_date == date {
                return staged_status;
            }
        }
        self.storage.status(habit_id, date)
    }

    /// Toggle the status of the selected habit for the selected date. The
    /// change is staged; the store is not touched.
    pub fn toggle_habit_status(&mut self)
        requires
            old(self)@.wf(),
        ensures
            final(self)@ == old(self)@.toggle(),
    {
        let selected = match self.selected_habit() {
            Some(habit) => Some(habit.id),
            None => None,
        };
        if let Some(id) = selected {
            let date = self.selected_date();
            let current_status = self.get_habit_status(id, date);
            let new_status = current_status.cycle();
            self.staged_status = Some((id, date, new_status));
        }
    }

    /// Commit any staged status change to storage.
    pub fn commit_staged_status(&mut self)
        ensures
            final(self)@ == old(self)@.commit(),
    {
        let staged = self.staged_status;
        self.staged_status = None;
        if let Some((habit_id, date, status)) = staged {
            self.storage.update_log_status(habit_id, date, status);
            let weekly = match self.storage.get_habit(habit_id) {
                Some(habit) => habit.frequency == Frequency::Weekly,
                None => false,
            };
            if weekly && status == HabitStatus::Done {
                self.storage.propagate_weekly_habit_status(habit_id, date);
            }
        }
    }

    /// Cancel any staged status change without saving.
    pub fn cancel_staged_status(&mut self)
        ensures
            final(self)@ == old(self)@.cancel(),
    {
        self.staged_status = None;
    }

    /// The week of `today`, where all of its seven days are representable.
    fn showable_week(today: Date) -> (r: Option<Week>)
        ensures
            match r {
                Some(week) => AppModel::can_show(today@) && week.start@ == monday_of(today@),
                None => !AppModel::can_show(today@),
            },
    {
        match Week::checked_containing(today) {
            Some(week) => {
                match week.start.checked_add_days(6) {
                    Some(_) => Some(week),
                    None => None,
                }
            },
            None => None,
        }
    }

    /// Create the session over a store, starting on the given date: the
    /// week of that date is shown and the date is selected.
    pub fn with_today(storage: Storage, today: Date) -> (r: Self)
        requires
            AppModel::can_show(today@),
        ensures
            r@ == AppModel::start(storage@, today@),
            r@.wf(),
    {
        let current_week = Week::containing(today);
        let selected_day_idx = today.weekday_from_monday() as usize;
        App {
            storage,
            current_week,
            selected_day_idx,
            selected_habit_idx: 0,
            view: AppView::Main,
            should_quit: false,
            input_buffer: String::new(),
            habit_mgmt_mode: HabitMgmtMode::List,
            habit_mgmt_selected_idx: 0,
            last_export_path: None,
            staged_status: None,
        }
    }

    /// Create the session over a store, starting today by the local clock.
    /// Returns `None` where the week of today cannot be shown because one
    /// of its days is not a representable date.
    pub fn new(storage: Storage) -> (r: Option<Self>)
        ensures
            exists|today: int|
                match r {
                    Some(app) => AppModel::can_show(today) && app@ == AppModel::start(
                        storage@,
                        today,
                    ),
                    None => !AppModel::can_show(today),
                },
            r matches Some(app) ==> app@.wf(),
    {
        let today = Date::today();
        let r = match App::showable_week(today) {
            Some(_) => Some(App::with_today(storage, today)),
            None => None,
        };
        assert(match r {
            Some(app) => AppModel::can_show(today@) && app@ == AppModel::start(storage@, today@),
            None => !AppModel::can_show(today@),
        });
        r
    }

    /// Navigate to the previous day.
    pub fn prev_day(&mut self)
        requires
            old(self)@.wf(),
            old(self)@.selected_day_idx == 0 ==> in_range(old(self)@.week_start - 7),
        ensures
            final(self)@ == old(self)@.prev_day(),
            final(self)@.wf(),
    {
        self.commit_staged_status();
        if self.selected_day_idx > 0 {
            self.selected_day_idx -= 1;
        } else {
            self.current_week = self.current_week.prev();
            self.selected_day_idx = 6;
        }
        self.selected_habit_idx = 0;
    }

    /// Navigate to the next day.
    pub fn next_day(&mut self)
        requires
            old(self)@.wf(),
            old(self)@.selected_day_idx == 6 ==> in_range(old(self)@.week_start + 13),
        ensures
            final(self)@ == old(self)@.next_day(),
            final(self)@.wf(),
    {
        self.commit_staged_status();
        if self.selected_day_idx < 6 {
            self.selected_day_idx += 1;
        } else {
            self.current_week = self.current_week.next();
            self.selected_day_idx = 0;
        }
        self.selected_habit_idx = 0;
    }

    /// Navigate to the previous habit.
    pub fn prev_habit(&mut self)
        requires
            old(self)@.wf(),
        ensures
            final(self)@ == old(self)@.prev_habit(),
            final(self)@.wf(),
    {
        self.commit_staged_status();
        let date = self.selected_date();
        let habit_count = self.habits_for_date(date).len();
        if habit_count > 0 {
            if self.selected_habit_idx > 0 {
                self.selected_habit_idx -= 1;
            } else {
                self.selected_habit_idx = habit_count - 1;
            }
        }
    }

    /// Navigate to the next habit.
    pub fn next_habit(&mut self)
        requires
            old(self)@.wf(),
        ensures
            final(self)@ == old(self)@.next_habit(),
            final(self)@.wf(),
    {
        self.commit_staged_status();
        let date = self.selected_date();
        let habit_count = self.habits_for_date(date).len();
        if habit_count > 0 {
            if self.selected_habit_idx < habit_count - 1 {
                self.selected_habit_idx += 1;
            } else {
                self.selected_habit_idx = 0;
            }
        }
    }

    /// Navigate to the previous week.
    pub fn prev_week(&mut self)
        requires
            old(self)@.wf(),
            in_range(old(self)@.week_start - 7),
        ensures
            final(self)@ == old(self)@.prev_week(),
            final(self)@.wf(),
    {
        self.commit_staged_status();
        self.current_week = self.current_week.prev();
    }

    /// Navigate to the next week.
    pub fn next_week(&mut self)
        requires
            old(self)@.wf(),
            in_range(old(self)@.week_start + 13),
        ensures
            final(self)@ == old(self)@.next_week(),
            final(self)@.wf(),
    {
        self.commit_staged_status();
        self.current_week = self.current_week.next();
    }

    /// Go to the week of the given date and select that date.
    pub fn go_to_date(&mut self, today: Date)
        requires
            AppModel::can_show(today@),
        ensures
            final(self)@ == old(self)@.go_to(today@),
            final(self)@.wf(),
    {
        self.commit_staged_status();
        self.current_week = Week::containing(today);
        self.selected_day_idx = today.weekday_from_monday() as usize;
    }

    /// Go to the week of `today` and select `today`, where that week can
    /// be shown; where it cannot, nothing changes.
    pub fn go_to_today_on(&mut self, today: Date)
        ensures
            final(self)@ == old(self)@.go_to_today(today@),
            old(self)@.wf() ==> final(self)@.wf(),
    {
        match App::showable_week(today) {
            Some(_) => {
                self.go_to_date(today);
            },
            None => {},
        }
    }

    /// Go to the current week and today, by the local clock. Where the
    /// week of today cannot be shown, nothing changes.
    pub fn go_to_today(&mut self)
        ensures
            exists|today: int| final(self)@ == old(self)@.go_to_today(today),
            old(self)@.wf() ==> final(self)@.wf(),
    {
        self.go_to_today_on(Date::today());
    }

    /// The habit selected in the management view, if the index names one.
    pub fn managed_habit(&self) -> (r: Option<&Habit>)
        ensures
            match r {
                Some(habit) => self@.managed_habit() == Some(habit@),
                None => self@.managed_habit() is None,
            },
    {
        let habits = self.habits();
        if self.habit_mgmt_selected_idx < habits.len() {
            assert(habit_ref_models(habits@)[self.habit_mgmt_selected_idx as int]
                == habits@[self.habit_mgmt_selected_idx as int]@);
            Some(habits[self.habit_mgmt_selected_idx])
        } else {
            None
        }
    }

    /// Get the note for the selected habit and date.
    pub fn get_current_note(&self) -> (r: Option<String>)
        requires
            self@.wf(),
        ensures
            option_text(r) == self@.current_note(),
    {
        match self.selected_habit() {
            Some(habit) => {
                let date = self.selected_date();
                match self.storage.get_log(habit.id, date) {
                    Some(entry) => match &entry.note {
                        Some(note) => Some(note.clone()),
                        None => None,
                    },
                    None => None,
                }
            },
            None => None,
        }
    }

    /// Update the note for the selected habit and date. Notes bypass
    /// staging and are written to the store directly.
    pub fn update_current_note(&mut self, note: Option<String>)
        requires
            old(self)@.wf(),
        ensures
            final(self)@ == old(self)@.update_note(option_text(note)),
    {
        let selected = match self.selected_habit() {
            Some(habit) => Some(habit.id),
            None => None,
        };
        if let Some(id) = selected {
            let date = self.selected_date();
            self.storage.update_log_note(id, date, note);
        }
    }

    /// The symbol of the day with the given index in the week being
    /// viewed, as seen on `today`: the mark for all habits done, the cross
    /// for a skipped habit, the tilde for a partial day, and a space for an
    /// unmarked or future day.
    pub fn day_status_on(&self, day_idx: usize, today: Date) -> (r: char)
        requires
            self@.wf(),
            day_idx < 7,
        ensures
            r == self@.day_status(day_idx as int, today@),
    {
        let date = self.current_week.start.add_days(day_idx as i32);
        let habits = self.habits_for_date(date);
        let mut statuses: Vec<HabitStatus> = Vec::new();
        let mut i: usize = 0;
        while i < habits.len()
            invariant
                i <= habits@.len(),
                habit_ref_models(habits@) == self@.habits(),
                statuses@.len() == i,
                forall|j: int|
                    0 <= j < i ==> #[trigger] statuses@[j] == self@.effective_status(
                        self@.habits()[j].id,
                        date@,
                    ),
            decreases habits@.len() - i,
        {
            assert(habit_ref_models(habits@)[i as int] == habits@[i as int]@);
            statuses.push(self.get_habit_status(habits[i].id, date));
            i += 1;
        }
        assert(statuses@ =~= self@.day_statuses(date@));
        day_symbol_of(&statuses, today.is_before(&date))
    }

    /// Get the day status symbol for a specific day, as seen today by the
    /// local clock.
    pub fn get_day_status(&self, day_idx: usize) -> (r: char)
        requires
            self@.wf(),
            day_idx < 7,
        ensures
            exists|today: int| r == self@.day_status(day_idx as int, today),
    {
        let today = Date::today();
        self.day_status_on(day_idx, today)
    }

    /// Count the days of the week being viewed by the effective status of
    /// a habit: done, skipped, unmarked.
    pub fn week_counts(&self, habit_id: u128) -> (r: (usize, usize, usize))
        requires
            self@.wf(),
        ensures
            r.0 == self@.week_count(habit_id, HabitStatus::Done, 7),
            r.1 == self@.week_count(habit_id, HabitStatus::Skipped, 7),
            r.2 == self@.week_count(habit_id, HabitStatus::Unmarked, 7),
    {
        let mut done: usize = 0;
        let mut skipped: usize = 0;
        let mut unmarked: usize = 0;
        let mut i: usize = 0;
        while i < 7
            invariant
                i <= 7,
                self@.wf(),
                done == self@.week_count(habit_id, HabitStatus::Done, i as nat),
                skipped == self@.week_count(habit_id, HabitStatus::Skipped, i as nat),
                unmarked == self@.week_count(habit_id, HabitStatus::Unmarked, i as nat),
                done + skipped + unmarked == i,
            decreases 7 - i,
        {
            let date = self.current_week.start.add_days(i as i32);
            match self.get_habit_status(habit_id, date) {
                HabitStatus::Done => {
                    done += 1;
                },
                HabitStatus::Skipped => {
                    skipped += 1;
                },
                HabitStatus::Unmarked => {
                    unmarked += 1;
                },
            }
            i += 1;
        }
        (done, skipped, unmarked)
    }

    /// Change the current view. Leaving the main view commits the staged
    /// change.
    pub fn set_view(&mut self, view: AppView)
        ensures
            final(self)@ == old(self)@.set_view(view),
    {
        if self.view == AppView::Main && view != AppView::Main {
            self.commit_staged_status();
        }
        self.view = view;
    }

    /// Request the app to quit.
    pub fn quit(&mut self)
        ensures
            final(self)@ == old(self)@.quit(),
    {
        self.should_quit = true;
    }

    /// Enter note editing mode, with the existing note in the buffer.
    pub fn start_note_input(&mut self)
        requires
            old(self)@.wf(),
        ensures
            final(self)@ == old(self)@.start_note_input(),
    {
        self.commit_staged_status();
        self.input_buffer = match self.get_current_note() {
            Some(note) => note,
            None => String::new(),
        };
        self.view = AppView::NoteInput;
    }

    /// Save the note and return to main view.
    pub fn save_note_input(&mut self)
        requires
            old(self)@.wf(),
        ensures
            final(self)@ == old(self)@.save_note_input(),
    {
        let note = if is_blank_str(self.input_buffer.as_str()) {
            None
        } else {
            Some(trimmed_string(self.input_buffer.as_str()))
        };
        self.update_current_note(note);
        self.input_buffer.clear();
        self.view = AppView::Main;
    }

    /// Cancel note editing and return to main view.
    pub fn cancel_note_input(&mut self)
        ensures
            final(self)@ == old(self)@.cancel_note_input(),
    {
        self.input_buffer.clear();
        self.view = AppView::Main;
    }

    /// Handle character input for note editing.
    pub fn input_char(&mut self, c: char)
        ensures
            final(self)@ == old(self)@.input_char(c),
    {
        self.input_buffer.push(c);
    }

    /// Handle backspace in note editing.
    pub fn input_backspace(&mut self)
        ensures
            final(self)@ == old(self)@.input_backspace(),
    {
        self.input_buffer.pop();
    }

    /// Enter habit management view.
    pub fn enter_habit_management(&mut self)
        ensures
            final(self)@ == old(self)@.enter_habit_management(),
    {
        self.set_view(AppView::HabitManagement);
        self.habit_mgmt_mode = HabitMgmtMode::List;
        self.habit_mgmt_selected_idx = 0;
    }

    /// Start adding a new habit.
    pub fn start_add_habit(&mut self)
        ensures
            final(self)@ == old(self)@.start_add_habit(),
    {
        self.input_buffer.clear();
        self.habit_mgmt_mode = HabitMgmtMode::AddHabit;
    }

    /// Start editing the selected habit.
    pub fn start_edit_habit(&mut self)
        ensures
            final(self)@ == old(self)@.start_edit_habit(),
    {
        let name = match self.managed_habit() {
            Some(habit) => Some(habit.name.clone()),
            None => None,
        };
        if let Some(text) = name {
            self.input_buffer = text;
            self.habit_mgmt_mode = HabitMgmtMode::EditHabit;
        }
    }

    /// Save new habit. A name that is empty once trimmed is not added.
    pub fn save_new_habit(&mut self)
        ensures
            final(self)@ == old(self)@.save_new_habit(final(self)@.storage.data.habits.last().id),
    {
        if !is_blank_str(self.input_buffer.as_str()) {
            proof {
                lemma_trimmed_blank(self.input_buffer@);
            }
            self.storage.add_habit(trimmed_string(self.input_buffer.as_str()));
        }
        self.input_buffer.clear();
        self.habit_mgmt_mode = HabitMgmtMode::List;
    }

    /// Save edited habit. A name that is empty once trimmed renames
    /// nothing.
    pub fn save_edited_habit(&mut self)
        ensures
            final(self)@ == old(self)@.save_edited_habit(),
    {
        if !is_blank_str(self.input_buffer.as_str()) {
            let managed = match self.managed_habit() {
                Some(habit) => Some(habit.id),
                None => None,
            };
            if let Some(habit_id) = managed {
                proof {
                    lemma_sorted_member(
                        self@.storage.data,
                        self.habit_mgmt_selected_idx as int,
                    );
                }
                let renamed = self.storage.update_habit_name(
                    habit_id,
                    trimmed_string(self.input_buffer.as_str()),
                );
                assert(renamed is Ok);
            }
        }
        self.input_buffer.clear();
        self.habit_mgmt_mode = HabitMgmtMode::List;
    }

    /// Cancel habit input.
    pub fn cancel_habit_input(&mut self)
        ensures
            final(self)@ == old(self)@.cancel_habit_input(),
    {
        self.input_buffer.clear();
        self.habit_mgmt_mode = HabitMgmtMode::List;
    }

    /// Delete the selected habit.
    pub fn delete_selected_habit(&mut self)
        ensures
            final(self)@ == old(self)@.delete_selected_habit(),
    {
        let managed = match self.managed_habit() {
            Some(habit) => Some(habit.id),
            None => None,
        };
        if let Some(habit_id) = managed {
            self.storage.remove_habit(habit_id);
            let habit_count = self.habits().len();
            if self.habit_mgmt_selected_idx >= habit_count && habit_count > 0 {
                self.habit_mgmt_selected_idx = habit_count - 1;
            }
        }
    }

    /// Move selected habit up in the list.
    pub fn move_habit_up(&mut self)
        ensures
            final(self)@ == old(self)@.move_habit_up(),
    {
        if self.habit_mgmt_selected_idx > 0 {
            let managed = match self.managed_habit() {
                Some(habit) => Some(habit.id),
                None => None,
            };
            if let Some(habit_id) = managed {
                let new_order = self.habit_mgmt_selected_idx - 1;
                proof {
                    lemma_sorted_member(
                        self@.storage.data,
                        self.habit_mgmt_selected_idx as int,
                    );
                }
                let moved = self.storage.reorder_habit(habit_id, new_order);
                assert(moved is Ok);
                self.habit_mgmt_selected_idx = new_order;
            }
        }
    }

    /// Move selected habit down in the list.
    pub fn move_habit_down(&mut self)
        ensures
            final(self)@ == old(self)@.move_habit_down(),
    {
        let habit_count = self.habits().len();
        if habit_count > 0 && self.habit_mgmt_selected_idx < habit_count - 1 {
            let managed = match self.managed_habit() {
                Some(habit) => Some(habit.id),
                None => None,
            };
            if let Some(habit_id) = managed {
                let new_order = self.habit_mgmt_selected_idx + 1;
                proof {
                    lemma_sorted_member(
                        self@.storage.data,
                        self.habit_mgmt_selected_idx as int,
                    );
                }
                let moved = self.storage.reorder_habit(habit_id, new_order);
                assert(moved is Ok);
                self.habit_mgmt_selected_idx = new_order;
            }
        }
    }

    /// Navigate to previous habit in management view.
    pub fn habit_mgmt_prev(&mut self)
        ensures
            final(self)@ == old(self)@.habit_mgmt_prev(),
    {
        let habit_count = self.habits().len();
        if habit_count > 0 && self.habit_mgmt_selected_idx > 0 {
            self.habit_mgmt_selected_idx -= 1;
        }
    }

    /// Navigate to next habit in management view.
    pub fn habit_mgmt_next(&mut self)
        ensures
            final(self)@ == old(self)@.habit_mgmt_next(),
    {
        let habit_count = self.habits().len();
        if habit_count > 0 && self.habit_mgmt_selected_idx < habit_count - 1 {
            self.habit_mgmt_selected_idx += 1;
        }
    }

    /// Cycle through frequencies for the selected habit.
    pub fn cycle_habit_frequency(&mut self)
        ensures
            final(self)@ == old(self)@.cycle_habit_frequency(),
    {
        let managed = match self.managed_habit() {
            Some(habit) => Some((habit.id, habit.frequency)),
            None => None,
        };
        if let Some((habit_id, current_frequency)) = managed {
            proof {
                lemma_sorted_member(self@.storage.data, self.habit_mgmt_selected_idx as int);
            }
            let changed = self.storage.update_habit_frequency(
                habit_id,
                current_frequency.cycle(),
            );
            assert(changed is Ok);
        }
    }

    /// Record where the week was exported to and show the confirmation.
    pub fn confirm_export(&mut self, path: String)
        ensures
            final(self)@ == old(self)@.confirm_export(path@),
    {
        self.set_view(AppView::ExportConfirmation);
        self.last_export_path = Some(path);
    }
}

/// The symbol that sums up a day, from the effective statuses of its habits
/// and whether the day lies in the future.
pub fn day_symbol_of(statuses: &Vec<HabitStatus>, in_future: bool) -> (r: char)
    ensures
        r == day_symbol(statuses@, in_future),
{
    if statuses.len() == 0 {
        return SYMBOL_BLANK;
    }
    let mut done_count: usize = 0;
    let mut skipped_count: usize = 0;
    let mut unmarked_count: usize = 0;
    let mut i: usize = 0;
    while i < statuses.len()
        invariant
            i <= statuses@.len(),
            done_count + skipped_count + unmarked_count == i,
            done_count == i <==> forall|j: int|
                0 <= j < i ==> statuses@[j] == HabitStatus::Done,
            unmarked_count == i <==> forall|j: int|
                0 <= j < i ==> statuses@[j] == HabitStatus::Unmarked,
            skipped_count > 0 <==> exists|j: int|
                0 <= j < i && statuses@[j] == HabitStatus::Skipped,
        decreases statuses@.len() - i,
    {
        match statuses[i] {
            HabitStatus::Done => {
                done_count += 1;
            },
            HabitStatus::Skipped => {
                skipped_count += 1;
            },
            HabitStatus::Unmarked => {
                unmarked_count += 1;
            },
        }
        i += 1;
    }
    if unmarked_count == statuses.len() || in_future {
        SYMBOL_BLANK
    } else if done_count == statuses.len() {
        SYMBOL_COMPLETE
    } else if skipped_count > 0 {
        SYMBOL_SKIPPED
    } else {
        SYMBOL_PARTIAL
    }
}

} // verus!
