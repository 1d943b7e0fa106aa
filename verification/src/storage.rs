//! The habit registry and the log store, as one document held in memory.
//!
//! The document is the whole durable state. Every operation that changes it
//! marks the store as having unsaved changes; whoever owns the file writes
//! the document out and calls [`Storage::mark_saved`].

use crate::document::{
    habit_position, insert_by_order, is_seed, lemma_habit_absent, lemma_habit_position,
    lemma_log_absent, lemma_log_position, log_of_other_habit, log_on, log_position, model_ids,
    other_habit, renumbered, sorted_by_order, DataModel,
};
use crate::laws::lemma_set_status_reads;
use crate::models::date::{in_range, lemma_date_equality, Date};
use crate::models::habit::{default_habits, habit_models, Frequency, Habit, HabitModel};
use crate::models::log::{HabitLog, HabitStatus, LogModel};
use crate::models::week::days_since_monday;
use crate::text::{is_blank, is_blank_str, option_text};
use std::collections::HashMap;
use vstd::prelude::*;

verus! {

/// Why an operation on the store was refused.
#[derive(Debug, Clone, Copy, PartialEq, Eq, Structural)]
pub enum StorageError {
    /// The operation named a habit that the registry does not hold.
    HabitNotFound,
}

impl StorageError {
    /// The message that describes the error.
    pub fn message(&self) -> (r: &'static str)
        ensures
            r@ == "Habit not found"@,
    {
        "Habit not found"
    }
}

/// Storage container for all habit tracking data.
#[derive(Debug, Clone)]
pub struct HabitData {
    /// All habits being tracked.
    pub habits: Vec<Habit>,
    /// Log entries for habits on specific dates.
    pub logs: Vec<HabitLog>,
}

/// The views of a list of log entries.
pub open spec fn log_models(logs: Seq<HabitLog>) -> Seq<LogModel> {
    Seq::new(logs.len(), |i: int| logs[i]@)
}

impl View for HabitData {
    type V = DataModel;

    open spec fn view(&self) -> DataModel {
        DataModel { habits: habit_models(self.habits@), logs: log_models(self.logs@) }
    }
}

impl Default for HabitData {
    fn default() -> (r: Self)
        ensures
            is_seed(r@),
    {
        let r = HabitData { habits: default_habits(), logs: Vec::new() };
        assert(model_ids(r@.habits) =~= crate::models::habit::habit_ids(r.habits@));
        r
    }
}

/// The views of a list of borrowed habits.
pub open spec fn habit_ref_models(habits: Seq<&Habit>) -> Seq<HabitModel> {
    Seq::new(habits.len(), |i: int| habits[i]@)
}

/// The views of a list of borrowed log entries.
pub open spec fn log_ref_models(logs: Seq<&HabitLog>) -> Seq<LogModel> {
    Seq::new(logs.len(), |i: int| logs[i]@)
}

/// What loading found to do.
#[derive(Debug, Clone, Copy, PartialEq, Eq, Structural)]
pub enum LoadStep {
    /// There was no file, or an empty one: the store now holds the default
    /// habits and is marked for saving.
    Seeded,
    /// The file has content, which is still to be parsed and handed to
    /// [`Storage::set_data`]; the store is unchanged.
    Parse,
}

/// The store as a mathematical value: the document, and whether it holds
/// changes that have not been written out.
pub struct StorageModel {
    /// The document.
    pub data: DataModel,
    /// Whether the document has changed since it was last saved.
    pub unsaved: bool,
}

/// Holds the habit data and keeps track of whether it needs saving.
pub struct Storage {
    data: HabitData,
    unsaved: bool,
}

impl View for Storage {
    type V = StorageModel;

    closed spec fn view(&self) -> StorageModel {
        StorageModel { data: self.data@, unsaved: self.unsaved }
    }
}

/// The position of the first habit with the given identifier.
fn find_habit(habits: &Vec<Habit>, id: u128) -> (r: Option<usize>)
    ensures
        match r {
            Some(i) => habit_position(habit_models(habits@), id) == Some(i as int),
            None => habit_position(habit_models(habits@), id) is None,
        },
{
    let mut i: usize = 0;
    while i < habits.len()
        invariant
            i <= habits@.len(),
            forall|j: int| 0 <= j < i ==> (#[trigger] habit_models(habits@)[j]).id != id,
        decreases habits@.len() - i,
    {
        if habits[i].id == id {
            proof {
                lemma_habit_position(habit_models(habits@), id, i as int);
            }
            return Some(i);
        }
        i += 1;
    }
    proof {
        lemma_habit_absent(habit_models(habits@), id);
    }
    None
}

/// The position of the first log entry for the given habit and date.
fn find_log(logs: &Vec<HabitLog>, id: u128, date: Date) -> (r: Option<usize>)
    ensures
        match r {
            Some(i) => log_position(log_models(logs@), id, date@) == Some(i as int),
            None => log_position(log_models(logs@), id, date@) is None,
        },
{
    let mut i: usize = 0;
    while i < logs.len()
        invariant
            i <= logs@.len(),
            forall|j: int| 0 <= j < i ==> !(#[trigger] log_models(logs@)[j]).is_for(id, date@),
        decreases logs@.len() - i,
    {
        proof {
            lemma_date_equality(logs[i as int].date, date);
        }
        if logs[i].habit_id == id && logs[i].date == date {
            proof {
                lemma_log_position(log_models(logs@), id, date@, i as int);
            }
            return Some(i);
        }
        i += 1;
    }
    proof {
        lemma_log_absent(log_models(logs@), id, date@);
    }
    None
}

/// The filter of an empty prefix is empty.
proof fn lemma_filter_take_none<A>(s: Seq<A>, pred: spec_fn(A) -> bool)
    ensures
        s.take(0).filter(pred) == Seq::<A>::empty(),
{
    reveal(Seq::filter);
    assert(s.take(0) =~= Seq::<A>::empty());
}

/// One more element taken into a filtered prefix.
proof fn lemma_filter_take_step<A>(s: Seq<A>, pred: spec_fn(A) -> bool, k: int)
    requires
        0 <= k < s.len(),
    ensures
        s.take(k + 1).filter(pred) == if pred(s[k]) {
            s.take(k).filter(pred).push(s[k])
        } else {
            s.take(k).filter(pred)
        },
{
    assert(s.take(k + 1) =~= s.take(k).push(s[k]));
    s.take(k).lemma_filter_push(s[k], pred);
}

/// Where `habit` goes when it is inserted by order: behind the entries that
/// do not exceed its order, before those that do.
proof fn lemma_insert_by_order_at(sorted: Seq<HabitModel>, habit: HabitModel, p: int)
    requires
        0 <= p <= sorted.len(),
        forall|q: int| p <= q < sorted.len() ==> (#[trigger] sorted[q]).order > habit.order,
        p > 0 ==> sorted[p - 1].order <= habit.order,
    ensures
        insert_by_order(sorted, habit) == sorted.insert(p, habit),
    decreases sorted.len() - p,
{
    if p == sorted.len() {
        assert(sorted.push(habit) =~= sorted.insert(p, habit));
    } else {
        assert(sorted.last().order > habit.order);
        lemma_insert_by_order_at(sorted.drop_last(), habit, p);
        assert(sorted.drop_last().insert(p, habit).push(sorted.last()) =~= sorted.insert(
            p,
            habit,
        ));
    }
}

/// Removes every habit with the given identifier.
fn retain_other_habits(habits: &mut Vec<Habit>, id: u128)
    ensures
        habit_models(final(habits)@) == habit_models(old(habits)@).filter(other_habit(id)),
{
    let ghost orig = habit_models(habits@);
    let ghost pred = other_habit(id);
    let ghost mut k: int = 0;
    let mut i: usize = 0;
    proof {
        lemma_filter_take_none(orig, pred);
        assert(habit_models(habits@).take(0) =~= orig.take(0).filter(pred));
        assert(habit_models(habits@).skip(0) =~= orig.skip(0));
    }
    while i < habits.len()
        invariant
            i <= habits@.len(),
            0 <= k <= orig.len(),
            habits@.len() - i == orig.len() - k,
            pred == other_habit(id),
            habit_models(habits@).take(i as int) == orig.take(k).filter(pred),
            habit_models(habits@).skip(i as int) == orig.skip(k),
        decreases habits@.len() - i,
    {
        let ghost before = habit_models(habits@);
        proof {
            lemma_filter_take_step(orig, pred, k);
            assert(before[i as int] == before.skip(i as int)[0]);
            assert(orig[k] == orig.skip(k)[0]);
        }
        if habits[i].id == id {
            habits.remove(i);
            proof {
                assert(habit_models(habits@) =~= before.remove(i as int));
                assert(habit_models(habits@).take(i as int) =~= before.take(i as int));
                assert(habit_models(habits@).skip(i as int) =~= before.skip(i as int).skip(1));
                assert(orig.skip(k + 1) =~= orig.skip(k).skip(1));
            }
        } else {
            i += 1;
            proof {
                assert(before.take(i as int) =~= before.take(i - 1).push(before[i - 1]));
                assert(before.skip(i as int) =~= before.skip(i - 1).skip(1));
                assert(orig.skip(k + 1) =~= orig.skip(k).skip(1));
            }
        }
        proof {
            k = k + 1;
        }
    }
    proof {
        assert(habit_models(habits@).take(i as int) =~= habit_models(habits@));
        assert(orig.take(k) =~= orig);
    }
}

/// Removes every log entry of the habit with the given identifier.
fn retain_other_logs(logs: &mut Vec<HabitLog>, id: u128)
    ensures
        log_models(final(logs)@) == log_models(old(logs)@).filter(log_of_other_habit(id)),
{
    let ghost orig = log_models(logs@);
    let ghost pred = log_of_other_habit(id);
    let ghost mut k: int = 0;
    let mut i: usize = 0;
    proof {
        lemma_filter_take_none(orig, pred);
        assert(log_models(logs@).take(0) =~= orig.take(0).filter(pred));
        assert(log_models(logs@).skip(0) =~= orig.skip(0));
    }
    while i < logs.len()
        invariant
            i <= logs@.len(),
            0 <= k <= orig.len(),
            logs@.len() - i == orig.len() - k,
            pred == log_of_other_habit(id),
            log_models(logs@).take(i as int) == orig.take(k).filter(pred),
            log_models(logs@).skip(i as int) == orig.skip(k),
        decreases logs@.len() - i,
    {
        let ghost before = log_models(logs@);
        proof {
            lemma_filter_take_step(orig, pred, k);
            assert(before[i as int] == before.skip(i as int)[0]);
            assert(orig[k] == orig.skip(k)[0]);
        }
        if logs[i].habit_id == id {
            logs.remove(i);
            proof {
                assert(log_models(logs@) =~= before.remove(i as int));
                assert(log_models(logs@).take(i as int) =~= before.take(i as int));
                assert(log_models(logs@).skip(i as int) =~= before.skip(i as int).skip(1));
                assert(orig.skip(k + 1) =~= orig.skip(k).skip(1));
            }
        } else {
            i += 1;
            proof {
                assert(before.take(i as int) =~= before.take(i - 1).push(before[i - 1]));
                assert(before.skip(i as int) =~= before.skip(i - 1).skip(1));
                assert(orig.skip(k + 1) =~= orig.skip(k).skip(1));
            }
        }
        proof {
            k = k + 1;
        }
    }
    proof {
        assert(log_models(logs@).take(i as int) =~= log_models(logs@));
        assert(orig.take(k) =~= orig);
    }
}

/// The habits with the first `n` of them renumbered by position.
spec fn renumbered_upto(habits: Seq<HabitModel>, n: int) -> Seq<HabitModel> {
    Seq::new(
        habits.len(),
        |j: int|
            if j < n {
                HabitModel { order: j as nat, ..habits[j] }
            } else {
                habits[j]
            },
    )
}

/// Sets each habit's order to its position.
fn renumber(habits: &mut Vec<Habit>)
    ensures
        habit_models(final(habits)@) == renumbered(habit_models(old(habits)@)),
{
    let ghost orig = habit_models(habits@);
    let mut i: usize = 0;
    assert(habit_models(habits@) =~= renumbered_upto(orig, 0));
    while i < habits.len()
        invariant
            i <= habits@.len(),
            habits@.len() == orig.len(),
            habit_models(habits@) == renumbered_upto(orig, i as int),
        decreases habits@.len() - i,
    {
        let ghost before = habits@;
        habits[i].order = i;
        i += 1;
        assert forall|j: int| 0 <= j < habits@.len() implies habit_models(habits@)[j]
            == renumbered_upto(orig, i as int)[j] by {
            assert(habit_models(before)[j] == renumbered_upto(orig, i - 1)[j]);
        }
        assert(habit_models(habits@) =~= renumbered_upto(orig, i as int));
    }
    assert(habit_models(habits@) =~= renumbered(orig));
}

/// The share of `done` in `total`, in whole percent, rounded down; 0 where
/// `total` is 0.
pub open spec fn percent_of(done: nat, total: nat) -> nat {
    if total > 0 {
        (done * 100) / total
    } else {
        0
    }
}

/// The completion rate in whole percent: the share of `done` days among
/// `total` days, rounded down, and 0 where there are no days.
pub fn completion_percent(done: usize, total: usize) -> (r: usize)
    requires
        done * 100 <= usize::MAX,
    ensures
        r == percent_of(done as nat, total as nat),
{
    if total > 0 {
        (done * 100) / total
    } else {
        0
    }
}

impl Storage {
    /// Create a store that holds the default habits and no log entries.
    /// Nothing is marked for saving yet.
    pub fn new() -> (r: Self)
        ensures
            is_seed(r@.data),
            !r@.unsaved,
    {
        Storage { data: HabitData::default(), unsaved: false }
    }

    /// The document.
    pub fn data(&self) -> (r: &HabitData)
        ensures
            r@ == self@.data,
    {
        &self.data
    }

    /// Whether the document has changed since it was last saved.
    pub fn has_unsaved_changes(&self) -> (r: bool)
        ensures
            r == self@.unsaved,
    {
        self.unsaved
    }

    /// Record that the document has been written out.
    pub fn mark_saved(&mut self)
        ensures
            final(self)@ == (StorageModel { unsaved: false, ..old(self)@ }),
    {
        self.unsaved = false;
    }

    /// Decide what loading has to do with what was found on disk:
    /// `contents` is the text of the file, or `None` where there is no
    /// file. A missing or blank file seeds the store with the default habits
    /// and marks it for saving; any other content is left for parsing.
    pub fn load(&mut self, contents: Option<&str>) -> (r: LoadStep)
        ensures
            r == LoadStep::Seeded <==> (match contents {
                Some(text) => is_blank(text@),
                None => true,
            }),
            r == LoadStep::Seeded ==> is_seed(final(self)@.data) && final(self)@.unsaved,
            r == LoadStep::Parse ==> final(self)@ == old(self)@,
    {
        let blank = match contents {
            Some(text) => is_blank_str(text),
            None => true,
        };
        if blank {
            self.data = HabitData::default();
            self.unsaved = true;
            LoadStep::Seeded
        } else {
            LoadStep::Parse
        }
    }

    /// Take over a document that was read from disk. It is what is on
    /// disk, so nothing is marked for saving.
    pub fn set_data(&mut self, data: HabitData)
        ensures
            final(self)@ == (StorageModel { data: data@, unsaved: false }),
    {
        self.data = data;
        self.unsaved = false;
    }

    /// Get all habits, sorted by order; habits of equal order stay in
    /// storage order.
    pub fn habits(&self) -> (r: Vec<&Habit>)
        ensures
            habit_ref_models(r@) == sorted_by_order(self@.data.habits),
    {
        let mut sorted: Vec<&Habit> = Vec::new();
        let mut i: usize = 0;
        let ghost all = habit_models(self.data.habits@);
        assert(habit_ref_models(sorted@) =~= sorted_by_order(all.take(0)));
        while i < self.data.habits.len()
            invariant
                i <= self.data.habits@.len(),
                all == habit_models(self.data.habits@),
                habit_ref_models(sorted@) == sorted_by_order(all.take(i as int)),
            decreases self.data.habits@.len() - i,
        {
            let habit = &self.data.habits[i];
            let mut p: usize = sorted.len();
            while p > 0 && sorted[p - 1].order > habit.order
                invariant
                    p <= sorted@.len(),
                    forall|q: int|
                        p <= q < sorted@.len() ==> (#[trigger] habit_ref_models(sorted@)[q]).order
                            > habit@.order,
                decreases p,
            {
                p -= 1;
            }
            proof {
                let before = habit_ref_models(sorted@);
                if p > 0 {
                    assert(before[p - 1].order <= habit@.order);
                }
                lemma_insert_by_order_at(before, habit@, p as int);
                assert(all.take(i + 1).drop_last() =~= all.take(i as int));
                assert(all.take(i + 1).last() == habit@);
            }
            let ghost before = habit_ref_models(sorted@);
            sorted.insert(p, habit);
            assert(habit_ref_models(sorted@) =~= before.insert(p as int, habit@));
            i += 1;
        }
        assert(all.take(i as int) =~= all);
        sorted
    }

    /// Get a habit by ID.
    pub fn get_habit(&self, id: u128) -> (r: Option<&Habit>)
        ensures
            match r {
                Some(habit) => self@.data.habit(id) == Some(habit@),
                None => self@.data.habit(id) is None,
            },
    {
        match find_habit(&self.data.habits, id) {
            Some(i) => Some(&self.data.habits[i]),
            None => None,
        }
    }

    /// Add a new habit at the end of the registry, under a fresh
    /// identifier. A name that is blank is rejected: nothing is added and
    /// nothing is marked for saving.
    pub fn add_habit(&mut self, name: String)
        ensures
            final(self)@.data == old(self)@.data.add_habit(
                final(self)@.data.habits.last().id,
                name@,
            ),
            final(self)@.unsaved == (old(self)@.unsaved || !is_blank(name@)),
    {
        if is_blank_str(name.as_str()) {
            return;
        }
        let order = self.data.habits.len();
        let mut habit = Habit::new(name.as_str());
        let ghost id = habit.id;
        habit.order = order;
        self.data.habits.push(habit);
        self.unsaved = true;
        assert(self@.data.habits =~= old(self)@.data.add_habit(id, name@).habits);
    }

    /// Update an existing habit.
    pub fn update_habit(&mut self, habit: Habit) -> (r: Result<(), StorageError>)
        ensures
            match r {
                Ok(_) => {
                    &&& old(self)@.data.habit(habit.id) is Some
                    &&& final(self)@.data == old(self)@.data.update_habit(habit@)
                    &&& final(self)@.unsaved
                },
                Err(e) => {
                    &&& e == StorageError::HabitNotFound
                    &&& old(self)@.data.habit(habit.id) is None
                    &&& final(self)@ == old(self)@
                },
            },
    {
        match find_habit(&self.data.habits, habit.id) {
            Some(i) => {
                self.data.habits[i] = habit;
                self.unsaved = true;
                assert(self@.data.habits =~= old(self)@.data.update_habit(habit@).habits);
                Ok(())
            },
            None => Err(StorageError::HabitNotFound),
        }
    }

    /// Update a habit's name.
    pub fn update_habit_name(&mut self, id: u128, name: String) -> (r: Result<(), StorageError>)
        ensures
            match r {
                Ok(_) => {
                    &&& old(self)@.data.habit(id) is Some
                    &&& final(self)@.data == old(self)@.data.rename_habit(id, name@)
                    &&& final(self)@.unsaved
                },
                Err(e) => {
                    &&& e == StorageError::HabitNotFound
                    &&& old(self)@.data.habit(id) is None
                    &&& final(self)@ == old(self)@
                },
            },
    {
        match find_habit(&self.data.habits, id) {
            Some(i) => {
                self.data.habits[i].name = name;
                self.unsaved = true;
                assert(self@.data.habits =~= old(self)@.data.rename_habit(id, name@).habits);
                Ok(())
            },
            None => Err(StorageError::HabitNotFound),
        }
    }

    /// Update a habit's frequency.
    pub fn update_habit_frequency(&mut self, id: u128, frequency: Frequency) -> (r: Result<
        (),
        StorageError,
    >)
        ensures
            match r {
                Ok(_) => {
                    &&& old(self)@.data.habit(id) is Some
                    &&& final(self)@.data == old(self)@.data.set_frequency(id, frequency)
                    &&& final(self)@.unsaved
                },
                Err(e) => {
                    &&& e == StorageError::HabitNotFound
                    &&& old(self)@.data.habit(id) is None
                    &&& final(self)@ == old(self)@
                },
            },
    {
        match find_habit(&self.data.habits, id) {
            Some(i) => {
                self.data.habits[i].frequency = frequency;
                self.unsaved = true;
                assert(self@.data.habits =~= old(self)@.data.set_frequency(id, frequency).habits);
                Ok(())
            },
            None => Err(StorageError::HabitNotFound),
        }
    }

    /// Delete a habit and all its logs. The habits that stay keep their
    /// relative position and are renumbered, so that the orders stay
    /// contiguous.
    pub fn delete_habit(&mut self, id: u128)
        ensures
            final(self)@.data == old(self)@.data.delete_habit(id),
            final(self)@.unsaved,
    {
        retain_other_habits(&mut self.data.habits, id);
        renumber(&mut self.data.habits);
        retain_other_logs(&mut self.data.logs, id);
        self.unsaved = true;
    }

    /// Remove a habit (alias for `delete_habit`).
    pub fn remove_habit(&mut self, id: u128)
        ensures
            final(self)@.data == old(self)@.data.delete_habit(id),
            final(self)@.unsaved,
    {
        self.delete_habit(id)
    }

    /// Reorder a habit to a new position.
    pub fn reorder_habit(&mut self, id: u128, new_order: usize) -> (r: Result<(), StorageError>)
        ensures
            match r {
                Ok(_) => {
                    &&& old(self)@.data.habit(id) is Some
                    &&& final(self)@.data == old(self)@.data.reorder_habit(id, new_order as nat)
                    &&& final(self)@.unsaved
                },
                Err(e) => {
                    &&& e == StorageError::HabitNotFound
                    &&& old(self)@.data.habit(id) is None
                    &&& final(self)@ == old(self)@
                },
            },
    {
        match find_habit(&self.data.habits, id) {
            Some(current_idx) => {
                let ghost before = habit_models(self.data.habits@);
                let habit = self.data.habits.remove(current_idx);
                let rest_len = self.data.habits.len();
                let insert_idx = if new_order < rest_len {
                    new_order
                } else {
                    rest_len
                };
                assert(habit_models(self.data.habits@) =~= before.remove(current_idx as int));
                self.data.habits.insert(insert_idx, habit);
                assert(habit_models(self.data.habits@) =~= before.remove(
                    current_idx as int,
                ).insert(insert_idx as int, before[current_idx as int]));
                renumber(&mut self.data.habits);
                self.unsaved = true;
                Ok(())
            },
            None => Err(StorageError::HabitNotFound),
        }
    }

    /// Get a log entry for a specific habit and date.
    pub fn get_log(&self, habit_id: u128, date: Date) -> (r: Option<&HabitLog>)
        ensures
            match r {
                Some(entry) => self@.data.log(habit_id, date@) == Some(entry@),
                None => self@.data.log(habit_id, date@) is None,
            },
    {
        match find_log(&self.data.logs, habit_id, date) {
            Some(i) => Some(&self.data.logs[i]),
            None => None,
        }
    }

    /// Get all logs for a specific date.
    pub fn get_logs_for_date(&self, date: Date) -> (r: Vec<&HabitLog>)
        ensures
            log_ref_models(r@) == self@.data.logs_on(date@),
    {
        let mut found: Vec<&HabitLog> = Vec::new();
        let mut i: usize = 0;
        let ghost all = log_models(self.data.logs@);
        proof {
            lemma_filter_take_none(all, log_on(date@));
            assert(log_ref_models(found@) =~= all.take(0).filter(log_on(date@)));
        }
        while i < self.data.logs.len()
            invariant
                i <= self.data.logs@.len(),
                all == log_models(self.data.logs@),
                log_ref_models(found@) == all.take(i as int).filter(log_on(date@)),
            decreases self.data.logs@.len() - i,
        {
            let entry = &self.data.logs[i];
            proof {
                lemma_filter_take_step(all, log_on(date@), i as int);
                lemma_date_equality(entry.date, date);
            }
            if entry.date == date {
                let ghost before = log_ref_models(found@);
                found.push(entry);
                assert(log_ref_models(found@) =~= before.push(entry@));
            }
            i += 1;
        }
        assert(all.take(i as int) =~= all);
        found
    }

    /// The committed status of a habit on a date: that of its log entry,
    /// and `Unmarked` where it has none.
    pub fn status(&self, habit_id: u128, date: Date) -> (r: HabitStatus)
        ensures
            r == self@.data.status(habit_id, date@),
    {
        match self.get_log(habit_id, date) {
            Some(entry) => entry.status,
            None => HabitStatus::Unmarked,
        }
    }

    /// Makes sure that the habit has a log entry on the date and returns
    /// the entry's position.
    fn ensure_log(&mut self, habit_id: u128, date: Date) -> (i: usize)
        ensures
            final(self)@.data == old(self)@.data.ensure_log(habit_id, date@),
            final(self)@.unsaved == old(self)@.unsaved,
            i == old(self)@.data.ensured_position(habit_id, date@),
            i < final(self)@.data.logs.len(),
    {
        match find_log(&self.data.logs, habit_id, date) {
            Some(i) => i,
            None => {
                let i = self.data.logs.len();
                self.data.logs.push(HabitLog::new(habit_id, date));
                assert(self@.data.logs =~= old(self)@.data.ensure_log(habit_id, date@).logs);
                i
            },
        }
    }

    /// Get or create a log entry for a habit and date. What the caller
    /// writes through the returned reference is what the store then holds
    /// at the entry's position.
    pub fn get_or_create_log(&mut self, habit_id: u128, date: Date) -> (r: &mut HabitLog)
        ensures
            r@ == old(self)@.data.ensure_log(habit_id, date@).logs[old(self)@.data.ensured_position(
                habit_id,
                date@,
            )],
            final(self)@.data.habits == old(self)@.data.habits,
            final(self)@.data.logs == old(self)@.data.ensure_log(habit_id, date@).logs.update(
                old(self)@.data.ensured_position(habit_id, date@),
                final(r)@,
            ),
            final(self)@.unsaved == old(self)@.unsaved,
    {
        let i = self.ensure_log(habit_id, date);
        &mut self.data.logs[i]
    }

    /// Update a log entry status.
    pub fn update_log_status(&mut self, habit_id: u128, date: Date, status: HabitStatus)
        ensures
            final(self)@.data == old(self)@.data.set_status(habit_id, date@, status),
            final(self)@.unsaved,
    {
        let i = self.ensure_log(habit_id, date);
        self.data.logs[i].status = status;
        self.unsaved = true;
        assert(self@.data.logs =~= old(self)@.data.set_status(habit_id, date@, status).logs);
    }

    /// Toggle a log entry status and return the new status.
    pub fn toggle_log_status(&mut self, habit_id: u128, date: Date) -> (r: HabitStatus)
        ensures
            r == old(self)@.data.status(habit_id, date@).next(),
            final(self)@.data == old(self)@.data.set_status(habit_id, date@, r),
            final(self)@.unsaved,
    {
        let i = self.ensure_log(habit_id, date);
        self.data.logs[i].toggle_status();
        let new_status = self.data.logs[i].status;
        self.unsaved = true;
        assert(self@.data.logs =~= old(self)@.data.set_status(habit_id, date@, new_status).logs);
        new_status
    }

    /// Count, for one habit, the days from `start_date` to `end_date` (both
    /// included) by committed status: done, skipped, unmarked.
    pub fn count_statuses(&self, habit_id: u128, start_date: Date, end_date: Date) -> (r: (
        usize,
        usize,
        usize,
    ))
        ensures
            r.0 == self@.data.days_with_status(habit_id, start_date@, end_date@, HabitStatus::Done),
            r.1 == self@.data.days_with_status(
                habit_id,
                start_date@,
                end_date@,
                HabitStatus::Skipped,
            ),
            r.2 == self@.data.days_with_status(
                habit_id,
                start_date@,
                end_date@,
                HabitStatus::Unmarked,
            ),
    {
        let first: i32 = start_date.num_days_from_ce();
        let last: i32 = end_date.num_days_from_ce();
        let mut done: usize = 0;
        let mut skipped: usize = 0;
        let mut unmarked: usize = 0;
        let mut day: i32 = first;
        while day <= last
            invariant
                first <= day <= last + 1 || (last < first && day == first),
                in_range(first as int),
                in_range(last as int),
                done == self@.data.days_with_status(
                    habit_id,
                    first as int,
                    day - 1,
                    HabitStatus::Done,
                ),
                skipped == self@.data.days_with_status(
                    habit_id,
                    first as int,
                    day - 1,
                    HabitStatus::Skipped,
                ),
                unmarked == self@.data.days_with_status(
                    habit_id,
                    first as int,
                    day - 1,
                    HabitStatus::Unmarked,
                ),
                done + skipped + unmarked == day - first,
            decreases last - day + 1,
        {
            let current = Date::from_num_days_from_ce_opt(day).unwrap();
            match self.status(habit_id, current) {
                HabitStatus::Done => {
                    done += 1;
                },
                HabitStatus::Skipped => {
                    skipped += 1;
                },
                HabitStatus::Unmarked => {
                    unmarked += 1;
                },
            }
            day += 1;
        }
        (done, skipped, unmarked)
    }

    /// Get completion statistics for a date range: for each habit of the
    /// registry, by its identifier, the numbers of done, skipped and
    /// unmarked days from `start_date` to `end_date`.
    pub fn get_stats(&self, start_date: Date, end_date: Date) -> (stats: HashMap<
        u128,
        (usize, usize, usize),
    >)
        ensures
            forall|id: u128| #[trigger] stats@.contains_key(id) <==> self@.data.has_habit(id),
            forall|id: u128| #[trigger]
                stats@.contains_key(id) ==> {
                    &&& stats@[id].0 == self@.data.days_with_status(
                        id,
                        start_date@,
                        end_date@,
                        HabitStatus::Done,
                    )
                    &&& stats@[id].1 == self@.data.days_with_status(
                        id,
                        start_date@,
                        end_date@,
                        HabitStatus::Skipped,
                    )
                    &&& stats@[id].2 == self@.data.days_with_status(
                        id,
                        start_date@,
                        end_date@,
                        HabitStatus::Unmarked,
                    )
                },
    {
        broadcast use vstd::std_specs::hash::group_hash_axioms;

        let mut stats: HashMap<u128, (usize, usize, usize)> = HashMap::new();
        let mut i: usize = 0;
        let ghost all = habit_models(self.data.habits@);
        while i < self.data.habits.len()
            invariant
                i <= self.data.habits@.len(),
                all == habit_models(self.data.habits@),
                forall|id: u128| #[trigger]
                    stats@.contains_key(id) <==> exists|j: int|
                        0 <= j < i && (#[trigger] all[j]).id == id,
                forall|id: u128| #[trigger]
                    stats@.contains_key(id) ==> {
                        &&& stats@[id].0 == self@.data.days_with_status(
                            id,
                            start_date@,
                            end_date@,
                            HabitStatus::Done,
                        )
                        &&& stats@[id].1 == self@.data.days_with_status(
                            id,
                            start_date@,
                            end_date@,
                            HabitStatus::Skipped,
                        )
                        &&& stats@[id].2 == self@.data.days_with_status(
                            id,
                            start_date@,
                            end_date@,
                            HabitStatus::Unmarked,
                        )
                    },
            decreases self.data.habits@.len() - i,
        {
            let id = self.data.habits[i].id;
            let counts = self.count_statuses(id, start_date, end_date);
            let ghost before = stats@;
            stats.insert(id, counts);
            proof {
                assert(all[i as int].id == id);
                assert forall|other: u128| #[trigger]
                    stats@.contains_key(other) <==> exists|j: int|
                        0 <= j < i + 1 && (#[trigger] all[j]).id == other by {
                    if before.contains_key(other) {
                        let j = choose|j: int| 0 <= j < i && (#[trigger] all[j]).id == other;
                        assert(0 <= j < i + 1 && all[j].id == other);
                    }
                    if exists|j: int| 0 <= j < i + 1 && (#[trigger] all[j]).id == other {
                        let j = choose|j: int| 0 <= j < i + 1 && (#[trigger] all[j]).id == other;
                        if j < i {
                            assert(before.contains_key(other));
                        }
                    }
                }
            }
            i += 1;
        }
        stats
    }

    /// Propagate the status of a weekly habit across its week: once it is
    /// done on `done_date`, each earlier day of that week that is still
    /// unmarked is marked skipped. Days that have a status keep it, and days
    /// after `done_date` are not touched. The store is marked for saving
    /// where a day was written.
    pub fn propagate_weekly_habit_status(&mut self, habit_id: u128, done_date: Date)
        ensures
            final(self)@.data == old(self)@.data.propagate(habit_id, done_date@),
            final(self)@.unsaved == (old(self)@.unsaved || old(self)@.data.propagation_pending(
                habit_id,
                done_date@,
            )),
    {
        let back: u32 = done_date.weekday_from_monday();
        let mut left: u32 = back;
        let ghost start = old(self)@.data;
        while left > 0
            invariant
                left <= back < 7,
                back == days_since_monday(done_date@),
                start == old(self)@.data,
                self@.data.backfill(habit_id, done_date@, left as nat) == start.propagate(
                    habit_id,
                    done_date@,
                ),
                forall|d: int|
                    done_date@ - left <= d < done_date@ ==> #[trigger] self@.data.status(
                        habit_id,
                        d,
                    ) == start.status(habit_id, d),
                self@.unsaved == (old(self)@.unsaved || start.backfill_pending(
                    habit_id,
                    done_date@ - left,
                    (back - left) as nat,
                )),
            decreases left,
        {
            let ghost before = self@.data;
            let ghost today = done_date@ - left;
            let ghost was_unsaved = self@.unsaved;
            assert(before.status(habit_id, today) == start.status(habit_id, today));
            match done_date.checked_add_days(-(left as i32)) {
                Some(day) => {
                    if self.status(habit_id, day) == HabitStatus::Unmarked {
                        self.update_log_status(habit_id, day, HabitStatus::Skipped);
                    }
                },
                None => {},
            }
            proof {
                assert(self@.data == before.backfill_day(habit_id, today));
                assert forall|d: int| today + 1 <= d < done_date@ implies #[trigger]
                    self@.data.status(habit_id, d) == start.status(habit_id, d) by {
                    lemma_set_status_reads(
                        before,
                        habit_id,
                        today,
                        HabitStatus::Skipped,
                        habit_id,
                        d,
                    );
                    assert(before.status(habit_id, d) == start.status(habit_id, d));
                }
                let wrote = in_range(today) && start.status(habit_id, today)
                    == HabitStatus::Unmarked;
                assert(self@.unsaved == (was_unsaved || wrote));
                let pending_before = start.backfill_pending(
                    habit_id,
                    today,
                    (back - left) as nat,
                );
                let pending_after = start.backfill_pending(
                    habit_id,
                    today + 1,
                    (back - left + 1) as nat,
                );
                if wrote {
                    assert(start.status(habit_id, today) == HabitStatus::Unmarked);
                }
                if pending_before {
                    let d = choose|d: int|
                        today - (back - left) <= d < today && in_range(d) && #[trigger]
                        start.status(habit_id, d) == HabitStatus::Unmarked;
                    assert(start.status(habit_id, d) == HabitStatus::Unmarked);
                }
                assert(pending_after == (pending_before || wrote));
            }
            left -= 1;
        }
    }

    /// Update a log entry note.
    pub fn update_log_note(&mut self, habit_id: u128, date: Date, note: Option<String>)
        ensures
            final(self)@.data == old(self)@.data.set_note(habit_id, date@, option_text(note)),
            final(self)@.unsaved,
    {
        let i = self.ensure_log(habit_id, date);
        self.data.logs[i].set_note(note);
        self.unsaved = true;
        assert(self@.data.logs =~= old(self)@.data.set_note(
            habit_id,
            date@,
            option_text(note),
        ).logs);
    }
}

} // verus!
