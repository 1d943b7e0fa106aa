//! The document as a mathematical value: the registry and the log as
//! sequences, where an identifier or a habit and day are found in them, and
//! what each operation of the store makes of them.

use crate::models::date::in_range;
use crate::models::habit::{default_habit_models, Frequency, HabitModel};
use crate::models::log::{HabitStatus, LogModel};
use crate::models::week::days_since_monday;
use crate::text::is_blank;
use vstd::prelude::*;

verus! {

/// Whether `i` is the first position in `habits` that holds the habit `id`.
pub open spec fn is_first_habit(habits: Seq<HabitModel>, id: u128, i: int) -> bool {
    &&& 0 <= i < habits.len()
    &&& habits[i].id == id
    &&& forall|j: int| 0 <= j < i ==> (#[trigger] habits[j]).id != id
}

/// The first position in `habits` that holds the habit `id`.
pub open spec fn habit_position(habits: Seq<HabitModel>, id: u128) -> Option<int> {
    if exists|i: int| is_first_habit(habits, id, i) {
        Some(choose|i: int| is_first_habit(habits, id, i))
    } else {
        None
    }
}

/// Whether `i` is the first position in `logs` that holds the entry for the
/// habit `id` on `day`.
pub open spec fn is_first_log(logs: Seq<LogModel>, id: u128, day: int, i: int) -> bool {
    &&& 0 <= i < logs.len()
    &&& logs[i].is_for(id, day)
    &&& forall|j: int| 0 <= j < i ==> !(#[trigger] logs[j]).is_for(id, day)
}

/// The first position in `logs` that holds the entry for the habit `id` on
/// `day`.
pub open spec fn log_position(logs: Seq<LogModel>, id: u128, day: int) -> Option<int> {
    if exists|i: int| is_first_log(logs, id, day, i) {
        Some(choose|i: int| is_first_log(logs, id, day, i))
    } else {
        None
    }
}

/// The test that a habit is not the habit `id`.
pub open spec fn other_habit(id: u128) -> spec_fn(HabitModel) -> bool {
    |h: HabitModel| h.id != id
}

/// The test that a log entry does not belong to the habit `id`.
pub open spec fn log_of_other_habit(id: u128) -> spec_fn(LogModel) -> bool {
    |l: LogModel| l.habit_id != id
}

/// The test that a log entry is for the given day.
pub open spec fn log_on(day: int) -> spec_fn(LogModel) -> bool {
    |l: LogModel| l.day == day
}

/// The habits with each `order` set to the habit's position.
pub open spec fn renumbered(habits: Seq<HabitModel>) -> Seq<HabitModel> {
    Seq::new(habits.len(), |i: int| HabitModel { order: i as nat, ..habits[i] })
}

/// Order-contiguity: each habit's `order` is its position, so the orders
/// are 0, 1, ..., count-1 without gap or repetition.
pub open spec fn positional(habits: Seq<HabitModel>) -> bool {
    forall|i: int| 0 <= i < habits.len() ==> (#[trigger] habits[i]).order == i
}

/// Whether no two entries of `logs` are for the same habit and day.
pub open spec fn unique_log_keys(logs: Seq<LogModel>) -> bool {
    forall|i: int, j: int|
        0 <= i < j < logs.len() ==> !(#[trigger] logs[i]).is_for(
            (#[trigger] logs[j]).habit_id,
            logs[j].day,
        )
}

/// The set of the `order` values of the habits.
pub open spec fn order_values(habits: Seq<HabitModel>) -> Set<nat> {
    Set::new(
        |k: nat| exists|i: int| 0 <= i < habits.len() && (#[trigger] habits[i]).order == k,
    )
}

/// The set of the natural numbers below `n`.
pub open spec fn naturals_below(n: nat) -> Set<nat> {
    Set::new(|k: nat| k < n)
}

/// Whether the habits stand in ascending order of `order`.
pub open spec fn ascending(habits: Seq<HabitModel>) -> bool {
    forall|i: int, j: int|
        0 <= i < j < habits.len() ==> (#[trigger] habits[i]).order <= (#[trigger] habits[j]).order
}

/// `sorted` with `habit` put behind the last entry whose order is not
/// greater than its own.
pub open spec fn insert_by_order(sorted: Seq<HabitModel>, habit: HabitModel) -> Seq<HabitModel>
    decreases sorted.len(),
{
    if sorted.len() > 0 && sorted.last().order > habit.order {
        insert_by_order(sorted.drop_last(), habit).push(sorted.last())
    } else {
        sorted.push(habit)
    }
}

/// The habits in ascending `order`; habits of equal order keep their
/// relative position.
pub open spec fn sorted_by_order(habits: Seq<HabitModel>) -> Seq<HabitModel>
    decreases habits.len(),
{
    if habits.len() == 0 {
        habits
    } else {
        insert_by_order(sorted_by_order(habits.drop_last()), habits.last())
    }
}

/// The whole durable state, as a mathematical value: the registry in
/// storage order and the log entries.
pub struct DataModel {
    /// The habits.
    pub habits: Seq<HabitModel>,
    /// The log entries.
    pub logs: Seq<LogModel>,
}

impl DataModel {
    /// The first habit with the given identifier.
    pub open spec fn habit(self, id: u128) -> Option<HabitModel> {
        match habit_position(self.habits, id) {
            Some(i) => Some(self.habits[i]),
            None => None,
        }
    }

    /// The registry after a habit was added under `name` with the
    /// identifier `id`: a blank name adds nothing; any other name is
    /// appended as a daily habit whose order is the number of habits before.
    pub open spec fn add_habit(self, id: u128, name: Seq<char>) -> DataModel {
        if is_blank(name) {
            self
        } else {
            DataModel {
                habits: self.habits.push(
                    HabitModel { order: self.habits.len(), ..HabitModel::fresh(id, name) },
                ),
                ..self
            }
        }
    }

    /// The registry with the first habit that has `habit`'s identifier
    /// replaced by `habit`; unchanged where there is none.
    pub open spec fn update_habit(self, habit: HabitModel) -> DataModel {
        match habit_position(self.habits, habit.id) {
            Some(i) => DataModel { habits: self.habits.update(i, habit), ..self },
            None => self,
        }
    }

    /// The registry with the first habit `id` renamed; unchanged where there
    /// is none.
    pub open spec fn rename_habit(self, id: u128, name: Seq<char>) -> DataModel {
        match habit_position(self.habits, id) {
            Some(i) => self.update_habit(HabitModel { name, ..self.habits[i] }),
            None => self,
        }
    }

    /// The registry with the frequency of the first habit `id` changed;
    /// unchanged where there is none.
    pub open spec fn set_frequency(self, id: u128, frequency: Frequency) -> DataModel {
        match habit_position(self.habits, id) {
            Some(i) => self.update_habit(HabitModel { frequency, ..self.habits[i] }),
            None => self,
        }
    }

    /// The document without the habits `id` and without their log entries;
    /// the habits that stay are renumbered by position.
    pub open spec fn delete_habit(self, id: u128) -> DataModel {
        DataModel {
            habits: renumbered(self.habits.filter(other_habit(id))),
            logs: self.logs.filter(log_of_other_habit(id)),
        }
    }

    /// The registry with the first habit `id` taken out and put back at
    /// position `new_order`, or at the end where `new_order` lies beyond it,
    /// and all habits renumbered by position; unchanged where there is no
    /// such habit.
    pub open spec fn reorder_habit(self, id: u128, new_order: nat) -> DataModel {
        match habit_position(self.habits, id) {
            Some(i) => {
                let rest = self.habits.remove(i);
                let at = if new_order < rest.len() {
                    new_order as int
                } else {
                    rest.len() as int
                };
                DataModel { habits: renumbered(rest.insert(at, self.habits[i])), ..self }
            },
            None => self,
        }
    }

    /// The first log entry for the habit `id` on `day`.
    pub open spec fn log(self, id: u128, day: int) -> Option<LogModel> {
        match log_position(self.logs, id, day) {
            Some(i) => Some(self.logs[i]),
            None => None,
        }
    }

    /// The committed status of the habit `id` on `day`: that of its log
    /// entry, and `Unmarked` where there is none.
    pub open spec fn status(self, id: u128, day: int) -> HabitStatus {
        match self.log(id, day) {
            Some(entry) => entry.status,
            None => HabitStatus::Unmarked,
        }
    }

    /// The note of the habit `id` on `day`, if it has one.
    pub open spec fn note(self, id: u128, day: int) -> Option<Seq<char>> {
        match self.log(id, day) {
            Some(entry) => entry.note,
            None => None,
        }
    }

    /// The log entries for the given day, in storage order.
    pub open spec fn logs_on(self, day: int) -> Seq<LogModel> {
        self.logs.filter(log_on(day))
    }

    /// The weekly back-fill of one day: where `day` is a representable date
    /// on which the habit `id` is still unmarked, it becomes skipped; any
    /// other status is left alone.
    pub open spec fn backfill_day(self, id: u128, day: int) -> DataModel {
        if in_range(day) && self.status(id, day) == HabitStatus::Unmarked {
            self.set_status(id, day, HabitStatus::Skipped)
        } else {
            self
        }
    }

    /// The weekly back-fill of the `n` days before `done_day`, earliest
    /// first.
    pub open spec fn backfill(self, id: u128, done_day: int, n: nat) -> DataModel
        decreases n,
    {
        if n == 0 {
            self
        } else {
            self.backfill_day(id, done_day - n).backfill(id, done_day, (n - 1) as nat)
        }
    }

    /// Whether one of the `n` days before `done_day` is a representable
    /// date on which the habit `id` is unmarked: whether a back-fill of
    /// those days writes anything.
    pub open spec fn backfill_pending(self, id: u128, done_day: int, n: nat) -> bool {
        exists|d: int|
            done_day - n <= d < done_day && in_range(d) && #[trigger] self.status(id, d)
                == HabitStatus::Unmarked
    }

    /// Whether the weekly propagation for `done_day` writes anything.
    pub open spec fn propagation_pending(self, id: u128, done_day: int) -> bool {
        self.backfill_pending(id, done_day, days_since_monday(done_day))
    }

    /// The weekly propagation for a habit that was marked done on
    /// `done_day`: the earlier days of the Monday-anchored week of
    /// `done_day` are back-filled. Later days are not touched.
    pub open spec fn propagate(self, id: u128, done_day: int) -> DataModel {
        self.backfill(id, done_day, days_since_monday(done_day))
    }

    /// The number of days from `from` to `to`, both included, on which the
    /// committed status of the habit `id` is `status`.
    pub open spec fn days_with_status(
        self,
        id: u128,
        from: int,
        to: int,
        status: HabitStatus,
    ) -> nat
        decreases to - from + 1,
    {
        if to < from {
            0
        } else {
            let rest = self.days_with_status(id, from, to - 1, status);
            if self.status(id, to) == status {
                rest + 1
            } else {
                rest
            }
        }
    }

    /// Whether the registry holds a habit with the given identifier.
    pub open spec fn has_habit(self, id: u128) -> bool {
        exists|i: int| 0 <= i < self.habits.len() && (#[trigger] self.habits[i]).id == id
    }

    /// The document with a blank log entry appended for the habit `id` on
    /// `day`, where it has none yet.
    pub open spec fn ensure_log(self, id: u128, day: int) -> DataModel {
        match log_position(self.logs, id, day) {
            Some(_) => self,
            None => DataModel { logs: self.logs.push(LogModel::blank(id, day)), ..self },
        }
    }

    /// The position of the log entry for the habit `id` on `day` once
    /// [`DataModel::ensure_log`] has made sure that there is one.
    pub open spec fn ensured_position(self, id: u128, day: int) -> int {
        match log_position(self.logs, id, day) {
            Some(i) => i,
            None => self.logs.len() as int,
        }
    }

    /// The document with the status of the habit `id` on `day` set; the log
    /// entry is created where there is none.
    pub open spec fn set_status(self, id: u128, day: int, status: HabitStatus) -> DataModel {
        let with_entry = self.ensure_log(id, day);
        let i = self.ensured_position(id, day);
        DataModel {
            logs: with_entry.logs.update(i, LogModel { status, ..with_entry.logs[i] }),
            ..self
        }
    }

    /// The document with the note of the habit `id` on `day` set or
    /// removed; the log entry is created where there is none.
    pub open spec fn set_note(self, id: u128, day: int, note: Option<Seq<char>>) -> DataModel {
        let with_entry = self.ensure_log(id, day);
        let i = self.ensured_position(id, day);
        DataModel {
            logs: with_entry.logs.update(i, LogModel { note, ..with_entry.logs[i] }),
            ..self
        }
    }
}

/// The identifiers of a list of habits.
pub open spec fn model_ids(habits: Seq<HabitModel>) -> Seq<u128> {
    Seq::new(habits.len(), |i: int| habits[i].id)
}

/// Whether a document is the one that a new user starts with: the four
/// default habits, whatever their identifiers, and no log entries.
pub open spec fn is_seed(data: DataModel) -> bool {
    &&& data.habits == default_habit_models(model_ids(data.habits))
    &&& data.logs.len() == 0
}

/// A proof that the first position of a habit is what a search from the
/// front finds.
pub proof fn lemma_habit_position(habits: Seq<HabitModel>, id: u128, i: int)
    requires
        is_first_habit(habits, id, i),
    ensures
        habit_position(habits, id) == Some(i),
{
    let j = choose|j: int| is_first_habit(habits, id, j);
    assert(is_first_habit(habits, id, j));
    if j < i {
        assert(habits[j].id != id);
    }
    if i < j {
        assert(habits[i].id != id);
    }
}

/// A proof that a registry without the identifier has no position for it.
pub proof fn lemma_habit_absent(habits: Seq<HabitModel>, id: u128)
    requires
        forall|j: int| 0 <= j < habits.len() ==> (#[trigger] habits[j]).id != id,
    ensures
        habit_position(habits, id) is None,
{
}

/// A habit with a given identifier has a first one before or at it.
pub proof fn lemma_first_habit_exists(habits: Seq<HabitModel>, id: u128, j: int) -> (i: int)
    requires
        0 <= j < habits.len(),
        habits[j].id == id,
    ensures
        is_first_habit(habits, id, i),
        i <= j,
    decreases j,
{
    if forall|k: int| 0 <= k < j ==> (#[trigger] habits[k]).id != id {
        j
    } else {
        let k = choose|k: int| 0 <= k < j && (#[trigger] habits[k]).id == id;
        lemma_first_habit_exists(habits, id, k)
    }
}

/// The registry has a position for an identifier exactly when it holds a
/// habit with it.
pub proof fn lemma_habit_found(data: DataModel, id: u128)
    ensures
        data.habit(id) is Some <==> data.has_habit(id),
        data.habit(id) matches Some(h) ==> h.id == id,
{
    if data.has_habit(id) {
        let j = choose|j: int| 0 <= j < data.habits.len() && (#[trigger] data.habits[j]).id == id;
        let i = lemma_first_habit_exists(data.habits, id, j);
        lemma_habit_position(data.habits, id, i);
    }
    if data.habit(id) is Some {
        let i = choose|i: int| is_first_habit(data.habits, id, i);
        assert(is_first_habit(data.habits, id, i));
    }
}

/// A proof that the first position of a log entry is what a search from the
/// front finds.
pub proof fn lemma_log_position(logs: Seq<LogModel>, id: u128, day: int, i: int)
    requires
        is_first_log(logs, id, day, i),
    ensures
        log_position(logs, id, day) == Some(i),
{
    let j = choose|j: int| is_first_log(logs, id, day, j);
    assert(is_first_log(logs, id, day, j));
    if j < i {
        assert(!logs[j].is_for(id, day));
    }
    if i < j {
        assert(!logs[i].is_for(id, day));
    }
}

/// A proof that a log without an entry for the habit and day has no
/// position for them.
pub proof fn lemma_log_absent(logs: Seq<LogModel>, id: u128, day: int)
    requires
        forall|j: int| 0 <= j < logs.len() ==> !(#[trigger] logs[j]).is_for(id, day),
    ensures
        log_position(logs, id, day) is None,
{
}

/// An entry for a habit and day has a first one before or at it.
pub proof fn lemma_first_log_exists(logs: Seq<LogModel>, id: u128, day: int, j: int) -> (i: int)
    requires
        0 <= j < logs.len(),
        logs[j].is_for(id, day),
    ensures
        is_first_log(logs, id, day, i),
        i <= j,
    decreases j,
{
    if forall|k: int| 0 <= k < j ==> !(#[trigger] logs[k]).is_for(id, day) {
        j
    } else {
        let k = choose|k: int| 0 <= k < j && (#[trigger] logs[k]).is_for(id, day);
        lemma_first_log_exists(logs, id, day, k)
    }
}

} // verus!
