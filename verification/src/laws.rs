//! What holds of the document whatever it holds: the orders of the
//! registry stay contiguous, deleting a habit takes its log entries with
//! it, a write to the log is read back and disturbs nothing else, and the
//! weekly propagation fills only what was unmarked, only before the day that
//! was done, and only once.

use crate::document::{
    ascending, habit_position, insert_by_order, is_first_habit, is_first_log, is_seed,
    lemma_first_log_exists, lemma_habit_found, lemma_log_absent, lemma_log_position,
    log_of_other_habit, log_position, naturals_below, order_values, other_habit, positional,
    sorted_by_order, unique_log_keys, DataModel,
};
use crate::models::date::in_range;
use crate::models::habit::HabitModel;
use crate::models::log::{HabitStatus, LogModel};
use crate::models::week::{days_since_monday, monday_of};
use vstd::prelude::*;

verus! {

/// The orders of a positional registry are exactly 0, 1, ..., count-1,
/// and no two habits share one.
pub proof fn lemma_positional_orders(habits: Seq<HabitModel>)
    requires
        positional(habits),
    ensures
        order_values(habits) == naturals_below(habits.len()),
        forall|i: int, j: int|
            0 <= i < j < habits.len() ==> (#[trigger] habits[i]).order != (
            #[trigger] habits[j]).order,
{
    assert forall|k: nat| order_values(habits).contains(k) <==> naturals_below(
        habits.len(),
    ).contains(k) by {
        if k < habits.len() {
            assert(habits[k as int].order == k);
        }
    }
    assert(order_values(habits) =~= naturals_below(habits.len()));
}

/// Order-contiguity is an invariant of the registry: the seed document has
/// it, adding a habit keeps it, and deleting and reordering establish it
/// whatever the orders were before.
pub proof fn lemma_registry_orders(
    data: DataModel,
    id: u128,
    name: Seq<char>,
    new_order: nat,
)
    ensures
        is_seed(data) ==> positional(data.habits),
        positional(data.habits) ==> positional(data.add_habit(id, name).habits),
        positional(data.delete_habit(id).habits),
        data.habit(id) is Some ==> positional(data.reorder_habit(id, new_order).habits),
        positional(data.habits) ==> positional(data.reorder_habit(id, new_order).habits),
        positional(data.habits) ==> positional(data.rename_habit(id, name).habits),
{
    if positional(data.habits) {
        let added = data.add_habit(id, name).habits;
        assert forall|i: int| 0 <= i < added.len() implies (#[trigger] added[i]).order == i by {
            if i < data.habits.len() {
                assert(added[i] == data.habits[i]);
            }
        }
        match habit_position(data.habits, id) {
            Some(p) => {
                assert(is_first_habit(data.habits, id, p));
            },
            None => {},
        }
    }
}

/// Inserting by order adds the habit and nothing else, and keeps an
/// ascending list ascending.
pub proof fn lemma_insert_by_order(sorted: Seq<HabitModel>, habit: HabitModel)
    ensures
        insert_by_order(sorted, habit).len() == sorted.len() + 1,
        insert_by_order(sorted, habit).to_multiset() == sorted.to_multiset().insert(habit),
        ascending(sorted) ==> ascending(insert_by_order(sorted, habit)),
        forall|i: int|
            0 <= i < sorted.len() + 1 ==> (#[trigger] insert_by_order(sorted, habit)[i]) == habit
                || sorted.contains(insert_by_order(sorted, habit)[i]),
    decreases sorted.len(),
{
    broadcast use vstd::seq_lib::group_to_multiset_ensures;

    let result = insert_by_order(sorted, habit);
    if sorted.len() > 0 && sorted.last().order > habit.order {
        let front = sorted.drop_last();
        let inner = insert_by_order(front, habit);
        lemma_insert_by_order(front, habit);
        assert(sorted =~= front.push(sorted.last()));
        assert(result == inner.push(sorted.last()));
        assert(result.to_multiset() =~= sorted.to_multiset().insert(habit));
        assert forall|i: int| 0 <= i < sorted.len() + 1 implies (#[trigger] result[i]) == habit
            || sorted.contains(result[i]) by {
            if i < inner.len() {
                assert(result[i] == inner[i]);
                if inner[i] != habit {
                    assert(front.contains(inner[i]));
                    let k = choose|k: int| 0 <= k < front.len() && front[k] == inner[i];
                    assert(sorted[k] == inner[i]);
                }
            } else {
                assert(result[i] == sorted[sorted.len() - 1]);
            }
        }
        if ascending(sorted) {
            assert(ascending(front)) by {
                assert forall|i: int, j: int| 0 <= i < j < front.len() implies (
                #[trigger] front[i]).order <= (#[trigger] front[j]).order by {
                    assert(front[i] == sorted[i] && front[j] == sorted[j]);
                }
            }
            assert forall|i: int, j: int| 0 <= i < j < result.len() implies (
            #[trigger] result[i]).order <= (#[trigger] result[j]).order by {
                if j < inner.len() {
                    assert(result[i] == inner[i] && result[j] == inner[j]);
                } else {
                    assert(result[j] == sorted.last());
                    assert(result[i] == inner[i]);
                    if inner[i] != habit {
                        assert(front.contains(inner[i]));
                        let k = choose|k: int| 0 <= k < front.len() && front[k] == inner[i];
                        assert(sorted[k].order <= sorted[sorted.len() - 1].order);
                    }
                }
            }
        }
    } else {
        assert(result == sorted.push(habit));
        assert forall|i: int| 0 <= i < sorted.len() + 1 implies (#[trigger] result[i]) == habit
            || sorted.contains(result[i]) by {
            if i < sorted.len() {
                assert(result[i] == sorted[i]);
            }
        }
        if ascending(sorted) {
            assert forall|i: int, j: int| 0 <= i < j < result.len() implies (
            #[trigger] result[i]).order <= (#[trigger] result[j]).order by {
                if j < sorted.len() {
                    assert(result[i] == sorted[i] && result[j] == sorted[j]);
                } else {
                    assert(result[i] == sorted[i]);
                    if sorted.len() > 0 {
                        assert(sorted[i].order <= sorted[sorted.len() - 1].order);
                    }
                }
            }
        }
    }
}

/// The display order holds every habit of the registry exactly as often as
/// the registry does, and is ascending in `order`.
pub proof fn lemma_sorted_by_order(habits: Seq<HabitModel>)
    ensures
        sorted_by_order(habits).len() == habits.len(),
        sorted_by_order(habits).to_multiset() == habits.to_multiset(),
        ascending(sorted_by_order(habits)),
    decreases habits.len(),
{
    broadcast use vstd::seq_lib::group_to_multiset_ensures;

    if habits.len() > 0 {
        let front = habits.drop_last();
        lemma_sorted_by_order(front);
        lemma_insert_by_order(sorted_by_order(front), habits.last());
        assert(habits =~= front.push(habits.last()));
    }
}

/// A registry that is already ascending in `order` is its own display
/// order: sorting moves nothing, also among habits of equal order.
pub proof fn lemma_sorted_ascending(habits: Seq<HabitModel>)
    requires
        ascending(habits),
    ensures
        sorted_by_order(habits) == habits,
    decreases habits.len(),
{
    if habits.len() > 0 {
        let front = habits.drop_last();
        assert(ascending(front)) by {
            assert forall|i: int, j: int| 0 <= i < j < front.len() implies (
            #[trigger] front[i]).order <= (#[trigger] front[j]).order by {
                assert(front[i] == habits[i] && front[j] == habits[j]);
            }
        }
        lemma_sorted_ascending(front);
        if front.len() > 0 {
            assert(front.last() == habits[front.len() - 1]);
            assert(habits[front.len() - 1].order <= habits[habits.len() - 1].order);
        }
        assert(habits =~= front.push(habits.last()));
    }
}

/// A registry whose orders are positional is its own display order.
pub proof fn lemma_sorted_positional(habits: Seq<HabitModel>)
    requires
        positional(habits),
    ensures
        sorted_by_order(habits) == habits,
{
    lemma_sorted_ascending(habits);
}

/// Every habit of the display order is a habit of the registry, found
/// under its identifier.
pub proof fn lemma_sorted_member(data: DataModel, k: int)
    requires
        0 <= k < sorted_by_order(data.habits).len(),
    ensures
        data.has_habit(sorted_by_order(data.habits)[k].id),
        data.habit(sorted_by_order(data.habits)[k].id) is Some,
{
    broadcast use vstd::seq_lib::group_to_multiset_ensures;

    let sorted = sorted_by_order(data.habits);
    lemma_sorted_by_order(data.habits);
    assert(sorted.contains(sorted[k]));
    assert(sorted.to_multiset().count(sorted[k]) > 0);
    assert(data.habits.contains(sorted[k]));
    let j = choose|j: int| 0 <= j < data.habits.len() && data.habits[j] == sorted[k];
    assert(data.habits[j].id == sorted[k].id);
    lemma_habit_found(data, sorted[k].id);
}

/// Deleting a habit cascades: no habit and no log entry with its
/// identifier is left, and what belongs to other habits stays.
pub proof fn lemma_delete_cascades(data: DataModel, id: u128)
    ensures
        !data.delete_habit(id).has_habit(id),
        data.delete_habit(id).habit(id) is None,
        forall|i: int|
            0 <= i < data.delete_habit(id).logs.len() ==> (#[trigger] data.delete_habit(
                id,
            ).logs[i]).habit_id != id,
        forall|i: int|
            0 <= i < data.logs.len() && data.logs[i].habit_id != id ==> data.delete_habit(
                id,
            ).logs.contains(#[trigger] data.logs[i]),
        forall|day: int| data.delete_habit(id).status(id, day) == HabitStatus::Unmarked,
{
    broadcast use vstd::seq_lib::group_filter_ensures;

    let after = data.delete_habit(id);
    let kept = data.habits.filter(other_habit(id));
    assert forall|i: int| 0 <= i < after.habits.len() implies (#[trigger] after.habits[i]).id
        != id by {
        assert(other_habit(id)(kept[i]));
    }
    lemma_habit_found(after, id);
    assert forall|i: int| 0 <= i < after.logs.len() implies (#[trigger] after.logs[i]).habit_id
        != id by {
        assert(log_of_other_habit(id)(after.logs[i]));
    }
    assert forall|i: int|
        0 <= i < data.logs.len() && data.logs[i].habit_id != id implies after.logs.contains(
        #[trigger] data.logs[i],
    ) by {
        assert(log_of_other_habit(id)(data.logs[i]));
    }
    assert forall|day: int| after.status(id, day) == HabitStatus::Unmarked by {
        if log_position(after.logs, id, day) is Some {
            let i = log_position(after.logs, id, day).unwrap();
            assert(is_first_log(after.logs, id, day, i));
            assert(after.logs[i].habit_id != id);
        }
    }
}

/// Two logs whose entries have the same keys, position by position, find
/// every habit and day at the same position.
proof fn lemma_same_keys_same_positions(a: Seq<LogModel>, b: Seq<LogModel>, id: u128, day: int)
    requires
        a.len() == b.len(),
        forall|j: int|
            0 <= j < a.len() ==> (#[trigger] a[j]).habit_id == b[j].habit_id && a[j].day
                == b[j].day,
    ensures
        log_position(a, id, day) == log_position(b, id, day),
{
    assert forall|i: int| is_first_log(a, id, day, i) <==> is_first_log(b, id, day, i) by {
        if is_first_log(a, id, day, i) {
            assert(b[i].is_for(id, day));
            assert forall|j: int| 0 <= j < i implies !(#[trigger] b[j]).is_for(id, day) by {
                assert(!a[j].is_for(id, day));
            }
        }
        if is_first_log(b, id, day, i) {
            assert(a[i].is_for(id, day));
            assert forall|j: int| 0 <= j < i implies !(#[trigger] a[j]).is_for(id, day) by {
                assert(!a[j].is_for(id, day));
            }
        }
    }
    match log_position(a, id, day) {
        Some(i) => {
            assert(is_first_log(a, id, day, i));
            lemma_log_position(b, id, day, i);
        },
        None => {
            if log_position(b, id, day) is Some {
                let i = log_position(b, id, day).unwrap();
                assert(is_first_log(b, id, day, i));
                assert(is_first_log(a, id, day, i));
            }
        },
    }
}

/// What a log finds once an entry has been appended.
proof fn lemma_pushed_log_positions(logs: Seq<LogModel>, entry: LogModel, id: u128, day: int)
    ensures
        log_position(logs.push(entry), id, day) == match log_position(logs, id, day) {
            Some(i) => Some(i),
            None => if entry.is_for(id, day) {
                Some(logs.len() as int)
            } else {
                None
            },
        },
{
    let pushed = logs.push(entry);
    match log_position(logs, id, day) {
        Some(i) => {
            assert(is_first_log(logs, id, day, i));
            assert(pushed[i] == logs[i]);
            assert forall|j: int| 0 <= j < i implies !(#[trigger] pushed[j]).is_for(id, day) by {
                assert(pushed[j] == logs[j]);
            }
            lemma_log_position(pushed, id, day, i);
        },
        None => {
            assert forall|j: int| 0 <= j < logs.len() implies !(#[trigger] pushed[j]).is_for(
                id,
                day,
            ) by {
                assert(pushed[j] == logs[j]);
                if logs[j].is_for(id, day) {
                    lemma_first_log_exists(logs, id, day, j);
                }
            }
            if entry.is_for(id, day) {
                lemma_log_position(pushed, id, day, logs.len() as int);
            } else {
                lemma_log_absent(pushed, id, day);
            }
        },
    }
}

/// What the log store holds after an entry was made sure of: the entry for
/// the habit and day is at the ensured position, blank if it is new, and
/// every other entry is found where it was.
pub proof fn lemma_ensure_log_reads(data: DataModel, id: u128, day: int, id2: u128, day2: int)
    ensures
        log_position(data.ensure_log(id, day).logs, id, day) == Some(
            data.ensured_position(id, day),
        ),
        0 <= data.ensured_position(id, day) < data.ensure_log(id, day).logs.len(),
        data.ensure_log(id, day).log(id, day) == Some(
            match data.log(id, day) {
                Some(entry) => entry,
                None => LogModel::blank(id, day),
            },
        ),
        !(id2 == id && day2 == day) ==> log_position(data.ensure_log(id, day).logs, id2, day2)
            == log_position(data.logs, id2, day2),
        !(id2 == id && day2 == day) ==> data.ensure_log(id, day).log(id2, day2) == data.log(
            id2,
            day2,
        ),
{
    let blank = LogModel::blank(id, day);
    lemma_pushed_log_positions(data.logs, blank, id, day);
    lemma_pushed_log_positions(data.logs, blank, id2, day2);
    match log_position(data.logs, id, day) {
        Some(i) => {
            assert(is_first_log(data.logs, id, day, i));
        },
        None => {},
    }
    match log_position(data.logs, id2, day2) {
        Some(i) => {
            assert(is_first_log(data.logs, id2, day2, i));
        },
        None => {},
    }
}

/// Reading after a status write: the habit and day that were written have
/// the new status, every other habit and day reads as before, and no note
/// changes.
pub proof fn lemma_set_status_reads(
    data: DataModel,
    id: u128,
    day: int,
    status: HabitStatus,
    id2: u128,
    day2: int,
)
    ensures
        data.set_status(id, day, status).status(id2, day2) == if id2 == id && day2 == day {
            status
        } else {
            data.status(id2, day2)
        },
        data.set_status(id, day, status).note(id2, day2) == data.note(id2, day2),
        data.set_status(id, day, status).habits == data.habits,
{
    let with_entry = data.ensure_log(id, day);
    let i = data.ensured_position(id, day);
    let after = data.set_status(id, day, status);
    lemma_ensure_log_reads(data, id, day, id2, day2);
    assert(is_first_log(with_entry.logs, id, day, i));
    lemma_same_keys_same_positions(with_entry.logs, after.logs, id2, day2);
    match log_position(with_entry.logs, id2, day2) {
        Some(j) => {
            assert(is_first_log(with_entry.logs, id2, day2, j));
        },
        None => {},
    }
}

/// Reading after a note write: the habit and day that were written have the
/// new note, every other habit and day reads as before, and no status
/// changes.
pub proof fn lemma_set_note_reads(
    data: DataModel,
    id: u128,
    day: int,
    note: Option<Seq<char>>,
    id2: u128,
    day2: int,
)
    ensures
        data.set_note(id, day, note).note(id2, day2) == if id2 == id && day2 == day {
            note
        } else {
            data.note(id2, day2)
        },
        data.set_note(id, day, note).status(id2, day2) == data.status(id2, day2),
        data.set_note(id, day, note).habits == data.habits,
{
    let with_entry = data.ensure_log(id, day);
    let i = data.ensured_position(id, day);
    let after = data.set_note(id, day, note);
    lemma_ensure_log_reads(data, id, day, id2, day2);
    assert(is_first_log(with_entry.logs, id, day, i));
    lemma_same_keys_same_positions(with_entry.logs, after.logs, id2, day2);
    match log_position(with_entry.logs, id2, day2) {
        Some(j) => {
            assert(is_first_log(with_entry.logs, id2, day2, j));
        },
        None => {},
    }
}

/// Writing the status that a habit and day already have, to an entry that
/// exists, changes nothing.
pub proof fn lemma_set_same_status(data: DataModel, id: u128, day: int)
    requires
        data.log(id, day) is Some,
    ensures
        data.set_status(id, day, data.status(id, day)) == data,
{
    let i = log_position(data.logs, id, day).unwrap();
    assert(is_first_log(data.logs, id, day, i));
    assert(data.set_status(id, day, data.status(id, day)).logs =~= data.logs);
}

/// The log store keeps at most one entry per habit and day: writing a
/// status or a note to a log with unique keys leaves the keys unique.
pub proof fn lemma_writes_keep_keys_unique(
    data: DataModel,
    id: u128,
    day: int,
    status: HabitStatus,
    note: Option<Seq<char>>,
)
    requires
        unique_log_keys(data.logs),
    ensures
        unique_log_keys(data.ensure_log(id, day).logs),
        unique_log_keys(data.set_status(id, day, status).logs),
        unique_log_keys(data.set_note(id, day, note).logs),
{
    let with_entry = data.ensure_log(id, day).logs;
    assert(unique_log_keys(with_entry)) by {
        assert forall|i: int, j: int| 0 <= i < j < with_entry.len() implies !(
        #[trigger] with_entry[i]).is_for(
            (#[trigger] with_entry[j]).habit_id,
            with_entry[j].day,
        ) by {
            if j < data.logs.len() {
                assert(with_entry[i] == data.logs[i] && with_entry[j] == data.logs[j]);
            } else {
                assert(with_entry[i] == data.logs[i]);
                if data.logs[i].is_for(id, day) {
                    lemma_first_log_exists(data.logs, id, day, i);
                }
            }
        }
    }
    lemma_ensure_log_reads(data, id, day, id, day);
    let p = data.ensured_position(id, day);
    let a = data.set_status(id, day, status).logs;
    assert forall|i: int, j: int| 0 <= i < j < a.len() implies !(#[trigger] a[i]).is_for(
        (#[trigger] a[j]).habit_id,
        a[j].day,
    ) by {
        assert(!with_entry[i].is_for(with_entry[j].habit_id, with_entry[j].day));
    }
    let b = data.set_note(id, day, note).logs;
    assert forall|i: int, j: int| 0 <= i < j < b.len() implies !(#[trigger] b[i]).is_for(
        (#[trigger] b[j]).habit_id,
        b[j].day,
    ) by {
        assert(!with_entry[i].is_for(with_entry[j].habit_id, with_entry[j].day));
    }
}

/// Reading after a back-fill of the `n` days before `done_day`: a day among
/// them that is a representable date and was unmarked for the habit reads
/// `Skipped`; every other day, and every other habit, reads as before. No
/// note and no habit changes.
pub proof fn lemma_backfill_reads(
    data: DataModel,
    id: u128,
    done_day: int,
    n: nat,
    id2: u128,
    day2: int,
)
    ensures
        data.backfill(id, done_day, n).status(id2, day2) == if id2 == id && done_day - n <= day2
            < done_day && in_range(day2) && data.status(id, day2) == HabitStatus::Unmarked {
            HabitStatus::Skipped
        } else {
            data.status(id2, day2)
        },
        data.backfill(id, done_day, n).note(id2, day2) == data.note(id2, day2),
        data.backfill(id, done_day, n).habits == data.habits,
    decreases n,
{
    if n > 0 {
        let first = data.backfill_day(id, done_day - n);
        lemma_set_status_reads(data, id, done_day - n, HabitStatus::Skipped, id2, day2);
        lemma_set_status_reads(data, id, done_day - n, HabitStatus::Skipped, id, day2);
        lemma_backfill_reads(first, id, done_day, (n - 1) as nat, id2, day2);
    }
}

/// Reading after the weekly propagation for `done_day`: an earlier day of
/// the week of `done_day` on which the habit was unmarked reads `Skipped`.
/// A day that had a status keeps it, and `done_day` itself, the days after
/// it, the days of other weeks and all other habits read as before.
pub proof fn lemma_propagate_reads(data: DataModel, id: u128, done_day: int, id2: u128, day2: int)
    ensures
        data.propagate(id, done_day).status(id2, day2) == if id2 == id && monday_of(done_day)
            <= day2 < done_day && in_range(day2) && data.status(id, day2)
            == HabitStatus::Unmarked {
            HabitStatus::Skipped
        } else {
            data.status(id2, day2)
        },
        data.propagate(id, done_day).note(id2, day2) == data.note(id2, day2),
        data.propagate(id, done_day).habits == data.habits,
{
    lemma_backfill_reads(data, id, done_day, days_since_monday(done_day), id2, day2);
}

/// A back-fill over days of which none is both representable and unmarked
/// writes nothing.
pub proof fn lemma_backfill_settled(data: DataModel, id: u128, done_day: int, n: nat)
    requires
        !data.backfill_pending(id, done_day, n),
    ensures
        data.backfill(id, done_day, n) == data,
    decreases n,
{
    if n > 0 {
        let first = done_day - n;
        if in_range(first) {
            assert(data.status(id, first) != HabitStatus::Unmarked);
        }
        assert(!data.backfill_pending(id, done_day, (n - 1) as nat)) by {
            if data.backfill_pending(id, done_day, (n - 1) as nat) {
                let d = choose|d: int|
                    done_day - (n - 1) as nat <= d < done_day && in_range(d)
                        && #[trigger] data.status(id, d) == HabitStatus::Unmarked;
                assert(data.status(id, d) == HabitStatus::Unmarked);
            }
        }
        lemma_backfill_settled(data, id, done_day, (n - 1) as nat);
    }
}

/// The weekly propagation is idempotent: once it has run for a habit and a
/// day, running it again writes nothing.
pub proof fn lemma_propagate_idempotent(data: DataModel, id: u128, done_day: int)
    ensures
        !data.propagate(id, done_day).propagation_pending(id, done_day),
        data.propagate(id, done_day).propagate(id, done_day) == data.propagate(id, done_day),
{
    let once = data.propagate(id, done_day);
    let n = days_since_monday(done_day);
    assert(!once.backfill_pending(id, done_day, n)) by {
        if once.backfill_pending(id, done_day, n) {
            let d = choose|d: int|
                done_day - n <= d < done_day && in_range(d) && #[trigger] once.status(id, d)
                    == HabitStatus::Unmarked;
            lemma_propagate_reads(data, id, done_day, id, d);
        }
    }
    lemma_backfill_settled(once, id, done_day, n);
}

/// Filtering a log with unique keys leaves the keys unique.
proof fn lemma_filter_keeps_keys_unique(logs: Seq<LogModel>, pred: spec_fn(LogModel) -> bool)
    requires
        unique_log_keys(logs),
    ensures
        unique_log_keys(logs.filter(pred)),
    decreases logs.len(),
{
    reveal(Seq::filter);
    if logs.len() > 0 {
        let front = logs.drop_last();
        let last = logs.last();
        assert(unique_log_keys(front)) by {
            assert forall|i: int, j: int| 0 <= i < j < front.len() implies !(
            #[trigger] front[i]).is_for((#[trigger] front[j]).habit_id, front[j].day) by {
                assert(front[i] == logs[i] && front[j] == logs[j]);
            }
        }
        lemma_filter_keeps_keys_unique(front, pred);
        let kept = front.filter(pred);
        if pred(last) {
            let all = kept.push(last);
            assert forall|i: int, j: int| 0 <= i < j < all.len() implies !(
            #[trigger] all[i]).is_for((#[trigger] all[j]).habit_id, all[j].day) by {
                if j < kept.len() {
                    assert(all[i] == kept[i] && all[j] == kept[j]);
                } else {
                    assert(all[i] == kept[i]);
                    assert(kept.contains(kept[i]));
                    front.lemma_filter_contains_rev(pred, kept[i]);
                    let k = choose|k: int| 0 <= k < front.len() && front[k] == kept[i];
                    assert(logs[k] == kept[i]);
                    let n = logs.len() - 1;
                    assert(!logs[k].is_for(logs[n].habit_id, logs[n].day));
                }
            }
        }
    }
}

/// A back-fill leaves the keys of a log unique.
proof fn lemma_backfill_keeps_keys_unique(data: DataModel, id: u128, done_day: int, n: nat)
    requires
        unique_log_keys(data.logs),
    ensures
        unique_log_keys(data.backfill(id, done_day, n).logs),
    decreases n,
{
    if n > 0 {
        lemma_writes_keep_keys_unique(data, id, done_day - n, HabitStatus::Skipped, None);
        lemma_backfill_keeps_keys_unique(
            data.backfill_day(id, done_day - n),
            id,
            done_day,
            (n - 1) as nat,
        );
    }
}

/// At most one log entry per habit and day is an invariant of the store:
/// the seed document has it, and deleting a habit and the weekly
/// propagation keep it, as the writes of a status or a note do.
pub proof fn lemma_log_keys_stay_unique(data: DataModel, id: u128, done_day: int)
    ensures
        is_seed(data) ==> unique_log_keys(data.logs),
        unique_log_keys(data.logs) ==> unique_log_keys(data.delete_habit(id).logs),
        unique_log_keys(data.logs) ==> unique_log_keys(data.propagate(id, done_day).logs),
{
    if unique_log_keys(data.logs) {
        lemma_filter_keeps_keys_unique(data.logs, log_of_other_habit(id));
        lemma_backfill_keeps_keys_unique(data, id, done_day, days_since_monday(done_day));
    }
}

} // verus!