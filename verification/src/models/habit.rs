//! Habits: what is tracked, how often it is meant to be done, and where it
//! stands in the display order.

use crate::text::option_text;
use vstd::prelude::*;

verus! {

/// Frequency at which a habit should be tracked.
#[derive(Debug, Clone, Copy, PartialEq, Eq, Structural)]
pub enum Frequency {
    /// Should be done every day.
    Daily,
    /// Should be done once per week.
    Weekly,
    /// Optional habit, no specific frequency.
    AsNeeded,
}

impl Default for Frequency {
    fn default() -> (r: Self)
        ensures
            r == Frequency::Daily,
    {
        Frequency::Daily
    }
}

impl Frequency {
    /// The human-readable name of a frequency.
    pub open spec fn label(self) -> Seq<char> {
        match self {
            Frequency::Daily => "Daily"@,
            Frequency::Weekly => "Weekly"@,
            Frequency::AsNeeded => "As needed"@,
        }
    }

    /// The frequency that follows in the cycle
    /// `Daily -> Weekly -> AsNeeded -> Daily`.
    pub open spec fn next(self) -> Frequency {
        match self {
            Frequency::Daily => Frequency::Weekly,
            Frequency::Weekly => Frequency::AsNeeded,
            Frequency::AsNeeded => Frequency::Daily,
        }
    }

    /// Get a human-readable description.
    pub fn description(&self) -> (r: &'static str)
        ensures
            r@ == self.label(),
    {
        match self {
            Frequency::Daily => "Daily",
            Frequency::Weekly => "Weekly",
            Frequency::AsNeeded => "As needed",
        }
    }

    /// Step to the next frequency in the cycle.
    pub fn cycle(&self) -> (r: Self)
        ensures
            r == self.next(),
    {
        match self {
            Frequency::Daily => Frequency::Weekly,
            Frequency::Weekly => Frequency::AsNeeded,
            Frequency::AsNeeded => Frequency::Daily,
        }
    }
}

/// What a habit is, as a mathematical value.
pub struct HabitModel {
    /// The identifier's 128 bits.
    pub id: u128,
    /// Display name.
    pub name: Seq<char>,
    /// Optional description.
    pub description: Option<Seq<char>>,
    /// Display order (lower numbers appear first).
    pub order: nat,
    /// How often the habit should be done.
    pub frequency: Frequency,
}

/// Represents a habit that can be tracked. The identifier is a UUID, held
/// as its 128-bit value.
#[derive(Debug, Clone, PartialEq, Eq)]
pub struct Habit {
    /// Unique identifier for the habit.
    pub id: u128,
    /// Display name of the habit.
    pub name: String,
    /// Optional description.
    pub description: Option<String>,
    /// Display order (lower numbers appear first).
    pub order: usize,
    /// How often this habit should be done.
    pub frequency: Frequency,
}

impl View for Habit {
    type V = HabitModel;

    open spec fn view(&self) -> HabitModel {
        HabitModel {
            id: self.id,
            name: self.name@,
            description: option_text(self.description),
            order: self.order as nat,
            frequency: self.frequency,
        }
    }
}

/// The bits that every version 4 (random) UUID has in common: version 4 in
/// bits 76..80 and the RFC variant `10` in bits 62..64.
pub open spec fn is_random_uuid(id: u128) -> bool {
    id & 0x0000_0000_0000_f000_c000_0000_0000_0000 == 0x0000_0000_0000_4000_8000_0000_0000_0000
}

/// Draws a fresh identifier with `Uuid::new_v4` and returns its bits
/// (`Uuid::as_u128`).
/// Trusted: only the version and variant bits that `new_v4` sets on every
/// value; the other 122 bits are random.
#[verifier::external_body]
fn fresh_id() -> (r: u128)
    ensures
        is_random_uuid(r),
{
    uuid::Uuid::new_v4().as_u128()
}

impl HabitModel {
    /// A habit as it is first created: no description, order 0, daily.
    pub open spec fn fresh(id: u128, name: Seq<char>) -> HabitModel {
        HabitModel { id, name, description: None, order: 0, frequency: Frequency::Daily }
    }
}

impl Habit {
    /// Create a new habit with a generated UUID.
    pub fn new(name: &str) -> (r: Self)
        ensures
            r@ == HabitModel::fresh(r.id, name@),
            is_random_uuid(r.id),
    {
        Habit::with_id(fresh_id(), name)
    }

    /// Create a new habit with a specific ID.
    pub fn with_id(id: u128, name: &str) -> (r: Self)
        ensures
            r@ == HabitModel::fresh(id, name@),
    {
        Habit {
            id,
            name: name.to_owned(),
            description: None,
            order: 0,
            frequency: Frequency::Daily,
        }
    }

    /// Create a new habit with a description.
    pub fn with_description(name: &str, description: &str) -> (r: Self)
        ensures
            r@ == (HabitModel {
                description: Some(description@),
                ..HabitModel::fresh(r.id, name@)
            }),
            is_random_uuid(r.id),
    {
        Habit {
            id: fresh_id(),
            name: name.to_owned(),
            description: Some(description.to_owned()),
            order: 0,
            frequency: Frequency::Daily,
        }
    }

    /// Set the description for this habit.
    pub fn set_description(&mut self, description: Option<String>)
        ensures
            final(self)@ == (HabitModel {
                description: option_text(description),
                ..old(self)@
            }),
    {
        self.description = description;
    }

    /// Set the display order.
    pub fn set_order(&mut self, order: usize)
        ensures
            final(self)@ == (HabitModel { order: order as nat, ..old(self)@ }),
    {
        self.order = order;
    }

    /// Set the frequency.
    pub fn set_frequency(&mut self, frequency: Frequency)
        ensures
            final(self)@ == (HabitModel { frequency, ..old(self)@ }),
    {
        self.frequency = frequency;
    }
}

/// The names, descriptions, orders and frequencies of the habits that a new
/// user starts with, in display order; `ids` gives their identifiers.
pub open spec fn default_habit_models(ids: Seq<u128>) -> Seq<HabitModel> {
    seq![
        HabitModel {
            id: ids[0],
            name: "Shower"@,
            description: None,
            order: 0,
            frequency: Frequency::Daily,
        },
        HabitModel {
            id: ids[1],
            name: "Brush teeth"@,
            description: None,
            order: 1,
            frequency: Frequency::Daily,
        },
        HabitModel {
            id: ids[2],
            name: "Trim nails"@,
            description: Some("Weekly habit"@),
            order: 2,
            frequency: Frequency::Weekly,
        },
        HabitModel {
            id: ids[3],
            name: "Meds"@,
            description: None,
            order: 3,
            frequency: Frequency::Daily,
        },
    ]
}

/// The views of a list of habits.
pub open spec fn habit_models(habits: Seq<Habit>) -> Seq<HabitModel> {
    Seq::new(habits.len(), |i: int| habits[i]@)
}

/// The identifiers of a list of habits.
pub open spec fn habit_ids(habits: Seq<Habit>) -> Seq<u128> {
    Seq::new(habits.len(), |i: int| habits[i].id)
}

/// Default habits for new users: four habits with fresh identifiers.
pub fn default_habits() -> (r: Vec<Habit>)
    ensures
        habit_models(r@) == default_habit_models(habit_ids(r@)),
        r@.len() == 4,
{
    let mut shower = Habit::new("Shower");
    shower.set_order(0);
    shower.set_frequency(Frequency::Daily);
    let mut teeth = Habit::new("Brush teeth");
    teeth.set_order(1);
    teeth.set_frequency(Frequency::Daily);
    let mut nails = Habit::new("Trim nails");
    nails.set_description(Some("Weekly habit".to_owned()));
    nails.set_order(2);
    nails.set_frequency(Frequency::Weekly);
    let mut meds = Habit::new("Meds");
    meds.set_order(3);
    meds.set_frequency(Frequency::Daily);
    let r = vec![shower, teeth, nails, meds];
    assert(habit_models(r@) =~= default_habit_models(habit_ids(r@)));
    r
}

} // verus!
