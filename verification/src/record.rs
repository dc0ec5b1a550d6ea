//! Armour pieces: their class, their slot, and how both are read from text.

use vstd::prelude::*;
use crate::error::AdvisorError;
use crate::stats::Stats;

verus! {

/// The character class an armour piece is restricted to.
#[derive(Debug, Clone, Copy, PartialEq, Eq, Structural)]
pub enum Class {
    Warlock,
    Titan,
    Hunter,
}

/// The equipment slot an armour piece occupies.
#[derive(Debug, Clone, Copy, PartialEq, Eq, Structural)]
pub enum Kind {
    Helmet,
    Arms,
    Chest,
    Legs,
    Bond,
}

impl Class {
    /// The class that a name stands for, if it names one.
    pub open spec fn named(s: Seq<char>) -> Option<Class> {
        if s == "Warlock"@ {
            Some(Class::Warlock)
        } else if s == "Titan"@ {
            Some(Class::Titan)
        } else if s == "Hunter"@ {
            Some(Class::Hunter)
        } else {
            None
        }
    }

    /// Reads a class from its name; any other text is an `InvalidParse`.
    pub fn from_str(s: &str) -> (r: Result<Class, AdvisorError>)
        ensures
            match Class::named(s@) {
                Some(c) => r == Ok::<Class, AdvisorError>(c),
                None => r == Err::<Class, AdvisorError>(AdvisorError::InvalidParse),
            },
    {
        if same_text(s, "Warlock") {
            Ok(Class::Warlock)
        } else if same_text(s, "Titan") {
            Ok(Class::Titan)
        } else if same_text(s, "Hunter") {
            Ok(Class::Hunter)
        } else {
            Err(AdvisorError::InvalidParse)
        }
    }
}

impl Kind {
    /// The slot that a name stands for, if it names one. The class item of
    /// each class (cloak, bond, mark) is the same slot.
    pub open spec fn named(s: Seq<char>) -> Option<Kind> {
        if s == "Helmet"@ {
            Some(Kind::Helmet)
        } else if s == "Gauntlets"@ {
            Some(Kind::Arms)
        } else if s == "Chest Armor"@ {
            Some(Kind::Chest)
        } else if s == "Leg Armor"@ {
            Some(Kind::Legs)
        } else if s == "Hunter Cloak"@ || s == "Warlock Bond"@ || s == "Titan Mark"@ {
            Some(Kind::Bond)
        } else {
            None
        }
    }

    /// Reads a slot from its name; any other text is an `InvalidParse`.
    pub fn from_str(s: &str) -> (r: Result<Kind, AdvisorError>)
        ensures
            match Kind::named(s@) {
                Some(k) => r == Ok::<Kind, AdvisorError>(k),
                None => r == Err::<Kind, AdvisorError>(AdvisorError::InvalidParse),
            },
    {
        if same_text(s, "Helmet") {
            Ok(Kind::Helmet)
        } else if same_text(s, "Gauntlets") {
            Ok(Kind::Arms)
        } else if same_text(s, "Chest Armor") {
            Ok(Kind::Chest)
        } else if same_text(s, "Leg Armor") {
            Ok(Kind::Legs)
        } else if same_text(s, "Hunter Cloak") || same_text(s, "Warlock Bond") || same_text(
            s,
            "Titan Mark",
        ) {
            Ok(Kind::Bond)
        } else {
            Err(AdvisorError::InvalidParse)
        }
    }
}

/// Whether two texts hold the same characters.
pub fn same_text(a: &str, b: &str) -> (r: bool)
    ensures
        r == (a@ == b@),
{
    let x = a.to_owned();
    let y = b.to_owned();
    x == y
}

/// One armour piece of the inventory.
#[derive(Debug)]
pub struct Record {
    pub name: String,
    pub id: u64,
    pub armor: Kind,
    pub class: Class,
    pub exotic: bool,
    pub stat_array: Stats,
}

/// The mathematical content of a `Record`: the same fields, the name as its
/// characters.
pub struct RecordView {
    pub name: Seq<char>,
    pub id: u64,
    pub armor: Kind,
    pub class: Class,
    pub exotic: bool,
    pub stat_array: Stats,
}

impl View for Record {
    type V = RecordView;

    open spec fn view(&self) -> RecordView {
        RecordView {
            name: self.name@,
            id: self.id,
            armor: self.armor,
            class: self.class,
            exotic: self.exotic,
            stat_array: self.stat_array,
        }
    }
}

/// What a list of records holds.
pub open spec fn record_views(items: Seq<Record>) -> Seq<RecordView> {
    items.map_values(|r: Record| r@)
}

} // verus!
