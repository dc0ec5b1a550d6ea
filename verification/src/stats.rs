//! The six-attribute stat vector of an armour piece and its component-wise order.

use vstd::prelude::*;

verus! {

/// The six attributes of an armour piece.
#[derive(Debug, Clone, Copy, PartialEq, Eq, Structural)]
pub struct Stats {
    pub mobility: i8,
    pub resilience: i8,
    pub recovery: i8,
    pub discipline: i8,
    pub intelligence: i8,
    pub strength: i8,
}

impl Stats {
    /// The six attributes in their conventional order.
    pub open spec fn components(&self) -> Seq<int> {
        seq![
            self.mobility as int,
            self.resilience as int,
            self.recovery as int,
            self.discipline as int,
            self.intelligence as int,
            self.strength as int,
        ]
    }

    /// `self` is at least `other` in every one of the six attributes.
    pub open spec fn ge_everywhere(&self, other: &Stats) -> bool {
        forall|i: int| 0 <= i < 6 ==> self.components()[i] >= other.components()[i]
    }

    /// Whether every attribute of `self` is at least the same attribute of `other`.
    pub fn collective_ge(&self, other: &Self) -> (r: bool)
        ensures
            r == self.ge_everywhere(other),
    {
        let r = self.mobility >= other.mobility && self.resilience >= other.resilience
            && self.recovery >= other.recovery && self.discipline >= other.discipline
            && self.intelligence >= other.intelligence && self.strength >= other.strength;
        proof {
            let a = self.components();
            let b = other.components();
            if r {
                assert(self.ge_everywhere(other));
            } else {
                assert(a[0] < b[0] || a[1] < b[1] || a[2] < b[2] || a[3] < b[3] || a[4] < b[4]
                    || a[5] < b[5]);
            }
        }
        r
    }
}

} // verus!
