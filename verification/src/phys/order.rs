//! The order of vectors and positions: the first coordinates decide, and among
//! equal first coordinates the second.

use super::pos::Position;
use super::vec2::Vec2;
use std::cmp::Ordering;
use vstd::prelude::*;
use vstd::std_specs::cmp::PartialOrdSpecImpl;

verus! {

/// How `a` stands to `b`.
pub open spec fn lexical(a: Vec2, b: Vec2) -> Ordering {
    if a.x < b.x {
        Ordering::Less
    } else if a.x > b.x {
        Ordering::Greater
    } else if a.y < b.y {
        Ordering::Less
    } else if a.y > b.y {
        Ordering::Greater
    } else {
        Ordering::Equal
    }
}

impl PartialOrdSpecImpl for Vec2 {
    open spec fn obeys_partial_cmp_spec() -> bool {
        true
    }

    open spec fn partial_cmp_spec(&self, other: &Vec2) -> Option<Ordering> {
        Some(lexical(*self, *other))
    }
}

impl PartialOrd for Vec2 {
    fn partial_cmp(&self, other: &Vec2) -> (r: Option<Ordering>) {
        if self.x < other.x {
            Some(Ordering::Less)
        } else if self.x > other.x {
            Some(Ordering::Greater)
        } else if self.y < other.y {
            Some(Ordering::Less)
        } else if self.y > other.y {
            Some(Ordering::Greater)
        } else {
            Some(Ordering::Equal)
        }
    }
}

impl PartialOrdSpecImpl for Position {
    open spec fn obeys_partial_cmp_spec() -> bool {
        true
    }

    open spec fn partial_cmp_spec(&self, other: &Position) -> Option<Ordering> {
        Some(lexical(self.0, other.0))
    }
}

impl PartialOrd for Position {
    fn partial_cmp(&self, other: &Position) -> (r: Option<Ordering>) {
        self.0.partial_cmp(&other.0)
    }
}

/// Whether `p` comes after `low` and before `high` in the order of positions.
pub fn is_between(p: Position, low: Position, high: Position) -> (r: bool)
    ensures
        r == (lexical(p.0, low.0) == Ordering::Greater && lexical(p.0, high.0) == Ordering::Less),
{
    p > low && p < high
}

} // verus!
