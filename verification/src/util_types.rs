//! Small value types shared across the engine.

use vstd::prelude::*;

verus! {

/// Direction of a swap, or one of the two tokens of a pair.
#[derive(Clone, Copy, Debug, PartialEq, Eq, Structural)]
pub enum Side {
    Left,
    Right,
}

impl Side {
    pub fn opposite(&self) -> (r: Side)
        ensures
            r == match self {
                Side::Left => Side::Right,
                Side::Right => Side::Left,
            },
    {
        match self {
            Side::Left => Side::Right,
            Side::Right => Side::Left,
        }
    }

    pub fn opposite_if(&self, cond: bool) -> (r: Side)
        ensures
            cond ==> r == self.opposite_spec(),
            !cond ==> r == *self,
    {
        if cond {
            self.opposite()
        } else {
            *self
        }
    }

    pub open spec fn opposite_spec(&self) -> Side {
        match self {
            Side::Left => Side::Right,
            Side::Right => Side::Left,
        }
    }

    pub fn from_swapped(swapped: bool) -> (r: Side)
        ensures
            r == if swapped {
                Side::Right
            } else {
                Side::Left
            },
    {
        if swapped {
            Side::Right
        } else {
            Side::Left
        }
    }
}

/// Whether a swap fixes the input or the output amount.
#[derive(Clone, Copy, Debug, PartialEq, Eq, Structural)]
pub enum Exact {
    In,
    Out,
}

impl Exact {
    pub fn opposite(self) -> (r: Exact)
        ensures
            r == match self {
                Exact::In => Exact::Out,
                Exact::Out => Exact::In,
            },
    {
        match self {
            Exact::In => Exact::Out,
            Exact::Out => Exact::In,
        }
    }
}

/// An inclusive amount range.
#[derive(Clone, Copy, Debug, PartialEq, Eq, Structural)]
pub struct Range {
    pub min: u128,
    pub max: u128,
}

/// Parameters of a position to open: token amount ranges and a tick range
/// (`None` bounds mean the widest valid tick).
#[derive(Clone, Copy, Debug)]
pub struct PositionInit {
    pub amount_ranges: (Range, Range),
    pub ticks_range: (Option<i32>, Option<i32>),
}

impl PositionInit {
    pub fn new_full_range(min_a: u128, max_a: u128, min_b: u128, max_b: u128) -> (r: PositionInit)
        ensures
            r.amount_ranges.0 == (Range { min: min_a, max: max_a }),
            r.amount_ranges.1 == (Range { min: min_b, max: max_b }),
            r.ticks_range.0 is None,
            r.ticks_range.1 is None,
    {
        PositionInit {
            amount_ranges: (Range { min: min_a, max: max_a }, Range { min: min_b, max: max_b }),
            ticks_range: (None, None),
        }
    }

    /// Swap the token roles (and mirror the tick range) when the canonical
    /// token order differs from the caller's order.
    pub fn transpose_if(self, transposed: bool) -> (r: PositionInit)
        ensures
            !transposed ==> r == self,
            transposed ==> {
                &&& r.amount_ranges.0 == self.amount_ranges.1
                &&& r.amount_ranges.1 == self.amount_ranges.0
                &&& r.ticks_range.0 == neg_opt(self.ticks_range.1)
                &&& r.ticks_range.1 == neg_opt(self.ticks_range.0)
            },
    {
        if transposed {
            PositionInit {
                amount_ranges: (self.amount_ranges.1, self.amount_ranges.0),
                ticks_range: (neg_opt_exec(self.ticks_range.1), neg_opt_exec(self.ticks_range.0)),
            }
        } else {
            self
        }
    }
}

/// Saturating negation lifted over `Option`.
pub open spec fn neg_opt(v: Option<i32>) -> Option<i32> {
    match v {
        None => None,
        Some(x) => Some(if x == i32::MIN {
            i32::MAX
        } else {
            (-x) as i32
        }),
    }
}

fn neg_opt_exec(v: Option<i32>) -> (r: Option<i32>)
    ensures
        r == neg_opt(v),
{
    match v {
        None => None,
        Some(x) => Some(
            if x == i32::MIN {
                i32::MAX
            } else {
                -x
            },
        ),
    }
}

/// Swap the pair when the condition holds.
pub fn swap_if<T>(condition: bool, pair: (T, T)) -> (r: (T, T))
    ensures
        condition ==> r.0 == pair.1 && r.1 == pair.0,
        !condition ==> r == pair,
{
    if condition {
        (pair.1, pair.0)
    } else {
        pair
    }
}

} // verus!
