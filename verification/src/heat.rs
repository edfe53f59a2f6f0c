//! The heat accumulator: a bounded scalar that rises with energetic actions
//! and falls under braking.

use vstd::prelude::*;

verus! {

/// Heat of a fully heated body, in thousandths.
pub const HEAT_MAX: i32 = 1000;

/// `value` brought into the range from `0` to `HEAT_MAX`.
pub open spec fn clamp_heat(value: int) -> int {
    if value < 0 {
        0
    } else if value > HEAT_MAX {
        HEAT_MAX as int
    } else {
        value
    }
}

/// A heat amount between `0` and `HEAT_MAX` thousandths.
#[derive(Clone, Copy, Debug, PartialEq, Eq)]
pub struct Heat {
    amount: i32,
}

impl View for Heat {
    type V = int;

    closed spec fn view(&self) -> int {
        self.amount as int
    }
}

impl Heat {
    /// The amount lies within its bounds.
    #[verifier::type_invariant]
    pub open spec fn wf(self) -> bool {
        0 <= self@ <= HEAT_MAX
    }

    /// No heat at all.
    pub fn new() -> (heat: Heat)
        ensures
            heat@ == 0,
            heat.wf(),
    {
        Heat { amount: 0 }
    }

    /// The current amount, in thousandths.
    pub fn amount(&self) -> (amount: i32)
        ensures
            amount == self@,
            0 <= amount <= HEAT_MAX,
    {
        proof {
            use_type_invariant(self);
        }
        self.amount
    }

    /// Adds `value` thousandths, which may be negative, and clamps the sum.
    pub fn inc(&mut self, value: i32)
        ensures
            final(self)@ == clamp_heat(old(self)@ + value),
            final(self).wf(),
    {
        proof {
            use_type_invariant(&*self);
        }
        let sum: i64 = self.amount as i64 + value as i64;
        if sum < 0 {
            self.amount = 0;
        } else if sum > HEAT_MAX as i64 {
            self.amount = HEAT_MAX;
        } else {
            self.amount = sum as i32;
        }
    }
}

/// The heat that `deltas`, added one after the other, make of `start`.
pub open spec fn heat_after(start: int, deltas: Seq<int>) -> int
    decreases deltas.len(),
{
    if deltas.len() == 0 {
        start
    } else {
        clamp_heat(heat_after(start, deltas.drop_last()) + deltas.last())
    }
}

/// Heat never leaves its bounds, whatever is added to it and however often.
pub proof fn lemma_heat_stays_bounded(start: int, deltas: Seq<int>)
    requires
        0 <= start <= HEAT_MAX,
    ensures
        0 <= heat_after(start, deltas) <= HEAT_MAX,
    decreases deltas.len(),
{
    if deltas.len() > 0 {
        lemma_heat_stays_bounded(start, deltas.drop_last());
    }
}

} // verus!
