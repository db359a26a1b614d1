//! Vote sums that outgrow 32 bits: a `u32` sum with a `u8` counter of its wraps.

use vstd::prelude::*;

verus! {

/// What one unit of the wrap counter stands for: 2^32.
pub open spec fn wrap_weight() -> nat {
    0x1_0000_0000
}

/// The first total that a tally cannot hold: 2^40.
pub open spec fn tally_limit() -> nat {
    0x100_0000_0000
}

/// The sum of `amounts`.
pub open spec fn sum_of(amounts: Seq<u32>) -> nat
    decreases amounts.len(),
{
    if amounts.len() == 0 {
        0
    } else {
        sum_of(amounts.drop_last()) + amounts.last() as nat
    }
}

/// The votes cast in one direction of one dimension of a poll.
#[derive(Clone, Copy, Debug, PartialEq, Eq, Structural)]
pub struct Tally {
    /// How often `sum` has wrapped past `u32::MAX`.
    pub over: u8,
    /// The total modulo 2^32.
    pub sum: u32,
}

impl Tally {
    /// The true total: `over * 2^32 + sum`.
    pub open spec fn total(self) -> nat {
        self.over as nat * wrap_weight() + self.sum as nat
    }

    /// The tally after `amount` more votes. A tally that cannot hold them stays as it is.
    pub open spec fn plus(self, amount: u32) -> Tally {
        if self.total() + amount >= tally_limit() {
            self
        } else if self.sum + amount > u32::MAX {
            Tally { over: (self.over + 1) as u8, sum: (self.sum + amount - wrap_weight()) as u32 }
        } else {
            Tally { over: self.over, sum: (self.sum + amount) as u32 }
        }
    }

    /// The tally after each of `amounts` was added in turn.
    pub open spec fn plus_all(self, amounts: Seq<u32>) -> Tally
        decreases amounts.len(),
    {
        if amounts.len() == 0 {
            self
        } else {
            self.plus_all(amounts.drop_last()).plus(amounts.last())
        }
    }

    /// An empty tally.
    pub fn new() -> (t: Tally)
        ensures
            t.over == 0,
            t.sum == 0,
            t.total() == 0,
    {
        Tally { over: 0, sum: 0 }
    }

    /// Adds `amount` votes. The wrap counter goes up by one exactly when the sum wraps.
    /// Returns whether the tally could hold the new total; if not, nothing changes.
    pub fn add(&mut self, amount: u32) -> (recorded: bool)
        ensures
            recorded <==> old(self).total() + amount < tally_limit(),
            *final(self) == old(self).plus(amount),
            recorded ==> final(self).total() == old(self).total() + amount,
            recorded ==> (final(self).over != old(self).over <==> old(self).sum + amount
                > u32::MAX),
    {
        let wide: u64 = self.sum as u64 + amount as u64;
        if wide <= 0xffff_ffff {
            self.sum = wide as u32;
            true
        } else if self.over < 255 {
            self.over = self.over + 1;
            self.sum = (wide - 0x1_0000_0000) as u32;
            true
        } else {
            false
        }
    }

    /// The true total as one number.
    pub fn value(&self) -> (v: u64)
        ensures
            v == self.total(),
    {
        self.over as u64 * 0x1_0000_0000 + self.sum as u64
    }
}

/// Adding keeps the books: as long as the total stays under 2^40, the tally after any run
/// of additions holds exactly the sum of what was added, however often the sum wrapped.
pub proof fn lemma_total_is_exact(t: Tally, amounts: Seq<u32>)
    requires
        t.total() + sum_of(amounts) < tally_limit(),
    ensures
        t.plus_all(amounts).total() == t.total() + sum_of(amounts),
        t.plus_all(amounts).over as nat == (t.total() + sum_of(amounts)) / wrap_weight(),
        t.plus_all(amounts).sum as nat == (t.total() + sum_of(amounts)) % wrap_weight(),
    decreases amounts.len(),
{
    if amounts.len() > 0 {
        lemma_total_is_exact(t, amounts.drop_last());
    }
}

} // verus!
