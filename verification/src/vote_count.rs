//! The record that the leaderboards rank: a poll, its tag and its tally of votes.

use vstd::prelude::*;
use crate::types::{PollId, PollKind, TimezoneId, NUM_TIMEZONES};

verus! {

/// The tag byte of a poll of `dimensions` dimensions in `timezone`.
///
/// The upper five bits hold the timezone, the next two the number of dimensions. The lowest
/// bit is spare for timezones under 32; above, it carries the timezone's sixth bit.
pub open spec fn tag_of(timezone: nat, dimensions: nat) -> nat {
    (timezone % 32) * 8 + dimensions * 2 + timezone / 32
}

/// The number of votes of one poll, with what a reader needs to find the poll.
#[derive(Clone, Copy, Debug, PartialEq, Eq, Structural)]
pub struct VoteCount {
    /// Timezone and number of dimensions in one byte: see `tag_of`.
    pub poll_type_and_tz: u8,
    pub poll_id: PollId,
    /// Votes in the period. It only grows, and stays at `u32::MAX` once there.
    pub count: u32,
}

impl VoteCount {
    /// The timezone that the tag names.
    pub open spec fn spec_timezone(self) -> nat {
        (self.poll_type_and_tz as nat / 8) + (self.poll_type_and_tz as nat % 2) * 32
    }

    /// The number of dimensions that the tag names.
    pub open spec fn spec_dimensions(self) -> nat {
        (self.poll_type_and_tz as nat / 2) % 4
    }

    /// A count of no votes for poll `poll_id` of kind `kind` in `timezone`.
    pub fn new(timezone: TimezoneId, kind: PollKind, poll_id: PollId) -> (vc: VoteCount)
        requires
            timezone < NUM_TIMEZONES,
        ensures
            vc.poll_type_and_tz == tag_of(timezone as nat, kind.dimensions()),
            vc.poll_id == poll_id,
            vc.count == 0,
            vc.spec_timezone() == timezone,
            vc.spec_dimensions() == kind.dimensions(),
    {
        let tag: u8 = (timezone % 32) * 8 + kind.tag() * 2 + timezone / 32;
        VoteCount { poll_type_and_tz: tag, poll_id, count: 0 }
    }

    /// The timezone that the tag names.
    pub fn timezone(&self) -> (tz: TimezoneId)
        ensures
            tz == self.spec_timezone(),
    {
        self.poll_type_and_tz / 8 + (self.poll_type_and_tz % 2) * 32
    }

    /// The number of dimensions that the tag names.
    pub fn dimensions(&self) -> (d: u8)
        ensures
            d == self.spec_dimensions(),
    {
        (self.poll_type_and_tz / 2) % 4
    }

    /// The same record with one vote more; at `u32::MAX` the count stays.
    pub open spec fn one_more(self) -> VoteCount {
        VoteCount {
            count: if self.count < u32::MAX {
                (self.count + 1) as u32
            } else {
                self.count
            },
            ..self
        }
    }

    /// Counts one vote more; at `u32::MAX` the count stays.
    pub fn increment(&mut self)
        ensures
            *final(self) == old(self).one_more(),
            final(self).count >= old(self).count,
    {
        if self.count < u32::MAX {
            self.count = self.count + 1;
        }
    }

    /// Whether `self` stands above `other` on a leaderboard.
    pub fn ranks_before(&self, other: &VoteCount) -> (b: bool)
        ensures
            b == ranks_before(*self, *other),
    {
        self.count > other.count || (self.count == other.count && self.poll_id < other.poll_id)
    }
}

/// The order of a leaderboard: more votes first, and among equal counts the older poll,
/// which is the one with the smaller identifier.
pub open spec fn ranks_before(a: VoteCount, b: VoteCount) -> bool {
    a.count > b.count || (a.count == b.count && a.poll_id < b.poll_id)
}

} // verus!
