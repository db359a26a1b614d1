//! Identifiers, limits and the kinds of failure that the cache reports.

use vstd::prelude::*;

verus! {

/// A location, as the issuer of identifiers numbers it.
pub type LocationId = u64;

/// A category, as the issuer of identifiers numbers it.
pub type CategoryId = u64;

/// A poll, as the issuer of identifiers numbers it.
pub type PollId = u64;

/// A calendar day.
pub type DayId = u32;

/// A calendar week.
pub type WeekId = u32;

/// A calendar month.
pub type MonthId = u32;

/// The row of a location inside one period bucket.
pub type LocationCacheIndex = u32;

/// The row of a category inside one period bucket.
pub type CategoryCacheIndex = u32;

/// The column of a category inside one location's row.
pub type LocationCategoryCacheIndex = u32;

/// A timezone, counted from zero.
pub type TimezoneId = u8;

/// How many timezones the cache keeps apart.
pub const NUM_TIMEZONES: u8 = 38;

/// How many poll identifiers one page of a pending-poll list holds.
pub const PAGE_SIZE: usize = 1024;

/// Why the cache could not do what it was asked.
#[derive(Clone, Copy, Debug, PartialEq, Eq, Structural)]
pub enum CacheError {
    /// No such poll in the active bucket: never created there, or rotated out.
    UnknownPoll,
    /// No such location in the active bucket: never seen there, or rotated out.
    UnknownLocation,
    /// No such category in the active bucket: never seen there, or rotated out.
    UnknownCategory,
    /// No timezone has this number.
    UnknownTimezone,
    /// The poll has no such direction: it has fewer dimensions.
    UnknownDirection,
    /// The timezone's buckets are being rotated: come again. The cache never returns
    /// this itself, since nobody can call it while it rotates; it is for a host to tell a
    /// reader whom it holds off while a rotation has the cache.
    RotationInProgress,
    /// A counter or an index has no room left.
    Exhausted,
}

/// In how many dimensions a poll is answered.
#[derive(Clone, Copy, Debug, PartialEq, Eq, Structural)]
pub enum PollKind {
    OneD,
    TwoD,
    ThreeD,
}

impl PollKind {
    /// The number of dimensions: 1, 2 or 3.
    pub open spec fn dimensions(self) -> nat {
        match self {
            PollKind::OneD => 1,
            PollKind::TwoD => 2,
            PollKind::ThreeD => 3,
        }
    }

    /// The number of dimensions, as the two bits that a vote count's tag keeps.
    pub fn tag(self) -> (t: u8)
        ensures
            t == self.dimensions(),
    {
        match self {
            PollKind::OneD => 1,
            PollKind::TwoD => 2,
            PollKind::ThreeD => 3,
        }
    }
}

/// One of the two directions of one of a poll's dimensions.
#[derive(Clone, Copy, Debug, PartialEq, Eq, Structural)]
pub enum Direction {
    Dim1Dir1,
    Dim1Dir2,
    Dim2Dir1,
    Dim2Dir2,
    Dim3Dir1,
    Dim3Dir2,
}

impl Direction {
    /// The dimension that the direction belongs to: 1, 2 or 3.
    pub open spec fn dimension(self) -> nat {
        match self {
            Direction::Dim1Dir1 | Direction::Dim1Dir2 => 1,
            Direction::Dim2Dir1 | Direction::Dim2Dir2 => 2,
            Direction::Dim3Dir1 | Direction::Dim3Dir2 => 3,
        }
    }
}

/// One of the rolling calendar windows that a timezone keeps warm.
#[derive(Clone, Copy, Debug, PartialEq, Eq, Structural)]
pub enum PeriodBucket {
    LastMonth,
    ThisMonth,
    LastWeek,
    ThisWeek,
    DayBeforeYesterday,
    Yesterday,
    Today,
}

/// How many period buckets a timezone keeps.
pub const NUM_PERIOD_BUCKETS: usize = 7;

impl PeriodBucket {
    /// The bucket's place among the seven, from `LastMonth` at 0 to `Today` at 6.
    pub open spec fn spec_index(self) -> int {
        match self {
            PeriodBucket::LastMonth => 0,
            PeriodBucket::ThisMonth => 1,
            PeriodBucket::LastWeek => 2,
            PeriodBucket::ThisWeek => 3,
            PeriodBucket::DayBeforeYesterday => 4,
            PeriodBucket::Yesterday => 5,
            PeriodBucket::Today => 6,
        }
    }

    /// The bucket's place among the seven, from `LastMonth` at 0 to `Today` at 6.
    pub fn index(self) -> (i: usize)
        ensures
            i == self.spec_index(),
            i < NUM_PERIOD_BUCKETS,
    {
        match self {
            PeriodBucket::LastMonth => 0,
            PeriodBucket::ThisMonth => 1,
            PeriodBucket::LastWeek => 2,
            PeriodBucket::ThisWeek => 3,
            PeriodBucket::DayBeforeYesterday => 4,
            PeriodBucket::Yesterday => 5,
            PeriodBucket::Today => 6,
        }
    }
}

} // verus!
