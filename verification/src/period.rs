//! The identifiers of the periods that the cache keeps warm.

use vstd::prelude::*;
use crate::types::{DayId, MonthId, PeriodBucket, WeekId};

verus! {

/// The eleven periods around one day: the five days, three weeks and three months that
/// the cache has to do with.
#[derive(Clone, Copy, Debug, PartialEq, Eq, Structural)]
pub struct CachePeriodIds {
    pub day_after_tomorrow: DayId,
    pub day_before_yesterday: DayId,
    pub this_month: MonthId,
    pub this_week: WeekId,
    pub last_month: MonthId,
    pub last_week: WeekId,
    pub next_month: MonthId,
    pub next_week: WeekId,
    pub today: DayId,
    pub tomorrow: DayId,
    pub yesterday: DayId,
}

impl CachePeriodIds {
    /// The identifiers before the host has told the day: all zero.
    pub open spec fn zero() -> CachePeriodIds {
        CachePeriodIds {
            day_after_tomorrow: 0,
            day_before_yesterday: 0,
            this_month: 0,
            this_week: 0,
            last_month: 0,
            last_week: 0,
            next_month: 0,
            next_week: 0,
            today: 0,
            tomorrow: 0,
            yesterday: 0,
        }
    }

    /// The identifiers around day `today` of week `this_week` of month `this_month`, each
    /// neighbour one off.
    pub open spec fn around(today: DayId, this_week: WeekId, this_month: MonthId) -> CachePeriodIds {
        CachePeriodIds {
            day_after_tomorrow: (today + 2) as u32,
            day_before_yesterday: (today - 2) as u32,
            this_month,
            this_week,
            last_month: (this_month - 1) as u32,
            last_week: (this_week - 1) as u32,
            next_month: (this_month + 1) as u32,
            next_week: (this_week + 1) as u32,
            today,
            tomorrow: (today + 1) as u32,
            yesterday: (today - 1) as u32,
        }
    }

    /// The period that `bucket` holds under these identifiers.
    pub open spec fn spec_period_id(self, bucket: PeriodBucket) -> u32 {
        match bucket {
            PeriodBucket::LastMonth => self.last_month,
            PeriodBucket::ThisMonth => self.this_month,
            PeriodBucket::LastWeek => self.last_week,
            PeriodBucket::ThisWeek => self.this_week,
            PeriodBucket::DayBeforeYesterday => self.day_before_yesterday,
            PeriodBucket::Yesterday => self.yesterday,
            PeriodBucket::Today => self.today,
        }
    }

    /// The identifiers before the host has told the day: all zero. The host's first
    /// rotation brings the true ones.
    pub fn new() -> (ids: CachePeriodIds)
        ensures
            ids == CachePeriodIds::zero(),
    {
        CachePeriodIds {
            day_after_tomorrow: 0,
            day_before_yesterday: 0,
            this_month: 0,
            this_week: 0,
            last_month: 0,
            last_week: 0,
            next_month: 0,
            next_week: 0,
            today: 0,
            tomorrow: 0,
            yesterday: 0,
        }
    }

    /// The identifiers around day `today` of week `this_week` of month `this_month`.
    /// `None` where a neighbour has no number: a day under 2 or over `u32::MAX - 2`, a week
    /// or a month that is 0 or `u32::MAX`.
    pub fn seeded(today: DayId, this_week: WeekId, this_month: MonthId) -> (ids: Option<
        CachePeriodIds,
    >)
        ensures
            ids is Some <==> 2 <= today <= u32::MAX - 2 && 1 <= this_week <= u32::MAX - 1 && 1
                <= this_month <= u32::MAX - 1,
            ids is Some ==> ids->0 == CachePeriodIds::around(today, this_week, this_month),
    {
        if today < 2 || today > 0xffff_fffd || this_week < 1 || this_week > 0xffff_fffe
            || this_month < 1 || this_month > 0xffff_fffe {
            return None;
        }
        Some(
            CachePeriodIds {
                day_after_tomorrow: today + 2,
                day_before_yesterday: today - 2,
                this_month,
                this_week,
                last_month: this_month - 1,
                last_week: this_week - 1,
                next_month: this_month + 1,
                next_week: this_week + 1,
                today,
                tomorrow: today + 1,
                yesterday: today - 1,
            },
        )
    }

    /// The period that `bucket` holds under these identifiers.
    pub fn period_id(&self, bucket: PeriodBucket) -> (id: u32)
        ensures
            id == self.spec_period_id(bucket),
    {
        match bucket {
            PeriodBucket::LastMonth => self.last_month,
            PeriodBucket::ThisMonth => self.this_month,
            PeriodBucket::LastWeek => self.last_week,
            PeriodBucket::ThisWeek => self.this_week,
            PeriodBucket::DayBeforeYesterday => self.day_before_yesterday,
            PeriodBucket::Yesterday => self.yesterday,
            PeriodBucket::Today => self.today,
        }
    }
}

} // verus!
