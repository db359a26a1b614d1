//! What the cache holds, as values: the model that the cache's contracts speak of.

use vstd::prelude::*;
use crate::index_map::{index_in, is_dense, lemma_located_is_dense, located};
use crate::leaderboard::{is_board, lemma_update_keeps_ranking, ranked_update};
use crate::period::CachePeriodIds;
use crate::polls::PollRecord;
use crate::rankings::LocationBoards;
use crate::types::{
    CategoryCacheIndex,
    CategoryId,
    LocationCacheIndex,
    LocationCategoryCacheIndex,
    LocationId,
    PeriodBucket,
    PollId,
    TimezoneId,
    NUM_TIMEZONES,
};
use crate::vote_count::VoteCount;

verus! {

/// The locations of one period bucket of one timezone: their rows, the columns of their
/// categories, and the boards of each row.
#[verifier::ext_equal]
pub struct LocationShard {
    /// The row of each location.
    pub rows: Map<LocationId, LocationCacheIndex>,
    /// For each location the column of each of its categories; for a location without a
    /// row, none.
    pub columns: Map<LocationId, Map<CategoryId, LocationCategoryCacheIndex>>,
    /// The boards, by row.
    pub boards: Seq<LocationBoards>,
}

impl LocationShard {
    /// A bucket that was just made: no location, no row.
    pub open spec fn empty() -> LocationShard {
        LocationShard {
            rows: Map::empty(),
            columns: Map::new(|l: LocationId| true, |l: LocationId| Map::empty()),
            boards: Seq::empty(),
        }
    }

    /// Rows and columns are dense, each row has its boards and each column its board, and
    /// every board is ranked.
    pub open spec fn wf(self) -> bool {
        &&& is_dense(self.rows)
        &&& self.boards.len() == self.rows.len()
        &&& forall|l: LocationId| #[trigger] self.columns.contains_key(l)
        &&& forall|l: LocationId| is_dense(#[trigger] self.columns[l])
        &&& forall|l: LocationId|
            !self.rows.contains_key(l) ==> #[trigger] self.columns[l] == Map::<u64, u32>::empty()
        &&& forall|l: LocationId| #[trigger]
            self.rows.contains_key(l) ==> self.boards[self.rows[l] as int].categories.len()
                == self.columns[l].len()
        &&& forall|i: int| 0 <= i < self.boards.len() ==> (#[trigger] self.boards[i]).wf()
    }

    /// The bucket after `location` was located: on first reference it has the next unused
    /// row, with boards that are empty.
    pub open spec fn located(self, location: LocationId) -> LocationShard {
        if self.rows.contains_key(location) || self.rows.len() >= u32::MAX {
            self
        } else {
            LocationShard {
                rows: located(self.rows, location),
                boards: self.boards.push(LocationBoards::empty()),
                ..self
            }
        }
    }

    /// The bucket after `category` was located inside `location`: on first reference it
    /// has the next unused column of the location's row, with a board that is empty.
    pub open spec fn located_category(self, location: LocationId, category: CategoryId)
        -> LocationShard {
        if !self.rows.contains_key(location) || self.columns[location].contains_key(category)
            || self.columns[location].len() >= u32::MAX {
            self
        } else {
            let row = self.rows[location] as int;
            LocationShard {
                columns: self.columns.insert(location, located(self.columns[location], category)),
                boards: self.boards.update(
                    row,
                    LocationBoards {
                        categories: self.boards[row].categories.push(Seq::empty()),
                        ..self.boards[row]
                    },
                ),
                ..self
            }
        }
    }

    /// The bucket after the poll of `vc` was re-positioned on the own board of row `row`.
    pub open spec fn with_location_update(self, row: int, vc: VoteCount) -> LocationShard {
        LocationShard {
            boards: self.boards.update(
                row,
                LocationBoards {
                    location: ranked_update(self.boards[row].location, vc),
                    ..self.boards[row]
                },
            ),
            ..self
        }
    }

    /// The bucket after the poll of `vc` was re-positioned on the board of column `column`
    /// of row `row`.
    pub open spec fn with_category_update(self, row: int, column: int, vc: VoteCount)
        -> LocationShard {
        LocationShard {
            boards: self.boards.update(
                row,
                LocationBoards {
                    categories: self.boards[row].categories.update(
                        column,
                        ranked_update(self.boards[row].categories[column], vc),
                    ),
                    ..self.boards[row]
                },
            ),
            ..self
        }
    }

    /// The bucket after the boards of row `row` were emptied.
    pub open spec fn with_cleared(self, row: int) -> LocationShard {
        LocationShard {
            boards: self.boards.update(
                row,
                LocationBoards {
                    location: Seq::empty(),
                    categories: Seq::new(
                        self.boards[row].categories.len(),
                        |i: int| Seq::<VoteCount>::empty(),
                    ),
                },
            ),
            ..self
        }
    }
}

/// The categories of one period bucket, across timezones: their rows and the board of
/// each row.
#[verifier::ext_equal]
pub struct CategoryShard {
    /// The row of each category.
    pub rows: Map<CategoryId, CategoryCacheIndex>,
    /// The boards, by row.
    pub boards: Seq<Seq<VoteCount>>,
}

impl CategoryShard {
    /// A bucket that was just made: no category, no row.
    pub open spec fn empty() -> CategoryShard {
        CategoryShard { rows: Map::empty(), boards: Seq::empty() }
    }

    /// Rows are dense, each has its board, and every board is ranked.
    pub open spec fn wf(self) -> bool {
        &&& is_dense(self.rows)
        &&& self.boards.len() == self.rows.len()
        &&& forall|i: int| 0 <= i < self.boards.len() ==> is_board(#[trigger] self.boards[i])
    }

    /// The bucket after `category` was located: on first reference it has the next unused
    /// row, with a board that is empty.
    pub open spec fn located(self, category: CategoryId) -> CategoryShard {
        if self.rows.contains_key(category) || self.rows.len() >= u32::MAX {
            self
        } else {
            CategoryShard {
                rows: located(self.rows, category),
                boards: self.boards.push(Seq::empty()),
            }
        }
    }
}

/// The timezone that has poll `id` on record in `polls`, if one has.
pub open spec fn zone_of(polls: Seq<Map<PollId, PollRecord>>, id: PollId) -> Option<int> {
    if exists|tz: int| 0 <= tz < polls.len() && #[trigger] polls[tz].contains_key(id) {
        Some(choose|tz: int| 0 <= tz < polls.len() && #[trigger] polls[tz].contains_key(id))
    } else {
        None
    }
}

/// Everything the cache holds.
#[verifier::ext_equal]
pub struct CacheView {
    /// The periods that are warm across timezones, for the category rankings.
    pub category_period_ids: CachePeriodIds,
    /// The periods that are warm in each timezone.
    pub period_ids: Seq<CachePeriodIds>,
    /// For each timezone, whether its buckets are being rotated.
    pub rotating: Seq<bool>,
    /// The categories of each period bucket.
    pub categories: Map<PeriodBucket, CategoryShard>,
    /// The locations of each period bucket of each timezone.
    pub locations: Map<(TimezoneId, PeriodBucket), LocationShard>,
    /// The poll records of each timezone.
    pub polls: Seq<Map<PollId, PollRecord>>,
    /// The identifier that the next poll gets.
    pub next_poll_id: PollId,
    /// The pending polls of each location, and of each category in each location.
    pub pending: Map<(LocationId, Option<CategoryId>), Seq<PollId>>,
}

impl CacheView {
    /// Every timezone and every bucket is there and well-formed, no poll is on record in
    /// two timezones or has a number that is still to be handed out, and no timezone is
    /// being rotated.
    pub open spec fn wf(self) -> bool {
        &&& self.period_ids.len() == NUM_TIMEZONES
        &&& self.rotating.len() == NUM_TIMEZONES
        &&& self.polls.len() == NUM_TIMEZONES
        &&& forall|tz: int| 0 <= tz < NUM_TIMEZONES ==> !(#[trigger] self.rotating[tz])
        &&& forall|b: PeriodBucket| #[trigger] self.categories.contains_key(b)
        &&& forall|b: PeriodBucket| (#[trigger] self.categories[b]).wf()
        &&& forall|tz: TimezoneId, b: PeriodBucket|
            tz < NUM_TIMEZONES <==> #[trigger] self.locations.contains_key((tz, b))
        &&& forall|tz: TimezoneId, b: PeriodBucket|
            tz < NUM_TIMEZONES ==> (#[trigger] self.locations[(tz, b)]).wf()
        &&& forall|tz: int, id: PollId|
            0 <= tz < NUM_TIMEZONES && #[trigger] self.polls[tz].contains_key(id) ==> id
                < self.next_poll_id && self.polls[tz][id].poll_id() == id
        &&& forall|tz: int| 0 <= tz < NUM_TIMEZONES ==> (#[trigger] self.polls[tz]).dom().finite()
        &&& forall|a: int, b: int, id: PollId|
            0 <= a < NUM_TIMEZONES && 0 <= b < NUM_TIMEZONES && #[trigger] self.polls[a].contains_key(
                id,
            ) && #[trigger] self.polls[b].contains_key(id) ==> a == b
        &&& forall|l: LocationId, c: Option<CategoryId>| #[trigger] self.pending.contains_key((l, c))
    }

    /// The cache when it was just made: the period identifiers all zero, nothing located,
    /// no poll, nothing pending.
    pub open spec fn empty() -> CacheView {
        CacheView {
            category_period_ids: CachePeriodIds::zero(),
            period_ids: Seq::new(NUM_TIMEZONES as nat, |tz: int| CachePeriodIds::zero()),
            rotating: Seq::new(NUM_TIMEZONES as nat, |tz: int| false),
            categories: Map::new(|b: PeriodBucket| true, |b: PeriodBucket| CategoryShard::empty()),
            locations: Map::new(
                |k: (TimezoneId, PeriodBucket)| k.0 < NUM_TIMEZONES,
                |k: (TimezoneId, PeriodBucket)| LocationShard::empty(),
            ),
            polls: Seq::new(NUM_TIMEZONES as nat, |tz: int| Map::empty()),
            next_poll_id: 0,
            pending: Map::new(
                |k: (LocationId, Option<CategoryId>)| true,
                |k: (LocationId, Option<CategoryId>)| Seq::empty(),
            ),
        }
    }

    /// Whether the rotation of a timezone from `before` to `after` leaves `bucket` stale:
    /// the bucket is to hold another period than it did.
    pub open spec fn is_stale(before: CachePeriodIds, after: CachePeriodIds, bucket: PeriodBucket)
        -> bool {
        before.spec_period_id(bucket) != after.spec_period_id(bucket)
    }

    /// The cache after `timezone` was rotated to `new_ids`: each of its buckets that is to
    /// hold another period is fresh and empty, the others are as they were; its poll
    /// records are gone if the month is another; the other timezones, the categories and
    /// the pending polls are as they were.
    pub open spec fn rotated(self, timezone: TimezoneId, new_ids: CachePeriodIds) -> CacheView {
        let before = self.period_ids[timezone as int];
        CacheView {
            period_ids: self.period_ids.update(timezone as int, new_ids),
            locations: Map::new(
                |k: (TimezoneId, PeriodBucket)| k.0 < NUM_TIMEZONES,
                |k: (TimezoneId, PeriodBucket)|
                    if k.0 == timezone && Self::is_stale(before, new_ids, k.1) {
                        LocationShard::empty()
                    } else {
                        self.locations[k]
                    },
            ),
            polls: if Self::is_stale(before, new_ids, PeriodBucket::ThisMonth) {
                self.polls.update(timezone as int, Map::empty())
            } else {
                self.polls
            },
            ..self
        }
    }

    /// The cache after the categories were rotated to `new_ids`: each category bucket that
    /// is to hold another period is fresh and empty, and all else is as it was.
    pub open spec fn rotated_categories(self, new_ids: CachePeriodIds) -> CacheView {
        CacheView {
            category_period_ids: new_ids,
            categories: Map::new(
                |b: PeriodBucket| true,
                |b: PeriodBucket|
                    if Self::is_stale(self.category_period_ids, new_ids, b) {
                        CategoryShard::empty()
                    } else {
                        self.categories[b]
                    },
            ),
            ..self
        }
    }
}

/// Locating a location leaves its bucket well-formed: the rows stay dense, and the new
/// row has its boards.
pub proof fn lemma_located_shard(shard: LocationShard, location: LocationId)
    requires
        shard.wf(),
    ensures
        shard.located(location).wf(),
        shard.located(location).rows == located(shard.rows, location),
        shard.located(location).columns == shard.columns,
{
    lemma_located_is_dense(shard.rows, location);
    let after = shard.located(location);
    if !(shard.rows.contains_key(location) || shard.rows.len() >= u32::MAX) {
        assert(after.rows.dom() =~= shard.rows.dom().insert(location));
        assert forall|l: LocationId| #[trigger]
            after.rows.contains_key(l) implies after.boards[after.rows[l] as int].categories.len()
            == after.columns[l].len() by {
            if l != location {
                assert(shard.rows.contains_key(l));
            }
        }
    }
}

/// Locating a category inside a location leaves the bucket well-formed: the location's
/// columns stay dense, and the new column has its board.
pub proof fn lemma_located_category_shard(
    shard: LocationShard,
    location: LocationId,
    category: CategoryId,
)
    requires
        shard.wf(),
    ensures
        shard.located_category(location, category).wf(),
{
    let after = shard.located_category(location, category);
    if shard.rows.contains_key(location) && !shard.columns[location].contains_key(category)
        && shard.columns[location].len() < u32::MAX {
        let cols = shard.columns[location];
        lemma_located_is_dense(cols, category);
        assert(located(cols, category).dom() =~= cols.dom().insert(category));
        let row = shard.rows[location] as int;
        assert(shard.boards[row].wf());
        assert forall|l: LocationId| #[trigger]
            after.rows.contains_key(l) implies after.boards[after.rows[l] as int].categories.len()
            == after.columns[l].len() by {
            if l != location {
                assert(shard.rows.contains_key(l));
                assert(shard.rows[l] != shard.rows[location]);
            }
        }
        assert forall|i: int| 0 <= i < after.boards.len() implies (#[trigger] after.boards[i]).wf(
        ) by {
            assert(shard.boards[i].wf());
        }
        assert forall|l: LocationId| is_dense(#[trigger] after.columns[l]) by {
            assert(is_dense(shard.columns[l]));
        }
        assert forall|l: LocationId| !after.rows.contains_key(l) implies #[trigger] after.columns[l]
            == Map::<u64, u32>::empty() by {
            assert(shard.columns[l] == Map::<u64, u32>::empty());
        }
    }
}

/// An update of a location's own board leaves the bucket well-formed: the board stays
/// ranked.
pub proof fn lemma_location_update_shard(shard: LocationShard, row: int, vc: VoteCount)
    requires
        shard.wf(),
        0 <= row < shard.boards.len(),
    ensures
        shard.with_location_update(row, vc).wf(),
{
    assert(shard.boards[row].wf());
    lemma_update_keeps_ranking(shard.boards[row].location, vc);
    let a = shard.with_location_update(row, vc);
    assert forall|i: int| 0 <= i < a.boards.len() implies (#[trigger] a.boards[i]).wf() by {
        assert(shard.boards[i].wf());
    }
    assert forall|l: LocationId| #[trigger]
        a.rows.contains_key(l) implies a.boards[a.rows[l] as int].categories.len()
        == a.columns[l].len() by {
        assert(shard.rows.contains_key(l));
    }
}

/// An update of the board of a category in a location leaves the bucket well-formed: the
/// board stays ranked.
pub proof fn lemma_category_update_shard(
    shard: LocationShard,
    row: int,
    column: int,
    vc: VoteCount,
)
    requires
        shard.wf(),
        0 <= row < shard.boards.len(),
        0 <= column < shard.boards[row].categories.len(),
    ensures
        shard.with_category_update(row, column, vc).wf(),
{
    assert(shard.boards[row].wf());
    lemma_update_keeps_ranking(shard.boards[row].categories[column], vc);
    let b = shard.with_category_update(row, column, vc);
    assert forall|i: int| 0 <= i < b.boards.len() implies (#[trigger] b.boards[i]).wf() by {
        assert(shard.boards[i].wf());
    }
    assert forall|l: LocationId| #[trigger]
        b.rows.contains_key(l) implies b.boards[b.rows[l] as int].categories.len()
        == b.columns[l].len() by {
        assert(shard.rows.contains_key(l));
    }
}

/// Emptying the boards of a row leaves the bucket well-formed: the row keeps its columns.
pub proof fn lemma_cleared_shard(shard: LocationShard, row: int)
    requires
        shard.wf(),
        0 <= row < shard.boards.len(),
    ensures
        shard.with_cleared(row).wf(),
{
    assert(shard.boards[row].wf());
    let c = shard.with_cleared(row);
    assert forall|i: int| 0 <= i < c.boards.len() implies (#[trigger] c.boards[i]).wf() by {
        assert(shard.boards[i].wf());
    }
    assert forall|l: LocationId| #[trigger]
        c.rows.contains_key(l) implies c.boards[c.rows[l] as int].categories.len()
        == c.columns[l].len() by {
        assert(shard.rows.contains_key(l));
    }
}

/// Locating a category leaves its bucket well-formed: the rows stay dense, and the new
/// row has its board.
pub proof fn lemma_located_category(shard: CategoryShard, category: CategoryId)
    requires
        shard.wf(),
    ensures
        shard.located(category).wf(),
{
    lemma_located_is_dense(shard.rows, category);
    if !(shard.rows.contains_key(category) || shard.rows.len() >= u32::MAX) {
        assert(shard.located(category).rows.dom() =~= shard.rows.dom().insert(category));
    }
}

/// A rotation leaves the cache well-formed, and every stale bucket of the timezone without
/// a single location: an index handed out before the rotation names nothing in the fresh
/// bucket, whose first location gets row 0 again.
pub proof fn lemma_rotation_starts_over(
    cache: CacheView,
    timezone: TimezoneId,
    new_ids: CachePeriodIds,
    bucket: PeriodBucket,
    location: LocationId,
)
    requires
        cache.wf(),
        timezone < NUM_TIMEZONES,
        CacheView::is_stale(cache.period_ids[timezone as int], new_ids, bucket),
    ensures
        cache.rotated(timezone, new_ids).wf(),
        cache.rotated(timezone, new_ids).locations[(timezone, bucket)] == LocationShard::empty(),
        !cache.rotated(timezone, new_ids).locations[(timezone, bucket)].rows.contains_key(location),
        index_in(cache.rotated(timezone, new_ids).locations[(timezone, bucket)].rows, location)
            == 0,
        cache.rotated(timezone, new_ids).locations[(timezone, bucket)].boards.len() == 0,
{
    let after = cache.rotated(timezone, new_ids);
    assert forall|tz: TimezoneId, b: PeriodBucket| tz < NUM_TIMEZONES implies (
    #[trigger] after.locations[(tz, b)]).wf() by {
        assert(cache.locations[(tz, b)].wf());
    }
    assert forall|tz: int, id: PollId|
        0 <= tz < NUM_TIMEZONES && #[trigger] after.polls[tz].contains_key(id) implies id
        < after.next_poll_id && after.polls[tz][id].poll_id() == id by {
        assert(cache.polls[tz].contains_key(id));
    }
    assert forall|a: int, b: int, id: PollId|
        0 <= a < NUM_TIMEZONES && 0 <= b < NUM_TIMEZONES && #[trigger] after.polls[a].contains_key(
            id,
        ) && #[trigger] after.polls[b].contains_key(id) implies a == b by {
        assert(cache.polls[a].contains_key(id) && cache.polls[b].contains_key(id));
    }
}

/// A rotation touches nothing of another timezone, and nothing of a bucket that keeps its
/// period.
pub proof fn lemma_rotation_is_local(
    cache: CacheView,
    timezone: TimezoneId,
    new_ids: CachePeriodIds,
    other: TimezoneId,
    bucket: PeriodBucket,
)
    requires
        cache.wf(),
        timezone < NUM_TIMEZONES,
        other < NUM_TIMEZONES,
        other != timezone || !CacheView::is_stale(
            cache.period_ids[timezone as int],
            new_ids,
            bucket,
        ),
    ensures
        cache.rotated(timezone, new_ids).locations[(other, bucket)] == cache.locations[(
            other,
            bucket,
        )],
        other != timezone ==> cache.rotated(timezone, new_ids).polls[other as int]
            == cache.polls[other as int],
        other != timezone ==> cache.rotated(timezone, new_ids).period_ids[other as int]
            == cache.period_ids[other as int],
{
}

} // verus!
