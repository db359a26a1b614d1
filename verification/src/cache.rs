//! The cache: the aggregate that owns the index maps, the ranking tables, the poll
//! store and the pending-poll lists, with the periods that are warm in each timezone.

use vstd::prelude::*;
use crate::cache_view::{
    lemma_category_update_shard,
    lemma_cleared_shard,
    lemma_located_category,
    lemma_located_category_shard,
    lemma_located_shard,
    lemma_location_update_shard,
    zone_of,
    CacheView,
    CategoryShard,
    LocationShard,
};
use crate::index_map::{index_in, CategoryIndexMap, LocationIndexMap};
use crate::leaderboard::{lemma_update_keeps_ranking, ranked_update, top_of};
use crate::pending::{pages_from, Cursor, PollsByLocation};
use crate::period::CachePeriodIds;
use crate::poll_store::{spec_vote, Polls};
use crate::polls::PollRecord;
use crate::rankings::{CategoryPollRankings, LocationsPollRankings};
use crate::types::{
    CacheError,
    CategoryCacheIndex,
    CategoryId,
    Direction,
    LocationCacheIndex,
    LocationCategoryCacheIndex,
    LocationId,
    PeriodBucket,
    PollId,
    PollKind,
    TimezoneId,
    NUM_TIMEZONES,
};
use crate::vote_count::{tag_of, VoteCount};

verus! {

/// The cache. Its fields are its own: what it holds is read through `view`.
pub struct Cache {
    category_cache_period_ids: CachePeriodIds,
    per_timezone_cache_period_ids: Vec<CachePeriodIds>,
    time_zone_modification_flags: Vec<bool>,
    category_index_map: CategoryIndexMap,
    category_poll_rankings: CategoryPollRankings,
    location_index_map: Vec<LocationIndexMap>,
    location_poll_rankings: Vec<LocationsPollRankings>,
    polls: Polls,
    polls_by_location: PollsByLocation,
}

spec fn location_shard(ids: LocationIndexMap, rankings: LocationsPollRankings, b: PeriodBucket)
    -> LocationShard {
    LocationShard {
        rows: ids.rows(b),
        columns: Map::new(|l: LocationId| true, |l: LocationId| ids.columns(b, l)),
        boards: rankings.rows(b),
    }
}

spec fn locations_view(ids: Seq<LocationIndexMap>, rankings: Seq<LocationsPollRankings>) -> Map<
    (TimezoneId, PeriodBucket),
    LocationShard,
> {
    Map::new(
        |k: (TimezoneId, PeriodBucket)| k.0 < NUM_TIMEZONES,
        |k: (TimezoneId, PeriodBucket)| location_shard(ids[k.0 as int], rankings[k.0 as int], k.1),
    )
}

spec fn categories_view(ids: CategoryIndexMap, rankings: CategoryPollRankings) -> Map<
    PeriodBucket,
    CategoryShard,
> {
    Map::new(
        |b: PeriodBucket| true,
        |b: PeriodBucket| CategoryShard { rows: ids.rows(b), boards: rankings.rows(b) },
    )
}

spec fn polls_view(polls: Polls) -> Seq<Map<PollId, PollRecord>> {
    Seq::new(NUM_TIMEZONES as nat, |tz: int| polls.zone(tz))
}

spec fn pending_view(pending: PollsByLocation) -> Map<(LocationId, Option<CategoryId>), Seq<PollId>> {
    Map::new(
        |k: (LocationId, Option<CategoryId>)| true,
        |k: (LocationId, Option<CategoryId>)| pending.list(k.0, k.1),
    )
}

impl View for Cache {
    type V = CacheView;

    closed spec fn view(&self) -> CacheView {
        CacheView {
            category_period_ids: self.category_cache_period_ids,
            period_ids: self.per_timezone_cache_period_ids@,
            rotating: self.time_zone_modification_flags@,
            categories: categories_view(self.category_index_map, self.category_poll_rankings),
            locations: locations_view(self.location_index_map@, self.location_poll_rankings@),
            polls: polls_view(self.polls),
            next_poll_id: self.polls.next_poll_id(),
            pending: pending_view(self.polls_by_location),
        }
    }
}

impl Cache {
    spec fn parts_wf(self) -> bool {
        &&& self.per_timezone_cache_period_ids@.len() == NUM_TIMEZONES
        &&& self.time_zone_modification_flags@.len() == NUM_TIMEZONES
        &&& self.location_index_map@.len() == NUM_TIMEZONES
        &&& self.location_poll_rankings@.len() == NUM_TIMEZONES
        &&& forall|tz: int|
            0 <= tz < NUM_TIMEZONES ==> (#[trigger] self.location_index_map@[tz]).wf()
        &&& forall|tz: int|
            0 <= tz < NUM_TIMEZONES ==> (#[trigger] self.location_poll_rankings@[tz]).wf()
        &&& self.category_index_map.wf()
        &&& self.category_poll_rankings.wf()
        &&& self.polls.wf()
        &&& self.polls_by_location.wf()
    }

    /// The cache is whole: each part is well-formed, and so is what they hold together.
    pub closed spec fn wf(self) -> bool {
        self.parts_wf() && self@.wf()
    }

    /// What `wf` says of the view.
    pub proof fn lemma_wf(self)
        requires
            self.wf(),
        ensures
            self@.wf(),
    {
    }

    proof fn lemma_locations_changed(
        self,
        before: Cache,
        timezone: TimezoneId,
        bucket: PeriodBucket,
        shard: LocationShard,
    )
        requires
            timezone < NUM_TIMEZONES,
            self.location_index_map@.len() == NUM_TIMEZONES,
            self.location_poll_rankings@.len() == NUM_TIMEZONES,
            before.location_index_map@.len() == NUM_TIMEZONES,
            before.location_poll_rankings@.len() == NUM_TIMEZONES,
            forall|tz: int|
                0 <= tz < NUM_TIMEZONES && tz != timezone ==> self.location_index_map@[tz]
                    == before.location_index_map@[tz] && self.location_poll_rankings@[tz]
                    == before.location_poll_rankings@[tz],
            forall|b: PeriodBucket|
                b != bucket ==> location_shard(
                    self.location_index_map@[timezone as int],
                    self.location_poll_rankings@[timezone as int],
                    b,
                ) == location_shard(
                    before.location_index_map@[timezone as int],
                    before.location_poll_rankings@[timezone as int],
                    b,
                ),
            location_shard(
                self.location_index_map@[timezone as int],
                self.location_poll_rankings@[timezone as int],
                bucket,
            ) == shard,
        ensures
            self@.locations == before@.locations.insert((timezone, bucket), shard),
    {
        assert(self@.locations =~= before@.locations.insert((timezone, bucket), shard));
    }

    /// A cache that holds nothing: every bucket empty, no poll, nothing pending, and the
    /// period identifiers all zero until the host's first rotation brings the true ones.
    pub fn new() -> (cache: Cache)
        ensures
            cache.wf(),
            cache@ == CacheView::empty(),
    {
        let mut ids: Vec<CachePeriodIds> = Vec::with_capacity(NUM_TIMEZONES as usize);
        let mut flags: Vec<bool> = Vec::with_capacity(NUM_TIMEZONES as usize);
        let mut maps: Vec<LocationIndexMap> = Vec::with_capacity(NUM_TIMEZONES as usize);
        let mut rankings: Vec<LocationsPollRankings> = Vec::with_capacity(NUM_TIMEZONES as usize);
        let mut tz: u8 = 0;
        while tz < NUM_TIMEZONES
            invariant
                tz <= NUM_TIMEZONES,
                ids@.len() == tz,
                flags@.len() == tz,
                maps@.len() == tz,
                rankings@.len() == tz,
                forall|i: int| 0 <= i < tz ==> #[trigger] ids@[i] == CachePeriodIds::zero(),
                forall|i: int| 0 <= i < tz ==> !(#[trigger] flags@[i]),
                forall|i: int| 0 <= i < tz ==> (#[trigger] maps@[i]).wf(),
                forall|i: int| 0 <= i < tz ==> (#[trigger] rankings@[i]).wf(),
                forall|i: int, b: PeriodBucket|
                    0 <= i < tz ==> #[trigger] location_shard(maps@[i], rankings@[i], b)
                        == LocationShard::empty(),
            decreases NUM_TIMEZONES - tz,
        {
            ids.push(CachePeriodIds::new());
            flags.push(false);
            let map = LocationIndexMap::new();
            let ranking = LocationsPollRankings::new();
            assert forall|b: PeriodBucket| #[trigger]
                location_shard(map, ranking, b) == LocationShard::empty() by {
                assert(map.rows(b) == Map::<u64, u32>::empty());
                assert(ranking.rows(b) == Seq::<crate::rankings::LocationBoards>::empty());
                assert(location_shard(map, ranking, b).columns =~= LocationShard::empty().columns);
            }
            maps.push(map);
            rankings.push(ranking);
            tz = tz + 1;
        }
        let cache = Cache {
            category_cache_period_ids: CachePeriodIds::new(),
            per_timezone_cache_period_ids: ids,
            time_zone_modification_flags: flags,
            category_index_map: CategoryIndexMap::new(),
            category_poll_rankings: CategoryPollRankings::new(),
            location_index_map: maps,
            location_poll_rankings: rankings,
            polls: Polls::new(),
            polls_by_location: PollsByLocation::new(),
        };
        proof {
            assert(cache@.period_ids =~= CacheView::empty().period_ids);
            assert(cache@.rotating =~= CacheView::empty().rotating);
            assert(cache@.categories =~= CacheView::empty().categories) by {
                assert forall|b: PeriodBucket| #[trigger]
                    cache@.categories[b] == CategoryShard::empty() by {
                    assert(cache.category_index_map.rows(b) == Map::<u64, u32>::empty());
                    assert(cache.category_poll_rankings.rows(b) == Seq::<Seq<VoteCount>>::empty());
                }
            }
            assert(cache@.locations =~= CacheView::empty().locations);
            assert(cache@.polls =~= CacheView::empty().polls);
            assert(cache@.pending =~= CacheView::empty().pending);
            assert(cache@ == CacheView::empty());
        }
        cache
    }

    /// The periods that are warm across timezones, for the category rankings.
    pub fn category_period_ids(&self) -> (ids: CachePeriodIds)
        ensures
            ids == self@.category_period_ids,
    {
        self.category_cache_period_ids
    }

    /// The periods that are warm in `timezone`. `UnknownTimezone` where no timezone has
    /// that number.
    pub fn period_ids(&self, timezone: TimezoneId) -> (ids: Result<CachePeriodIds, CacheError>)
        requires
            self.wf(),
        ensures
            match ids {
                Ok(p) => timezone < NUM_TIMEZONES && p == self@.period_ids[timezone as int],
                Err(e) => e == CacheError::UnknownTimezone && timezone >= NUM_TIMEZONES,
            },
    {
        if timezone >= NUM_TIMEZONES {
            return Err(CacheError::UnknownTimezone);
        }
        Ok(self.per_timezone_cache_period_ids[timezone as usize])
    }

    /// Whether the buckets of `timezone` are being rotated. Between two calls none is: the
    /// flag is up only while `rotate` runs, so a reader never meets a bucket half rotated.
    /// `UnknownTimezone` where no timezone has that number.
    pub fn is_rotating(&self, timezone: TimezoneId) -> (rotating: Result<bool, CacheError>)
        requires
            self.wf(),
        ensures
            match rotating {
                Ok(r) => timezone < NUM_TIMEZONES && r == self@.rotating[timezone as int] && !r,
                Err(e) => e == CacheError::UnknownTimezone && timezone >= NUM_TIMEZONES,
            },
    {
        if timezone >= NUM_TIMEZONES {
            return Err(CacheError::UnknownTimezone);
        }
        Ok(self.time_zone_modification_flags[timezone as usize])
    }

    /// The row of `location` in period `bucket` of `timezone`. `UnknownTimezone` where no
    /// timezone has that number, `UnknownLocation` where the location has no row there.
    pub fn lookup_location(&self, timezone: TimezoneId, bucket: PeriodBucket, location: LocationId)
        -> (row: Result<LocationCacheIndex, CacheError>)
        requires
            self.wf(),
        ensures
            match row {
                Ok(i) => timezone < NUM_TIMEZONES && self@.locations[(
                    timezone,
                    bucket,
                )].rows.contains_key(location) && i == self@.locations[(
                    timezone,
                    bucket,
                )].rows[location],
                Err(e) => if timezone >= NUM_TIMEZONES {
                    e == CacheError::UnknownTimezone
                } else {
                    e == CacheError::UnknownLocation && !self@.locations[(
                        timezone,
                        bucket,
                    )].rows.contains_key(location)
                },
            },
    {
        if timezone >= NUM_TIMEZONES {
            return Err(CacheError::UnknownTimezone);
        }
        self.location_index_map[timezone as usize].lookup(bucket, location)
    }

    /// The column of `category` inside the row of `location` in period `bucket` of
    /// `timezone`. `UnknownTimezone` where no timezone has that number, `UnknownLocation`
    /// where the location has no row there, `UnknownCategory` where the category has no
    /// column in it.
    pub fn lookup_location_category(
        &self,
        timezone: TimezoneId,
        bucket: PeriodBucket,
        location: LocationId,
        category: CategoryId,
    ) -> (column: Result<LocationCategoryCacheIndex, CacheError>)
        requires
            self.wf(),
        ensures
            match column {
                Ok(i) => {
                    let shard = self@.locations[(timezone, bucket)];
                    timezone < NUM_TIMEZONES && shard.rows.contains_key(location)
                        && shard.columns[location].contains_key(category)
                        && i == shard.columns[location][category]
                },
                Err(e) => if timezone >= NUM_TIMEZONES {
                    e == CacheError::UnknownTimezone
                } else if !self@.locations[(timezone, bucket)].rows.contains_key(location) {
                    e == CacheError::UnknownLocation
                } else {
                    e == CacheError::UnknownCategory && !self@.locations[(
                        timezone,
                        bucket,
                    )].columns[location].contains_key(category)
                },
            },
    {
        if timezone >= NUM_TIMEZONES {
            return Err(CacheError::UnknownTimezone);
        }
        self.location_index_map[timezone as usize].lookup_category(bucket, location, category)
    }

    /// The row of `location` in period `bucket` of `timezone`. On first reference within
    /// the bucket the location is given the next unused row, and that row gets its boards,
    /// empty; ever after, while the bucket lives, the location has that same row.
    ///
    /// `UnknownTimezone` where no timezone has that number; `Exhausted` where the location
    /// has no row and a `u32` cannot number one more. On an error nothing changes.
    pub fn locate_location(
        &mut self,
        timezone: TimezoneId,
        bucket: PeriodBucket,
        location: LocationId,
    ) -> (row: Result<LocationCacheIndex, CacheError>)
        requires
            old(self).wf(),
        ensures
            final(self).wf(),
            match row {
                Ok(i) => {
                    let shard = old(self)@.locations[(timezone, bucket)];
                    &&& timezone < NUM_TIMEZONES
                    &&& i == index_in(shard.rows, location)
                    &&& final(self)@ == (CacheView {
                        locations: old(self)@.locations.insert(
                            (timezone, bucket),
                            shard.located(location),
                        ),
                        ..old(self)@
                    })
                    &&& final(self)@.locations[(timezone, bucket)].rows.contains_key(location)
                    &&& final(self)@.locations[(timezone, bucket)].rows[location] == i
                },
                Err(e) => {
                    &&& final(self)@ == old(self)@
                    &&& if timezone >= NUM_TIMEZONES {
                        e == CacheError::UnknownTimezone
                    } else {
                        let shard = old(self)@.locations[(timezone, bucket)];
                        e == CacheError::Exhausted && !shard.rows.contains_key(location)
                            && shard.rows.len() >= u32::MAX
                    }
                },
            },
    {
        if timezone >= NUM_TIMEZONES {
            return Err(CacheError::UnknownTimezone);
        }
        let tz: usize = timezone as usize;
        let ghost shard = self@.locations[(timezone, bucket)];
        proof {
            assert(shard.wf());
            lemma_located_shard(shard, location);
        }
        if let Ok(i) = self.location_index_map[tz].lookup(bucket, location) {
            proof {
                assert(old(self)@.locations.insert((timezone, bucket), shard.located(location))
                    =~= old(self)@.locations);
            }
            return Ok(i);
        }
        if self.location_index_map[tz].len(bucket) >= 0xffff_ffff {
            return Err(CacheError::Exhausted);
        }
        let row = self.location_index_map[tz].locate(bucket, location);
        let reserved = self.location_poll_rankings[tz].reserve_row(bucket);
        proof {
            assert(row is Ok);
            assert(reserved is Ok);
            let after = location_shard(
                self.location_index_map@[tz as int],
                self.location_poll_rankings@[tz as int],
                bucket,
            );
            assert(after.columns =~= shard.columns);
            assert(after == shard.located(location));
            assert forall|b: PeriodBucket| b != bucket implies location_shard(
                self.location_index_map@[tz as int],
                self.location_poll_rankings@[tz as int],
                b,
            ) == location_shard(
                old(self).location_index_map@[tz as int],
                old(self).location_poll_rankings@[tz as int],
                b,
            ) by {
                assert(self.location_index_map@[tz as int].bucket(b) == old(self).location_index_map@[tz as int].bucket(b));
            }
            self.lemma_locations_changed(*old(self), timezone, bucket, after);
            assert(self@ == (CacheView {
                locations: old(self)@.locations.insert((timezone, bucket), shard.located(location)),
                ..old(self)@
            }));
            assert forall|t: TimezoneId, b: PeriodBucket| t < NUM_TIMEZONES implies (
            #[trigger] self@.locations[(t, b)]).wf() by {
                if t != timezone || b != bucket {
                    assert(old(self)@.locations[(t, b)].wf());
                }
            }
        }
        row
    }

    /// The column of `category` inside the row of `location` in period `bucket` of
    /// `timezone`. On first reference the category is given the next unused column of that
    /// row, and the column gets its board, empty; ever after, while the bucket lives, the
    /// category has that same column there.
    ///
    /// `UnknownTimezone` where no timezone has that number; `UnknownLocation` where the
    /// location has no row in the bucket; `Exhausted` where the category has no column and
    /// a `u32` cannot number one more. On an error nothing changes.
    pub fn locate_location_category(
        &mut self,
        timezone: TimezoneId,
        bucket: PeriodBucket,
        location: LocationId,
        category: CategoryId,
    ) -> (column: Result<LocationCategoryCacheIndex, CacheError>)
        requires
            old(self).wf(),
        ensures
            final(self).wf(),
            match column {
                Ok(i) => {
                    let shard = old(self)@.locations[(timezone, bucket)];
                    &&& timezone < NUM_TIMEZONES
                    &&& shard.rows.contains_key(location)
                    &&& i == index_in(shard.columns[location], category)
                    &&& final(self)@ == (CacheView {
                        locations: old(self)@.locations.insert(
                            (timezone, bucket),
                            shard.located_category(location, category),
                        ),
                        ..old(self)@
                    })
                    &&& final(self)@.locations[(timezone, bucket)].columns[location].contains_key(
                        category,
                    )
                    &&& final(self)@.locations[(timezone, bucket)].columns[location][category] == i
                },
                Err(e) => {
                    &&& final(self)@ == old(self)@
                    &&& if timezone >= NUM_TIMEZONES {
                        e == CacheError::UnknownTimezone
                    } else {
                        let shard = old(self)@.locations[(timezone, bucket)];
                        if !shard.rows.contains_key(location) {
                            e == CacheError::UnknownLocation
                        } else {
                            e == CacheError::Exhausted && !shard.columns[location].contains_key(
                                category,
                            ) && shard.columns[location].len() >= u32::MAX
                        }
                    }
                },
            },
    {
        if timezone >= NUM_TIMEZONES {
            return Err(CacheError::UnknownTimezone);
        }
        let tz: usize = timezone as usize;
        let ghost shard = self@.locations[(timezone, bucket)];
        proof {
            assert(shard.wf());
            lemma_located_category_shard(shard, location, category);
        }
        let row = match self.location_index_map[tz].lookup(bucket, location) {
            Ok(row) => row,
            Err(e) => {
                return Err(e);
            },
        };
        match self.location_index_map[tz].lookup_category(bucket, location, category) {
            Ok(i) => {
                proof {
                    assert(old(self)@.locations.insert(
                        (timezone, bucket),
                        shard.located_category(location, category),
                    ) =~= old(self)@.locations);
                }
                return Ok(i);
            },
            Err(_) => {},
        }
        let column = self.location_index_map[tz].locate_category(bucket, location, category);
        proof {
            assert forall|b: PeriodBucket| b != bucket implies location_shard(
                self.location_index_map@[tz as int],
                self.location_poll_rankings@[tz as int],
                b,
            ) == location_shard(
                old(self).location_index_map@[tz as int],
                old(self).location_poll_rankings@[tz as int],
                b,
            ) by {
                assert(self.location_index_map@[tz as int].bucket(b) == old(self).location_index_map@[tz as int].bucket(b));
            }
        }
        if column.is_err() {
            proof {
                let same = location_shard(
                    self.location_index_map@[tz as int],
                    self.location_poll_rankings@[tz as int],
                    bucket,
                );
                assert(same.columns =~= shard.columns);
                self.lemma_locations_changed(*old(self), timezone, bucket, same);
                assert(old(self)@.locations.insert((timezone, bucket), shard) =~= old(self)@.locations);
            }
            return column;
        }
        let reserved = self.location_poll_rankings[tz].reserve_column(bucket, row);
        proof {
            assert(reserved is Ok);
            let after = location_shard(
                self.location_index_map@[tz as int],
                self.location_poll_rankings@[tz as int],
                bucket,
            );
            assert(after.columns =~= shard.located_category(location, category).columns);
            assert(after == shard.located_category(location, category));
            assert forall|b: PeriodBucket| b != bucket implies location_shard(
                self.location_index_map@[tz as int],
                self.location_poll_rankings@[tz as int],
                b,
            ) == location_shard(
                old(self).location_index_map@[tz as int],
                old(self).location_poll_rankings@[tz as int],
                b,
            ) by {
                assert(self.location_index_map@[tz as int].bucket(b) == old(self).location_index_map@[tz as int].bucket(b));
            }
            self.lemma_locations_changed(*old(self), timezone, bucket, after);
            assert(self@ == (CacheView {
                locations: old(self)@.locations.insert(
                    (timezone, bucket),
                    shard.located_category(location, category),
                ),
                ..old(self)@
            }));
            assert forall|t: TimezoneId, b: PeriodBucket| t < NUM_TIMEZONES implies (
            #[trigger] self@.locations[(t, b)]).wf() by {
                if t != timezone || b != bucket {
                    assert(old(self)@.locations[(t, b)].wf());
                }
            }
        }
        column
    }

    proof fn lemma_rankings_changed(
        self,
        before: Cache,
        timezone: TimezoneId,
        bucket: PeriodBucket,
        shard: LocationShard,
    )
        requires
            before.wf(),
            timezone < NUM_TIMEZONES,
            self.location_index_map == before.location_index_map,
            self.location_poll_rankings@.len() == NUM_TIMEZONES,
            forall|tz: int|
                0 <= tz < NUM_TIMEZONES && tz != timezone ==> self.location_poll_rankings@[tz]
                    == before.location_poll_rankings@[tz],
            forall|b: PeriodBucket|
                b != bucket ==> self.location_poll_rankings@[timezone as int].rows(b)
                    == before.location_poll_rankings@[timezone as int].rows(b),
            shard == (LocationShard {
                boards: self.location_poll_rankings@[timezone as int].rows(bucket),
                ..before@.locations[(timezone, bucket)]
            }),
            shard.wf(),
            self.category_cache_period_ids == before.category_cache_period_ids,
            self.per_timezone_cache_period_ids == before.per_timezone_cache_period_ids,
            self.time_zone_modification_flags == before.time_zone_modification_flags,
            self.category_index_map == before.category_index_map,
            self.category_poll_rankings == before.category_poll_rankings,
            self.polls == before.polls,
            self.polls_by_location == before.polls_by_location,
        ensures
            self@ == (CacheView {
                locations: before@.locations.insert((timezone, bucket), shard),
                ..before@
            }),
            self@.wf(),
    {
        let after = location_shard(
            self.location_index_map@[timezone as int],
            self.location_poll_rankings@[timezone as int],
            bucket,
        );
        assert(after.columns =~= shard.columns);
        assert(after == shard);
        self.lemma_locations_changed(before, timezone, bucket, after);
        assert forall|t: TimezoneId, b: PeriodBucket| t < NUM_TIMEZONES implies (
        #[trigger] self@.locations[(t, b)]).wf() by {
            if t != timezone || b != bucket {
                assert(before@.locations[(t, b)].wf());
            }
        }
    }

    /// Re-positions the poll of `vc` on the own board of the location in row `row` of
    /// period `bucket` of `timezone`, so that the board stays ranked: counts never rise
    /// along it, and equal counts stand by rising poll identifier.
    ///
    /// `UnknownTimezone` where no timezone has that number, `UnknownLocation` where the
    /// bucket has no such row. On an error nothing changes.
    pub fn update_location_ranking(
        &mut self,
        timezone: TimezoneId,
        bucket: PeriodBucket,
        row: LocationCacheIndex,
        vc: VoteCount,
    ) -> (done: Result<(), CacheError>)
        requires
            old(self).wf(),
        ensures
            final(self).wf(),
            match done {
                Ok(_) => {
                    let shard = old(self)@.locations[(timezone, bucket)];
                    &&& timezone < NUM_TIMEZONES
                    &&& row < shard.boards.len()
                    &&& final(self)@ == (CacheView {
                        locations: old(self)@.locations.insert(
                            (timezone, bucket),
                            shard.with_location_update(row as int, vc),
                        ),
                        ..old(self)@
                    })
                },
                Err(e) => {
                    &&& final(self)@ == old(self)@
                    &&& if timezone >= NUM_TIMEZONES {
                        e == CacheError::UnknownTimezone
                    } else {
                        e == CacheError::UnknownLocation && row >= old(self)@.locations[(
                            timezone,
                            bucket,
                        )].boards.len()
                    }
                },
            },
    {
        if timezone >= NUM_TIMEZONES {
            return Err(CacheError::UnknownTimezone);
        }
        let tz: usize = timezone as usize;
        let ghost shard = self@.locations[(timezone, bucket)];
        if self.location_poll_rankings[tz].num_rows(bucket) <= row as usize {
            return Err(CacheError::UnknownLocation);
        }
        let done = self.location_poll_rankings[tz].update_location(bucket, row, vc);
        proof {
            assert(shard.wf());
            lemma_location_update_shard(shard, row as int, vc);
            self.lemma_rankings_changed(
                *old(self),
                timezone,
                bucket,
                shard.with_location_update(row as int, vc),
            );
        }
        done
    }

    /// Re-positions the poll of `vc` on the board of column `column` of the location in
    /// row `row` of period `bucket` of `timezone`, so that the board stays ranked.
    ///
    /// `UnknownTimezone` where no timezone has that number, `UnknownLocation` where the
    /// bucket has no such row, `UnknownCategory` where the row has no such column. On an
    /// error nothing changes.
    pub fn update_location_category_ranking(
        &mut self,
        timezone: TimezoneId,
        bucket: PeriodBucket,
        row: LocationCacheIndex,
        column: LocationCategoryCacheIndex,
        vc: VoteCount,
    ) -> (done: Result<(), CacheError>)
        requires
            old(self).wf(),
        ensures
            final(self).wf(),
            match done {
                Ok(_) => {
                    let shard = old(self)@.locations[(timezone, bucket)];
                    &&& timezone < NUM_TIMEZONES
                    &&& row < shard.boards.len()
                    &&& column < shard.boards[row as int].categories.len()
                    &&& final(self)@ == (CacheView {
                        locations: old(self)@.locations.insert(
                            (timezone, bucket),
                            shard.with_category_update(row as int, column as int, vc),
                        ),
                        ..old(self)@
                    })
                },
                Err(e) => {
                    &&& final(self)@ == old(self)@
                    &&& if timezone >= NUM_TIMEZONES {
                        e == CacheError::UnknownTimezone
                    } else {
                        let shard = old(self)@.locations[(timezone, bucket)];
                        if row >= shard.boards.len() {
                            e == CacheError::UnknownLocation
                        } else {
                            e == CacheError::UnknownCategory && column
                                >= shard.boards[row as int].categories.len()
                        }
                    }
                },
            },
    {
        if timezone >= NUM_TIMEZONES {
            return Err(CacheError::UnknownTimezone);
        }
        let tz: usize = timezone as usize;
        let ghost shard = self@.locations[(timezone, bucket)];
        let done = self.location_poll_rankings[tz].update_category(bucket, row, column, vc);
        proof {
            assert(shard.wf());
            if done is Ok {
                lemma_category_update_shard(shard, row as int, column as int, vc);
                self.lemma_rankings_changed(
                    *old(self),
                    timezone,
                    bucket,
                    shard.with_category_update(row as int, column as int, vc),
                );
            } else {
                self.lemma_rankings_changed(*old(self), timezone, bucket, shard);
                assert(old(self)@.locations.insert((timezone, bucket), shard) =~= old(self)@.locations);
            }
        }
        done
    }

    /// Empties the boards of the location in row `row` of period `bucket` of `timezone`;
    /// the row and its columns stay.
    ///
    /// `UnknownTimezone` where no timezone has that number, `UnknownLocation` where the
    /// bucket has no such row. On an error nothing changes.
    pub fn clear_location_rankings(
        &mut self,
        timezone: TimezoneId,
        bucket: PeriodBucket,
        row: LocationCacheIndex,
    ) -> (done: Result<(), CacheError>)
        requires
            old(self).wf(),
        ensures
            final(self).wf(),
            match done {
                Ok(_) => {
                    let shard = old(self)@.locations[(timezone, bucket)];
                    &&& timezone < NUM_TIMEZONES
                    &&& row < shard.boards.len()
                    &&& final(self)@ == (CacheView {
                        locations: old(self)@.locations.insert(
                            (timezone, bucket),
                            shard.with_cleared(row as int),
                        ),
                        ..old(self)@
                    })
                },
                Err(e) => {
                    &&& final(self)@ == old(self)@
                    &&& if timezone >= NUM_TIMEZONES {
                        e == CacheError::UnknownTimezone
                    } else {
                        e == CacheError::UnknownLocation && row >= old(self)@.locations[(
                            timezone,
                            bucket,
                        )].boards.len()
                    }
                },
            },
    {
        if timezone >= NUM_TIMEZONES {
            return Err(CacheError::UnknownTimezone);
        }
        let tz: usize = timezone as usize;
        let ghost shard = self@.locations[(timezone, bucket)];
        if self.location_poll_rankings[tz].num_rows(bucket) <= row as usize {
            return Err(CacheError::UnknownLocation);
        }
        let done = self.location_poll_rankings[tz].clear(bucket, row);
        proof {
            assert(shard.wf());
            lemma_cleared_shard(shard, row as int);
            self.lemma_rankings_changed(*old(self), timezone, bucket, shard.with_cleared(row as int));
        }
        done
    }

    /// The first `n` entries of the own board of the location in row `row` of period
    /// `bucket` of `timezone`, in ranking order; all of the board where it has fewer.
    ///
    /// `UnknownTimezone` where no timezone has that number, `UnknownLocation` where the
    /// bucket has no such row.
    pub fn top_n_location(
        &self,
        timezone: TimezoneId,
        bucket: PeriodBucket,
        row: LocationCacheIndex,
        n: usize,
    ) -> (top: Result<Vec<VoteCount>, CacheError>)
        requires
            self.wf(),
        ensures
            match top {
                Ok(t) => {
                    let shard = self@.locations[(timezone, bucket)];
                    timezone < NUM_TIMEZONES && row < shard.boards.len() && t@ == top_of(
                        shard.boards[row as int].location,
                        n as nat,
                    )
                },
                Err(e) => if timezone >= NUM_TIMEZONES {
                    e == CacheError::UnknownTimezone
                } else {
                    e == CacheError::UnknownLocation && row >= self@.locations[(
                        timezone,
                        bucket,
                    )].boards.len()
                },
            },
    {
        if timezone >= NUM_TIMEZONES {
            return Err(CacheError::UnknownTimezone);
        }
        self.location_poll_rankings[timezone as usize].top_n_location(bucket, row, n)
    }

    /// The first `n` entries of the board of column `column` of the location in row `row`
    /// of period `bucket` of `timezone`, in ranking order.
    ///
    /// `UnknownTimezone` where no timezone has that number, `UnknownLocation` where the
    /// bucket has no such row, `UnknownCategory` where the row has no such column.
    pub fn top_n_location_category(
        &self,
        timezone: TimezoneId,
        bucket: PeriodBucket,
        row: LocationCacheIndex,
        column: LocationCategoryCacheIndex,
        n: usize,
    ) -> (top: Result<Vec<VoteCount>, CacheError>)
        requires
            self.wf(),
        ensures
            match top {
                Ok(t) => {
                    let shard = self@.locations[(timezone, bucket)];
                    timezone < NUM_TIMEZONES && row < shard.boards.len() && column
                        < shard.boards[row as int].categories.len() && t@ == top_of(
                        shard.boards[row as int].categories[column as int],
                        n as nat,
                    )
                },
                Err(e) => if timezone >= NUM_TIMEZONES {
                    e == CacheError::UnknownTimezone
                } else {
                    let shard = self@.locations[(timezone, bucket)];
                    if row >= shard.boards.len() {
                        e == CacheError::UnknownLocation
                    } else {
                        e == CacheError::UnknownCategory && column
                            >= shard.boards[row as int].categories.len()
                    }
                },
            },
    {
        if timezone >= NUM_TIMEZONES {
            return Err(CacheError::UnknownTimezone);
        }
        self.location_poll_rankings[timezone as usize].top_n_category(bucket, row, column, n)
    }

    proof fn lemma_categories_changed(self, before: Cache, bucket: PeriodBucket, shard: CategoryShard)
        requires
            before.wf(),
            self.parts_wf(),
            forall|b: PeriodBucket|
                b != bucket ==> self.category_index_map.rows(b) == before.category_index_map.rows(b)
                    && self.category_poll_rankings.rows(b) == before.category_poll_rankings.rows(b),
            shard == (CategoryShard {
                rows: self.category_index_map.rows(bucket),
                boards: self.category_poll_rankings.rows(bucket),
            }),
            shard.wf(),
            self.category_cache_period_ids == before.category_cache_period_ids,
            self.per_timezone_cache_period_ids == before.per_timezone_cache_period_ids,
            self.time_zone_modification_flags == before.time_zone_modification_flags,
            self.location_index_map == before.location_index_map,
            self.location_poll_rankings == before.location_poll_rankings,
            self.polls == before.polls,
            self.polls_by_location == before.polls_by_location,
        ensures
            self@ == (CacheView { categories: before@.categories.insert(bucket, shard), ..before@ }),
            self.wf(),
    {
        assert(self@.categories =~= before@.categories.insert(bucket, shard));
        assert forall|b: PeriodBucket| (#[trigger] self@.categories[b]).wf() by {
            if b != bucket {
                assert(before@.categories[b].wf());
            }
        }
    }

    /// The row of `category` in period `bucket`, across timezones. `UnknownCategory` where
    /// the category has no row there.
    pub fn lookup_category(&self, bucket: PeriodBucket, category: CategoryId) -> (row: Result<
        CategoryCacheIndex,
        CacheError,
    >)
        requires
            self.wf(),
        ensures
            match row {
                Ok(i) => self@.categories[bucket].rows.contains_key(category)
                    && i == self@.categories[bucket].rows[category],
                Err(e) => e == CacheError::UnknownCategory
                    && !self@.categories[bucket].rows.contains_key(category),
            },
    {
        self.category_index_map.lookup(bucket, category)
    }

    /// The row of `category` in period `bucket`, across timezones. On first reference
    /// within the bucket the category is given the next unused row, and that row gets its
    /// board, empty; ever after, while the bucket lives, the category has that same row.
    ///
    /// `Exhausted`, and no change, where the category has no row and a `u32` cannot number
    /// one more.
    pub fn locate_category(&mut self, bucket: PeriodBucket, category: CategoryId) -> (row: Result<
        CategoryCacheIndex,
        CacheError,
    >)
        requires
            old(self).wf(),
        ensures
            final(self).wf(),
            match row {
                Ok(i) => {
                    let shard = old(self)@.categories[bucket];
                    &&& i == index_in(shard.rows, category)
                    &&& final(self)@ == (CacheView {
                        categories: old(self)@.categories.insert(bucket, shard.located(category)),
                        ..old(self)@
                    })
                    &&& final(self)@.categories[bucket].rows.contains_key(category)
                    &&& final(self)@.categories[bucket].rows[category] == i
                },
                Err(e) => {
                    let shard = old(self)@.categories[bucket];
                    &&& final(self)@ == old(self)@
                    &&& e == CacheError::Exhausted
                    &&& !shard.rows.contains_key(category)
                    &&& shard.rows.len() >= u32::MAX
                },
            },
    {
        let ghost shard = self@.categories[bucket];
        proof {
            assert(shard.wf());
            lemma_located_category(shard, category);
        }
        if let Ok(i) = self.category_index_map.lookup(bucket, category) {
            proof {
                assert(old(self)@.categories.insert(bucket, shard.located(category)) =~= old(self)@.categories);
            }
            return Ok(i);
        }
        if self.category_index_map.len(bucket) >= 0xffff_ffff {
            return Err(CacheError::Exhausted);
        }
        let row = self.category_index_map.locate(bucket, category);
        let reserved = self.category_poll_rankings.reserve_row(bucket);
        proof {
            assert(row is Ok);
            assert(reserved is Ok);
            self.lemma_categories_changed(*old(self), bucket, shard.located(category));
        }
        row
    }

    /// Re-positions the poll of `vc` on the board of the category in row `row` of period
    /// `bucket`, so that the board stays ranked: counts never rise along it, and equal
    /// counts stand by rising poll identifier.
    ///
    /// `UnknownCategory`, and no change, where the bucket has no such row.
    pub fn update_category_ranking(
        &mut self,
        bucket: PeriodBucket,
        row: CategoryCacheIndex,
        vc: VoteCount,
    ) -> (done: Result<(), CacheError>)
        requires
            old(self).wf(),
        ensures
            final(self).wf(),
            match done {
                Ok(_) => {
                    let shard = old(self)@.categories[bucket];
                    &&& row < shard.boards.len()
                    &&& final(self)@ == (CacheView {
                        categories: old(self)@.categories.insert(
                            bucket,
                            CategoryShard {
                                boards: shard.boards.update(
                                    row as int,
                                    ranked_update(shard.boards[row as int], vc),
                                ),
                                ..shard
                            },
                        ),
                        ..old(self)@
                    })
                },
                Err(e) => {
                    &&& final(self)@ == old(self)@
                    &&& e == CacheError::UnknownCategory
                    &&& row >= old(self)@.categories[bucket].boards.len()
                },
            },
    {
        let ghost shard = self@.categories[bucket];
        proof {
            assert(shard.wf());
        }
        if self.category_poll_rankings.num_rows(bucket) <= row as usize {
            return Err(CacheError::UnknownCategory);
        }
        let done = self.category_poll_rankings.update(bucket, row, vc);
        proof {
            lemma_update_keeps_ranking(shard.boards[row as int], vc);
            self.lemma_categories_changed(
                *old(self),
                bucket,
                CategoryShard {
                    boards: shard.boards.update(
                        row as int,
                        ranked_update(shard.boards[row as int], vc),
                    ),
                    ..shard
                },
            );
        }
        done
    }

    /// Empties the board of the category in row `row` of period `bucket`; the row stays.
    /// `UnknownCategory`, and no change, where the bucket has no such row.
    pub fn clear_category_ranking(&mut self, bucket: PeriodBucket, row: CategoryCacheIndex) -> (done:
        Result<(), CacheError>)
        requires
            old(self).wf(),
        ensures
            final(self).wf(),
            match done {
                Ok(_) => {
                    let shard = old(self)@.categories[bucket];
                    &&& row < shard.boards.len()
                    &&& final(self)@ == (CacheView {
                        categories: old(self)@.categories.insert(
                            bucket,
                            CategoryShard {
                                boards: shard.boards.update(row as int, Seq::empty()),
                                ..shard
                            },
                        ),
                        ..old(self)@
                    })
                },
                Err(e) => {
                    &&& final(self)@ == old(self)@
                    &&& e == CacheError::UnknownCategory
                    &&& row >= old(self)@.categories[bucket].boards.len()
                },
            },
    {
        let ghost shard = self@.categories[bucket];
        proof {
            assert(shard.wf());
        }
        if self.category_poll_rankings.num_rows(bucket) <= row as usize {
            return Err(CacheError::UnknownCategory);
        }
        let done = self.category_poll_rankings.clear(bucket, row);
        proof {
            self.lemma_categories_changed(
                *old(self),
                bucket,
                CategoryShard { boards: shard.boards.update(row as int, Seq::empty()), ..shard },
            );
        }
        done
    }

    /// The first `n` entries of the board of the category in row `row` of period `bucket`,
    /// in ranking order; all of the board where it has fewer. `UnknownCategory` where the
    /// bucket has no such row.
    pub fn top_n_category(&self, bucket: PeriodBucket, row: CategoryCacheIndex, n: usize) -> (top:
        Result<Vec<VoteCount>, CacheError>)
        requires
            self.wf(),
        ensures
            match top {
                Ok(t) => row < self@.categories[bucket].boards.len() && t@ == top_of(
                    self@.categories[bucket].boards[row as int],
                    n as nat,
                ),
                Err(e) => e == CacheError::UnknownCategory
                    && row >= self@.categories[bucket].boards.len(),
            },
    {
        self.category_poll_rankings.top_n(bucket, row, n)
    }

    proof fn lemma_polls_changed(self, before: Cache)
        requires
            before.wf(),
            self.polls.wf(),
            self.category_cache_period_ids == before.category_cache_period_ids,
            self.per_timezone_cache_period_ids == before.per_timezone_cache_period_ids,
            self.time_zone_modification_flags == before.time_zone_modification_flags,
            self.category_index_map == before.category_index_map,
            self.category_poll_rankings == before.category_poll_rankings,
            self.location_index_map == before.location_index_map,
            self.location_poll_rankings == before.location_poll_rankings,
            self.polls_by_location == before.polls_by_location,
        ensures
            self@ == (CacheView {
                polls: polls_view(self.polls),
                next_poll_id: self.polls.next_poll_id(),
                ..before@
            }),
            self.wf(),
    {
        self.polls.lemma_wf();
        assert forall|tz: int, id: PollId|
            0 <= tz < NUM_TIMEZONES && #[trigger] self@.polls[tz].contains_key(id) implies id
            < self@.next_poll_id && self@.polls[tz][id].poll_id() == id by {
            assert(self.polls.zone(tz).contains_key(id));
        }
        assert forall|a: int, b: int, id: PollId|
            0 <= a < NUM_TIMEZONES && 0 <= b < NUM_TIMEZONES
                && #[trigger] self@.polls[a].contains_key(id)
                && #[trigger] self@.polls[b].contains_key(id) implies a == b by {
            assert(self.polls.zone(a).contains_key(id) && self.polls.zone(b).contains_key(id));
        }
        assert(before@.wf());
        assert(self@.locations == before@.locations);
        assert(self@.categories == before@.categories);
        assert(self@.pending == before@.pending);
        assert(self@.wf());
    }

    /// Creates a poll of kind `kind` in `timezone`: the poll gets the next identifier and
    /// the next dense slot of the timezone, with a record without votes, tagged with the
    /// timezone and the kind.
    ///
    /// `UnknownTimezone` where no timezone has that number; `Exhausted` where the
    /// identifiers have run out or a `u32` cannot number one more poll of the timezone. On an error nothing changes.
    pub fn create_poll(&mut self, kind: PollKind, timezone: TimezoneId) -> (created: Result<
        PollId,
        CacheError,
    >)
        requires
            old(self).wf(),
        ensures
            final(self).wf(),
            match created {
                Ok(id) => {
                    &&& timezone < NUM_TIMEZONES
                    &&& id == old(self)@.next_poll_id
                    &&& id < u64::MAX
                    &&& final(self)@ == (CacheView {
                        polls: old(self)@.polls.update(
                            timezone as int,
                            old(self)@.polls[timezone as int].insert(
                                id,
                                PollRecord::fresh(
                                    kind,
                                    VoteCount {
                                        poll_type_and_tz: tag_of(
                                            timezone as nat,
                                            kind.dimensions(),
                                        ) as u8,
                                        poll_id: id,
                                        count: 0,
                                    },
                                ),
                            ),
                        ),
                        next_poll_id: (id + 1) as u64,
                        ..old(self)@
                    })
                },
                Err(e) => {
                    &&& final(self)@ == old(self)@
                    &&& if timezone >= NUM_TIMEZONES {
                        e == CacheError::UnknownTimezone
                    } else {
                        e == CacheError::Exhausted && (old(self)@.next_poll_id == u64::MAX || old(self)@.polls[timezone as int].len() >= u32::MAX)
                    }
                },
            },
    {
        let created = self.polls.create(kind, timezone);
        proof {
            self.lemma_polls_changed(*old(self));
            if created is Ok {
                assert(self@.polls =~= old(self)@.polls.update(
                    timezone as int,
                    old(self)@.polls[timezone as int].insert(
                        created->Ok_0,
                        PollRecord::fresh(
                            kind,
                            VoteCount {
                                poll_type_and_tz: tag_of(timezone as nat, kind.dimensions()) as u8,
                                poll_id: created->Ok_0,
                                count: 0,
                            },
                        ),
                    ),
                ));
            }
        }
        created
    }

    /// Records a vote of `amount` in direction `d` of poll `poll_id` of `timezone`: the
    /// direction's sum grows by `amount`, its wrap counter by one exactly when the sum
    /// wraps past `u32::MAX`, and the poll's vote count by one.
    ///
    /// `UnknownTimezone` where no timezone has that number; `UnknownPoll` where the
    /// timezone has no record of the poll, be it that it never had or that a rotation
    /// took it; `UnknownDirection` where the poll has fewer dimensions; `Exhausted` where
    /// the direction's total would reach 2^40. On an error nothing changes.
    pub fn record_vote_in(
        &mut self,
        timezone: TimezoneId,
        poll_id: PollId,
        d: Direction,
        amount: u32,
    ) -> (done: Result<(), CacheError>)
        requires
            old(self).wf(),
        ensures
            final(self).wf(),
            timezone >= NUM_TIMEZONES ==> done == Err::<(), CacheError>(
                CacheError::UnknownTimezone,
            ) && final(self)@ == old(self)@,
            timezone < NUM_TIMEZONES ==> match spec_vote(
                old(self)@.polls[timezone as int],
                poll_id,
                d,
                amount,
            ) {
                Ok(polls) => done is Ok && final(self)@ == (CacheView {
                    polls: old(self)@.polls.update(timezone as int, polls),
                    ..old(self)@
                }),
                Err(e) => done == Err::<(), CacheError>(e) && final(self)@ == old(self)@,
            },
    {
        let done = self.polls.record_vote(timezone, poll_id, d, amount);
        proof {
            self.lemma_polls_changed(*old(self));
            if timezone < NUM_TIMEZONES {
                match spec_vote(old(self)@.polls[timezone as int], poll_id, d, amount) {
                    Ok(polls) => {
                        assert(self@.polls =~= old(self)@.polls.update(timezone as int, polls));
                    },
                    Err(_) => {
                        assert(self@.polls =~= old(self)@.polls);
                    },
                }
            } else {
                assert(self@.polls =~= old(self)@.polls);
            }
        }
        done
    }

    /// A snapshot of the record of poll `poll_id` of `timezone`: its sums, wrap counters
    /// and vote count.
    ///
    /// `UnknownTimezone` where no timezone has that number; `UnknownPoll` where the
    /// timezone has no record of the poll, be it that it never had or that a rotation
    /// took it.
    pub fn read_poll_in(&self, timezone: TimezoneId, poll_id: PollId) -> (record: Result<
        PollRecord,
        CacheError,
    >)
        requires
            self.wf(),
        ensures
            match record {
                Ok(r) => timezone < NUM_TIMEZONES && self@.polls[timezone as int].contains_key(
                    poll_id,
                ) && r == self@.polls[timezone as int][poll_id] && r.poll_id() == poll_id,
                Err(e) => if timezone >= NUM_TIMEZONES {
                    e == CacheError::UnknownTimezone
                } else {
                    e == CacheError::UnknownPoll && !self@.polls[timezone as int].contains_key(
                        poll_id,
                    )
                },
            },
    {
        self.polls.read(timezone, poll_id)
    }

    /// Records a vote of `amount` in direction `d` of poll `poll_id`, in whichever
    /// timezone has the poll on record: the direction's sum grows by `amount`, its wrap
    /// counter by one exactly when the sum wraps past `u32::MAX`, and the poll's vote count
    /// by one.
    ///
    /// `UnknownPoll` where no timezone has a record of the poll, be it that none ever had
    /// or that a rotation took it; `UnknownDirection` where the poll has fewer dimensions;
    /// `Exhausted` where the direction's total would reach 2^40. On an error nothing
    /// changes.
    pub fn record_vote(&mut self, poll_id: PollId, d: Direction, amount: u32) -> (done: Result<
        (),
        CacheError,
    >)
        requires
            old(self).wf(),
        ensures
            final(self).wf(),
            match zone_of(old(self)@.polls, poll_id) {
                None => done == Err::<(), CacheError>(CacheError::UnknownPoll) && final(self)@
                    == old(self)@,
                Some(tz) => match old(self)@.polls[tz][poll_id].after_vote(d, amount) {
                    Ok(record) => done is Ok && final(self)@ == (CacheView {
                        polls: old(self)@.polls.update(
                            tz,
                            old(self)@.polls[tz].insert(poll_id, record),
                        ),
                        ..old(self)@
                    }),
                    Err(e) => done == Err::<(), CacheError>(e) && final(self)@ == old(self)@,
                },
            },
    {
        match self.polls.find(poll_id) {
            None => {
                assert(zone_of(self@.polls, poll_id) is None) by {
                    assert forall|tz: int| 0 <= tz < self@.polls.len() implies !(
                    #[trigger] self@.polls[tz]).contains_key(poll_id) by {
                        assert(!self.polls.zone(tz).contains_key(poll_id));
                    }
                }
                Err(CacheError::UnknownPoll)
            },
            Some(timezone) => {
                assert(zone_of(self@.polls, poll_id) == Some(timezone as int)) by {
                    assert(self@.polls[timezone as int].contains_key(poll_id));
                }
                self.record_vote_in(timezone, poll_id, d, amount)
            },
        }
    }

    /// A snapshot of the record of poll `poll_id`, from whichever timezone has the poll on
    /// record: its sums, wrap counters and vote count. `UnknownPoll` where no timezone has
    /// a record of the poll, be it that none ever had or that a rotation took it.
    pub fn read_poll(&self, poll_id: PollId) -> (record: Result<PollRecord, CacheError>)
        requires
            self.wf(),
        ensures
            match zone_of(self@.polls, poll_id) {
                None => record == Err::<PollRecord, CacheError>(CacheError::UnknownPoll),
                Some(tz) => record == Ok::<PollRecord, CacheError>(self@.polls[tz][poll_id])
                    && self@.polls[tz][poll_id].poll_id() == poll_id,
            },
    {
        match self.polls.find(poll_id) {
            None => {
                assert(zone_of(self@.polls, poll_id) is None) by {
                    assert forall|tz: int| 0 <= tz < self@.polls.len() implies !(
                    #[trigger] self@.polls[tz]).contains_key(poll_id) by {
                        assert(!self.polls.zone(tz).contains_key(poll_id));
                    }
                }
                Err(CacheError::UnknownPoll)
            },
            Some(timezone) => {
                assert(zone_of(self@.polls, poll_id) == Some(timezone as int)) by {
                    assert(self@.polls[timezone as int].contains_key(poll_id));
                }
                self.read_poll_in(timezone, poll_id)
            },
        }
    }

    /// Puts `poll_id` at the end of the pending polls of `location`, or with `Some`
    /// category of the pending polls of that category in the location: on the open page,
    /// which is sealed, with the byte width of its largest identifier, and followed by a
    /// new page when that fills it.
    pub fn append_pending(
        &mut self,
        location: LocationId,
        category: Option<CategoryId>,
        poll_id: PollId,
    )
        requires
            old(self).wf(),
        ensures
            final(self).wf(),
            final(self)@ == (CacheView {
                pending: old(self)@.pending.insert(
                    (location, category),
                    old(self)@.pending[(location, category)].push(poll_id),
                ),
                ..old(self)@
            }),
    {
        self.polls_by_location.append(location, category, poll_id);
        proof {
            assert(self@.pending =~= old(self)@.pending.insert(
                (location, category),
                old(self)@.pending[(location, category)].push(poll_id),
            ));
        }
    }

    /// What a reader of the pending polls of `location` (or of `category` in it) who stands
    /// at `cursor` has not seen: the rest of the cursor's page, then every later page, in
    /// the order of creation. Nothing where the cursor does not point into the list.
    pub fn pages_since(&self, location: LocationId, category: Option<CategoryId>, cursor: Cursor)
        -> (fresh: Vec<Vec<PollId>>)
        requires
            self.wf(),
        ensures
            fresh@.len() == pages_from(self@.pending[(location, category)], cursor).len(),
            forall|i: int|
                0 <= i < fresh@.len() ==> (#[trigger] fresh@[i])@ == pages_from(
                    self@.pending[(location, category)],
                    cursor,
                )[i],
    {
        self.polls_by_location.pages_since(location, category, cursor)
    }

    /// The place after the last pending poll of `location` (or of `category` in it): the
    /// cursor of a reader who has seen all.
    pub fn pending_end(&self, location: LocationId, category: Option<CategoryId>) -> (cursor:
        Cursor)
        requires
            self.wf(),
        ensures
            cursor.is_in(self@.pending[(location, category)]),
            cursor.position() == self@.pending[(location, category)].len(),
    {
        self.polls_by_location.end(location, category)
    }

    /// Rotates `timezone` to the periods `new_ids`. This is the one way in which a
    /// timezone's buckets change their period.
    ///
    /// The timezone's flag goes up; each bucket of the timezone that is to hold another
    /// period than it did is swapped for a fresh, empty one, in the index maps and in the
    /// ranking tables alike; where the month is another, the timezone's poll records are
    /// discarded; the timezone takes `new_ids`; the flag goes down. The caller holds the
    /// cache exclusively all the while, so that nobody meets a bucket half swapped. The
    /// buckets that keep their period, the other timezones, the categories and the pending
    /// polls stay as they are.
    ///
    /// `UnknownTimezone`, and no change, where no timezone has that number.
    pub fn rotate(&mut self, timezone: TimezoneId, new_ids: CachePeriodIds) -> (done: Result<
        (),
        CacheError,
    >)
        requires
            old(self).wf(),
        ensures
            final(self).wf(),
            match done {
                Ok(_) => timezone < NUM_TIMEZONES && final(self)@ == old(self)@.rotated(
                    timezone,
                    new_ids,
                ),
                Err(e) => e == CacheError::UnknownTimezone && timezone >= NUM_TIMEZONES && final(self)@ == old(self)@,
            },
    {
        if timezone >= NUM_TIMEZONES {
            return Err(CacheError::UnknownTimezone);
        }
        let tz: usize = timezone as usize;
        let before: CachePeriodIds = self.per_timezone_cache_period_ids[tz];
        self.time_zone_modification_flags[tz] = true;
        refresh_bucket(
            &mut self.location_index_map[tz],
            &mut self.location_poll_rankings[tz],
            PeriodBucket::LastMonth,
            before.last_month != new_ids.last_month,
        );
        refresh_bucket(
            &mut self.location_index_map[tz],
            &mut self.location_poll_rankings[tz],
            PeriodBucket::ThisMonth,
            before.this_month != new_ids.this_month,
        );
        refresh_bucket(
            &mut self.location_index_map[tz],
            &mut self.location_poll_rankings[tz],
            PeriodBucket::LastWeek,
            before.last_week != new_ids.last_week,
        );
        refresh_bucket(
            &mut self.location_index_map[tz],
            &mut self.location_poll_rankings[tz],
            PeriodBucket::ThisWeek,
            before.this_week != new_ids.this_week,
        );
        refresh_bucket(
            &mut self.location_index_map[tz],
            &mut self.location_poll_rankings[tz],
            PeriodBucket::DayBeforeYesterday,
            before.day_before_yesterday != new_ids.day_before_yesterday,
        );
        refresh_bucket(
            &mut self.location_index_map[tz],
            &mut self.location_poll_rankings[tz],
            PeriodBucket::Yesterday,
            before.yesterday != new_ids.yesterday,
        );
        refresh_bucket(
            &mut self.location_index_map[tz],
            &mut self.location_poll_rankings[tz],
            PeriodBucket::Today,
            before.today != new_ids.today,
        );
        if before.this_month != new_ids.this_month {
            let evicted = self.polls.evict(timezone);
            assert(evicted is Ok);
        }
        self.per_timezone_cache_period_ids[tz] = new_ids;
        self.time_zone_modification_flags[tz] = false;
        proof {
            let expected = old(self)@.rotated(timezone, new_ids);
            assert(self@.rotating =~= expected.rotating);
            assert(self@.period_ids =~= expected.period_ids);
            assert(self@.polls =~= expected.polls);
            assert forall|k: (TimezoneId, PeriodBucket)| k.0 < NUM_TIMEZONES implies #[trigger]
                self@.locations[k] == expected.locations[k] by {
                if k.0 == timezone {
                    match k.1 {
                        PeriodBucket::LastMonth => {},
                        PeriodBucket::ThisMonth => {},
                        PeriodBucket::LastWeek => {},
                        PeriodBucket::ThisWeek => {},
                        PeriodBucket::DayBeforeYesterday => {},
                        PeriodBucket::Yesterday => {},
                        PeriodBucket::Today => {},
                    }
                }
            }
            assert(self@.locations =~= expected.locations);
            assert(self@ == expected);
            self.polls.lemma_wf();
            assert forall|t: int, id: PollId|
                0 <= t < NUM_TIMEZONES && #[trigger] self@.polls[t].contains_key(id) implies id
                < self@.next_poll_id && self@.polls[t][id].poll_id() == id by {
                assert(self.polls.zone(t).contains_key(id));
            }
            assert forall|a: int, b: int, id: PollId|
                0 <= a < NUM_TIMEZONES && 0 <= b < NUM_TIMEZONES
                    && #[trigger] self@.polls[a].contains_key(id)
                    && #[trigger] self@.polls[b].contains_key(id) implies a == b by {
                assert(self.polls.zone(a).contains_key(id) && self.polls.zone(b).contains_key(id));
            }
            assert forall|t: TimezoneId, b: PeriodBucket| t < NUM_TIMEZONES implies (
            #[trigger] self@.locations[(t, b)]).wf() by {
                assert(old(self)@.locations[(t, b)].wf());
            }
        }
        Ok(())
    }

    /// Rotates the categories, which all timezones share, to the periods `new_ids`: each
    /// category bucket that is to hold another period than it did is swapped for a fresh,
    /// empty one, in the index map and in the ranking table alike, and the cache takes
    /// `new_ids` for its categories. All else stays as it is.
    pub fn rotate_categories(&mut self, new_ids: CachePeriodIds)
        requires
            old(self).wf(),
        ensures
            final(self).wf(),
            final(self)@ == old(self)@.rotated_categories(new_ids),
    {
        let before: CachePeriodIds = self.category_cache_period_ids;
        refresh_category_bucket(
            &mut self.category_index_map,
            &mut self.category_poll_rankings,
            PeriodBucket::LastMonth,
            before.last_month != new_ids.last_month,
        );
        refresh_category_bucket(
            &mut self.category_index_map,
            &mut self.category_poll_rankings,
            PeriodBucket::ThisMonth,
            before.this_month != new_ids.this_month,
        );
        refresh_category_bucket(
            &mut self.category_index_map,
            &mut self.category_poll_rankings,
            PeriodBucket::LastWeek,
            before.last_week != new_ids.last_week,
        );
        refresh_category_bucket(
            &mut self.category_index_map,
            &mut self.category_poll_rankings,
            PeriodBucket::ThisWeek,
            before.this_week != new_ids.this_week,
        );
        refresh_category_bucket(
            &mut self.category_index_map,
            &mut self.category_poll_rankings,
            PeriodBucket::DayBeforeYesterday,
            before.day_before_yesterday != new_ids.day_before_yesterday,
        );
        refresh_category_bucket(
            &mut self.category_index_map,
            &mut self.category_poll_rankings,
            PeriodBucket::Yesterday,
            before.yesterday != new_ids.yesterday,
        );
        refresh_category_bucket(
            &mut self.category_index_map,
            &mut self.category_poll_rankings,
            PeriodBucket::Today,
            before.today != new_ids.today,
        );
        self.category_cache_period_ids = new_ids;
        proof {
            let expected = old(self)@.rotated_categories(new_ids);
            assert forall|b: PeriodBucket| #[trigger]
                self@.categories[b] == expected.categories[b] by {
                match b {
                    PeriodBucket::LastMonth => {},
                    PeriodBucket::ThisMonth => {},
                    PeriodBucket::LastWeek => {},
                    PeriodBucket::ThisWeek => {},
                    PeriodBucket::DayBeforeYesterday => {},
                    PeriodBucket::Yesterday => {},
                    PeriodBucket::Today => {},
                }
            }
            assert(self@.categories =~= expected.categories);
            assert(self@ == expected);
            assert forall|b: PeriodBucket| (#[trigger] self@.categories[b]).wf() by {
                assert(old(self)@.categories[b].wf());
            }
        }
    }
}

/// Swaps `bucket` for a fresh, empty one where it is stale, in the index map and in the
/// ranking table alike.
fn refresh_bucket(
    ids: &mut LocationIndexMap,
    rankings: &mut LocationsPollRankings,
    bucket: PeriodBucket,
    stale: bool,
)
    requires
        old(ids).wf(),
        old(rankings).wf(),
    ensures
        final(ids).wf(),
        final(rankings).wf(),
        forall|b: PeriodBucket|
            b != bucket ==> #[trigger] location_shard(*final(ids), *final(rankings), b)
                == location_shard(*old(ids), *old(rankings), b),
        location_shard(*final(ids), *final(rankings), bucket) == if stale {
            LocationShard::empty()
        } else {
            location_shard(*old(ids), *old(rankings), bucket)
        },
{
    if stale {
        ids.forget(bucket);
        rankings.forget(bucket);
        assert(location_shard(*ids, *rankings, bucket).columns =~= LocationShard::empty().columns);
    }
}

/// Swaps `bucket` of the categories for a fresh, empty one where it is stale.
fn refresh_category_bucket(
    ids: &mut CategoryIndexMap,
    rankings: &mut CategoryPollRankings,
    bucket: PeriodBucket,
    stale: bool,
)
    requires
        old(ids).wf(),
        old(rankings).wf(),
    ensures
        final(ids).wf(),
        final(rankings).wf(),
        forall|b: PeriodBucket|
            b != bucket ==> #[trigger] final(ids).rows(b) == old(ids).rows(b),
        forall|b: PeriodBucket|
            b != bucket ==> #[trigger] final(rankings).rows(b) == old(rankings).rows(b),
        stale ==> final(ids).rows(bucket) == Map::<u64, u32>::empty() && final(rankings).rows(
            bucket,
        ) == Seq::<Seq<VoteCount>>::empty(),
        !stale ==> final(ids).rows(bucket) == old(ids).rows(bucket) && final(rankings).rows(bucket)
            == old(rankings).rows(bucket),
{
    if stale {
        ids.forget(bucket);
        rankings.forget(bucket);
    }
}

} // verus!
