//! Period index maps: from the global identifier of a location or a category to its dense
//! index inside one period bucket.

use std::collections::HashMap;
use vstd::prelude::*;
use crate::types::{
    CacheError,
    CategoryCacheIndex,
    CategoryId,
    LocationCacheIndex,
    LocationCategoryCacheIndex,
    LocationId,
    PeriodBucket,
    NUM_PERIOD_BUCKETS,
};

verus! {

broadcast use vstd::std_specs::hash::group_hash_axioms;

/// The indices of `m` are dense: each identifier has one of the numbers from 0 up to the
/// number of identifiers, and no two have the same.
pub open spec fn is_dense(m: Map<u64, u32>) -> bool {
    &&& m.dom().finite()
    &&& forall|id: u64| #[trigger] m.contains_key(id) ==> m[id] < m.len()
    &&& forall|a: u64, b: u64|
        #[trigger] m.contains_key(a) && #[trigger] m.contains_key(b) && m[a] == m[b] ==> a == b
}

/// The index that `locate` returns for `id`: the one it has, or else the next one unused.
pub open spec fn index_in(m: Map<u64, u32>, id: u64) -> nat {
    if m.contains_key(id) {
        m[id] as nat
    } else {
        m.len()
    }
}

/// The map after `locate` of `id`: unchanged where `id` has an index or none is left to
/// give, else with the next unused index for `id`.
pub open spec fn located(m: Map<u64, u32>, id: u64) -> Map<u64, u32> {
    if m.contains_key(id) || m.len() >= u32::MAX {
        m
    } else {
        m.insert(id, m.len() as u32)
    }
}

/// The map after each of `ids` was located in turn.
pub open spec fn located_all(m: Map<u64, u32>, ids: Seq<u64>) -> Map<u64, u32>
    decreases ids.len(),
{
    if ids.len() == 0 {
        m
    } else {
        located(located_all(m, ids.drop_last()), ids.last())
    }
}

/// Locating keeps the indices dense, and keeps every index that was given.
pub proof fn lemma_located_is_dense(m: Map<u64, u32>, id: u64)
    requires
        is_dense(m),
    ensures
        is_dense(located(m, id)),
        forall|other: u64| m.contains_key(other) ==> located(m, id).contains_key(other) && located(
            m,
            id,
        )[other] == m[other],
        m.contains_key(id) || m.len() < u32::MAX ==> located(m, id).contains_key(id) && located(
            m,
            id,
        )[id] == index_in(m, id),
{
    if !m.contains_key(id) && m.len() < u32::MAX {
        let after = located(m, id);
        assert(after.dom() =~= m.dom().insert(id));
        assert(after.len() == m.len() + 1);
    }
}

/// Within one bucket an identifier keeps its index: once `id` was located, whatever is
/// located after it, locating `id` again gives the index that it was given first.
pub proof fn lemma_locate_is_stable(m: Map<u64, u32>, id: u64, later: Seq<u64>)
    requires
        is_dense(m),
        m.contains_key(id) || m.len() < u32::MAX,
    ensures
        is_dense(located_all(located(m, id), later)),
        located_all(located(m, id), later).contains_key(id),
        index_in(located_all(located(m, id), later), id) == index_in(m, id),
    decreases later.len(),
{
    lemma_located_is_dense(m, id);
    if later.len() > 0 {
        lemma_locate_is_stable(m, id, later.drop_last());
        lemma_located_is_dense(located_all(located(m, id), later.drop_last()), later.last());
    }
}

/// A fresh bucket knows no identifier: whatever index an identifier had in the bucket
/// that was forgotten, the first one located in the fresh bucket gets index 0.
pub proof fn lemma_fresh_bucket_starts_over(id: u64)
    ensures
        is_dense(Map::<u64, u32>::empty()),
        !Map::<u64, u32>::empty().contains_key(id),
        index_in(Map::<u64, u32>::empty(), id) == 0,
{
}

/// The dense indices of one period bucket.
pub struct IndexBucket {
    index_of: HashMap<u64, u32>,
}

impl View for IndexBucket {
    type V = Map<u64, u32>;

    closed spec fn view(&self) -> Map<u64, u32> {
        self.index_of@
    }
}

impl IndexBucket {
    /// The indices are dense.
    pub open spec fn wf(self) -> bool {
        is_dense(self@)
    }

    /// A bucket that knows no identifier, with room for `capacity` of them.
    pub fn new(capacity: usize) -> (bucket: IndexBucket)
        ensures
            bucket@ == Map::<u64, u32>::empty(),
            bucket.wf(),
    {
        IndexBucket { index_of: HashMap::with_capacity(capacity) }
    }

    /// How many identifiers have an index.
    pub fn len(&self) -> (n: usize)
        requires
            self.wf(),
        ensures
            n == self@.len(),
    {
        self.index_of.len()
    }

    /// The index of `id`, if it has one.
    pub fn lookup(&self, id: u64) -> (index: Option<u32>)
        ensures
            match index {
                Some(i) => self@.contains_key(id) && i == self@[id],
                None => !self@.contains_key(id),
            },
    {
        match self.index_of.get(&id) {
            Some(i) => Some(*i),
            None => None,
        }
    }

    /// The index of `id`; on first reference it is given the next unused one.
    /// `None`, and no change, where `id` has none and a `u32` cannot number one more.
    pub fn locate(&mut self, id: u64) -> (index: Option<u32>)
        requires
            old(self).wf(),
        ensures
            final(self).wf(),
            final(self)@ == located(old(self)@, id),
            match index {
                Some(i) => i == index_in(old(self)@, id) && final(self)@.contains_key(id) && final(self)@[id] == i,
                None => !old(self)@.contains_key(id) && old(self)@.len() >= u32::MAX,
            },
    {
        proof {
            lemma_located_is_dense(self@, id);
        }
        match self.index_of.get(&id) {
            Some(i) => Some(*i),
            None => {
                let n: usize = self.index_of.len();
                if n >= 0xffff_ffff {
                    None
                } else {
                    self.index_of.insert(id, n as u32);
                    Some(n as u32)
                }
            },
        }
    }

    /// Discards every index at once.
    pub fn forget(&mut self)
        ensures
            final(self)@ == Map::<u64, u32>::empty(),
            final(self).wf(),
    {
        self.index_of.clear();
    }
}

/// What one period bucket knows of one location: the location's row, and the columns of
/// the categories inside that row.
pub struct LocationPeriodIds {
    /// The column of each category of the location.
    pub location_category_cache_index_map: IndexBucket,
    /// The row of the location.
    pub location_cache_index: LocationCacheIndex,
}

impl LocationPeriodIds {
    /// The columns are dense.
    pub open spec fn wf(self) -> bool {
        self.location_category_cache_index_map.wf()
    }

    /// The entry of a location with row `location_index` and no category yet, with room
    /// for `num_categories`.
    pub fn new(location_index: LocationCacheIndex, num_categories: usize) -> (ids:
        LocationPeriodIds)
        ensures
            ids.location_cache_index == location_index,
            ids.location_category_cache_index_map@ == Map::<u64, u32>::empty(),
            ids.wf(),
    {
        LocationPeriodIds {
            location_cache_index: location_index,
            location_category_cache_index_map: IndexBucket::new(num_categories),
        }
    }
}

/// The locations of one period bucket.
pub struct LocationBucket {
    ids: HashMap<LocationId, LocationPeriodIds>,
}

impl LocationBucket {
    /// The row of each location of the bucket.
    pub closed spec fn rows(self) -> Map<LocationId, LocationCacheIndex> {
        Map::new(
            |id: LocationId| self.ids@.contains_key(id),
            |id: LocationId| self.ids@[id].location_cache_index,
        )
    }

    /// The column of each category of `location`; empty where the bucket does not know
    /// the location.
    pub closed spec fn columns(self, location: LocationId) -> Map<
        CategoryId,
        LocationCategoryCacheIndex,
    > {
        if self.ids@.contains_key(location) {
            self.ids@[location].location_category_cache_index_map@
        } else {
            Map::empty()
        }
    }

    /// Rows are dense, and so are the columns of each location.
    pub closed spec fn wf(self) -> bool {
        &&& is_dense(self.rows())
        &&& forall|id: LocationId| #[trigger] self.ids@.contains_key(id) ==> self.ids@[id].wf()
    }

    /// What `wf` says, over `rows` and `columns`.
    pub proof fn lemma_wf(self)
        requires
            self.wf(),
        ensures
            is_dense(self.rows()),
            forall|location: LocationId| is_dense(#[trigger] self.columns(location)),
            forall|location: LocationId|
                !self.rows().contains_key(location) ==> #[trigger] self.columns(location)
                    == Map::<u64, u32>::empty(),
    {
        assert forall|location: LocationId| is_dense(#[trigger] self.columns(location)) by {
            if self.ids@.contains_key(location) {
                assert(self.ids@[location].wf());
            }
        }
    }

    /// A bucket that knows no location, with room for `capacity` of them.
    pub fn new(capacity: usize) -> (bucket: LocationBucket)
        ensures
            bucket.wf(),
            bucket.rows() == Map::<u64, u32>::empty(),
            forall|location: LocationId| #[trigger]
                bucket.columns(location) == Map::<u64, u32>::empty(),
    {
        let bucket = LocationBucket { ids: HashMap::with_capacity(capacity) };
        assert(bucket.rows() =~= Map::<u64, u32>::empty());
        bucket
    }

    /// How many locations have a row.
    pub fn len(&self) -> (n: usize)
        requires
            self.wf(),
        ensures
            n == self.rows().len(),
    {
        assert(self.rows().dom() =~= self.ids@.dom());
        self.ids.len()
    }

    /// The row of `location`. `UnknownLocation` where it has none.
    pub fn lookup(&self, location: LocationId) -> (row: Result<LocationCacheIndex, CacheError>)
        ensures
            match row {
                Ok(i) => self.rows().contains_key(location) && i == self.rows()[location],
                Err(e) => e == CacheError::UnknownLocation && !self.rows().contains_key(location),
            },
    {
        match self.ids.get(&location) {
            Some(ids) => Ok(ids.location_cache_index),
            None => Err(CacheError::UnknownLocation),
        }
    }

    /// The column of `category` inside the row of `location`. `UnknownLocation` where the
    /// location has no row, `UnknownCategory` where the category has no column in it.
    pub fn lookup_category(&self, location: LocationId, category: CategoryId) -> (column: Result<
        LocationCategoryCacheIndex,
        CacheError,
    >)
        ensures
            match column {
                Ok(i) => self.rows().contains_key(location) && self.columns(location).contains_key(
                    category,
                ) && i == self.columns(location)[category],
                Err(e) => if !self.rows().contains_key(location) {
                    e == CacheError::UnknownLocation
                } else {
                    e == CacheError::UnknownCategory && !self.columns(location).contains_key(
                        category,
                    )
                },
            },
    {
        match self.ids.get(&location) {
            Some(ids) => match ids.location_category_cache_index_map.lookup(category) {
                Some(i) => Ok(i),
                None => Err(CacheError::UnknownCategory),
            },
            None => Err(CacheError::UnknownLocation),
        }
    }

    /// The row of `location`; on first reference it is given the next unused one, with
    /// room for `num_categories` columns. `Exhausted`, and no change, where the location
    /// has no row and a `u32` cannot number one more.
    pub fn locate(&mut self, location: LocationId, num_categories: usize) -> (row: Result<
        LocationCacheIndex,
        CacheError,
    >)
        requires
            old(self).wf(),
        ensures
            final(self).wf(),
            final(self).rows() == located(old(self).rows(), location),
            forall|other: LocationId| #[trigger]
                final(self).columns(other) == old(self).columns(other),
            match row {
                Ok(i) => i == index_in(old(self).rows(), location) && final(self).rows().contains_key(location) && final(self).rows()[location] == i,
                Err(e) => e == CacheError::Exhausted && !old(self).rows().contains_key(location)
                    && old(self).rows().len() >= u32::MAX,
            },
    {
        proof {
            lemma_located_is_dense(self.rows(), location);
            assert(self.rows().dom() =~= self.ids@.dom());
        }
        match self.ids.get(&location) {
            Some(ids) => Ok(ids.location_cache_index),
            None => {
                let n: usize = self.ids.len();
                if n >= 0xffff_ffff {
                    Err(CacheError::Exhausted)
                } else {
                    self.ids.insert(location, LocationPeriodIds::new(n as u32, num_categories));
                    assert(self.rows() =~= located(old(self).rows(), location));
                    assert forall|other: LocationId| #[trigger]
                        self.columns(other) == old(self).columns(other) by {
                        assert(self.columns(other) =~= old(self).columns(other));
                    }
                    Ok(n as u32)
                }
            },
        }
    }

    /// The column of `category` inside the row of `location`; on first reference it is
    /// given the next unused one of that row. `UnknownLocation` where the location has no
    /// row; `Exhausted` where the category has no column and a `u32` cannot number one
    /// more. On an error nothing changes.
    pub fn locate_category(&mut self, location: LocationId, category: CategoryId) -> (column:
        Result<LocationCategoryCacheIndex, CacheError>)
        requires
            old(self).wf(),
        ensures
            final(self).wf(),
            final(self).rows() == old(self).rows(),
            forall|other: LocationId|
                other != location ==> #[trigger] final(self).columns(other) == old(self).columns(
                    other,
                ),
            match column {
                Ok(i) => {
                    &&& old(self).rows().contains_key(location)
                    &&& i == index_in(old(self).columns(location), category)
                    &&& final(self).columns(location) == located(
                        old(self).columns(location),
                        category,
                    )
                    &&& final(self).columns(location).contains_key(category)
                    &&& final(self).columns(location)[category] == i
                },
                Err(e) => {
                    &&& final(self).columns(location) == old(self).columns(location)
                    &&& if !old(self).rows().contains_key(location) {
                        e == CacheError::UnknownLocation
                    } else {
                        e == CacheError::Exhausted && !old(self).columns(location).contains_key(
                            category,
                        ) && old(self).columns(location).len() >= u32::MAX
                    }
                },
            },
    {
        match self.ids.remove(&location) {
            None => {
                assert(self.ids@ =~= old(self).ids@);
                Err(CacheError::UnknownLocation)
            },
            Some(mut ids) => {
                assert(ids.wf());
                let column = ids.location_category_cache_index_map.locate(category);
                self.ids.insert(location, ids);
                proof {
                    assert(self.rows() =~= old(self).rows());
                    assert forall|other: LocationId| other != location implies #[trigger]
                        self.columns(other) == old(self).columns(other) by {
                        assert(self.columns(other) =~= old(self).columns(other));
                    }
                    assert forall|id: LocationId| #[trigger]
                        self.ids@.contains_key(id) implies self.ids@[id].wf() by {
                        if id != location {
                            assert(old(self).ids@.contains_key(id));
                        }
                    }
                }
                match column {
                    Some(i) => Ok(i),
                    None => Err(CacheError::Exhausted),
                }
            },
        }
    }

    /// Discards every location of the bucket at once, with its categories.
    pub fn forget(&mut self)
        ensures
            final(self).wf(),
            final(self).rows() == Map::<u64, u32>::empty(),
            forall|location: LocationId| #[trigger]
                final(self).columns(location) == Map::<u64, u32>::empty(),
    {
        self.ids.clear();
        assert(self.rows() =~= Map::<u64, u32>::empty());
    }
}

/// How many identifiers a bucket has room for when it is made.
pub const INITIAL_BUCKET_CAPACITY: usize = 2000;

/// The location index maps of one timezone: one bucket of locations for each period.
pub struct LocationIndexMap {
    buckets: Vec<LocationBucket>,
}

impl LocationIndexMap {
    /// The locations of period `bucket`.
    pub closed spec fn bucket(self, bucket: PeriodBucket) -> LocationBucket {
        self.buckets@[bucket.spec_index()]
    }

    /// The row of each location in period `bucket`.
    pub open spec fn rows(self, bucket: PeriodBucket) -> Map<LocationId, LocationCacheIndex> {
        self.bucket(bucket).rows()
    }

    /// The column of each category of `location` in period `bucket`.
    pub open spec fn columns(self, bucket: PeriodBucket, location: LocationId) -> Map<
        CategoryId,
        LocationCategoryCacheIndex,
    > {
        self.bucket(bucket).columns(location)
    }

    /// There are the seven buckets, each with dense rows and columns.
    pub closed spec fn wf(self) -> bool {
        &&& self.buckets@.len() == NUM_PERIOD_BUCKETS
        &&& forall|i: int| 0 <= i < NUM_PERIOD_BUCKETS ==> (#[trigger] self.buckets@[i]).wf()
    }

    /// What `wf` says of each bucket.
    pub proof fn lemma_wf(self, bucket: PeriodBucket)
        requires
            self.wf(),
        ensures
            self.bucket(bucket).wf(),
    {
    }

    /// Seven buckets that know no location.
    pub fn new() -> (map: LocationIndexMap)
        ensures
            map.wf(),
            forall|b: PeriodBucket| #[trigger] map.rows(b) == Map::<u64, u32>::empty(),
            forall|b: PeriodBucket, location: LocationId| #[trigger]
                map.columns(b, location) == Map::<u64, u32>::empty(),
    {
        let mut buckets: Vec<LocationBucket> = Vec::with_capacity(NUM_PERIOD_BUCKETS);
        let mut i: usize = 0;
        while i < NUM_PERIOD_BUCKETS
            invariant
                i <= NUM_PERIOD_BUCKETS,
                buckets@.len() == i,
                forall|j: int|
                    0 <= j < i ==> (#[trigger] buckets@[j]).wf() && buckets@[j].rows() == Map::<
                        u64,
                        u32,
                    >::empty(),
                forall|j: int, location: LocationId|
                    0 <= j < i ==> #[trigger] buckets@[j].columns(location) == Map::<
                        u64,
                        u32,
                    >::empty(),
            decreases NUM_PERIOD_BUCKETS - i,
        {
            buckets.push(LocationBucket::new(INITIAL_BUCKET_CAPACITY));
            i = i + 1;
        }
        LocationIndexMap { buckets }
    }

    /// How many locations have a row in period `bucket`.
    pub fn len(&self, bucket: PeriodBucket) -> (n: usize)
        requires
            self.wf(),
        ensures
            n == self.rows(bucket).len(),
    {
        self.buckets[bucket.index()].len()
    }

    /// The row of `location` in period `bucket`. `UnknownLocation` where it has none.
    pub fn lookup(&self, bucket: PeriodBucket, location: LocationId) -> (row: Result<
        LocationCacheIndex,
        CacheError,
    >)
        requires
            self.wf(),
        ensures
            match row {
                Ok(i) => self.rows(bucket).contains_key(location) && i == self.rows(
                    bucket,
                )[location],
                Err(e) => e == CacheError::UnknownLocation && !self.rows(bucket).contains_key(
                    location,
                ),
            },
    {
        self.buckets[bucket.index()].lookup(location)
    }

    /// The column of `category` inside the row of `location` in period `bucket`.
    /// `UnknownLocation` where the location has no row, `UnknownCategory` where the
    /// category has no column in it.
    pub fn lookup_category(
        &self,
        bucket: PeriodBucket,
        location: LocationId,
        category: CategoryId,
    ) -> (column: Result<LocationCategoryCacheIndex, CacheError>)
        requires
            self.wf(),
        ensures
            match column {
                Ok(i) => self.rows(bucket).contains_key(location) && self.columns(
                    bucket,
                    location,
                ).contains_key(category) && i == self.columns(bucket, location)[category],
                Err(e) => if !self.rows(bucket).contains_key(location) {
                    e == CacheError::UnknownLocation
                } else {
                    e == CacheError::UnknownCategory && !self.columns(
                        bucket,
                        location,
                    ).contains_key(category)
                },
            },
    {
        self.buckets[bucket.index()].lookup_category(location, category)
    }

    /// The row of `location` in period `bucket`; on first reference within the bucket it
    /// is given the next unused row, and the same row ever after while the bucket lives.
    /// `Exhausted`, and no change, where the location has no row and a `u32` cannot
    /// number one more.
    pub fn locate(&mut self, bucket: PeriodBucket, location: LocationId) -> (row: Result<
        LocationCacheIndex,
        CacheError,
    >)
        requires
            old(self).wf(),
        ensures
            final(self).wf(),
            forall|b: PeriodBucket| b != bucket ==> #[trigger] final(self).bucket(b) == old(self).bucket(b),
            final(self).rows(bucket) == located(old(self).rows(bucket), location),
            forall|other: LocationId| #[trigger]
                final(self).columns(bucket, other) == old(self).columns(bucket, other),
            match row {
                Ok(i) => i == index_in(old(self).rows(bucket), location) && final(self).rows(
                    bucket,
                ).contains_key(location) && final(self).rows(bucket)[location] == i,
                Err(e) => e == CacheError::Exhausted && !old(self).rows(bucket).contains_key(
                    location,
                ) && old(self).rows(bucket).len() >= u32::MAX,
            },
    {
        let at: usize = bucket.index();
        let row = self.buckets[at].locate(location, 0);
        assert forall|b: PeriodBucket| b != bucket implies #[trigger] self.bucket(b) == old(self).bucket(b) by {
            assert(b.spec_index() != bucket.spec_index());
        }
        row
    }

    /// The column of `category` inside the row of `location` in period `bucket`; on first
    /// reference it is given the next unused column of that row. `UnknownLocation` where
    /// the location has no row; `Exhausted` where the category has no column and a `u32`
    /// cannot number one more. On an error nothing changes.
    pub fn locate_category(
        &mut self,
        bucket: PeriodBucket,
        location: LocationId,
        category: CategoryId,
    ) -> (column: Result<LocationCategoryCacheIndex, CacheError>)
        requires
            old(self).wf(),
        ensures
            final(self).wf(),
            forall|b: PeriodBucket| b != bucket ==> #[trigger] final(self).bucket(b) == old(self).bucket(b),
            final(self).rows(bucket) == old(self).rows(bucket),
            forall|other: LocationId|
                other != location ==> #[trigger] final(self).columns(bucket, other) == old(self).columns(bucket, other),
            match column {
                Ok(i) => {
                    &&& old(self).rows(bucket).contains_key(location)
                    &&& i == index_in(old(self).columns(bucket, location), category)
                    &&& final(self).columns(bucket, location) == located(
                        old(self).columns(bucket, location),
                        category,
                    )
                    &&& final(self).columns(bucket, location).contains_key(category)
                    &&& final(self).columns(bucket, location)[category] == i
                },
                Err(e) => {
                    &&& final(self).columns(bucket, location) == old(self).columns(
                        bucket,
                        location,
                    )
                    &&& if !old(self).rows(bucket).contains_key(location) {
                        e == CacheError::UnknownLocation
                    } else {
                        e == CacheError::Exhausted && !old(self).columns(
                            bucket,
                            location,
                        ).contains_key(category) && old(self).columns(bucket, location).len()
                            >= u32::MAX
                    }
                },
            },
    {
        let at: usize = bucket.index();
        let column = self.buckets[at].locate_category(location, category);
        assert forall|b: PeriodBucket| b != bucket implies #[trigger] self.bucket(b) == old(self).bucket(b) by {
            assert(b.spec_index() != bucket.spec_index());
        }
        column
    }

    /// Discards period `bucket` whole: every location of it, with its categories. The
    /// other buckets stay as they are.
    pub fn forget(&mut self, bucket: PeriodBucket)
        requires
            old(self).wf(),
        ensures
            final(self).wf(),
            forall|b: PeriodBucket| b != bucket ==> #[trigger] final(self).bucket(b) == old(self).bucket(b),
            final(self).rows(bucket) == Map::<u64, u32>::empty(),
            forall|location: LocationId| #[trigger]
                final(self).columns(bucket, location) == Map::<u64, u32>::empty(),
    {
        let at: usize = bucket.index();
        self.buckets[at].forget();
        assert forall|b: PeriodBucket| b != bucket implies #[trigger] self.bucket(b) == old(self).bucket(b) by {
            assert(b.spec_index() != bucket.spec_index());
        }
    }
}

/// The category index maps that all timezones share: one bucket of categories for each
/// period.
pub struct CategoryIndexMap {
    buckets: Vec<IndexBucket>,
}

impl CategoryIndexMap {
    /// The row of each category in period `bucket`.
    pub closed spec fn rows(self, bucket: PeriodBucket) -> Map<CategoryId, CategoryCacheIndex> {
        self.buckets@[bucket.spec_index()]@
    }

    /// There are the seven buckets, each with dense rows.
    pub closed spec fn wf(self) -> bool {
        &&& self.buckets@.len() == NUM_PERIOD_BUCKETS
        &&& forall|i: int| 0 <= i < NUM_PERIOD_BUCKETS ==> (#[trigger] self.buckets@[i]).wf()
    }

    /// What `wf` says of each bucket.
    pub proof fn lemma_wf(self, bucket: PeriodBucket)
        requires
            self.wf(),
        ensures
            is_dense(self.rows(bucket)),
    {
        assert(self.buckets@[bucket.spec_index()].wf());
    }

    /// Seven buckets that know no category.
    pub fn new() -> (map: CategoryIndexMap)
        ensures
            map.wf(),
            forall|b: PeriodBucket| #[trigger] map.rows(b) == Map::<u64, u32>::empty(),
    {
        let mut buckets: Vec<IndexBucket> = Vec::with_capacity(NUM_PERIOD_BUCKETS);
        let mut i: usize = 0;
        while i < NUM_PERIOD_BUCKETS
            invariant
                i <= NUM_PERIOD_BUCKETS,
                buckets@.len() == i,
                forall|j: int|
                    0 <= j < i ==> (#[trigger] buckets@[j]).wf() && buckets@[j]@ == Map::<
                        u64,
                        u32,
                    >::empty(),
            decreases NUM_PERIOD_BUCKETS - i,
        {
            buckets.push(IndexBucket::new(INITIAL_BUCKET_CAPACITY));
            i = i + 1;
        }
        CategoryIndexMap { buckets }
    }

    /// How many categories have a row in period `bucket`.
    pub fn len(&self, bucket: PeriodBucket) -> (n: usize)
        requires
            self.wf(),
        ensures
            n == self.rows(bucket).len(),
    {
        self.buckets[bucket.index()].len()
    }

    /// The row of `category` in period `bucket`. `UnknownCategory` where it has none.
    pub fn lookup(&self, bucket: PeriodBucket, category: CategoryId) -> (row: Result<
        CategoryCacheIndex,
        CacheError,
    >)
        requires
            self.wf(),
        ensures
            match row {
                Ok(i) => self.rows(bucket).contains_key(category) && i == self.rows(
                    bucket,
                )[category],
                Err(e) => e == CacheError::UnknownCategory && !self.rows(bucket).contains_key(
                    category,
                ),
            },
    {
        match self.buckets[bucket.index()].lookup(category) {
            Some(i) => Ok(i),
            None => Err(CacheError::UnknownCategory),
        }
    }

    /// The row of `category` in period `bucket`; on first reference within the bucket it
    /// is given the next unused row, and the same row ever after while the bucket lives.
    /// `Exhausted`, and no change, where the category has no row and a `u32` cannot
    /// number one more.
    pub fn locate(&mut self, bucket: PeriodBucket, category: CategoryId) -> (row: Result<
        CategoryCacheIndex,
        CacheError,
    >)
        requires
            old(self).wf(),
        ensures
            final(self).wf(),
            forall|b: PeriodBucket| b != bucket ==> #[trigger] final(self).rows(b) == old(self).rows(b),
            final(self).rows(bucket) == located(old(self).rows(bucket), category),
            match row {
                Ok(i) => i == index_in(old(self).rows(bucket), category) && final(self).rows(
                    bucket,
                ).contains_key(category) && final(self).rows(bucket)[category] == i,
                Err(e) => e == CacheError::Exhausted && !old(self).rows(bucket).contains_key(
                    category,
                ) && old(self).rows(bucket).len() >= u32::MAX,
            },
    {
        let at: usize = bucket.index();
        let row = self.buckets[at].locate(category);
        assert forall|b: PeriodBucket| b != bucket implies #[trigger] self.rows(b) == old(self).rows(b) by {
            assert(b.spec_index() != bucket.spec_index());
        }
        match row {
            Some(i) => Ok(i),
            None => Err(CacheError::Exhausted),
        }
    }

    /// Discards period `bucket` whole. The other buckets stay as they are.
    pub fn forget(&mut self, bucket: PeriodBucket)
        requires
            old(self).wf(),
        ensures
            final(self).wf(),
            forall|b: PeriodBucket| b != bucket ==> #[trigger] final(self).rows(b) == old(self).rows(b),
            final(self).rows(bucket) == Map::<u64, u32>::empty(),
    {
        let at: usize = bucket.index();
        self.buckets[at].forget();
        assert forall|b: PeriodBucket| b != bucket implies #[trigger] self.rows(b) == old(self).rows(b) by {
            assert(b.spec_index() != bucket.spec_index());
        }
    }
}

} // verus!
