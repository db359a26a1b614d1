//! The ranking tables of one period bucket: by category, and by location.

use vstd::prelude::*;
use crate::leaderboard::{is_board, ranked_update, top_of, Board, BoardRows};
use crate::types::{
    CacheError,
    CategoryCacheIndex,
    LocationCacheIndex,
    LocationCategoryCacheIndex,
    PeriodBucket,
    NUM_PERIOD_BUCKETS,
};
use crate::vote_count::VoteCount;

verus! {

/// The leaderboards of the categories of one period, one row for each category index.
pub struct CategoryPeriodPollRankings {
    /// How many bytes the largest poll number of the period takes.
    pub max_poll_number_bytes: u32,
    /// How many polls the period holds.
    pub num_polls_in_period: u32,
    /// The boards, by category index.
    pub vote_counts_by_category_index: BoardRows,
}

impl View for CategoryPeriodPollRankings {
    type V = Seq<Seq<VoteCount>>;

    open spec fn view(&self) -> Seq<Seq<VoteCount>> {
        self.vote_counts_by_category_index@
    }
}

impl CategoryPeriodPollRankings {
    /// Every row is a leaderboard, and a `u32` can number the rows.
    pub open spec fn wf(self) -> bool {
        &&& self@.len() <= u32::MAX
        &&& forall|i: int| 0 <= i < self@.len() ==> is_board(#[trigger] self@[i])
    }

    /// Rankings of a period with no category yet, with room for `num_categories_in_period`.
    pub fn new(
        max_poll_number_bytes: u32,
        num_polls_in_period: u32,
        num_categories_in_period: usize,
    ) -> (rankings: CategoryPeriodPollRankings)
        ensures
            rankings.max_poll_number_bytes == max_poll_number_bytes,
            rankings.num_polls_in_period == num_polls_in_period,
            rankings@ == Seq::<Seq<VoteCount>>::empty(),
            rankings.wf(),
    {
        CategoryPeriodPollRankings {
            max_poll_number_bytes,
            num_polls_in_period,
            vote_counts_by_category_index: BoardRows::new(num_categories_in_period),
        }
    }

    /// The number of categories that have a row.
    pub fn num_categories(&self) -> (n: usize)
        ensures
            n == self@.len(),
    {
        self.vote_counts_by_category_index.len()
    }

    /// Gives the next category its row, empty, and returns the row's index.
    /// `Exhausted`, and no change, when a `u32` cannot number one row more.
    pub fn reserve(&mut self) -> (index: Result<CategoryCacheIndex, CacheError>)
        requires
            old(self).wf(),
        ensures
            final(self).wf(),
            final(self).max_poll_number_bytes == old(self).max_poll_number_bytes,
            final(self).num_polls_in_period == old(self).num_polls_in_period,
            match index {
                Ok(i) => i == old(self)@.len() && final(self)@ == old(self)@.push(
                    Seq::<VoteCount>::empty(),
                ),
                Err(e) => e == CacheError::Exhausted && old(self)@.len() == u32::MAX && final(self)@ == old(self)@,
            },
    {
        match self.vote_counts_by_category_index.reserve() {
            Some(i) => Ok(i),
            None => Err(CacheError::Exhausted),
        }
    }

    /// Re-positions the poll of `vc` on the board of category `index`, so that the board
    /// stays ranked. `UnknownCategory`, and no change, where the category has no row.
    pub fn update(&mut self, index: CategoryCacheIndex, vc: VoteCount) -> (done: Result<
        (),
        CacheError,
    >)
        requires
            old(self).wf(),
        ensures
            final(self).wf(),
            final(self).max_poll_number_bytes == old(self).max_poll_number_bytes,
            final(self).num_polls_in_period == old(self).num_polls_in_period,
            match done {
                Ok(_) => index < old(self)@.len() && final(self)@ == old(self)@.update(
                    index as int,
                    ranked_update(old(self)@[index as int], vc),
                ),
                Err(e) => e == CacheError::UnknownCategory && index >= old(self)@.len() && final(self)@ == old(self)@,
            },
    {
        if self.vote_counts_by_category_index.update(index, vc) {
            Ok(())
        } else {
            Err(CacheError::UnknownCategory)
        }
    }

    /// The first `n` entries of the board of category `index`, in ranking order.
    /// `UnknownCategory` where the category has no row.
    pub fn top_n(&self, index: CategoryCacheIndex, n: usize) -> (top: Result<
        Vec<VoteCount>,
        CacheError,
    >)
        ensures
            match top {
                Ok(t) => index < self@.len() && t@ == top_of(self@[index as int], n as nat),
                Err(e) => e == CacheError::UnknownCategory && index >= self@.len(),
            },
    {
        match self.vote_counts_by_category_index.top_n(index, n) {
            Some(t) => Ok(t),
            None => Err(CacheError::UnknownCategory),
        }
    }

    /// Empties the board of category `index`. `UnknownCategory`, and no change, where the
    /// category has no row.
    pub fn clear(&mut self, index: CategoryCacheIndex) -> (done: Result<(), CacheError>)
        requires
            old(self).wf(),
        ensures
            final(self).wf(),
            final(self).max_poll_number_bytes == old(self).max_poll_number_bytes,
            final(self).num_polls_in_period == old(self).num_polls_in_period,
            match done {
                Ok(_) => index < old(self)@.len() && final(self)@ == old(self)@.update(
                    index as int,
                    Seq::<VoteCount>::empty(),
                ),
                Err(e) => e == CacheError::UnknownCategory && index >= old(self)@.len() && final(self)@ == old(self)@,
            },
    {
        if self.vote_counts_by_category_index.clear(index) {
            Ok(())
        } else {
            Err(CacheError::UnknownCategory)
        }
    }
}

/// The boards of one location, as values: the location's own, and those of its categories
/// by column.
#[verifier::ext_equal]
pub struct LocationBoards {
    pub location: Seq<VoteCount>,
    pub categories: Seq<Seq<VoteCount>>,
}

impl LocationBoards {
    /// The boards of a location without polls and without categories.
    pub open spec fn empty() -> LocationBoards {
        LocationBoards { location: Seq::empty(), categories: Seq::empty() }
    }

    /// Every board is a leaderboard, and a `u32` can number the categories.
    pub open spec fn wf(self) -> bool {
        &&& is_board(self.location)
        &&& self.categories.len() <= u32::MAX
        &&& forall|i: int| 0 <= i < self.categories.len() ==> is_board(#[trigger] self.categories[i])
    }
}

/// The leaderboards of one location in one period: the location's own, and one for each
/// of its categories, by the category's column in the location.
pub struct LocationPollRankings {
    /// The location's own board.
    pub location: Board,
    /// The boards of the location's categories, by column.
    pub category_locations: BoardRows,
}

impl View for LocationPollRankings {
    type V = LocationBoards;

    open spec fn view(&self) -> LocationBoards {
        LocationBoards { location: self.location@, categories: self.category_locations@ }
    }
}

impl LocationPollRankings {
    /// Every board is a leaderboard, and a `u32` can number the categories.
    pub open spec fn wf(self) -> bool {
        self@.wf()
    }

    /// The rankings of a location that has no poll and no category yet.
    pub fn new() -> (rankings: LocationPollRankings)
        ensures
            rankings@ == LocationBoards::empty(),
            rankings.wf(),
    {
        LocationPollRankings { location: Board::new(), category_locations: BoardRows::new(0) }
    }

    /// The number of the location's categories that have a board.
    pub fn num_categories(&self) -> (n: usize)
        ensures
            n == self@.categories.len(),
    {
        self.category_locations.len()
    }

    /// Gives the location's next category its board, empty, and returns its column.
    /// `Exhausted`, and no change, when a `u32` cannot number one column more.
    pub fn reserve(&mut self) -> (index: Result<LocationCategoryCacheIndex, CacheError>)
        requires
            old(self).wf(),
        ensures
            final(self).wf(),
            match index {
                Ok(i) => i == old(self)@.categories.len() && final(self)@ == (LocationBoards {
                    categories: old(self)@.categories.push(Seq::<VoteCount>::empty()),
                    ..old(self)@
                }),
                Err(e) => e == CacheError::Exhausted && old(self)@.categories.len() == u32::MAX
                    && final(self)@ == old(self)@,
            },
    {
        match self.category_locations.reserve() {
            Some(i) => Ok(i),
            None => Err(CacheError::Exhausted),
        }
    }

    /// Re-positions the poll of `vc` on the location's own board.
    pub fn update_location(&mut self, vc: VoteCount)
        requires
            old(self).wf(),
        ensures
            final(self).wf(),
            final(self)@ == (LocationBoards {
                location: ranked_update(old(self)@.location, vc),
                ..old(self)@
            }),
    {
        self.location.update(vc);
    }

    /// Re-positions the poll of `vc` on the board of the location's category `index`.
    /// `UnknownCategory`, and no change, where the category has no board.
    pub fn update_category(&mut self, index: LocationCategoryCacheIndex, vc: VoteCount) -> (done:
        Result<(), CacheError>)
        requires
            old(self).wf(),
        ensures
            final(self).wf(),
            match done {
                Ok(_) => index < old(self)@.categories.len() && final(self)@ == (LocationBoards {
                    categories: old(self)@.categories.update(
                        index as int,
                        ranked_update(old(self)@.categories[index as int], vc),
                    ),
                    ..old(self)@
                }),
                Err(e) => e == CacheError::UnknownCategory && index >= old(self)@.categories.len()
                    && final(self)@ == old(self)@,
            },
    {
        if self.category_locations.update(index, vc) {
            Ok(())
        } else {
            Err(CacheError::UnknownCategory)
        }
    }

    /// The first `n` entries of the location's own board, in ranking order.
    pub fn top_n_location(&self, n: usize) -> (top: Vec<VoteCount>)
        ensures
            top@ == top_of(self@.location, n as nat),
    {
        self.location.top_n(n)
    }

    /// The first `n` entries of the board of the location's category `index`.
    /// `UnknownCategory` where the category has no board.
    pub fn top_n_category(&self, index: LocationCategoryCacheIndex, n: usize) -> (top: Result<
        Vec<VoteCount>,
        CacheError,
    >)
        ensures
            match top {
                Ok(t) => index < self@.categories.len() && t@ == top_of(
                    self@.categories[index as int],
                    n as nat,
                ),
                Err(e) => e == CacheError::UnknownCategory && index >= self@.categories.len(),
            },
    {
        match self.category_locations.top_n(index, n) {
            Some(t) => Ok(t),
            None => Err(CacheError::UnknownCategory),
        }
    }

    /// Empties the location's own board and the boards of its categories; the categories
    /// keep their columns.
    pub fn clear(&mut self)
        requires
            old(self).wf(),
        ensures
            final(self).wf(),
            final(self)@ == (LocationBoards {
                location: Seq::empty(),
                categories: Seq::new(
                    old(self)@.categories.len(),
                    |i: int| Seq::<VoteCount>::empty(),
                ),
            }),
    {
        self.location.clear();
        let n: usize = self.category_locations.len();
        let mut i: usize = 0;
        while i < n
            invariant
                i <= n,
                n == self.category_locations@.len(),
                n == old(self)@.categories.len(),
                self.category_locations.wf(),
                self.location@ == Seq::<VoteCount>::empty(),
                forall|j: int|
                    0 <= j < i ==> (#[trigger] self.category_locations@[j]) == Seq::<
                        VoteCount,
                    >::empty(),
            decreases n - i,
        {
            let found = self.category_locations.clear(i as u32);
            assert(found);
            i = i + 1;
        }
        assert(self@.categories =~= Seq::new(
            old(self)@.categories.len(),
            |i: int| Seq::<VoteCount>::empty(),
        ));
    }
}

/// The views of `rows`, row by row.
pub open spec fn boards_of(rows: Seq<LocationPollRankings>) -> Seq<LocationBoards> {
    Seq::new(rows.len(), |i: int| rows[i]@)
}

/// The location leaderboards of one timezone: for each period, a row for each location
/// index handed out in it.
pub struct LocationsPollRankings {
    buckets: Vec<Vec<LocationPollRankings>>,
}

impl LocationsPollRankings {
    /// The boards of period `bucket`, by location index.
    pub closed spec fn rows(self, bucket: PeriodBucket) -> Seq<LocationBoards> {
        boards_of(self.buckets@[bucket.spec_index()]@)
    }

    /// There are the seven buckets, every board is a leaderboard, and a `u32` can number
    /// the rows.
    pub closed spec fn wf(self) -> bool {
        &&& self.buckets@.len() == NUM_PERIOD_BUCKETS
        &&& forall|b: int|
            0 <= b < NUM_PERIOD_BUCKETS ==> (#[trigger] self.buckets@[b])@.len() <= u32::MAX
        &&& forall|b: int, i: int|
            0 <= b < NUM_PERIOD_BUCKETS && 0 <= i < self.buckets@[b]@.len()
                ==> (#[trigger] self.buckets@[b]@[i]).wf()
    }

    /// What `wf` says, over `rows`.
    pub proof fn lemma_wf(self, bucket: PeriodBucket)
        requires
            self.wf(),
        ensures
            self.rows(bucket).len() <= u32::MAX,
            forall|i: int|
                0 <= i < self.rows(bucket).len() ==> (#[trigger] self.rows(bucket)[i]).wf(),
    {
        let b = bucket.spec_index();
        assert forall|i: int| 0 <= i < self.rows(bucket).len() implies (#[trigger] self.rows(
            bucket,
        )[i]).wf() by {
            assert(self.buckets@[b]@[i].wf());
        }
    }

    /// Seven buckets without rows.
    pub fn new() -> (rankings: LocationsPollRankings)
        ensures
            rankings.wf(),
            forall|b: PeriodBucket| #[trigger] rankings.rows(b) == Seq::<LocationBoards>::empty(),
    {
        let mut buckets: Vec<Vec<LocationPollRankings>> = Vec::with_capacity(NUM_PERIOD_BUCKETS);
        let mut i: usize = 0;
        while i < NUM_PERIOD_BUCKETS
            invariant
                i <= NUM_PERIOD_BUCKETS,
                buckets@.len() == i,
                forall|j: int| 0 <= j < i ==> (#[trigger] buckets@[j])@.len() == 0,
            decreases NUM_PERIOD_BUCKETS - i,
        {
            buckets.push(Vec::new());
            i = i + 1;
        }
        let rankings = LocationsPollRankings { buckets };
        assert forall|b: PeriodBucket| #[trigger]
            rankings.rows(b) == Seq::<LocationBoards>::empty() by {
            assert(rankings.buckets@[b.spec_index()]@.len() == 0);
            assert(rankings.rows(b) =~= Seq::<LocationBoards>::empty());
        }
        rankings
    }

    /// The number of rows of period `bucket`.
    pub fn num_rows(&self, bucket: PeriodBucket) -> (n: usize)
        requires
            self.wf(),
        ensures
            n == self.rows(bucket).len(),
    {
        self.buckets[bucket.index()].len()
    }

    /// Gives the next location of period `bucket` its row, without polls and without
    /// categories, and returns the row's index. `Exhausted`, and no change, when a `u32`
    /// cannot number one row more.
    pub fn reserve_row(&mut self, bucket: PeriodBucket) -> (index: Result<
        LocationCacheIndex,
        CacheError,
    >)
        requires
            old(self).wf(),
        ensures
            final(self).wf(),
            forall|b: PeriodBucket| b != bucket ==> #[trigger] final(self).rows(b) == old(self).rows(b),
            match index {
                Ok(i) => i == old(self).rows(bucket).len() && final(self).rows(bucket) == old(self).rows(bucket).push(LocationBoards::empty()),
                Err(e) => e == CacheError::Exhausted && old(self).rows(bucket).len() == u32::MAX
                    && final(self).rows(bucket) == old(self).rows(bucket),
            },
    {
        let at: usize = bucket.index();
        let n: usize = self.buckets[at].len();
        if n >= 0xffff_ffff {
            return Err(CacheError::Exhausted);
        }
        self.buckets[at].push(LocationPollRankings::new());
        proof {
            assert(self.rows(bucket) =~= old(self).rows(bucket).push(LocationBoards::empty()));
            self.lemma_others_kept(*old(self), bucket);
        }
        Ok(n as u32)
    }

    proof fn lemma_others_kept(self, before: LocationsPollRankings, bucket: PeriodBucket)
        requires
            self.buckets@.len() == NUM_PERIOD_BUCKETS,
            before.buckets@.len() == NUM_PERIOD_BUCKETS,
            forall|b: int|
                0 <= b < self.buckets@.len() && b != bucket.spec_index() ==> self.buckets@[b]
                    == before.buckets@[b],
        ensures
            forall|b: PeriodBucket| b != bucket ==> #[trigger] self.rows(b) == before.rows(b),
    {
        assert forall|b: PeriodBucket| b != bucket implies #[trigger] self.rows(b) == before.rows(
            b,
        ) by {
            assert(b.spec_index() != bucket.spec_index());
        }
    }

    /// Gives the next category of the location in row `row` of period `bucket` its board,
    /// empty, and returns its column. `UnknownLocation` where there is no such row;
    /// `Exhausted` when a `u32` cannot number one column more. On an error nothing changes.
    pub fn reserve_column(&mut self, bucket: PeriodBucket, row: LocationCacheIndex) -> (index:
        Result<LocationCategoryCacheIndex, CacheError>)
        requires
            old(self).wf(),
        ensures
            final(self).wf(),
            forall|b: PeriodBucket| b != bucket ==> #[trigger] final(self).rows(b) == old(self).rows(b),
            match index {
                Ok(i) => {
                    &&& row < old(self).rows(bucket).len()
                    &&& i == old(self).rows(bucket)[row as int].categories.len()
                    &&& final(self).rows(bucket) == old(self).rows(bucket).update(
                        row as int,
                        LocationBoards {
                            categories: old(self).rows(bucket)[row as int].categories.push(
                                Seq::<VoteCount>::empty(),
                            ),
                            ..old(self).rows(bucket)[row as int]
                        },
                    )
                },
                Err(e) => {
                    &&& final(self).rows(bucket) == old(self).rows(bucket)
                    &&& if row >= old(self).rows(bucket).len() {
                        e == CacheError::UnknownLocation
                    } else {
                        e == CacheError::Exhausted && old(self).rows(
                            bucket,
                        )[row as int].categories.len() == u32::MAX
                    }
                },
            },
    {
        let at: usize = bucket.index();
        if (row as usize) >= self.buckets[at].len() {
            return Err(CacheError::UnknownLocation);
        }
        let index = self.buckets[at][row as usize].reserve();
        proof {
            if index is Ok {
                assert(self.rows(bucket) =~= old(self).rows(bucket).update(
                    row as int,
                    LocationBoards {
                        categories: old(self).rows(bucket)[row as int].categories.push(
                            Seq::<VoteCount>::empty(),
                        ),
                        ..old(self).rows(bucket)[row as int]
                    },
                ));
            } else {
                assert(self.rows(bucket) =~= old(self).rows(bucket));
            }
            self.lemma_others_kept(*old(self), bucket);
        }
        index
    }

    /// Re-positions the poll of `vc` on the own board of the location in row `row` of
    /// period `bucket`. `UnknownLocation`, and no change, where there is no such row.
    pub fn update_location(&mut self, bucket: PeriodBucket, row: LocationCacheIndex, vc: VoteCount)
        -> (done: Result<(), CacheError>)
        requires
            old(self).wf(),
        ensures
            final(self).wf(),
            forall|b: PeriodBucket| b != bucket ==> #[trigger] final(self).rows(b) == old(self).rows(b),
            match done {
                Ok(_) => row < old(self).rows(bucket).len() && final(self).rows(bucket) == old(self).rows(bucket).update(
                    row as int,
                    LocationBoards {
                        location: ranked_update(old(self).rows(bucket)[row as int].location, vc),
                        ..old(self).rows(bucket)[row as int]
                    },
                ),
                Err(e) => e == CacheError::UnknownLocation && row >= old(self).rows(bucket).len()
                    && final(self).rows(bucket) == old(self).rows(bucket),
            },
    {
        let at: usize = bucket.index();
        if (row as usize) >= self.buckets[at].len() {
            return Err(CacheError::UnknownLocation);
        }
        self.buckets[at][row as usize].update_location(vc);
        proof {
            assert(self.rows(bucket) =~= old(self).rows(bucket).update(
                row as int,
                LocationBoards {
                    location: ranked_update(old(self).rows(bucket)[row as int].location, vc),
                    ..old(self).rows(bucket)[row as int]
                },
            ));
            self.lemma_others_kept(*old(self), bucket);
        }
        Ok(())
    }

    /// Re-positions the poll of `vc` on the board of column `column` of the location in
    /// row `row` of period `bucket`. `UnknownLocation` where there is no such row,
    /// `UnknownCategory` where the row has no such column. On an error nothing changes.
    pub fn update_category(
        &mut self,
        bucket: PeriodBucket,
        row: LocationCacheIndex,
        column: LocationCategoryCacheIndex,
        vc: VoteCount,
    ) -> (done: Result<(), CacheError>)
        requires
            old(self).wf(),
        ensures
            final(self).wf(),
            forall|b: PeriodBucket| b != bucket ==> #[trigger] final(self).rows(b) == old(self).rows(b),
            match done {
                Ok(_) => {
                    &&& row < old(self).rows(bucket).len()
                    &&& column < old(self).rows(bucket)[row as int].categories.len()
                    &&& final(self).rows(bucket) == old(self).rows(bucket).update(
                        row as int,
                        LocationBoards {
                            categories: old(self).rows(bucket)[row as int].categories.update(
                                column as int,
                                ranked_update(
                                    old(self).rows(bucket)[row as int].categories[column as int],
                                    vc,
                                ),
                            ),
                            ..old(self).rows(bucket)[row as int]
                        },
                    )
                },
                Err(e) => {
                    &&& final(self).rows(bucket) == old(self).rows(bucket)
                    &&& if row >= old(self).rows(bucket).len() {
                        e == CacheError::UnknownLocation
                    } else {
                        e == CacheError::UnknownCategory && column >= old(self).rows(
                            bucket,
                        )[row as int].categories.len()
                    }
                },
            },
    {
        let at: usize = bucket.index();
        if (row as usize) >= self.buckets[at].len() {
            return Err(CacheError::UnknownLocation);
        }
        let done = self.buckets[at][row as usize].update_category(column, vc);
        proof {
            if done is Ok {
                assert(self.rows(bucket) =~= old(self).rows(bucket).update(
                    row as int,
                    LocationBoards {
                        categories: old(self).rows(bucket)[row as int].categories.update(
                            column as int,
                            ranked_update(
                                old(self).rows(bucket)[row as int].categories[column as int],
                                vc,
                            ),
                        ),
                        ..old(self).rows(bucket)[row as int]
                    },
                ));
            } else {
                assert(self.rows(bucket) =~= old(self).rows(bucket));
            }
            self.lemma_others_kept(*old(self), bucket);
        }
        done
    }

    /// The first `n` entries of the own board of the location in row `row` of period
    /// `bucket`, in ranking order. `UnknownLocation` where there is no such row.
    pub fn top_n_location(&self, bucket: PeriodBucket, row: LocationCacheIndex, n: usize) -> (top:
        Result<Vec<VoteCount>, CacheError>)
        requires
            self.wf(),
        ensures
            match top {
                Ok(t) => row < self.rows(bucket).len() && t@ == top_of(
                    self.rows(bucket)[row as int].location,
                    n as nat,
                ),
                Err(e) => e == CacheError::UnknownLocation && row >= self.rows(bucket).len(),
            },
    {
        let at: usize = bucket.index();
        if (row as usize) >= self.buckets[at].len() {
            return Err(CacheError::UnknownLocation);
        }
        Ok(self.buckets[at][row as usize].top_n_location(n))
    }

    /// The first `n` entries of the board of column `column` of the location in row `row`
    /// of period `bucket`. `UnknownLocation` where there is no such row, `UnknownCategory`
    /// where the row has no such column.
    pub fn top_n_category(
        &self,
        bucket: PeriodBucket,
        row: LocationCacheIndex,
        column: LocationCategoryCacheIndex,
        n: usize,
    ) -> (top: Result<Vec<VoteCount>, CacheError>)
        requires
            self.wf(),
        ensures
            match top {
                Ok(t) => row < self.rows(bucket).len() && column < self.rows(
                    bucket,
                )[row as int].categories.len() && t@ == top_of(
                    self.rows(bucket)[row as int].categories[column as int],
                    n as nat,
                ),
                Err(e) => if row >= self.rows(bucket).len() {
                    e == CacheError::UnknownLocation
                } else {
                    e == CacheError::UnknownCategory && column >= self.rows(
                        bucket,
                    )[row as int].categories.len()
                },
            },
    {
        let at: usize = bucket.index();
        if (row as usize) >= self.buckets[at].len() {
            return Err(CacheError::UnknownLocation);
        }
        self.buckets[at][row as usize].top_n_category(column, n)
    }

    /// Empties the boards of the location in row `row` of period `bucket`; the row and its
    /// columns stay. `UnknownLocation`, and no change, where there is no such row.
    pub fn clear(&mut self, bucket: PeriodBucket, row: LocationCacheIndex) -> (done: Result<
        (),
        CacheError,
    >)
        requires
            old(self).wf(),
        ensures
            final(self).wf(),
            forall|b: PeriodBucket| b != bucket ==> #[trigger] final(self).rows(b) == old(self).rows(b),
            match done {
                Ok(_) => row < old(self).rows(bucket).len() && final(self).rows(bucket) == old(self).rows(bucket).update(
                    row as int,
                    LocationBoards {
                        location: Seq::empty(),
                        categories: Seq::new(
                            old(self).rows(bucket)[row as int].categories.len(),
                            |i: int| Seq::<VoteCount>::empty(),
                        ),
                    },
                ),
                Err(e) => e == CacheError::UnknownLocation && row >= old(self).rows(bucket).len()
                    && final(self).rows(bucket) == old(self).rows(bucket),
            },
    {
        let at: usize = bucket.index();
        if (row as usize) >= self.buckets[at].len() {
            return Err(CacheError::UnknownLocation);
        }
        self.buckets[at][row as usize].clear();
        proof {
            assert(self.rows(bucket) =~= old(self).rows(bucket).update(
                row as int,
                LocationBoards {
                    location: Seq::empty(),
                    categories: Seq::new(
                        old(self).rows(bucket)[row as int].categories.len(),
                        |i: int| Seq::<VoteCount>::empty(),
                    ),
                },
            ));
            self.lemma_others_kept(*old(self), bucket);
        }
        Ok(())
    }

    /// Discards period `bucket` whole: every row of it. The other buckets stay as they are.
    pub fn forget(&mut self, bucket: PeriodBucket)
        requires
            old(self).wf(),
        ensures
            final(self).wf(),
            forall|b: PeriodBucket| b != bucket ==> #[trigger] final(self).rows(b) == old(self).rows(b),
            final(self).rows(bucket) == Seq::<LocationBoards>::empty(),
    {
        let at: usize = bucket.index();
        self.buckets[at] = Vec::new();
        proof {
            assert(self.rows(bucket) =~= Seq::<LocationBoards>::empty());
            self.lemma_others_kept(*old(self), bucket);
        }
    }
}

/// The category leaderboards that all timezones share: for each period, a row for each
/// category index handed out in it.
pub struct CategoryPollRankings {
    buckets: Vec<CategoryPeriodPollRankings>,
}

impl CategoryPollRankings {
    /// The boards of period `bucket`, by category index.
    pub closed spec fn rows(self, bucket: PeriodBucket) -> Seq<Seq<VoteCount>> {
        self.buckets@[bucket.spec_index()]@
    }

    /// There are the seven buckets, every board is a leaderboard, and a `u32` can number
    /// the rows.
    pub closed spec fn wf(self) -> bool {
        &&& self.buckets@.len() == NUM_PERIOD_BUCKETS
        &&& forall|b: int| 0 <= b < NUM_PERIOD_BUCKETS ==> (#[trigger] self.buckets@[b]).wf()
    }

    /// What `wf` says, over `rows`.
    pub proof fn lemma_wf(self, bucket: PeriodBucket)
        requires
            self.wf(),
        ensures
            self.rows(bucket).len() <= u32::MAX,
            forall|i: int|
                0 <= i < self.rows(bucket).len() ==> is_board(#[trigger] self.rows(bucket)[i]),
    {
        assert(self.buckets@[bucket.spec_index()].wf());
    }

    proof fn lemma_others_kept(self, before: CategoryPollRankings, bucket: PeriodBucket)
        requires
            self.buckets@.len() == NUM_PERIOD_BUCKETS,
            before.buckets@.len() == NUM_PERIOD_BUCKETS,
            forall|b: int|
                0 <= b < self.buckets@.len() && b != bucket.spec_index() ==> self.buckets@[b]
                    == before.buckets@[b],
        ensures
            forall|b: PeriodBucket| b != bucket ==> #[trigger] self.rows(b) == before.rows(b),
    {
        assert forall|b: PeriodBucket| b != bucket implies #[trigger] self.rows(b) == before.rows(
            b,
        ) by {
            assert(b.spec_index() != bucket.spec_index());
        }
    }

    /// Seven buckets without rows.
    pub fn new() -> (rankings: CategoryPollRankings)
        ensures
            rankings.wf(),
            forall|b: PeriodBucket| #[trigger] rankings.rows(b) == Seq::<Seq<VoteCount>>::empty(),
    {
        let mut buckets: Vec<CategoryPeriodPollRankings> = Vec::with_capacity(NUM_PERIOD_BUCKETS);
        let mut i: usize = 0;
        while i < NUM_PERIOD_BUCKETS
            invariant
                i <= NUM_PERIOD_BUCKETS,
                buckets@.len() == i,
                forall|j: int|
                    0 <= j < i ==> (#[trigger] buckets@[j]).wf() && buckets@[j]@ == Seq::<
                        Seq<VoteCount>,
                    >::empty(),
            decreases NUM_PERIOD_BUCKETS - i,
        {
            buckets.push(CategoryPeriodPollRankings::new(0, 0, 0));
            i = i + 1;
        }
        CategoryPollRankings { buckets }
    }

    /// The number of rows of period `bucket`.
    pub fn num_rows(&self, bucket: PeriodBucket) -> (n: usize)
        requires
            self.wf(),
        ensures
            n == self.rows(bucket).len(),
    {
        self.buckets[bucket.index()].num_categories()
    }

    /// Gives the next category of period `bucket` its row, empty, and returns the row's
    /// index. `Exhausted`, and no change, when a `u32` cannot number one row more.
    pub fn reserve_row(&mut self, bucket: PeriodBucket) -> (index: Result<
        CategoryCacheIndex,
        CacheError,
    >)
        requires
            old(self).wf(),
        ensures
            final(self).wf(),
            forall|b: PeriodBucket| b != bucket ==> #[trigger] final(self).rows(b) == old(self).rows(b),
            match index {
                Ok(i) => i == old(self).rows(bucket).len() && final(self).rows(bucket) == old(self).rows(bucket).push(Seq::<VoteCount>::empty()),
                Err(e) => e == CacheError::Exhausted && old(self).rows(bucket).len() == u32::MAX
                    && final(self).rows(bucket) == old(self).rows(bucket),
            },
    {
        let at: usize = bucket.index();
        let index = self.buckets[at].reserve();
        proof {
            self.lemma_others_kept(*old(self), bucket);
        }
        index
    }

    /// Re-positions the poll of `vc` on the board of row `row` of period `bucket`, so that
    /// the board stays ranked. `UnknownCategory`, and no change, where there is no such row.
    pub fn update(&mut self, bucket: PeriodBucket, row: CategoryCacheIndex, vc: VoteCount) -> (done:
        Result<(), CacheError>)
        requires
            old(self).wf(),
        ensures
            final(self).wf(),
            forall|b: PeriodBucket| b != bucket ==> #[trigger] final(self).rows(b) == old(self).rows(b),
            match done {
                Ok(_) => row < old(self).rows(bucket).len() && final(self).rows(bucket) == old(self).rows(bucket).update(
                    row as int,
                    ranked_update(old(self).rows(bucket)[row as int], vc),
                ),
                Err(e) => e == CacheError::UnknownCategory && row >= old(self).rows(bucket).len()
                    && final(self).rows(bucket) == old(self).rows(bucket),
            },
    {
        let at: usize = bucket.index();
        let done = self.buckets[at].update(row, vc);
        proof {
            self.lemma_others_kept(*old(self), bucket);
        }
        done
    }

    /// The first `n` entries of the board of row `row` of period `bucket`, in ranking
    /// order. `UnknownCategory` where there is no such row.
    pub fn top_n(&self, bucket: PeriodBucket, row: CategoryCacheIndex, n: usize) -> (top: Result<
        Vec<VoteCount>,
        CacheError,
    >)
        requires
            self.wf(),
        ensures
            match top {
                Ok(t) => row < self.rows(bucket).len() && t@ == top_of(
                    self.rows(bucket)[row as int],
                    n as nat,
                ),
                Err(e) => e == CacheError::UnknownCategory && row >= self.rows(bucket).len(),
            },
    {
        self.buckets[bucket.index()].top_n(row, n)
    }

    /// Empties the board of row `row` of period `bucket`; the row stays. `UnknownCategory`,
    /// and no change, where there is no such row.
    pub fn clear(&mut self, bucket: PeriodBucket, row: CategoryCacheIndex) -> (done: Result<
        (),
        CacheError,
    >)
        requires
            old(self).wf(),
        ensures
            final(self).wf(),
            forall|b: PeriodBucket| b != bucket ==> #[trigger] final(self).rows(b) == old(self).rows(b),
            match done {
                Ok(_) => row < old(self).rows(bucket).len() && final(self).rows(bucket) == old(self).rows(bucket).update(row as int, Seq::<VoteCount>::empty()),
                Err(e) => e == CacheError::UnknownCategory && row >= old(self).rows(bucket).len()
                    && final(self).rows(bucket) == old(self).rows(bucket),
            },
    {
        let at: usize = bucket.index();
        let done = self.buckets[at].clear(row);
        proof {
            self.lemma_others_kept(*old(self), bucket);
        }
        done
    }

    /// Discards period `bucket` whole: every row of it. The other buckets stay as they are.
    pub fn forget(&mut self, bucket: PeriodBucket)
        requires
            old(self).wf(),
        ensures
            final(self).wf(),
            forall|b: PeriodBucket| b != bucket ==> #[trigger] final(self).rows(b) == old(self).rows(b),
            final(self).rows(bucket) == Seq::<Seq<VoteCount>>::empty(),
    {
        let at: usize = bucket.index();
        self.buckets[at] = CategoryPeriodPollRankings::new(0, 0, 0);
        proof {
            self.lemma_others_kept(*old(self), bucket);
        }
    }
}

} // verus!
