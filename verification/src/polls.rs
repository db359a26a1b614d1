//! Poll records: the vote sums of each direction, and the poll's vote count.

use vstd::prelude::*;
use crate::tally::{tally_limit, Tally};
use crate::types::{CacheError, Direction, PollId, PollKind};
use crate::vote_count::VoteCount;

verus! {

/// Sums and counts of a poll of one dimension.
#[derive(Clone, Copy, Debug, PartialEq, Eq, Structural)]
pub struct OneDPoll {
    pub dim1_dir1: Tally,
    pub dim1_dir2: Tally,
    pub vote_count: VoteCount,
}

impl OneDPoll {
    /// The tally of direction `d`, where the poll has that direction.
    pub open spec fn tally(self, d: Direction) -> Option<Tally> {
        match d {
            Direction::Dim1Dir1 => Some(self.dim1_dir1),
            Direction::Dim1Dir2 => Some(self.dim1_dir2),
            _ => None,
        }
    }

    /// The same record with `t` as the tally of direction `d`.
    pub open spec fn with_tally(self, d: Direction, t: Tally) -> OneDPoll {
        match d {
            Direction::Dim1Dir1 => OneDPoll { dim1_dir1: t, ..self },
            Direction::Dim1Dir2 => OneDPoll { dim1_dir2: t, ..self },
            _ => self,
        }
    }

    /// What a vote of `amount` in direction `d` makes of the record: the direction's tally
    /// grows by `amount` and the vote count by one. `UnknownDirection` where the poll has
    /// no such direction, `Exhausted` where the tally cannot hold the new total.
    pub open spec fn after_vote(self, d: Direction, amount: u32) -> Result<OneDPoll, CacheError> {
        match self.tally(d) {
            None => Err(CacheError::UnknownDirection),
            Some(t) => if t.total() + amount >= tally_limit() {
                Err(CacheError::Exhausted)
            } else {
                Ok(
                    OneDPoll {
                        vote_count: self.vote_count.one_more(),
                        ..self.with_tally(d, t.plus(amount))
                    },
                )
            },
        }
    }

    /// The record of a poll without votes.
    pub open spec fn fresh(vote_count: VoteCount) -> OneDPoll {
        OneDPoll {
            dim1_dir1: Tally { over: 0, sum: 0 },
            dim1_dir2: Tally { over: 0, sum: 0 },
            vote_count,
        }
    }

    /// A poll without votes.
    pub fn new(vote_count: VoteCount) -> (poll: OneDPoll)
        ensures
            poll == OneDPoll::fresh(vote_count),
    {
        OneDPoll {
            dim1_dir1: Tally::new(),
            dim1_dir2: Tally::new(),
            vote_count,
        }
    }

    /// Records a vote of `amount` in direction `d`. On an error nothing changes.
    pub fn record_vote(&mut self, d: Direction, amount: u32) -> (done: Result<(), CacheError>)
        ensures
            match old(self).after_vote(d, amount) {
                Ok(poll) => done is Ok && *final(self) == poll,
                Err(e) => done == Err::<(), CacheError>(e) && *final(self) == *old(self),
            },
    {
        let recorded = match d {
            Direction::Dim1Dir1 => self.dim1_dir1.add(amount),
            Direction::Dim1Dir2 => self.dim1_dir2.add(amount),
            _ => {
                return Err(CacheError::UnknownDirection);
            },
        };
        if recorded {
            self.vote_count.increment();
            Ok(())
        } else {
            Err(CacheError::Exhausted)
        }
    }
}

/// Sums and counts of a poll of two dimensions.
#[derive(Clone, Copy, Debug, PartialEq, Eq, Structural)]
pub struct TwoDPoll {
    pub dim1_dir1: Tally,
    pub dim1_dir2: Tally,
    pub dim2_dir1: Tally,
    pub dim2_dir2: Tally,
    pub vote_count: VoteCount,
}

impl TwoDPoll {
    /// The tally of direction `d`, where the poll has that direction.
    pub open spec fn tally(self, d: Direction) -> Option<Tally> {
        match d {
            Direction::Dim1Dir1 => Some(self.dim1_dir1),
            Direction::Dim1Dir2 => Some(self.dim1_dir2),
            Direction::Dim2Dir1 => Some(self.dim2_dir1),
            Direction::Dim2Dir2 => Some(self.dim2_dir2),
            _ => None,
        }
    }

    /// The same record with `t` as the tally of direction `d`.
    pub open spec fn with_tally(self, d: Direction, t: Tally) -> TwoDPoll {
        match d {
            Direction::Dim1Dir1 => TwoDPoll { dim1_dir1: t, ..self },
            Direction::Dim1Dir2 => TwoDPoll { dim1_dir2: t, ..self },
            Direction::Dim2Dir1 => TwoDPoll { dim2_dir1: t, ..self },
            Direction::Dim2Dir2 => TwoDPoll { dim2_dir2: t, ..self },
            _ => self,
        }
    }

    /// What a vote of `amount` in direction `d` makes of the record: the direction's tally
    /// grows by `amount` and the vote count by one. `UnknownDirection` where the poll has
    /// no such direction, `Exhausted` where the tally cannot hold the new total.
    pub open spec fn after_vote(self, d: Direction, amount: u32) -> Result<TwoDPoll, CacheError> {
        match self.tally(d) {
            None => Err(CacheError::UnknownDirection),
            Some(t) => if t.total() + amount >= tally_limit() {
                Err(CacheError::Exhausted)
            } else {
                Ok(
                    TwoDPoll {
                        vote_count: self.vote_count.one_more(),
                        ..self.with_tally(d, t.plus(amount))
                    },
                )
            },
        }
    }

    /// The record of a poll without votes.
    pub open spec fn fresh(vote_count: VoteCount) -> TwoDPoll {
        TwoDPoll {
            dim1_dir1: Tally { over: 0, sum: 0 },
            dim1_dir2: Tally { over: 0, sum: 0 },
            dim2_dir1: Tally { over: 0, sum: 0 },
            dim2_dir2: Tally { over: 0, sum: 0 },
            vote_count,
        }
    }

    /// A poll without votes.
    pub fn new(vote_count: VoteCount) -> (poll: TwoDPoll)
        ensures
            poll == TwoDPoll::fresh(vote_count),
    {
        TwoDPoll {
            dim1_dir1: Tally::new(),
            dim1_dir2: Tally::new(),
            dim2_dir1: Tally::new(),
            dim2_dir2: Tally::new(),
            vote_count,
        }
    }

    /// Records a vote of `amount` in direction `d`. On an error nothing changes.
    pub fn record_vote(&mut self, d: Direction, amount: u32) -> (done: Result<(), CacheError>)
        ensures
            match old(self).after_vote(d, amount) {
                Ok(poll) => done is Ok && *final(self) == poll,
                Err(e) => done == Err::<(), CacheError>(e) && *final(self) == *old(self),
            },
    {
        let recorded = match d {
            Direction::Dim1Dir1 => self.dim1_dir1.add(amount),
            Direction::Dim1Dir2 => self.dim1_dir2.add(amount),
            Direction::Dim2Dir1 => self.dim2_dir1.add(amount),
            Direction::Dim2Dir2 => self.dim2_dir2.add(amount),
            _ => {
                return Err(CacheError::UnknownDirection);
            },
        };
        if recorded {
            self.vote_count.increment();
            Ok(())
        } else {
            Err(CacheError::Exhausted)
        }
    }
}

/// Sums and counts of a poll of three dimensions.
#[derive(Clone, Copy, Debug, PartialEq, Eq, Structural)]
pub struct ThreeDPoll {
    pub dim1_dir1: Tally,
    pub dim1_dir2: Tally,
    pub dim2_dir1: Tally,
    pub dim2_dir2: Tally,
    pub dim3_dir1: Tally,
    pub dim3_dir2: Tally,
    pub vote_count: VoteCount,
}

impl ThreeDPoll {
    /// The tally of direction `d`, where the poll has that direction.
    pub open spec fn tally(self, d: Direction) -> Option<Tally> {
        match d {
            Direction::Dim1Dir1 => Some(self.dim1_dir1),
            Direction::Dim1Dir2 => Some(self.dim1_dir2),
            Direction::Dim2Dir1 => Some(self.dim2_dir1),
            Direction::Dim2Dir2 => Some(self.dim2_dir2),
            Direction::Dim3Dir1 => Some(self.dim3_dir1),
            Direction::Dim3Dir2 => Some(self.dim3_dir2),
        }
    }

    /// The same record with `t` as the tally of direction `d`.
    pub open spec fn with_tally(self, d: Direction, t: Tally) -> ThreeDPoll {
        match d {
            Direction::Dim1Dir1 => ThreeDPoll { dim1_dir1: t, ..self },
            Direction::Dim1Dir2 => ThreeDPoll { dim1_dir2: t, ..self },
            Direction::Dim2Dir1 => ThreeDPoll { dim2_dir1: t, ..self },
            Direction::Dim2Dir2 => ThreeDPoll { dim2_dir2: t, ..self },
            Direction::Dim3Dir1 => ThreeDPoll { dim3_dir1: t, ..self },
            Direction::Dim3Dir2 => ThreeDPoll { dim3_dir2: t, ..self },
        }
    }

    /// What a vote of `amount` in direction `d` makes of the record: the direction's tally
    /// grows by `amount` and the vote count by one. `UnknownDirection` where the poll has
    /// no such direction, `Exhausted` where the tally cannot hold the new total.
    pub open spec fn after_vote(self, d: Direction, amount: u32) -> Result<ThreeDPoll, CacheError> {
        match self.tally(d) {
            None => Err(CacheError::UnknownDirection),
            Some(t) => if t.total() + amount >= tally_limit() {
                Err(CacheError::Exhausted)
            } else {
                Ok(
                    ThreeDPoll {
                        vote_count: self.vote_count.one_more(),
                        ..self.with_tally(d, t.plus(amount))
                    },
                )
            },
        }
    }

    /// The record of a poll without votes.
    pub open spec fn fresh(vote_count: VoteCount) -> ThreeDPoll {
        ThreeDPoll {
            dim1_dir1: Tally { over: 0, sum: 0 },
            dim1_dir2: Tally { over: 0, sum: 0 },
            dim2_dir1: Tally { over: 0, sum: 0 },
            dim2_dir2: Tally { over: 0, sum: 0 },
            dim3_dir1: Tally { over: 0, sum: 0 },
            dim3_dir2: Tally { over: 0, sum: 0 },
            vote_count,
        }
    }

    /// A poll without votes.
    pub fn new(vote_count: VoteCount) -> (poll: ThreeDPoll)
        ensures
            poll == ThreeDPoll::fresh(vote_count),
    {
        ThreeDPoll {
            dim1_dir1: Tally::new(),
            dim1_dir2: Tally::new(),
            dim2_dir1: Tally::new(),
            dim2_dir2: Tally::new(),
            dim3_dir1: Tally::new(),
            dim3_dir2: Tally::new(),
            vote_count,
        }
    }

    /// Records a vote of `amount` in direction `d`. On an error nothing changes.
    pub fn record_vote(&mut self, d: Direction, amount: u32) -> (done: Result<(), CacheError>)
        ensures
            match old(self).after_vote(d, amount) {
                Ok(poll) => done is Ok && *final(self) == poll,
                Err(e) => done == Err::<(), CacheError>(e) && *final(self) == *old(self),
            },
    {
        let recorded = match d {
            Direction::Dim1Dir1 => self.dim1_dir1.add(amount),
            Direction::Dim1Dir2 => self.dim1_dir2.add(amount),
            Direction::Dim2Dir1 => self.dim2_dir1.add(amount),
            Direction::Dim2Dir2 => self.dim2_dir2.add(amount),
            Direction::Dim3Dir1 => self.dim3_dir1.add(amount),
            Direction::Dim3Dir2 => self.dim3_dir2.add(amount),
        };
        if recorded {
            self.vote_count.increment();
            Ok(())
        } else {
            Err(CacheError::Exhausted)
        }
    }
}

/// A poll record of any kind.
#[derive(Clone, Copy, Debug, PartialEq, Eq, Structural)]
pub enum PollRecord {
    OneD(OneDPoll),
    TwoD(TwoDPoll),
    ThreeD(ThreeDPoll),
}

impl PollRecord {
    /// The record's vote count.
    pub open spec fn spec_vote_count(self) -> VoteCount {
        match self {
            PollRecord::OneD(p) => p.vote_count,
            PollRecord::TwoD(p) => p.vote_count,
            PollRecord::ThreeD(p) => p.vote_count,
        }
    }

    /// The poll that the record is of.
    pub open spec fn poll_id(self) -> PollId {
        self.spec_vote_count().poll_id
    }

    /// The kind of the poll.
    pub open spec fn kind(self) -> PollKind {
        match self {
            PollRecord::OneD(_) => PollKind::OneD,
            PollRecord::TwoD(_) => PollKind::TwoD,
            PollRecord::ThreeD(_) => PollKind::ThreeD,
        }
    }

    /// The tally of direction `d`, where the poll has that direction.
    pub open spec fn tally(self, d: Direction) -> Option<Tally> {
        match self {
            PollRecord::OneD(p) => p.tally(d),
            PollRecord::TwoD(p) => p.tally(d),
            PollRecord::ThreeD(p) => p.tally(d),
        }
    }

    /// The record of a poll of kind `kind` without votes.
    pub open spec fn fresh(kind: PollKind, vote_count: VoteCount) -> PollRecord {
        match kind {
            PollKind::OneD => PollRecord::OneD(OneDPoll::fresh(vote_count)),
            PollKind::TwoD => PollRecord::TwoD(TwoDPoll::fresh(vote_count)),
            PollKind::ThreeD => PollRecord::ThreeD(ThreeDPoll::fresh(vote_count)),
        }
    }

    /// What a vote of `amount` in direction `d` makes of the record.
    pub open spec fn after_vote(self, d: Direction, amount: u32) -> Result<PollRecord, CacheError> {
        match self {
            PollRecord::OneD(p) => match p.after_vote(d, amount) {
                Ok(q) => Ok(PollRecord::OneD(q)),
                Err(e) => Err(e),
            },
            PollRecord::TwoD(p) => match p.after_vote(d, amount) {
                Ok(q) => Ok(PollRecord::TwoD(q)),
                Err(e) => Err(e),
            },
            PollRecord::ThreeD(p) => match p.after_vote(d, amount) {
                Ok(q) => Ok(PollRecord::ThreeD(q)),
                Err(e) => Err(e),
            },
        }
    }

    /// The record of a poll of kind `kind` without votes.
    pub fn new(kind: PollKind, vote_count: VoteCount) -> (record: PollRecord)
        ensures
            record == PollRecord::fresh(kind, vote_count),
    {
        match kind {
            PollKind::OneD => PollRecord::OneD(OneDPoll::new(vote_count)),
            PollKind::TwoD => PollRecord::TwoD(TwoDPoll::new(vote_count)),
            PollKind::ThreeD => PollRecord::ThreeD(ThreeDPoll::new(vote_count)),
        }
    }

    /// The record's vote count.
    pub fn vote_count(&self) -> (vc: VoteCount)
        ensures
            vc == self.spec_vote_count(),
    {
        match self {
            PollRecord::OneD(p) => p.vote_count,
            PollRecord::TwoD(p) => p.vote_count,
            PollRecord::ThreeD(p) => p.vote_count,
        }
    }

    /// Records a vote of `amount` in direction `d`. On an error nothing changes.
    pub fn record_vote(&mut self, d: Direction, amount: u32) -> (done: Result<(), CacheError>)
        ensures
            match old(self).after_vote(d, amount) {
                Ok(record) => done is Ok && *final(self) == record,
                Err(e) => done == Err::<(), CacheError>(e) && *final(self) == *old(self),
            },
    {
        match self {
            PollRecord::OneD(p) => p.record_vote(d, amount),
            PollRecord::TwoD(p) => p.record_vote(d, amount),
            PollRecord::ThreeD(p) => p.record_vote(d, amount),
        }
    }
}

/// A fresh record has the directions of its kind, each without votes.
pub proof fn lemma_fresh_is_empty(kind: PollKind, vote_count: VoteCount, d: Direction)
    ensures
        PollRecord::fresh(kind, vote_count).tally(d) is Some <==> d.dimension()
            <= kind.dimensions(),
        PollRecord::fresh(kind, vote_count).tally(d) is Some ==> PollRecord::fresh(
            kind,
            vote_count,
        ).tally(d)->0.total() == 0,
        PollRecord::fresh(kind, vote_count).spec_vote_count() == vote_count,
        PollRecord::fresh(kind, vote_count).kind() == kind,
{
}

/// A vote changes the record of its poll in nothing but the tally of its direction and the
/// vote count; the tally then holds exactly `amount` more, and the count never falls.
pub proof fn lemma_vote_is_exact(record: PollRecord, d: Direction, amount: u32)
    requires
        record.after_vote(d, amount) is Ok,
    ensures
        record.tally(d) is Some,
        record.after_vote(d, amount)->Ok_0.tally(d) == Some(record.tally(d)->0.plus(amount)),
        record.after_vote(d, amount)->Ok_0.tally(d)->0.total() == record.tally(d)->0.total()
            + amount,
        forall|other: Direction|
            other != d ==> record.after_vote(d, amount)->Ok_0.tally(other) == record.tally(other),
        record.after_vote(d, amount)->Ok_0.poll_id() == record.poll_id(),
        record.after_vote(d, amount)->Ok_0.kind() == record.kind(),
        record.after_vote(d, amount)->Ok_0.spec_vote_count().count
            >= record.spec_vote_count().count,
{
}

} // verus!
