//! The poll store: the records of the polls of each timezone, found by poll identifier.

use std::collections::HashMap;
use vstd::prelude::*;
use crate::polls::PollRecord;
use crate::types::{CacheError, Direction, PollId, PollKind, TimezoneId, NUM_TIMEZONES};
use crate::vote_count::VoteCount;

verus! {

broadcast use vstd::std_specs::hash::group_hash_axioms;

/// The records of one timezone: a dense array, and the slot of each poll in it.
struct ZonePolls {
    slot_of: HashMap<PollId, u32>,
    records: Vec<PollRecord>,
}

impl ZonePolls {
    spec fn view(self) -> Map<PollId, PollRecord> {
        Map::new(
            |id: PollId| self.slot_of@.contains_key(id),
            |id: PollId| self.records@[self.slot_of@[id] as int],
        )
    }

    spec fn wf(self) -> bool {
        &&& self.records@.len() <= u32::MAX
        &&& self.slot_of@.dom().finite()
        &&& self.slot_of@.len() == self.records@.len()
        &&& forall|id: PollId| #[trigger]
            self.slot_of@.contains_key(id) ==> (self.slot_of@[id] as int) < self.records@.len()
                && self.records@[self.slot_of@[id] as int].poll_id() == id
        &&& forall|i: int|
            0 <= i < self.records@.len() ==> self.slot_of@.contains_key(
                (#[trigger] self.records@[i]).poll_id(),
            ) && self.slot_of@[self.records@[i].poll_id()] == i
    }

    proof fn lemma_len(self)
        requires
            self.wf(),
        ensures
            self.view().dom().finite(),
            self.view().len() == self.records@.len(),
    {
        assert(self.view().dom() =~= self.slot_of@.dom());
    }

    fn new() -> (zone: ZonePolls)
        ensures
            zone.wf(),
            zone.view() == Map::<PollId, PollRecord>::empty(),
    {
        let zone = ZonePolls { slot_of: HashMap::new(), records: Vec::new() };
        assert(zone.view() =~= Map::<PollId, PollRecord>::empty());
        zone
    }

    fn create(&mut self, record: PollRecord) -> (created: bool)
        requires
            old(self).wf(),
            !old(self).view().contains_key(record.poll_id()),
        ensures
            final(self).wf(),
            created <==> old(self).view().len() < u32::MAX,
            created ==> final(self).view() == old(self).view().insert(record.poll_id(), record),
            !created ==> final(self).view() == old(self).view(),
    {
        proof {
            self.lemma_len();
        }
        let n: usize = self.records.len();
        if n >= 0xffff_ffff {
            return false;
        }
        let id: PollId = record.vote_count().poll_id;
        self.slot_of.insert(id, n as u32);
        self.records.push(record);
        assert(self.view() =~= old(self).view().insert(id, record));
        true
    }

    fn read(&self, poll_id: PollId) -> (record: Option<PollRecord>)
        requires
            self.wf(),
        ensures
            match record {
                Some(r) => self.view().contains_key(poll_id) && r == self.view()[poll_id]
                    && r.poll_id() == poll_id,
                None => !self.view().contains_key(poll_id),
            },
    {
        match self.slot_of.get(&poll_id) {
            Some(slot) => Some(self.records[*slot as usize]),
            None => None,
        }
    }

    fn record_vote(&mut self, poll_id: PollId, d: Direction, amount: u32) -> (done: Result<
        (),
        CacheError,
    >)
        requires
            old(self).wf(),
        ensures
            final(self).wf(),
            match spec_vote(old(self).view(), poll_id, d, amount) {
                Ok(polls) => done is Ok && final(self).view() == polls,
                Err(e) => done == Err::<(), CacheError>(e) && final(self).view() == old(self).view(),
            },
    {
        let slot: usize = match self.slot_of.get(&poll_id) {
            Some(slot) => *slot as usize,
            None => {
                return Err(CacheError::UnknownPoll);
            },
        };
        let ghost before = self.records@[slot as int];
        let done = self.records[slot].record_vote(d, amount);
        proof {
            if done is Ok {
                assert(self.view() =~= old(self).view().insert(
                    poll_id,
                    before.after_vote(d, amount)->Ok_0,
                ));
            } else {
                assert(self.records@ =~= old(self).records@);
                assert(self.view() =~= old(self).view());
            }
        }
        done
    }
}

/// What a vote of `amount` in direction `d` of poll `poll_id` makes of the records `polls`:
/// `UnknownPoll` where the poll has no record, else what `PollRecord::after_vote` says.
pub open spec fn spec_vote(
    polls: Map<PollId, PollRecord>,
    poll_id: PollId,
    d: Direction,
    amount: u32,
) -> Result<Map<PollId, PollRecord>, CacheError> {
    if !polls.contains_key(poll_id) {
        Err(CacheError::UnknownPoll)
    } else {
        match polls[poll_id].after_vote(d, amount) {
            Ok(record) => Ok(polls.insert(poll_id, record)),
            Err(e) => Err(e),
        }
    }
}

/// The poll store: for each timezone the records of its polls, and the number that the
/// next poll gets.
pub struct Polls {
    next_poll_id: PollId,
    zones: Vec<ZonePolls>,
}

impl Polls {
    /// The records of the polls of `timezone`, by poll identifier.
    pub closed spec fn zone(self, timezone: int) -> Map<PollId, PollRecord> {
        self.zones@[timezone].view()
    }

    /// The identifier that the next poll gets.
    pub closed spec fn next_poll_id(self) -> PollId {
        self.next_poll_id
    }

    /// Each timezone has its records, every record is filed under its own poll, no poll
    /// is on record in two timezones, and no poll on record has a number that is still to
    /// be handed out.
    pub closed spec fn wf(self) -> bool {
        &&& self.zones@.len() == NUM_TIMEZONES
        &&& forall|tz: int| 0 <= tz < NUM_TIMEZONES ==> (#[trigger] self.zones@[tz]).wf()
        &&& forall|tz: int, id: PollId|
            0 <= tz < NUM_TIMEZONES && #[trigger] self.zones@[tz].view().contains_key(id) ==> id
                < self.next_poll_id
        &&& forall|a: int, b: int, id: PollId|
            0 <= a < NUM_TIMEZONES && 0 <= b < NUM_TIMEZONES
                && #[trigger] self.zones@[a].view().contains_key(id)
                && #[trigger] self.zones@[b].view().contains_key(id) ==> a == b
    }

    /// What `wf` says, over `zone` and `next_poll_id`: every record is filed under its own
    /// poll, no poll is on record in two timezones, and no poll on record has a number that
    /// is still to be handed out.
    pub proof fn lemma_wf(self)
        requires
            self.wf(),
        ensures
            forall|tz: int, id: PollId|
                0 <= tz < NUM_TIMEZONES && #[trigger] self.zone(tz).contains_key(id) ==> id
                    < self.next_poll_id() && self.zone(tz)[id].poll_id() == id,
            forall|tz: int| 0 <= tz < NUM_TIMEZONES ==> (#[trigger] self.zone(tz)).dom().finite(),
            forall|a: int, b: int, id: PollId|
                0 <= a < NUM_TIMEZONES && 0 <= b < NUM_TIMEZONES && #[trigger] self.zone(
                    a,
                ).contains_key(id) && #[trigger] self.zone(b).contains_key(id) ==> a == b,
    {
        assert forall|tz: int| 0 <= tz < NUM_TIMEZONES implies (#[trigger] self.zone(
            tz,
        )).dom().finite() by {
            self.zones@[tz].lemma_len();
        }
        assert forall|tz: int, id: PollId|
            0 <= tz < NUM_TIMEZONES && #[trigger] self.zone(tz).contains_key(id) implies id
            < self.next_poll_id() && self.zone(tz)[id].poll_id() == id by {
            assert(self.zones@[tz].wf());
            assert(self.zones@[tz].view().contains_key(id));
            assert(self.zones@[tz].slot_of@.contains_key(id));
        }
    }

    /// A store without polls; the first poll will be number 0.
    pub fn new() -> (polls: Polls)
        ensures
            polls.wf(),
            polls.next_poll_id() == 0,
            forall|tz: int|
                0 <= tz < NUM_TIMEZONES ==> #[trigger] polls.zone(tz) == Map::<
                    PollId,
                    PollRecord,
                >::empty(),
    {
        let mut zones: Vec<ZonePolls> = Vec::with_capacity(NUM_TIMEZONES as usize);
        let mut tz: u8 = 0;
        while tz < NUM_TIMEZONES
            invariant
                tz <= NUM_TIMEZONES,
                zones@.len() == tz,
                forall|i: int|
                    0 <= i < tz ==> (#[trigger] zones@[i]).wf() && zones@[i].view() == Map::<
                        PollId,
                        PollRecord,
                    >::empty(),
            decreases NUM_TIMEZONES - tz,
        {
            zones.push(ZonePolls::new());
            tz = tz + 1;
        }
        Polls { next_poll_id: 0, zones }
    }

    /// Creates a poll of kind `kind` in `timezone`: gives it the next identifier and the
    /// next dense slot of the timezone, with a record without votes.
    ///
    /// `UnknownTimezone` where no timezone has that number; `Exhausted` where the
    /// identifiers have run out or a `u32` cannot number one more poll of the timezone. On an error nothing changes.
    pub fn create(&mut self, kind: PollKind, timezone: TimezoneId) -> (created: Result<
        PollId,
        CacheError,
    >)
        requires
            old(self).wf(),
        ensures
            final(self).wf(),
            forall|tz: int|
                0 <= tz < NUM_TIMEZONES && tz != timezone ==> #[trigger] final(self).zone(tz)
                    == old(self).zone(tz),
            match created {
                Ok(id) => {
                    &&& timezone < NUM_TIMEZONES
                    &&& id == old(self).next_poll_id()
                    &&& final(self).next_poll_id() == id + 1
                    &&& !old(self).zone(timezone as int).contains_key(id)
                    &&& final(self).zone(timezone as int) == old(self).zone(timezone as int).insert(
                        id,
                        PollRecord::fresh(
                            kind,
                            VoteCount {
                                poll_type_and_tz: crate::vote_count::tag_of(
                                    timezone as nat,
                                    kind.dimensions(),
                                ) as u8,
                                poll_id: id,
                                count: 0,
                            },
                        ),
                    )
                },
                Err(e) => {
                    &&& *final(self) == *old(self)
                    &&& if timezone >= NUM_TIMEZONES {
                        e == CacheError::UnknownTimezone
                    } else {
                        e == CacheError::Exhausted && (old(self).next_poll_id() == u64::MAX || old(self).zone(
                            timezone as int,
                        ).len() >= u32::MAX)
                    }
                },
            },
    {
        if timezone >= NUM_TIMEZONES {
            return Err(CacheError::UnknownTimezone);
        }
        let id: PollId = self.next_poll_id;
        proof {
            self.zones@[timezone as int].lemma_len();
        }
        if id == u64::MAX || self.zones[timezone as usize].records.len() >= 0xffff_ffff {
            return Err(CacheError::Exhausted);
        }
        let record = PollRecord::new(kind, VoteCount::new(timezone, kind, id));
        assert(!self.zones@[timezone as int].view().contains_key(id));
        let created = self.zones[timezone as usize].create(record);
        assert(created);
        self.next_poll_id = id + 1;
        Ok(id)
    }

    /// The timezone that has poll `poll_id` on record, if one has.
    pub fn find(&self, poll_id: PollId) -> (timezone: Option<TimezoneId>)
        requires
            self.wf(),
        ensures
            match timezone {
                Some(tz) => tz < NUM_TIMEZONES && self.zone(tz as int).contains_key(poll_id),
                None => forall|tz: int|
                    0 <= tz < NUM_TIMEZONES ==> !(#[trigger] self.zone(tz)).contains_key(poll_id),
            },
    {
        let mut tz: u8 = 0;
        while tz < NUM_TIMEZONES
            invariant
                self.wf(),
                tz <= NUM_TIMEZONES,
                forall|t: int| 0 <= t < tz ==> !(#[trigger] self.zone(t)).contains_key(poll_id),
            decreases NUM_TIMEZONES - tz,
        {
            if self.zones[tz as usize].read(poll_id).is_some() {
                return Some(tz);
            }
            tz = tz + 1;
        }
        None
    }

    /// Records a vote of `amount` in direction `d` of poll `poll_id` of `timezone`: the
    /// direction's tally grows by `amount`, its wrap counter by one exactly when the sum
    /// wraps, and the poll's vote count by one.
    ///
    /// `UnknownTimezone` where no timezone has that number, `UnknownPoll` where the
    /// timezone has no record of the poll, `UnknownDirection` where the poll has fewer
    /// dimensions, `Exhausted` where the tally cannot hold the total. On an error nothing
    /// changes.
    pub fn record_vote(
        &mut self,
        timezone: TimezoneId,
        poll_id: PollId,
        d: Direction,
        amount: u32,
    ) -> (done: Result<(), CacheError>)
        requires
            old(self).wf(),
        ensures
            final(self).wf(),
            final(self).next_poll_id() == old(self).next_poll_id(),
            forall|tz: int|
                0 <= tz < NUM_TIMEZONES && tz != timezone ==> #[trigger] final(self).zone(tz)
                    == old(self).zone(tz),
            timezone >= NUM_TIMEZONES ==> done == Err::<(), CacheError>(
                CacheError::UnknownTimezone,
            ),
            timezone < NUM_TIMEZONES ==> match spec_vote(
                old(self).zone(timezone as int),
                poll_id,
                d,
                amount,
            ) {
                Ok(polls) => done is Ok && final(self).zone(timezone as int) == polls,
                Err(e) => done == Err::<(), CacheError>(e) && final(self).zone(timezone as int)
                    == old(self).zone(timezone as int),
            },
    {
        if timezone >= NUM_TIMEZONES {
            return Err(CacheError::UnknownTimezone);
        }
        self.zones[timezone as usize].record_vote(poll_id, d, amount)
    }

    /// A snapshot of the record of poll `poll_id` of `timezone`.
    ///
    /// `UnknownTimezone` where no timezone has that number, `UnknownPoll` where the
    /// timezone has no record of the poll.
    pub fn read(&self, timezone: TimezoneId, poll_id: PollId) -> (record: Result<
        PollRecord,
        CacheError,
    >)
        requires
            self.wf(),
        ensures
            match record {
                Ok(r) => timezone < NUM_TIMEZONES && self.zone(timezone as int).contains_key(
                    poll_id,
                ) && r == self.zone(timezone as int)[poll_id] && r.poll_id() == poll_id,
                Err(e) => if timezone >= NUM_TIMEZONES {
                    e == CacheError::UnknownTimezone
                } else {
                    e == CacheError::UnknownPoll && !self.zone(timezone as int).contains_key(
                        poll_id,
                    )
                },
            },
    {
        if timezone >= NUM_TIMEZONES {
            return Err(CacheError::UnknownTimezone);
        }
        match self.zones[timezone as usize].read(poll_id) {
            Some(r) => Ok(r),
            None => Err(CacheError::UnknownPoll),
        }
    }

    /// Discards every record of `timezone` at once; the
    /// identifiers go on where they were. `UnknownTimezone`, and no change, where no
    /// timezone has that number.
    pub fn evict(&mut self, timezone: TimezoneId) -> (done: Result<(), CacheError>)
        requires
            old(self).wf(),
        ensures
            final(self).wf(),
            final(self).next_poll_id() == old(self).next_poll_id(),
            forall|tz: int|
                0 <= tz < NUM_TIMEZONES && tz != timezone ==> #[trigger] final(self).zone(tz)
                    == old(self).zone(tz),
            match done {
                Ok(_) => timezone < NUM_TIMEZONES && final(self).zone(timezone as int) == Map::<
                    PollId,
                    PollRecord,
                >::empty(),
                Err(e) => e == CacheError::UnknownTimezone && timezone >= NUM_TIMEZONES && *final(self) == *old(self),
            },
    {
        if timezone >= NUM_TIMEZONES {
            return Err(CacheError::UnknownTimezone);
        }
        self.zones[timezone as usize] = ZonePolls::new();
        Ok(())
    }
}

} // verus!
