//! Leaderboards: short sequences of vote counts kept in ranking order.

use vstd::prelude::*;
use crate::types::PollId;
use crate::vote_count::{ranks_before, VoteCount};

verus! {

/// Every entry stands above all that follow it: counts never rise along the board, and
/// among equal counts the identifiers rise.
pub open spec fn is_ranked(s: Seq<VoteCount>) -> bool {
    forall|i: int, j: int| 0 <= i < j < s.len() ==> ranks_before(#[trigger] s[i], #[trigger] s[j])
}

/// No poll has two entries.
pub open spec fn has_distinct_polls(s: Seq<VoteCount>) -> bool {
    forall|i: int, j: int|
        0 <= i < j < s.len() ==> (#[trigger] s[i]).poll_id != (#[trigger] s[j]).poll_id
}

/// What every leaderboard is: ranked, with one entry for a poll at most.
pub open spec fn is_board(s: Seq<VoteCount>) -> bool {
    is_ranked(s) && has_distinct_polls(s)
}

/// Whether poll `id` has an entry in `s`.
pub open spec fn lists_poll(s: Seq<VoteCount>, id: PollId) -> bool {
    exists|i: int| 0 <= i < s.len() && (#[trigger] s[i]).poll_id == id
}

/// `s` without the entries of poll `id`, the others in their order.
pub open spec fn without_poll(s: Seq<VoteCount>, id: PollId) -> Seq<VoteCount>
    decreases s.len(),
{
    if s.len() == 0 {
        s
    } else if s.last().poll_id == id {
        without_poll(s.drop_last(), id)
    } else {
        without_poll(s.drop_last(), id).push(s.last())
    }
}

/// How many entries of `s` stand above `vc`.
pub open spec fn rank_position(s: Seq<VoteCount>, vc: VoteCount) -> nat
    decreases s.len(),
{
    if s.len() == 0 {
        0
    } else if ranks_before(s.last(), vc) {
        rank_position(s.drop_last(), vc) + 1
    } else {
        rank_position(s.drop_last(), vc)
    }
}

/// The board after the poll of `vc` was given the count that `vc` holds: its former entry
/// is gone, and `vc` stands below exactly the entries that rank before it.
pub open spec fn ranked_update(s: Seq<VoteCount>, vc: VoteCount) -> Seq<VoteCount> {
    let rest = without_poll(s, vc.poll_id);
    rest.insert(rank_position(rest, vc) as int, vc)
}

/// The board after each of `updates` was applied in turn.
pub open spec fn ranked_updates(s: Seq<VoteCount>, updates: Seq<VoteCount>) -> Seq<VoteCount>
    decreases updates.len(),
{
    if updates.len() == 0 {
        s
    } else {
        ranked_update(ranked_updates(s, updates.drop_last()), updates.last())
    }
}

/// The first `n` entries of `s`, or all of it where it has fewer.
pub open spec fn top_of(s: Seq<VoteCount>, n: nat) -> Seq<VoteCount> {
    if n < s.len() {
        s.subrange(0, n as int)
    } else {
        s
    }
}

proof fn lemma_without_absent(s: Seq<VoteCount>, id: PollId)
    requires
        !lists_poll(s, id),
    ensures
        without_poll(s, id) == s,
    decreases s.len(),
{
    if s.len() > 0 {
        let front = s.drop_last();
        assert forall|i: int| 0 <= i < front.len() implies (#[trigger] front[i]).poll_id != id by {
            assert(s[i].poll_id != id);
        }
        lemma_without_absent(front, id);
        assert(s[s.len() - 1].poll_id != id);
        assert(front.push(s.last()) =~= s);
    }
}

proof fn lemma_without_present(s: Seq<VoteCount>, id: PollId, at: int)
    requires
        has_distinct_polls(s),
        0 <= at < s.len(),
        s[at].poll_id == id,
    ensures
        without_poll(s, id) == s.remove(at),
    decreases s.len(),
{
    let front = s.drop_last();
    if at == s.len() - 1 {
        assert forall|i: int| 0 <= i < front.len() implies (#[trigger] front[i]).poll_id != id by {
            assert(s[i].poll_id != s[at].poll_id);
        }
        lemma_without_absent(front, id);
        assert(front =~= s.remove(at));
    } else {
        assert(s[at].poll_id != s[s.len() - 1].poll_id);
        assert(has_distinct_polls(front)) by {
            assert forall|i: int, j: int| 0 <= i < j < front.len() implies (#[trigger] front[i]).poll_id
                != (#[trigger] front[j]).poll_id by {
                assert(s[i].poll_id != s[j].poll_id);
            }
        }
        lemma_without_present(front, id, at);
        assert(front.remove(at).push(s.last()) =~= s.remove(at));
    }
}

/// What is left when a poll is taken off a board is a board that does not list the poll,
/// and lists nothing that the board did not.
proof fn lemma_without_is_board(s: Seq<VoteCount>, id: PollId)
    requires
        is_board(s),
    ensures
        is_board(without_poll(s, id)),
        !lists_poll(without_poll(s, id), id),
        forall|k: int|
            0 <= k < without_poll(s, id).len() ==> s.contains(#[trigger] without_poll(s, id)[k]),
{
    let rest = without_poll(s, id);
    if lists_poll(s, id) {
        let at = choose|i: int| 0 <= i < s.len() && (#[trigger] s[i]).poll_id == id;
        lemma_without_present(s, id, at);
        assert forall|k: int| 0 <= k < rest.len() implies (#[trigger] rest[k]).poll_id != id
            && s.contains(rest[k]) by {
            if k < at {
                assert(rest[k] == s[k]);
                assert(s[k].poll_id != s[at].poll_id);
            } else {
                assert(rest[k] == s[k + 1]);
                assert(s[at].poll_id != s[k + 1].poll_id);
            }
        }
        assert forall|i: int, j: int| 0 <= i < j < rest.len() implies ranks_before(
            #[trigger] rest[i],
            #[trigger] rest[j],
        ) && rest[i].poll_id != rest[j].poll_id by {
            let si = if i < at { i } else { i + 1 };
            let sj = if j < at { j } else { j + 1 };
            assert(rest[i] == s[si] && rest[j] == s[sj]);
            assert(ranks_before(s[si], s[sj]));
            assert(s[si].poll_id != s[sj].poll_id);
        }
    } else {
        lemma_without_absent(s, id);
    }
}

proof fn lemma_rank_position_is_split(s: Seq<VoteCount>, vc: VoteCount, p: int)
    requires
        0 <= p <= s.len(),
        forall|j: int| 0 <= j < p ==> ranks_before(#[trigger] s[j], vc),
        forall|j: int| p <= j < s.len() ==> !ranks_before(#[trigger] s[j], vc),
    ensures
        rank_position(s, vc) == p,
    decreases s.len(),
{
    if s.len() > 0 {
        let front = s.drop_last();
        if p == s.len() {
            assert(ranks_before(s[s.len() - 1], vc));
            assert forall|j: int| 0 <= j < p - 1 implies ranks_before(#[trigger] front[j], vc) by {
                assert(front[j] == s[j]);
            }
            lemma_rank_position_is_split(front, vc, p - 1);
        } else {
            assert(!ranks_before(s[s.len() - 1], vc));
            assert forall|j: int| 0 <= j < p implies ranks_before(#[trigger] front[j], vc) by {
                assert(front[j] == s[j]);
            }
            assert forall|j: int| p <= j < front.len() implies !ranks_before(
                #[trigger] front[j],
                vc,
            ) by {
                assert(front[j] == s[j]);
            }
            lemma_rank_position_is_split(front, vc, p);
        }
    }
}

/// On a ranked sequence the entries that stand above `vc` are its first `rank_position`.
proof fn lemma_rank_position_splits(s: Seq<VoteCount>, vc: VoteCount)
    requires
        is_ranked(s),
    ensures
        rank_position(s, vc) <= s.len(),
        forall|j: int| 0 <= j < rank_position(s, vc) ==> ranks_before(#[trigger] s[j], vc),
        forall|j: int| rank_position(s, vc) <= j < s.len() ==> !ranks_before(#[trigger] s[j], vc),
    decreases s.len(),
{
    if s.len() > 0 {
        let front = s.drop_last();
        assert(is_ranked(front)) by {
            assert forall|i: int, j: int| 0 <= i < j < front.len() implies ranks_before(
                #[trigger] front[i],
                #[trigger] front[j],
            ) by {
                assert(ranks_before(s[i], s[j]));
            }
        }
        lemma_rank_position_splits(front, vc);
        let p = rank_position(front, vc);
        assert forall|j: int| 0 <= j < p implies ranks_before(#[trigger] s[j], vc) by {
            assert(front[j] == s[j]);
        }
        if ranks_before(s.last(), vc) {
            // everything in front stands above the last entry, and so above `vc`
            assert forall|j: int| 0 <= j < s.len() implies ranks_before(#[trigger] s[j], vc) by {
                if j < s.len() - 1 {
                    assert(ranks_before(s[j], s[s.len() - 1]));
                }
            }
            lemma_rank_position_is_split(front, vc, front.len() as int);
        } else {
            assert forall|j: int| p <= j < s.len() implies !ranks_before(#[trigger] s[j], vc) by {
                if j < s.len() - 1 {
                    assert(front[j] == s[j]);
                }
            }
        }
    }
}

/// An update leaves a board a board, with the new count on it: the board is one entry
/// longer where the poll was not on it, and as long as it was where it was.
pub proof fn lemma_update_keeps_ranking(s: Seq<VoteCount>, vc: VoteCount)
    requires
        is_board(s),
    ensures
        is_board(ranked_update(s, vc)),
        ranked_update(s, vc).contains(vc),
        ranked_update(s, vc).len() == if lists_poll(s, vc.poll_id) {
            s.len()
        } else {
            s.len() + 1
        },
{
    let rest = without_poll(s, vc.poll_id);
    lemma_without_is_board(s, vc.poll_id);
    lemma_rank_position_splits(rest, vc);
    let p = rank_position(rest, vc) as int;
    let out = ranked_update(s, vc);
    assert(out[p] == vc);
    assert forall|i: int, j: int| 0 <= i < j < out.len() implies ranks_before(
        #[trigger] out[i],
        #[trigger] out[j],
    ) && out[i].poll_id != out[j].poll_id by {
        if j < p {
            assert(out[i] == rest[i] && out[j] == rest[j]);
        } else if j == p {
            assert(out[i] == rest[i]);
            assert(rest[i].poll_id != vc.poll_id);
        } else if i < p {
            assert(out[i] == rest[i] && out[j] == rest[j - 1]);
        } else if i == p {
            assert(out[j] == rest[j - 1]);
            assert(!ranks_before(rest[j - 1], vc));
            assert(rest[j - 1].poll_id != vc.poll_id);
        } else {
            assert(out[i] == rest[i - 1] && out[j] == rest[j - 1]);
        }
    }
    if lists_poll(s, vc.poll_id) {
        let at = choose|i: int| 0 <= i < s.len() && (#[trigger] s[i]).poll_id == vc.poll_id;
        lemma_without_present(s, vc.poll_id, at);
    } else {
        lemma_without_absent(s, vc.poll_id);
    }
}

/// Whatever updates a board goes through, and in whatever order, it stays ranked: counts
/// never rise along it, equal counts stand by rising identifier, and no poll is on it
/// twice. The empty board is a board, so this holds of every board that was built by
/// updates alone.
pub proof fn lemma_updates_keep_ranking(s: Seq<VoteCount>, updates: Seq<VoteCount>)
    requires
        is_board(s),
    ensures
        is_board(ranked_updates(s, updates)),
    decreases updates.len(),
{
    if updates.len() > 0 {
        lemma_updates_keep_ranking(s, updates.drop_last());
        lemma_update_keeps_ranking(ranked_updates(s, updates.drop_last()), updates.last());
    }
}

/// Gives the poll of `vc` the count that `vc` holds and puts it where it ranks.
fn update_board(board: &mut Vec<VoteCount>, vc: VoteCount)
    requires
        is_board(old(board)@),
    ensures
        final(board)@ == ranked_update(old(board)@, vc),
        is_board(final(board)@),
{
    let ghost before = board@;
    let mut at: usize = 0;
    while at < board.len() && board[at].poll_id != vc.poll_id
        invariant
            at <= board.len(),
            board@ == before,
            forall|j: int| 0 <= j < at ==> (#[trigger] board@[j]).poll_id != vc.poll_id,
        decreases board.len() - at,
    {
        at = at + 1;
    }
    if at < board.len() {
        board.remove(at);
        proof {
            lemma_without_present(before, vc.poll_id, at as int);
        }
    } else {
        proof {
            lemma_without_absent(before, vc.poll_id);
        }
    }
    let ghost rest = board@;
    proof {
        lemma_without_is_board(before, vc.poll_id);
    }
    let mut p: usize = 0;
    while p < board.len() && board[p].ranks_before(&vc)
        invariant
            p <= board.len(),
            board@ == rest,
            forall|j: int| 0 <= j < p ==> ranks_before(#[trigger] board@[j], vc),
        decreases board.len() - p,
    {
        p = p + 1;
    }
    proof {
        assert forall|j: int| p <= j < rest.len() implies !ranks_before(#[trigger] rest[j], vc) by {
            if j > p {
                assert(ranks_before(rest[p as int], rest[j]));
            }
        }
        lemma_rank_position_is_split(rest, vc, p as int);
        lemma_update_keeps_ranking(before, vc);
    }
    board.insert(p, vc);
}

/// The first `n` entries of the board, or all of it where it has fewer.
fn top_n_of(board: &Vec<VoteCount>, n: usize) -> (top: Vec<VoteCount>)
    ensures
        top@ == top_of(board@, n as nat),
{
    let mut top: Vec<VoteCount> = Vec::new();
    let mut i: usize = 0;
    while i < board.len() && i < n
        invariant
            i <= board.len(),
            i <= n,
            top@ == board@.subrange(0, i as int),
        decreases board.len() - i,
    {
        top.push(board[i]);
        assert(top@ =~= board@.subrange(0, i + 1));
        i = i + 1;
    }
    assert(board@.subrange(0, board@.len() as int) =~= board@);
    top
}

} // verus!

verus! {

/// One leaderboard.
pub struct Board {
    entries: Vec<VoteCount>,
}

impl View for Board {
    type V = Seq<VoteCount>;

    closed spec fn view(&self) -> Seq<VoteCount> {
        self.entries@
    }
}

impl Board {
    /// The entries are ranked, and no poll has two.
    pub open spec fn wf(self) -> bool {
        is_board(self@)
    }

    /// A board without entries.
    pub fn new() -> (board: Board)
        ensures
            board@ == Seq::<VoteCount>::empty(),
            board.wf(),
    {
        Board { entries: Vec::new() }
    }

    /// The number of entries.
    pub fn len(&self) -> (n: usize)
        ensures
            n == self@.len(),
    {
        self.entries.len()
    }

    /// Gives the poll of `vc` the count that `vc` holds and puts it where it ranks.
    pub fn update(&mut self, vc: VoteCount)
        requires
            old(self).wf(),
        ensures
            final(self).wf(),
            final(self)@ == ranked_update(old(self)@, vc),
    {
        update_board(&mut self.entries, vc);
    }

    /// The first `n` entries, or all of them where the board has fewer.
    pub fn top_n(&self, n: usize) -> (top: Vec<VoteCount>)
        ensures
            top@ == top_of(self@, n as nat),
    {
        top_n_of(&self.entries, n)
    }

    /// Takes every entry off the board.
    pub fn clear(&mut self)
        ensures
            final(self)@ == Seq::<VoteCount>::empty(),
            final(self).wf(),
    {
        self.entries.clear();
    }
}

/// Leaderboards side by side, one for each dense index handed out in a period bucket.
pub struct BoardRows {
    rows: Vec<Vec<VoteCount>>,
}

impl View for BoardRows {
    type V = Seq<Seq<VoteCount>>;

    closed spec fn view(&self) -> Seq<Seq<VoteCount>> {
        Seq::new(self.rows@.len(), |i: int| self.rows@[i]@)
    }
}

impl BoardRows {
    /// Every row is a leaderboard, and a `u32` can number the rows.
    pub open spec fn wf(self) -> bool {
        &&& self@.len() <= u32::MAX
        &&& forall|i: int| 0 <= i < self@.len() ==> is_board(#[trigger] self@[i])
    }

    /// No rows yet, with room for `capacity` of them.
    pub fn new(capacity: usize) -> (rows: BoardRows)
        ensures
            rows@ == Seq::<Seq<VoteCount>>::empty(),
            rows.wf(),
    {
        let rows = BoardRows { rows: Vec::with_capacity(capacity) };
        assert(rows@ =~= Seq::<Seq<VoteCount>>::empty());
        rows
    }

    /// The number of rows.
    pub fn len(&self) -> (n: usize)
        ensures
            n == self@.len(),
    {
        self.rows.len()
    }

    /// Adds an empty row and returns its index, the next one unused. `None`, and no change,
    /// when a `u32` cannot number one row more.
    pub fn reserve(&mut self) -> (index: Option<u32>)
        requires
            old(self).wf(),
        ensures
            final(self).wf(),
            match index {
                Some(i) => i == old(self)@.len() && final(self)@ == old(self)@.push(
                    Seq::<VoteCount>::empty(),
                ),
                None => old(self)@.len() == u32::MAX && final(self)@ == old(self)@,
            },
    {
        let n: usize = self.rows.len();
        if n >= 0xffff_ffff {
            return None;
        }
        self.rows.push(Vec::new());
        assert(self@ =~= old(self)@.push(Seq::<VoteCount>::empty()));
        Some(n as u32)
    }

    /// Updates the board of row `index` with `vc`. `false`, and no change, where there is
    /// no such row.
    pub fn update(&mut self, index: u32, vc: VoteCount) -> (found: bool)
        requires
            old(self).wf(),
        ensures
            final(self).wf(),
            found <==> index < old(self)@.len(),
            found ==> final(self)@ == old(self)@.update(
                index as int,
                ranked_update(old(self)@[index as int], vc),
            ),
            !found ==> final(self)@ == old(self)@,
    {
        if (index as usize) < self.rows.len() {
            assert(is_board(self@[index as int]));
            update_board(&mut self.rows[index as usize], vc);
            assert(self@ =~= old(self)@.update(
                index as int,
                ranked_update(old(self)@[index as int], vc),
            ));
            true
        } else {
            false
        }
    }

    /// The first `n` entries of the board of row `index`, or all of it where it has fewer.
    /// `None` where there is no such row.
    pub fn top_n(&self, index: u32, n: usize) -> (top: Option<Vec<VoteCount>>)
        ensures
            match top {
                Some(t) => index < self@.len() && t@ == top_of(self@[index as int], n as nat),
                None => index >= self@.len(),
            },
    {
        if (index as usize) < self.rows.len() {
            Some(top_n_of(&self.rows[index as usize], n))
        } else {
            None
        }
    }

    /// Empties the board of row `index`. `false`, and no change, where there is no such row.
    pub fn clear(&mut self, index: u32) -> (found: bool)
        requires
            old(self).wf(),
        ensures
            final(self).wf(),
            found <==> index < old(self)@.len(),
            found ==> final(self)@ == old(self)@.update(index as int, Seq::<VoteCount>::empty()),
            !found ==> final(self)@ == old(self)@,
    {
        if (index as usize) < self.rows.len() {
            self.rows[index as usize].clear();
            assert(self@ =~= old(self)@.update(index as int, Seq::<VoteCount>::empty()));
            true
        } else {
            false
        }
    }
}

} // verus!
