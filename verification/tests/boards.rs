use poll_cache::leaderboard::{Board, BoardRows};
use poll_cache::rankings::{
    CategoryPeriodPollRankings, CategoryPollRankings, LocationPollRankings, LocationsPollRankings,
};
use poll_cache::types::{CacheError, PeriodBucket};
use poll_cache::vote_count::VoteCount;

fn vc(poll_id: u64, count: u32) -> VoteCount {
    VoteCount { poll_type_and_tz: 2, poll_id, count }
}

fn ids(entries: &Vec<VoteCount>) -> Vec<u64> {
    let mut out: Vec<u64> = Vec::new();
    for e in entries.iter() {
        out.push(e.poll_id);
    }
    out
}

fn is_ranked(entries: &Vec<VoteCount>) -> bool {
    let mut i: usize = 1;
    while i < entries.len() {
        let a = entries[i - 1];
        let b = entries[i];
        if !(a.count > b.count || (a.count == b.count && a.poll_id < b.poll_id)) {
            return false;
        }
        i += 1;
    }
    true
}

#[test]
fn board_orders_by_count_then_by_id() {
    let mut b = Board::new();
    b.update(vc(7, 3));
    b.update(vc(2, 9));
    b.update(vc(5, 3));
    b.update(vc(9, 1));
    b.update(vc(1, 3));
    assert_eq!(b.len(), 5);
    assert_eq!(ids(&b.top_n(10)), vec![2, 1, 5, 7, 9]);
}

#[test]
fn board_moves_a_poll_when_its_count_changes() {
    let mut b = Board::new();
    b.update(vc(1, 5));
    b.update(vc(2, 4));
    b.update(vc(3, 3));
    b.update(vc(3, 6));
    assert_eq!(b.top_n(10), vec![vc(3, 6), vc(1, 5), vc(2, 4)]);
    b.update(vc(1, 4));
    assert_eq!(b.top_n(10), vec![vc(3, 6), vc(1, 4), vc(2, 4)]);
    b.update(vc(3, 0));
    assert_eq!(b.top_n(10), vec![vc(1, 4), vc(2, 4), vc(3, 0)]);
    assert_eq!(b.len(), 3);
}

#[test]
fn board_update_with_the_same_count_changes_nothing() {
    let mut b = Board::new();
    b.update(vc(1, 5));
    b.update(vc(2, 5));
    b.update(vc(2, 5));
    assert_eq!(b.top_n(10), vec![vc(1, 5), vc(2, 5)]);
}

#[test]
fn board_stays_ranked_under_many_updates() {
    let mut b = Board::new();
    let mut seed: u64 = 12345;
    let mut step: u32 = 0;
    while step < 400 {
        seed = seed.wrapping_mul(6364136223846793005).wrapping_add(1442695040888963407);
        let poll_id: u64 = (seed >> 33) % 25;
        let count: u32 = ((seed >> 20) % 7) as u32;
        b.update(vc(poll_id, count));
        let all = b.top_n(1000);
        assert!(is_ranked(&all));
        assert!(all.len() <= 25);
        assert!(all.contains(&vc(poll_id, count)));
        step += 1;
    }
}

#[test]
fn board_top_n_is_a_prefix() {
    let mut b = Board::new();
    b.update(vc(1, 1));
    b.update(vc(2, 2));
    b.update(vc(3, 3));
    assert_eq!(ids(&b.top_n(0)), Vec::<u64>::new());
    assert_eq!(ids(&b.top_n(2)), vec![3, 2]);
    assert_eq!(ids(&b.top_n(3)), vec![3, 2, 1]);
    assert_eq!(ids(&b.top_n(4)), vec![3, 2, 1]);
}

#[test]
fn board_clear_empties() {
    let mut b = Board::new();
    b.update(vc(1, 1));
    b.clear();
    assert_eq!(b.len(), 0);
    assert!(b.top_n(5).is_empty());
}

#[test]
fn board_rows_reserve_and_update() {
    let mut rows = BoardRows::new(4);
    assert_eq!(rows.len(), 0);
    assert!(!rows.update(0, vc(1, 1)));
    assert_eq!(rows.reserve(), Some(0));
    assert_eq!(rows.reserve(), Some(1));
    assert_eq!(rows.len(), 2);
    assert!(rows.update(1, vc(4, 2)));
    assert!(rows.update(1, vc(3, 2)));
    assert!(!rows.update(2, vc(3, 2)));
    assert_eq!(rows.top_n(1, 5), Some(vec![vc(3, 2), vc(4, 2)]));
    assert_eq!(rows.top_n(0, 5), Some(vec![]));
    assert_eq!(rows.top_n(2, 5), None);
    assert!(rows.clear(1));
    assert!(!rows.clear(2));
    assert_eq!(rows.top_n(1, 5), Some(vec![]));
    assert_eq!(rows.len(), 2);
}

#[test]
fn category_period_rankings_keep_what_they_were_made_with() {
    let r = CategoryPeriodPollRankings::new(3, 1000, 16);
    assert_eq!(r.max_poll_number_bytes, 3);
    assert_eq!(r.num_polls_in_period, 1000);
    assert_eq!(r.num_categories(), 0);
}

#[test]
fn category_period_rankings_update_and_read() {
    let mut r = CategoryPeriodPollRankings::new(3, 1000, 16);
    assert_eq!(r.update(0, vc(1, 1)), Err(CacheError::UnknownCategory));
    assert_eq!(r.reserve(), Ok(0));
    assert_eq!(r.reserve(), Ok(1));
    assert_eq!(r.update(1, vc(1, 1)), Ok(()));
    assert_eq!(r.update(1, vc(2, 2)), Ok(()));
    assert_eq!(r.top_n(1, 1), Ok(vec![vc(2, 2)]));
    assert_eq!(r.top_n(0, 1), Ok(vec![]));
    assert_eq!(r.top_n(2, 1), Err(CacheError::UnknownCategory));
    assert_eq!(r.clear(1), Ok(()));
    assert_eq!(r.clear(5), Err(CacheError::UnknownCategory));
    assert_eq!(r.top_n(1, 9), Ok(vec![]));
    assert_eq!(r.num_categories(), 2);
}

#[test]
fn location_rankings_have_their_own_and_their_categories_boards() {
    let mut r = LocationPollRankings::new();
    assert_eq!(r.num_categories(), 0);
    r.update_location(vc(1, 5));
    r.update_location(vc(2, 6));
    assert_eq!(r.update_category(0, vc(1, 5)), Err(CacheError::UnknownCategory));
    assert_eq!(r.reserve(), Ok(0));
    assert_eq!(r.update_category(0, vc(1, 5)), Ok(()));
    assert_eq!(r.top_n_location(5), vec![vc(2, 6), vc(1, 5)]);
    assert_eq!(r.top_n_category(0, 5), Ok(vec![vc(1, 5)]));
    assert_eq!(r.top_n_category(1, 5), Err(CacheError::UnknownCategory));
    r.clear();
    assert!(r.top_n_location(5).is_empty());
    assert_eq!(r.top_n_category(0, 5), Ok(vec![]));
    assert_eq!(r.num_categories(), 1);
}

#[test]
fn locations_rankings_by_bucket() {
    let mut r = LocationsPollRankings::new();
    let today = PeriodBucket::Today;
    let week = PeriodBucket::ThisWeek;
    assert_eq!(r.num_rows(today), 0);
    assert_eq!(r.update_location(today, 0, vc(1, 1)), Err(CacheError::UnknownLocation));
    assert_eq!(r.reserve_row(today), Ok(0));
    assert_eq!(r.reserve_row(today), Ok(1));
    assert_eq!(r.reserve_row(week), Ok(0));
    assert_eq!(r.reserve_column(today, 1), Ok(0));
    assert_eq!(r.reserve_column(today, 1), Ok(1));
    assert_eq!(r.reserve_column(today, 2), Err(CacheError::UnknownLocation));
    assert_eq!(r.update_location(today, 1, vc(1, 1)), Ok(()));
    assert_eq!(r.update_category(today, 1, 1, vc(1, 1)), Ok(()));
    assert_eq!(r.update_category(today, 1, 2, vc(1, 1)), Err(CacheError::UnknownCategory));
    assert_eq!(r.update_category(today, 2, 0, vc(1, 1)), Err(CacheError::UnknownLocation));
    assert_eq!(r.update_category(today, 0, 0, vc(1, 1)), Err(CacheError::UnknownCategory));
    assert_eq!(r.top_n_location(today, 1, 3), Ok(vec![vc(1, 1)]));
    assert_eq!(r.top_n_location(week, 0, 3), Ok(vec![]));
    assert_eq!(r.top_n_location(week, 1, 3), Err(CacheError::UnknownLocation));
    assert_eq!(r.top_n_category(today, 1, 1, 3), Ok(vec![vc(1, 1)]));
    assert_eq!(r.top_n_category(today, 1, 0, 3), Ok(vec![]));
    assert_eq!(r.top_n_category(today, 1, 2, 3), Err(CacheError::UnknownCategory));
    assert_eq!(r.top_n_category(today, 5, 2, 3), Err(CacheError::UnknownLocation));
    assert_eq!(r.clear(today, 1), Ok(()));
    assert_eq!(r.clear(today, 2), Err(CacheError::UnknownLocation));
    assert_eq!(r.top_n_location(today, 1, 3), Ok(vec![]));
    r.forget(today);
    assert_eq!(r.num_rows(today), 0);
    assert_eq!(r.num_rows(week), 1);
}

#[test]
fn category_rankings_by_bucket() {
    let mut r = CategoryPollRankings::new();
    let today = PeriodBucket::Today;
    assert_eq!(r.reserve_row(today), Ok(0));
    assert_eq!(r.reserve_row(PeriodBucket::LastMonth), Ok(0));
    assert_eq!(r.update(today, 0, vc(8, 2)), Ok(()));
    assert_eq!(r.update(today, 0, vc(7, 2)), Ok(()));
    assert_eq!(r.update(today, 1, vc(7, 2)), Err(CacheError::UnknownCategory));
    assert_eq!(r.top_n(today, 0, 9), Ok(vec![vc(7, 2), vc(8, 2)]));
    assert_eq!(r.top_n(PeriodBucket::LastMonth, 0, 9), Ok(vec![]));
    assert_eq!(r.top_n(PeriodBucket::Yesterday, 0, 9), Err(CacheError::UnknownCategory));
    assert_eq!(r.clear(today, 0), Ok(()));
    assert_eq!(r.clear(today, 3), Err(CacheError::UnknownCategory));
    assert_eq!(r.top_n(today, 0, 9), Ok(vec![]));
    r.forget(today);
    assert_eq!(r.num_rows(today), 0);
    assert_eq!(r.num_rows(PeriodBucket::LastMonth), 1);
}
