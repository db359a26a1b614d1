use poll_cache::cache::Cache;
use poll_cache::pending::Cursor;
use poll_cache::period::CachePeriodIds;
use poll_cache::poll_store::Polls;
use poll_cache::polls::{PollRecord, TwoDPoll};
use poll_cache::tally::Tally;
use poll_cache::types::{CacheError, Direction, PeriodBucket, PollKind, NUM_TIMEZONES};
use poll_cache::vote_count::VoteCount;

fn vc(poll_id: u64, count: u32) -> VoteCount {
    VoteCount { poll_type_and_tz: 2, poll_id, count }
}

#[test]
fn there_are_38_timezones() {
    assert_eq!(NUM_TIMEZONES, 38);
}

#[test]
fn poll_store_issues_rising_identifiers() {
    let mut polls = Polls::new();
    assert_eq!(polls.create(PollKind::OneD, 0), Ok(0));
    assert_eq!(polls.create(PollKind::TwoD, 5), Ok(1));
    assert_eq!(polls.create(PollKind::ThreeD, 0), Ok(2));
    assert_eq!(polls.create(PollKind::OneD, 38), Err(CacheError::UnknownTimezone));
    assert_eq!(polls.create(PollKind::OneD, 37), Ok(3));
}

#[test]
fn poll_store_reads_what_it_recorded() {
    let mut polls = Polls::new();
    let id = polls.create(PollKind::TwoD, 5).unwrap();
    assert_eq!(
        polls.read(5, id),
        Ok(PollRecord::TwoD(TwoDPoll::new(VoteCount::new(5, PollKind::TwoD, id))))
    );
    assert_eq!(polls.record_vote(5, id, Direction::Dim1Dir1, 24), Ok(()));
    assert_eq!(polls.record_vote(5, id, Direction::Dim2Dir2, 6), Ok(()));
    assert_eq!(polls.record_vote(5, id, Direction::Dim1Dir1, 24), Ok(()));
    match polls.read(5, id) {
        Ok(PollRecord::TwoD(p)) => {
            assert_eq!(p.dim1_dir1, Tally { over: 0, sum: 48 });
            assert_eq!(p.dim2_dir2, Tally { over: 0, sum: 6 });
            assert_eq!(p.dim1_dir2, Tally { over: 0, sum: 0 });
            assert_eq!(p.vote_count, VoteCount { poll_type_and_tz: 44, poll_id: id, count: 3 });
        }
        _ => panic!("the poll is on record"),
    }
}

#[test]
fn poll_store_errors() {
    let mut polls = Polls::new();
    let id = polls.create(PollKind::OneD, 5).unwrap();
    assert_eq!(polls.record_vote(38, id, Direction::Dim1Dir1, 1), Err(CacheError::UnknownTimezone));
    assert_eq!(polls.record_vote(4, id, Direction::Dim1Dir1, 1), Err(CacheError::UnknownPoll));
    assert_eq!(polls.record_vote(5, id + 1, Direction::Dim1Dir1, 1), Err(CacheError::UnknownPoll));
    assert_eq!(polls.record_vote(5, id, Direction::Dim2Dir1, 1), Err(CacheError::UnknownDirection));
    assert_eq!(polls.read(200, id), Err(CacheError::UnknownTimezone));
    assert_eq!(polls.read(4, id), Err(CacheError::UnknownPoll));
    assert_eq!(polls.evict(38), Err(CacheError::UnknownTimezone));
    match polls.read(5, id) {
        Ok(r) => assert_eq!(r.vote_count().count, 0),
        Err(_) => panic!("the poll is on record"),
    }
}

#[test]
fn poll_store_wraps_twice_and_keeps_the_total() {
    let mut polls = Polls::new();
    let id = polls.create(PollKind::OneD, 1).unwrap();
    let amount: u32 = 0xc000_0000;
    let mut exact: u64 = 0;
    let mut i: u32 = 0;
    while i < 4 {
        assert_eq!(polls.record_vote(1, id, Direction::Dim1Dir2, amount), Ok(()));
        exact += amount as u64;
        i += 1;
    }
    match polls.read(1, id) {
        Ok(PollRecord::OneD(p)) => {
            assert_eq!(p.dim1_dir2, Tally { over: 3, sum: 0 });
            assert_eq!(p.dim1_dir2.value(), exact);
            assert_eq!(p.vote_count.count, 4);
        }
        _ => panic!("the poll is on record"),
    }
}

#[test]
fn poll_store_evicts_one_timezone() {
    let mut polls = Polls::new();
    let a = polls.create(PollKind::OneD, 1).unwrap();
    let b = polls.create(PollKind::OneD, 2).unwrap();
    assert_eq!(polls.evict(1), Ok(()));
    assert_eq!(polls.read(1, a), Err(CacheError::UnknownPoll));
    assert_eq!(polls.record_vote(1, a, Direction::Dim1Dir1, 1), Err(CacheError::UnknownPoll));
    assert!(polls.read(2, b).is_ok());
    assert_eq!(polls.create(PollKind::OneD, 1), Ok(b + 1));
}

#[test]
fn cache_starts_empty() {
    let cache = Cache::new();
    assert_eq!(cache.category_period_ids(), CachePeriodIds::new());
    assert_eq!(cache.period_ids(0), Ok(CachePeriodIds::new()));
    assert_eq!(cache.period_ids(37), Ok(CachePeriodIds::new()));
    assert_eq!(cache.period_ids(38), Err(CacheError::UnknownTimezone));
    assert_eq!(cache.is_rotating(0), Ok(false));
    assert_eq!(cache.is_rotating(38), Err(CacheError::UnknownTimezone));
    assert_eq!(cache.lookup_location(0, PeriodBucket::Today, 1), Err(CacheError::UnknownLocation));
    assert_eq!(cache.lookup_category(PeriodBucket::Today, 1), Err(CacheError::UnknownCategory));
    assert_eq!(cache.read_poll_in(0, 0), Err(CacheError::UnknownPoll));
    assert_eq!(
        cache.pages_since(1, None, Cursor { page: 0, offset: 0 }),
        vec![Vec::<u64>::new()]
    );
}

#[test]
fn cache_locate_is_stable_within_a_bucket() {
    let mut cache = Cache::new();
    let today = PeriodBucket::Today;
    assert_eq!(cache.locate_location(3, today, 500), Ok(0));
    assert_eq!(cache.locate_location(3, today, 501), Ok(1));
    assert_eq!(cache.locate_location(3, today, 500), Ok(0));
    assert_eq!(cache.locate_location(4, today, 501), Ok(0));
    assert_eq!(cache.locate_location(3, PeriodBucket::ThisWeek, 501), Ok(0));
    assert_eq!(cache.locate_location(38, today, 501), Err(CacheError::UnknownTimezone));
    assert_eq!(cache.lookup_location(3, today, 501), Ok(1));
    assert_eq!(cache.lookup_location(38, today, 501), Err(CacheError::UnknownTimezone));
    assert_eq!(cache.locate_location_category(3, today, 501, 9), Ok(0));
    assert_eq!(cache.locate_location_category(3, today, 501, 8), Ok(1));
    assert_eq!(cache.locate_location_category(3, today, 501, 9), Ok(0));
    assert_eq!(cache.locate_location_category(3, today, 500, 8), Ok(0));
    assert_eq!(
        cache.locate_location_category(3, today, 777, 8),
        Err(CacheError::UnknownLocation)
    );
    assert_eq!(
        cache.locate_location_category(40, today, 501, 8),
        Err(CacheError::UnknownTimezone)
    );
    assert_eq!(cache.lookup_location_category(3, today, 501, 8), Ok(1));
    assert_eq!(
        cache.lookup_location_category(3, today, 501, 7),
        Err(CacheError::UnknownCategory)
    );
    assert_eq!(
        cache.lookup_location_category(3, today, 502, 7),
        Err(CacheError::UnknownLocation)
    );
    assert_eq!(
        cache.lookup_location_category(99, today, 501, 8),
        Err(CacheError::UnknownTimezone)
    );
}

#[test]
fn cache_locating_reserves_the_boards() {
    let mut cache = Cache::new();
    let today = PeriodBucket::Today;
    assert_eq!(cache.update_location_ranking(3, today, 0, vc(1, 1)), Err(CacheError::UnknownLocation));
    let row = cache.locate_location(3, today, 500).unwrap();
    assert_eq!(cache.top_n_location(3, today, row, 5), Ok(vec![]));
    assert_eq!(
        cache.update_location_category_ranking(3, today, row, 0, vc(1, 1)),
        Err(CacheError::UnknownCategory)
    );
    let column = cache.locate_location_category(3, today, 500, 9).unwrap();
    assert_eq!(cache.top_n_location_category(3, today, row, column, 5), Ok(vec![]));
    assert_eq!(cache.update_location_ranking(3, today, row, vc(1, 1)), Ok(()));
    assert_eq!(cache.update_location_ranking(3, today, row, vc(2, 1)), Ok(()));
    assert_eq!(cache.update_location_ranking(3, today, row, vc(3, 4)), Ok(()));
    assert_eq!(cache.update_location_category_ranking(3, today, row, column, vc(2, 1)), Ok(()));
    assert_eq!(cache.top_n_location(3, today, row, 2), Ok(vec![vc(3, 4), vc(1, 1)]));
    assert_eq!(cache.top_n_location(3, today, row, 9), Ok(vec![vc(3, 4), vc(1, 1), vc(2, 1)]));
    assert_eq!(cache.top_n_location_category(3, today, row, column, 9), Ok(vec![vc(2, 1)]));
    assert_eq!(cache.top_n_location(3, today, row + 1, 9), Err(CacheError::UnknownLocation));
    assert_eq!(cache.top_n_location(38, today, row, 9), Err(CacheError::UnknownTimezone));
    assert_eq!(
        cache.top_n_location_category(3, today, row, column + 1, 9),
        Err(CacheError::UnknownCategory)
    );
    assert_eq!(
        cache.top_n_location_category(3, today, row + 1, column, 9),
        Err(CacheError::UnknownLocation)
    );
    assert_eq!(
        cache.top_n_location_category(38, today, row, column, 9),
        Err(CacheError::UnknownTimezone)
    );
    assert_eq!(cache.update_location_ranking(38, today, row, vc(1, 1)), Err(CacheError::UnknownTimezone));
    assert_eq!(
        cache.update_location_category_ranking(38, today, row, column, vc(1, 1)),
        Err(CacheError::UnknownTimezone)
    );
    assert_eq!(
        cache.update_location_category_ranking(3, today, row + 1, column, vc(1, 1)),
        Err(CacheError::UnknownLocation)
    );
    assert_eq!(cache.clear_location_rankings(3, today, row), Ok(()));
    assert_eq!(cache.clear_location_rankings(3, today, row + 1), Err(CacheError::UnknownLocation));
    assert_eq!(cache.clear_location_rankings(38, today, row), Err(CacheError::UnknownTimezone));
    assert_eq!(cache.top_n_location(3, today, row, 9), Ok(vec![]));
    assert_eq!(cache.top_n_location_category(3, today, row, column, 9), Ok(vec![]));
}

#[test]
fn cache_category_rankings() {
    let mut cache = Cache::new();
    let week = PeriodBucket::ThisWeek;
    assert_eq!(cache.update_category_ranking(week, 0, vc(1, 1)), Err(CacheError::UnknownCategory));
    assert_eq!(cache.locate_category(week, 40), Ok(0));
    assert_eq!(cache.locate_category(week, 41), Ok(1));
    assert_eq!(cache.locate_category(week, 40), Ok(0));
    assert_eq!(cache.locate_category(PeriodBucket::LastWeek, 41), Ok(0));
    assert_eq!(cache.lookup_category(week, 41), Ok(1));
    assert_eq!(cache.lookup_category(week, 42), Err(CacheError::UnknownCategory));
    assert_eq!(cache.update_category_ranking(week, 1, vc(5, 2)), Ok(()));
    assert_eq!(cache.update_category_ranking(week, 1, vc(4, 2)), Ok(()));
    assert_eq!(cache.update_category_ranking(week, 1, vc(6, 3)), Ok(()));
    assert_eq!(cache.top_n_category(week, 1, 2), Ok(vec![vc(6, 3), vc(4, 2)]));
    assert_eq!(cache.top_n_category(week, 0, 2), Ok(vec![]));
    assert_eq!(cache.top_n_category(week, 2, 2), Err(CacheError::UnknownCategory));
    assert_eq!(cache.clear_category_ranking(week, 1), Ok(()));
    assert_eq!(cache.clear_category_ranking(week, 2), Err(CacheError::UnknownCategory));
    assert_eq!(cache.top_n_category(week, 1, 2), Ok(vec![]));
}

#[test]
fn cache_rotate_swaps_the_stale_buckets_only() {
    let mut cache = Cache::new();
    let old_ids = CachePeriodIds::seeded(100, 15, 4).unwrap();
    assert_eq!(cache.rotate(3, old_ids), Ok(()));
    assert_eq!(cache.rotate(4, old_ids), Ok(()));
    assert_eq!(cache.period_ids(3), Ok(old_ids));
    let today = PeriodBucket::Today;
    let week = PeriodBucket::ThisWeek;
    let row = cache.locate_location(3, today, 500).unwrap();
    assert_eq!(cache.locate_location(3, today, 501), Ok(1));
    assert_eq!(cache.locate_location(3, week, 501), Ok(0));
    assert_eq!(cache.locate_location(4, today, 500), Ok(0));
    assert_eq!(cache.update_location_ranking(3, today, row, vc(1, 1)), Ok(()));
    assert_eq!(cache.update_location_ranking(3, week, 0, vc(1, 1)), Ok(()));
    let poll = cache.create_poll(PollKind::OneD, 3).unwrap();

    let new_ids = CachePeriodIds::seeded(101, 15, 4).unwrap();
    assert_eq!(cache.rotate(3, new_ids), Ok(()));
    assert_eq!(cache.period_ids(3), Ok(new_ids));
    assert_eq!(cache.period_ids(4), Ok(old_ids));
    assert_eq!(cache.is_rotating(3), Ok(false));
    assert_eq!(cache.lookup_location(3, today, 500), Err(CacheError::UnknownLocation));
    assert_eq!(cache.lookup_location(3, today, 501), Err(CacheError::UnknownLocation));
    assert_eq!(cache.top_n_location(3, today, row, 5), Err(CacheError::UnknownLocation));
    assert_eq!(cache.lookup_location(3, week, 501), Ok(0));
    assert_eq!(cache.top_n_location(3, week, 0, 5), Ok(vec![vc(1, 1)]));
    assert_eq!(cache.lookup_location(4, today, 500), Ok(0));
    assert!(cache.read_poll_in(3, poll).is_ok());
    assert_eq!(cache.locate_location(3, today, 501), Ok(0));
    assert_eq!(cache.top_n_location(3, today, 0, 5), Ok(vec![]));
    assert_eq!(cache.rotate(38, new_ids), Err(CacheError::UnknownTimezone));
}

#[test]
fn cache_rotate_to_another_month_discards_the_polls() {
    let mut cache = Cache::new();
    let a = cache.create_poll(PollKind::OneD, 3).unwrap();
    let b = cache.create_poll(PollKind::OneD, 4).unwrap();
    assert_eq!(cache.record_vote_in(3, a, Direction::Dim1Dir1, 2), Ok(()));
    let ids = CachePeriodIds::seeded(130, 19, 5).unwrap();
    assert_eq!(cache.rotate(3, ids), Ok(()));
    assert_eq!(cache.read_poll_in(3, a), Err(CacheError::UnknownPoll));
    assert_eq!(cache.record_vote_in(3, a, Direction::Dim1Dir1, 2), Err(CacheError::UnknownPoll));
    assert!(cache.read_poll_in(4, b).is_ok());
    assert_eq!(cache.create_poll(PollKind::OneD, 3), Ok(b + 1));
}

#[test]
fn cache_rotate_categories() {
    let mut cache = Cache::new();
    let week = PeriodBucket::ThisWeek;
    let month = PeriodBucket::ThisMonth;
    assert_eq!(cache.locate_category(week, 40), Ok(0));
    assert_eq!(cache.locate_category(week, 41), Ok(1));
    assert_eq!(cache.locate_category(month, 41), Ok(0));
    assert_eq!(cache.update_category_ranking(month, 0, vc(1, 1)), Ok(()));
    let ids = CachePeriodIds { this_week: 16, ..CachePeriodIds::new() };
    cache.rotate_categories(ids);
    assert_eq!(cache.category_period_ids(), ids);
    assert_eq!(cache.lookup_category(week, 41), Err(CacheError::UnknownCategory));
    assert_eq!(cache.top_n_category(week, 0, 3), Err(CacheError::UnknownCategory));
    assert_eq!(cache.lookup_category(month, 41), Ok(0));
    assert_eq!(cache.top_n_category(month, 0, 3), Ok(vec![vc(1, 1)]));
    assert_eq!(cache.locate_category(week, 41), Ok(0));
}

#[test]
fn cache_polls_and_votes() {
    let mut cache = Cache::new();
    assert_eq!(cache.create_poll(PollKind::ThreeD, 38), Err(CacheError::UnknownTimezone));
    let id = cache.create_poll(PollKind::ThreeD, 37).unwrap();
    assert_eq!(id, 0);
    assert_eq!(cache.create_poll(PollKind::OneD, 37), Ok(1));
    assert_eq!(cache.record_vote_in(37, id, Direction::Dim3Dir1, 30), Ok(()));
    assert_eq!(cache.record_vote_in(37, 1, Direction::Dim3Dir1, 30), Err(CacheError::UnknownDirection));
    assert_eq!(cache.record_vote_in(37, 2, Direction::Dim1Dir1, 30), Err(CacheError::UnknownPoll));
    assert_eq!(cache.record_vote_in(38, id, Direction::Dim1Dir1, 30), Err(CacheError::UnknownTimezone));
    assert_eq!(cache.read_poll_in(38, id), Err(CacheError::UnknownTimezone));
    match cache.read_poll_in(37, id) {
        Ok(PollRecord::ThreeD(p)) => {
            assert_eq!(p.dim3_dir1, Tally { over: 0, sum: 30 });
            assert_eq!(p.vote_count.count, 1);
            assert_eq!(p.vote_count.timezone(), 37);
            assert_eq!(p.vote_count.dimensions(), 3);
        }
        _ => panic!("the poll is on record"),
    }
}

#[test]
fn cache_pending_polls() {
    let mut cache = Cache::new();
    let start = cache.pending_end(9, None);
    assert_eq!(start, Cursor { page: 0, offset: 0 });
    cache.append_pending(9, None, 100);
    cache.append_pending(9, Some(2), 101);
    cache.append_pending(9, None, 102);
    assert_eq!(cache.pages_since(9, None, start), vec![vec![100, 102]]);
    assert_eq!(cache.pages_since(9, Some(2), start), vec![vec![101]]);
    assert_eq!(cache.pages_since(8, None, start), vec![Vec::<u64>::new()]);
    assert_eq!(cache.pending_end(9, None), Cursor { page: 0, offset: 2 });
    let ids = CachePeriodIds::seeded(130, 19, 5).unwrap();
    assert_eq!(cache.rotate(3, ids), Ok(()));
    assert_eq!(cache.pages_since(9, None, start), vec![vec![100, 102]]);
}

#[test]
fn poll_store_finds_the_timezone_of_a_poll() {
    let mut polls = Polls::new();
    let a = polls.create(PollKind::OneD, 7).unwrap();
    let b = polls.create(PollKind::OneD, 0).unwrap();
    assert_eq!(polls.find(a), Some(7));
    assert_eq!(polls.find(b), Some(0));
    assert_eq!(polls.find(b + 1), None);
    assert_eq!(polls.evict(7), Ok(()));
    assert_eq!(polls.find(a), None);
}

#[test]
fn cache_votes_by_poll_alone() {
    let mut cache = Cache::new();
    let a = cache.create_poll(PollKind::TwoD, 30).unwrap();
    let b = cache.create_poll(PollKind::OneD, 2).unwrap();
    assert_eq!(cache.record_vote(a, Direction::Dim2Dir1, 24), Ok(()));
    assert_eq!(cache.record_vote(a, Direction::Dim2Dir1, 6), Ok(()));
    assert_eq!(cache.record_vote(b, Direction::Dim1Dir2, 1), Ok(()));
    assert_eq!(cache.record_vote(b, Direction::Dim2Dir1, 1), Err(CacheError::UnknownDirection));
    assert_eq!(cache.record_vote(b + 1, Direction::Dim1Dir1, 1), Err(CacheError::UnknownPoll));
    match cache.read_poll(a) {
        Ok(PollRecord::TwoD(p)) => {
            assert_eq!(p.dim2_dir1, Tally { over: 0, sum: 30 });
            assert_eq!(p.vote_count.count, 2);
            assert_eq!(p.vote_count.timezone(), 30);
        }
        _ => panic!("the poll is on record"),
    }
    assert_eq!(cache.read_poll(b), cache.read_poll_in(2, b));
    assert_eq!(cache.read_poll(b + 1), Err(CacheError::UnknownPoll));
    let ids = CachePeriodIds::seeded(130, 19, 5).unwrap();
    assert_eq!(cache.rotate(30, ids), Ok(()));
    assert_eq!(cache.read_poll(a), Err(CacheError::UnknownPoll));
    assert_eq!(cache.record_vote(a, Direction::Dim2Dir1, 6), Err(CacheError::UnknownPoll));
    assert!(cache.read_poll(b).is_ok());
}
