use poll_cache::polls::{OneDPoll, PollRecord, ThreeDPoll, TwoDPoll};
use poll_cache::tally::Tally;
use poll_cache::types::{CacheError, Direction, PollKind};
use poll_cache::vote_count::VoteCount;

#[test]
fn tally_starts_empty() {
    let t = Tally::new();
    assert_eq!(t.over, 0);
    assert_eq!(t.sum, 0);
    assert_eq!(t.value(), 0);
}

#[test]
fn tally_adds_without_wrap() {
    let mut t = Tally::new();
    assert!(t.add(24));
    assert!(t.add(6));
    assert_eq!(t, Tally { over: 0, sum: 30 });
    assert_eq!(t.value(), 30);
}

#[test]
fn tally_counts_each_wrap_once() {
    let mut t = Tally { over: 0, sum: u32::MAX - 5 };
    assert!(t.add(4));
    assert_eq!(t.over, 0);
    assert!(t.add(2));
    assert_eq!(t, Tally { over: 1, sum: 0 });
    assert!(t.add(u32::MAX));
    assert_eq!(t, Tally { over: 1, sum: u32::MAX });
    assert!(t.add(1));
    assert_eq!(t, Tally { over: 2, sum: 0 });
}

#[test]
fn tally_total_is_exact_over_two_wraps() {
    let amount: u32 = 0x7000_0000;
    let mut t = Tally::new();
    let mut exact: u64 = 0;
    let mut i: u32 = 0;
    while i < 5 {
        assert!(t.add(amount));
        exact += amount as u64;
        i += 1;
    }
    assert_eq!(exact, 0x2_3000_0000);
    assert_eq!(t.over, 2);
    assert_eq!(t.sum, 0x3000_0000);
    assert_eq!(t.value(), exact);
    assert_eq!(t.over as u64 * (1u64 << 32) + t.sum as u64, exact);
}

#[test]
fn tally_refuses_what_it_cannot_hold() {
    let mut t = Tally { over: 255, sum: u32::MAX - 1 };
    assert!(t.add(1));
    assert_eq!(t, Tally { over: 255, sum: u32::MAX });
    assert_eq!(t.value(), (1u64 << 40) - 1);
    assert!(!t.add(1));
    assert_eq!(t, Tally { over: 255, sum: u32::MAX });
    assert!(t.add(0));
}

#[test]
fn vote_count_tag_layout() {
    let vc = VoteCount::new(5, PollKind::TwoD, 77);
    assert_eq!(vc.poll_type_and_tz, 5 * 8 + 2 * 2);
    assert_eq!(vc.poll_id, 77);
    assert_eq!(vc.count, 0);
    assert_eq!(vc.timezone(), 5);
    assert_eq!(vc.dimensions(), 2);
}

#[test]
fn vote_count_tag_of_a_high_timezone() {
    let vc = VoteCount::new(37, PollKind::ThreeD, 1);
    assert_eq!(vc.poll_type_and_tz, 5 * 8 + 3 * 2 + 1);
    assert_eq!(vc.timezone(), 37);
    assert_eq!(vc.dimensions(), 3);
    let low = VoteCount::new(0, PollKind::OneD, 1);
    assert_eq!(low.poll_type_and_tz, 2);
    assert_eq!(low.timezone(), 0);
    assert_eq!(low.dimensions(), 1);
}

#[test]
fn vote_count_increment_saturates() {
    let mut vc = VoteCount::new(1, PollKind::OneD, 9);
    vc.increment();
    assert_eq!(vc.count, 1);
    vc.count = u32::MAX - 1;
    vc.increment();
    assert_eq!(vc.count, u32::MAX);
    vc.increment();
    assert_eq!(vc.count, u32::MAX);
}

#[test]
fn vote_count_ranking_order() {
    let a = VoteCount { poll_type_and_tz: 0, poll_id: 10, count: 5 };
    let b = VoteCount { poll_type_and_tz: 0, poll_id: 3, count: 4 };
    let c = VoteCount { poll_type_and_tz: 0, poll_id: 2, count: 5 };
    assert!(a.ranks_before(&b));
    assert!(!b.ranks_before(&a));
    assert!(c.ranks_before(&a));
    assert!(!a.ranks_before(&c));
    assert!(!a.ranks_before(&a));
}

#[test]
fn poll_kind_tags() {
    assert_eq!(PollKind::OneD.tag(), 1);
    assert_eq!(PollKind::TwoD.tag(), 2);
    assert_eq!(PollKind::ThreeD.tag(), 3);
}

#[test]
fn one_d_poll_records_votes() {
    let mut p = OneDPoll::new(VoteCount::new(2, PollKind::OneD, 4));
    assert_eq!(p.dim1_dir1, Tally { over: 0, sum: 0 });
    assert_eq!(p.record_vote(Direction::Dim1Dir1, 24), Ok(()));
    assert_eq!(p.record_vote(Direction::Dim1Dir2, 6), Ok(()));
    assert_eq!(p.record_vote(Direction::Dim1Dir1, 1), Ok(()));
    assert_eq!(p.dim1_dir1, Tally { over: 0, sum: 25 });
    assert_eq!(p.dim1_dir2, Tally { over: 0, sum: 6 });
    assert_eq!(p.vote_count.count, 3);
    assert_eq!(p.vote_count.poll_id, 4);
}

#[test]
fn one_d_poll_has_no_second_dimension() {
    let mut p = OneDPoll::new(VoteCount::new(2, PollKind::OneD, 4));
    let before = p;
    assert_eq!(p.record_vote(Direction::Dim2Dir1, 1), Err(CacheError::UnknownDirection));
    assert_eq!(p.record_vote(Direction::Dim3Dir2, 1), Err(CacheError::UnknownDirection));
    assert_eq!(p, before);
}

#[test]
fn two_d_poll_records_votes() {
    let mut p = TwoDPoll::new(VoteCount::new(2, PollKind::TwoD, 4));
    assert_eq!(p.record_vote(Direction::Dim2Dir2, 7), Ok(()));
    assert_eq!(p.record_vote(Direction::Dim2Dir1, 8), Ok(()));
    assert_eq!(p.dim2_dir2.sum, 7);
    assert_eq!(p.dim2_dir1.sum, 8);
    assert_eq!(p.dim1_dir1.sum, 0);
    assert_eq!(p.vote_count.count, 2);
    assert_eq!(p.record_vote(Direction::Dim3Dir1, 1), Err(CacheError::UnknownDirection));
    assert_eq!(p.vote_count.count, 2);
}

#[test]
fn three_d_poll_wraps_a_direction() {
    let mut p = ThreeDPoll::new(VoteCount::new(2, PollKind::ThreeD, 4));
    p.dim3_dir2 = Tally { over: 0, sum: u32::MAX };
    assert_eq!(p.record_vote(Direction::Dim3Dir2, 30), Ok(()));
    assert_eq!(p.dim3_dir2, Tally { over: 1, sum: 29 });
    assert_eq!(p.dim3_dir1, Tally { over: 0, sum: 0 });
    assert_eq!(p.vote_count.count, 1);
}

#[test]
fn poll_refuses_a_vote_that_its_tally_cannot_hold() {
    let mut p = ThreeDPoll::new(VoteCount::new(2, PollKind::ThreeD, 4));
    p.dim1_dir1 = Tally { over: 255, sum: u32::MAX };
    let before = p;
    assert_eq!(p.record_vote(Direction::Dim1Dir1, 1), Err(CacheError::Exhausted));
    assert_eq!(p, before);
}

#[test]
fn poll_record_of_each_kind() {
    let vc = VoteCount::new(0, PollKind::TwoD, 12);
    let mut r = PollRecord::new(PollKind::TwoD, vc);
    assert_eq!(r, PollRecord::TwoD(TwoDPoll::new(vc)));
    assert_eq!(r.vote_count(), vc);
    assert_eq!(r.record_vote(Direction::Dim1Dir2, 3), Ok(()));
    assert_eq!(r.vote_count().count, 1);
    match r {
        PollRecord::TwoD(p) => assert_eq!(p.dim1_dir2.sum, 3),
        _ => panic!("a poll of two dimensions"),
    }
    assert!(matches!(PollRecord::new(PollKind::OneD, vc), PollRecord::OneD(_)));
    assert!(matches!(PollRecord::new(PollKind::ThreeD, vc), PollRecord::ThreeD(_)));
}
