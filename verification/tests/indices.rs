use poll_cache::index_map::{
    CategoryIndexMap, IndexBucket, LocationBucket, LocationIndexMap, LocationPeriodIds,
};
use poll_cache::period::CachePeriodIds;
use poll_cache::types::{CacheError, PeriodBucket};

#[test]
fn index_bucket_hands_out_dense_indices() {
    let mut b = IndexBucket::new(8);
    assert_eq!(b.len(), 0);
    assert_eq!(b.lookup(900), None);
    assert_eq!(b.locate(900), Some(0));
    assert_eq!(b.locate(17), Some(1));
    assert_eq!(b.locate(u64::MAX), Some(2));
    assert_eq!(b.len(), 3);
    assert_eq!(b.lookup(17), Some(1));
}

#[test]
fn index_bucket_locate_is_stable() {
    let mut b = IndexBucket::new(8);
    let first = b.locate(42);
    let mut id: u64 = 100;
    while id < 150 {
        b.locate(id);
        assert_eq!(b.locate(42), first);
        id += 1;
    }
    assert_eq!(first, Some(0));
    assert_eq!(b.len(), 51);
    assert_eq!(b.locate(149), Some(50));
}

#[test]
fn index_bucket_forget_starts_over() {
    let mut b = IndexBucket::new(8);
    b.locate(1);
    b.locate(2);
    assert_eq!(b.lookup(2), Some(1));
    b.forget();
    assert_eq!(b.len(), 0);
    assert_eq!(b.lookup(2), None);
    assert_eq!(b.locate(2), Some(0));
    assert_eq!(b.locate(1), Some(1));
}

#[test]
fn location_period_ids_start_without_categories() {
    let mut ids = LocationPeriodIds::new(7, 4);
    assert_eq!(ids.location_cache_index, 7);
    assert_eq!(ids.location_category_cache_index_map.len(), 0);
    assert_eq!(ids.location_category_cache_index_map.locate(5), Some(0));
}

#[test]
fn location_bucket_rows_and_columns() {
    let mut b = LocationBucket::new(8);
    assert_eq!(b.lookup(10), Err(CacheError::UnknownLocation));
    assert_eq!(b.locate_category(10, 1), Err(CacheError::UnknownLocation));
    assert_eq!(b.locate(10, 2), Ok(0));
    assert_eq!(b.locate(20, 2), Ok(1));
    assert_eq!(b.locate(10, 2), Ok(0));
    assert_eq!(b.len(), 2);
    assert_eq!(b.lookup_category(10, 1), Err(CacheError::UnknownCategory));
    assert_eq!(b.lookup_category(30, 1), Err(CacheError::UnknownLocation));
    assert_eq!(b.locate_category(10, 5), Ok(0));
    assert_eq!(b.locate_category(10, 6), Ok(1));
    assert_eq!(b.locate_category(20, 6), Ok(0));
    assert_eq!(b.locate_category(10, 5), Ok(0));
    assert_eq!(b.lookup_category(10, 6), Ok(1));
    assert_eq!(b.lookup_category(20, 5), Err(CacheError::UnknownCategory));
    assert_eq!(b.lookup(20), Ok(1));
    b.forget();
    assert_eq!(b.len(), 0);
    assert_eq!(b.lookup(10), Err(CacheError::UnknownLocation));
    assert_eq!(b.locate(20, 0), Ok(0));
    assert_eq!(b.lookup_category(20, 6), Err(CacheError::UnknownCategory));
}

#[test]
fn location_index_map_keeps_buckets_apart() {
    let mut m = LocationIndexMap::new();
    let today = PeriodBucket::Today;
    let yesterday = PeriodBucket::Yesterday;
    assert_eq!(m.len(today), 0);
    assert_eq!(m.locate(today, 5), Ok(0));
    assert_eq!(m.locate(today, 6), Ok(1));
    assert_eq!(m.locate(yesterday, 6), Ok(0));
    assert_eq!(m.locate(today, 5), Ok(0));
    assert_eq!(m.lookup(today, 6), Ok(1));
    assert_eq!(m.lookup(yesterday, 5), Err(CacheError::UnknownLocation));
    assert_eq!(m.locate_category(today, 6, 70), Ok(0));
    assert_eq!(m.locate_category(today, 6, 71), Ok(1));
    assert_eq!(m.locate_category(yesterday, 6, 71), Ok(0));
    assert_eq!(m.locate_category(yesterday, 5, 71), Err(CacheError::UnknownLocation));
    assert_eq!(m.lookup_category(today, 6, 71), Ok(1));
    assert_eq!(m.lookup_category(today, 5, 71), Err(CacheError::UnknownCategory));
    assert_eq!(m.lookup_category(today, 9, 71), Err(CacheError::UnknownLocation));
    m.forget(today);
    assert_eq!(m.len(today), 0);
    assert_eq!(m.len(yesterday), 1);
    assert_eq!(m.lookup(today, 6), Err(CacheError::UnknownLocation));
    assert_eq!(m.lookup_category(yesterday, 6, 71), Ok(0));
    assert_eq!(m.locate(today, 6), Ok(0));
}

#[test]
fn category_index_map_keeps_buckets_apart() {
    let mut m = CategoryIndexMap::new();
    assert_eq!(m.locate(PeriodBucket::ThisMonth, 3), Ok(0));
    assert_eq!(m.locate(PeriodBucket::ThisMonth, 4), Ok(1));
    assert_eq!(m.locate(PeriodBucket::LastMonth, 4), Ok(0));
    assert_eq!(m.locate(PeriodBucket::ThisMonth, 3), Ok(0));
    assert_eq!(m.lookup(PeriodBucket::ThisMonth, 4), Ok(1));
    assert_eq!(m.lookup(PeriodBucket::LastWeek, 4), Err(CacheError::UnknownCategory));
    assert_eq!(m.len(PeriodBucket::ThisMonth), 2);
    m.forget(PeriodBucket::ThisMonth);
    assert_eq!(m.len(PeriodBucket::ThisMonth), 0);
    assert_eq!(m.lookup(PeriodBucket::LastMonth, 4), Ok(0));
    assert_eq!(m.locate(PeriodBucket::ThisMonth, 4), Ok(0));
}

#[test]
fn period_bucket_places() {
    assert_eq!(PeriodBucket::LastMonth.index(), 0);
    assert_eq!(PeriodBucket::ThisMonth.index(), 1);
    assert_eq!(PeriodBucket::LastWeek.index(), 2);
    assert_eq!(PeriodBucket::ThisWeek.index(), 3);
    assert_eq!(PeriodBucket::DayBeforeYesterday.index(), 4);
    assert_eq!(PeriodBucket::Yesterday.index(), 5);
    assert_eq!(PeriodBucket::Today.index(), 6);
}

#[test]
fn period_ids_start_at_zero() {
    let ids = CachePeriodIds::new();
    assert_eq!(ids.today, 0);
    assert_eq!(ids.next_month, 0);
    assert_eq!(ids.period_id(PeriodBucket::Today), 0);
    assert_eq!(ids.period_id(PeriodBucket::LastWeek), 0);
}

#[test]
fn period_ids_seeded_around_a_day() {
    let ids = CachePeriodIds::seeded(100, 15, 4).unwrap();
    assert_eq!(ids.day_before_yesterday, 98);
    assert_eq!(ids.yesterday, 99);
    assert_eq!(ids.today, 100);
    assert_eq!(ids.tomorrow, 101);
    assert_eq!(ids.day_after_tomorrow, 102);
    assert_eq!(ids.last_week, 14);
    assert_eq!(ids.this_week, 15);
    assert_eq!(ids.next_week, 16);
    assert_eq!(ids.last_month, 3);
    assert_eq!(ids.this_month, 4);
    assert_eq!(ids.next_month, 5);
    assert_eq!(ids.period_id(PeriodBucket::LastMonth), 3);
    assert_eq!(ids.period_id(PeriodBucket::ThisMonth), 4);
    assert_eq!(ids.period_id(PeriodBucket::LastWeek), 14);
    assert_eq!(ids.period_id(PeriodBucket::ThisWeek), 15);
    assert_eq!(ids.period_id(PeriodBucket::DayBeforeYesterday), 98);
    assert_eq!(ids.period_id(PeriodBucket::Yesterday), 99);
    assert_eq!(ids.period_id(PeriodBucket::Today), 100);
}

#[test]
fn period_ids_seeded_need_neighbours() {
    assert_eq!(CachePeriodIds::seeded(1, 15, 4), None);
    assert_eq!(CachePeriodIds::seeded(u32::MAX - 1, 15, 4), None);
    assert_eq!(CachePeriodIds::seeded(100, 0, 4), None);
    assert_eq!(CachePeriodIds::seeded(100, 15, u32::MAX), None);
    assert!(CachePeriodIds::seeded(2, 1, 1).is_some());
    assert!(CachePeriodIds::seeded(u32::MAX - 2, u32::MAX - 1, u32::MAX - 1).is_some());
}
