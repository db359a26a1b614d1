use poll_cache::pending::{
    byte_width_of, Cursor, LocationPollPrependLists, PagedList, PollsByLocation,
};
use poll_cache::types::PAGE_SIZE;

fn filled(first: u64, n: usize) -> PagedList {
    let mut list = PagedList::new();
    let mut i: usize = 0;
    while i < n {
        list.append(first + i as u64);
        i += 1;
    }
    list
}

#[test]
fn byte_width_is_the_least_that_holds() {
    assert_eq!(byte_width_of(0), 1);
    assert_eq!(byte_width_of(255), 1);
    assert_eq!(byte_width_of(256), 2);
    assert_eq!(byte_width_of(65_535), 2);
    assert_eq!(byte_width_of(65_536), 3);
    assert_eq!(byte_width_of(0xff_ffff), 3);
    assert_eq!(byte_width_of(0x100_0000), 4);
    assert_eq!(byte_width_of(0xffff_ffff), 4);
    assert_eq!(byte_width_of(0x1_0000_0000), 5);
    assert_eq!(byte_width_of(0xff_ffff_ffff), 5);
    assert_eq!(byte_width_of(0x100_0000_0000), 6);
    assert_eq!(byte_width_of(0xffff_ffff_ffff), 6);
    assert_eq!(byte_width_of(0x1_0000_0000_0000), 7);
    assert_eq!(byte_width_of(0xff_ffff_ffff_ffff), 7);
    assert_eq!(byte_width_of(0x100_0000_0000_0000), 8);
    assert_eq!(byte_width_of(u64::MAX), 8);
}

#[test]
fn page_size_is_1024() {
    assert_eq!(PAGE_SIZE, 1024);
}

#[test]
fn empty_list_has_one_open_page() {
    let list = PagedList::new();
    assert_eq!(list.num_pages(), 1);
    assert_eq!(list.page(0), Some(vec![]));
    assert_eq!(list.page(1), None);
    assert_eq!(list.byte_width(0), None);
    assert_eq!(list.end(), Cursor { page: 0, offset: 0 });
}

#[test]
fn pagination_full_pages_and_a_partial_one() {
    let k: usize = 3;
    let r: usize = 17;
    let list = filled(1000, PAGE_SIZE * k + r);
    assert_eq!(list.num_pages(), k + 1);
    let mut j: usize = 0;
    while j < k {
        let page = list.page(j).unwrap();
        assert_eq!(page.len(), PAGE_SIZE);
        assert_eq!(page[0], 1000 + (j * PAGE_SIZE) as u64);
        assert_eq!(page[PAGE_SIZE - 1], 1000 + (j * PAGE_SIZE + PAGE_SIZE - 1) as u64);
        j += 1;
    }
    let open = list.page(k).unwrap();
    assert_eq!(open.len(), r);
    assert_eq!(open[r - 1], 1000 + (PAGE_SIZE * k + r - 1) as u64);
    assert_eq!(list.page(k + 1), None);
    assert_eq!(list.end(), Cursor { page: k, offset: r });
}

#[test]
fn pagination_with_no_remainder_leaves_an_empty_open_page() {
    let list = filled(0, PAGE_SIZE * 2);
    assert_eq!(list.num_pages(), 3);
    assert_eq!(list.page(1).unwrap().len(), PAGE_SIZE);
    assert_eq!(list.page(2), Some(vec![]));
    assert_eq!(list.byte_width(1), Some(2));
    assert_eq!(list.byte_width(2), None);
    assert_eq!(list.end(), Cursor { page: 2, offset: 0 });
}

#[test]
fn sealed_page_records_the_width_of_its_largest() {
    let list = filled(0, PAGE_SIZE + 1);
    assert_eq!(list.byte_width(0), Some(2));
    assert_eq!(list.byte_width(1), None);
    let small = filled(0, PAGE_SIZE - 1);
    assert_eq!(small.byte_width(0), None);
    let wide = filled(0xffff_ff00, PAGE_SIZE);
    assert_eq!(wide.byte_width(0), Some(5));
    let narrow = filled(0xffff_f000, PAGE_SIZE);
    assert_eq!(narrow.byte_width(0), Some(4));
}

#[test]
fn sealed_page_width_follows_the_largest_not_the_last() {
    let mut list = PagedList::new();
    list.append(70_000);
    let mut i: usize = 1;
    while i < PAGE_SIZE {
        list.append(i as u64);
        i += 1;
    }
    assert_eq!(list.byte_width(0), Some(3));
    let mut j: usize = 0;
    while j < PAGE_SIZE {
        list.append(9);
        j += 1;
    }
    assert_eq!(list.byte_width(1), Some(1));
    assert_eq!(list.byte_width(0), Some(3));
}

#[test]
fn pages_since_the_start_gives_every_page() {
    let list = filled(0, PAGE_SIZE + 3);
    let fresh = list.pages_since(Cursor { page: 0, offset: 0 });
    assert_eq!(fresh.len(), 2);
    assert_eq!(fresh[0].len(), PAGE_SIZE);
    assert_eq!(fresh[1], vec![1024, 1025, 1026]);
}

#[test]
fn pages_since_a_cursor_gives_what_is_new() {
    let mut list = filled(0, 5);
    let seen = list.end();
    assert_eq!(list.pages_since(seen), vec![Vec::<u64>::new()]);
    list.append(5);
    list.append(6);
    assert_eq!(list.pages_since(seen), vec![vec![5, 6]]);
    assert_eq!(list.pages_since(seen), vec![vec![5, 6]]);
    let mut i: u64 = 7;
    while i < 1030 {
        list.append(i);
        i += 1;
    }
    let fresh = list.pages_since(seen);
    assert_eq!(fresh.len(), 2);
    assert_eq!(fresh[0].len(), PAGE_SIZE - 5);
    assert_eq!(fresh[0][0], 5);
    assert_eq!(fresh[1], vec![1024, 1025, 1026, 1027, 1028, 1029]);
    assert_eq!(list.pages_since(list.end()), vec![Vec::<u64>::new()]);
}

#[test]
fn pages_since_a_cursor_outside_gives_nothing() {
    let list = filled(0, 5);
    assert!(list.pages_since(Cursor { page: 0, offset: 6 }).is_empty());
    assert!(list.pages_since(Cursor { page: 1, offset: 0 }).is_empty());
    assert!(list.pages_since(Cursor { page: 0, offset: PAGE_SIZE }).is_empty());
    assert_eq!(list.pages_since(Cursor { page: 0, offset: 5 }), vec![Vec::<u64>::new()]);
}

#[test]
fn location_lists_by_category() {
    let mut lists = LocationPollPrependLists::new();
    lists.append(None, 1);
    lists.append(Some(7), 2);
    lists.append(Some(7), 3);
    lists.append(Some(8), 4);
    lists.append(None, 5);
    let start = Cursor { page: 0, offset: 0 };
    assert_eq!(lists.pages_since(None, start), vec![vec![1, 5]]);
    assert_eq!(lists.pages_since(Some(7), start), vec![vec![2, 3]]);
    assert_eq!(lists.pages_since(Some(8), start), vec![vec![4]]);
    assert_eq!(lists.pages_since(Some(9), start), vec![Vec::<u64>::new()]);
    assert_eq!(lists.end(None), Cursor { page: 0, offset: 2 });
    assert_eq!(lists.end(Some(7)), Cursor { page: 0, offset: 2 });
    assert_eq!(lists.end(Some(9)), Cursor { page: 0, offset: 0 });
    assert_eq!(lists.pages_since(Some(7), Cursor { page: 0, offset: 1 }), vec![vec![3]]);
}

#[test]
fn polls_by_location_keeps_locations_apart() {
    let mut all = PollsByLocation::new();
    let start = Cursor { page: 0, offset: 0 };
    assert_eq!(all.pages_since(1, None, start), vec![Vec::<u64>::new()]);
    all.append(1, None, 10);
    all.append(2, None, 11);
    all.append(1, Some(3), 12);
    all.append(1, None, 13);
    assert_eq!(all.pages_since(1, None, start), vec![vec![10, 13]]);
    assert_eq!(all.pages_since(2, None, start), vec![vec![11]]);
    assert_eq!(all.pages_since(1, Some(3), start), vec![vec![12]]);
    assert_eq!(all.pages_since(2, Some(3), start), vec![Vec::<u64>::new()]);
    assert_eq!(all.end(1, None), Cursor { page: 0, offset: 2 });
    assert_eq!(all.end(5, None), Cursor { page: 0, offset: 0 });
}
