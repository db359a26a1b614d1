//! Pending-poll lists: the polls created of late, in pages of a fixed size, with the
//! number of bytes that the identifiers of each full page take.

use std::collections::HashMap;
use vstd::prelude::*;
use crate::types::{CategoryId, LocationId, PollId, PAGE_SIZE};

verus! {

broadcast use vstd::std_specs::hash::group_hash_axioms;

/// The first number that `width` bytes cannot hold: 256 to the power of `width`.
pub open spec fn width_limit(width: nat) -> nat {
    if width == 0 {
        1
    } else if width == 1 {
        0x100
    } else if width == 2 {
        0x1_0000
    } else if width == 3 {
        0x100_0000
    } else if width == 4 {
        0x1_0000_0000
    } else if width == 5 {
        0x100_0000_0000
    } else if width == 6 {
        0x1_0000_0000_0000
    } else if width == 7 {
        0x100_0000_0000_0000
    } else {
        0x1_0000_0000_0000_0000
    }
}

/// The least number of bytes, one at least, that hold `id`.
pub open spec fn byte_width(id: PollId) -> nat {
    if id < 0x100 {
        1
    } else if id < 0x1_0000 {
        2
    } else if id < 0x100_0000 {
        3
    } else if id < 0x1_0000_0000 {
        4
    } else if id < 0x100_0000_0000 {
        5
    } else if id < 0x1_0000_0000_0000 {
        6
    } else if id < 0x100_0000_0000_0000 {
        7
    } else {
        8
    }
}

/// The largest of `s`; 0 for none.
pub open spec fn max_of(s: Seq<PollId>) -> PollId
    decreases s.len(),
{
    if s.len() == 0 {
        0
    } else if s.last() > max_of(s.drop_last()) {
        s.last()
    } else {
        max_of(s.drop_last())
    }
}

/// Into how many pages a list of `s` falls: the full ones, and the one that is open.
pub open spec fn page_count(s: Seq<PollId>) -> nat {
    s.len() / (PAGE_SIZE as nat) + 1
}

/// How many pages of `s` are full, and so sealed.
pub open spec fn sealed_count(s: Seq<PollId>) -> nat {
    s.len() / (PAGE_SIZE as nat)
}

/// Page `j` of `s`: the identifiers from place `j * PAGE_SIZE` on, a page's worth or what
/// there is of it.
pub open spec fn page_of(s: Seq<PollId>, j: int) -> Seq<PollId> {
    let start = j * PAGE_SIZE;
    if j < 0 || start > s.len() {
        Seq::empty()
    } else if start + PAGE_SIZE <= s.len() {
        s.subrange(start, start + PAGE_SIZE)
    } else {
        s.subrange(start, s.len() as int)
    }
}

/// A place in a list: page `page`, and in it the identifier number `offset`.
#[derive(Clone, Copy, Debug, PartialEq, Eq, Structural)]
pub struct Cursor {
    pub page: usize,
    pub offset: usize,
}

impl Cursor {
    /// How many identifiers stand before the cursor.
    pub open spec fn position(self) -> nat {
        (self.page * PAGE_SIZE + self.offset) as nat
    }

    /// The cursor points into `s` or at its end, and is written with the page as large as
    /// can be.
    pub open spec fn is_in(self, s: Seq<PollId>) -> bool {
        self.offset < PAGE_SIZE && self.position() <= s.len()
    }
}

/// What a reader who stands at `cursor` has not seen of `s`: the rest of the cursor's page,
/// then every later page. Nothing where the cursor does not point into `s`.
pub open spec fn pages_from(s: Seq<PollId>, cursor: Cursor) -> Seq<Seq<PollId>> {
    if cursor.is_in(s) {
        Seq::new(
            (page_count(s) - cursor.page) as nat,
            |i: int|
                if i == 0 {
                    page_of(s, cursor.page as int).skip(cursor.offset as int)
                } else {
                    page_of(s, cursor.page + i)
                },
        )
    } else {
        Seq::empty()
    }
}

/// The width of an identifier is the least that holds it.
pub proof fn lemma_byte_width_is_minimal(id: PollId)
    ensures
        1 <= byte_width(id) <= 8,
        id < width_limit(byte_width(id)),
        forall|w: nat| 1 <= w < byte_width(id) ==> id >= #[trigger] width_limit(w),
{
}

/// Nothing in `s` is larger than `max_of(s)`, which is one of `s` unless `s` is empty.
pub proof fn lemma_max_of(s: Seq<PollId>)
    ensures
        forall|i: int| 0 <= i < s.len() ==> #[trigger] s[i] <= max_of(s),
        s.len() > 0 ==> s.contains(max_of(s)),
    decreases s.len(),
{
    if s.len() > 0 {
        let front = s.drop_last();
        lemma_max_of(front);
        assert forall|i: int| 0 <= i < s.len() implies #[trigger] s[i] <= max_of(s) by {
            if i < s.len() - 1 {
                assert(front[i] == s[i]);
            }
        }
        if s.last() > max_of(front) || front.len() == 0 {
            assert(s[s.len() - 1] == max_of(s));
        } else {
            let at = choose|i: int| 0 <= i < front.len() && front[i] == max_of(front);
            assert(s[at] == max_of(s));
        }
    }
}

/// The width recorded for a page holds every identifier of the page, and no smaller width
/// holds the largest of them.
pub proof fn lemma_page_width_is_minimal(page: Seq<PollId>)
    requires
        page.len() > 0,
    ensures
        forall|i: int|
            0 <= i < page.len() ==> #[trigger] page[i] < width_limit(byte_width(max_of(page))),
        forall|w: nat|
            1 <= w < byte_width(max_of(page)) ==> max_of(page) >= #[trigger] width_limit(w),
        page.contains(max_of(page)),
{
    lemma_max_of(page);
    lemma_byte_width_is_minimal(max_of(page));
}

/// A list of `PAGE_SIZE * k + r` identifiers, with `r` under `PAGE_SIZE`, falls into `k`
/// full pages and one open page of `r`; the pages, read one after another, are the list.
pub proof fn lemma_pagination(s: Seq<PollId>, k: nat, r: nat)
    requires
        s.len() == PAGE_SIZE * k + r,
        r < PAGE_SIZE,
    ensures
        page_count(s) == k + 1,
        sealed_count(s) == k,
        forall|j: int| 0 <= j < k ==> (#[trigger] page_of(s, j)).len() == PAGE_SIZE,
        page_of(s, k as int).len() == r,
        forall|i: int|
            0 <= i < s.len() ==> #[trigger] s[i] == page_of(s, i / (PAGE_SIZE as int))[i % (
            PAGE_SIZE as int)],
{
}

/// One identifier more changes no sealed page: what a reader was given of a full page
/// stays true.
pub proof fn lemma_sealed_pages_stay(s: Seq<PollId>, id: PollId, j: int)
    requires
        0 <= j < sealed_count(s),
    ensures
        page_of(s.push(id), j) == page_of(s, j),
        sealed_count(s) <= sealed_count(s.push(id)),
{
    assert(page_of(s.push(id), j) =~= page_of(s, j));
}

/// A cursor that was handed out stays good: it points into the list whatever is appended
/// after, and what it has behind it stays as it was.
pub proof fn lemma_cursor_stays(s: Seq<PollId>, id: PollId, cursor: Cursor)
    requires
        cursor.is_in(s),
    ensures
        cursor.is_in(s.push(id)),
        s.push(id).subrange(0, cursor.position() as int) == s.subrange(
            0,
            cursor.position() as int,
        ),
{
    assert(s.push(id).subrange(0, cursor.position() as int) =~= s.subrange(
        0,
        cursor.position() as int,
    ));
}

/// What `pages_from` gives is what stands behind the cursor and nothing else: the
/// identifier at place `p` of the list, for every `p` from the cursor's position on, in
/// its page and at its place in the page.
pub proof fn lemma_pages_from_is_the_rest(s: Seq<PollId>, cursor: Cursor, p: int)
    requires
        cursor.is_in(s),
        cursor.position() <= p < s.len(),
    ensures
        ({
            let fresh = pages_from(s, cursor);
            let page = p / (PAGE_SIZE as int) - cursor.page;
            let place = if page == 0 {
                p % (PAGE_SIZE as int) - cursor.offset
            } else {
                p % (PAGE_SIZE as int)
            };
            &&& 0 <= page < fresh.len()
            &&& 0 <= place < fresh[page].len()
            &&& fresh[page][place] == s[p]
        }),
        pages_from(s, cursor).len() == page_count(s) - cursor.page,
        pages_from(s, cursor)[0].len() == page_of(s, cursor.page as int).len() - cursor.offset,
{
}

/// The number of bytes that hold `id`.
pub fn byte_width_of(id: PollId) -> (width: u8)
    ensures
        width == byte_width(id),
{
    if id < 0x100 {
        1
    } else if id < 0x1_0000 {
        2
    } else if id < 0x100_0000 {
        3
    } else if id < 0x1_0000_0000 {
        4
    } else if id < 0x100_0000_0000 {
        5
    } else if id < 0x1_0000_0000_0000 {
        6
    } else if id < 0x100_0000_0000_0000 {
        7
    } else {
        8
    }
}

fn copy_from(page: &Vec<PollId>, from: usize) -> (rest: Vec<PollId>)
    requires
        from <= page@.len(),
    ensures
        rest@ == page@.skip(from as int),
{
    let mut rest: Vec<PollId> = Vec::new();
    let mut i: usize = from;
    while i < page.len()
        invariant
            from <= i <= page@.len(),
            rest@ == page@.subrange(from as int, i as int),
        decreases page@.len() - i,
    {
        rest.push(page[i]);
        assert(rest@ =~= page@.subrange(from as int, i + 1));
        i = i + 1;
    }
    assert(page@.subrange(from as int, page@.len() as int) =~= page@.skip(from as int));
    rest
}

/// One pending-poll list: identifiers in the order of their creation, kept in pages.
pub struct PagedList {
    pages: Vec<Vec<PollId>>,
    byte_widths: Vec<u8>,
    open_max: PollId,
}

impl View for PagedList {
    type V = Seq<PollId>;

    closed spec fn view(&self) -> Seq<PollId> {
        Seq::new(
            ((self.pages@.len() - 1) * PAGE_SIZE + self.pages@.last()@.len()) as nat,
            |i: int| self.pages@[i / (PAGE_SIZE as int)]@[i % (PAGE_SIZE as int)],
        )
    }
}

impl PagedList {
    /// Every page but the last is full and has its width on record; the last is open.
    pub closed spec fn wf(self) -> bool {
        &&& self.pages@.len() >= 1
        &&& forall|j: int|
            0 <= j < self.pages@.len() - 1 ==> (#[trigger] self.pages@[j])@.len() == PAGE_SIZE
        &&& self.pages@.last()@.len() < PAGE_SIZE
        &&& self.byte_widths@.len() == self.pages@.len() - 1
        &&& forall|j: int|
            0 <= j < self.byte_widths@.len() ==> #[trigger] self.byte_widths@[j] == byte_width(
                max_of(self.pages@[j]@),
            )
        &&& self.open_max == max_of(self.pages@.last()@)
    }

    proof fn lemma_pages(self)
        requires
            self.wf(),
        ensures
            self@.len() == (self.pages@.len() - 1) * PAGE_SIZE + self.pages@.last()@.len(),
            page_count(self@) == self.pages@.len(),
            sealed_count(self@) == self.pages@.len() - 1,
            forall|j: int| 0 <= j < self.pages@.len() ==> #[trigger] self.pages@[j]@ == page_of(
                self@,
                j,
            ),
    {
        assert forall|j: int| 0 <= j < self.pages@.len() implies #[trigger] self.pages@[j]@
            == page_of(self@, j) by {
            if j < self.pages@.len() - 1 {
                assert(self.pages@[j]@.len() == PAGE_SIZE);
            }
            assert(self.pages@[j]@ =~= page_of(self@, j));
        }
    }

    /// A list without identifiers: one open page.
    pub fn new() -> (list: PagedList)
        ensures
            list.wf(),
            list@ == Seq::<PollId>::empty(),
    {
        let mut pages: Vec<Vec<PollId>> = Vec::new();
        pages.push(Vec::with_capacity(PAGE_SIZE));
        let list = PagedList { pages, byte_widths: Vec::new(), open_max: 0 };
        assert(list@ =~= Seq::<PollId>::empty());
        list
    }

    /// Puts `poll_id` on the open page. When that fills the page, the page is sealed with
    /// the width of its largest identifier, and a new page is opened.
    pub fn append(&mut self, poll_id: PollId)
        requires
            old(self).wf(),
        ensures
            final(self).wf(),
            final(self)@ == old(self)@.push(poll_id),
    {
        let last: usize = self.pages.len() - 1;
        let ghost open_before = self.pages@[last as int]@;
        self.pages[last].push(poll_id);
        assert(self.pages@[last as int]@.drop_last() =~= open_before);
        if poll_id > self.open_max {
            self.open_max = poll_id;
        }
        assert(self.open_max == max_of(self.pages@[last as int]@));
        assert forall|j: int| 0 <= j < last implies (#[trigger] self.pages@[j]) == old(self).pages@[j] by {}
        if self.pages[last].len() == PAGE_SIZE {
            self.byte_widths.push(byte_width_of(self.open_max));
            self.pages.push(Vec::with_capacity(PAGE_SIZE));
            self.open_max = 0;
            assert forall|j: int| 0 <= j < last implies (#[trigger] self.pages@[j]) == old(self).pages@[j] by {}
        }
        assert(self@ =~= old(self)@.push(poll_id));
    }

    /// The number of pages, the open one counted.
    pub fn num_pages(&self) -> (n: usize)
        requires
            self.wf(),
        ensures
            n == page_count(self@),
    {
        proof {
            self.lemma_pages();
        }
        self.pages.len()
    }

    /// The place after the last identifier: where a reader who has seen all stands.
    pub fn end(&self) -> (cursor: Cursor)
        requires
            self.wf(),
        ensures
            cursor.is_in(self@),
            cursor.position() == self@.len(),
    {
        proof {
            self.lemma_pages();
        }
        let last: usize = self.pages.len() - 1;
        Cursor { page: last, offset: self.pages[last].len() }
    }

    /// The identifiers of page `j`. `None` where the list has no such page.
    pub fn page(&self, j: usize) -> (page: Option<Vec<PollId>>)
        requires
            self.wf(),
        ensures
            match page {
                Some(p) => j < page_count(self@) && p@ == page_of(self@, j as int),
                None => j >= page_count(self@),
            },
    {
        proof {
            self.lemma_pages();
        }
        if j < self.pages.len() {
            let p = copy_from(&self.pages[j], 0);
            assert(p@ =~= self.pages@[j as int]@);
            Some(p)
        } else {
            None
        }
    }

    /// The number of bytes that hold each identifier of the sealed page `j`: the width of
    /// the largest of them. `None` where page `j` is not sealed, or is not there.
    pub fn byte_width(&self, j: usize) -> (width: Option<u8>)
        requires
            self.wf(),
        ensures
            match width {
                Some(w) => j < sealed_count(self@) && w == byte_width(
                    max_of(page_of(self@, j as int)),
                ),
                None => j >= sealed_count(self@),
            },
    {
        proof {
            self.lemma_pages();
        }
        if j < self.byte_widths.len() {
            Some(self.byte_widths[j])
        } else {
            None
        }
    }

    /// What a reader who stands at `cursor` has not seen: the rest of the cursor's page,
    /// then every later page, each in the order of creation. Nothing where the cursor does
    /// not point into the list.
    pub fn pages_since(&self, cursor: Cursor) -> (fresh: Vec<Vec<PollId>>)
        requires
            self.wf(),
        ensures
            fresh@.len() == pages_from(self@, cursor).len(),
            forall|i: int|
                0 <= i < fresh@.len() ==> (#[trigger] fresh@[i])@ == pages_from(self@, cursor)[i],
    {
        proof {
            self.lemma_pages();
        }
        let mut fresh: Vec<Vec<PollId>> = Vec::new();
        if cursor.offset >= PAGE_SIZE || cursor.page >= self.pages.len() || cursor.offset
            > self.pages[cursor.page].len() {
            return fresh;
        }
        assert(cursor.is_in(self@));
        fresh.push(copy_from(&self.pages[cursor.page], cursor.offset));
        let mut j: usize = cursor.page + 1;
        while j < self.pages.len()
            invariant
                self.wf(),
                cursor.is_in(self@),
                cursor.page < j <= self.pages@.len(),
                page_count(self@) == self.pages@.len(),
                forall|k: int| 0 <= k < self.pages@.len() ==> #[trigger] self.pages@[k]@
                    == page_of(self@, k),
                fresh@.len() == j - cursor.page,
                forall|i: int|
                    0 <= i < fresh@.len() ==> (#[trigger] fresh@[i])@ == pages_from(
                        self@,
                        cursor,
                    )[i],
            decreases self.pages@.len() - j,
        {
            let p = copy_from(&self.pages[j], 0);
            assert(p@ =~= self.pages@[j as int]@);
            fresh.push(p);
            j = j + 1;
        }
        fresh
    }
}

/// The pending-poll lists of one location: the location's own, and one for each of its
/// categories.
pub struct LocationPollPrependLists {
    location: PagedList,
    category_locations: HashMap<CategoryId, PagedList>,
}

impl LocationPollPrependLists {
    /// The polls of the location, in the order of their creation.
    pub closed spec fn location_list(self) -> Seq<PollId> {
        self.location@
    }

    /// The polls of `category` in the location, in the order of their creation.
    pub closed spec fn category_list(self, category: CategoryId) -> Seq<PollId> {
        if self.category_locations@.contains_key(category) {
            self.category_locations@[category]@
        } else {
            Seq::empty()
        }
    }

    /// The list that `append` and `pages_since` mean by `category`.
    pub open spec fn list(self, category: Option<CategoryId>) -> Seq<PollId> {
        match category {
            None => self.location_list(),
            Some(c) => self.category_list(c),
        }
    }

    /// Each list is well-formed.
    pub closed spec fn wf(self) -> bool {
        &&& self.location.wf()
        &&& forall|c: CategoryId| #[trigger]
            self.category_locations@.contains_key(c) ==> self.category_locations@[c].wf()
    }

    /// Lists without polls.
    pub fn new() -> (lists: LocationPollPrependLists)
        ensures
            lists.wf(),
            forall|category: Option<CategoryId>| #[trigger]
                lists.list(category) == Seq::<PollId>::empty(),
    {
        LocationPollPrependLists { location: PagedList::new(), category_locations: HashMap::new() }
    }

    /// Puts `poll_id` at the end of the location's own list, or of the list of `category`
    /// in the location. The other lists stay as they are.
    pub fn append(&mut self, category: Option<CategoryId>, poll_id: PollId)
        requires
            old(self).wf(),
        ensures
            final(self).wf(),
            final(self).list(category) == old(self).list(category).push(poll_id),
            forall|other: Option<CategoryId>|
                other != category ==> #[trigger] final(self).list(other) == old(self).list(other),
    {
        match category {
            None => {
                self.location.append(poll_id);
            },
            Some(c) => {
                let mut list = match self.category_locations.remove(&c) {
                    Some(list) => list,
                    None => PagedList::new(),
                };
                assert(list@ == old(self).category_list(c));
                list.append(poll_id);
                self.category_locations.insert(c, list);
                assert forall|other: Option<CategoryId>| other != category implies #[trigger]
                    self.list(other) == old(self).list(other) by {
                    match other {
                        None => {},
                        Some(o) => {
                            assert(self.category_locations@.contains_key(o) == old(self).category_locations@.contains_key(o));
                        },
                    }
                }
                assert forall|k: CategoryId| #[trigger]
                    self.category_locations@.contains_key(k) implies self.category_locations@[k].wf(
                ) by {
                    if k != c {
                        assert(old(self).category_locations@.contains_key(k));
                    }
                }
            },
        }
    }

    /// What a reader of the list of `category` who stands at `cursor` has not seen: see
    /// `pages_from`.
    pub fn pages_since(&self, category: Option<CategoryId>, cursor: Cursor) -> (fresh: Vec<
        Vec<PollId>,
    >)
        requires
            self.wf(),
        ensures
            fresh@.len() == pages_from(self.list(category), cursor).len(),
            forall|i: int|
                0 <= i < fresh@.len() ==> (#[trigger] fresh@[i])@ == pages_from(
                    self.list(category),
                    cursor,
                )[i],
    {
        match category {
            None => self.location.pages_since(cursor),
            Some(c) => match self.category_locations.get(&c) {
                Some(list) => list.pages_since(cursor),
                None => {
                    let list = PagedList::new();
                    list.pages_since(cursor)
                },
            },
        }
    }

    /// The place after the last poll of the list of `category`.
    pub fn end(&self, category: Option<CategoryId>) -> (cursor: Cursor)
        requires
            self.wf(),
        ensures
            cursor.is_in(self.list(category)),
            cursor.position() == self.list(category).len(),
    {
        match category {
            None => self.location.end(),
            Some(c) => match self.category_locations.get(&c) {
                Some(list) => list.end(),
                None => Cursor { page: 0, offset: 0 },
            },
        }
    }
}

/// The pending-poll lists of every location.
pub struct PollsByLocation {
    lists: HashMap<LocationId, LocationPollPrependLists>,
}

impl PollsByLocation {
    /// The polls of `location`, or with `Some` category of that category in the location,
    /// in the order of their creation.
    pub closed spec fn list(self, location: LocationId, category: Option<CategoryId>) -> Seq<
        PollId,
    > {
        if self.lists@.contains_key(location) {
            self.lists@[location].list(category)
        } else {
            Seq::empty()
        }
    }

    /// Each list is well-formed.
    pub closed spec fn wf(self) -> bool {
        forall|l: LocationId| #[trigger] self.lists@.contains_key(l) ==> self.lists@[l].wf()
    }

    /// Lists without polls.
    pub fn new() -> (lists: PollsByLocation)
        ensures
            lists.wf(),
            forall|location: LocationId, category: Option<CategoryId>| #[trigger]
                lists.list(location, category) == Seq::<PollId>::empty(),
    {
        PollsByLocation { lists: HashMap::new() }
    }

    /// Puts `poll_id` at the end of the list of `location`, or with `Some` category of the
    /// list of that category in the location: on the open page, which is sealed and
    /// followed by a new one when that fills it. The other lists stay as they are.
    pub fn append(&mut self, location: LocationId, category: Option<CategoryId>, poll_id: PollId)
        requires
            old(self).wf(),
        ensures
            final(self).wf(),
            final(self).list(location, category) == old(self).list(location, category).push(
                poll_id,
            ),
            forall|l: LocationId, c: Option<CategoryId>|
                l != location || c != category ==> #[trigger] final(self).list(l, c) == old(self).list(l, c),
    {
        let mut lists = match self.lists.remove(&location) {
            Some(lists) => lists,
            None => LocationPollPrependLists::new(),
        };
        assert forall|c: Option<CategoryId>| #[trigger]
            lists.list(c) == old(self).list(location, c) by {}
        lists.append(category, poll_id);
        self.lists.insert(location, lists);
        assert forall|l: LocationId, c: Option<CategoryId>|
            l != location || c != category implies #[trigger] self.list(l, c) == old(self).list(
            l,
            c,
        ) by {
            if l != location {
                assert(self.lists@.contains_key(l) == old(self).lists@.contains_key(l));
            }
        }
        assert forall|l: LocationId| #[trigger] self.lists@.contains_key(l) implies self.lists@[l].wf(
        ) by {
            if l != location {
                assert(old(self).lists@.contains_key(l));
            }
        }
    }

    /// What a reader of the list of `location` (or of `category` in it) who stands at
    /// `cursor` has not seen: the rest of the cursor's page, then every later page. Nothing
    /// where the cursor does not point into the list.
    pub fn pages_since(&self, location: LocationId, category: Option<CategoryId>, cursor: Cursor)
        -> (fresh: Vec<Vec<PollId>>)
        requires
            self.wf(),
        ensures
            fresh@.len() == pages_from(self.list(location, category), cursor).len(),
            forall|i: int|
                0 <= i < fresh@.len() ==> (#[trigger] fresh@[i])@ == pages_from(
                    self.list(location, category),
                    cursor,
                )[i],
    {
        match self.lists.get(&location) {
            Some(lists) => lists.pages_since(category, cursor),
            None => {
                let lists = LocationPollPrependLists::new();
                lists.pages_since(category, cursor)
            },
        }
    }

    /// The place after the last poll of the list of `location` (or of `category` in it):
    /// where a reader who has seen all stands.
    pub fn end(&self, location: LocationId, category: Option<CategoryId>) -> (cursor: Cursor)
        requires
            self.wf(),
        ensures
            cursor.is_in(self.list(location, category)),
            cursor.position() == self.list(location, category).len(),
    {
        match self.lists.get(&location) {
            Some(lists) => lists.end(category),
            None => Cursor { page: 0, offset: 0 },
        }
    }
}

} // verus!
