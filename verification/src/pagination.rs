//! Cursor pagination: page-size limits and cutting a fetched page.
use vstd::prelude::*;

verus! {

/// `v` limited to `[lo, hi]`.
pub open spec fn clamped(v: int, lo: int, hi: int) -> int {
    if v < lo {
        lo
    } else if v > hi {
        hi
    } else {
        v
    }
}

/// A clamped value lies within the bounds, and clamping it again changes
/// nothing: page sizes and list lengths always stay within their limits.
pub proof fn lemma_clamped_within(v: int, lo: int, hi: int)
    requires
        lo <= hi,
    ensures
        lo <= clamped(v, lo, hi) <= hi,
        clamped(clamped(v, lo, hi), lo, hi) == clamped(v, lo, hi),
        lo <= v <= hi ==> clamped(v, lo, hi) == v,
{
}

/// Limits `v` to `[lo, hi]`, as `i64::clamp` does.
pub fn clamp_i64(v: i64, lo: i64, hi: i64) -> (r: i64)
    requires
        lo <= hi,
    ensures
        r == clamped(v as int, lo as int, hi as int),
{
    if v < lo {
        lo
    } else if v > hi {
        hi
    } else {
        v
    }
}

/// Page size used when a request names none.
pub fn default_page_size() -> (r: i64)
    ensures
        r == 20,
{
    20
}

/// Highlight count used when a request names none.
pub fn default_highlight_limit() -> (r: i64)
    ensures
        r == 5,
{
    5
}

/// List length used by the discovery lists when a request names none.
pub fn default_limit() -> (r: i64)
    ensures
        r == 10,
{
    10
}

/// Cursor pagination parameters; a cursor is the creation time (microseconds
/// since the Unix epoch) and id of the last item already seen.
#[derive(Debug)]
pub struct PageQuery {
    pub page_size: i64,
    pub cursor_created_at: Option<i64>,
    pub cursor_id: Option<u128>,
}

impl PageQuery {
    /// The page size actually used: between 1 and 100.
    pub fn page_size(&self) -> (r: i64)
        ensures
            r == clamped(self.page_size as int, 1, 100),
    {
        clamp_i64(self.page_size, 1, 100)
    }

    /// The cursor, when both of its parts are given.
    pub fn cursor(&self) -> (r: Option<(i64, u128)>)
        ensures
            r is Some <==> (self.cursor_created_at is Some && self.cursor_id is Some),
            r matches Some(c) ==> Some(c.0) == self.cursor_created_at && Some(c.1) == self.cursor_id,
    {
        match (self.cursor_created_at, self.cursor_id) {
            (Some(t), Some(id)) => Some((t, id)),
            _ => None,
        }
    }
}

/// Pagination parameters of topic lists, whose order puts pinned topics first;
/// the cursor also carries whether the last topic seen was pinned.
#[derive(Debug)]
pub struct TopicPageQuery {
    pub page_size: i64,
    pub cursor_created_at: Option<i64>,
    pub cursor_id: Option<u128>,
    pub cursor_is_pinned: Option<bool>,
}

impl TopicPageQuery {
    /// The page size actually used: between 1 and 100.
    pub fn page_size(&self) -> (r: i64)
        ensures
            r == clamped(self.page_size as int, 1, 100),
    {
        clamp_i64(self.page_size, 1, 100)
    }

    /// The cursor, when all three of its parts are given.
    pub fn cursor(&self) -> (r: Option<(bool, i64, u128)>)
        ensures
            r is Some <==> (self.cursor_is_pinned is Some && self.cursor_created_at is Some
                && self.cursor_id is Some),
            r matches Some(c) ==> Some(c.0) == self.cursor_is_pinned && Some(c.1)
                == self.cursor_created_at && Some(c.2) == self.cursor_id,
    {
        match (self.cursor_is_pinned, self.cursor_created_at, self.cursor_id) {
            (Some(p), Some(t), Some(id)) => Some((p, t, id)),
            _ => None,
        }
    }
}

/// How many topic highlights a course page asks for.
#[derive(Debug)]
pub struct TopicHighlightQuery {
    pub limit: i64,
}

impl TopicHighlightQuery {
    /// The count actually used: between 1 and 10.
    pub fn limit(&self) -> (r: i64)
        ensures
            r == clamped(self.limit as int, 1, 10),
    {
        clamp_i64(self.limit, 1, 10)
    }
}

/// How many items a discovery list asks for.
#[derive(Debug)]
pub struct DiscoverLimitQuery {
    pub limit: i64,
}

impl DiscoverLimitQuery {
    /// The count actually used: between 1 and 50.
    pub fn limit(&self) -> (r: i64)
        ensures
            r == clamped(self.limit as int, 1, 50),
    {
        clamp_i64(self.limit, 1, 50)
    }
}

/// One page of a cursor-paginated list.
#[derive(Debug)]
pub struct PagedList<T, C> {
    pub page_size: i64,
    /// More items follow this page.
    pub has_more: bool,
    /// Where the next page starts: the key of this page's last item, when more follow.
    pub next_cursor: Option<C>,
    pub items: Vec<T>,
}

/// Cuts a page from `fetched`, which holds up to `page_size + 1` items read in
/// list order, with `keys[i]` the cursor key of `fetched[i]`. The page holds the
/// first `page_size` items; more follow exactly when more were fetched; the next
/// cursor is the key of the page's last item when more follow.
pub fn paginate<T, C>(fetched: Vec<T>, keys: Vec<C>, page_size: i64) -> (r: PagedList<T, C>)
    requires
        fetched@.len() == keys@.len(),
        page_size >= 1,
    ensures
        r.page_size == page_size,
        r.has_more == (fetched@.len() > page_size),
        r.has_more ==> r.items@ == fetched@.subrange(0, page_size as int),
        !r.has_more ==> r.items@ == fetched@,
        r.has_more ==> r.next_cursor == Some(keys@[page_size - 1]),
        !r.has_more ==> r.next_cursor is None,
        r.items@.len() <= page_size,
{
    let has_more = (fetched.len() as u128) > (page_size as u128);
    if has_more {
        let mut items = fetched;
        let mut keys = keys;
        let n = page_size as usize;
        items.truncate(n);
        keys.truncate(n);
        let next = keys.pop();
        PagedList { page_size, has_more, next_cursor: next, items }
    } else {
        PagedList { page_size, has_more, next_cursor: None, items: fetched }
    }
}

} // verus!
