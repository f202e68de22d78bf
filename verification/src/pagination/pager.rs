//! The paging state shared by every list iterator.
//!
//! A list is read page by page from the server. The pager decides which page
//! to ask for next (offset and size), keeps the items of the last page that
//! have not been handed out yet, and counts down the caller's overall limit.
//! Asking the server is left to the caller: `next_request` says what to ask,
//! `receive_page` takes the answer.

use vstd::prelude::*;

verus! {

/// The value that stands for "no overall limit".
pub const NO_LIMIT: i64 = i64::MAX;

/// The page size used when the caller names none.
pub const DEFAULT_PAGE_SIZE: i64 = 1000;

/// One page to ask the server for.
#[derive(Debug, Clone, Copy, PartialEq, Eq, Structural)]
pub struct PageRequest {
    /// How many items to skip.
    pub offset: i64,
    /// How many items to return at most.
    pub limit: i64,
}

/// What the server answered for a page.
pub struct Page<T> {
    /// The items, or `None` when the server sent no item list.
    pub items: Option<Vec<T>>,
    /// Whether more items follow.
    pub has_more: bool,
}

/// The paging state.
pub struct Pager<T> {
    offset: i64,
    remaining_limit: i64,
    initial_limit: i64,
    /// The unread items of the current page, last item first.
    page: Vec<T>,
    finished: bool,
}

/// The paging state as plain values.
pub struct PagerView<T> {
    /// Offset of the next page.
    pub offset: int,
    /// Items the caller still wants, or `NO_LIMIT`.
    pub remaining_limit: int,
    /// Page size.
    pub initial_limit: int,
    /// Unread items of the current page, in order.
    pub buffered: Seq<T>,
    /// No further page will be asked for.
    pub finished: bool,
}

/// Whether another page may be asked for.
pub open spec fn may_fetch(finished: bool, remaining_limit: int) -> bool {
    !finished && (remaining_limit == NO_LIMIT || remaining_limit > 0)
}

/// The size of the next page: the smaller of the page size and what is left.
pub open spec fn page_limit(remaining_limit: int, initial_limit: int) -> int {
    if remaining_limit < initial_limit { remaining_limit } else { initial_limit }
}

/// How many of `len` received items are kept.
pub open spec fn taken_count(remaining_limit: int, len: int) -> int {
    if remaining_limit == NO_LIMIT {
        len
    } else if len < remaining_limit {
        len
    } else {
        remaining_limit
    }
}

/// The request that follows from a state.
pub open spec fn spec_request<T>(p: PagerView<T>) -> Option<PageRequest> {
    if may_fetch(p.finished, p.remaining_limit) {
        Some(
            PageRequest {
                offset: p.offset as i64,
                limit: page_limit(p.remaining_limit, p.initial_limit) as i64,
            },
        )
    } else {
        None
    }
}

/// The state after a page has been received.
pub open spec fn spec_receive<T>(p: PagerView<T>, items: Option<Seq<T>>, has_more: bool) -> PagerView<T> {
    match items {
        Some(items) => {
            let n = taken_count(p.remaining_limit, items.len() as int);
            let rl = if p.remaining_limit == NO_LIMIT {
                p.remaining_limit
            } else {
                p.remaining_limit - n
            };
            PagerView {
                offset: p.offset + n,
                remaining_limit: rl,
                initial_limit: p.initial_limit,
                buffered: items.take(n),
                finished: !has_more || (rl != NO_LIMIT && rl <= 0),
            }
        },
        None => PagerView { finished: true, ..p },
    }
}

impl<T> Pager<T> {
    /// The state as plain values.
    pub closed spec fn view(&self) -> PagerView<T> {
        PagerView {
            offset: self.offset as int,
            remaining_limit: self.remaining_limit as int,
            initial_limit: self.initial_limit as int,
            buffered: self.page@.reverse(),
            finished: self.finished,
        }
    }

    /// The numbers of a state are machine integers.
    pub proof fn lemma_view_ranges(&self)
        ensures
            i64::MIN <= self.view().offset <= i64::MAX,
            i64::MIN <= self.view().remaining_limit <= i64::MAX,
            i64::MIN <= self.view().initial_limit <= i64::MAX,
    {
    }


    /// A pager that starts at `offset`, hands out at most `limit` items in all
    /// (no bound when `None`) and asks for pages of `initial_limit` items
    /// (1000 when `None`).
    pub fn new(offset: i64, limit: Option<i64>, initial_limit: Option<i64>) -> (p: Self)
        ensures
            p.view().offset == offset,
            p.view().remaining_limit == (match limit {
                Some(l) => l as int,
                None => NO_LIMIT as int,
            }),
            p.view().initial_limit == (match initial_limit {
                Some(l) => l as int,
                None => DEFAULT_PAGE_SIZE as int,
            }),
            p.view().buffered == Seq::<T>::empty(),
            !p.view().finished,
    {
        let p = Pager {
            offset,
            remaining_limit: match limit {
                Some(l) => l,
                None => NO_LIMIT,
            },
            initial_limit: match initial_limit {
                Some(l) => l,
                None => DEFAULT_PAGE_SIZE,
            },
            page: Vec::new(),
            finished: false,
        };
        assert(p.page@.reverse() =~= Seq::<T>::empty());
        p
    }

    /// Whether no further page will be asked for.
    pub fn is_finished(&self) -> (b: bool)
        ensures
            b == self.view().finished,
    {
        self.finished
    }

    /// The offset of the next page.
    pub fn offset(&self) -> (o: i64)
        ensures
            o == self.view().offset,
    {
        self.offset
    }

    /// Whether every item of the current page has been handed out.
    pub fn buffer_is_empty(&self) -> (b: bool)
        ensures
            b == (self.view().buffered.len() == 0),
    {
        self.page.len() == 0
    }

    /// Hands out the next unread item of the current page.
    pub fn next_buffered(&mut self) -> (r: Option<T>)
        ensures
            match r {
                Some(x) => {
                    &&& old(self).view().buffered.len() > 0
                    &&& x == old(self).view().buffered[0]
                    &&& final(self).view() == PagerView {
                        buffered: old(self).view().buffered.drop_first(),
                        ..old(self).view()
                    }
                },
                None => old(self).view().buffered.len() == 0 && final(self).view() == old(self).view(),
            },
    {
        let ghost before = self.page@;
        let r = self.page.pop();
        proof {
            if r is Some {
                assert(self.page@.reverse() =~= before.reverse().drop_first());
            }
        }
        r
    }

    /// The page to ask the server for next, if any.
    pub fn next_request(&self) -> (r: Option<PageRequest>)
        ensures
            r == spec_request(self.view()),
    {
        if self.finished || (self.remaining_limit != NO_LIMIT && self.remaining_limit <= 0) {
            None
        } else {
            let limit = if self.remaining_limit < self.initial_limit {
                self.remaining_limit
            } else {
                self.initial_limit
            };
            Some(PageRequest { offset: self.offset, limit })
        }
    }

    /// Takes the server's answer to the request made last: keeps as many of
    /// the items as the overall limit allows, advances the offset past them,
    /// and finishes when the server has no more or the limit is used up.
    /// Returns whether an item list came.
    pub fn receive_page(&mut self, items: Option<Vec<T>>, has_more: bool) -> (got: bool)
        requires
            spec_request(old(self).view()) is Some,
            old(self).view().buffered.len() == 0,
            items matches Some(v) ==> v@.len() <= i64::MAX,
            items matches Some(v) ==> old(self).view().offset + taken_count(
                old(self).view().remaining_limit,
                v@.len() as int,
            ) <= i64::MAX,
        ensures
            got == items is Some,
            final(self).view() == spec_receive(
                old(self).view(),
                match items {
                    Some(v) => Some(v@),
                    None => None::<Seq<T>>,
                },
                has_more,
            ),
    {
        match items {
            Some(mut v) => {
                let len = v.len();
                let n: usize = if self.remaining_limit == NO_LIMIT {
                    len
                } else if (len as u64) < (self.remaining_limit as u64) {
                    len
                } else {
                    self.remaining_limit as usize
                };
                assert(n as int == taken_count(self.remaining_limit as int, len as int));
                let ghost all = v@;
                v.truncate(n);
                let ghost kept = v@;
                assert(kept =~= all.take(n as int));
                let mut page: Vec<T> = Vec::new();
                while v.len() > 0
                    invariant
                        kept == v@ + page@.reverse(),
                    decreases v@.len(),
                {
                    let ghost before_v = v@;
                    let ghost before_p = page@;
                    let x = v.pop().unwrap();
                    page.push(x);
                    assert(page@.reverse() =~= seq![x] + before_p.reverse());
                    assert(before_v =~= v@.push(x));
                    assert(kept =~= v@ + page@.reverse());
                }
                assert(page@.reverse() =~= kept);
                if self.remaining_limit != NO_LIMIT {
                    self.remaining_limit = self.remaining_limit - n as i64;
                }
                self.offset = self.offset + n as i64;
                self.page = page;
                assert(self.page@.reverse() == all.take(n as int));
                if !has_more || (self.remaining_limit != NO_LIMIT && self.remaining_limit <= 0) {
                    self.finished = true;
                }
                true
            },
            None => {
                self.finished = true;
                false
            },
        }
    }
}

} // verus!
