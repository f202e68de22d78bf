//! Reading a list from a server that holds it: what lazy reading hands out,
//! and that it is what reading the whole list at once yields.
//!
//! The server holds a list `s`; asked for `limit` items from `offset`, it
//! answers the items `s[offset..offset + limit]` that exist and says whether
//! more follow.

use vstd::prelude::*;
use super::collect::{answer_items, answers_fit, drained_after, spec_collect, stops_after};
use super::pager::{Page, PageRequest, PagerView, spec_receive, spec_request, NO_LIMIT};

verus! {

/// The server's answer for list `s` to a request: the items from the offset
/// on, at most `limit` of them, and whether items follow them.
pub open spec fn server_page<T>(s: Seq<T>, req: PageRequest) -> (Seq<T>, bool) {
    let lo = if req.offset < 0 {
        0
    } else if req.offset > s.len() {
        s.len() as int
    } else {
        req.offset as int
    };
    let end = req.offset + req.limit;
    let hi = if end < lo {
        lo
    } else if end > s.len() {
        s.len() as int
    } else {
        end
    };
    (s.subrange(lo, hi), end < s.len())
}

/// What lazy reading from state `p` hands out, in order, when the server
/// holds list `s`: the kept items of each page, until the pager is done or
/// a page keeps nothing.
pub open spec fn server_run<T>(p: PagerView<T>, s: Seq<T>) -> Seq<T>
    decreases s.len() + 1 - p.offset,
{
    if spec_request(p) is None || p.offset < 0 || p.offset > s.len() || s.len() > i64::MAX {
        Seq::empty()
    } else {
        let req = spec_request(p)->0;
        let ans = server_page(s, req);
        let q = spec_receive(p, Some(ans.0), ans.1);
        if q.buffered.len() == 0 {
            Seq::empty()
        } else {
            proof {
                lemma_progress(p, s);
            }
            q.buffered + server_run(PagerView { buffered: Seq::empty(), ..q }, s)
        }
    }
}

/// Whether every request that lazy reading from `p` makes asks for at most
/// `page_size` items, starting at `base` plus the items handed out before it.
pub open spec fn requests_follow<T>(p: PagerView<T>, s: Seq<T>, base: int, page_size: int) -> bool
    decreases s.len() + 1 - p.offset,
{
    if spec_request(p) is None || p.offset < 0 || p.offset > s.len() || s.len() > i64::MAX {
        true
    } else {
        let req = spec_request(p)->0;
        let ans = server_page(s, req);
        let q = spec_receive(p, Some(ans.0), ans.1);
        proof {
            lemma_progress(p, s);
        }
        &&& req.offset == base
        &&& 0 < req.limit <= page_size
        &&& (q.buffered.len() > 0 ==> requests_follow(
            PagerView { buffered: Seq::empty(), ..q },
            s,
            base + q.buffered.len(),
            page_size,
        ))
    }
}

/// Each page that hands out items moves the offset forward, and not past the
/// end of the list.
pub proof fn lemma_progress<T>(p: PagerView<T>, s: Seq<T>)
    requires
        spec_request(p) is Some,
        0 <= p.offset <= s.len(),
        s.len() <= i64::MAX,
    ensures
        ({
            let req = spec_request(p)->0;
            let ans = server_page(s, req);
            let q = spec_receive(p, Some(ans.0), ans.1);
            q.buffered.len() > 0 ==> p.offset < q.offset <= s.len()
        }),
{
    let req = spec_request(p)->0;
    let ans = server_page(s, req);
    assert(req.offset == p.offset);
    assert(ans.0.len() <= s.len() - p.offset);
}

/// The part of list `s` that reading from `offset` with a remaining limit
/// hands out: everything from the offset on, or its first `limit` items.
pub open spec fn wanted<T>(s: Seq<T>, offset: int, remaining_limit: int) -> Seq<T> {
    let rest = if offset <= s.len() {
        s.skip(offset)
    } else {
        Seq::empty()
    };
    if remaining_limit == NO_LIMIT || rest.len() <= remaining_limit {
        if remaining_limit <= 0 {
            Seq::empty()
        } else {
            rest
        }
    } else if remaining_limit <= 0 {
        Seq::empty()
    } else {
        rest.take(remaining_limit)
    }
}

proof fn lemma_step<T>(p: PagerView<T>, s: Seq<T>)
    requires
        spec_request(p) is Some,
        0 <= p.offset <= s.len(),
        s.len() <= i64::MAX,
        0 < p.initial_limit <= i64::MAX,
        p.remaining_limit <= NO_LIMIT,
    ensures
        ({
            let req = spec_request(p)->0;
            let ans = server_page(s, req);
            let q = spec_receive(p, Some(ans.0), ans.1);
            &&& req.offset == p.offset
            &&& 0 < req.limit <= p.initial_limit
            &&& q.buffered == s.subrange(p.offset, q.offset)
            &&& q.offset == p.offset + q.buffered.len()
            &&& q.offset <= s.len()
            &&& q.initial_limit == p.initial_limit
            &&& (p.remaining_limit == NO_LIMIT ==> q.remaining_limit == NO_LIMIT)
            &&& (p.remaining_limit != NO_LIMIT ==> q.remaining_limit == p.remaining_limit
                - q.buffered.len())
            &&& q.buffered.len() <= req.limit
            &&& (!q.finished ==> q.buffered.len() == req.limit && q.offset < s.len())
            &&& (q.finished ==> (q.offset == s.len() || (p.remaining_limit != NO_LIMIT
                && q.buffered.len() == p.remaining_limit)))
        }),
{
    let req = spec_request(p)->0;
    let ans = server_page(s, req);
    assert(ans.0.len() <= req.limit);
}

/// Lazy reading hands out exactly the wanted part of the list: from a state
/// with nothing in hand and not yet finished, at a non-negative offset
/// within the list, with a positive page size, it yields everything from the
/// offset on, or its first `remaining_limit` items.
pub proof fn lemma_server_run_reads_the_list<T>(p: PagerView<T>, s: Seq<T>)
    requires
        !p.finished,
        0 <= p.offset,
        s.len() <= i64::MAX,
        0 < p.initial_limit <= i64::MAX,
        p.remaining_limit <= NO_LIMIT,
    ensures
        server_run(p, s) == wanted(s, p.offset, p.remaining_limit),
    decreases s.len() + 1 - p.offset,
{
    if p.offset > s.len() {
        assert(wanted(s, p.offset, p.remaining_limit) =~= Seq::<T>::empty());
        return;
    }
    if spec_request(p) is None {
        assert(p.remaining_limit <= 0);
        assert(wanted(s, p.offset, p.remaining_limit) =~= Seq::<T>::empty());
        return;
    }
    lemma_step(p, s);
    let req = spec_request(p)->0;
    let ans = server_page(s, req);
    let q = spec_receive(p, Some(ans.0), ans.1);
    let d = PagerView { buffered: Seq::empty(), ..q };
    let rest = s.skip(p.offset);
    if q.buffered.len() == 0 {
        assert(q.offset == s.len() || q.buffered.len() == req.limit || p.remaining_limit == 0);
        assert(wanted(s, p.offset, p.remaining_limit) =~= Seq::<T>::empty());
    } else if q.finished {
        assert(server_run(d, s) == Seq::<T>::empty());
        if q.offset == s.len() {
            assert(q.buffered =~= rest);
            assert(rest.len() <= req.limit);
        } else {
            assert(q.buffered =~= rest.take(p.remaining_limit));
        }
        assert(server_run(p, s) =~= wanted(s, p.offset, p.remaining_limit));
    } else {
        lemma_server_run_reads_the_list(d, s);
        let w = wanted(s, q.offset, q.remaining_limit);
        assert(s.skip(q.offset) =~= rest.skip(q.buffered.len() as int));
        if p.remaining_limit == NO_LIMIT || rest.len() <= p.remaining_limit {
            assert(q.buffered + w =~= rest);
        } else {
            assert(q.buffered + w =~= rest.take(p.remaining_limit));
        }
    }
}

/// Every request of lazy reading asks for at most a page of items, starting
/// at the first offset plus the items handed out before it.
pub proof fn lemma_server_requests_follow<T>(p: PagerView<T>, s: Seq<T>)
    requires
        0 <= p.offset,
        s.len() <= i64::MAX,
        0 < p.initial_limit <= i64::MAX,
        p.remaining_limit <= NO_LIMIT,
    ensures
        requests_follow(p, s, p.offset, p.initial_limit),
    decreases s.len() + 1 - p.offset,
{
    if spec_request(p) is Some && p.offset <= s.len() {
        lemma_step(p, s);
        let req = spec_request(p)->0;
        let ans = server_page(s, req);
        let q = spec_receive(p, Some(ans.0), ans.1);
        if q.buffered.len() > 0 {
            lemma_server_requests_follow(PagerView { buffered: Seq::empty(), ..q }, s);
        }
    }
}

/// Whether `fetch` answers as a server holding list `s` does, never failing.
pub open spec fn serves<T, E, F: Fn(PageRequest) -> Result<Page<T>, E>>(fetch: F, s: Seq<T>) -> bool {
    forall|req: PageRequest, ans: Result<Page<T>, E>|
        #[trigger] call_ensures(fetch, (req,), ans) ==> (ans matches Ok(page) && answer_items(page)
            == Some(server_page(s, req).0) && page.has_more == server_page(s, req).1)
}

/// Reading the whole list at once yields what lazy reading hands out: for
/// any answers that a `fetch` serving list `s` gives to the requests made,
/// the collected outcome is `server_run`.
pub proof fn lemma_collect_is_server_run<T, E, F: Fn(PageRequest) -> Result<Page<T>, E>>(
    fetch: F,
    s: Seq<T>,
    p: PagerView<T>,
    answers: Seq<Result<Page<T>, E>>,
)
    requires
        serves(fetch, s),
        answers_fit(fetch, p, answers),
        0 <= p.offset <= i64::MAX,
        s.len() <= i64::MAX,
        0 < p.initial_limit <= i64::MAX,
        p.remaining_limit <= NO_LIMIT,
    ensures
        spec_collect(p, answers) == Ok::<Seq<T>, E>(server_run(p, s)),
    decreases answers.len(),
{
    if spec_request(p) is Some {
        let req = spec_request(p)->0;
        assert(call_ensures(fetch, (req,), answers[0]));
        let page = answers[0]->Ok_0;
        if p.offset <= s.len() {
            lemma_step(p, s);
            let ans = server_page(s, req);
            let q = spec_receive(p, Some(ans.0), ans.1);
            assert(spec_receive(p, answer_items(page), page.has_more) == q);
            if !stops_after(p, page) {
                assert(drained_after(p, page) == PagerView { buffered: Seq::<T>::empty(), ..q });
                lemma_collect_is_server_run(fetch, s, drained_after(p, page), answers.drop_first());
            }
        } else {
            let ans = server_page(s, req);
            assert(req.offset == p.offset);
            assert(ans.0 =~= Seq::<T>::empty());
        }
    }
}

} // verus!
