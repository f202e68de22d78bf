//! Reading a whole list: asking page after page until the pager is done.

use vstd::prelude::*;
use super::pager::{Page, PageRequest, Pager, PagerView, spec_receive, spec_request, taken_count, NO_LIMIT};

verus! {

/// The items of an answer, as plain values.
pub open spec fn answer_items<T>(page: Page<T>) -> Option<Seq<T>> {
    match page.items {
        Some(v) => Some(v@),
        None => None,
    }
}

/// Whether reading stops after this answer: no item list, or nothing kept.
pub open spec fn stops_after<T>(p: PagerView<T>, page: Page<T>) -> bool {
    answer_items(page) is None || spec_receive(p, answer_items(page), page.has_more).buffered.len() == 0
}

/// The state after an answer, once its items have been handed out.
pub open spec fn drained_after<T>(p: PagerView<T>, page: Page<T>) -> PagerView<T> {
    PagerView { buffered: Seq::empty(), ..spec_receive(p, answer_items(page), page.has_more) }
}

/// What reading a list yields from state `p`, given the server's answers in
/// order: the kept items of every page until the pager is done, an answer
/// holds no item list or no kept item, or an error comes.
pub open spec fn spec_collect<T, E>(p: PagerView<T>, answers: Seq<Result<Page<T>, E>>) -> Result<Seq<T>, E>
    decreases answers.len(),
{
    if spec_request(p) is None || answers.len() == 0 {
        Ok(Seq::empty())
    } else {
        match answers[0] {
            Err(e) => Err(e),
            Ok(page) => if stops_after(p, page) {
                Ok(Seq::empty())
            } else {
                match spec_collect(drained_after(p, page), answers.drop_first()) {
                    Ok(rest) => Ok(spec_receive(p, answer_items(page), page.has_more).buffered + rest),
                    Err(e) => Err(e),
                }
            },
        }
    }
}

/// Whether `answers` is a run of answers that `fetch` may give, one to
/// each request that reading from state `p` makes.
pub open spec fn answers_fit<T, E, F: Fn(PageRequest) -> Result<Page<T>, E>>(
    fetch: F,
    p: PagerView<T>,
    answers: Seq<Result<Page<T>, E>>,
) -> bool
    decreases answers.len(),
{
    match spec_request(p) {
        None => answers.len() == 0,
        Some(req) => {
            &&& answers.len() >= 1
            &&& call_ensures(fetch, (req,), answers[0])
            &&& match answers[0] {
                Err(_) => answers.len() == 1,
                Ok(page) => if stops_after(p, page) {
                    answers.len() == 1
                } else {
                    answers_fit(fetch, drained_after(p, page), answers.drop_first())
                },
            }
        },
    }
}

/// No answer `fetch` gives moves the offset past `i64::MAX`.
pub open spec fn fetch_in_range<T, E, F: Fn(PageRequest) -> Result<Page<T>, E>>(fetch: F) -> bool {
    forall|req: PageRequest, ans: Result<Page<T>, E>|
        #[trigger] call_ensures(fetch, (req,), ans) ==> match ans {
            Ok(page) => match page.items {
                Some(v) => v@.len() <= i64::MAX && req.offset + v@.len() <= i64::MAX,
                None => true,
            },
            Err(_) => true,
        }
}

/// Prepends items to an outcome.
pub open spec fn prepend<T, E>(v: Seq<T>, r: Result<Seq<T>, E>) -> Result<Seq<T>, E> {
    match r {
        Ok(s) => Ok(v + s),
        Err(e) => Err(e),
    }
}

/// The outcome of reading, as plain values.
pub open spec fn outcome_view<T, E>(r: Result<Vec<T>, E>) -> Result<Seq<T>, E> {
    match r {
        Ok(v) => Ok(v@),
        Err(e) => Err(e),
    }
}

proof fn lemma_collect_step<T, E, F: Fn(PageRequest) -> Result<Page<T>, E>>(
    fetch: F,
    p: PagerView<T>,
    page: Page<T>,
    rest: Seq<Result<Page<T>, E>>,
)
    requires
        spec_request(p) is Some,
        !stops_after(p, page),
    ensures
        spec_collect(p, seq![Ok::<Page<T>, E>(page)] + rest) == prepend(
            spec_receive(p, answer_items(page), page.has_more).buffered,
            spec_collect(drained_after(p, page), rest),
        ),
        call_ensures(fetch, (spec_request(p)->0,), Ok::<Page<T>, E>(page))
            ==> (answers_fit(fetch, p, seq![Ok::<Page<T>, E>(page)] + rest) == answers_fit(
            fetch,
            drained_after(p, page),
            rest,
        )),
{
    let all = seq![Ok::<Page<T>, E>(page)] + rest;
    assert(all.drop_first() =~= rest);
    assert(all[0] == Ok::<Page<T>, E>(page));
}

/// Reading never yields more items than the limit that is left: whatever
/// the server answers, the outcome holds at most `remaining_limit` items
/// (none when it is not positive), unless there is no limit.
pub proof fn lemma_collect_within_limit<T, E>(p: PagerView<T>, answers: Seq<Result<Page<T>, E>>)
    requires
        p.remaining_limit < NO_LIMIT,
    ensures
        spec_collect(p, answers) matches Ok(v) ==> v.len() <= (if p.remaining_limit > 0 {
            p.remaining_limit
        } else {
            0
        }),
    decreases answers.len(),
{
    if spec_request(p) is Some && answers.len() > 0 {
        if let Ok(page) = answers[0] {
            if !stops_after(p, page) {
                let q = drained_after(p, page);
                let items = answer_items(page)->0;
                assert(taken_count(p.remaining_limit, items.len() as int) >= 0);
                assert(q.remaining_limit < p.remaining_limit || q.remaining_limit == p.remaining_limit);
                lemma_collect_within_limit(q, answers.drop_first());
            }
        }
    }
}

/// A limit of zero or less asks the server nothing and yields nothing.
pub proof fn lemma_collect_nonpositive_limit<T, E>(p: PagerView<T>, answers: Seq<Result<Page<T>, E>>)
    requires
        p.remaining_limit <= 0,
    ensures
        spec_request(p) is None,
        spec_collect(p, answers) == Ok::<Seq<T>, E>(Seq::empty()),
{
}

/// Once the pager is finished it asks nothing more and yields nothing more.
pub proof fn lemma_collect_finished<T, E>(p: PagerView<T>, answers: Seq<Result<Page<T>, E>>)
    requires
        p.finished,
    ensures
        spec_request(p) is None,
        spec_collect(p, answers) == Ok::<Seq<T>, E>(Seq::empty()),
{
}

/// Each page moves the offset past exactly the items it hands out, and
/// counts them off the remaining limit.
pub proof fn lemma_receive_accounts<T>(p: PagerView<T>, items: Option<Seq<T>>, has_more: bool)
    requires
        spec_request(p) is Some,
    ensures
        spec_receive(p, items, has_more).offset == p.offset + spec_receive(p, items, has_more).buffered.len()
            || items is None,
        items is Some && p.remaining_limit != NO_LIMIT ==> spec_receive(p, items, has_more).remaining_limit
            == p.remaining_limit - spec_receive(p, items, has_more).buffered.len(),
        items matches Some(v) ==> spec_receive(p, items, has_more).buffered.is_prefix_of(v),
{
}

/// Reads a whole list starting from a fresh pager, asking `fetch` for each
/// page. The outcome is what `spec_collect` gives for some run of answers
/// that `fetch` may give to the requests made.
pub fn collect_pages<T, E, F: Fn(PageRequest) -> Result<Page<T>, E>>(
    pager: Pager<T>,
    fetch: F,
) -> (r: Result<Vec<T>, E>)
    requires
        pager.view().buffered.len() == 0,
        forall|req: PageRequest| call_requires(fetch, (req,)),
        fetch_in_range(fetch),
    ensures
        exists|answers: Seq<Result<Page<T>, E>>|
            answers_fit(fetch, pager.view(), answers) && outcome_view(r) == spec_collect(
                pager.view(),
                answers,
            ),
{
    let mut cur = pager;
    let ghost start = cur.view();
    assert(start == pager.view());
    let ghost mut seen: Seq<Result<Page<T>, E>> = Seq::empty();
    let mut out: Vec<T> = Vec::new();
    assert(seen + Seq::<Result<Page<T>, E>>::empty() =~= Seq::<Result<Page<T>, E>>::empty());
    loop
        invariant
            cur.view().buffered.len() == 0,
            start == pager.view(),
            forall|req: PageRequest| call_requires(fetch, (req,)),
            fetch_in_range(fetch),
            forall|rest: Seq<Result<Page<T>, E>>|
                #[trigger] answers_fit(fetch, cur.view(), rest) ==> answers_fit(fetch, start, seen + rest),
            forall|rest: Seq<Result<Page<T>, E>>|
                #[trigger] answers_fit(fetch, cur.view(), rest) ==> spec_collect(start, seen + rest)
                    == prepend(out@, spec_collect(cur.view(), rest)),
        decreases i64::MAX - cur.view().offset,
    {
        let ghost p = cur.view();
        proof {
            cur.lemma_view_ranges();
        }
        match cur.next_request() {
            None => {
                proof {
                    let empty = Seq::<Result<Page<T>, E>>::empty();
                    assert(answers_fit(fetch, p, empty));
                    assert(answers_fit(fetch, start, seen + empty));
                    assert(spec_collect(start, seen + empty) == prepend(out@, spec_collect(p, empty)));
                    assert(spec_collect(p, empty) == Ok::<Seq<T>, E>(Seq::empty()));
                    assert(out@ + Seq::<T>::empty() =~= out@);
                    assert(outcome_view(Ok::<Vec<T>, E>(out)) == spec_collect(start, seen + empty));
                }
                return Ok(out);
            },
            Some(req) => {
                let ans = fetch(req);
                let ghost ans_g = ans;
                assert(call_ensures(fetch, (req,), ans_g));
                match ans {
                    Err(e) => {
                        proof {
                            let one = seq![ans];
                            assert(one[0] == ans);
                            assert(answers_fit(fetch, p, one));
                            assert(spec_collect(p, one) == Err::<Seq<T>, E>(e));
                            assert(answers_fit(fetch, start, seen + one));
                            assert(spec_collect(start, seen + one) == prepend(out@, spec_collect(p, one)));
                            assert(outcome_view(Err::<Vec<T>, E>(e)) == spec_collect(start, seen + one));
                        }
                        return Err(e);
                    },
                    Ok(page) => {
                        let ghost page_g = page;
                        let Page { items, has_more } = page;
                        proof {
                            assert(ans_g == Ok::<Page<T>, E>(page_g));
                            assert(items == page_g.items);
                            assert(req.offset == p.offset);
                            if let Some(v) = page_g.items {
                                assert(v@.len() <= i64::MAX && req.offset + v@.len() <= i64::MAX);
                                assert(taken_count(p.remaining_limit, v@.len() as int) <= v@.len());
                            }
                        }
                        let got = cur.receive_page(items, has_more);
                        let ghost after = cur.view();
                        assert(after == spec_receive(p, answer_items(page_g), page_g.has_more));
                        if !got || cur.buffer_is_empty() {
                            proof {
                                let one = seq![Ok::<Page<T>, E>(page_g)];
                                assert(one[0] == Ok::<Page<T>, E>(page_g));
                                assert(stops_after(p, page_g));
                                assert(answers_fit(fetch, p, one));
                                assert(spec_collect(p, one) == Ok::<Seq<T>, E>(Seq::empty()));
                                assert(out@ + Seq::<T>::empty() =~= out@);
                            }
                            return Ok(out);
                        }
                        let ghost before_out = out@;
                        while !cur.buffer_is_empty()
                            invariant
                                out@ + cur.view().buffered == before_out + after.buffered,
                                cur.view() == (PagerView { buffered: cur.view().buffered, ..after }),
                            decreases cur.view().buffered.len(),
                        {
                            let ghost b = cur.view().buffered;
                            let x = cur.next_buffered();
                            match x {
                                Some(x) => {
                                    out.push(x);
                                    assert(out@ + cur.view().buffered =~= before_out + after.buffered);
                                },
                                None => {},
                            }
                        }
                        proof {
                            assert(out@ =~= before_out + after.buffered);
                            assert(cur.view().buffered =~= Seq::<T>::empty());
                            assert(cur.view() == drained_after(p, page_g));
                            assert(after.buffered.len() > 0);
                            assert(cur.view().offset > p.offset);
                            assert forall|rest: Seq<Result<Page<T>, E>>|
                                #[trigger] answers_fit(fetch, cur.view(), rest) implies answers_fit(
                                fetch,
                                start,
                                seen.push(Ok::<Page<T>, E>(page_g)) + rest,
                            ) && spec_collect(start, seen.push(Ok::<Page<T>, E>(page_g)) + rest)
                                == prepend(out@, spec_collect(cur.view(), rest)) by {
                                lemma_collect_step(fetch, p, page_g, rest);
                                let all = seq![Ok::<Page<T>, E>(page_g)] + rest;
                                assert(seen.push(Ok::<Page<T>, E>(page_g)) + rest =~= seen + all);
                                assert(answers_fit(fetch, p, all));
                                match spec_collect(cur.view(), rest) {
                                    Ok(s) => {
                                        assert(before_out + (after.buffered + s) =~= out@ + s);
                                    },
                                    Err(_) => {},
                                }
                            }
                            seen = seen.push(Ok::<Page<T>, E>(page_g));
                        }
                    },
                }
            },
        }
    }
}

} // verus!
