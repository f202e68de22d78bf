//! Reading lists of workflows page by page.

use vstd::prelude::*;
use super::pager::{Page, PageRequest, Pager, PagerView, spec_request, spec_receive, taken_count, NO_LIMIT, DEFAULT_PAGE_SIZE};
use super::collect::{answers_fit, collect_pages, fetch_in_range, outcome_view, spec_collect};

verus! {

/// Filters and paging for listing workflows. Every filter is unset by
/// default and the offset is 0.
#[derive(Debug, Clone)]
pub struct WorkflowListParams {
    /// The `offset` query parameter.
    pub offset: i64,
    /// The `limit` query parameter.
    pub limit: Option<i64>,
    /// The `sort_by` query parameter.
    pub sort_by: Option<String>,
    /// The `reverse_sort` query parameter.
    pub reverse_sort: Option<bool>,
    /// The `name` query parameter.
    pub name: Option<String>,
    /// The `user` query parameter.
    pub user: Option<String>,
    /// The `description` query parameter.
    pub description: Option<String>,
    /// The `is_archived` query parameter.
    pub is_archived: Option<bool>,
}

impl Default for WorkflowListParams {
    fn default() -> (r: Self)
        ensures
            r.offset == 0,
            r.limit == None::<i64>,
            r.sort_by == None::<String>,
            r.reverse_sort == None::<bool>,
            r.name == None::<String>,
            r.user == None::<String>,
            r.description == None::<String>,
            r.is_archived == None::<bool>,
    {
        WorkflowListParams {
            offset: 0,
            limit: None,
            sort_by: None,
            reverse_sort: None,
            name: None,
            user: None,
            description: None,
            is_archived: None,
        }
    }
}

impl WorkflowListParams {
    /// No filter, offset 0.
    pub fn new() -> (r: Self)
        ensures
            r.offset == 0,
            r.limit == None::<i64>,
            r.sort_by == None::<String>,
            r.reverse_sort == None::<bool>,
            r.name == None::<String>,
            r.user == None::<String>,
            r.description == None::<String>,
            r.is_archived == None::<bool>,
    {
        Self::default()
    }

    /// Sets `offset`.
    pub fn with_offset(self, offset: i64) -> (r: Self)
        ensures
            r == (WorkflowListParams { offset: offset, ..self }),
    {
        WorkflowListParams { offset: offset, ..self }
    }

    /// Sets `limit`.
    pub fn with_limit(self, limit: i64) -> (r: Self)
        ensures
            r == (WorkflowListParams { limit: Some(limit), ..self }),
    {
        WorkflowListParams { limit: Some(limit), ..self }
    }

    /// Sets `sort_by`.
    pub fn with_sort_by(self, sort_by: String) -> (r: Self)
        ensures
            r == (WorkflowListParams { sort_by: Some(sort_by), ..self }),
    {
        WorkflowListParams { sort_by: Some(sort_by), ..self }
    }

    /// Sets `reverse_sort`.
    pub fn with_reverse_sort(self, reverse: bool) -> (r: Self)
        ensures
            r == (WorkflowListParams { reverse_sort: Some(reverse), ..self }),
    {
        WorkflowListParams { reverse_sort: Some(reverse), ..self }
    }

    /// Sets `user`.
    pub fn with_user(self, user: String) -> (r: Self)
        ensures
            r == (WorkflowListParams { user: Some(user), ..self }),
    {
        WorkflowListParams { user: Some(user), ..self }
    }

    /// Sets `is_archived`.
    pub fn with_is_archived(self, is_archived: bool) -> (r: Self)
        ensures
            r == (WorkflowListParams { is_archived: Some(is_archived), ..self }),
    {
        WorkflowListParams { is_archived: Some(is_archived), ..self }
    }

}

/// Lazy reading of workflows: hands out the items of one page at a time
/// and says which page to ask the server for next.
pub struct WorkflowsIterator<T> {
    params: WorkflowListParams,
    pager: Pager<T>,
}

impl<T> WorkflowsIterator<T> {
    /// Starts reading at `params.offset`, handing out at most `params.limit`
    /// items in all, in pages of `initial_limit` items (1000 when `None`).
    pub fn new(params: WorkflowListParams, initial_limit: Option<i64>) -> (r: Self)
        ensures
            r.params() == params,
            r.state() == start_view::<T>(params, initial_limit),
    {
        let pager = Pager::new(params.offset, params.limit, initial_limit);
        WorkflowsIterator { params, pager }
    }

    /// The filters the iterator was made with.
    pub closed spec fn params(&self) -> WorkflowListParams {
        self.params
    }

    /// The filters the iterator was made with; the live offset is the pager's.
    pub fn get_params(&self) -> (p: &WorkflowListParams)
        ensures
            *p == self.params(),
    {
        &self.params
    }

    /// The paging state.
    pub closed spec fn state(&self) -> PagerView<T> {
        self.pager.view()
    }


    /// The page to ask the server for next, if any.
    pub fn next_request(&self) -> (r: Option<PageRequest>)
        ensures
            r == spec_request(self.state()),
    {
        self.pager.next_request()
    }

    /// Hands out the next item of the page in hand.
    pub fn next_buffered(&mut self) -> (r: Option<T>)
        ensures
            final(self).params() == old(self).params(),
            match r {
                Some(x) => {
                    &&& old(self).state().buffered.len() > 0
                    &&& x == old(self).state().buffered[0]
                    &&& final(self).state() == (PagerView {
                        buffered: old(self).state().buffered.drop_first(),
                        ..old(self).state()
                    })
                },
                None => old(self).state().buffered.len() == 0 && final(self).state() == old(self).state(),
            },
    {
        self.pager.next_buffered()
    }

    /// Takes the server's answer to the last request; returns whether an item
    /// list came.
    pub fn receive_page(&mut self, items: Option<Vec<T>>, has_more: bool) -> (got: bool)
        requires
            spec_request(old(self).state()) is Some,
            old(self).state().buffered.len() == 0,
            items matches Some(v) ==> v@.len() <= i64::MAX,
            items matches Some(v) ==> old(self).state().offset + taken_count(
                old(self).state().remaining_limit,
                v@.len() as int,
            ) <= i64::MAX,
        ensures
            final(self).params() == old(self).params(),
            got == items is Some,
            final(self).state() == spec_receive(
                old(self).state(),
                match items {
                    Some(v) => Some(v@),
                    None => None::<Seq<T>>,
                },
                has_more,
            ),
    {
        self.pager.receive_page(items, has_more)
    }
}

/// The paging state of a fresh iterator.
pub open spec fn start_view<T>(params: WorkflowListParams, initial_limit: Option<i64>) -> PagerView<T> {
    PagerView {
        offset: params.offset as int,
        remaining_limit: match params.limit {
            Some(l) => l as int,
            None => NO_LIMIT as int,
        },
        initial_limit: match initial_limit {
            Some(l) => l as int,
            None => DEFAULT_PAGE_SIZE as int,
        },
        buffered: Seq::empty(),
        finished: false,
    }
}

/// A lazy iterator over workflows with the default page size.
pub fn iter_workflows<T>(params: WorkflowListParams) -> (r: WorkflowsIterator<T>)
    ensures
        r.params() == params,
        r.state() == start_view::<T>(params, None),
{
    WorkflowsIterator::new(params, None)
}

/// Reads every workflow item the filters select, asking `fetch` for each page;
/// stops at the first error. The outcome is what `spec_collect` gives for
/// some run of answers that `fetch` may give to the requests made.
pub fn paginate_workflows<T, E, F: Fn(PageRequest) -> Result<Page<T>, E>>(
    params: WorkflowListParams,
    fetch: F,
) -> (r: Result<Vec<T>, E>)
    requires
        forall|req: PageRequest| call_requires(fetch, (req,)),
        fetch_in_range(fetch),
    ensures
        exists|answers: Seq<Result<Page<T>, E>>|
            answers_fit(fetch, start_view::<T>(params, None), answers) && outcome_view(r)
                == spec_collect(start_view::<T>(params, None), answers),
{
    let it: WorkflowsIterator<T> = iter_workflows(params);
    collect_pages(it.pager, fetch)
}

} // verus!
