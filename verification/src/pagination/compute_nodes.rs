//! Reading lists of compute nodes page by page.

use vstd::prelude::*;
use super::pager::{Page, PageRequest, Pager, PagerView, spec_request, spec_receive, taken_count, NO_LIMIT, DEFAULT_PAGE_SIZE};
use super::collect::{answers_fit, collect_pages, fetch_in_range, outcome_view, spec_collect};

verus! {

/// Filters and paging for listing compute nodes. Every filter is unset by
/// default and the offset is 0.
#[derive(Debug, Clone)]
pub struct ComputeNodeListParams {
    /// The `offset` query parameter.
    pub offset: i64,
    /// The `limit` query parameter.
    pub limit: Option<i64>,
    /// The `sort_by` query parameter.
    pub sort_by: Option<String>,
    /// The `reverse_sort` query parameter.
    pub reverse_sort: Option<bool>,
    /// The `hostname` query parameter.
    pub hostname: Option<String>,
    /// The `is_active` query parameter.
    pub is_active: Option<bool>,
    /// The `scheduled_compute_node_id` query parameter.
    pub scheduled_compute_node_id: Option<i64>,
}

impl Default for ComputeNodeListParams {
    fn default() -> (r: Self)
        ensures
            r.offset == 0,
            r.limit == None::<i64>,
            r.sort_by == None::<String>,
            r.reverse_sort == None::<bool>,
            r.hostname == None::<String>,
            r.is_active == None::<bool>,
            r.scheduled_compute_node_id == None::<i64>,
    {
        ComputeNodeListParams {
            offset: 0,
            limit: None,
            sort_by: None,
            reverse_sort: None,
            hostname: None,
            is_active: None,
            scheduled_compute_node_id: None,
        }
    }
}

impl ComputeNodeListParams {
    /// No filter, offset 0.
    pub fn new() -> (r: Self)
        ensures
            r.offset == 0,
            r.limit == None::<i64>,
            r.sort_by == None::<String>,
            r.reverse_sort == None::<bool>,
            r.hostname == None::<String>,
            r.is_active == None::<bool>,
            r.scheduled_compute_node_id == None::<i64>,
    {
        Self::default()
    }

    /// Sets `offset`.
    pub fn with_offset(self, offset: i64) -> (r: Self)
        ensures
            r == (ComputeNodeListParams { offset: offset, ..self }),
    {
        ComputeNodeListParams { offset: offset, ..self }
    }

    /// Sets `limit`.
    pub fn with_limit(self, limit: i64) -> (r: Self)
        ensures
            r == (ComputeNodeListParams { limit: Some(limit), ..self }),
    {
        ComputeNodeListParams { limit: Some(limit), ..self }
    }

    /// Sets `sort_by`.
    pub fn with_sort_by(self, sort_by: String) -> (r: Self)
        ensures
            r == (ComputeNodeListParams { sort_by: Some(sort_by), ..self }),
    {
        ComputeNodeListParams { sort_by: Some(sort_by), ..self }
    }

    /// Sets `reverse_sort`.
    pub fn with_reverse_sort(self, reverse: bool) -> (r: Self)
        ensures
            r == (ComputeNodeListParams { reverse_sort: Some(reverse), ..self }),
    {
        ComputeNodeListParams { reverse_sort: Some(reverse), ..self }
    }

    /// Sets `hostname`.
    pub fn with_hostname(self, hostname: String) -> (r: Self)
        ensures
            r == (ComputeNodeListParams { hostname: Some(hostname), ..self }),
    {
        ComputeNodeListParams { hostname: Some(hostname), ..self }
    }

    /// Sets `is_active`.
    pub fn with_is_active(self, is_active: bool) -> (r: Self)
        ensures
            r == (ComputeNodeListParams { is_active: Some(is_active), ..self }),
    {
        ComputeNodeListParams { is_active: Some(is_active), ..self }
    }

    /// Sets `scheduled_compute_node_id`.
    pub fn with_scheduled_compute_node_id(self, id: i64) -> (r: Self)
        ensures
            r == (ComputeNodeListParams { scheduled_compute_node_id: Some(id), ..self }),
    {
        ComputeNodeListParams { scheduled_compute_node_id: Some(id), ..self }
    }

}

/// Lazy reading of compute nodes: hands out the items of one page at a time
/// and says which page to ask the server for next.
pub struct ComputeNodesIterator<T> {
    workflow_id: i64,
    params: ComputeNodeListParams,
    pager: Pager<T>,
}

impl<T> ComputeNodesIterator<T> {
    /// Starts reading at `params.offset`, handing out at most `params.limit`
    /// items in all, in pages of `initial_limit` items (1000 when `None`).
    pub fn new(workflow_id: i64, params: ComputeNodeListParams, initial_limit: Option<i64>) -> (r: Self)
        ensures
            r.workflow_id() == workflow_id,
            r.params() == params,
            r.state() == start_view::<T>(params, initial_limit),
    {
        let pager = Pager::new(params.offset, params.limit, initial_limit);
        ComputeNodesIterator { workflow_id, params, pager }
    }

    /// The workflow whose items are listed.
    pub closed spec fn workflow_id(&self) -> i64 {
        self.workflow_id
    }

    /// The workflow whose items are listed.
    pub fn get_workflow_id(&self) -> (w: i64)
        ensures
            w == self.workflow_id(),
    {
        self.workflow_id
    }

    /// The filters the iterator was made with.
    pub closed spec fn params(&self) -> ComputeNodeListParams {
        self.params
    }

    /// The filters the iterator was made with; the live offset is the pager's.
    pub fn get_params(&self) -> (p: &ComputeNodeListParams)
        ensures
            *p == self.params(),
    {
        &self.params
    }

    /// The paging state.
    pub closed spec fn state(&self) -> PagerView<T> {
        self.pager.view()
    }


    /// The page to ask the server for next, if any.
    pub fn next_request(&self) -> (r: Option<PageRequest>)
        ensures
            r == spec_request(self.state()),
    {
        self.pager.next_request()
    }

    /// Hands out the next item of the page in hand.
    pub fn next_buffered(&mut self) -> (r: Option<T>)
        ensures
            final(self).params() == old(self).params(),
            final(self).workflow_id() == old(self).workflow_id(),
            match r {
                Some(x) => {
                    &&& old(self).state().buffered.len() > 0
                    &&& x == old(self).state().buffered[0]
                    &&& final(self).state() == (PagerView {
                        buffered: old(self).state().buffered.drop_first(),
                        ..old(self).state()
                    })
                },
                None => old(self).state().buffered.len() == 0 && final(self).state() == old(self).state(),
            },
    {
        self.pager.next_buffered()
    }

    /// Takes the server's answer to the last request; returns whether an item
    /// list came.
    pub fn receive_page(&mut self, items: Option<Vec<T>>, has_more: bool) -> (got: bool)
        requires
            spec_request(old(self).state()) is Some,
            old(self).state().buffered.len() == 0,
            items matches Some(v) ==> v@.len() <= i64::MAX,
            items matches Some(v) ==> old(self).state().offset + taken_count(
                old(self).state().remaining_limit,
                v@.len() as int,
            ) <= i64::MAX,
        ensures
            final(self).params() == old(self).params(),
            final(self).workflow_id() == old(self).workflow_id(),
            got == items is Some,
            final(self).state() == spec_receive(
                old(self).state(),
                match items {
                    Some(v) => Some(v@),
                    None => None::<Seq<T>>,
                },
                has_more,
            ),
    {
        self.pager.receive_page(items, has_more)
    }
}

/// The paging state of a fresh iterator.
pub open spec fn start_view<T>(params: ComputeNodeListParams, initial_limit: Option<i64>) -> PagerView<T> {
    PagerView {
        offset: params.offset as int,
        remaining_limit: match params.limit {
            Some(l) => l as int,
            None => NO_LIMIT as int,
        },
        initial_limit: match initial_limit {
            Some(l) => l as int,
            None => DEFAULT_PAGE_SIZE as int,
        },
        buffered: Seq::empty(),
        finished: false,
    }
}

/// A lazy iterator over compute nodes with the default page size.
pub fn iter_compute_nodes<T>(workflow_id: i64, params: ComputeNodeListParams) -> (r: ComputeNodesIterator<T>)
    ensures
        r.workflow_id() == workflow_id,
        r.params() == params,
        r.state() == start_view::<T>(params, None),
{
    ComputeNodesIterator::new(workflow_id, params, None)
}

/// Reads every compute node item the filters select, asking `fetch` for each page;
/// stops at the first error. The outcome is what `spec_collect` gives for
/// some run of answers that `fetch` may give to the requests made.
pub fn paginate_compute_nodes<T, E, F: Fn(PageRequest) -> Result<Page<T>, E>>(
    workflow_id: i64, params: ComputeNodeListParams,
    fetch: F,
) -> (r: Result<Vec<T>, E>)
    requires
        forall|req: PageRequest| call_requires(fetch, (req,)),
        fetch_in_range(fetch),
    ensures
        exists|answers: Seq<Result<Page<T>, E>>|
            answers_fit(fetch, start_view::<T>(params, None), answers) && outcome_view(r)
                == spec_collect(start_view::<T>(params, None), answers),
{
    let it: ComputeNodesIterator<T> = iter_compute_nodes(workflow_id, params);
    collect_pages(it.pager, fetch)
}

} // verus!
