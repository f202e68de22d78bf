//! Reading lists of results page by page.

use vstd::prelude::*;
use crate::models::JobStatus;
use super::pager::{Page, PageRequest, Pager, PagerView, spec_request, spec_receive, taken_count, NO_LIMIT, DEFAULT_PAGE_SIZE};
use super::collect::{answers_fit, collect_pages, fetch_in_range, outcome_view, spec_collect};

verus! {

/// Filters and paging for listing results. Every filter is unset by
/// default and the offset is 0.
#[derive(Debug, Clone)]
pub struct ResultListParams {
    /// The `job_id` query parameter.
    pub job_id: Option<i64>,
    /// The `run_id` query parameter.
    pub run_id: Option<i64>,
    /// The `offset` query parameter.
    pub offset: i64,
    /// The `limit` query parameter.
    pub limit: Option<i64>,
    /// The `sort_by` query parameter.
    pub sort_by: Option<String>,
    /// The `reverse_sort` query parameter.
    pub reverse_sort: Option<bool>,
    /// The `return_code` query parameter.
    pub return_code: Option<i64>,
    /// The `status` query parameter.
    pub status: Option<JobStatus>,
    /// The `all_runs` query parameter.
    pub all_runs: Option<bool>,
    /// The `compute_node_id` query parameter.
    pub compute_node_id: Option<i64>,
}

impl Default for ResultListParams {
    fn default() -> (r: Self)
        ensures
            r.job_id == None::<i64>,
            r.run_id == None::<i64>,
            r.offset == 0,
            r.limit == None::<i64>,
            r.sort_by == None::<String>,
            r.reverse_sort == None::<bool>,
            r.return_code == None::<i64>,
            r.status == None::<JobStatus>,
            r.all_runs == None::<bool>,
            r.compute_node_id == None::<i64>,
    {
        ResultListParams {
            job_id: None,
            run_id: None,
            offset: 0,
            limit: None,
            sort_by: None,
            reverse_sort: None,
            return_code: None,
            status: None,
            all_runs: None,
            compute_node_id: None,
        }
    }
}

impl ResultListParams {
    /// No filter, offset 0.
    pub fn new() -> (r: Self)
        ensures
            r.job_id == None::<i64>,
            r.run_id == None::<i64>,
            r.offset == 0,
            r.limit == None::<i64>,
            r.sort_by == None::<String>,
            r.reverse_sort == None::<bool>,
            r.return_code == None::<i64>,
            r.status == None::<JobStatus>,
            r.all_runs == None::<bool>,
            r.compute_node_id == None::<i64>,
    {
        Self::default()
    }

    /// Sets `job_id`.
    pub fn with_job_id(self, job_id: i64) -> (r: Self)
        ensures
            r == (ResultListParams { job_id: Some(job_id), ..self }),
    {
        ResultListParams { job_id: Some(job_id), ..self }
    }

    /// Sets `run_id`.
    pub fn with_run_id(self, run_id: i64) -> (r: Self)
        ensures
            r == (ResultListParams { run_id: Some(run_id), ..self }),
    {
        ResultListParams { run_id: Some(run_id), ..self }
    }

    /// Sets `offset`.
    pub fn with_offset(self, offset: i64) -> (r: Self)
        ensures
            r == (ResultListParams { offset: offset, ..self }),
    {
        ResultListParams { offset: offset, ..self }
    }

    /// Sets `limit`.
    pub fn with_limit(self, limit: i64) -> (r: Self)
        ensures
            r == (ResultListParams { limit: Some(limit), ..self }),
    {
        ResultListParams { limit: Some(limit), ..self }
    }

    /// Sets `sort_by`.
    pub fn with_sort_by(self, sort_by: String) -> (r: Self)
        ensures
            r == (ResultListParams { sort_by: Some(sort_by), ..self }),
    {
        ResultListParams { sort_by: Some(sort_by), ..self }
    }

    /// Sets `reverse_sort`.
    pub fn with_reverse_sort(self, reverse: bool) -> (r: Self)
        ensures
            r == (ResultListParams { reverse_sort: Some(reverse), ..self }),
    {
        ResultListParams { reverse_sort: Some(reverse), ..self }
    }

    /// Sets `return_code`.
    pub fn with_return_code(self, return_code: i64) -> (r: Self)
        ensures
            r == (ResultListParams { return_code: Some(return_code), ..self }),
    {
        ResultListParams { return_code: Some(return_code), ..self }
    }

    /// Sets `status`.
    pub fn with_status(self, status: JobStatus) -> (r: Self)
        ensures
            r == (ResultListParams { status: Some(status), ..self }),
    {
        ResultListParams { status: Some(status), ..self }
    }

    /// Sets `all_runs`.
    pub fn with_all_runs(self, all_runs: bool) -> (r: Self)
        ensures
            r == (ResultListParams { all_runs: Some(all_runs), ..self }),
    {
        ResultListParams { all_runs: Some(all_runs), ..self }
    }

    /// Sets `compute_node_id`.
    pub fn with_compute_node_id(self, compute_node_id: i64) -> (r: Self)
        ensures
            r == (ResultListParams { compute_node_id: Some(compute_node_id), ..self }),
    {
        ResultListParams { compute_node_id: Some(compute_node_id), ..self }
    }

}

/// Lazy reading of results: hands out the items of one page at a time
/// and says which page to ask the server for next.
pub struct ResultsIterator<T> {
    workflow_id: i64,
    params: ResultListParams,
    pager: Pager<T>,
}

impl<T> ResultsIterator<T> {
    /// Starts reading at `params.offset`, handing out at most `params.limit`
    /// items in all, in pages of `initial_limit` items (1000 when `None`).
    pub fn new(workflow_id: i64, params: ResultListParams, initial_limit: Option<i64>) -> (r: Self)
        ensures
            r.workflow_id() == workflow_id,
            r.params() == params,
            r.state() == start_view::<T>(params, initial_limit),
    {
        let pager = Pager::new(params.offset, params.limit, initial_limit);
        ResultsIterator { workflow_id, params, pager }
    }

    /// The workflow whose items are listed.
    pub closed spec fn workflow_id(&self) -> i64 {
        self.workflow_id
    }

    /// The workflow whose items are listed.
    pub fn get_workflow_id(&self) -> (w: i64)
        ensures
            w == self.workflow_id(),
    {
        self.workflow_id
    }

    /// The filters the iterator was made with.
    pub closed spec fn params(&self) -> ResultListParams {
        self.params
    }

    /// The filters the iterator was made with; the live offset is the pager's.
    pub fn get_params(&self) -> (p: &ResultListParams)
        ensures
            *p == self.params(),
    {
        &self.params
    }

    /// The paging state.
    pub closed spec fn state(&self) -> PagerView<T> {
        self.pager.view()
    }


    /// The page to ask the server for next, if any.
    pub fn next_request(&self) -> (r: Option<PageRequest>)
        ensures
            r == spec_request(self.state()),
    {
        self.pager.next_request()
    }

    /// Hands out the next item of the page in hand.
    pub fn next_buffered(&mut self) -> (r: Option<T>)
        ensures
            final(self).params() == old(self).params(),
            final(self).workflow_id() == old(self).workflow_id(),
            match r {
                Some(x) => {
                    &&& old(self).state().buffered.len() > 0
                    &&& x == old(self).state().buffered[0]
                    &&& final(self).state() == (PagerView {
                        buffered: old(self).state().buffered.drop_first(),
                        ..old(self).state()
                    })
                },
                None => old(self).state().buffered.len() == 0 && final(self).state() == old(self).state(),
            },
    {
        self.pager.next_buffered()
    }

    /// Takes the server's answer to the last request; returns whether an item
    /// list came.
    pub fn receive_page(&mut self, items: Option<Vec<T>>, has_more: bool) -> (got: bool)
        requires
            spec_request(old(self).state()) is Some,
            old(self).state().buffered.len() == 0,
            items matches Some(v) ==> v@.len() <= i64::MAX,
            items matches Some(v) ==> old(self).state().offset + taken_count(
                old(self).state().remaining_limit,
                v@.len() as int,
            ) <= i64::MAX,
        ensures
            final(self).params() == old(self).params(),
            final(self).workflow_id() == old(self).workflow_id(),
            got == items is Some,
            final(self).state() == spec_receive(
                old(self).state(),
                match items {
                    Some(v) => Some(v@),
                    None => None::<Seq<T>>,
                },
                has_more,
            ),
    {
        self.pager.receive_page(items, has_more)
    }
}

/// The paging state of a fresh iterator.
pub open spec fn start_view<T>(params: ResultListParams, initial_limit: Option<i64>) -> PagerView<T> {
    PagerView {
        offset: params.offset as int,
        remaining_limit: match params.limit {
            Some(l) => l as int,
            None => NO_LIMIT as int,
        },
        initial_limit: match initial_limit {
            Some(l) => l as int,
            None => DEFAULT_PAGE_SIZE as int,
        },
        buffered: Seq::empty(),
        finished: false,
    }
}

/// A lazy iterator over results with the default page size.
pub fn iter_results<T>(workflow_id: i64, params: ResultListParams) -> (r: ResultsIterator<T>)
    ensures
        r.workflow_id() == workflow_id,
        r.params() == params,
        r.state() == start_view::<T>(params, None),
{
    ResultsIterator::new(workflow_id, params, None)
}

/// Reads every result item the filters select, asking `fetch` for each page;
/// stops at the first error. The outcome is what `spec_collect` gives for
/// some run of answers that `fetch` may give to the requests made.
pub fn paginate_results<T, E, F: Fn(PageRequest) -> Result<Page<T>, E>>(
    workflow_id: i64, params: ResultListParams,
    fetch: F,
) -> (r: Result<Vec<T>, E>)
    requires
        forall|req: PageRequest| call_requires(fetch, (req,)),
        fetch_in_range(fetch),
    ensures
        exists|answers: Seq<Result<Page<T>, E>>|
            answers_fit(fetch, start_view::<T>(params, None), answers) && outcome_view(r)
                == spec_collect(start_view::<T>(params, None), answers),
{
    let it: ResultsIterator<T> = iter_results(workflow_id, params);
    collect_pages(it.pager, fetch)
}

} // verus!
