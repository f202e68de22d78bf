//! Reading lists of user data page by page.

use vstd::prelude::*;
use super::pager::{Page, PageRequest, Pager, PagerView, spec_request, spec_receive, taken_count, NO_LIMIT, DEFAULT_PAGE_SIZE};
use super::collect::{answers_fit, collect_pages, fetch_in_range, outcome_view, spec_collect};

verus! {

/// Filters and paging for listing user data. Every filter is unset by
/// default and the offset is 0.
#[derive(Debug, Clone)]
pub struct UserDataListParams {
    /// The `consumer_job_id` query parameter.
    pub consumer_job_id: Option<i64>,
    /// The `producer_job_id` query parameter.
    pub producer_job_id: Option<i64>,
    /// The `offset` query parameter.
    pub offset: i64,
    /// The `limit` query parameter.
    pub limit: Option<i64>,
    /// The `sort_by` query parameter.
    pub sort_by: Option<String>,
    /// The `reverse_sort` query parameter.
    pub reverse_sort: Option<bool>,
    /// The `name` query parameter.
    pub name: Option<String>,
    /// The `is_ephemeral` query parameter.
    pub is_ephemeral: Option<bool>,
}

impl Default for UserDataListParams {
    fn default() -> (r: Self)
        ensures
            r.consumer_job_id == None::<i64>,
            r.producer_job_id == None::<i64>,
            r.offset == 0,
            r.limit == None::<i64>,
            r.sort_by == None::<String>,
            r.reverse_sort == None::<bool>,
            r.name == None::<String>,
            r.is_ephemeral == None::<bool>,
    {
        UserDataListParams {
            consumer_job_id: None,
            producer_job_id: None,
            offset: 0,
            limit: None,
            sort_by: None,
            reverse_sort: None,
            name: None,
            is_ephemeral: None,
        }
    }
}

impl UserDataListParams {
    /// No filter, offset 0.
    pub fn new() -> (r: Self)
        ensures
            r.consumer_job_id == None::<i64>,
            r.producer_job_id == None::<i64>,
            r.offset == 0,
            r.limit == None::<i64>,
            r.sort_by == None::<String>,
            r.reverse_sort == None::<bool>,
            r.name == None::<String>,
            r.is_ephemeral == None::<bool>,
    {
        Self::default()
    }

    /// Sets `consumer_job_id`.
    pub fn with_consumer_job_id(self, job_id: i64) -> (r: Self)
        ensures
            r == (UserDataListParams { consumer_job_id: Some(job_id), ..self }),
    {
        UserDataListParams { consumer_job_id: Some(job_id), ..self }
    }

    /// Sets `producer_job_id`.
    pub fn with_producer_job_id(self, job_id: i64) -> (r: Self)
        ensures
            r == (UserDataListParams { producer_job_id: Some(job_id), ..self }),
    {
        UserDataListParams { producer_job_id: Some(job_id), ..self }
    }

    /// Sets `offset`.
    pub fn with_offset(self, offset: i64) -> (r: Self)
        ensures
            r == (UserDataListParams { offset: offset, ..self }),
    {
        UserDataListParams { offset: offset, ..self }
    }

    /// Sets `limit`.
    pub fn with_limit(self, limit: i64) -> (r: Self)
        ensures
            r == (UserDataListParams { limit: Some(limit), ..self }),
    {
        UserDataListParams { limit: Some(limit), ..self }
    }

    /// Sets `sort_by`.
    pub fn with_sort_by(self, sort_by: String) -> (r: Self)
        ensures
            r == (UserDataListParams { sort_by: Some(sort_by), ..self }),
    {
        UserDataListParams { sort_by: Some(sort_by), ..self }
    }

    /// Sets `reverse_sort`.
    pub fn with_reverse_sort(self, reverse: bool) -> (r: Self)
        ensures
            r == (UserDataListParams { reverse_sort: Some(reverse), ..self }),
    {
        UserDataListParams { reverse_sort: Some(reverse), ..self }
    }

    /// Sets `name`.
    pub fn with_name(self, name: String) -> (r: Self)
        ensures
            r == (UserDataListParams { name: Some(name), ..self }),
    {
        UserDataListParams { name: Some(name), ..self }
    }

    /// Sets `is_ephemeral`.
    pub fn with_is_ephemeral(self, is_ephemeral: bool) -> (r: Self)
        ensures
            r == (UserDataListParams { is_ephemeral: Some(is_ephemeral), ..self }),
    {
        UserDataListParams { is_ephemeral: Some(is_ephemeral), ..self }
    }

}

/// Lazy reading of user data: hands out the items of one page at a time
/// and says which page to ask the server for next.
pub struct UserDataIterator<T> {
    workflow_id: i64,
    params: UserDataListParams,
    pager: Pager<T>,
}

impl<T> UserDataIterator<T> {
    /// Starts reading at `params.offset`, handing out at most `params.limit`
    /// items in all, in pages of `initial_limit` items (1000 when `None`).
    pub fn new(workflow_id: i64, params: UserDataListParams, initial_limit: Option<i64>) -> (r: Self)
        ensures
            r.workflow_id() == workflow_id,
            r.params() == params,
            r.state() == start_view::<T>(params, initial_limit),
    {
        let pager = Pager::new(params.offset, params.limit, initial_limit);
        UserDataIterator { workflow_id, params, pager }
    }

    /// The workflow whose items are listed.
    pub closed spec fn workflow_id(&self) -> i64 {
        self.workflow_id
    }

    /// The workflow whose items are listed.
    pub fn get_workflow_id(&self) -> (w: i64)
        ensures
            w == self.workflow_id(),
    {
        self.workflow_id
    }

    /// The filters the iterator was made with.
    pub closed spec fn params(&self) -> UserDataListParams {
        self.params
    }

    /// The filters the iterator was made with; the live offset is the pager's.
    pub fn get_params(&self) -> (p: &UserDataListParams)
        ensures
            *p == self.params(),
    {
        &self.params
    }

    /// The paging state.
    pub closed spec fn state(&self) -> PagerView<T> {
        self.pager.view()
    }


    /// The page to ask the server for next, if any.
    pub fn next_request(&self) -> (r: Option<PageRequest>)
        ensures
            r == spec_request(self.state()),
    {
        self.pager.next_request()
    }

    /// Hands out the next item of the page in hand.
    pub fn next_buffered(&mut self) -> (r: Option<T>)
        ensures
            final(self).params() == old(self).params(),
            final(self).workflow_id() == old(self).workflow_id(),
            match r {
                Some(x) => {
                    &&& old(self).state().buffered.len() > 0
                    &&& x == old(self).state().buffered[0]
                    &&& final(self).state() == (PagerView {
                        buffered: old(self).state().buffered.drop_first(),
                        ..old(self).state()
                    })
                },
                None => old(self).state().buffered.len() == 0 && final(self).state() == old(self).state(),
            },
    {
        self.pager.next_buffered()
    }

    /// Takes the server's answer to the last request; returns whether an item
    /// list came.
    pub fn receive_page(&mut self, items: Option<Vec<T>>, has_more: bool) -> (got: bool)
        requires
            spec_request(old(self).state()) is Some,
            old(self).state().buffered.len() == 0,
            items matches Some(v) ==> v@.len() <= i64::MAX,
            items matches Some(v) ==> old(self).state().offset + taken_count(
                old(self).state().remaining_limit,
                v@.len() as int,
            ) <= i64::MAX,
        ensures
            final(self).params() == old(self).params(),
            final(self).workflow_id() == old(self).workflow_id(),
            got == items is Some,
            final(self).state() == spec_receive(
                old(self).state(),
                match items {
                    Some(v) => Some(v@),
                    None => None::<Seq<T>>,
                },
                has_more,
            ),
    {
        self.pager.receive_page(items, has_more)
    }
}

/// The paging state of a fresh iterator.
pub open spec fn start_view<T>(params: UserDataListParams, initial_limit: Option<i64>) -> PagerView<T> {
    PagerView {
        offset: params.offset as int,
        remaining_limit: match params.limit {
            Some(l) => l as int,
            None => NO_LIMIT as int,
        },
        initial_limit: match initial_limit {
            Some(l) => l as int,
            None => DEFAULT_PAGE_SIZE as int,
        },
        buffered: Seq::empty(),
        finished: false,
    }
}

/// A lazy iterator over user data with the default page size.
pub fn iter_user_data<T>(workflow_id: i64, params: UserDataListParams) -> (r: UserDataIterator<T>)
    ensures
        r.workflow_id() == workflow_id,
        r.params() == params,
        r.state() == start_view::<T>(params, None),
{
    UserDataIterator::new(workflow_id, params, None)
}

/// Reads every user data item the filters select, asking `fetch` for each page;
/// stops at the first error. The outcome is what `spec_collect` gives for
/// some run of answers that `fetch` may give to the requests made.
pub fn paginate_user_data<T, E, F: Fn(PageRequest) -> Result<Page<T>, E>>(
    workflow_id: i64, params: UserDataListParams,
    fetch: F,
) -> (r: Result<Vec<T>, E>)
    requires
        forall|req: PageRequest| call_requires(fetch, (req,)),
        fetch_in_range(fetch),
    ensures
        exists|answers: Seq<Result<Page<T>, E>>|
            answers_fit(fetch, start_view::<T>(params, None), answers) && outcome_view(r)
                == spec_collect(start_view::<T>(params, None), answers),
{
    let it: UserDataIterator<T> = iter_user_data(workflow_id, params);
    collect_pages(it.pager, fetch)
}

} // verus!
