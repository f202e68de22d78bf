use torc::pagination::jobs::{iter_jobs, paginate_jobs, JobListParams, JobsIterator};
use torc::pagination::pager::{Page, PageRequest};

fn server(total: i64) -> impl Fn(PageRequest) -> Result<Page<i64>, String> {
    move |req: PageRequest| {
        let start = req.offset.min(total);
        let end = (req.offset + req.limit).min(total);
        Ok(Page { items: Some((start..end).collect()), has_more: end < total })
    }
}

#[test]
fn all_pages_are_read() {
    let items = paginate_jobs(7, JobListParams::new(), server(2500)).unwrap();
    assert_eq!(items.len(), 2500);
    assert_eq!(items[0], 0);
    assert_eq!(items[2499], 2499);
}

#[test]
fn limit_and_offset_are_kept() {
    let params = JobListParams::new().with_offset(10).with_limit(1500);
    let items = paginate_jobs(7, params, server(5000)).unwrap();
    assert_eq!(items.len(), 1500);
    assert_eq!(items[0], 10);
    assert_eq!(items[1499], 1509);
}

#[test]
fn errors_stop_reading() {
    let failing = |_req: PageRequest| -> Result<Page<i64>, String> { Err("boom".to_string()) };
    assert_eq!(paginate_jobs(7, JobListParams::new(), failing), Err("boom".to_string()));
}

#[test]
fn iterator_asks_page_by_page() {
    let mut it = iter_jobs::<i64>(3, JobListParams::new().with_limit(3));
    assert_eq!(it.get_workflow_id(), 3);
    let req = it.next_request().unwrap();
    assert_eq!(req, PageRequest { offset: 0, limit: 3 });
    assert!(it.receive_page(Some(vec![1, 2, 3, 4]), true));
    assert_eq!(it.next_buffered(), Some(1));
    assert_eq!(it.next_buffered(), Some(2));
    assert_eq!(it.next_buffered(), Some(3));
    assert_eq!(it.next_buffered(), None);
    assert_eq!(it.next_request(), None);
}

#[test]
fn a_page_size_of_zero_asks_once_and_stops() {
    let mut it = JobsIterator::<i64>::new(3, JobListParams::new(), Some(0));
    let req = it.next_request().unwrap();
    assert_eq!(req, PageRequest { offset: 0, limit: 0 });
    assert!(it.receive_page(Some(vec![]), true));
    assert_eq!(it.next_buffered(), None);
}

#[test]
fn a_limit_of_zero_asks_nothing() {
    let it = iter_jobs::<i64>(3, JobListParams::new().with_limit(0));
    assert_eq!(it.next_request(), None);
}
