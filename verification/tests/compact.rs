use torc::plan::compact::compact_job_list;

fn names(v: &[&str]) -> Vec<String> {
    v.iter().map(|s| s.to_string()).collect()
}

fn compact(v: &[&str]) -> Vec<String> {
    compact_job_list(&names(v)).expect("every suffix fits")
}

#[test]
fn three_consecutive_names_become_a_range() {
    assert_eq!(compact(&["job_001", "job_002", "job_003"]), names(&["job_{001-003}"]));
}

#[test]
fn empty_and_unrelated_lists() {
    assert_eq!(compact(&[]), Vec::<String>::new());
    assert_eq!(compact(&["job3", "job1", "x"]), names(&["job1", "job3", "x"]));
    assert_eq!(compact(&["a", "b"]), names(&["a", "b"]));
}

#[test]
fn consecutive_numbers_become_a_range() {
    assert_eq!(compact(&["job1", "job2", "job3", "job4", "job5"]), names(&["job{1-5}"]));
    assert_eq!(compact(&["job5", "job3", "job4", "job2"]), names(&["job{2-5}"]));
    assert_eq!(compact(&["t01", "t02", "t03", "t04"]), names(&["t{01-04}"]));
}

#[test]
fn only_runs_of_three_or_more_are_ranges() {
    assert_eq!(
        compact(&["job1", "job2", "job3", "job4", "job6", "job7"]),
        names(&["job{1-4}", "job6", "job7"])
    );
    assert_eq!(compact(&["a10", "a2", "a3", "a1"]), names(&["a{1-3}", "a10"]));
    assert_eq!(compact(&["b3", "b1", "c", "d"]), names(&["b1", "b3", "c", "d"]));
}

#[test]
fn names_without_numbers_come_last() {
    assert_eq!(
        compact(&["prep", "job1", "job2", "post", "job3", "job4"]),
        names(&["job{1-4}", "prep", "post"])
    );
}

#[test]
fn a_name_of_digits_splits_after_its_first_character() {
    // "123" splits into "1" and "23".
    assert_eq!(compact(&["123", "124", "125", "126"]), names(&["1{23-26}"]));
}

#[test]
fn oversized_suffixes() {
    assert!(compact_job_list(&names(&["x99999999999999999999999", "a", "b", "c"])).is_none());
    assert_eq!(
        compact(&["x99999999999999999999999", "a", "b"]),
        names(&["x99999999999999999999999", "a", "b"])
    );
    assert_eq!(
        compact(&["x18446744073709551614", "x18446744073709551615"]),
        names(&["x18446744073709551614", "x18446744073709551615"])
    );
}
