use book_batch_rust::batch::book::{publisher_selection, PublisherSelection};
use book_batch_rust::batch::error::JobReadFailed;
use book_batch_rust::batch::JobParameter;
use book_batch_rust::date::Date;
use book_batch_rust::dict::Dict;
use book_batch_rust::procedure::{aladin_reads_on, ALADIN_MAX_RESULTS};
use book_batch_rust::Argument;

fn argument(from: Option<&str>, to: Option<&str>) -> Argument {
    Argument {
        job: "NLGO".to_string(),
        from: from.map(|s| s.to_string()),
        to: to.map(|s| s.to_string()),
        publisher_id: None,
    }
}

#[test]
fn argument_dates_are_read() {
    let a = argument(Some("2025-05-01"), Some("2025-05-31"));
    assert_eq!(a.get_from(), Some(Date::new(2025, 5, 1)));
    assert_eq!(a.get_to(), Some(Date::new(2025, 5, 31)));
    assert_eq!(a.dates(), Ok((Some(Date::new(2025, 5, 1)), Some(Date::new(2025, 5, 31)))));
}

#[test]
fn argument_without_dates_has_none() {
    let a = argument(None, None);
    assert_eq!(a.get_from(), None);
    assert_eq!(a.get_to(), None);
    assert_eq!(a.dates(), Ok((None, None)));
}

#[test]
fn argument_with_a_bad_date_reports_it() {
    let a = argument(Some("2025-13-01"), Some("2025-05-31"));
    assert!(a.dates().is_err());
    let a = argument(Some("2025-05-01"), Some("not a date"));
    assert!(a.dates().is_err());
    let b = argument(Some("2025-05-01"), None);
    assert_eq!(b.dates(), Ok((Some(Date::new(2025, 5, 1)), None)));
}

#[test]
fn selection_without_publisher_is_all() {
    let p: JobParameter = Dict::new();
    assert_eq!(publisher_selection(&p), Ok(PublisherSelection::All));
}

#[test]
fn selection_with_ids() {
    let mut p: JobParameter = Dict::new();
    p.insert("publisher".to_string(), "1, 2, 3".to_string());
    assert_eq!(publisher_selection(&p), Ok(PublisherSelection::ById(vec![1, 2, 3])));
}

#[test]
fn selection_with_a_bad_id_fails() {
    let mut p: JobParameter = Dict::new();
    p.insert("publisher".to_string(), "1,x".to_string());
    match publisher_selection(&p) {
        Err(JobReadFailed::InvalidArguments(m)) => assert_eq!(m, "invalid digit found in string"),
        other => panic!("unexpected {:?}", other),
    }
}

#[test]
fn first_aladin_reader_paging() {
    assert_eq!(aladin_reads_on(0, 50), Some(50));
    assert_eq!(aladin_reads_on(100, 50), Some(150));
    assert_eq!(aladin_reads_on(150, 50), None);
    assert_eq!(aladin_reads_on(10, 0), None);
    assert_eq!(ALADIN_MAX_RESULTS, 200);
}
