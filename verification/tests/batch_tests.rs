use book_batch_rust::batch::book::{
    aladin_next_page, create_default_filter_chain, first_page, from_to_of_parsed, isbns_of, keyword_searches,
    new_books_only, new_drop_duplicate_isbn_filter, new_empty_isbn_filter, nlgo_next_page, plan_upsert,
    retrieve_from_to_in_parameter, retrieve_publisher_id_in_parameter, screen_by_original_data, with_publisher,
    update_outcome, write_outcome, Paging,
};
use book_batch_rust::batch::error::{JobProcessFailed, JobReadFailed, JobRuntimeError, JobWriteFailed};
use book_batch_rust::batch::{
    chunk_with_owned, job_builder, Filter, FilterChain, JobParameter, Processor, ProcessorChain, Reader, Writer,
};
use book_batch_rust::date::Date;
use book_batch_rust::dict::Dict;
use book_batch_rust::item::raw::{Raw, RawValue};
use book_batch_rust::item::rule::{FilterRule, Operator};
use book_batch_rust::item::{Book, Publisher, Site};
use std::cell::RefCell;

fn params(entries: &[(&str, &str)]) -> JobParameter {
    let mut p: JobParameter = Dict::new();
    for (k, v) in entries {
        p.insert(k.to_string(), v.to_string());
    }
    p
}

fn book(isbn: &str, title: &str) -> Book {
    Book::builder().isbn(isbn.to_string()).title(title.to_string()).build().unwrap()
}

fn isbns(books: &[Book]) -> Vec<String> {
    books.iter().map(|b| b.isbn().to_string()).collect()
}

#[test]
fn chunk_with_owned_splits_in_order() {
    let chunks = chunk_with_owned(vec![1, 2, 3, 4, 5], 2);
    assert_eq!(chunks, vec![vec![1, 2], vec![3, 4], vec![5]]);
}

#[test]
fn chunk_with_owned_exact_and_empty() {
    assert_eq!(chunk_with_owned(vec![1, 2, 3, 4], 2), vec![vec![1, 2], vec![3, 4]]);
    assert_eq!(chunk_with_owned(Vec::<i32>::new(), 3), Vec::<Vec<i32>>::new());
    assert_eq!(chunk_with_owned(vec![7], 500), vec![vec![7]]);
}

#[test]
fn chunks_rejoin_to_input() {
    let input: Vec<u32> = (0..23).collect();
    let chunks = chunk_with_owned(input.clone(), 5);
    let rejoined: Vec<u32> = chunks.iter().flatten().cloned().collect();
    assert_eq!(rejoined, input);
    assert!(chunks.iter().take(chunks.len() - 1).all(|c| c.len() == 5));
}

#[test]
fn retrieve_from_to_reads_both_dates() {
    let p = params(&[("from", "2025-05-01"), ("to", "2025-05-31")]);
    let (from, to) = retrieve_from_to_in_parameter(&p).unwrap();
    assert_eq!(from, Date { year: 2025, month: 5, day: 1 });
    assert_eq!(to, Date { year: 2025, month: 5, day: 31 });
}

#[test]
fn retrieve_from_to_requires_both() {
    let p = params(&[("from", "2025-05-01")]);
    match retrieve_from_to_in_parameter(&p) {
        Err(JobReadFailed::InvalidArguments(m)) => assert_eq!(m, "from/to is required"),
        other => panic!("unexpected {:?}", other),
    }
}

#[test]
fn retrieve_from_to_reports_parse_errors() {
    let p = params(&[("from", "2025-13-01"), ("to", "2025-05-31")]);
    match retrieve_from_to_in_parameter(&p) {
        Err(JobReadFailed::InvalidArguments(m)) => assert_eq!(m, "Invalid from date: input is out of range"),
        other => panic!("unexpected {:?}", other),
    }
    let p = params(&[("from", "2025-05-01"), ("to", "2025-05")]);
    match retrieve_from_to_in_parameter(&p) {
        Err(JobReadFailed::InvalidArguments(m)) => assert_eq!(m, "Invalid from date: premature end of input"),
        other => panic!("unexpected {:?}", other),
    }
}

#[test]
fn from_to_of_parsed_picks_first_failure() {
    let d = Date { year: 2024, month: 1, day: 2 };
    assert_eq!(from_to_of_parsed(Ok(d), Ok(d)).unwrap(), (d, d));
    match from_to_of_parsed(Err("a".to_string()), Err("b".to_string())) {
        Err(JobReadFailed::InvalidArguments(m)) => assert_eq!(m, "Invalid from date: a"),
        other => panic!("unexpected {:?}", other),
    }
    match from_to_of_parsed(Ok(d), Err("b".to_string())) {
        Err(JobReadFailed::InvalidArguments(m)) => assert_eq!(m, "Invalid from date: b"),
        other => panic!("unexpected {:?}", other),
    }
}

#[test]
fn retrieve_publisher_id_examples() {
    let mut p: JobParameter = Dict::new();
    assert_eq!(retrieve_publisher_id_in_parameter(&p).unwrap(), Vec::<u64>::new());
    p.insert("publisher".to_string(), "1, 2, 3".to_string());
    assert_eq!(retrieve_publisher_id_in_parameter(&p).unwrap(), vec![1, 2, 3]);
}

#[test]
fn retrieve_publisher_id_errors() {
    let p = params(&[("publisher", "1,,3")]);
    match retrieve_publisher_id_in_parameter(&p) {
        Err(JobReadFailed::InvalidArguments(m)) => assert_eq!(m, "cannot parse integer from empty string"),
        other => panic!("unexpected {:?}", other),
    }
    let p = params(&[("publisher", "1,x")]);
    match retrieve_publisher_id_in_parameter(&p) {
        Err(JobReadFailed::InvalidArguments(m)) => assert_eq!(m, "invalid digit found in string"),
        other => panic!("unexpected {:?}", other),
    }
    let p = params(&[("publisher", "18446744073709551616")]);
    match retrieve_publisher_id_in_parameter(&p) {
        Err(JobReadFailed::InvalidArguments(m)) => assert_eq!(m, "number too large to fit in target type"),
        other => panic!("unexpected {:?}", other),
    }
}

#[test]
fn read_failure_messages() {
    assert_eq!(JobReadFailed::EmptyData("x".to_string()).to_string(), "Empty data, x");
    assert_eq!(JobReadFailed::InvalidArguments("y".to_string()).to_string(), "Invalid arguments, y");
    assert_eq!(JobReadFailed::UnknownError("z".to_string()).to_string(), "Unknown, z");
}

#[test]
fn process_and_write_failures_keep_their_parts() {
    let e = JobProcessFailed::new(5, "bad".to_string());
    assert_eq!(e.item(), &Some(5));
    assert_eq!(e.message(), "bad");
    assert_eq!(e.to_string(), "bad");
    let e: JobProcessFailed<i32> = JobProcessFailed::new_empty("none".to_string());
    assert_eq!(e.item(), &None);
    let w = JobWriteFailed::new(vec![1, 2], "w");
    assert_eq!(w.item(), &vec![1, 2]);
    assert_eq!(w.message(), "w");
    assert_eq!(w.to_string(), "w");
}

#[test]
fn empty_isbn_filter_drops_books_without_isbn() {
    let f = new_empty_isbn_filter();
    let out = f.do_filter(vec![book("1", "a"), book("", "b"), book("2", "c")]);
    assert_eq!(isbns(&out), vec!["1", "2"]);
}

#[test]
fn duplicate_isbn_filter_keeps_first() {
    let f = new_drop_duplicate_isbn_filter();
    let out = f.do_filter(vec![book("1", "a"), book("2", "b"), book("1", "c"), book("2", "d"), book("3", "e")]);
    assert_eq!(isbns(&out), vec!["1", "2", "3"]);
    assert_eq!(out[0].title(), "a");
    assert_eq!(out[1].title(), "b");
}

#[test]
fn default_chain_filters_empty_then_duplicates() {
    let chain = create_default_filter_chain();
    let out = chain.do_filter(vec![book("", "a"), book("9", "b"), book("9", "c"), book("", "d")]);
    assert_eq!(isbns(&out), vec!["9"]);
    assert_eq!(out[0].title(), "b");
}

#[derive(Debug, PartialEq, Eq)]
struct Data {
    id: i32,
}

struct EvenNumberFilter;
impl Filter<Data> for EvenNumberFilter {
    fn do_filter(&self, items: Vec<Data>) -> Vec<Data> {
        items.into_iter().filter(|d| d.id % 2 == 0).collect()
    }
}

struct GreaterThan2;
impl Filter<Data> for GreaterThan2 {
    fn do_filter(&self, items: Vec<Data>) -> Vec<Data> {
        items.into_iter().filter(|d| d.id > 2).collect()
    }
}

#[test]
fn filter_chain_runs_filters_in_turn() {
    let data = vec![Data { id: 1 }, Data { id: 2 }, Data { id: 3 }, Data { id: 4 }];
    let chain: FilterChain<Data> = FilterChain::new()
        .add_filter(Box::new(EvenNumberFilter))
        .add_filter(Box::new(GreaterThan2));
    assert_eq!(chain.do_filter(data), vec![Data { id: 4 }]);
}

#[test]
fn empty_filter_chain_passes_items() {
    let chain: FilterChain<Data> = FilterChain::new();
    assert_eq!(chain.do_filter(vec![Data { id: 1 }, Data { id: 3 }]), vec![Data { id: 1 }, Data { id: 3 }]);
}

#[derive(Debug)]
struct Input {
    value: i32,
}
#[derive(Debug)]
struct Output {
    value: i32,
}
#[derive(Debug)]
struct Final {
    value: i32,
}

struct InputToOutput;
impl Processor<Input, Output> for InputToOutput {
    fn do_process(&self, item: Input) -> Result<Output, JobProcessFailed<Input>> {
        Ok(Output { value: item.value * 2 })
    }
}

struct OutputToFinal;
impl Processor<Output, Final> for OutputToFinal {
    fn do_process(&self, item: Output) -> Result<Final, JobProcessFailed<Output>> {
        if item.value < 0 {
            Err(JobProcessFailed::new(item, "negative".to_string()))
        } else {
            Ok(Final { value: item.value * 3 })
        }
    }
}

#[test]
fn processor_chain_runs_first_then_second() {
    let chain: ProcessorChain<Input, Output, Final> =
        ProcessorChain::new(Box::new(InputToOutput), Box::new(OutputToFinal));
    assert_eq!(chain.do_process(Input { value: 10 }).unwrap().value, 60);
}

#[test]
fn processor_chain_second_failure_loses_item() {
    let chain: ProcessorChain<Input, Output, Final> =
        ProcessorChain::new(Box::new(InputToOutput), Box::new(OutputToFinal));
    let err = chain.do_process(Input { value: -1 }).unwrap_err();
    assert!(err.item().is_none());
    assert_eq!(err.message(), "negative");
}

struct VecReader(Vec<i32>);
impl Reader<i32> for VecReader {
    fn do_read(&self, _params: &JobParameter) -> Result<Vec<i32>, JobReadFailed> {
        Ok(self.0.clone())
    }
}

struct FailingReader;
impl Reader<i32> for FailingReader {
    fn do_read(&self, _params: &JobParameter) -> Result<Vec<i32>, JobReadFailed> {
        Err(JobReadFailed::EmptyData("nothing".to_string()))
    }
}

struct Double;
impl Processor<i32, i32> for Double {
    fn do_process(&self, item: i32) -> Result<i32, JobProcessFailed<i32>> {
        if item == 13 {
            Err(JobProcessFailed::new(item, "unlucky".to_string()))
        } else {
            Ok(item * 2)
        }
    }
}

struct Collect(RefCell<Vec<Vec<i32>>>);
impl Writer<i32> for Collect {
    fn do_write(&self, items: Vec<i32>) -> Result<(), JobWriteFailed<i32>> {
        self.0.borrow_mut().push(items);
        Ok(())
    }
}

struct Positive;
impl Filter<i32> for Positive {
    fn do_filter(&self, items: Vec<i32>) -> Vec<i32> {
        items.into_iter().filter(|i| *i > 0).collect()
    }
}

struct Shared(std::rc::Rc<Collect>);
impl Writer<i32> for Shared {
    fn do_write(&self, items: Vec<i32>) -> Result<(), JobWriteFailed<i32>> {
        self.0.do_write(items)
    }
}

#[test]
fn job_writes_processed_chunks() {
    let writer = std::rc::Rc::new(Collect(RefCell::new(Vec::new())));
    let job = job_builder::<i32>()
        .reader(Box::new(VecReader(vec![1, -2, 3, 4, 5])))
        .filter(Box::new(Positive))
        .processor(Box::new(Double))
        .writer(Box::new(Shared(writer.clone())))
        .build()
        .set_chunk_size(2);
    assert!(job.run(&Dict::new()).is_ok());
    assert_eq!(*writer.0.borrow(), vec![vec![2, 6], vec![8, 10]]);
}

#[test]
fn job_stops_at_read_and_process_failures() {
    let job = job_builder::<i32>()
        .reader(Box::new(FailingReader))
        .processor(Box::new(Double))
        .writer(Box::new(Collect(RefCell::new(Vec::new()))))
        .build();
    match job.run(&Dict::new()) {
        Err(JobRuntimeError::ReadFailed(JobReadFailed::EmptyData(m))) => assert_eq!(m, "nothing"),
        _ => panic!("expected a read failure"),
    }
    let job = job_builder::<i32>()
        .reader(Box::new(VecReader(vec![1, 13, 2])))
        .processor(Box::new(Double))
        .writer(Box::new(Collect(RefCell::new(Vec::new()))))
        .build();
    match job.run(&Dict::new()) {
        Err(JobRuntimeError::ProcessFailed(e)) => {
            assert_eq!(e.message(), "unlucky");
            assert_eq!(e.item(), &Some(13));
        }
        _ => panic!("expected a process failure"),
    }
}

#[test]
fn job_without_processor_writes_items_as_read() {
    let writer = std::rc::Rc::new(Collect(RefCell::new(Vec::new())));
    let job = job_builder::<i32>().reader(Box::new(VecReader(vec![4, 5, 6]))).writer(Box::new(Shared(writer.clone()))).build();
    assert!(job.run(&Dict::new()).is_ok());
    assert_eq!(*writer.0.borrow(), vec![vec![4, 5, 6]]);
}

fn raw(entries: &[(&str, &str)]) -> Raw {
    let mut r: Raw = Dict::new();
    for (k, v) in entries {
        r.insert(k.to_string(), RawValue::Text(v.to_string()));
    }
    r
}

fn book_with(isbn: &str, site: Site, data: Raw) -> Book {
    Book::builder().isbn(isbn.to_string()).title("t".to_string()).add_original(site, data).build().unwrap()
}

#[test]
fn original_data_rules_test_every_book_with_every_rule() {
    let rules = vec![
        FilterRule::new_operand("a", "x", "^[0-9]+$").to_predicate(),
        FilterRule::new_operand("b", "x", "^1").to_predicate(),
    ];
    let books = vec![
        book_with("1", Site::Aladin, raw(&[("x", "abc")])),
        book_with("2", Site::Aladin, raw(&[("x", "999")])),
        book_with("3", Site::Aladin, raw(&[("x", "123")])),
        book_with("4", Site::Naver, raw(&[("y", "?")])),
    ];
    let kept = screen_by_original_data(books, &rules, Site::Aladin).unwrap();
    // The first book fails the first rule, the second the second; the third
    // passes both, and the fourth has no data of the site.
    assert_eq!(isbns(&kept), vec!["3", "4"]);
}

#[test]
fn original_data_rules_keep_passing_books() {
    let rules = vec![FilterRule::new_operand("digits", "x", "[0-9]").to_predicate()];
    let books = vec![book_with("1", Site::NLGO, raw(&[("x", "a1")])), book_with("2", Site::NLGO, raw(&[("x", "b")]))];
    let kept = screen_by_original_data(books, &rules, Site::NLGO).unwrap();
    // Each book is tested with the rule: the second has no digit.
    assert_eq!(isbns(&kept), vec!["1"]);
    let rules = vec![FilterRule::new_operand("digits", "x", "[0-9]").to_predicate()];
    let books = vec![book_with("1", Site::NLGO, raw(&[("x", "b")])), book_with("2", Site::NLGO, raw(&[("x", "a1")]))];
    let kept = screen_by_original_data(books, &rules, Site::NLGO).unwrap();
    assert_eq!(isbns(&kept), vec!["2"]);
}

#[test]
fn original_data_rules_fail_on_missing_property_or_bad_pattern() {
    let rules = vec![FilterRule::new_operand("a", "missing", "x").to_predicate()];
    let books = vec![book_with("1", Site::NLGO, raw(&[("x", "a")]))];
    assert!(screen_by_original_data(books, &rules, Site::NLGO).is_none());
    let rules = vec![FilterRule::new_operand("a", "x", "(").to_predicate()];
    let books = vec![book_with("1", Site::NLGO, raw(&[("x", "a")]))];
    assert!(screen_by_original_data(books, &rules, Site::NLGO).is_none());
}

#[test]
fn original_data_expression_rules() {
    let mut rule = FilterRule::new_operator("both", Operator::AND);
    rule.add_operand(FilterRule::new_operand("first", "first", "[0-9]"));
    rule.add_operand(FilterRule::new_operand("second", "second", "^[a-zA-Z]+$"));
    let rules = vec![rule.to_predicate()];
    let books = vec![book_with("1", Site::Aladin, raw(&[("first", "1234"), ("second", "abcd")]))];
    assert_eq!(isbns(&screen_by_original_data(books, &rules, Site::Aladin).unwrap()), vec!["1"]);
}

#[test]
fn new_books_only_skips_stored_isbns() {
    let stored = isbns_of(&vec![book("2", "x")]);
    let out = new_books_only(vec![book("1", "a"), book("2", "b"), book("3", "c")], &stored);
    assert_eq!(isbns(&out), vec!["1", "3"]);
}

#[test]
fn write_outcome_reports_nothing_written() {
    assert!(write_outcome(vec![book("1", "a")], 1).is_ok());
    let e = write_outcome(vec![book("1", "a")], 0).unwrap_err();
    assert_eq!(e.message(), "No new books to write");
    assert_eq!(isbns(e.item()), vec!["1"]);
}

#[test]
fn upsert_plan_merges_stored_books() {
    let stored = vec![Book::builder().id(7).isbn("2".to_string()).title("old".to_string()).publisher_id(3).build().unwrap()];
    let (news, merged) = plan_upsert(vec![book("1", "a"), book("2", "new title")], &stored);
    assert_eq!(isbns(&news), vec!["1"]);
    assert_eq!(merged.len(), 1);
    assert_eq!(merged[0].id(), 7);
    assert_eq!(merged[0].publisher_id(), 3);
    assert_eq!(merged[0].title(), "new title");
}

#[test]
fn keyword_searches_lists_keywords_per_publisher() {
    let mut p1 = Publisher::without_keywords(1, "one".to_string());
    p1.add_keyword(Site::Aladin, "k1".to_string());
    p1.add_keyword(Site::Aladin, "k2".to_string());
    let mut p2 = Publisher::without_keywords(2, "two".to_string());
    p2.add_keyword(Site::Aladin, "k3".to_string());
    p2.add_keyword(Site::NLGO, "n".to_string());
    let s = keyword_searches(&vec![p1, p2], Site::Aladin).unwrap();
    assert_eq!(s, vec![(1, "k1".to_string()), (1, "k2".to_string()), (2, "k3".to_string())]);
}

#[test]
fn keyword_searches_needs_keywords_for_the_site() {
    let p = Publisher::without_keywords(1, "one".to_string());
    match keyword_searches(&vec![p], Site::KyoboBook) {
        Err(JobReadFailed::InvalidArguments(m)) => assert_eq!(m, "No keywords for site KyoboBook"),
        other => panic!("unexpected {:?}", other),
    }
}

#[test]
fn with_publisher_sets_the_publisher() {
    let builders = vec![Book::builder().isbn("1".to_string()).title("a".to_string())];
    let books = with_publisher(builders, 42);
    assert_eq!(books.len(), 1);
    assert_eq!(books[0].publisher_id(), 42);
}

#[test]
fn paging_stops_as_each_api_needs() {
    let p = first_page();
    assert_eq!(p, Paging { page: 1, fetched: 0 });
    assert_eq!(aladin_next_page(p, 50), Some(Paging { page: 2, fetched: 50 }));
    assert_eq!(aladin_next_page(Paging { page: 5, fetched: 200 }, 0), None);
    assert_eq!(aladin_next_page(Paging { page: 5, fetched: 150 }, 0), None);
    assert_eq!(aladin_next_page(Paging { page: 3, fetched: 100 }, 50), Some(Paging { page: 4, fetched: 150 }));
    assert_eq!(aladin_next_page(Paging { page: 4, fetched: 150 }, 50), None);
    assert_eq!(aladin_next_page(Paging { page: 5, fetched: 200 }, 50), None);
    assert_eq!(nlgo_next_page(p, 0), None);
    assert_eq!(nlgo_next_page(p, 3), Some(Paging { page: 2, fetched: 3 }));
}

#[test]
fn failed_update_hands_the_merged_book_back() {
    let b = Book::builder().isbn("1".to_string()).title("t".to_string()).build().unwrap();
    assert!(update_outcome(b, 1).is_ok());
    let b = Book::builder().isbn("1".to_string()).title("t".to_string()).build().unwrap();
    match update_outcome(b, 0) {
        Err(e) => {
            assert_eq!(e.message(), "Failed to update book");
            assert_eq!(e.item().len(), 1);
            assert_eq!(e.item()[0].isbn(), "1");
        },
        Ok(()) => panic!("expected a failure"),
    }
}
