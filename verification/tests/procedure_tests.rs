use book_batch_rust::book::{Book, Original, Publisher};
use book_batch_rust::config::logger::Config as LogConfig;
use book_batch_rust::config::{config_file_name, env_file_name};
use book_batch_rust::date::Date;
use book_batch_rust::dict::Dict;
use book_batch_rust::procedure::{DropDuplicatedIsbnFilter, EmptyIsbnFilter, Filter, Job, JobBuilder, Parameter, Reader, Writer};

fn book(isbn: &str, title: &str) -> Book {
    let data: Dict<Original> = Dict::new();
    Book::new(isbn.to_string(), 1, title.to_string(), None, None, data)
}

struct Books;
impl Reader for Books {
    fn read_books(&self, _parameter: &Parameter) -> Vec<Book> {
        vec![book("1", "a"), book("", "b"), book("1", "c"), book("2", "d")]
    }
}

struct Echo;
impl Writer for Echo {
    fn write(&self, books: &[Book]) -> Vec<Book> {
        books.iter().map(|b| book(b.isbn(), b.title())).collect()
    }
}

struct Both;
impl Filter for Both {
    fn do_filter(&self, books: Vec<Book>) -> Vec<Book> {
        DropDuplicatedIsbnFilter.do_filter(EmptyIsbnFilter.do_filter(books))
    }
}

#[test]
fn first_model_parameters() {
    let d = Date { year: 2024, month: 1, day: 1 };
    let p = Parameter::builder().publisher(Publisher::new(1, "p".to_string())).from(d).build();
    assert_eq!(p.publisher().as_ref().unwrap().id(), 1);
    assert_eq!(p.from(), &Some(d));
    assert_eq!(p.to(), &None);
}

#[test]
fn first_model_job_needs_reader_and_writer() {
    assert_eq!(JobBuilder::new().writer(Box::new(Echo)).build().err(), Some("Reader는 필수 값입니다"));
    assert_eq!(JobBuilder::new().reader(Box::new(Books)).build().err(), Some("Writer는 필수 값입니다"));
}

#[test]
fn first_model_job_runs_reader_filter_writer() {
    let job = Job::builder().reader(Box::new(Books)).filter(Box::new(Both)).writer(Box::new(Echo)).build().ok().unwrap();
    let out = job.run(&Parameter::builder().build());
    let titles: Vec<&str> = out.iter().map(|b| b.title()).collect();
    assert_eq!(titles, vec!["a", "d"]);
    let job = Job::builder().reader(Box::new(Books)).writer(Box::new(Echo)).build().ok().unwrap();
    assert_eq!(job.run(&Parameter::builder().build()).len(), 4);
}

#[test]
fn environment_file_names() {
    assert_eq!(env_file_name(Some("prod".to_string())), ".env.prod");
    assert_eq!(env_file_name(None), ".env");
    assert_eq!(config_file_name(None), "config/development.json");
    assert_eq!(config_file_name(Some("test".to_string())), "config/test.json");
}

#[test]
fn logging_settings_from_the_environment() {
    let c = LogConfig::from_settings("d".to_string(), "n".to_string(), Some("5".to_string()), None, Some("HOURLY".to_string())).unwrap();
    assert_eq!(c.keep, Some(5));
    assert_eq!(c.rotation, Some("HOURLY".to_string()));
    assert!(LogConfig::from_settings("d".to_string(), "n".to_string(), Some("five".to_string()), None, None).is_none());
}
