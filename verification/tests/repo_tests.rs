use book_batch_rust::book::entity::{PublisherEntity, PublisherKeywordEntity};
use book_batch_rust::date::{Date, DateTime};
use book_batch_rust::dict::Dict;
use book_batch_rust::item::raw::{Raw, RawValue};
use book_batch_rust::item::repo::{
    attach_saved_originals, check_series_vector, plan_original_data_saves, plan_original_data_update, compose_entity_with_original, group_item_publishers, BookEntity,
    BookOriginFilterEntity, Error, SeriesEntity,
};
use book_batch_rust::item::rule::Operator;
use book_batch_rust::item::{Book, ItemError, Series, Site};

fn at() -> DateTime {
    DateTime { date: Date { year: 2024, month: 5, day: 6 }, hour: 7, minute: 8, second: 9, nanosecond: 0 }
}

fn raw(k: &str, v: &str) -> Raw {
    let mut r: Raw = Dict::new();
    r.insert(k.to_string(), RawValue::Text(v.to_string()));
    r
}

fn row(id: i64, isbn: &str) -> BookEntity {
    BookEntity {
        id,
        isbn: isbn.to_string(),
        publisher_id: 4,
        series_id: Some(8),
        title: "t".to_string(),
        scheduled_pub_date: None,
        actual_pub_date: Some(Date { year: 2024, month: 1, day: 2 }),
        registered_at: at(),
        modified_at: None,
    }
}

#[test]
fn series_vectors_must_have_1024_components() {
    let s = Series::builder().build().unwrap();
    assert_eq!(check_series_vector(&s), Err(Error::InvalidParameter("series.vec is must not be null".to_string())));
    let s = Series::builder().vec(vec![0u32; 3]).build().unwrap();
    assert_eq!(check_series_vector(&s), Err(Error::InvalidParameter("vector dimension is must be 1024".to_string())));
    let s = Series::builder().vec(vec![0u32; 1024]).build().unwrap();
    assert_eq!(check_series_vector(&s), Ok(()));
}

#[test]
fn series_rows_convert() {
    let e = SeriesEntity { id: 3, name: Some("S".to_string()), isbn: None, vec: Some(vec![1, 2]), registered_at: at(), modified_at: None };
    let s = e.to_domain();
    assert_eq!(s.id(), 3);
    assert_eq!(s.title(), &Some("S".to_string()));
    assert_eq!(s.vec(), &Some(vec![1u32, 2]));
    assert_eq!(s.registered_at(), Some(at()));
}

#[test]
fn book_rows_compose_with_originals() {
    let b = compose_entity_with_original(&row(1, "A"), Some((Site::Naver, raw("k", "v"))));
    assert_eq!(b.id(), 1);
    assert_eq!(b.series_id(), Some(8));
    assert_eq!(b.publisher_id(), 4);
    assert!(b.originals().contains_key(&Site::Naver));
    let b = compose_entity_with_original(&row(2, "B"), None);
    assert!(!b.originals().contains_key(&Site::Naver));
    let builder = row(3, "C").to_domain_builder();
    assert_eq!(builder.build().unwrap().registered_at(), Some(at()));
}

#[test]
fn saved_books_get_the_originals_given_with_their_isbn() {
    let given = vec![
        Book::builder().isbn("A".to_string()).title("a".to_string()).add_original(Site::NLGO, raw("x", "1")).build().unwrap(),
        Book::builder().isbn("A".to_string()).title("a".to_string()).add_original(Site::Aladin, raw("x", "2")).build().unwrap(),
    ];
    let saved = vec![row(10, "A"), row(11, "A"), row(12, "Z")];
    let out = attach_saved_originals(&saved, &given);
    assert_eq!(out.len(), 3);
    assert!(out[0].originals().contains_key(&Site::Aladin));
    assert!(!out[0].originals().contains_key(&Site::NLGO));
    assert!(!out[1].originals().contains_key(&Site::Aladin));
    assert_eq!(out[2].id(), 12);
}

#[test]
fn item_publishers_group_by_id_with_sites() {
    let rows = vec![
        (PublisherEntity { id: 1, name: "one".to_string() }, Some(PublisherKeywordEntity { publisher_id: 1, site: "NAVER".to_string(), keyword: "n".to_string() })),
        (PublisherEntity { id: 1, name: "one".to_string() }, Some(PublisherKeywordEntity { publisher_id: 1, site: "kyobo".to_string(), keyword: "k".to_string() })),
        (PublisherEntity { id: 2, name: "two".to_string() }, None),
    ];
    let ps = group_item_publishers(&rows).unwrap();
    assert_eq!(ps.len(), 2);
    assert_eq!(ps[0].keywords().get(&Site::Naver), Some(&vec!["n".to_string()]));
    assert_eq!(ps[0].keywords().get(&Site::KyoboBook), Some(&vec!["k".to_string()]));
    assert_eq!(ps[1].id(), 2);
    let bad = vec![(PublisherEntity { id: 1, name: "one".to_string() }, Some(PublisherKeywordEntity { publisher_id: 1, site: "yes24".to_string(), keyword: "y".to_string() }))];
    assert_eq!(group_item_publishers(&bad).unwrap_err(), ItemError::UnknownCode("yes24".to_string()));
}

fn filter_row(operator: Option<&str>, property: Option<&str>, regex: Option<&str>) -> BookOriginFilterEntity {
    BookOriginFilterEntity {
        id: 1,
        name: "f".to_string(),
        site: "NLGO".to_string(),
        is_root: true,
        operator_type: operator.map(|s| s.to_string()),
        property_name: property.map(|s| s.to_string()),
        regex_val: regex.map(|s| s.to_string()),
        parent_id: None,
    }
}

#[test]
fn filter_rows_become_rules() {
    let r = filter_row(Some("NOR"), None, None);
    assert!(r.is_operator());
    assert_eq!(r.to_domain().operator(), Some(Operator::NOR));
    let r = filter_row(None, Some("title"), Some("^a"));
    assert!(r.is_operand());
    let rule = r.to_domain();
    assert_eq!(rule.rule(), &Some(("title".to_string(), "^a".to_string())));
    assert!(filter_row(Some("XOR"), None, None).try_to_domain().is_none());
    assert!(filter_row(None, Some("title"), Some("(")).try_to_domain().is_none());
    assert!(filter_row(None, Some("title"), None).try_to_domain().is_none());
}

fn given(isbn: &str, title: &str) -> Book {
    Book::builder().isbn(isbn.to_string()).title(title.to_string()).add_original(Site::Aladin, raw("k", title)).build().unwrap()
}

#[test]
fn original_data_saves_follow_the_saved_rows() {
    let books = vec![given("A", "a1"), given("B", "b"), given("A", "a2")];
    let saved = vec![row(10, "A"), row(11, "C"), row(12, "B"), row(13, "A")];
    assert_eq!(plan_original_data_saves(&saved, &books, true), vec![(10, 2), (12, 1), (13, 2)]);
    assert!(plan_original_data_saves(&saved, &books, false).is_empty());
}

#[test]
fn original_data_update_replaces_each_site() {
    let book = Book::builder()
        .id(7)
        .isbn("A".to_string())
        .title("t".to_string())
        .add_original(Site::KyoboBook, raw("k", "v"))
        .add_original(Site::NLGO, raw("k", "v"))
        .build()
        .unwrap();
    assert_eq!(plan_original_data_update(&book, true), Some((7, vec![Site::NLGO, Site::KyoboBook])));
    assert_eq!(plan_original_data_update(&book, false), None);
}
