use book_batch_rust::book::entity::{
    BookEntity, BookOriginDataEntity, BookOriginFilterEntity, NewBookOriginDataEntity, PublisherEntity,
    PublisherKeywordEntity,
};
use book_batch_rust::book::repository::{
    group_publishers, mapping_book_and_origin_data, origin_sites_to_replace, registered_origins, reinserted_sites, root_filters,
    SQLError,
};
use book_batch_rust::book::{Book, BookOriginFilter, Operator, Original, Publisher};
use book_batch_rust::date::{Date, DateTime};
use book_batch_rust::dict::Dict;

fn original(entries: &[(&str, &str)]) -> Original {
    let mut o: Original = Dict::new();
    for (k, v) in entries {
        o.insert(k.to_string(), v.to_string());
    }
    o
}

fn pairs(o: &Original) -> Vec<(String, String)> {
    let mut v: Vec<(String, String)> = (0..o.len()).map(|i| {
        let (k, val) = o.entry_at(i);
        (k.clone(), val.clone())
    }).collect();
    v.sort();
    v
}

fn book_with(site: &str, entries: &[(&str, &str)]) -> Book {
    let mut data: Dict<Original> = Dict::new();
    data.insert(site.to_string(), original(entries));
    Book::new("978".to_string(), 1, "t".to_string(), None, None, data)
}

#[test]
fn first_model_operator_codes() {
    assert_eq!(Operator::from_str("OR"), Some(Operator::OR));
    assert_eq!(Operator::from_str("XOR"), None);
}

#[test]
fn first_model_publisher_keywords() {
    let mut p = Publisher::new(2, "p".to_string());
    p.add_keyword("NAVER".to_string(), "k1".to_string());
    p.add_keyword("NAVER".to_string(), "k2".to_string());
    assert_eq!(p.id(), 2);
    assert_eq!(p.name(), "p");
    assert_eq!(p.keywords().get("NAVER"), Some(&vec!["k1".to_string(), "k2".to_string()]));
}

#[test]
fn first_model_merge_takes_update() {
    let d1 = Date { year: 2024, month: 1, day: 1 };
    let d2 = Date { year: 2024, month: 2, day: 2 };
    let mut data: Dict<Original> = Dict::new();
    data.insert("A".to_string(), original(&[("x", "1"), ("y", "2")]));
    let mut stored = Book::existing(5, "978".to_string(), 3, "old".to_string(), Some(d1), Some(d1), data);
    let mut up: Dict<Original> = Dict::new();
    up.insert("A".to_string(), original(&[("y", "3")]));
    up.insert("B".to_string(), original(&[("z", "4")]));
    let update = Book::new("978".to_string(), 0, "new".to_string(), Some(d2), None, up);
    stored.merge(&update);
    assert_eq!(stored.id(), 5);
    assert_eq!(stored.publisher_id(), 3);
    assert_eq!(stored.title(), "new");
    assert_eq!(stored.scheduled_pub_date(), Some(d2));
    assert_eq!(stored.actual_pub_date(), Some(d1));
    let a = stored.origin_data().get("A").unwrap();
    assert_eq!(a.get("x"), Some(&"1".to_string()));
    assert_eq!(a.get("y"), Some(&"3".to_string()));
    assert_eq!(stored.origin_data().get("B").unwrap().get("z"), Some(&"4".to_string()));
}

#[test]
fn first_model_merge_twice_is_merge_once() {
    let mut up: Dict<Original> = Dict::new();
    up.insert("A".to_string(), original(&[("y", "3")]));
    let update = Book::new("978".to_string(), 0, "new".to_string(), None, None, up);
    let mut a = book_with("A", &[("y", "1"), ("w", "0")]);
    a.merge(&update);
    let once = pairs(a.origin_data().get("A").unwrap());
    a.merge(&update);
    let twice = pairs(a.origin_data().get("A").unwrap());
    assert_eq!(once, twice);
}

#[test]
fn first_model_add_origin_data_and_publisher() {
    let mut b = book_with("A", &[]);
    b.add_origin_data("A".to_string(), "k".to_string(), "v".to_string());
    b.add_origin_data("C".to_string(), "k2".to_string(), "v2".to_string());
    b.set_publisher_id(9);
    assert_eq!(b.publisher_id(), 9);
    assert_eq!(b.origin_data().get("A").unwrap().get("k"), Some(&"v".to_string()));
    assert_eq!(b.origin_data().get("C").unwrap().get("k2"), Some(&"v2".to_string()));
}

fn leaf(id: u64, site: &str, property: &str, regex: &str) -> BookOriginFilter {
    BookOriginFilter::new(id, "leaf".to_string(), site.to_string(), false, None, Some(property.to_string()), Some(regex.to_string()))
}

#[test]
fn first_model_filter_validates_by_its_site() {
    let f = leaf(1, "A", "isbn", "^97[89]");
    assert!(f.validate(&book_with("A", &[("isbn", "9781234")])));
    assert!(!f.validate(&book_with("A", &[("isbn", "123")])));
    assert!(!f.validate(&book_with("A", &[("other", "978")])));
    assert!(f.validate(&book_with("B", &[("isbn", "123")])));
}

#[test]
fn first_model_filter_operators() {
    let mut and = BookOriginFilter::new(1, "and".to_string(), "A".to_string(), true, Some(Operator::AND), None, None);
    and.add_node(leaf(2, "A", "x", "1"));
    and.add_node(leaf(3, "A", "y", "2"));
    assert!(and.validate(&book_with("A", &[("x", "1"), ("y", "2")])));
    assert!(!and.validate(&book_with("A", &[("x", "1"), ("y", "3")])));
    let mut nand = BookOriginFilter::new(4, "nand".to_string(), "A".to_string(), true, Some(Operator::NAND), None, None);
    nand.add_node(leaf(5, "A", "x", "1"));
    assert!(!nand.validate(&book_with("A", &[("x", "1")])));
    assert_eq!(and.nodes().len(), 2);
    assert_eq!(and.operator(), &Some(Operator::AND));
    assert!(and.is_root());
    assert_eq!(and.site(), "A");
    assert_eq!(and.name(), "and");
    assert_eq!(and.id(), 1);
    assert_eq!(and.property_name(), &None);
    assert_eq!(and.regex(), &None);
}

#[test]
fn first_model_filter_without_rule_fails_and_bad_pattern_is_reported() {
    let none = BookOriginFilter::new(1, "n".to_string(), "A".to_string(), true, None, None, None);
    assert_eq!(none.check(&book_with("A", &[("x", "1")])), Some(false));
    let bad = leaf(2, "A", "x", "(");
    assert_eq!(bad.check(&book_with("A", &[("x", "1")])), None);
    assert_eq!(bad.check(&book_with("Z", &[("x", "1")])), Some(true));
}

fn filter_row(id: i64, is_root: bool, operator: Option<&str>, property: Option<&str>, regex: Option<&str>, parent: Option<i64>) -> BookOriginFilterEntity {
    BookOriginFilterEntity {
        id,
        name: format!("f{}", id),
        site: "A".to_string(),
        is_root,
        operator_type: operator.map(|s| s.to_string()),
        property_name: property.map(|s| s.to_string()),
        regex: regex.map(|s| s.to_string()),
        parent_id: parent,
    }
}

#[test]
fn filter_rows_convert() {
    let row = filter_row(3, false, Some("OR"), None, None, Some(1));
    assert!(row.is_operator());
    assert!(!row.is_operand());
    let (f, parent) = row.to_domain();
    assert_eq!(f.id(), 3);
    assert_eq!(f.operator(), &Some(Operator::OR));
    assert_eq!(parent, Some(1));
    let row = filter_row(4, false, None, Some("p"), Some("r"), None);
    assert!(row.is_operand());
    let (f, parent) = row.to_domain();
    assert_eq!(f.property_name(), &Some("p".to_string()));
    assert_eq!(parent, None);
}

#[test]
fn root_filters_build_trees() {
    let mut other_site = filter_row(6, true, None, Some("w"), Some("4"), None);
    other_site.site = "B".to_string();
    let rows = vec![
        filter_row(1, true, Some("AND"), None, None, None),
        filter_row(2, false, None, Some("x"), Some("1"), Some(1)),
        filter_row(3, false, Some("OR"), None, None, Some(1)),
        filter_row(4, false, None, Some("y"), Some("2"), Some(3)),
        other_site,
    ];
    let roots = root_filters(&rows);
    assert_eq!(roots.len(), 2);
    let a = roots.get("A").unwrap();
    assert_eq!(a.id(), 1);
    assert_eq!(a.nodes().len(), 2);
    assert_eq!(a.nodes()[1].nodes()[0].id(), 4);
    assert_eq!(roots.get("B").unwrap().id(), 6);
    assert!(a.validate(&book_with("A", &[("x", "1"), ("y", "2")])));
    assert!(!a.validate(&book_with("A", &[("x", "0"), ("y", "2")])));
}

#[test]
fn root_filters_keep_one_root_per_site() {
    let rows = vec![
        filter_row(1, true, Some("AND"), None, None, None),
        filter_row(5, true, None, Some("z"), Some("3"), None),
    ];
    let roots = root_filters(&rows);
    assert_eq!(roots.len(), 1);
    assert_eq!(roots.get("A").unwrap().id(), 5);
}

#[test]
fn publishers_group_rows_by_id() {
    let rows = vec![
        (PublisherEntity { id: 1, name: "one".to_string() }, Some(PublisherKeywordEntity { publisher_id: 1, site: "A".to_string(), keyword: "k1".to_string() })),
        (PublisherEntity { id: 2, name: "two".to_string() }, None),
        (PublisherEntity { id: 1, name: "one".to_string() }, Some(PublisherKeywordEntity { publisher_id: 1, site: "A".to_string(), keyword: "k2".to_string() })),
    ];
    let ps = group_publishers(&rows);
    assert_eq!(ps.len(), 2);
    assert_eq!(ps[0].id(), 1);
    assert_eq!(ps[0].keywords().get("A"), Some(&vec!["k1".to_string(), "k2".to_string()]));
    assert_eq!(ps[1].name(), "two");
    assert_eq!(ps[1].keywords().len(), 0);
}

fn book_row(id: i64, isbn: &str) -> BookEntity {
    let date = Date { year: 2024, month: 3, day: 4 };
    BookEntity {
        id,
        isbn: isbn.to_string(),
        title: "t".to_string(),
        publisher_id: 2,
        scheduled_pub_date: Some(date),
        actual_pub_date: None,
        registered_at: DateTime { date, hour: 0, minute: 0, second: 0, nanosecond: 0 },
        modified_at: None,
    }
}

fn origin_row(site: &str, property: &str, val: Option<&str>) -> Option<BookOriginDataEntity> {
    Some(BookOriginDataEntity { book_id: 1, site: site.to_string(), property: property.to_string(), val: val.map(|s| s.to_string()) })
}

#[test]
fn books_group_rows_by_isbn() {
    let rows = vec![
        (book_row(1, "A"), origin_row("S", "x", Some("1"))),
        (book_row(2, "B"), None),
        (book_row(1, "A"), origin_row("S", "y", Some("2"))),
        (book_row(1, "A"), origin_row("S", "z", None)),
    ];
    let books = mapping_book_and_origin_data(&rows);
    assert_eq!(books.len(), 2);
    assert_eq!(books[0].isbn(), "A");
    assert_eq!(books[0].id(), 1);
    let s = books[0].origin_data().get("S").unwrap();
    assert_eq!(s.len(), 2);
    assert_eq!(s.get("y"), Some(&"2".to_string()));
    assert_eq!(books[1].origin_data().len(), 0);
}

#[test]
fn origin_rows_list_every_property() {
    let mut data: Dict<Original> = Dict::new();
    data.insert("A".to_string(), original(&[("x", "1"), ("y", "2")]));
    data.insert("B".to_string(), original(&[("z", "3")]));
    let rows = NewBookOriginDataEntity::new(7, &data);
    assert_eq!(rows.len(), 3);
    assert!(rows.iter().all(|r| r.book_id == 7));
    assert!(rows.iter().any(|r| r.site == "B" && r.property == "z" && r.val == Some("3".to_string())));
}

#[test]
fn sql_error_message() {
    assert_eq!(SQLError::QueryExecuteError("boom".to_string()).to_string(), "boom");
}

fn stored(id: u64, isbn: &str) -> Book {
    Book::existing(id, isbn.to_string(), 1, "t".to_string(), None, None, Dict::new())
}

fn given_book(isbn: &str) -> Book {
    let mut data: Dict<Original> = Dict::new();
    data.insert("NLGO".to_string(), original(&[("k", isbn)]));
    Book::new(isbn.to_string(), 1, "t".to_string(), None, None, data)
}

#[test]
fn registered_books_get_the_data_of_the_given_ones() {
    let given = vec![given_book("A"), given_book("B"), given_book("A")];
    let registered = vec![stored(10, "A"), stored(11, "C"), stored(12, "B")];
    assert_eq!(registered_origins(&registered, &given, true), vec![(10, 2), (12, 1)]);
    assert!(registered_origins(&registered, &given, false).is_empty());
}

#[test]
fn updates_replace_the_sites_whose_deletion_succeeded() {
    let mut data: Dict<Original> = Dict::new();
    data.insert("NLGO".to_string(), original(&[("k", "v")]));
    data.insert("ALADIN".to_string(), original(&[("k", "v")]));
    let book = Book::existing(3, "A".to_string(), 1, "t".to_string(), None, None, data);
    let mut sites = origin_sites_to_replace(&book, 1, true);
    sites.sort();
    assert_eq!(sites, vec!["ALADIN".to_string(), "NLGO".to_string()]);
    assert!(origin_sites_to_replace(&book, 0, true).is_empty());
    assert!(origin_sites_to_replace(&book, 1, false).is_empty());
    let kept = reinserted_sites(&vec!["NLGO".to_string(), "ALADIN".to_string()], &vec![false, true]);
    assert_eq!(kept, vec!["ALADIN".to_string()]);
}
