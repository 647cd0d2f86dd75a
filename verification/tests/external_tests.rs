use book_batch_rust::date::Date;
use book_batch_rust::external::aladinkr::{Client as AladinClient, Request as AladinRequest};
use book_batch_rust::external::error::{ClientError, RequestError};
use book_batch_rust::external::nlgo::{Client as NlgoClient, Request as NlgoRequest};

#[test]
fn request_error_messages() {
    let missing = RequestError::MissingRequiredParameter("query".to_string());
    assert_eq!(missing.to_string(), "필수 매개변수가 누락되었습니다: query");
    let invalid = RequestError::InvalidParameter("x".to_string());
    assert_eq!(invalid.to_string(), "유효하지 않은 매개변수: x");
}

#[test]
fn aladin_request_defaults_and_setters() {
    let r = AladinRequest::builder().query("출판사".to_string()).build().unwrap();
    assert_eq!(r.query(), "출판사");
    assert_eq!(r.start(), 1);
    assert_eq!(r.max_results(), 10);
    let r = AladinRequest::builder().query("a".to_string()).start(3).max_results(40).build().unwrap();
    assert_eq!(r.start(), 3);
    assert_eq!(r.max_results(), 40);
}

#[test]
fn aladin_request_without_query_is_refused() {
    let e = AladinRequest::builder().build().unwrap_err();
    assert_eq!(e, RequestError::MissingRequiredParameter("query".to_string()));
}

#[test]
fn aladin_request_with_blank_query_is_refused() {
    let e = AladinRequest::builder().query("  \t ".to_string()).build().unwrap_err();
    assert_eq!(e, RequestError::InvalidParameter("검색어는 비어있을 수 없습니다".to_string()));
}

#[test]
fn aladin_search_query_pairs() {
    let client = AladinClient::new("key".to_string());
    let r = AladinRequest::builder().query("pub".to_string()).start(2).max_results(5).build().unwrap();
    let q = client.search_query(&r);
    let expected: Vec<(String, String)> = vec![
        ("ttbkey", "key"),
        ("Query", "pub"),
        ("QueryType", "Publisher"),
        ("start", "2"),
        ("MaxResults", "5"),
        ("SearchTarget", "Book"),
        ("output", "js"),
        ("Version", "20131101"),
        ("Sort", "PublishTime"),
    ]
    .into_iter()
    .map(|(k, v)| (k.to_string(), v.to_string()))
    .collect();
    assert_eq!(q, expected);
}

#[test]
fn aladin_search_url_is_encoded() {
    let client = AladinClient::new("k".to_string());
    let r = AladinRequest::builder().query("abc def".to_string()).build().unwrap();
    let url = client.build_search_url(&r).unwrap();
    assert_eq!(
        url,
        "https://www.aladin.co.kr/ttb/api/ItemSearch.aspx?ttbkey=k&Query=abc+def&QueryType=Publisher&start=1&MaxResults=10&SearchTarget=Book&output=js&Version=20131101&Sort=PublishTime"
    );
}

#[test]
fn nlgo_request_requires_publisher_and_dates() {
    let e = NlgoRequest::builder().build().unwrap_err();
    assert_eq!(e, "출판사는 반드시 입력 되어야 합니다.");
    let e = NlgoRequest::builder().publisher("p".to_string()).build().unwrap_err();
    assert_eq!(e, "출판 시작일은 반드시 입력 되어야 합니다.");
    let e = NlgoRequest::builder()
        .publisher("p".to_string())
        .start_pub_date(Date::new(2024, 1, 5))
        .build()
        .unwrap_err();
    assert_eq!(e, "출판 종료일은 반드시 입력 되어야 합니다.");
}

#[test]
fn nlgo_request_defaults() {
    let r = NlgoRequest::builder()
        .publisher("p".to_string())
        .start_pub_date(Date::new(2024, 1, 5))
        .end_pub_date(Date::new(2024, 1, 31))
        .build()
        .unwrap();
    assert_eq!(r.page(), 1);
    assert_eq!(r.size(), 50);
    assert_eq!(r.publisher(), "p");
    assert_eq!(r.start_pub_date(), Date::new(2024, 1, 5));
    assert_eq!(r.end_pub_date(), Date::new(2024, 1, 31));
}

#[test]
fn nlgo_search_url_writes_compact_dates() {
    let client = NlgoClient::new("k".to_string());
    let r = NlgoRequest::builder()
        .publisher("p".to_string())
        .start_pub_date(Date::new(2024, 1, 5))
        .end_pub_date(Date::new(2024, 1, 31))
        .page(2)
        .size(20)
        .build()
        .unwrap();
    let url = client.build_search_url(&r).unwrap();
    assert_eq!(
        url,
        "https://www.nl.go.kr/seoji/SearchApi.do?cert_key=k&start_publish_date=20240105&end_publish_date=20240131&publisher=p&result_style=json&page_no=2&page_size=20&sort=INDEX_PUBLISHER&order_by=ASC"
    );
    let q = client.search_query(&r);
    assert_eq!(q[1], ("start_publish_date".to_string(), "20240105".to_string()));
}

#[test]
fn client_error_variants_compare() {
    assert_eq!(ClientError::InvalidBaseUrl, ClientError::InvalidBaseUrl);
    assert_ne!(ClientError::RequestFailed("a".to_string()), ClientError::ResponseParseFailed("a".to_string()));
}
