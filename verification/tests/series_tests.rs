use book_batch_rust::batch::error::JobReadFailed;
use book_batch_rust::batch::series::utils::{
    extract_raw_text, extract_raw_u64, extract_set_isbn_from_book, extract_title_from_raw, set_sale_info_value,
};
use book_batch_rust::batch::series::{
    belong_failed, convert_series_similar_request_book_info, normalize_failed, series_similar_request,
    SIMILAR_SERIES_CANDIDATES,
    convert_book_to_normalize_request, first_series, normalized_series, read_limit, retrieve_nlgo_set_isbn, select_similar,
    SeriesProcessError,
};
use book_batch_rust::batch::JobParameter;
use book_batch_rust::dict::Dict;
use book_batch_rust::item::raw::{Raw, RawNumber, RawValue};
use book_batch_rust::item::raw_utils::{
    retrieve_description_from_raw, retrieve_sale_price_from_raw, retrieve_series_id_from_raw,
    retrieve_series_list_titles_from_raw, retrieve_title_from_raw, RawDataKind, RawKeyDict,
};
use book_batch_rust::item::{Book, Series, Site, SiteMap};
use book_batch_rust::prompt::NormalizeRequestSaleInfo;

fn obj(entries: Vec<(&str, RawValue)>) -> Raw {
    let mut r: Raw = Dict::new();
    for (k, v) in entries {
        r.insert(k.to_string(), v);
    }
    r
}

fn text(s: &str) -> RawValue {
    RawValue::Text(s.to_string())
}

fn num(n: u64) -> RawValue {
    RawValue::Number(RawNumber::UnsignedInt(n))
}

#[test]
fn extract_text_and_numbers() {
    assert_eq!(extract_raw_text(&text("a")), Some("a".to_string()));
    assert_eq!(extract_raw_text(&num(1)), None);
    assert_eq!(extract_raw_u64(&num(12)), Some(12));
    assert_eq!(extract_raw_u64(&RawValue::Number(RawNumber::SignedInt(-1))), Some(u64::MAX));
    assert_eq!(extract_raw_u64(&RawValue::Number(RawNumber::Undefined)), None);
    assert_eq!(extract_raw_u64(&text("12")), None);
}

#[test]
fn naver_sale_info_reads_discount_and_description() {
    let mut info = NormalizeRequestSaleInfo::new("NAVER", "t");
    let raw = obj(vec![("discount", num(12000)), ("description", text("about"))]);
    set_sale_info_value(&mut info, &Site::Naver, &raw);
    assert_eq!(info.price, Some(12000));
    assert_eq!(info.desc, Some("about".to_string()));
    assert_eq!(info.series, None);
    assert_eq!(info.site, "NAVER");
    assert_eq!(info.title, "t");
}

#[test]
fn aladin_sale_info_reads_price_sales() {
    let mut info = NormalizeRequestSaleInfo::new("ALADIN", "t");
    let raw = obj(vec![("priceSales", num(9000)), ("discount", num(1))]);
    set_sale_info_value(&mut info, &Site::Aladin, &raw);
    assert_eq!(info.price, Some(9000));
    assert_eq!(info.desc, None);
}

#[test]
fn kyobo_sale_info_reads_series_titles() {
    let mut info = NormalizeRequestSaleInfo::new("KYOBO", "t");
    let series = RawValue::Array(vec![
        RawValue::Object(obj(vec![("title", text("Vol 1"))])),
        RawValue::Object(obj(vec![("title", num(2))])),
        text("not an object"),
        RawValue::Object(obj(vec![("title", text("Vol 3"))])),
    ]);
    let raw = obj(vec![("sale_price", text("100")), ("prod_description", text("d")), ("series", series)]);
    set_sale_info_value(&mut info, &Site::KyoboBook, &raw);
    assert_eq!(info.price, None);
    assert_eq!(info.desc, Some("d".to_string()));
    assert_eq!(info.series, Some(vec!["Vol 1".to_string(), "Vol 3".to_string()]));
}

#[test]
fn kyobo_sale_info_keeps_series_without_titles() {
    let mut info = NormalizeRequestSaleInfo::new("KYOBO", "t");
    info.series = Some(vec!["kept".to_string()]);
    let raw = obj(vec![("series", RawValue::Array(vec![]))]);
    set_sale_info_value(&mut info, &Site::KyoboBook, &raw);
    assert_eq!(info.series, Some(vec!["kept".to_string()]));
}

#[test]
fn nlgo_sale_info_sets_nothing() {
    let mut info = NormalizeRequestSaleInfo::new("NLGO", "t");
    info.price = Some(1);
    let raw = obj(vec![("discount", num(5)), ("description", text("x"))]);
    set_sale_info_value(&mut info, &Site::NLGO, &raw);
    assert_eq!(info.price, Some(1));
    assert_eq!(info.desc, None);
}

#[test]
fn title_and_set_isbn_extraction() {
    let raw = obj(vec![("title", text("T"))]);
    assert_eq!(extract_title_from_raw(&Site::Aladin, &raw), Some("T".to_string()));
    assert_eq!(extract_title_from_raw(&Site::Aladin, &obj(vec![])), None);
    let book = Book::builder()
        .isbn("1".to_string())
        .title("T".to_string())
        .add_original(Site::NLGO, obj(vec![("set_isbn", text("979"))]))
        .build()
        .unwrap();
    assert_eq!(extract_set_isbn_from_book(&book), Some("979".to_string()));
    let book = Book::builder().isbn("1".to_string()).title("T".to_string()).build().unwrap();
    assert_eq!(extract_set_isbn_from_book(&book), None);
}

fn dict() -> RawKeyDict {
    let mut d = RawKeyDict::new();
    d.insert(RawDataKind::Title, "title".to_string());
    d.insert(RawDataKind::SeriesID, "set_isbn".to_string());
    d.insert(RawDataKind::Description, "desc".to_string());
    d.insert(RawDataKind::SalePrice, "price".to_string());
    d.insert(RawDataKind::SeriesList, "series".to_string());
    d
}

#[test]
fn raw_key_dict_lookups() {
    let d = dict();
    let raw = obj(vec![("title", text("T")), ("set_isbn", text("")), ("desc", num(3)), ("price", text("1500"))]);
    assert_eq!(retrieve_title_from_raw(&d, &raw), Some("T".to_string()));
    assert_eq!(retrieve_series_id_from_raw(&d, &raw), None);
    assert_eq!(retrieve_description_from_raw(&d, &raw), Some("3".to_string()));
    assert_eq!(retrieve_sale_price_from_raw(&d, &raw), Some(1500));
    assert_eq!(retrieve_sale_price_from_raw(&RawKeyDict::new(), &raw), None);
    assert_eq!(d.get(&RawDataKind::Author), None);
}

#[test]
fn series_list_titles_from_nested_values() {
    let d = dict();
    let series = RawValue::Array(vec![
        text("A"),
        RawValue::Object(obj(vec![("title", text("B"))])),
        RawValue::Array(vec![text("C"), RawValue::Null]),
        RawValue::Bool(true),
    ]);
    let raw = obj(vec![("series", series)]);
    assert_eq!(
        retrieve_series_list_titles_from_raw(&d, &raw),
        Some(vec!["A".to_string(), "B".to_string(), "C".to_string()])
    );
    let raw = obj(vec![("series", RawValue::Array(vec![RawValue::Null]))]);
    assert_eq!(retrieve_series_list_titles_from_raw(&d, &raw), None);
}

#[test]
fn series_errors_display() {
    assert_eq!(SeriesProcessError::FailedTitleNormalize("x".to_string()).to_string(), "failed title normalize x");
    assert_eq!(SeriesProcessError::FailedTitleEmbedding("y".to_string()).to_string(), "failed title embedding y");
}

#[test]
fn read_limit_defaults_to_fifty() {
    let mut p: JobParameter = Dict::new();
    assert_eq!(read_limit(&p).unwrap(), 50);
    p.insert("limit".to_string(), "7".to_string());
    assert_eq!(read_limit(&p).unwrap(), 7);
    p.insert("limit".to_string(), "seven".to_string());
    match read_limit(&p) {
        Err(JobReadFailed::InvalidArguments(m)) => assert_eq!(m, "limit: invalid digit found in string is not a number"),
        other => panic!("unexpected {:?}", other),
    }
}

fn series(id: u64, isbn: Option<&str>) -> Series {
    let b = Series::builder().id(id);
    match isbn {
        Some(i) => b.isbn(i.to_string()).build().unwrap(),
        None => b.build().unwrap(),
    }
}

#[test]
fn similar_series_with_a_set_isbn_skips_the_same_isbn() {
    let c = vec![(series(1, Some("A")), 0.1f64), (series(2, Some("B")), 0.2)];
    let r = select_similar(c, &Some("A".to_string())).unwrap();
    assert_eq!(r.0.id(), 2);
    let c = vec![(series(1, Some("A")), 0.1f64), (series(2, None), 0.2)];
    assert_eq!(select_similar(c, &Some("A".to_string())).unwrap().0.id(), 2);
    let c = vec![(series(1, Some("A")), 0.1f64)];
    assert!(select_similar(c, &Some("A".to_string())).is_none());
}

#[test]
fn similar_series_without_a_set_isbn_is_the_first() {
    let c = vec![(series(1, Some("A")), 0.1f64), (series(2, None), 0.2)];
    assert_eq!(select_similar(c, &None).unwrap().0.id(), 1);
    assert!(select_similar(Vec::<(Series, f64)>::new(), &None).is_none());
}

#[test]
fn first_series_found() {
    assert_eq!(first_series(vec![series(3, None), series(4, None)]).unwrap().id(), 3);
    assert!(first_series(vec![]).is_none());
}

#[test]
fn normalize_request_collects_sale_info_in_site_order() {
    let book = Book::builder()
        .isbn("1".to_string())
        .title("Book".to_string())
        .add_original(Site::KyoboBook, obj(vec![("title", text("K")), ("price", num(10))]))
        .add_original(Site::Naver, obj(vec![("title", text("N")), ("desc", text("nd"))]))
        .add_original(Site::Aladin, obj(vec![("nothing", text("-"))]))
        .add_original(Site::NLGO, obj(vec![("set_isbn", text("S"))]))
        .build()
        .unwrap();
    let mut dicts = SiteMap::new();
    dicts.insert(Site::KyoboBook, dict());
    dicts.insert(Site::Naver, dict());
    dicts.insert(Site::Aladin, dict());
    dicts.insert(Site::NLGO, dict());
    let r = convert_book_to_normalize_request(&book, &dicts);
    assert_eq!(r.title, "Book");
    let infos = r.sale_info.unwrap();
    assert_eq!(infos.len(), 2);
    assert_eq!(infos[0].site, "NAVER");
    assert_eq!(infos[0].title, "N");
    assert_eq!(infos[0].desc, Some("nd".to_string()));
    assert_eq!(infos[1].site, "KYOBO");
    assert_eq!(infos[1].price, Some(10));
    assert_eq!(retrieve_nlgo_set_isbn(&dict(), &book), Some("S".to_string()));
}

#[test]
fn normalize_request_without_sale_info() {
    let book = Book::builder().isbn("1".to_string()).title("Book".to_string()).build().unwrap();
    let r = convert_book_to_normalize_request(&book, &SiteMap::new());
    assert!(r.sale_info.is_none());
}

use book_batch_rust::batch::series::{
    belong_answer, belong_step, join_inserted_series, join_series, map_by_set_isbn, map_by_similarity, BelongStep,
    MostSimilarSeries, SeriesMappingResult,
};

fn plain_book(isbn: &str) -> Book {
    Book::builder().isbn(isbn.to_string()).title("t".to_string()).build().unwrap()
}

#[test]
fn mapping_by_set_isbn() {
    let r: Result<SeriesMappingResult<f64>, Book> = map_by_set_isbn(plain_book("1"), Some(series(9, Some("S"))));
    assert!(matches!(r, Ok(SeriesMappingResult::Exists(ref b, ref s)) if b.isbn() == "1" && s.id() == 9));
    let r: Result<SeriesMappingResult<f64>, Book> = map_by_set_isbn(plain_book("1"), None);
    assert_eq!(r.unwrap_err().isbn(), "1");
}

#[test]
fn mapping_by_similarity() {
    match map_by_similarity(plain_book("1"), series(0, None), Some((series(5, None), 0.95f64)), true) {
        SeriesMappingResult::Exists(_, s) => assert_eq!(s.id(), 5),
        other => panic!("unexpected {:?}", other),
    }
    match map_by_similarity(plain_book("1"), series(0, None), Some((series(5, None), 0.5f64)), false) {
        SeriesMappingResult::New(_, _, Some(m)) => {
            assert_eq!(m.series.id(), 5);
            assert_eq!(m.score, 0.5);
        }
        other => panic!("unexpected {:?}", other),
    }
    assert!(matches!(
        map_by_similarity::<f64>(plain_book("1"), series(0, None), None, true),
        SeriesMappingResult::New(_, _, None)
    ));
}

#[test]
fn belonging_is_asked_only_above_the_threshold() {
    let m = MostSimilarSeries { series: series(5, None), score: 0.6f64 };
    let item = SeriesMappingResult::New(plain_book("1"), series(0, None), Some(m));
    match belong_step(item, true) {
        BelongStep::Ask(b, _, m) => {
            assert_eq!(b.isbn(), "1");
            match belong_answer(b, series(0, None), m, true) {
                SeriesMappingResult::Exists(_, s) => assert_eq!(s.id(), 5),
                other => panic!("unexpected {:?}", other),
            }
        }
        other => panic!("unexpected {:?}", other),
    }
    let m = MostSimilarSeries { series: series(5, None), score: 0.1f64 };
    let item = SeriesMappingResult::New(plain_book("1"), series(0, None), Some(m));
    assert!(matches!(belong_step(item, false), BelongStep::Done(SeriesMappingResult::New(_, _, Some(_)))));
    let item: SeriesMappingResult<f64> = SeriesMappingResult::Exists(plain_book("1"), series(3, None));
    assert!(matches!(belong_step(item, true), BelongStep::Done(SeriesMappingResult::Exists(_, _))));
    let m = MostSimilarSeries { series: series(5, None), score: 0.6f64 };
    assert!(matches!(belong_answer(plain_book("1"), series(0, None), m, false), SeriesMappingResult::New(_, _, Some(_))));
}

#[test]
fn joining_series_sets_the_series_id() {
    assert_eq!(join_series(plain_book("1"), &series(4, None)).series_id(), Some(4));
    let r = join_inserted_series::<f64>(plain_book("1"), series(0, None), Some(series(8, None))).unwrap();
    assert_eq!(r.series_id(), Some(8));
    let e = join_inserted_series::<f64>(plain_book("1"), series(0, None), None).unwrap_err();
    assert_eq!(e.message(), "시리즈가 저장 되지 않았습니다.");
    assert_eq!(e.item().len(), 1);
}

#[test]
fn normalized_series_takes_the_set_isbn() {
    let book = Book::builder()
        .isbn("1".to_string())
        .title("Book".to_string())
        .add_original(Site::NLGO, obj(vec![("set_isbn", text("S"))]))
        .build()
        .unwrap();
    let s = normalized_series(&dict(), &book, "Norm".to_string(), vec![1, 2]);
    assert_eq!(s.id(), 0);
    assert_eq!(s.title(), &Some("Norm".to_string()));
    assert_eq!(s.isbn(), &Some("S".to_string()));
    assert_eq!(s.vec(), &Some(vec![1, 2]));
    let plain = Book::builder().isbn("2".to_string()).title("B".to_string()).build().unwrap();
    let s = normalized_series(&dict(), &plain, "B".to_string(), vec![]);
    assert_eq!(s.isbn(), &None);
}

#[test]
fn normalizing_failure_hands_the_book_back() {
    let book = Book::builder().isbn("1".to_string()).title("B".to_string()).build().unwrap();
    let f = normalize_failed(book, &SeriesProcessError::FailedTitleNormalize("down".to_string()));
    assert_eq!(f.item().as_ref().unwrap().isbn(), "1");
    assert_eq!(f.message(), "failed title normalize down");
}

#[test]
fn membership_prompt_failure_hands_the_mapping_back() {
    let book = Book::builder().isbn("1".to_string()).title("B".to_string()).build().unwrap();
    let most = MostSimilarSeries { series: series(3, None), score: 0.5f64 };
    let f = belong_failed(book, series(0, None), most, &book_batch_rust::prompt::Error::MissingRequiredParameter("new".to_string()));
    assert_eq!(f.message(), "Missing required parameter: new");
    match f.item() {
        Some(SeriesMappingResult::New(b, _, Some(m))) => {
            assert_eq!(b.isbn(), "1");
            assert_eq!(m.series.id(), 3);
        },
        _ => panic!("expected the new-series mapping"),
    }
}

#[test]
fn membership_request_holds_the_book_and_the_series_books() {
    let mut d = dict();
    d.insert(RawDataKind::Author, "author".to_string());
    let mut dicts = SiteMap::new();
    dicts.insert(Site::Naver, d);
    let book = Book::builder()
        .isbn("1".to_string())
        .title("New".to_string())
        .publisher_id(9)
        .add_original(Site::Naver, obj(vec![("author", text("Kim"))]))
        .build()
        .unwrap();
    let other = Book::builder().isbn("2".to_string()).title("Old".to_string()).publisher_id(9).build().unwrap();
    let info = convert_series_similar_request_book_info(&book, &dicts);
    assert_eq!(info.title, "New");
    assert_eq!(info.publisher, 9);
    assert_eq!(info.author, Some("Kim".to_string()));
    let req = series_similar_request(&book, &vec![other], &dicts);
    assert_eq!(req.new.author, Some("Kim".to_string()));
    assert_eq!(req.series.len(), 1);
    assert_eq!(req.series[0].title, "Old");
    assert_eq!(req.series[0].author, None);
    assert_eq!(SIMILAR_SERIES_CANDIDATES, 2);
}
