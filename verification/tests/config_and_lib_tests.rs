use book_batch_rust::config::api::{Config as ApiConfig, Credentials, API};
use book_batch_rust::config::chrome::Config as ChromeConfig;
use book_batch_rust::config::db::{database_url as db_url, Config as DbConfig};
use book_batch_rust::config::logger::{logging_plan, parse_level, parse_rotation, Config as LogConfig, LogLevel, Rotation};
use book_batch_rust::config::{database_url, postgres_url, AppConfig, Config, Database};
use book_batch_rust::date::{default_dates, default_from_date, default_to_date, Date};
use book_batch_rust::prompt::bridge::{request_url, try_request_url, BridgeClient, BridgeServer, EmbeddingRequest};
use book_batch_rust::prompt::{Error, NormalizeRequest, NormalizeRequestSaleInfo};
use book_batch_rust::text::{int_error_message, parse_integer_str, render_i64, render_u64, split_str, trim_str};
use book_batch_rust::{command_to_parameter, Argument, JobName};

#[test]
fn database_urls() {
    let db = Database::new("localhost".to_string(), 5432, "u".to_string(), "p".to_string(), "books".to_string());
    assert_eq!(database_url(&db), "postgres://u:p@localhost:5432/books");
    assert_eq!(db.host(), "localhost");
    assert_eq!(db.port(), 5432);
    assert_eq!(db.username(), "u");
    assert_eq!(db.password(), "p");
    assert_eq!(db.dbname(), "books");
    let app = AppConfig::new(db);
    assert_eq!(app.db().port(), 5432);
    let c = DbConfig::new("h".to_string(), -1, "a".to_string(), "b".to_string(), "d".to_string());
    assert_eq!(db_url(&c), "postgres://a:b@h:-1/d");
    assert_eq!(postgres_url("x", "y", "z", 1, "w"), "postgres://x:y@z:1/w");
}

#[test]
fn credentials_and_api_settings() {
    let nlgo = Credentials::new("k".to_string(), None);
    let aladin = Credentials::new("k2".to_string(), Some("s".to_string()));
    assert_eq!(nlgo.key(), "k");
    assert_eq!(nlgo.secret(), None);
    assert_eq!(aladin.secret(), Some("s"));
    let api = API::new(nlgo.clone(), aladin.clone());
    assert_eq!(api.nlgo().key(), "k");
    assert_eq!(api.aladin().key(), "k2");
    let all = ApiConfig::new(nlgo.clone(), aladin.clone(), Credentials::new("n".to_string(), None), Credentials::new("y".to_string(), None));
    assert_eq!(all.naver().key(), "n");
    assert_eq!(all.kyobo().key(), "y");
    let chrome = ChromeConfig::new("http://c".to_string());
    assert_eq!(chrome.server_url(), "http://c");
    let log = LogConfig { dir: "d".to_string(), name: "n".to_string(), keep: None, level: None, rotation: None };
    let cfg = Config::new(DbConfig::new("h".to_string(), 1, "a".to_string(), "b".to_string(), "d".to_string()), all, chrome, log);
    assert_eq!(cfg.chromedriver().server_url(), "http://c");
    assert_eq!(cfg.api().nlgo().key(), "k");
    assert_eq!(cfg.logger().dir, "d");
    assert_eq!(db_url(cfg.db()), "postgres://a:b@h:1/d");
}

#[test]
fn logging_settings() {
    assert_eq!(parse_level("WARN"), Some(LogLevel::WARN));
    assert_eq!(parse_level("warn"), None);
    assert_eq!(parse_rotation("DALY"), Some(Rotation::DAILY));
    assert_eq!(parse_rotation("NEVER"), Some(Rotation::NEVER));
    assert_eq!(parse_rotation("NAVER"), None);
    assert_eq!(parse_rotation("DAILY"), None);
    let c = LogConfig { dir: "logs".to_string(), name: "batch".to_string(), keep: Some(3), level: None, rotation: None };
    let p = logging_plan(&c).unwrap();
    assert_eq!(p.level, LogLevel::DEBUG);
    assert_eq!(p.rotation, Rotation::DAILY);
    assert_eq!(p.keep, Some(3));
    assert_eq!(p.dir, "logs");
    let c = LogConfig { dir: "logs".to_string(), name: "batch".to_string(), keep: None, level: Some("ERROR".to_string()), rotation: Some("HOURLY".to_string()) };
    let p = logging_plan(&c).unwrap();
    assert_eq!(p.level, LogLevel::ERROR);
    assert_eq!(p.rotation, Rotation::HOURLY);
    let c = LogConfig { dir: "logs".to_string(), name: "batch".to_string(), keep: None, level: Some("LOUD".to_string()), rotation: None };
    assert!(logging_plan(&c).is_none());
}

#[test]
fn job_names_ignore_case() {
    assert_eq!(JobName::parse("nlgo"), Some(JobName::NLGO));
    assert_eq!(JobName::parse("Series"), Some(JobName::SERIES));
    assert_eq!(JobName::parse("KYOBO"), Some(JobName::KYOBO));
    assert_eq!(JobName::parse("yes24"), None);
    let a = Argument { job: "Aladin".to_string(), from: None, to: None, publisher_id: None };
    assert_eq!(a.get_job(), JobName::ALADIN);
    assert_eq!(a.job_name(), Some(JobName::ALADIN));
    let a = Argument { job: "other".to_string(), from: None, to: None, publisher_id: None };
    assert_eq!(a.job_name(), None);
}

#[test]
fn command_line_parameters() {
    let from = Date { year: 2025, month: 1, day: 31 };
    let to = Date { year: 2025, month: 3, day: 1 };
    let df = Date { year: 2024, month: 12, day: 2 };
    let dt = Date { year: 2025, month: 6, day: 9 };
    let (job, p) = command_to_parameter(JobName::NLGO, Some(from), None, &Some(vec![20050726, 20110708]), df, dt);
    assert_eq!(job, JobName::NLGO);
    assert_eq!(p.get("from"), Some(&"2025-01-31".to_string()));
    assert_eq!(p.get("to"), Some(&"2025-06-09".to_string()));
    assert_eq!(p.get("publisher_id"), Some(&"20050726,20110708".to_string()));
    let (_, p) = command_to_parameter(JobName::SERIES, None, Some(to), &None, df, dt);
    assert_eq!(p.get("from"), Some(&"2024-12-02".to_string()));
    assert_eq!(p.get("to"), Some(&"2025-03-01".to_string()));
    assert_eq!(p.get("publisher_id"), None);
    assert_eq!(p.len(), 2);
}

#[test]
fn prompt_requests() {
    assert_eq!(Error::MissingRequiredParameter("title".to_string()).to_string(), "Missing required parameter: title");
    let r = NormalizeRequest::new("t");
    assert_eq!(r.title, "t");
    assert!(r.sale_info.is_none());
    let s = NormalizeRequestSaleInfo::new("N", "x");
    assert_eq!(s.site, "N");
    assert!(s.price.is_none() && s.desc.is_none() && s.series.is_none());
    let e = EmbeddingRequest::new(&["a".to_string(), "b".to_string()]);
    assert_eq!(e.text, vec!["a".to_string(), "b".to_string()]);
}

#[test]
fn bridge_settings() {
    let s = BridgeServer::from_settings(None, None, None, None, None).unwrap();
    assert_eq!(s.host, "http://localhost:5000");
    assert_eq!(s.timeout, 30000);
    assert_eq!(s.normalize_endpoint, "/normalize");
    assert_eq!(s.embedding_endpoint, "/embedding");
    assert_eq!(s.series_similar_endpoint, "/series-similar");
    let s = BridgeServer::from_settings(Some("http://h".to_string()), Some("10".to_string()), None, None, None).unwrap();
    assert_eq!(s.host, "http://h");
    assert_eq!(s.timeout, 10);
    assert!(BridgeServer::from_settings(None, Some("ten".to_string()), None, None, None).is_none());
    assert_eq!(request_url("http://localhost:5000", "/normalize"), "http://localhost:5000/normalize");
    assert_eq!(request_url("http://h", "embedding"), "http://h/embedding");
    assert_eq!(try_request_url("http://h", "/series-similar"), Some("http://h/series-similar".to_string()));
    assert_eq!(try_request_url("not an address", "/x"), None);
    let c = BridgeClient::new(s);
    assert_eq!(c.server.timeout, 10);
}

#[test]
fn text_helpers() {
    assert_eq!(trim_str("  a b \t"), "a b");
    assert_eq!(split_str("1, 2,,3", ','), vec!["1", " 2", "", "3"]);
    assert_eq!(split_str("", ','), vec![""]);
    assert_eq!(parse_integer_str("+12", 0, 100), Ok(12));
    assert_eq!(parse_integer_str("-12", -100, 100), Ok(-12));
    assert_eq!(parse_integer_str("", 0, 100), Err(std::num::IntErrorKind::Empty));
    assert_eq!(parse_integer_str("-", -100, 100), Err(std::num::IntErrorKind::InvalidDigit));
    assert_eq!(parse_integer_str("101", 0, 100), Err(std::num::IntErrorKind::PosOverflow));
    assert_eq!(parse_integer_str("-101", -100, 100), Err(std::num::IntErrorKind::NegOverflow));
    assert_eq!(parse_integer_str("-1", 0, 100), Err(std::num::IntErrorKind::InvalidDigit));
    assert_eq!(int_error_message(&std::num::IntErrorKind::PosOverflow), "number too large to fit in target type");
    assert_eq!(render_u64(0), "0");
    assert_eq!(render_u64(18446744073709551615), "18446744073709551615");
    assert_eq!(render_i64(-9223372036854775808), "-9223372036854775808");
}

#[test]
fn std_parse_agrees_with_integer_reading() {
    for s in ["0", "+7", "-7", "", "+", "12a", "99999999999999999999", " 1"] {
        let ours = parse_integer_str(s, 0, u64::MAX as i128).map(|v| v as u64);
        let std = s.parse::<u64>().map_err(|e| e.kind().clone());
        assert_eq!(ours, std, "{}", s);
    }
}

#[test]
fn default_dates_are_thirty_days_before_and_sixty_after() {
    let today = Date::new(2025, 3, 1);
    assert_eq!(default_from_date(today), Date::new(2025, 1, 30));
    assert_eq!(default_to_date(today), Date::new(2025, 4, 30));
    assert_eq!(default_dates(today), Some((Date::new(2025, 1, 30), Date::new(2025, 4, 30))));
    assert_eq!(default_dates(Date::new(2024, 12, 31)), Some((Date::new(2024, 12, 1), Date::new(2025, 3, 1))));
}
