//! The ISBN book search API of the National Library of Korea.
use vstd::prelude::*;
use vstd::string::*;
use crate::date::{Date, format_date, formatted_compact_ymd, valid_date};
use crate::external::error::ClientError;
use crate::external::{encode_url, pairs_view, url_with_query};
use crate::text::{render_i64, signed_decimal};

verus! {

/// The address of the search.
pub const ISBN_SEARCH_ENDPOINT: &'static str = "https://www.nl.go.kr/seoji/SearchApi.do";

/// A book of an answer.
#[derive(Debug, Clone)]
pub struct Doc {
    pub title: String,
    pub ea_isbn: String,
    pub set_isbn: String,
    pub ea_add_code: String,
    pub set_add_code: String,
    pub series_no: String,
    pub set_expression: String,
    pub subject: String,
    pub publisher: String,
    pub author: String,
    pub real_publish_date: String,
    pub publish_predate: String,
    pub update_date: String,
}

/// An answer of the search: how many books match, the page and its books.
#[derive(Debug, Clone)]
pub struct Response {
    pub total_count: i32,
    pub page_no: i32,
    pub docs: Vec<Doc>,
}

/// A search: the page, its size, the publisher and the range of
/// publication dates.
#[derive(Debug)]
pub struct Request {
    page: i32,
    size: i32,
    publisher: String,
    start_pub_date: Date,
    end_pub_date: Date,
}

/// Builds a [`Request`]; the first page of 50 results unless set.
#[derive(Debug)]
pub struct RequestBuilder {
    page: i32,
    size: i32,
    publisher: Option<String>,
    start_pub_date: Option<Date>,
    end_pub_date: Option<Date>,
}

impl Request {
    #[verifier::type_invariant]
    closed spec fn dates_valid(self) -> bool {
        valid_date(self.start_pub_date) && valid_date(self.end_pub_date)
    }

    pub closed spec fn spec_page(&self) -> i32 {
        self.page
    }

    pub closed spec fn spec_size(&self) -> i32 {
        self.size
    }

    pub closed spec fn spec_publisher(&self) -> Seq<char> {
        self.publisher@
    }

    pub closed spec fn spec_start_pub_date(&self) -> Date {
        self.start_pub_date
    }

    pub closed spec fn spec_end_pub_date(&self) -> Date {
        self.end_pub_date
    }

    pub fn builder() -> (r: RequestBuilder)
        ensures
            r.spec_page() == 1,
            r.spec_size() == 50,
            r.spec_publisher() is None,
            r.spec_start_pub_date() is None,
            r.spec_end_pub_date() is None,
    {
        RequestBuilder { page: 1, size: 50, publisher: None, start_pub_date: None, end_pub_date: None }
    }

    pub fn page(&self) -> (r: i32)
        ensures
            r == self.spec_page(),
    {
        self.page
    }

    pub fn size(&self) -> (r: i32)
        ensures
            r == self.spec_size(),
    {
        self.size
    }

    pub fn publisher(&self) -> (r: &str)
        ensures
            r@ == self.spec_publisher(),
    {
        self.publisher.as_str()
    }

    pub fn start_pub_date(&self) -> (r: Date)
        ensures
            r == self.spec_start_pub_date(),
            valid_date(r),
    {
        proof {
            use_type_invariant(self);
        }
        self.start_pub_date
    }

    pub fn end_pub_date(&self) -> (r: Date)
        ensures
            r == self.spec_end_pub_date(),
            valid_date(r),
    {
        proof {
            use_type_invariant(self);
        }
        self.end_pub_date
    }
}

/// A date that is set is a valid one.
pub open spec fn valid_if_set(d: Option<Date>) -> bool {
    match d {
        Some(x) => valid_date(x),
        None => true,
    }
}

impl RequestBuilder {
    #[verifier::type_invariant]
    closed spec fn dates_valid(self) -> bool {
        valid_if_set(self.start_pub_date) && valid_if_set(self.end_pub_date)
    }

    pub closed spec fn spec_page(&self) -> i32 {
        self.page
    }

    pub closed spec fn spec_size(&self) -> i32 {
        self.size
    }

    pub closed spec fn spec_publisher(&self) -> Option<Seq<char>> {
        crate::item::text_of(self.publisher)
    }

    pub closed spec fn spec_start_pub_date(&self) -> Option<Date> {
        self.start_pub_date
    }

    pub closed spec fn spec_end_pub_date(&self) -> Option<Date> {
        self.end_pub_date
    }

    pub fn page(self, page: i32) -> (r: Self)
        ensures
            r.spec_page() == page,
            r.spec_size() == self.spec_size(),
            r.spec_publisher() == self.spec_publisher(),
            r.spec_start_pub_date() == self.spec_start_pub_date(),
            r.spec_end_pub_date() == self.spec_end_pub_date(),
    {
        proof {
            use_type_invariant(&self);
        }
        RequestBuilder { page, ..self }
    }

    pub fn size(self, size: i32) -> (r: Self)
        ensures
            r.spec_page() == self.spec_page(),
            r.spec_size() == size,
            r.spec_publisher() == self.spec_publisher(),
            r.spec_start_pub_date() == self.spec_start_pub_date(),
            r.spec_end_pub_date() == self.spec_end_pub_date(),
    {
        proof {
            use_type_invariant(&self);
        }
        RequestBuilder { size, ..self }
    }

    pub fn publisher(self, publisher: String) -> (r: Self)
        ensures
            r.spec_page() == self.spec_page(),
            r.spec_size() == self.spec_size(),
            r.spec_publisher() == Some(publisher@),
            r.spec_start_pub_date() == self.spec_start_pub_date(),
            r.spec_end_pub_date() == self.spec_end_pub_date(),
    {
        proof {
            use_type_invariant(&self);
        }
        RequestBuilder { publisher: Some(publisher), ..self }
    }

    /// Sets the first date; a date of the calendar, as chrono's dates are.
    pub fn start_pub_date(self, date: Date) -> (r: Self)
        requires
            valid_date(date),
        ensures
            r.spec_page() == self.spec_page(),
            r.spec_size() == self.spec_size(),
            r.spec_publisher() == self.spec_publisher(),
            r.spec_start_pub_date() == Some(date),
            r.spec_end_pub_date() == self.spec_end_pub_date(),
    {
        proof {
            use_type_invariant(&self);
        }
        RequestBuilder { start_pub_date: Some(date), ..self }
    }

    /// Sets the last date; a date of the calendar, as chrono's dates are.
    pub fn end_pub_date(self, date: Date) -> (r: Self)
        requires
            valid_date(date),
        ensures
            r.spec_page() == self.spec_page(),
            r.spec_size() == self.spec_size(),
            r.spec_publisher() == self.spec_publisher(),
            r.spec_start_pub_date() == self.spec_start_pub_date(),
            r.spec_end_pub_date() == Some(date),
    {
        proof {
            use_type_invariant(&self);
        }
        RequestBuilder { end_pub_date: Some(date), ..self }
    }

    /// The request; the publisher and both dates are required, and the first
    /// one missing is reported.
    pub fn build(self) -> (r: Result<Request, &'static str>)
        ensures
            self.spec_publisher() is None ==> r == Err::<Request, &'static str>("출판사는 반드시 입력 되어야 합니다."),
            self.spec_publisher() is Some && self.spec_start_pub_date() is None
                ==> r == Err::<Request, &'static str>("출판 시작일은 반드시 입력 되어야 합니다."),
            self.spec_publisher() is Some && self.spec_start_pub_date() is Some && self.spec_end_pub_date() is None
                ==> r == Err::<Request, &'static str>("출판 종료일은 반드시 입력 되어야 합니다."),
            self.spec_publisher() is Some && self.spec_start_pub_date() is Some && self.spec_end_pub_date() is Some
                ==> (r matches Ok(req) && req.spec_page() == self.spec_page() && req.spec_size() == self.spec_size()
                && Some(req.spec_publisher()) == self.spec_publisher()
                && Some(req.spec_start_pub_date()) == self.spec_start_pub_date()
                && Some(req.spec_end_pub_date()) == self.spec_end_pub_date()),
    {
        proof {
            use_type_invariant(&self);
        }
        let page = self.page;
        let size = self.size;
        let start = self.start_pub_date;
        let end = self.end_pub_date;
        let publisher = match self.publisher {
            Some(p) => p,
            None => return Err("출판사는 반드시 입력 되어야 합니다."),
        };
        let start_pub_date = match start {
            Some(d) => d,
            None => return Err("출판 시작일은 반드시 입력 되어야 합니다."),
        };
        let end_pub_date = match end {
            Some(d) => d,
            None => return Err("출판 종료일은 반드시 입력 되어야 합니다."),
        };
        Ok(Request { page, size, publisher, start_pub_date, end_pub_date })
    }
}

/// The API client: its key.
#[derive(Debug, Clone)]
pub struct Client {
    key: String,
}

/// The query of a search: the key, the range of dates written `%Y%m%d`, the
/// publisher, the page and its size, and the fixed settings of a JSON answer
/// ordered by publisher.
pub open spec fn search_query_spec(
    key: Seq<char>,
    from: Date,
    to: Date,
    publisher: Seq<char>,
    page: int,
    size: int,
) -> Seq<(Seq<char>, Seq<char>)> {
    seq![
        ("cert_key"@, key),
        ("start_publish_date"@, formatted_compact_ymd(from.year, from.month, from.day)),
        ("end_publish_date"@, formatted_compact_ymd(to.year, to.month, to.day)),
        ("publisher"@, publisher),
        ("result_style"@, "json"@),
        ("page_no"@, signed_decimal(page)),
        ("page_size"@, signed_decimal(size)),
        ("sort"@, "INDEX_PUBLISHER"@),
        ("order_by"@, "ASC"@),
    ]
}

fn pair(k: &str, v: String) -> (r: (String, String))
    ensures
        r.0@ == k@,
        r.1@ == v@,
{
    (k.to_owned(), v)
}

impl Client {
    pub closed spec fn spec_key(&self) -> Seq<char> {
        self.key@
    }

    pub fn new(key: String) -> (r: Client)
        ensures
            r.spec_key() == key@,
    {
        Client { key }
    }

    /// The query parameters of a search, in order.
    pub fn search_query(&self, request: &Request) -> (r: Vec<(String, String)>)
        ensures
            pairs_view(r@) == search_query_spec(
                self.spec_key(),
                request.spec_start_pub_date(),
                request.spec_end_pub_date(),
                request.spec_publisher(),
                request.spec_page() as int,
                request.spec_size() as int,
            ),
    {
        let from_date = request.start_pub_date();
        let to_date = request.end_pub_date();
        let from = format_date(from_date, "%Y%m%d");
        let to = format_date(to_date, "%Y%m%d");
        let mut v: Vec<(String, String)> = Vec::new();
        v.push(pair("cert_key", self.key.clone()));
        v.push(pair("start_publish_date", from));
        v.push(pair("end_publish_date", to));
        v.push(pair("publisher", request.publisher.clone()));
        v.push(pair("result_style", "json".to_owned()));
        v.push(pair("page_no", render_i64(request.page as i64)));
        v.push(pair("page_size", render_i64(request.size as i64)));
        v.push(pair("sort", "INDEX_PUBLISHER".to_owned()));
        v.push(pair("order_by", "ASC".to_owned()));
        assert(pairs_view(v@) =~= search_query_spec(
            self.spec_key(),
            request.spec_start_pub_date(),
            request.spec_end_pub_date(),
            request.spec_publisher(),
            request.spec_page() as int,
            request.spec_size() as int,
        ));
        v
    }

    /// The address of a search: the endpoint with the search's query.
    pub fn build_search_url(&self, request: &Request) -> (r: Result<String, ClientError>)
        ensures
            match url_with_query(
                ISBN_SEARCH_ENDPOINT@,
                search_query_spec(
                    self.spec_key(),
                    request.spec_start_pub_date(),
                    request.spec_end_pub_date(),
                    request.spec_publisher(),
                    request.spec_page() as int,
                    request.spec_size() as int,
                ),
            ) {
                Some(u) => r matches Ok(s) && s@ == u,
                None => r == Err::<String, ClientError>(ClientError::InvalidBaseUrl),
            },
    {
        let pairs = self.search_query(request);
        match encode_url(ISBN_SEARCH_ENDPOINT, &pairs) {
            Some(u) => Ok(u),
            None => Err(ClientError::InvalidBaseUrl),
        }
    }
}

} // verus!
