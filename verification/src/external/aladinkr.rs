//! The Aladin book search API.
use vstd::prelude::*;
use vstd::string::*;
use crate::external::error::{ClientError, RequestError};
use crate::external::{encode_url, pairs_view, url_with_query};
use crate::text::{render_i64, signed_decimal, trim, trim_str};

verus! {

/// The address of the search.
pub const ALADIN_API_ENDPOINT: &'static str = "https://www.aladin.co.kr/ttb/api/ItemSearch.aspx";

/// An answer of the search API.
#[derive(Debug, Clone)]
pub struct AladinResponse {
    pub version: String,
    pub title: String,
    pub link: String,
    pub pub_date: String,
    pub total_results: i32,
    pub start_index: i32,
    pub items_per_page: i32,
    pub query: String,
    pub search_category_id: i32,
    pub search_category_name: String,
    pub items: Vec<BookItem>,
}

/// A book of an answer.
#[derive(Debug, Clone)]
pub struct BookItem {
    pub title: String,
    pub link: String,
    pub author: String,
    pub pub_date: String,
    pub description: String,
    pub isbn: String,
    pub isbn13: String,
    pub item_id: i64,
    pub price_sales: i32,
    pub price_standard: i32,
    pub publisher: String,
}

/// A search: the publisher searched, the first result and how many results.
#[derive(Debug, Clone)]
pub struct Request {
    query: String,
    start: i32,
    max_results: i32,
}

/// Builds a [`Request`]; the search starts at 1 and asks 10 results unless set.
#[derive(Debug, Clone)]
pub struct RequestBuilder {
    query: Option<String>,
    start: i32,
    max_results: i32,
}

impl Request {
    pub closed spec fn spec_query(&self) -> Seq<char> {
        self.query@
    }

    pub closed spec fn spec_start(&self) -> i32 {
        self.start
    }

    pub closed spec fn spec_max_results(&self) -> i32 {
        self.max_results
    }

    pub fn builder() -> (r: RequestBuilder)
        ensures
            r.spec_query() is None,
            r.spec_start() == 1,
            r.spec_max_results() == 10,
    {
        RequestBuilder { query: None, start: 1, max_results: 10 }
    }

    pub fn query(&self) -> (r: &str)
        ensures
            r@ == self.spec_query(),
    {
        self.query.as_str()
    }

    pub fn start(&self) -> (r: i32)
        ensures
            r == self.spec_start(),
    {
        self.start
    }

    pub fn max_results(&self) -> (r: i32)
        ensures
            r == self.spec_max_results(),
    {
        self.max_results
    }
}

impl RequestBuilder {
    pub closed spec fn spec_query(&self) -> Option<Seq<char>> {
        crate::item::text_of(self.query)
    }

    pub closed spec fn spec_start(&self) -> i32 {
        self.start
    }

    pub closed spec fn spec_max_results(&self) -> i32 {
        self.max_results
    }

    pub fn query(self, query: String) -> (r: Self)
        ensures
            r.spec_query() == Some(query@),
            r.spec_start() == self.spec_start(),
            r.spec_max_results() == self.spec_max_results(),
    {
        RequestBuilder { query: Some(query), ..self }
    }

    pub fn start(self, start: i32) -> (r: Self)
        ensures
            r.spec_query() == self.spec_query(),
            r.spec_start() == start,
            r.spec_max_results() == self.spec_max_results(),
    {
        RequestBuilder { start, ..self }
    }

    pub fn max_results(self, max_results: i32) -> (r: Self)
        ensures
            r.spec_query() == self.spec_query(),
            r.spec_start() == self.spec_start(),
            r.spec_max_results() == max_results,
    {
        RequestBuilder { max_results, ..self }
    }

    /// The request; the query is required and must not be blank.
    pub fn build(self) -> (r: Result<Request, RequestError>)
        ensures
            self.spec_query() is None ==> (r matches Err(RequestError::MissingRequiredParameter(p)) && p@ == "query"@),
            self.spec_query() matches Some(q) ==> (trim(q).len() == 0 ==> (r matches Err(RequestError::InvalidParameter(m))
                && m@ == "검색어는 비어있을 수 없습니다"@)),
            self.spec_query() matches Some(q) ==> (trim(q).len() > 0 ==> (r matches Ok(req) && req.spec_query() == q
                && req.spec_start() == self.spec_start() && req.spec_max_results() == self.spec_max_results())),
    {
        proof {
            reveal_strlit("query");
            reveal_strlit("검색어는 비어있을 수 없습니다");
        }
        let query = match self.query {
            Some(q) => q,
            None => return Err(RequestError::MissingRequiredParameter("query".to_owned())),
        };
        let trimmed = trim_str(query.as_str());
        if trimmed.as_str().is_empty() {
            return Err(RequestError::InvalidParameter("검색어는 비어있을 수 없습니다".to_owned()));
        }
        Ok(Request { query, start: self.start, max_results: self.max_results })
    }
}

/// The Aladin API client: its key.
#[derive(Debug, Clone)]
pub struct Client {
    ttb_key: String,
}

/// The query of a search: the key, the publisher, the first result and
/// the number of results, and the fixed settings of a publisher search of
/// books, newest first, answered in JSON.
pub open spec fn search_query_spec(key: Seq<char>, query: Seq<char>, start: int, max_results: int) -> Seq<(Seq<char>, Seq<char>)> {
    seq![
        ("ttbkey"@, key),
        ("Query"@, query),
        ("QueryType"@, "Publisher"@),
        ("start"@, signed_decimal(start)),
        ("MaxResults"@, signed_decimal(max_results)),
        ("SearchTarget"@, "Book"@),
        ("output"@, "js"@),
        ("Version"@, "20131101"@),
        ("Sort"@, "PublishTime"@),
    ]
}

fn pair(k: &str, v: String) -> (r: (String, String))
    ensures
        r.0@ == k@,
        r.1@ == v@,
{
    (k.to_owned(), v)
}

impl Client {
    pub closed spec fn spec_key(&self) -> Seq<char> {
        self.ttb_key@
    }

    pub fn new(ttb_key: String) -> (r: Client)
        ensures
            r.spec_key() == ttb_key@,
    {
        Client { ttb_key }
    }

    /// The query parameters of a search, in order.
    pub fn search_query(&self, request: &Request) -> (r: Vec<(String, String)>)
        ensures
            pairs_view(r@) == search_query_spec(
                self.spec_key(),
                request.spec_query(),
                request.spec_start() as int,
                request.spec_max_results() as int,
            ),
    {
        let mut v: Vec<(String, String)> = Vec::new();
        v.push(pair("ttbkey", self.ttb_key.clone()));
        v.push(pair("Query", request.query.clone()));
        v.push(pair("QueryType", "Publisher".to_owned()));
        v.push(pair("start", render_i64(request.start as i64)));
        v.push(pair("MaxResults", render_i64(request.max_results as i64)));
        v.push(pair("SearchTarget", "Book".to_owned()));
        v.push(pair("output", "js".to_owned()));
        v.push(pair("Version", "20131101".to_owned()));
        v.push(pair("Sort", "PublishTime".to_owned()));
        assert(pairs_view(v@) =~= search_query_spec(
            self.spec_key(),
            request.spec_query(),
            request.spec_start() as int,
            request.spec_max_results() as int,
        ));
        v
    }

    /// The address of a search: the endpoint with the search's query.
    pub fn build_search_url(&self, request: &Request) -> (r: Result<String, ClientError>)
        ensures
            match url_with_query(
                ALADIN_API_ENDPOINT@,
                search_query_spec(
                    self.spec_key(),
                    request.spec_query(),
                    request.spec_start() as int,
                    request.spec_max_results() as int,
                ),
            ) {
                Some(u) => r matches Ok(s) && s@ == u,
                None => r == Err::<String, ClientError>(ClientError::InvalidBaseUrl),
            },
    {
        let pairs = self.search_query(request);
        match encode_url(ALADIN_API_ENDPOINT, &pairs) {
            Some(u) => Ok(u),
            None => Err(ClientError::InvalidBaseUrl),
        }
    }
}

} // verus!
