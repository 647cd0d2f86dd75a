//! Requests and answers of the prompts that normalise book titles.
use vstd::prelude::*;
use vstd::string::*;

pub mod bridge;

verus! {

/// Errors of a prompt.
#[derive(Debug, Clone, PartialEq, Eq)]
pub enum Error {
    MissingRequiredParameter(String),
}

/// The message of a prompt error.
pub open spec fn prompt_error_message(e: Error) -> Seq<char> {
    match e {
        Error::MissingRequiredParameter(s) => "Missing required parameter: "@ + s@,
    }
}

impl Error {
    /// The message of the error.
    pub fn to_string(&self) -> (r: String)
        ensures
            self matches Error::MissingRequiredParameter(s) && r@ == "Missing required parameter: "@ + s@,
            r@ == prompt_error_message(*self),
    {
        proof {
            reveal_strlit("Missing required parameter: ");
        }
        match self {
            Error::MissingRequiredParameter(s) => {
                let mut m = "Missing required parameter: ".to_owned();
                m.append(s.as_str());
                m
            },
        }
    }
}

/// The answer of the title normalisation prompt.
#[derive(Debug, Clone)]
pub struct Normalized {
    /// The title as it was given.
    pub original: String,
    /// The title with what does not belong to it removed.
    pub title: String,
    /// What was removed, and why.
    pub reason: String,
}

/// What one site sells a book as; the prompt uses it to normalise the
/// title more precisely.
#[derive(Debug, Clone)]
pub struct NormalizeRequestSaleInfo {
    /// The site, best written short.
    pub site: String,
    /// The product name at the site.
    pub title: String,
    /// The sale price at the site.
    pub price: Option<usize>,
    /// The publisher's description of the book.
    pub desc: Option<String>,
    /// The titles of the other books of the series.
    pub series: Option<Vec<String>>,
}

impl NormalizeRequestSaleInfo {
    /// Sale information with only the site and the title.
    pub fn new(site: &str, title: &str) -> (r: Self)
        ensures
            r.site@ == site@,
            r.title@ == title@,
            r.price is None,
            r.desc is None,
            r.series is None,
    {
        NormalizeRequestSaleInfo {
            site: site.to_owned(),
            title: title.to_owned(),
            price: None,
            desc: None,
            series: None,
        }
    }
}

/// What the series-membership prompt is told of a book: its title, its
/// publisher and, where its data names one, its author.
#[derive(Debug, Clone)]
pub struct SeriesSimilarRequestBookInfo {
    pub title: String,
    pub publisher: u64,
    pub author: Option<String>,
}

/// A request to tell whether a new book belongs to a series: the new book
/// and the books of the series.
#[derive(Debug, Clone)]
pub struct SeriesSimilarRequest {
    pub new: SeriesSimilarRequestBookInfo,
    pub series: Vec<SeriesSimilarRequestBookInfo>,
}

/// A request to normalise a book title.
#[derive(Debug, Clone)]
pub struct NormalizeRequest {
    /// The title to normalise.
    pub title: String,
    /// What each site sells the book as.
    pub sale_info: Option<Vec<NormalizeRequestSaleInfo>>,
}

impl NormalizeRequest {
    /// A request with the title alone.
    pub fn new(title: &str) -> (r: Self)
        ensures
            r.title@ == title@,
            r.sale_info is None,
    {
        NormalizeRequest { title: title.to_owned(), sale_info: None }
    }
}

} // verus!
