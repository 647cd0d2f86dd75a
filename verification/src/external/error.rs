//! Errors of the API clients.
use vstd::prelude::*;
use vstd::string::*;

verus! {

/// Why calling an API failed.
#[derive(Debug, Clone, PartialEq, Eq)]
pub enum ClientError {
    InvalidBaseUrl,
    RequestFailed(String),
    ResponseTextExtractionFailed(String),
    ResponseParseFailed(String),
}

/// Why a request could not be made.
#[derive(Debug, Clone, PartialEq, Eq)]
pub enum RequestError {
    /// A required parameter is missing.
    MissingRequiredParameter(String),
    /// A parameter is not valid.
    InvalidParameter(String),
}

impl RequestError {
    /// The message of the error.
    pub fn to_string(&self) -> (r: String)
        ensures
            self matches RequestError::MissingRequiredParameter(p) ==> r@ == "필수 매개변수가 누락되었습니다: "@ + p@,
            self matches RequestError::InvalidParameter(d) ==> r@ == "유효하지 않은 매개변수: "@ + d@,
    {
        proof {
            reveal_strlit("필수 매개변수가 누락되었습니다: ");
            reveal_strlit("유효하지 않은 매개변수: ");
        }
        let (mut m, s) = match self {
            RequestError::MissingRequiredParameter(p) => ("필수 매개변수가 누락되었습니다: ".to_owned(), p),
            RequestError::InvalidParameter(d) => ("유효하지 않은 매개변수: ".to_owned(), d),
        };
        m.append(s.as_str());
        m
    }
}

} // verus!
