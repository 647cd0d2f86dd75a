//! Errors of batch jobs.
use vstd::prelude::*;
use vstd::string::*;

verus! {

/// Why a job stopped.
#[derive(Debug)]
pub enum JobRuntimeError<I, O> {
    ReadFailed(JobReadFailed),
    ProcessFailed(JobProcessFailed<I>),
    WriteFailed(JobWriteFailed<O>),
}

/// Why a job could not be built.
#[derive(Debug, Clone, PartialEq, Eq)]
pub enum JobBuildError {
    MissingRequireParameter(String),
}

/// Why reading the items of a job failed.
#[derive(Debug, Clone, PartialEq, Eq)]
pub enum JobReadFailed {
    EmptyData(String),
    InvalidArguments(String),
    UnknownError(String),
}

/// The message a read failure is displayed as.
pub open spec fn read_failed_display(e: JobReadFailed) -> Seq<char> {
    match e {
        JobReadFailed::EmptyData(m) => "Empty data, "@ + m@,
        JobReadFailed::InvalidArguments(m) => "Invalid arguments, "@ + m@,
        JobReadFailed::UnknownError(m) => "Unknown, "@ + m@,
    }
}

impl JobReadFailed {
    /// The message of the failure.
    pub fn to_string(&self) -> (r: String)
        ensures
            r@ == read_failed_display(*self),
    {
        proof {
            reveal_strlit("Empty data, ");
            reveal_strlit("Invalid arguments, ");
            reveal_strlit("Unknown, ");
        }
        let (mut m, s) = match self {
            JobReadFailed::EmptyData(s) => ("Empty data, ".to_owned(), s),
            JobReadFailed::InvalidArguments(s) => ("Invalid arguments, ".to_owned(), s),
            JobReadFailed::UnknownError(s) => ("Unknown, ".to_owned(), s),
        };
        m.append(s.as_str());
        m
    }
}

/// Processing an item failed; the item comes back when it could be kept.
#[derive(Debug)]
pub struct JobProcessFailed<I> {
    pub item: Option<I>,
    pub message: String,
}

impl<I> JobProcessFailed<I> {
    pub fn new(item: I, message: String) -> (r: Self)
        ensures
            r.item == Some(item),
            r.message == message,
    {
        JobProcessFailed { item: Some(item), message }
    }

    /// A failure that holds no item.
    pub fn new_empty(message: String) -> (r: Self)
        ensures
            r.item is None,
            r.message == message,
    {
        JobProcessFailed { item: None, message }
    }

    pub fn item(&self) -> (r: &Option<I>)
        ensures
            *r == self.item,
    {
        &self.item
    }

    pub fn message(&self) -> (r: &str)
        ensures
            r@ == self.message@,
    {
        self.message.as_str()
    }

    /// The message, which is what the failure is displayed as.
    pub fn to_string(&self) -> (r: String)
        ensures
            r@ == self.message@,
    {
        self.message.clone()
    }
}

/// Writing items failed; the items that were not written come back.
#[derive(Debug)]
pub struct JobWriteFailed<O> {
    pub item: Vec<O>,
    pub message: String,
}

impl<O> JobWriteFailed<O> {
    pub fn new(item: Vec<O>, message: &str) -> (r: Self)
        ensures
            r.item == item,
            r.message@ == message@,
    {
        JobWriteFailed { item, message: message.to_owned() }
    }

    pub fn item(&self) -> (r: &Vec<O>)
        ensures
            *r == self.item,
    {
        &self.item
    }

    pub fn message(&self) -> (r: &str)
        ensures
            r@ == self.message@,
    {
        self.message.as_str()
    }

    /// The message, which is what the failure is displayed as.
    pub fn to_string(&self) -> (r: String)
        ensures
            r@ == self.message@,
    {
        self.message.clone()
    }
}

} // verus!
