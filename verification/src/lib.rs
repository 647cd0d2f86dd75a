//! Book data collection batch library: domain items, job pipeline pieces and
//! the rules that decide which books are kept, merged and written.
use vstd::prelude::*;
use vstd::string::*;
use crate::batch::JobParameter;
use crate::date::{Date, date_of, format_date, formatted_ymd, parse_date, parsed_ymd, valid_date};
use crate::text::{split, ascii_lowercase, decimal, is_ascii_text, lowercase_of, render_u64, str_eq, to_lowercase};

pub mod text;
pub mod dict;
pub mod date;
pub mod item;
pub mod prompt;
pub mod batch;
pub mod book;
pub mod config;
pub mod procedure;
pub mod external;

verus! {

/// Errors in the command line of the program.
#[derive(Debug, Clone, PartialEq, Eq, Hash)]
pub enum ArgumentError {
    InvalidArgument(String),
    InvalidCredentials(String),
}

/// The batch jobs the program runs.
#[derive(Debug, Clone, Copy, PartialEq, Eq, Hash, Structural)]
pub enum JobName {
    ALADIN,
    NAVER,
    NLGO,
    KYOBO,
    SERIES,
}

/// The job a lower-cased name names.
pub open spec fn job_of_name(lowered: Seq<char>) -> Option<JobName> {
    if lowered == "aladin"@ {
        Some(JobName::ALADIN)
    } else if lowered == "naver"@ {
        Some(JobName::NAVER)
    } else if lowered == "nlgo"@ {
        Some(JobName::NLGO)
    } else if lowered == "kyobo"@ {
        Some(JobName::KYOBO)
    } else if lowered == "series"@ {
        Some(JobName::SERIES)
    } else {
        None
    }
}

impl JobName {
    /// The job named by `lowered`, a lower-cased name.
    pub fn from_lowercase(lowered: &str) -> (r: Option<JobName>)
        ensures
            r == job_of_name(lowered@),
    {
        proof {
            reveal_strlit("aladin");
            reveal_strlit("naver");
            reveal_strlit("nlgo");
            reveal_strlit("kyobo");
            reveal_strlit("series");
        }
        if str_eq(lowered, "aladin") {
            Some(JobName::ALADIN)
        } else if str_eq(lowered, "naver") {
            Some(JobName::NAVER)
        } else if str_eq(lowered, "nlgo") {
            Some(JobName::NLGO)
        } else if str_eq(lowered, "kyobo") {
            Some(JobName::KYOBO)
        } else if str_eq(lowered, "series") {
            Some(JobName::SERIES)
        } else {
            None
        }
    }

    /// The job named by `s`, compared without regard to case.
    pub fn parse(s: &str) -> (r: Option<JobName>)
        ensures
            r == job_of_name(lowercase_of(s@)),
            is_ascii_text(s@) ==> r == job_of_name(ascii_lowercase(s@)),
    {
        let lowered = to_lowercase(s);
        JobName::from_lowercase(lowered.as_str())
    }
}

/// The command line of the program.
#[derive(Debug, Clone)]
pub struct Argument {
    /// The job to run (`NLGO`, `NAVER`, `ALADIN`, `KYOBO` or `SERIES`).
    pub job: String,
    /// The first publication date searched, `YYYY-MM-DD`.
    pub from: Option<String>,
    /// The last publication date searched, `YYYY-MM-DD`.
    pub to: Option<String>,
    /// The ids of the publishers searched.
    pub publisher_id: Option<Vec<usize>>,
}

impl Argument {
    /// The job the command line names; it must name one.
    pub fn get_job(&self) -> (r: JobName)
        requires
            job_of_name(lowercase_of(self.job@)) is Some,
        ensures
            Some(r) == job_of_name(lowercase_of(self.job@)),
    {
        match JobName::parse(self.job.as_str()) {
            Some(j) => j,
            None => JobName::SERIES,
        }
    }

    /// The first publication date of the command line, read as
    /// `YYYY-MM-DD`; a date that is given must read.
    pub fn get_from(&self) -> (r: Option<Date>)
        requires
            self.from matches Some(s) ==> parsed_ymd(s@) is Ok,
        ensures
            self.from is None ==> r is None,
            self.from matches Some(s) ==> (r matches Some(d) && date_of(parsed_ymd(s@)) == Ok::<Date, Seq<char>>(d)
                && valid_date(d)),
    {
        read_date(&self.from)
    }

    /// The last publication date of the command line, read as
    /// `YYYY-MM-DD`; a date that is given must read.
    pub fn get_to(&self) -> (r: Option<Date>)
        requires
            self.to matches Some(s) ==> parsed_ymd(s@) is Ok,
        ensures
            self.to is None ==> r is None,
            self.to matches Some(s) ==> (r matches Some(d) && date_of(parsed_ymd(s@)) == Ok::<Date, Seq<char>>(d)
                && valid_date(d)),
    {
        read_date(&self.to)
    }

    /// Both dates of the command line, or the message of why the first date
    /// given that does not read failed.
    pub fn dates(&self) -> (r: Result<(Option<Date>, Option<Date>), String>)
        ensures
            fails_to_read(self.from) ==> (r matches Err(m)
                && Err::<(i32, u32, u32), Seq<char>>(m@) == parsed_ymd(self.from->0@)),
            !fails_to_read(self.from) && fails_to_read(self.to) ==> (r matches Err(m)
                && Err::<(i32, u32, u32), Seq<char>>(m@) == parsed_ymd(self.to->0@)),
            !fails_to_read(self.from) && !fails_to_read(self.to) ==> (r matches Ok((f, t))
                && dates_read(self.from, f) && dates_read(self.to, t)),
    {
        if let Some(s) = &self.from {
            if let Err(m) = parse_date(s.as_str()) {
                return Err(m);
            }
        }
        if let Some(s) = &self.to {
            if let Err(m) = parse_date(s.as_str()) {
                return Err(m);
            }
        }
        Ok((self.get_from(), self.get_to()))
    }

    /// The job the command line names, if it names one.
    pub fn job_name(&self) -> (r: Option<JobName>)
        ensures
            r == job_of_name(lowercase_of(self.job@)),
    {
        match JobName::parse(self.job.as_str()) {
            Some(_) => Some(self.get_job()),
            None => None,
        }
    }
}

/// A command-line date is given and does not read.
pub open spec fn fails_to_read(given: Option<String>) -> bool {
    match given {
        Some(s) => parsed_ymd(s@) is Err,
        None => false,
    }
}

/// `d` is what a command-line date `given` reads as.
pub open spec fn dates_read(given: Option<String>, d: Option<Date>) -> bool {
    match given {
        Some(s) => d matches Some(x) && date_of(parsed_ymd(s@)) == Ok::<Date, Seq<char>>(x) && valid_date(x),
        None => d is None,
    }
}

fn read_date(given: &Option<String>) -> (r: Option<Date>)
    requires
        given matches Some(s) ==> parsed_ymd(s@) is Ok,
    ensures
        dates_read(*given, r),
{
    match given {
        Some(s) => match parse_date(s.as_str()) {
            Ok(d) => Some(d),
            Err(_) => None,
        },
        None => None,
    }
}

/// The ids joined with commas.
pub open spec fn joined_ids(ids: Seq<usize>) -> Seq<char>
    decreases ids.len(),
{
    if ids.len() == 0 {
        Seq::empty()
    } else if ids.len() == 1 {
        decimal(ids[0] as nat)
    } else {
        joined_ids(ids.drop_last()) + ","@ + decimal(ids.last() as nat)
    }
}

/// The joined ids split at commas give back each id's decimal text, in
/// order: exactly one comma stands between two consecutive ids.
pub proof fn lemma_joined_ids_split_back(ids: Seq<usize>)
    requires
        ids.len() > 0,
    ensures
        split(joined_ids(ids), ',') == ids.map_values(|id: usize| decimal(id as nat)),
    decreases ids.len(),
{
    reveal_strlit(",");
    let last = decimal(ids.last() as nat);
    crate::text::lemma_decimal_has_no_comma(ids.last() as nat);
    crate::text::lemma_split_without_sep(last, ',');
    if ids.len() == 1 {
        assert(seq![last] =~= ids.map_values(|id: usize| decimal(id as nat)));
    } else {
        lemma_joined_ids_split_back(ids.drop_last());
        assert(","@ =~= seq![',']);
        crate::text::lemma_split_joined(joined_ids(ids.drop_last()), last, ',');
        assert(ids.drop_last().map_values(|id: usize| decimal(id as nat)) + seq![last]
            =~= ids.map_values(|id: usize| decimal(id as nat)));
    }
}

fn join_ids(ids: &Vec<usize>) -> (r: String)
    ensures
        r@ == joined_ids(ids@),
{
    proof {
        reveal_strlit(",");
    }
    let mut s = String::new();
    let n = ids.len();
    let mut i: usize = 0;
    proof {
        assert(ids@.subrange(0, 0) =~= Seq::<usize>::empty());
    }
    while i < n
        invariant
            n == ids@.len(),
            i <= n,
            s@ == joined_ids(ids@.subrange(0, i as int)),
        decreases n - i,
    {
        proof {
            assert(ids@.subrange(0, i + 1).drop_last() =~= ids@.subrange(0, i as int));
        }
        if i > 0 {
            s.append(",");
        }
        let d = render_u64(ids[i] as u64);
        s.append(d.as_str());
        i = i + 1;
    }
    proof {
        assert(ids@.subrange(0, n as int) =~= ids@);
    }
    s
}

/// The parameters of a job run from the command line: `from` and `to` as
/// `%Y-%m-%d`, the given dates or else the defaults, and `publisher_id`
/// with the publisher ids joined by commas when there are any.
pub fn command_to_parameter(
    job: JobName,
    from: Option<Date>,
    to: Option<Date>,
    publisher_id: &Option<Vec<usize>>,
    default_from: Date,
    default_to: Date,
) -> (r: (JobName, JobParameter))
    requires
        from matches Some(d) ==> valid_date(d),
        to matches Some(d) ==> valid_date(d),
        valid_date(default_from),
        valid_date(default_to),
    ensures
        r.0 == job,
        r.1@.dom() == (if publisher_id is Some { set!["from"@, "to"@, "publisher_id"@] } else { set!["from"@, "to"@] }),
        ({ let d = match from { Some(d) => d, None => default_from }; r.1@["from"@]@ == formatted_ymd(d.year, d.month, d.day) }),
        ({ let d = match to { Some(d) => d, None => default_to }; r.1@["to"@]@ == formatted_ymd(d.year, d.month, d.day) }),
        publisher_id matches Some(ids) ==> r.1@["publisher_id"@]@ == joined_ids(ids@),
{
    proof {
        reveal_strlit("from");
        reveal_strlit("to");
        reveal_strlit("publisher_id");
    }
    proof {
        assert("from"@ != "to"@) by {
            assert("from"@.len() != "to"@.len());
        }
        assert("from"@ != "publisher_id"@) by {
            assert("from"@.len() != "publisher_id"@.len());
        }
        assert("to"@ != "publisher_id"@) by {
            assert("to"@.len() != "publisher_id"@.len());
        }
    }
    let mut parameter: JobParameter = crate::dict::Dict::new();
    let f = match from {
        Some(d) => d,
        None => default_from,
    };
    let fs = format_date(f, "%Y-%m-%d");
    parameter.insert("from".to_owned(), fs);
    let t = match to {
        Some(d) => d,
        None => default_to,
    };
    let ts = format_date(t, "%Y-%m-%d");
    parameter.insert("to".to_owned(), ts);
    match publisher_id {
        Some(ids) => {
            parameter.insert("publisher_id".to_owned(), join_ids(ids));
        },
        None => {},
    }
    proof {
        assert(parameter@["from"@] == fs);
        assert(parameter@["to"@] == ts);
        if publisher_id is Some {
            assert(parameter@.dom() =~= set!["from"@, "to"@, "publisher_id"@]);
        } else {
            assert(parameter@.dom() =~= set!["from"@, "to"@]);
        }
    }
    (job, parameter)
}

} // verus!
