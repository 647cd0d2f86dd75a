//! Jobs that collect books from the sites: reading the job parameters,
//! filtering what was read and deciding what to write.
use vstd::prelude::*;
use vstd::string::*;
use crate::batch::{Filter, FilterChain, JobParameter};
use crate::batch::error::{JobReadFailed, JobWriteFailed};
use crate::date::{Date, date_of, parse_date, parsed_ymd};
use crate::dict::map_of;
use crate::item::{Book, BookBuilder, BookBuilderView, BookView, Publisher, Site, built_view};
use crate::item::raw::{Raw, RawModel, lemma_object_model_map, object_model, values_model};
use crate::item::rule::{Predicate, PredicateModel, all_models, eval, lemma_all_models};
use crate::text::{int_error_display, int_error_message, parse_integer, parse_integer_str, split, split_str, trim, trim_str};

verus! {

/// What reading the dates gives: both dates, or the message of the failure.
pub open spec fn from_to_spec(from: Result<Date, Seq<char>>, to: Result<Date, Seq<char>>) -> Result<(Date, Date), Seq<char>> {
    match from {
        Err(m) => Err("Invalid from date: "@ + m),
        Ok(f) => match to {
            Err(m) => Err("Invalid from date: "@ + m),
            Ok(t) => Ok((f, t)),
        },
    }
}

/// Whether a read result is the given dates or a failure with the given message.
pub open spec fn read_dates_as(r: Result<(Date, Date), JobReadFailed>, s: Result<(Date, Date), Seq<char>>) -> bool {
    match r {
        Ok(p) => s == Ok::<(Date, Date), Seq<char>>(p),
        Err(JobReadFailed::InvalidArguments(m)) => s == Err::<(Date, Date), Seq<char>>(m@),
        Err(_) => false,
    }
}

/// The dates as parsed, or the failure of the first that did not parse.
pub fn from_to_of_parsed(from: Result<Date, String>, to: Result<Date, String>) -> (r: Result<(Date, Date), JobReadFailed>)
    ensures
        read_dates_as(r, from_to_spec(
            match from { Ok(d) => Ok(d), Err(m) => Err(m@) },
            match to { Ok(d) => Ok(d), Err(m) => Err(m@) },
        )),
{
    proof {
        reveal_strlit("Invalid from date: ");
    }
    match from {
        Err(m) => {
            let mut s = "Invalid from date: ".to_owned();
            s.append(m.as_str());
            Err(JobReadFailed::InvalidArguments(s))
        },
        Ok(f) => match to {
            Err(m) => {
                let mut s = "Invalid from date: ".to_owned();
                s.append(m.as_str());
                Err(JobReadFailed::InvalidArguments(s))
            },
            Ok(t) => Ok((f, t)),
        },
    }
}

/// The first and last publication dates of a job, read as `%Y-%m-%d` from
/// the parameters `from` and `to`. Both are required; a date that does not
/// parse is reported with the parser's message.
pub fn retrieve_from_to_in_parameter(params: &JobParameter) -> (r: Result<(Date, Date), JobReadFailed>)
    ensures
        !(params@.contains_key("from"@) && params@.contains_key("to"@)) ==> (r matches Err(
            JobReadFailed::InvalidArguments(m),
        ) && m@ == "from/to is required"@),
        params@.contains_key("from"@) && params@.contains_key("to"@) ==> read_dates_as(
            r,
            from_to_spec(date_of(parsed_ymd(params@["from"@]@)), date_of(parsed_ymd(params@["to"@]@))),
        ),
{
    proof {
        reveal_strlit("from/to is required");
    }
    let from_str = params.get("from");
    let to_str = params.get("to");
    match (from_str, to_str) {
        (Some(f), Some(t)) => {
            let from = parse_date(f.as_str());
            let to = parse_date(t.as_str());
            from_to_of_parsed(from, to)
        },
        _ => Err(JobReadFailed::InvalidArguments("from/to is required".to_owned())),
    }
}

/// The ids of the comma-separated pieces, each trimmed and read as a `u64`,
/// or the kind of the first failure.
pub open spec fn ids_of(parts: Seq<Seq<char>>) -> Result<Seq<u64>, std::num::IntErrorKind>
    decreases parts.len(),
{
    if parts.len() == 0 {
        Ok(Seq::empty())
    } else {
        match ids_of(parts.drop_last()) {
            Err(e) => Err(e),
            Ok(vs) => match parse_integer(trim(parts.last()), 0, 0xffff_ffff_ffff_ffff) {
                Err(e) => Err(e),
                Ok(v) => Ok(vs.push(v as u64)),
            },
        }
    }
}

/// The publisher ids of a job: the parameter `publisher` split at commas,
/// each piece trimmed and read as a `u64`. With no such parameter there are
/// none; a piece that does not read is reported with std's message.
pub fn retrieve_publisher_id_in_parameter(params: &JobParameter) -> (r: Result<Vec<u64>, JobReadFailed>)
    ensures
        !params@.contains_key("publisher"@) ==> (r matches Ok(v) && v@.len() == 0),
        params@.contains_key("publisher"@) ==> match ids_of(split(params@["publisher"@]@, ',')) {
            Ok(ids) => r matches Ok(v) && v@ == ids,
            Err(k) => r matches Err(JobReadFailed::InvalidArguments(m)) && m@ == int_error_display(k),
        },
{
    let value = match params.get("publisher") {
        Some(v) => v,
        None => return Ok(Vec::new()),
    };
    let parts = split_str(value.as_str(), ',');
    let ghost ps = split(value@, ',');
    let n = parts.len();
    let mut ids: Vec<u64> = Vec::new();
    let mut i: usize = 0;
    proof {
        assert(ps.subrange(0, 0) =~= Seq::<Seq<char>>::empty());
    }
    while i < n
        invariant
            params@.contains_key("publisher"@),
            ps == split(params@["publisher"@]@, ','),
            n == ps.len(),
            n == parts@.len(),
            forall|k: int| 0 <= k < n ==> #[trigger] parts@[k]@ == ps[k],
            i <= n,
            ids_of(ps.subrange(0, i as int)) == Ok::<Seq<u64>, std::num::IntErrorKind>(ids@),
        decreases n - i,
    {
        let piece = trim_str(parts[i].as_str());
        proof {
            assert(ps.subrange(0, i + 1).drop_last() =~= ps.subrange(0, i as int));
            assert(ps.subrange(0, i + 1).last() == ps[i as int]);
        }
        match parse_integer_str(piece.as_str(), 0, 0xffff_ffff_ffff_ffff) {
            Ok(v) => {
                ids.push(v as u64);
            },
            Err(k) => {
                proof {
                    lemma_ids_of_prefix_error(ps, i as int + 1);
                }
                return Err(JobReadFailed::InvalidArguments(int_error_message(&k)));
            },
        }
        i = i + 1;
    }
    proof {
        assert(ps.subrange(0, n as int) =~= ps);
    }
    Ok(ids)
}

/// A failure among the first pieces is the failure of all of them.
proof fn lemma_ids_of_prefix_error(ps: Seq<Seq<char>>, i: int)
    requires
        0 <= i <= ps.len(),
        ids_of(ps.subrange(0, i)) is Err,
    ensures
        ids_of(ps) == ids_of(ps.subrange(0, i)),
    decreases ps.len() - i,
{
    if i < ps.len() {
        assert(ps.subrange(0, i + 1).drop_last() =~= ps.subrange(0, i));
        lemma_ids_of_prefix_error(ps, i + 1);
    } else {
        assert(ps.subrange(0, i) =~= ps);
    }
}

/// The publishers a job reads.
#[derive(Debug, Clone, PartialEq, Eq)]
pub enum PublisherSelection {
    /// Every publisher in the store.
    All,
    /// The publishers of these ids.
    ById(Vec<u64>),
}

/// The publishers a job reads: those whose ids the parameter `publisher`
/// gives, or all of them when it gives none; an id that does not read is
/// reported as [`retrieve_publisher_id_in_parameter`] reports it.
pub fn publisher_selection(params: &JobParameter) -> (r: Result<PublisherSelection, JobReadFailed>)
    ensures
        !params@.contains_key("publisher"@) ==> r == Ok::<PublisherSelection, JobReadFailed>(PublisherSelection::All),
        params@.contains_key("publisher"@) ==> match ids_of(split(params@["publisher"@]@, ',')) {
            Ok(ids) => if ids.len() == 0 {
                r == Ok::<PublisherSelection, JobReadFailed>(PublisherSelection::All)
            } else {
                r matches Ok(PublisherSelection::ById(v)) && v@ == ids
            },
            Err(k) => r matches Err(JobReadFailed::InvalidArguments(m)) && m@ == int_error_display(k),
        },
{
    let ids = retrieve_publisher_id_in_parameter(params)?;
    if ids.len() == 0 {
        Ok(PublisherSelection::All)
    } else {
        Ok(PublisherSelection::ById(ids))
    }
}

/// The books of `s` that have an ISBN, in order.
pub open spec fn with_isbn(s: Seq<Book>) -> Seq<Book>
    decreases s.len(),
{
    if s.len() == 0 {
        Seq::empty()
    } else if s.last()@.isbn.len() > 0 {
        with_isbn(s.drop_last()).push(s.last())
    } else {
        with_isbn(s.drop_last())
    }
}

/// Whether a book of `s` has the ISBN `isbn`.
pub open spec fn has_isbn(s: Seq<Book>, isbn: Seq<char>) -> bool {
    exists|j: int| 0 <= j < s.len() && #[trigger] s[j]@.isbn == isbn
}

/// The books of `s` whose ISBN no earlier book has, in order.
pub open spec fn first_of_each_isbn(s: Seq<Book>) -> Seq<Book>
    decreases s.len(),
{
    if s.len() == 0 {
        Seq::empty()
    } else {
        let kept = first_of_each_isbn(s.drop_last());
        if has_isbn(kept, s.last()@.isbn) {
            kept
        } else {
            kept.push(s.last())
        }
    }
}

/// Drops the books whose ISBN is empty.
pub struct EmptyIsbnFilter;

pub fn new_empty_isbn_filter() -> (r: EmptyIsbnFilter) {
    EmptyIsbnFilter
}

impl Filter<Book> for EmptyIsbnFilter {
    open spec fn filters(&self, items: Seq<Book>, out: Seq<Book>) -> bool {
        out == with_isbn(items)
    }

    fn do_filter(&self, items: Vec<Book>) -> (r: Vec<Book>) {
        let ghost orig = items@;
        let n = items.len();
        let mut items = items;
        let mut kept: Vec<Book> = Vec::new();
        let mut i: usize = 0;
        while items.len() > 0
            invariant
                n == orig.len(),
                i + items@.len() == n,
                items@ == orig.subrange(i as int, n as int),
                kept@ == with_isbn(orig.subrange(0, i as int)),
            decreases items@.len(),
        {
            let book = items.remove(0);
            proof {
                assert(book == orig[i as int]);
                assert(orig.subrange(0, i + 1).drop_last() =~= orig.subrange(0, i as int));
            }
            if !book.isbn().is_empty() {
                kept.push(book);
            }
            i = i + 1;
            proof {
                assert(items@ =~= orig.subrange(i as int, n as int));
            }
        }
        proof {
            assert(orig.subrange(0, n as int) =~= orig);
        }
        kept
    }
}

/// Keeps, of the books that share an ISBN, the first one.
pub struct DropDuplicateIsbnFilter;

pub fn new_drop_duplicate_isbn_filter() -> (r: DropDuplicateIsbnFilter) {
    DropDuplicateIsbnFilter
}

/// Whether one of `seen` is `isbn`.
fn seen_isbn(seen: &Vec<String>, isbn: &str) -> (r: bool)
    ensures
        r == exists|j: int| 0 <= j < seen@.len() && #[trigger] seen@[j]@ == isbn@,
{
    let n = seen.len();
    let mut i: usize = 0;
    while i < n
        invariant
            n == seen@.len(),
            i <= n,
            forall|j: int| 0 <= j < i ==> #[trigger] seen@[j]@ != isbn@,
        decreases n - i,
    {
        if crate::text::str_eq(seen[i].as_str(), isbn) {
            return true;
        }
        i = i + 1;
    }
    false
}

impl Filter<Book> for DropDuplicateIsbnFilter {
    open spec fn filters(&self, items: Seq<Book>, out: Seq<Book>) -> bool {
        out == first_of_each_isbn(items)
    }

    fn do_filter(&self, items: Vec<Book>) -> (r: Vec<Book>) {
        let ghost orig = items@;
        let n = items.len();
        let mut items = items;
        let mut kept: Vec<Book> = Vec::new();
        let mut seen: Vec<String> = Vec::new();
        let mut i: usize = 0;
        while items.len() > 0
            invariant
                n == orig.len(),
                i + items@.len() == n,
                items@ == orig.subrange(i as int, n as int),
                kept@ == first_of_each_isbn(orig.subrange(0, i as int)),
                seen@.len() == kept@.len(),
                forall|j: int| 0 <= j < seen@.len() ==> #[trigger] seen@[j]@ == kept@[j]@.isbn,
            decreases items@.len(),
        {
            let book = items.remove(0);
            proof {
                assert(book == orig[i as int]);
                assert(orig.subrange(0, i + 1).drop_last() =~= orig.subrange(0, i as int));
            }
            let dup = seen_isbn(&seen, book.isbn());
            proof {
                if dup {
                    let j = choose|j: int| 0 <= j < seen@.len() && #[trigger] seen@[j]@ == book@.isbn;
                    assert(kept@[j]@.isbn == book@.isbn);
                } else {
                    assert forall|j: int| 0 <= j < kept@.len() implies #[trigger] kept@[j]@.isbn != book@.isbn by {
                        assert(seen@[j]@ == kept@[j]@.isbn);
                    }
                }
            }
            if !dup {
                seen.push(book.isbn().to_owned());
                kept.push(book);
            }
            i = i + 1;
            proof {
                assert(items@ =~= orig.subrange(i as int, n as int));
            }
        }
        proof {
            assert(orig.subrange(0, n as int) =~= orig);
        }
        kept
    }
}

/// Every book the ISBN filter keeps has an ISBN, and every book of the
/// input that has one is kept.
pub proof fn lemma_with_isbn(s: Seq<Book>)
    ensures
        forall|j: int| 0 <= j < with_isbn(s).len() ==> #[trigger] with_isbn(s)[j]@.isbn.len() > 0,
        forall|i: int| 0 <= i < s.len() && #[trigger] s[i]@.isbn.len() > 0 ==> with_isbn(s).contains(s[i]),
        with_isbn(s).len() <= s.len(),
    decreases s.len(),
{
    if s.len() > 0 {
        lemma_with_isbn(s.drop_last());
        let p = with_isbn(s.drop_last());
        assert forall|i: int| 0 <= i < s.len() && #[trigger] s[i]@.isbn.len() > 0 implies with_isbn(s).contains(s[i]) by {
            if i < s.len() - 1 {
                assert(s.drop_last()[i] == s[i]);
                assert(p.contains(s[i]));
                let k = choose|k: int| 0 <= k < p.len() && p[k] == s[i];
                if s.last()@.isbn.len() > 0 {
                    assert(with_isbn(s)[k] == s[i]);
                }
            } else {
                assert(with_isbn(s).last() == s[i]);
            }
        }
    }
}

/// No two books the duplicate filter keeps share an ISBN, and it keeps a
/// book of every ISBN of the input.
pub proof fn lemma_first_of_each_isbn(s: Seq<Book>)
    ensures
        forall|a: int, b: int|
            0 <= a < b < first_of_each_isbn(s).len() ==> #[trigger] first_of_each_isbn(s)[a]@.isbn
                != #[trigger] first_of_each_isbn(s)[b]@.isbn,
        forall|isbn: Seq<char>| #[trigger] has_isbn(s, isbn) <==> has_isbn(first_of_each_isbn(s), isbn),
        first_of_each_isbn(s).len() <= s.len(),
    decreases s.len(),
{
    if s.len() > 0 {
        let t = s.drop_last();
        lemma_first_of_each_isbn(t);
        let p = first_of_each_isbn(t);
        let r = first_of_each_isbn(s);
        assert forall|isbn: Seq<char>| #[trigger] has_isbn(s, isbn) <==> has_isbn(r, isbn) by {
            if has_isbn(s, isbn) {
                let j = choose|j: int| 0 <= j < s.len() && #[trigger] s[j]@.isbn == isbn;
                if j < s.len() - 1 {
                    assert(t[j]@.isbn == isbn);
                    assert(has_isbn(t, isbn));
                    assert(has_isbn(p, isbn));
                    let k = choose|k: int| 0 <= k < p.len() && #[trigger] p[k]@.isbn == isbn;
                    assert(r[k]@.isbn == isbn);
                } else if !has_isbn(p, isbn) {
                    assert(r[r.len() - 1]@.isbn == isbn);
                }
            }
            if has_isbn(r, isbn) {
                let k = choose|k: int| 0 <= k < r.len() && #[trigger] r[k]@.isbn == isbn;
                if k < p.len() {
                    assert(p[k]@.isbn == isbn);
                    assert(has_isbn(p, isbn));
                    assert(has_isbn(t, isbn));
                    let j = choose|j: int| 0 <= j < t.len() && #[trigger] t[j]@.isbn == isbn;
                    assert(s[j]@.isbn == isbn);
                } else {
                    assert(s[s.len() - 1]@.isbn == isbn);
                }
            }
        }
        if !has_isbn(p, s.last()@.isbn) {
            assert forall|a: int, b: int| 0 <= a < b < r.len() implies #[trigger] r[a]@.isbn != #[trigger] r[b]@.isbn by {
                if b == r.len() - 1 {
                    assert(r[a] == p[a]);
                    if r[a]@.isbn == r[b]@.isbn {
                        assert(p[a]@.isbn == s.last()@.isbn);
                    }
                } else {
                    assert(r[a] == p[a]);
                    assert(r[b] == p[b]);
                }
            }
        }
    }
}

/// The original data of `site` that a book holds, by model.
pub open spec fn site_data(b: BookView, site: Site) -> Option<Map<Seq<char>, RawModel>> {
    if b.originals.contains_key(site) {
        Some(map_of(b.originals[site]))
    } else {
        None
    }
}

/// From rule `from` on, the position of the first rule that `raw` fails,
/// or the number of rules when it fails none; `None` where a rule that is
/// reached cannot be tested.
pub open spec fn first_failure(ms: Seq<PredicateModel>, from: int, raw: Map<Seq<char>, RawModel>) -> Option<int>
    decreases ms.len() - from,
{
    if 0 <= from < ms.len() {
        match eval(ms[from], raw) {
            None => None,
            Some(b) => if b {
                first_failure(ms, from + 1, raw)
            } else {
                Some(from)
            },
        }
    } else {
        Some(ms.len() as int)
    }
}

pub open spec fn prepend(b: Book, r: Option<Seq<Book>>) -> Option<Seq<Book>> {
    match r {
        Some(s) => Some(seq![b] + s),
        None => None,
    }
}

pub open spec fn join(k: Seq<Book>, r: Option<Seq<Book>>) -> Option<Seq<Book>> {
    match r {
        Some(s) => Some(k + s),
        None => None,
    }
}

/// Whether the rules keep a book: one with no data of `site` is kept; one
/// with data is tested with every rule in order, up to the first it fails,
/// and kept when it fails none; `None` where a rule that is reached cannot
/// be tested.
pub open spec fn keeps(ms: Seq<PredicateModel>, b: Book, site: Site) -> Option<bool> {
    match site_data(b@, site) {
        None => Some(true),
        Some(raw) => match first_failure(ms, 0, raw) {
            None => None,
            Some(j) => Some(j >= ms.len()),
        },
    }
}

/// The books of `bs` that the rules keep, in order, or `None` where a rule
/// that is reached cannot be tested for some book.
pub open spec fn screened(ms: Seq<PredicateModel>, bs: Seq<Book>, site: Site) -> Option<Seq<Book>>
    decreases bs.len(),
{
    if bs.len() == 0 {
        Some(Seq::empty())
    } else {
        match keeps(ms, bs[0], site) {
            None => None,
            Some(true) => prepend(bs[0], screened(ms, bs.drop_first(), site)),
            Some(false) => screened(ms, bs.drop_first(), site),
        }
    }
}

/// Tests `raw` with the rules from `from` on; see [`first_failure`].
fn run_rules(predicates: &Vec<Predicate>, from: usize, raw: &Raw) -> (r: Option<usize>)
    requires
        from <= predicates@.len(),
    ensures
        r matches Some(j) ==> first_failure(all_models(*predicates), from as int, values_model(raw@)) == Some(j as int),
        r is None ==> first_failure(all_models(*predicates), from as int, values_model(raw@)) is None,
{
    let ghost ms = all_models(*predicates);
    proof {
        lemma_all_models(*predicates);
    }
    let m = predicates.len();
    let mut j = from;
    while j < m
        invariant
            m == predicates@.len(),
            ms == all_models(*predicates),
            ms.len() == m,
            forall|k: int| 0 <= k < m ==> #[trigger] ms[k] == predicates@[k].model(),
            from <= j <= m,
            first_failure(ms, from as int, values_model(raw@)) == first_failure(ms, j as int, values_model(raw@)),
        decreases m - j,
    {
        match predicates[j].evaluate(raw) {
            None => return None,
            Some(b) => {
                if !b {
                    return Some(j);
                }
            },
        }
        j = j + 1;
    }
    Some(m)
}

/// Keeps the books that the rules of `site` keep (see [`screened`]): each
/// book's data of the site is tested with every rule. `None` where a rule
/// that is reached cannot be tested: a property it names is missing, or its
/// pattern does not compile.
pub fn screen_by_original_data(items: Vec<Book>, predicates: &Vec<Predicate>, site: Site) -> (r: Option<Vec<Book>>)
    ensures
        screened(all_models(*predicates), items@, site) is None ==> r is None,
        screened(all_models(*predicates), items@, site) is Some ==> (r matches Some(v)
            && v@ == screened(all_models(*predicates), items@, site)->0),
{
    let ghost orig = items@;
    let ghost ms = all_models(*predicates);
    proof {
        lemma_all_models(*predicates);
    }
    let m = predicates.len();
    let n = items.len();
    let mut rest = items;
    let mut kept: Vec<Book> = Vec::new();
    let mut i: usize = 0;
    proof {
        assert(orig.subrange(0, n as int) =~= orig);
        assert(kept@ + screened(ms, orig, site)->0 =~= screened(ms, orig, site)->0);
    }
    while rest.len() > 0
        invariant
            orig == items@,
            n == orig.len(),
            m == predicates@.len(),
            ms == all_models(*predicates),
            ms.len() == m,
            i + rest@.len() == n,
            rest@ == orig.subrange(i as int, n as int),
            join(kept@, screened(ms, rest@, site)) == screened(ms, orig, site),
        decreases rest@.len(),
    {
        let ghost bs = rest@;
        let book = rest.remove(0);
        proof {
            assert(book == bs[0]);
            assert(rest@ =~= bs.drop_first());
        }
        let o = book.originals();
        let decision: Option<bool> = match o.get(&site) {
            None => {
                assert(site_data(book@, site) is None);
                Some(true)
            },
            Some(raw) => {
                let _ = raw.len();
                proof {
                    lemma_object_model_map(*raw);
                    assert(book@.originals[site] == object_model(*raw));
                    assert(site_data(book@, site) == Some(values_model(raw@)));
                }
                match run_rules(predicates, 0, raw) {
                    None => None,
                    Some(j) => Some(j >= m),
                }
            },
        };
        proof {
            assert(decision == keeps(ms, book, site));
        }
        match decision {
            None => {
                assert(screened(ms, bs, site) is None);
                return None;
            },
            Some(true) => {
                let ghost k0 = kept@;
                proof {
                    assert(screened(ms, bs, site) == prepend(book, screened(ms, rest@, site)));
                }
                kept.push(book);
                proof {
                    match screened(ms, rest@, site) {
                        Some(x) => assert(k0 + (seq![book] + x) =~= kept@ + x),
                        None => {},
                    }
                }
            },
            Some(false) => {
                proof {
                    assert(screened(ms, bs, site) == screened(ms, rest@, site));
                }
            },
        }
        i = i + 1;
    }
    proof {
        assert(kept@ + Seq::<Book>::empty() =~= kept@);
    }
    Some(kept)
}

/// The filters that every collecting job applies: books without an ISBN
/// go, then of the books sharing an ISBN the first stays.
pub fn create_default_filter_chain() -> (r: FilterChain<Book>)
    ensures
        r.filters@.len() == 2,
{
    let first: Box<dyn Filter<Book>> = Box::new(new_empty_isbn_filter());
    let second: Box<dyn Filter<Book>> = Box::new(new_drop_duplicate_isbn_filter());
    FilterChain::new().add_filter(first).add_filter(second)
}

/// The ISBNs of `books`, in order.
pub fn isbns_of(books: &Vec<Book>) -> (r: Vec<String>)
    ensures
        r@.len() == books@.len(),
        forall|i: int| 0 <= i < books@.len() ==> #[trigger] r@[i]@ == books@[i]@.isbn,
{
    let mut r: Vec<String> = Vec::new();
    let n = books.len();
    let mut i: usize = 0;
    while i < n
        invariant
            n == books@.len(),
            i <= n,
            r@.len() == i,
            forall|k: int| 0 <= k < i ==> #[trigger] r@[k]@ == books@[k]@.isbn,
        decreases n - i,
    {
        r.push(books[i].isbn().to_owned());
        i = i + 1;
    }
    r
}

/// Whether one of `isbns` is `isbn`.
pub open spec fn listed(isbns: Seq<String>, isbn: Seq<char>) -> bool {
    exists|j: int| 0 <= j < isbns.len() && #[trigger] isbns[j]@ == isbn
}

/// The books of `s` whose ISBN is not listed, in order.
pub open spec fn unlisted(s: Seq<Book>, isbns: Seq<String>) -> Seq<Book>
    decreases s.len(),
{
    if s.len() == 0 {
        Seq::empty()
    } else if listed(isbns, s.last()@.isbn) {
        unlisted(s.drop_last(), isbns)
    } else {
        unlisted(s.drop_last(), isbns).push(s.last())
    }
}

/// The books whose ISBN the store does not hold yet: those not among
/// `stored_isbns`, in order.
pub fn new_books_only(items: Vec<Book>, stored_isbns: &Vec<String>) -> (r: Vec<Book>)
    ensures
        r@ == unlisted(items@, stored_isbns@),
{
    let ghost orig = items@;
    let n = items.len();
    let mut rest = items;
    let mut kept: Vec<Book> = Vec::new();
    let mut i: usize = 0;
    while rest.len() > 0
        invariant
            n == orig.len(),
            i + rest@.len() == n,
            rest@ == orig.subrange(i as int, n as int),
            kept@ == unlisted(orig.subrange(0, i as int), stored_isbns@),
        decreases rest@.len(),
    {
        let book = rest.remove(0);
        proof {
            assert(book == orig[i as int]);
            assert(orig.subrange(0, i + 1).drop_last() =~= orig.subrange(0, i as int));
        }
        let seen = seen_isbn(stored_isbns, book.isbn());
        if !seen {
            kept.push(book);
        }
        i = i + 1;
        proof {
            assert(rest@ =~= orig.subrange(i as int, n as int));
        }
    }
    proof {
        assert(orig.subrange(0, n as int) =~= orig);
    }
    kept
}

/// The outcome of writing new books: success when the store wrote some,
/// otherwise a failure that hands the books back.
pub fn write_outcome(new_books: Vec<Book>, written: usize) -> (r: Result<(), JobWriteFailed<Book>>)
    ensures
        written > 0 ==> r is Ok,
        written == 0 ==> (r matches Err(e) && e.item@ == new_books@ && e.message@ == "No new books to write"@),
{
    if written > 0 {
        Ok(())
    } else {
        Err(JobWriteFailed::new(new_books, "No new books to write"))
    }
}

/// The outcome of updating a stored book with its merged form: nothing to
/// report when the store changed a row, otherwise a failure that hands the
/// merged book back, after which no new book is written.
pub fn update_outcome(merged: Book, updated: usize) -> (r: Result<(), JobWriteFailed<Book>>)
    ensures
        updated > 0 ==> r is Ok,
        updated == 0 ==> (r matches Err(e) && e.item@ == seq![merged] && e.message@ == "Failed to update book"@),
{
    if updated > 0 {
        Ok(())
    } else {
        Err(JobWriteFailed::new(vec![merged], "Failed to update book"))
    }
}

/// The last of `stored` whose ISBN is `isbn`.
pub open spec fn last_with_isbn(stored: Seq<Book>, isbn: Seq<char>) -> Option<Book>
    decreases stored.len(),
{
    if stored.len() == 0 {
        None
    } else if stored.last()@.isbn == isbn {
        Some(stored.last())
    } else {
        last_with_isbn(stored.drop_last(), isbn)
    }
}

/// What an upsert does with `items`: the books whose ISBN is not stored, in
/// order, and for the others the stored book merged with the new one, in order.
pub open spec fn upsert_plan_spec(items: Seq<Book>, stored: Seq<Book>) -> (Seq<BookView>, Seq<BookView>)
    decreases items.len(),
{
    if items.len() == 0 {
        (Seq::empty(), Seq::empty())
    } else {
        let p = upsert_plan_spec(items.drop_last(), stored);
        match last_with_isbn(stored, items.last()@.isbn) {
            None => (p.0.push(items.last()@), p.1),
            Some(b) => (p.0, p.1.push(crate::item::merged_view(b@, items.last()@))),
        }
    }
}

fn find_last_with_isbn(stored: &Vec<Book>, isbn: &str) -> (r: Option<usize>)
    ensures
        r matches Some(k) ==> k < stored@.len() && last_with_isbn(stored@, isbn@) == Some(stored@[k as int]),
        r is None ==> last_with_isbn(stored@, isbn@) is None,
{
    let mut k = stored.len();
    proof {
        assert(stored@.subrange(0, k as int) =~= stored@);
    }
    while k > 0
        invariant
            k <= stored@.len(),
            last_with_isbn(stored@, isbn@) == last_with_isbn(stored@.subrange(0, k as int), isbn@),
        decreases k,
    {
        proof {
            assert(stored@.subrange(0, k - 1) =~= stored@.subrange(0, k as int).drop_last());
        }
        if crate::text::str_eq(stored[k - 1].isbn(), isbn) {
            return Some(k - 1);
        }
        k = k - 1;
    }
    None
}

/// Splits what an upsert writes into the books to insert and, for the
/// books already stored (found by ISBN, the last one when several are),
/// the stored book merged with the new one. Both keep the order of `items`.
pub fn plan_upsert(items: Vec<Book>, stored: &Vec<Book>) -> (r: (Vec<Book>, Vec<Book>))
    ensures
        r.0@.map_values(|b: Book| b@) == upsert_plan_spec(items@, stored@).0,
        r.1@.map_values(|b: Book| b@) == upsert_plan_spec(items@, stored@).1,
{
    let ghost orig = items@;
    proof {
        assert(stored@.subrange(0, stored@.len() as int) =~= stored@);
    }
    let n = items.len();
    let mut rest = items;
    let mut news: Vec<Book> = Vec::new();
    let mut merged: Vec<Book> = Vec::new();
    let mut i: usize = 0;
    while rest.len() > 0
        invariant
            n == orig.len(),
            i + rest@.len() == n,
            rest@ == orig.subrange(i as int, n as int),
            news@.map_values(|b: Book| b@) == upsert_plan_spec(orig.subrange(0, i as int), stored@).0,
            merged@.map_values(|b: Book| b@) == upsert_plan_spec(orig.subrange(0, i as int), stored@).1,
        decreases rest@.len(),
    {
        let book = rest.remove(0);
        proof {
            assert(book == orig[i as int]);
            assert(orig.subrange(0, i + 1).drop_last() =~= orig.subrange(0, i as int));
        }
        let ghost n0 = news@;
        let ghost m0 = merged@;
        match find_last_with_isbn(stored, book.isbn()) {
            None => {
                news.push(book);
                proof {
                    assert(news@.map_values(|b: Book| b@) =~= n0.map_values(|b: Book| b@).push(book@));
                }
            },
            Some(k) => {
                let m = stored[k].merge(&book);
                merged.push(m);
                proof {
                    assert(merged@.map_values(|b: Book| b@) =~= m0.map_values(|b: Book| b@).push(m@));
                }
            },
        }
        i = i + 1;
        proof {
            assert(rest@ =~= orig.subrange(i as int, n as int));
        }
    }
    proof {
        assert(orig.subrange(0, n as int) =~= orig);
    }
    (news, merged)
}

/// The debug name of a site.
pub open spec fn site_debug(site: Site) -> Seq<char> {
    match site {
        Site::NLGO => "NLGO"@,
        Site::Naver => "Naver"@,
        Site::Aladin => "Aladin"@,
        Site::KyoboBook => "KyoboBook"@,
    }
}

/// The searches a collecting job makes at `site`: for each publisher in
/// turn, each of its keywords there, with the publisher's id; `None` when a
/// publisher has no keywords for the site.
pub open spec fn searches_spec(ps: Seq<crate::item::PublisherView>, site: Site) -> Option<Seq<(u64, Seq<char>)>>
    decreases ps.len(),
{
    if ps.len() == 0 {
        Some(Seq::empty())
    } else {
        match searches_spec(ps.drop_last(), site) {
            None => None,
            Some(prev) => if ps.last().keywords.contains_key(site) {
                Some(prev + ps.last().keywords[site].map_values(|k: Seq<char>| (ps.last().id, k)))
            } else {
                None
            },
        }
    }
}

/// The searches of a collecting job at `site`, in order: each keyword the
/// publishers have there, with the publisher's id. A publisher without
/// keywords for the site is an error.
pub fn keyword_searches(publishers: &Vec<Publisher>, site: Site) -> (r: Result<Vec<(u64, String)>, JobReadFailed>)
    ensures
        match searches_spec(publishers@.map_values(|p: Publisher| p@), site) {
            Some(s) => r matches Ok(v) && v@.map_values(|e: (u64, String)| (e.0, e.1@)) == s,
            None => r matches Err(JobReadFailed::InvalidArguments(m)) && m@ == "No keywords for site "@ + site_debug(site),
        },
{
    proof {
        reveal_strlit("No keywords for site ");
        reveal_strlit("NLGO");
        reveal_strlit("Naver");
        reveal_strlit("Aladin");
        reveal_strlit("KyoboBook");
    }
    let ghost pv = publishers@.map_values(|p: Publisher| p@);
    let n = publishers.len();
    let mut out: Vec<(u64, String)> = Vec::new();
    let mut i: usize = 0;
    proof {
        assert(pv.subrange(0, 0) =~= Seq::<crate::item::PublisherView>::empty());
        assert(out@.map_values(|e: (u64, String)| (e.0, e.1@)) =~= Seq::<(u64, Seq<char>)>::empty());
    }
    while i < n
        invariant
            n == publishers@.len(),
            pv == publishers@.map_values(|p: Publisher| p@),
            i <= n,
            searches_spec(pv.subrange(0, i as int), site) == Some(out@.map_values(|e: (u64, String)| (e.0, e.1@))),
        decreases n - i,
    {
        let p = &publishers[i];
        proof {
            assert(pv.subrange(0, i + 1).drop_last() =~= pv.subrange(0, i as int));
            assert(pv.subrange(0, i + 1).last() == p@);
        }
        let keywords = match p.keywords().get(&site) {
            Some(k) => k,
            None => {
                let mut m = "No keywords for site ".to_owned();
                let name = match site {
                    Site::NLGO => "NLGO",
                    Site::Naver => "Naver",
                    Site::Aladin => "Aladin",
                    Site::KyoboBook => "KyoboBook",
                };
                m.append(name);
                proof {
                    lemma_searches_none(pv, site, i as int + 1);
                }
                return Err(JobReadFailed::InvalidArguments(m));
            },
        };
        let ghost o0 = out@.map_values(|e: (u64, String)| (e.0, e.1@));
        let ghost ks = p@.keywords[site];
        let id = p.id();
        let kn = keywords.len();
        let mut j: usize = 0;
        proof {
            assert(ks == crate::item::texts(*keywords));
            assert(ks.subrange(0, 0).map_values(|k: Seq<char>| (id, k)) =~= Seq::<(u64, Seq<char>)>::empty());
            assert(o0 + Seq::<(u64, Seq<char>)>::empty() =~= o0);
        }
        while j < kn
            invariant
                kn == keywords@.len(),
                ks == crate::item::texts(*keywords),
                j <= kn,
                out@.map_values(|e: (u64, String)| (e.0, e.1@)) == o0 + ks.subrange(0, j as int).map_values(|k: Seq<char>| (id, k)),
            decreases kn - j,
        {
            let ghost before = out@;
            out.push((id, keywords[j].clone()));
            proof {
                assert(out@.map_values(|e: (u64, String)| (e.0, e.1@)) =~= before.map_values(|e: (u64, String)| (e.0, e.1@)).push((id, ks[j as int])));
                assert(ks.subrange(0, j + 1).map_values(|k: Seq<char>| (id, k)) =~= ks.subrange(0, j as int).map_values(|k: Seq<char>| (id, k)).push((id, ks[j as int])));
            }
            j = j + 1;
        }
        proof {
            assert(ks.subrange(0, kn as int) =~= ks);
        }
        i = i + 1;
    }
    proof {
        assert(pv.subrange(0, n as int) =~= pv);
    }
    Ok(out)
}

/// A publisher without keywords among the first ones makes the whole plan fail.
proof fn lemma_searches_none(ps: Seq<crate::item::PublisherView>, site: Site, i: int)
    requires
        0 < i <= ps.len(),
        searches_spec(ps.subrange(0, i), site) is None,
    ensures
        searches_spec(ps, site) is None,
    decreases ps.len() - i,
{
    if i < ps.len() {
        assert(ps.subrange(0, i + 1).drop_last() =~= ps.subrange(0, i));
        lemma_searches_none(ps, site, i + 1);
    } else {
        assert(ps.subrange(0, i) =~= ps);
    }
}

/// The books a search found, each given the id of the publisher it was
/// found for. Every builder must have its ISBN and title.
pub fn with_publisher(builders: Vec<BookBuilder>, publisher_id: u64) -> (r: Vec<Book>)
    requires
        forall|i: int| 0 <= i < builders@.len() ==> (#[trigger] builders@[i]@).isbn is Some && builders@[i]@.title is Some,
    ensures
        r@.len() == builders@.len(),
        forall|i: int| 0 <= i < r@.len() ==> #[trigger] r@[i]@ == built_view(
            BookBuilderView { publisher_id: Some(publisher_id), ..builders@[i]@ },
        ),
{
    let ghost orig = builders@;
    let n = builders.len();
    let mut rest = builders;
    let mut books: Vec<Book> = Vec::new();
    let mut i: usize = 0;
    while rest.len() > 0
        invariant
            n == orig.len(),
            i + rest@.len() == n,
            rest@ == orig.subrange(i as int, n as int),
            forall|k: int| 0 <= k < n ==> (#[trigger] orig[k]@).isbn is Some && orig[k]@.title is Some,
            books@.len() == i,
            forall|k: int| 0 <= k < i ==> #[trigger] books@[k]@ == built_view(
                BookBuilderView { publisher_id: Some(publisher_id), ..orig[k]@ },
            ),
        decreases rest@.len(),
    {
        let b = rest.remove(0);
        proof {
            assert(b == orig[i as int]);
        }
        match b.publisher_id(publisher_id).build() {
            Ok(book) => books.push(book),
            Err(_) => {},
        }
        i = i + 1;
        proof {
            assert(rest@ =~= orig.subrange(i as int, n as int));
        }
    }
    books
}

/// The books the Aladin API gives per page.
pub const ALADIN_PAGE_SIZE: usize = 50;
/// The number of results after which the Aladin API repeats its first page.
pub const ALADIN_MAX_RESULT: usize = 200;
/// The books the NLGO API gives per page.
pub const NLGO_PAGE_SIZE: usize = 500;

/// Where the paging through a keyword's search results stands.
#[derive(Debug, Clone, Copy, PartialEq, Eq, Structural)]
pub struct Paging {
    /// The page to fetch next; the first page is 1.
    pub page: i32,
    /// How many books were fetched so far.
    pub fetched: usize,
}

/// The start of a search: page 1, nothing fetched.
pub fn first_page() -> (r: Paging)
    ensures
        r == (Paging { page: 1, fetched: 0 }),
{
    Paging { page: 1, fetched: 0 }
}

/// Where the Aladin search goes after a page that gave `got` books: on to
/// the next page while pages give books and fewer than 200 books have been
/// fetched (the API serves no more than 200 and then repeats its first
/// page); `None` when the search is over.
pub fn aladin_next_page(p: Paging, got: usize) -> (r: Option<Paging>)
    requires
        p.page < i32::MAX,
        p.fetched + got <= usize::MAX,
    ensures
        (got > 0 && p.fetched + got < ALADIN_MAX_RESULT) ==> r == Some(Paging { page: (p.page + 1) as i32, fetched: (p.fetched + got) as usize }),
        !(got > 0 && p.fetched + got < ALADIN_MAX_RESULT) ==> r is None,
{
    if got > 0 && p.fetched + got < ALADIN_MAX_RESULT {
        Some(Paging { page: p.page + 1, fetched: p.fetched + got })
    } else {
        None
    }
}

/// Where the NLGO search goes after a page that gave `got` books: on to the
/// next page while pages give books; `None` when the search is over.
pub fn nlgo_next_page(p: Paging, got: usize) -> (r: Option<Paging>)
    requires
        p.page < i32::MAX,
        p.fetched + got <= usize::MAX,
    ensures
        got > 0 ==> r == Some(Paging { page: (p.page + 1) as i32, fetched: (p.fetched + got) as usize }),
        got == 0 ==> r is None,
{
    if got > 0 {
        Some(Paging { page: p.page + 1, fetched: p.fetched + got })
    } else {
        None
    }
}

/// The rules never drop a book that has no data of the site, and every
/// book they keep that has data passes every rule.
pub proof fn lemma_screen_keeps_books_without_data(ms: Seq<PredicateModel>, bs: Seq<Book>, site: Site)
    ensures
        screened(ms, bs, site) matches Some(kept) ==> forall|i: int|
            0 <= i < bs.len() && #[trigger] site_data(bs[i]@, site) is None ==> kept.contains(bs[i]),
        screened(ms, bs, site) matches Some(kept) ==> forall|i: int|
            0 <= i < kept.len() ==> #[trigger] keeps(ms, kept[i], site) == Some(true),
    decreases bs.len(),
{
    if bs.len() > 0 {
        let rest = bs.drop_first();
        lemma_screen_keeps_books_without_data(ms, rest, site);
        if let Some(kept) = screened(ms, bs, site) {
            assert forall|i: int| 0 <= i < bs.len() && #[trigger] site_data(bs[i]@, site) is None implies kept.contains(bs[i]) by {
                if i == 0 {
                    assert(kept[0] == bs[0]);
                } else {
                    assert(rest[i - 1] == bs[i]);
                    let r = screened(ms, rest, site)->0;
                    if keeps(ms, bs[0], site) == Some(true) {
                        let k = choose|k: int| 0 <= k < r.len() && r[k] == bs[i];
                        assert(kept[k + 1] == bs[i]);
                    } else {
                        assert(r.contains(bs[i]));
                    }
                }
            }
            assert forall|i: int| 0 <= i < kept.len() implies #[trigger] keeps(ms, kept[i], site) == Some(true) by {
                let r = screened(ms, rest, site)->0;
                if keeps(ms, bs[0], site) == Some(true) {
                    if i > 0 {
                        assert(kept[i] == r[i - 1]);
                    }
                } else {
                    assert(kept[i] == r[i]);
                }
            }
        }
    }
}

} // verus!
