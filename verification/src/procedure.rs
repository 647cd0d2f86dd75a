//! The first job framework, over the first book model: a reader, an
//! optional filter and a writer.
use vstd::prelude::*;
use vstd::string::*;
use crate::book::{Book, Publisher};
use crate::date::Date;

verus! {

/// What a job of the first framework is run with.
pub struct Parameter {
    publisher: Option<Publisher>,
    from: Option<Date>,
    to: Option<Date>,
}

/// Builds a [`Parameter`].
pub struct ParameterBuilder {
    publisher: Option<Publisher>,
    from: Option<Date>,
    to: Option<Date>,
}

impl ParameterBuilder {
    pub fn new() -> (r: Self)
        ensures
            r.spec_publisher() is None,
            r.spec_from() is None,
            r.spec_to() is None,
    {
        ParameterBuilder { publisher: None, from: None, to: None }
    }

    pub closed spec fn spec_publisher(&self) -> Option<Publisher> {
        self.publisher
    }

    pub closed spec fn spec_from(&self) -> Option<Date> {
        self.from
    }

    pub closed spec fn spec_to(&self) -> Option<Date> {
        self.to
    }

    pub fn publisher(self, publisher: Publisher) -> (r: Self)
        ensures
            r.spec_publisher() == Some(publisher),
            r.spec_from() == self.spec_from(),
            r.spec_to() == self.spec_to(),
    {
        ParameterBuilder { publisher: Some(publisher), ..self }
    }

    pub fn from(self, from: Date) -> (r: Self)
        ensures
            r.spec_publisher() == self.spec_publisher(),
            r.spec_from() == Some(from),
            r.spec_to() == self.spec_to(),
    {
        ParameterBuilder { from: Some(from), ..self }
    }

    pub fn to(self, to: Date) -> (r: Self)
        ensures
            r.spec_publisher() == self.spec_publisher(),
            r.spec_from() == self.spec_from(),
            r.spec_to() == Some(to),
    {
        ParameterBuilder { to: Some(to), ..self }
    }

    pub fn build(self) -> (r: Parameter)
        ensures
            r.spec_publisher() == self.spec_publisher(),
            r.spec_from() == self.spec_from(),
            r.spec_to() == self.spec_to(),
    {
        Parameter { publisher: self.publisher, from: self.from, to: self.to }
    }
}

impl Parameter {
    pub fn builder() -> (r: ParameterBuilder)
        ensures
            r.spec_publisher() is None,
            r.spec_from() is None,
            r.spec_to() is None,
    {
        ParameterBuilder::new()
    }

    pub closed spec fn spec_publisher(&self) -> Option<Publisher> {
        self.publisher
    }

    pub closed spec fn spec_from(&self) -> Option<Date> {
        self.from
    }

    pub closed spec fn spec_to(&self) -> Option<Date> {
        self.to
    }

    pub fn publisher(&self) -> (r: &Option<Publisher>)
        ensures
            *r == self.spec_publisher(),
    {
        &self.publisher
    }

    pub fn from(&self) -> (r: &Option<Date>)
        ensures
            *r == self.spec_from(),
    {
        &self.from
    }

    pub fn to(&self) -> (r: &Option<Date>)
        ensures
            *r == self.spec_to(),
    {
        &self.to
    }
}

/// Reads the books of a job.
pub trait Reader {
    /// Whether `out` is what the reader may read for `parameter`.
    closed spec fn reads(&self, parameter: Parameter, out: Seq<Book>) -> bool {
        true
    }

    fn read_books(&self, parameter: &Parameter) -> (r: Vec<Book>)
        ensures
            self.reads(*parameter, r@);
}

/// Keeps the valid books.
pub trait Filter {
    /// Whether `out` is what the filter may keep of `books`.
    closed spec fn filters(&self, books: Seq<Book>, out: Seq<Book>) -> bool {
        true
    }

    fn do_filter(&self, books: Vec<Book>) -> (r: Vec<Book>)
        ensures
            self.filters(books@, r@);
}

/// Stores books and gives back what was stored.
pub trait Writer {
    /// Whether `out` is what writing `books` may give back.
    closed spec fn writes(&self, books: Seq<Book>, out: Seq<Book>) -> bool {
        true
    }

    fn write(&self, books: &[Book]) -> (r: Vec<Book>)
        ensures
            self.writes(books@, r@);
}

/// `kept` is what the filter, where there is one, may keep of `read`;
/// without one it is `read`.
pub open spec fn kept_by(f: Option<Box<dyn Filter>>, read: Seq<Book>, kept: Seq<Book>) -> bool {
    match f {
        Some(f) => f.filters(read, kept),
        None => kept == read,
    }
}

/// A job of the first framework.
pub struct Job {
    pub reader: Box<dyn Reader>,
    pub filter: Option<Box<dyn Filter>>,
    pub writer: Box<dyn Writer>,
}

/// Builds a [`Job`]; the reader and the writer are required.
pub struct JobBuilder {
    reader: Option<Box<dyn Reader>>,
    filter: Option<Box<dyn Filter>>,
    writer: Option<Box<dyn Writer>>,
}

impl JobBuilder {
    pub closed spec fn has_reader(&self) -> bool {
        self.reader is Some
    }

    pub closed spec fn has_filter(&self) -> bool {
        self.filter is Some
    }

    pub closed spec fn has_writer(&self) -> bool {
        self.writer is Some
    }

    /// The reader set, if any.
    pub closed spec fn reader_of(&self) -> Option<Box<dyn Reader>> {
        self.reader
    }

    /// The filter set, if any.
    pub closed spec fn filter_of(&self) -> Option<Box<dyn Filter>> {
        self.filter
    }

    /// The writer set, if any.
    pub closed spec fn writer_of(&self) -> Option<Box<dyn Writer>> {
        self.writer
    }

    pub fn new() -> (r: Self)
        ensures
            !r.has_reader(),
            !r.has_filter(),
            !r.has_writer(),
    {
        JobBuilder { reader: None, filter: None, writer: None }
    }

    pub fn reader(self, reader: Box<dyn Reader>) -> (r: Self)
        ensures
            r.has_reader(),
            r.has_filter() == self.has_filter(),
            r.has_writer() == self.has_writer(),
            r.reader_of() === Some(reader),
            r.filter_of() === self.filter_of(),
            r.writer_of() === self.writer_of(),
    {
        JobBuilder { reader: Some(reader), ..self }
    }

    pub fn filter(self, filter: Box<dyn Filter>) -> (r: Self)
        ensures
            r.has_reader() == self.has_reader(),
            r.has_filter(),
            r.has_writer() == self.has_writer(),
            r.reader_of() === self.reader_of(),
            r.filter_of() === Some(filter),
            r.writer_of() === self.writer_of(),
    {
        JobBuilder { filter: Some(filter), ..self }
    }

    pub fn writer(self, writer: Box<dyn Writer>) -> (r: Self)
        ensures
            r.has_reader() == self.has_reader(),
            r.has_filter() == self.has_filter(),
            r.has_writer(),
            r.reader_of() === self.reader_of(),
            r.filter_of() === self.filter_of(),
            r.writer_of() === Some(writer),
    {
        JobBuilder { writer: Some(writer), ..self }
    }

    /// The job; without a reader, or else without a writer, the message
    /// that names what is missing.
    pub fn build(self) -> (r: Result<Job, &'static str>)
        ensures
            !self.has_reader() ==> (r matches Err(m) && m@ == "Reader는 필수 값입니다"@),
            self.has_reader() && !self.has_writer() ==> (r matches Err(m) && m@ == "Writer는 필수 값입니다"@),
            self.has_reader() && self.has_writer() ==> (r matches Ok(j) && j.has_filter() == self.has_filter()
                && j.reader === self.reader_of()->0 && j.filter === self.filter_of()
                && j.writer === self.writer_of()->0),
    {
        if self.reader.is_none() {
            return Err("Reader는 필수 값입니다");
        }
        if self.writer.is_none() {
            return Err("Writer는 필수 값입니다");
        }
        let reader = self.reader.unwrap();
        let writer = self.writer.unwrap();
        Ok(Job { reader, filter: self.filter, writer })
    }
}

impl Job {
    pub closed spec fn has_filter(&self) -> bool {
        self.filter is Some
    }

    pub fn builder() -> (r: JobBuilder)
        ensures
            !r.has_reader(),
            !r.has_filter(),
            !r.has_writer(),
    {
        JobBuilder::new()
    }

    /// Reads the books, filters them when the job has a filter, and writes
    /// them; the books written come back.
    pub fn run(&self, parameter: &Parameter) -> (r: Vec<Book>)
        ensures
            exists|read: Seq<Book>, kept: Seq<Book>|
                #[trigger] self.reader.reads(*parameter, read) && #[trigger] kept_by(self.filter, read, kept)
                && self.writer.writes(kept, r@),
    {
        let books = self.reader.read_books(parameter);
        let ghost read = books@;
        let filtered = match &self.filter {
            Some(f) => f.do_filter(books),
            None => books,
        };
        let ghost kept = filtered@;
        assert(kept_by(self.filter, read, kept));
        let r = self.writer.write(filtered.as_slice());
        assert(self.reader.reads(*parameter, read) && kept_by(self.filter, read, kept) && self.writer.writes(kept, r@));
        r
    }
}

/// The books of `s` that have an ISBN, in order.
pub open spec fn with_isbn(s: Seq<Book>) -> Seq<Book>
    decreases s.len(),
{
    if s.len() == 0 {
        Seq::empty()
    } else if s.last()@.isbn.len() > 0 {
        with_isbn(s.drop_last()).push(s.last())
    } else {
        with_isbn(s.drop_last())
    }
}

/// The books of `s` whose ISBN no earlier book has, in order.
pub open spec fn first_of_each_isbn(s: Seq<Book>) -> Seq<Book>
    decreases s.len(),
{
    if s.len() == 0 {
        Seq::empty()
    } else {
        let kept = first_of_each_isbn(s.drop_last());
        if exists|j: int| 0 <= j < kept.len() && #[trigger] kept[j]@.isbn == s.last()@.isbn {
            kept
        } else {
            kept.push(s.last())
        }
    }
}

/// Some book of `s` has ISBN `isbn`.
pub open spec fn isbn_in(s: Seq<Book>, isbn: Seq<char>) -> bool {
    exists|j: int| 0 <= j < s.len() && #[trigger] s[j]@.isbn == isbn
}

/// The duplicate filter keeps the first book of each ISBN: no two books it
/// keeps share an ISBN, every ISBN of the input is kept, and each book kept
/// is a book of the input with no earlier book of its ISBN.
pub proof fn lemma_first_of_each_isbn_keeps_firsts(s: Seq<Book>)
    ensures
        forall|a: int, b: int| 0 <= a < b < first_of_each_isbn(s).len()
            ==> #[trigger] first_of_each_isbn(s)[a]@.isbn != #[trigger] first_of_each_isbn(s)[b]@.isbn,
        forall|isbn: Seq<char>| #[trigger] isbn_in(s, isbn) <==> isbn_in(first_of_each_isbn(s), isbn),
        forall|k: int| 0 <= k < first_of_each_isbn(s).len() ==> exists|i: int| 0 <= i < s.len()
            && s[i] == #[trigger] first_of_each_isbn(s)[k]
            && forall|j: int| 0 <= j < i ==> #[trigger] s[j]@.isbn != s[i]@.isbn,
    decreases s.len(),
{
    if s.len() > 0 {
        let t = s.drop_last();
        lemma_first_of_each_isbn_keeps_firsts(t);
        let p = first_of_each_isbn(t);
        let r = first_of_each_isbn(s);
        let dup = exists|j: int| 0 <= j < p.len() && #[trigger] p[j]@.isbn == s.last()@.isbn;
        assert(dup == isbn_in(p, s.last()@.isbn));
        assert forall|isbn: Seq<char>| #[trigger] isbn_in(s, isbn) <==> isbn_in(r, isbn) by {
            if isbn_in(s, isbn) {
                let j = choose|j: int| 0 <= j < s.len() && #[trigger] s[j]@.isbn == isbn;
                if j < s.len() - 1 {
                    assert(t[j]@.isbn == isbn);
                    assert(isbn_in(t, isbn));
                    assert(isbn_in(p, isbn));
                    let k = choose|k: int| 0 <= k < p.len() && #[trigger] p[k]@.isbn == isbn;
                    assert(r[k]@.isbn == isbn);
                } else if !dup {
                    assert(r[r.len() - 1]@.isbn == isbn);
                }
            }
            if isbn_in(r, isbn) {
                let k = choose|k: int| 0 <= k < r.len() && #[trigger] r[k]@.isbn == isbn;
                if k < p.len() {
                    assert(p[k]@.isbn == isbn);
                    assert(isbn_in(p, isbn));
                    assert(isbn_in(t, isbn));
                    let j = choose|j: int| 0 <= j < t.len() && #[trigger] t[j]@.isbn == isbn;
                    assert(s[j]@.isbn == isbn);
                } else {
                    assert(s[s.len() - 1]@.isbn == isbn);
                }
            }
        }
        assert forall|k: int| 0 <= k < r.len() implies exists|i: int| 0 <= i < s.len()
            && s[i] == #[trigger] r[k]
            && forall|j: int| 0 <= j < i ==> #[trigger] s[j]@.isbn != s[i]@.isbn by {
            if k < p.len() {
                assert(r[k] == p[k]);
                let i = choose|i: int| 0 <= i < t.len() && t[i] == #[trigger] p[k]
                    && forall|j: int| 0 <= j < i ==> #[trigger] t[j]@.isbn != t[i]@.isbn;
                assert(s[i] == t[i]);
                assert forall|j: int| 0 <= j < i implies #[trigger] s[j]@.isbn != s[i]@.isbn by {
                    assert(s[j] == t[j]);
                }
            } else {
                let i = s.len() - 1;
                assert(r[k] == s[i]);
                assert forall|j: int| 0 <= j < i implies #[trigger] s[j]@.isbn != s[i]@.isbn by {
                    assert(s[j] == t[j]);
                    if s[j]@.isbn == s[i]@.isbn {
                        assert(isbn_in(t, s[i]@.isbn));
                    }
                }
            }
        }
        if !dup {
            assert forall|a: int, b: int| 0 <= a < b < r.len() implies #[trigger] r[a]@.isbn != #[trigger] r[b]@.isbn by {
                assert(r[a] == p[a]);
                if b == r.len() - 1 {
                    if r[a]@.isbn == r[b]@.isbn {
                        assert(p[a]@.isbn == s.last()@.isbn);
                    }
                } else {
                    assert(r[b] == p[b]);
                }
            }
        }
    }
}

/// Drops the books whose ISBN is empty.
pub struct EmptyIsbnFilter;

impl EmptyIsbnFilter {
    /// The books that have an ISBN, in order.
    pub fn keep(&self, books: Vec<Book>) -> (r: Vec<Book>)
        ensures
            r@ == with_isbn(books@),
    {
        let ghost orig = books@;
        let n = books.len();
        let mut rest = books;
        let mut kept: Vec<Book> = Vec::new();
        let mut i: usize = 0;
        while rest.len() > 0
            invariant
                orig == books@,
                n == orig.len(),
                i + rest@.len() == n,
                rest@ == orig.subrange(i as int, n as int),
                kept@ == with_isbn(orig.subrange(0, i as int)),
            decreases rest@.len(),
        {
            let book = rest.remove(0);
            proof {
                assert(book == orig[i as int]);
                assert(orig.subrange(0, i + 1).drop_last() =~= orig.subrange(0, i as int));
            }
            if !book.isbn().is_empty() {
                kept.push(book);
            }
            i = i + 1;
            proof {
                assert(rest@ =~= orig.subrange(i as int, n as int));
            }
        }
        proof {
            assert(orig.subrange(0, n as int) =~= orig);
        }
        kept
    }
}

impl Filter for EmptyIsbnFilter {
    open spec fn filters(&self, books: Seq<Book>, out: Seq<Book>) -> bool {
        out == with_isbn(books)
    }

    fn do_filter(&self, books: Vec<Book>) -> (r: Vec<Book>) {
        self.keep(books)
    }
}

/// Keeps, of the books that share an ISBN, the first one.
pub struct DropDuplicatedIsbnFilter;

impl DropDuplicatedIsbnFilter {
    /// The first book of each ISBN, in order.
    pub fn keep(&self, books: Vec<Book>) -> (r: Vec<Book>)
        ensures
            r@ == first_of_each_isbn(books@),
    {
        let ghost orig = books@;
        let n = books.len();
        let mut rest = books;
        let mut kept: Vec<Book> = Vec::new();
        let mut i: usize = 0;
        while rest.len() > 0
            invariant
                orig == books@,
                n == orig.len(),
                i + rest@.len() == n,
                rest@ == orig.subrange(i as int, n as int),
                kept@ == first_of_each_isbn(orig.subrange(0, i as int)),
            decreases rest@.len(),
        {
            let book = rest.remove(0);
            proof {
                assert(book == orig[i as int]);
                assert(orig.subrange(0, i + 1).drop_last() =~= orig.subrange(0, i as int));
            }
            let mut dup = false;
            let m = kept.len();
            let mut j: usize = 0;
            while j < m
                invariant
                    m == kept@.len(),
                    j <= m,
                    !dup ==> forall|k: int| 0 <= k < j ==> #[trigger] kept@[k]@.isbn != book@.isbn,
                    dup ==> exists|k: int| 0 <= k < m && #[trigger] kept@[k]@.isbn == book@.isbn,
                decreases m - j,
            {
                if crate::text::str_eq(kept[j].isbn(), book.isbn()) {
                    dup = true;
                }
                j = j + 1;
            }
            if !dup {
                kept.push(book);
            }
            i = i + 1;
            proof {
                assert(rest@ =~= orig.subrange(i as int, n as int));
            }
        }
        proof {
            assert(orig.subrange(0, n as int) =~= orig);
        }
        kept
    }
}

impl Filter for DropDuplicatedIsbnFilter {
    open spec fn filters(&self, books: Seq<Book>, out: Seq<Book>) -> bool {
        out == first_of_each_isbn(books)
    }

    fn do_filter(&self, books: Vec<Book>) -> (r: Vec<Book>) {
        self.keep(books)
    }
}

/// The number of search results after which the Aladin API repeats its first page.
pub const ALADIN_MAX_RESULTS: usize = 200;

/// Whether the first framework's Aladin reader asks for another page after
/// one that gave `got` books, `fetched` having been read before it, and how
/// many it has read then: it stops at an empty page and once 200 are read.
pub fn aladin_reads_on(fetched: usize, got: usize) -> (r: Option<usize>)
    requires
        fetched + got <= usize::MAX,
    ensures
        got > 0 && fetched + got < ALADIN_MAX_RESULTS ==> r == Some((fetched + got) as usize),
        !(got > 0 && fetched + got < ALADIN_MAX_RESULTS) ==> r is None,
{
    if got > 0 && fetched + got < ALADIN_MAX_RESULTS {
        Some(fetched + got)
    } else {
        None
    }
}

} // verus!
