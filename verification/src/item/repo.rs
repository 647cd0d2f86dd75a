//! What the stores of books, series, publishers and filters load, as plain
//! rows, and how it is put together into items.
use vstd::prelude::*;
use vstd::string::*;
use crate::date::{Date, DateTime};
use crate::book::entity::{PublisherEntity, PublisherKeywordEntity};
use crate::item::{Book, BookBuilder, BookBuilderView, ItemError, Originals, Publisher, PublisherView, Series, SeriesView, Site, bits_of,
    built_view, empty_builder_view, text_of};
use crate::item::raw::{Raw, RawModel};
use crate::item::rule::{FilterRule, FilterRuleView, Operator, operator_of_code};
use crate::text::regex_compiles;

verus! {

/// Why a store could not answer.
#[derive(Debug, Clone, PartialEq, Eq)]
pub enum Error {
    ConnectError(String),
    InvalidParameter(String),
    SqlExecuteError(String),
}

/// The number of components of a series embedding.
pub const SERIES_VECTOR_DIMENSION: usize = 1024;

/// Whether a series can be compared by similarity: it needs an embedding
/// of 1024 components.
pub fn check_series_vector(series: &Series) -> (r: Result<(), Error>)
    ensures
        series@.vec is None ==> (r matches Err(Error::InvalidParameter(m)) && m@ == "series.vec is must not be null"@),
        series@.vec matches Some(v) && v.len() != 1024 ==> (r matches Err(Error::InvalidParameter(m))
            && m@ == "vector dimension is must be 1024"@),
        series@.vec matches Some(v) && v.len() == 1024 ==> r is Ok,
{
    proof {
        reveal_strlit("series.vec is must not be null");
        reveal_strlit("vector dimension is must be 1024");
    }
    match series.vec() {
        None => Err(Error::InvalidParameter("series.vec is must not be null".to_owned())),
        Some(v) => {
            if v.len() != SERIES_VECTOR_DIMENSION {
                Err(Error::InvalidParameter("vector dimension is must be 1024".to_owned()))
            } else {
                Ok(())
            }
        },
    }
}

/// A series row.
#[derive(Debug, Clone)]
pub struct SeriesEntity {
    pub id: i64,
    pub name: Option<String>,
    pub isbn: Option<String>,
    /// The embedding, each component by the bits of its `f32`.
    pub vec: Option<Vec<u32>>,
    pub registered_at: DateTime,
    pub modified_at: Option<DateTime>,
}

/// The series a row stands for; the id is taken by its bits (`as u64`).
pub open spec fn series_of_entity(e: SeriesEntity) -> SeriesView {
    SeriesView {
        id: e.id as u64,
        title: text_of(e.name),
        isbn: text_of(e.isbn),
        vec: bits_of(e.vec),
        registered_at: Some(e.registered_at),
        modified_at: e.modified_at,
    }
}

impl SeriesEntity {
    /// The series the row stands for.
    pub fn to_domain(self) -> (r: Series)
        ensures
            r@ == series_of_entity(self),
    {
        let mut builder = Series::builder().id(self.id as u64).registered_at(self.registered_at);
        if let Some(name) = self.name {
            builder = builder.title(name);
        }
        if let Some(v) = self.vec {
            builder = builder.vec(v);
        }
        if let Some(m) = self.modified_at {
            builder = builder.modified_at(m);
        }
        if let Some(isbn) = self.isbn {
            builder = builder.isbn(isbn);
        }
        match builder.build() {
            Ok(s) => s,
            Err(_) => Series::builder().build().unwrap(),
        }
    }
}

/// A book row.
#[derive(Debug, Clone)]
pub struct BookEntity {
    pub id: i64,
    pub isbn: String,
    pub publisher_id: i64,
    pub series_id: Option<i64>,
    pub title: String,
    pub scheduled_pub_date: Option<Date>,
    pub actual_pub_date: Option<Date>,
    pub registered_at: DateTime,
    pub modified_at: Option<DateTime>,
}

/// What the builder of a row holds; ids are taken by their bits.
pub open spec fn builder_of_entity(e: BookEntity) -> BookBuilderView {
    BookBuilderView {
        id: Some(e.id as u64),
        isbn: Some(e.isbn@),
        publisher_id: Some(e.publisher_id as u64),
        series_id: match e.series_id {
            Some(s) => Some(s as u64),
            None => None,
        },
        title: Some(e.title@),
        scheduled_pub_date: e.scheduled_pub_date,
        actual_pub_date: e.actual_pub_date,
        originals: Map::empty(),
        registered_at: Some(e.registered_at),
        modified_at: e.modified_at,
    }
}

impl BookEntity {
    /// A builder holding everything the row holds.
    pub fn to_domain_builder(&self) -> (r: BookBuilder)
        ensures
            r@ == builder_of_entity(*self),
    {
        let mut builder = Book::builder()
            .id(self.id as u64)
            .isbn(self.isbn.clone())
            .publisher_id(self.publisher_id as u64)
            .title(self.title.clone())
            .registered_at(self.registered_at);
        if let Some(series_id) = self.series_id {
            builder = builder.series_id(series_id as u64);
        }
        if let Some(d) = self.scheduled_pub_date {
            builder = builder.scheduled_pub_date(d);
        }
        if let Some(d) = self.actual_pub_date {
            builder = builder.actual_pub_date(d);
        }
        if let Some(m) = self.modified_at {
            builder = builder.modified_at(m);
        }
        builder
    }
}

/// The book of a row together with the original data loaded for it, when
/// there is some.
pub fn compose_entity_with_original(entity: &BookEntity, original: Option<(Site, Raw)>) -> (r: Book)
    ensures
        r@ == built_view(match original {
            Some((s, raw)) => BookBuilderView {
                originals: builder_of_entity(*entity).originals.insert(s, crate::item::raw::object_model(raw)),
                ..builder_of_entity(*entity)
            },
            None => builder_of_entity(*entity),
        }),
{
    let mut builder = entity.to_domain_builder();
    if let Some((site, raw)) = original {
        builder = builder.add_original(site, raw);
    }
    match builder.build() {
        Ok(b) => b,
        Err(_) => Book::builder().isbn(String::new()).title(String::new()).build().unwrap(),
    }
}

/// A filter row of the current model.
#[derive(Debug, Clone)]
pub struct BookOriginFilterEntity {
    pub id: i64,
    pub name: String,
    pub site: String,
    pub is_root: bool,
    pub operator_type: Option<String>,
    pub property_name: Option<String>,
    pub regex_val: Option<String>,
    pub parent_id: Option<i64>,
}

impl BookOriginFilterEntity {
    /// Whether the row tests a property: it has both a property and a pattern.
    pub fn is_operand(&self) -> (r: bool)
        ensures
            r == (self.property_name is Some && self.regex_val is Some),
    {
        self.property_name.is_some() && self.regex_val.is_some()
    }

    /// Whether the row combines its children: it has an operator code.
    pub fn is_operator(&self) -> (r: bool)
        ensures
            r == self.operator_type is Some,
    {
        self.operator_type.is_some()
    }

    /// The rule the row stands for, when it can be made: an expression when
    /// the row has an operator code that names an operator, otherwise an
    /// operand when the row has a property and a pattern that compiles.
    pub fn try_to_domain(&self) -> (r: Option<FilterRule>)
        ensures
            match self.operator_type {
                Some(code) => match operator_of_code(code@) {
                    Some(op) => r matches Some(f) && f@.name == self.name@ && f@.operator == Some(op)
                        && f@.rule is None && f@.operands.len() == 0,
                    None => r is None,
                },
                None => match (self.property_name, self.regex_val) {
                    (Some(p), Some(re)) => if regex_compiles(re@) {
                        r matches Some(f) && f@.name == self.name@ && f@.operator is None
                            && f@.rule == Some((p@, re@)) && f@.operands.len() == 0
                    } else {
                        r is None
                    },
                    _ => r is None,
                },
            },
    {
        let makes_one = match &self.operator_type {
            Some(code) => Operator::from_str(code.as_str()).is_ok(),
            None => match (&self.property_name, &self.regex_val) {
                (Some(_), Some(re)) => crate::text::regex_valid(re.as_str()),
                _ => false,
            },
        };
        if makes_one {
            Some(self.to_domain())
        } else {
            None
        }
    }

    /// The rule the row stands for; the row must make one (see
    /// [`BookOriginFilterEntity::try_to_domain`]).
    pub fn to_domain(&self) -> (r: FilterRule)
        requires
            match self.operator_type {
                Some(code) => operator_of_code(code@) is Some,
                None => self.property_name is Some && (self.regex_val matches Some(re) && regex_compiles(re@)),
            },
        ensures
            match self.operator_type {
                Some(code) => r@.name == self.name@ && r@.operator == operator_of_code(code@) && r@.rule is None
                    && r@.operands.len() == 0,
                None => r@.name == self.name@ && r@.operator is None
                    && r@.rule == Some((self.property_name->0@, self.regex_val->0@)) && r@.operands.len() == 0,
            },
    {
        match &self.operator_type {
            Some(code) => match Operator::from_str(code.as_str()) {
                Ok(op) => FilterRule::new_operator(self.name.as_str(), op),
                Err(_) => FilterRule::new_operator(self.name.as_str(), Operator::AND),
            },
            None => match (&self.property_name, &self.regex_val) {
                (Some(p), Some(re)) => FilterRule::new_operand(self.name.as_str(), p.as_str(), re.as_str()),
                _ => FilterRule::new_operator(self.name.as_str(), Operator::AND),
            },
        }
    }
}

/// Where the original data of saved books is stored: for each saved row in
/// order whose ISBN one of `books` has, the row's id and the position of the
/// last of `books` with that ISBN, whose data is stored under that id.
pub open spec fn origin_save_plan(saved: Seq<BookEntity>, books: Seq<Book>) -> Seq<(i64, int)>
    decreases saved.len(),
{
    if saved.len() == 0 {
        Seq::empty()
    } else {
        let prev = origin_save_plan(saved.drop_last(), books);
        match last_index_with_isbn(books, saved.last().isbn@) {
            Some(j) => prev.push((saved.last().id, j)),
            None => prev,
        }
    }
}

/// The original data to store after saving `books` as the rows `saved`:
/// none when the store keeps no original data, else [`origin_save_plan`].
pub fn plan_original_data_saves(saved: &Vec<BookEntity>, books: &Vec<Book>, with_origin: bool) -> (r: Vec<(i64, usize)>)
    ensures
        !with_origin ==> r@.len() == 0,
        with_origin ==> r@.len() == origin_save_plan(saved@, books@).len()
            && forall|i: int| 0 <= i < r@.len() ==> (#[trigger] r@[i]).0 == origin_save_plan(saved@, books@)[i].0
                && r@[i].1 as int == origin_save_plan(saved@, books@)[i].1,
{
    let mut out: Vec<(i64, usize)> = Vec::new();
    if !with_origin {
        return out;
    }
    let n = saved.len();
    let mut i: usize = 0;
    while i < n
        invariant
            n == saved@.len(),
            i <= n,
            out@.len() == origin_save_plan(saved@.subrange(0, i as int), books@).len(),
            forall|k: int| 0 <= k < out@.len() ==> (#[trigger] out@[k]).0 == origin_save_plan(saved@.subrange(0, i as int), books@)[k].0
                && out@[k].1 as int == origin_save_plan(saved@.subrange(0, i as int), books@)[k].1,
        decreases n - i,
    {
        proof {
            assert(saved@.subrange(0, i + 1).drop_last() =~= saved@.subrange(0, i as int));
            assert(saved@.subrange(0, i + 1).last() == saved@[i as int]);
        }
        match find_last_given(books, saved[i].isbn.as_str()) {
            Some(k) => {
                out.push((saved[i].id, k));
            },
            None => {},
        }
        i = i + 1;
    }
    proof {
        assert(saved@.subrange(0, n as int) =~= saved@);
    }
    out
}

/// The sites of original data a book holds, in the order NLGO, Naver,
/// Aladin, Kyobo.
pub open spec fn sites_of(o: Map<Site, Seq<(Seq<char>, RawModel)>>) -> Seq<Site> {
    (if o.contains_key(Site::NLGO) { seq![Site::NLGO] } else { Seq::empty() })
    + (if o.contains_key(Site::Naver) { seq![Site::Naver] } else { Seq::empty() })
    + (if o.contains_key(Site::Aladin) { seq![Site::Aladin] } else { Seq::empty() })
    + (if o.contains_key(Site::KyoboBook) { seq![Site::KyoboBook] } else { Seq::empty() })
}

/// How updating a book replaces its original data: the book's id as the
/// store keys it, and the sites whose stored data is deleted before the
/// book's data is stored again; `None` when the store keeps no original data.
pub fn plan_original_data_update(book: &Book, with_origin: bool) -> (r: Option<(i64, Vec<Site>)>)
    ensures
        !with_origin ==> r is None,
        with_origin ==> (r matches Some((id, sites)) && id == book@.id as i64 && sites@ == sites_of(book@.originals)),
{
    if !with_origin {
        return None;
    }
    let o = book.originals();
    let mut sites: Vec<Site> = Vec::new();
    if o.contains_key(&Site::NLGO) {
        sites.push(Site::NLGO);
    }
    let ghost s1 = sites@;
    if o.contains_key(&Site::Naver) {
        sites.push(Site::Naver);
    }
    let ghost s2 = sites@;
    if o.contains_key(&Site::Aladin) {
        sites.push(Site::Aladin);
    }
    let ghost s3 = sites@;
    if o.contains_key(&Site::KyoboBook) {
        sites.push(Site::KyoboBook);
    }
    proof {
        assert(book@.originals.dom() =~= o@.dom());
        assert(sites@ =~= sites_of(book@.originals));
    }
    Some((book.id() as i64, sites))
}

/// The last of `books` with ISBN `isbn`, by model.
pub open spec fn last_book_with_isbn(books: Seq<Book>, isbn: Seq<char>) -> Option<crate::item::BookView>
    decreases books.len(),
{
    if books.len() == 0 {
        None
    } else if books.last()@.isbn == isbn {
        Some(books.last()@)
    } else {
        last_book_with_isbn(books.drop_last(), isbn)
    }
}

/// The position of the last of `books` with ISBN `isbn`.
pub open spec fn last_index_with_isbn(books: Seq<Book>, isbn: Seq<char>) -> Option<int>
    decreases books.len(),
{
    if books.len() == 0 {
        None
    } else if books.last()@.isbn == isbn {
        Some(books.len() - 1)
    } else {
        last_index_with_isbn(books.drop_last(), isbn)
    }
}

/// Whether an earlier saved row than `i` has the ISBN of row `i`.
pub open spec fn isbn_seen_before(saved: Seq<BookEntity>, i: int) -> bool {
    exists|j: int| 0 <= j < i && #[trigger] saved[j].isbn@ == saved[i].isbn@
}

/// The book the store saved as row `i`, with the original data of the book
/// that was given to it with that ISBN (the last one given, if several
/// were); a second row with the same ISBN gets no data.
pub open spec fn saved_book(saved: Seq<BookEntity>, books: Seq<Book>, i: int) -> crate::item::BookView {
    let b = builder_of_entity(saved[i]);
    match last_book_with_isbn(books, saved[i].isbn@) {
        Some(given) => if isbn_seen_before(saved, i) {
            built_view(b)
        } else {
            built_view(BookBuilderView { originals: given.originals, ..b })
        },
        None => built_view(b),
    }
}

fn find_last_given(books: &Vec<Book>, isbn: &str) -> (r: Option<usize>)
    ensures
        r matches Some(k) ==> k < books@.len() && last_book_with_isbn(books@, isbn@) == Some(books@[k as int]@)
            && last_index_with_isbn(books@, isbn@) == Some(k as int),
        r is None ==> last_book_with_isbn(books@, isbn@) is None && last_index_with_isbn(books@, isbn@) is None,
{
    let mut k = books.len();
    proof {
        assert(books@.subrange(0, k as int) =~= books@);
    }
    while k > 0
        invariant
            k <= books@.len(),
            last_book_with_isbn(books@, isbn@) == last_book_with_isbn(books@.subrange(0, k as int), isbn@),
            last_index_with_isbn(books@, isbn@) == last_index_with_isbn(books@.subrange(0, k as int), isbn@),
        decreases k,
    {
        proof {
            assert(books@.subrange(0, k - 1) =~= books@.subrange(0, k as int).drop_last());
        }
        if crate::text::str_eq(books[k - 1].isbn(), isbn) {
            return Some(k - 1);
        }
        k = k - 1;
    }
    None
}

fn seen_before(saved: &Vec<BookEntity>, i: usize) -> (r: bool)
    requires
        i < saved@.len(),
    ensures
        r == isbn_seen_before(saved@, i as int),
{
    let mut j: usize = 0;
    while j < i
        invariant
            i < saved@.len(),
            j <= i,
            forall|k: int| 0 <= k < j ==> #[trigger] saved@[k].isbn@ != saved@[i as int].isbn@,
        decreases i - j,
    {
        if crate::text::str_eq(saved[j].isbn.as_str(), saved[i].isbn.as_str()) {
            return true;
        }
        j = j + 1;
    }
    false
}

/// The books the store saved, in its order, each with the original data of
/// the book given with its ISBN; see [`saved_book`].
pub fn attach_saved_originals(saved: &Vec<BookEntity>, books: &Vec<Book>) -> (r: Vec<Book>)
    ensures
        r@.len() == saved@.len(),
        forall|i: int| 0 <= i < r@.len() ==> #[trigger] r@[i]@ == saved_book(saved@, books@, i),
{
    let n = saved.len();
    let mut out: Vec<Book> = Vec::new();
    let mut i: usize = 0;
    while i < n
        invariant
            n == saved@.len(),
            i <= n,
            out@.len() == i,
            forall|k: int| 0 <= k < i ==> #[trigger] out@[k]@ == saved_book(saved@, books@, k),
        decreases n - i,
    {
        let builder = saved[i].to_domain_builder();
        let builder = match find_last_given(books, saved[i].isbn.as_str()) {
            Some(k) => {
                if seen_before(saved, i) {
                    builder
                } else {
                    let b = builder.add_originals(books[k].originals());
                    proof {
                        assert(b@.originals =~= books@[k as int]@.originals);
                    }
                    b
                }
            },
            None => builder,
        };
        let book = match builder.build() {
            Ok(b) => b,
            Err(_) => Book::builder().isbn(String::new()).title(String::new()).build().unwrap(),
        };
        out.push(book);
        i = i + 1;
    }
    out
}

/// The site a keyword row names: its site code compared without regard to case.
pub open spec fn keyword_site(k: PublisherKeywordEntity) -> Option<Site> {
    crate::item::site_of_code(crate::text::lowercase_of(k.site@))
}

/// The publisher with the keyword of a row appended at its site.
pub open spec fn with_site_keyword(p: PublisherView, site: Site, keyword: Seq<char>) -> PublisherView {
    PublisherView {
        keywords: p.keywords.insert(
            site,
            (if p.keywords.contains_key(site) { p.keywords[site] } else { Seq::empty() }).push(keyword),
        ),
        ..p
    }
}

/// The publishers of the rows of publishers joined with their keywords: one
/// per id, in the order each id first appears, with the keywords of its
/// rows appended per site in row order; the code of the first keyword row
/// whose site is unknown when there is one.
pub open spec fn grouped_item_publishers(rows: Seq<(PublisherEntity, Option<PublisherKeywordEntity>)>) -> Result<Seq<PublisherView>, Seq<char>>
    decreases rows.len(),
{
    if rows.len() == 0 {
        Ok(Seq::empty())
    } else {
        match grouped_item_publishers(rows.drop_last()) {
            Err(e) => Err(e),
            Ok(prev) => {
                let (pe, kw) = rows.last();
                let id = pe.id as u64;
                let base = match crate::book::repository::index_of_publisher_view(prev, id) {
                    None => PublisherView { id, name: pe.name@, keywords: Map::empty() },
                    Some(j) => prev[j],
                };
                let updated = match kw {
                    None => Ok(base),
                    Some(k) => match keyword_site(k) {
                        Some(site) => Ok(with_site_keyword(base, site, k.keyword@)),
                        None => Err(k.site@),
                    },
                };
                match updated {
                    Err(e) => Err(e),
                    Ok(p) => match crate::book::repository::index_of_publisher_view(prev, id) {
                        None => Ok(prev.push(p)),
                        Some(j) => Ok(prev.update(j, p)),
                    },
                }
            },
        }
    }
}

fn find_item_publisher(ps: &Vec<Publisher>, id: u64) -> (r: Option<usize>)
    ensures
        r matches Some(j) ==> j < ps@.len() && ps@[j as int]@.id == id,
        r is None ==> forall|j: int| 0 <= j < ps@.len() ==> #[trigger] ps@[j]@.id != id,
{
    let n = ps.len();
    let mut j: usize = 0;
    while j < n
        invariant
            n == ps@.len(),
            j <= n,
            forall|k: int| 0 <= k < j ==> #[trigger] ps@[k]@.id != id,
        decreases n - j,
    {
        if ps[j].id() == id {
            return Some(j);
        }
        j = j + 1;
    }
    None
}

/// The publishers of the rows; see [`grouped_item_publishers`]. A keyword
/// row whose site is unknown is reported by its code.
pub fn group_item_publishers(rows: &Vec<(PublisherEntity, Option<PublisherKeywordEntity>)>) -> (r: Result<Vec<Publisher>, ItemError>)
    ensures
        match grouped_item_publishers(rows@) {
            Ok(ps) => r matches Ok(v) && v@.map_values(|p: Publisher| p@) == ps,
            Err(code) => r matches Err(ItemError::UnknownCode(c)) && c@ == code,
        },
{
    let n = rows.len();
    let mut out: Vec<Publisher> = Vec::new();
    let mut i: usize = 0;
    proof {
        assert(out@.map_values(|p: Publisher| p@) =~= Seq::<PublisherView>::empty());
        assert(rows@.subrange(0, 0) =~= Seq::<(PublisherEntity, Option<PublisherKeywordEntity>)>::empty());
    }
    while i < n
        invariant
            n == rows@.len(),
            i <= n,
            grouped_item_publishers(rows@.subrange(0, i as int)) == Ok::<Seq<PublisherView>, Seq<char>>(out@.map_values(|p: Publisher| p@)),
        decreases n - i,
    {
        let ghost prev = out@.map_values(|p: Publisher| p@);
        proof {
            assert(rows@.subrange(0, i + 1).drop_last() =~= rows@.subrange(0, i as int));
            assert(rows@.subrange(0, i + 1).last() == rows@[i as int]);
            crate::book::repository::lemma_unique_views(rows@.subrange(0, i as int));
            assert(crate::book::repository::unique_view_ids(prev));
        }
        let row = &rows[i];
        let id = row.0.id as u64;
        let found = find_item_publisher(&out, id);
        proof {
            match found {
                Some(j) => {
                    let c = choose|k: int| 0 <= k < prev.len() && #[trigger] prev[k].id == id;
                    assert(prev[j as int].id == id);
                    assert(c == j as int);
                    assert(crate::book::repository::index_of_publisher_view(prev, id) == Some(j as int));
                },
                None => {
                    assert(!(exists|k: int| 0 <= k < prev.len() && #[trigger] prev[k].id == id));
                },
            }
        }
        let mut p = match found {
            Some(j) => out.remove(j),
            None => Publisher::without_keywords(id, row.0.name.clone()),
        };
        match &row.1 {
            None => {},
            Some(k) => match Site::try_from(k.site.as_str()) {
                Ok(site) => p.add_keyword(site, k.keyword.clone()),
                Err(e) => {
                    proof {
                        lemma_item_prefix_error(rows@, i as int + 1);
                    }
                    return Err(e);
                },
            },
        }
        let ghost pv = p@;
        match found {
            Some(j) => {
                out.insert(j, p);
                proof {
                    assert(out@.map_values(|p: Publisher| p@) =~= prev.update(j as int, pv));
                }
            },
            None => {
                out.push(p);
                proof {
                    assert(out@.map_values(|p: Publisher| p@) =~= prev.push(pv));
                }
            },
        }
        i = i + 1;
    }
    proof {
        assert(rows@.subrange(0, n as int) =~= rows@);
    }
    Ok(out)
}

proof fn lemma_item_prefix_error(rows: Seq<(PublisherEntity, Option<PublisherKeywordEntity>)>, i: int)
    requires
        0 <= i <= rows.len(),
        grouped_item_publishers(rows.subrange(0, i)) is Err,
    ensures
        grouped_item_publishers(rows) == grouped_item_publishers(rows.subrange(0, i)),
    decreases rows.len() - i,
{
    if i < rows.len() {
        assert(rows.subrange(0, i + 1).drop_last() =~= rows.subrange(0, i));
        lemma_item_prefix_error(rows, i + 1);
    } else {
        assert(rows.subrange(0, i) =~= rows);
    }
}

} // verus!
