//! Books, publishers and series as the batch jobs see them, together with
//! the original data that each site delivered for a book and the rules that
//! decide whether such data is acceptable.
use vstd::prelude::*;
use crate::dict::Dict;
use crate::date::{Date, DateTime};
use crate::item::raw::{Raw, RawModel, RawValue, copy_raw, object_model};

pub mod raw;
pub mod rule;
pub mod raw_utils;
pub mod repo;

verus! {

/// Errors of the item module.
#[derive(Debug, Clone, PartialEq, Eq)]
pub enum ItemError {
    /// Required data was not given.
    RequireArgumentMissing(String),
    /// A code that names no known value.
    UnknownCode(String),
}

/// The site a book's data came from.
#[derive(Debug, Clone, Copy, PartialEq, Eq, Hash, Structural)]
pub enum Site {
    NLGO,
    Naver,
    Aladin,
    KyoboBook,
}

/// The name of a lower-cased site code, when it is one.
pub open spec fn site_of_code(lowered: Seq<char>) -> Option<Site> {
    if lowered == "nlgo"@ {
        Some(Site::NLGO)
    } else if lowered == "naver"@ {
        Some(Site::Naver)
    } else if lowered == "aladin"@ {
        Some(Site::Aladin)
    } else if lowered == "kyobo"@ {
        Some(Site::KyoboBook)
    } else {
        None
    }
}

/// The text a site is displayed as reads back as the site: it is ASCII, and
/// lowered it is the site's code.
pub proof fn lemma_site_text_round_trip(site: Site)
    ensures
        crate::text::is_ascii_text(site_display(site)),
        site_of_code(crate::text::ascii_lowercase(site_display(site))) == Some(site),
{
    reveal_strlit("NLGO");
    reveal_strlit("NAVER");
    reveal_strlit("ALADIN");
    reveal_strlit("KYOBO");
    reveal_strlit("nlgo");
    reveal_strlit("naver");
    reveal_strlit("aladin");
    reveal_strlit("kyobo");
    let d = site_display(site);
    assert(crate::text::is_ascii_text(d));
    match site {
        Site::NLGO => {
            assert(crate::text::ascii_lowercase(d) =~= "nlgo"@);
        },
        Site::Naver => {
            assert(crate::text::ascii_lowercase(d) =~= "naver"@);
            assert("naver"@ != "nlgo"@);
        },
        Site::Aladin => {
            assert(crate::text::ascii_lowercase(d) =~= "aladin"@);
            assert("aladin"@ != "nlgo"@);
            assert("aladin"@ != "naver"@);
        },
        Site::KyoboBook => {
            assert(crate::text::ascii_lowercase(d) =~= "kyobo"@);
            assert("kyobo"@ != "nlgo"@);
            assert("kyobo"@[0] != "naver"@[0]);
            assert("kyobo"@ != "aladin"@);
        },
    }
}

/// The text a site is displayed as.
pub open spec fn site_display(site: Site) -> Seq<char> {
    match site {
        Site::NLGO => "NLGO"@,
        Site::Naver => "NAVER"@,
        Site::Aladin => "ALADIN"@,
        Site::KyoboBook => "KYOBO"@,
    }
}

impl Site {
    /// The site whose code is `lowered`, the lower-cased form of `value`;
    /// an unknown code is reported with `value` itself.
    pub fn from_lowercase(lowered: &str, value: &str) -> (r: Result<Site, ItemError>)
        ensures
            r matches Ok(s) ==> site_of_code(lowered@) == Some(s),
            r matches Err(e) ==> site_of_code(lowered@) is None && (e matches ItemError::UnknownCode(
                v,
            ) && v@ == value@),
    {
        proof {
            reveal_strlit("nlgo");
            reveal_strlit("naver");
            reveal_strlit("aladin");
            reveal_strlit("kyobo");
        }
        if crate::text::str_eq(lowered, "nlgo") {
            Ok(Site::NLGO)
        } else if crate::text::str_eq(lowered, "naver") {
            Ok(Site::Naver)
        } else if crate::text::str_eq(lowered, "aladin") {
            Ok(Site::Aladin)
        } else if crate::text::str_eq(lowered, "kyobo") {
            Ok(Site::KyoboBook)
        } else {
            Err(ItemError::UnknownCode(value.to_owned()))
        }
    }

    /// The site named by `value`, compared without regard to case.
    pub fn try_from(value: &str) -> (r: Result<Site, ItemError>)
        ensures
            r matches Ok(s) ==> site_of_code(crate::text::lowercase_of(value@)) == Some(s),
            r matches Err(e) ==> site_of_code(crate::text::lowercase_of(value@)) is None
                && (e matches ItemError::UnknownCode(v) && v@ == value@),
            crate::text::is_ascii_text(value@) ==> crate::text::lowercase_of(value@) == crate::text::ascii_lowercase(value@),
    {
        let lowered = crate::text::to_lowercase(value);
        Site::from_lowercase(lowered.as_str(), value)
    }

    /// The text the site is displayed as.
    pub fn to_string(&self) -> (r: String)
        ensures
            r@ == site_display(*self),
    {
        proof {
            reveal_strlit("NLGO");
            reveal_strlit("NAVER");
            reveal_strlit("ALADIN");
            reveal_strlit("KYOBO");
        }
        match self {
            Site::NLGO => "NLGO".to_owned(),
            Site::Naver => "NAVER".to_owned(),
            Site::Aladin => "ALADIN".to_owned(),
            Site::KyoboBook => "KYOBO".to_owned(),
        }
    }
}

/// A value for each site at most.
#[derive(Debug, Clone, PartialEq, Eq)]
pub struct SiteMap<V> {
    nlgo: Option<V>,
    naver: Option<V>,
    aladin: Option<V>,
    kyobo: Option<V>,
}

impl<V> SiteMap<V> {
    pub closed spec fn slot(&self, site: Site) -> Option<V> {
        match site {
            Site::NLGO => self.nlgo,
            Site::Naver => self.naver,
            Site::Aladin => self.aladin,
            Site::KyoboBook => self.kyobo,
        }
    }

    /// The map from each site to its value.
    pub closed spec fn view(&self) -> Map<Site, V> {
        Map::new(|s: Site| self.slot(s) is Some, |s: Site| self.slot(s)->0)
    }

    pub fn new() -> (r: Self)
        ensures
            r@ == Map::<Site, V>::empty(),
    {
        let r = SiteMap { nlgo: None, naver: None, aladin: None, kyobo: None };
        assert(r@ =~= Map::<Site, V>::empty());
        r
    }

    pub fn get(&self, site: &Site) -> (r: Option<&V>)
        ensures
            r matches Some(v) ==> self@.contains_key(*site) && *v == self@[*site],
            r is None ==> !self@.contains_key(*site),
    {
        match site {
            Site::NLGO => self.nlgo.as_ref(),
            Site::Naver => self.naver.as_ref(),
            Site::Aladin => self.aladin.as_ref(),
            Site::KyoboBook => self.kyobo.as_ref(),
        }
    }

    pub fn contains_key(&self, site: &Site) -> (r: bool)
        ensures
            r == self@.contains_key(*site),
    {
        self.get(site).is_some()
    }

    pub fn insert(&mut self, site: Site, v: V)
        ensures
            final(self)@ == old(self)@.insert(site, v),
    {
        match site {
            Site::NLGO => self.nlgo = Some(v),
            Site::Naver => self.naver = Some(v),
            Site::Aladin => self.aladin = Some(v),
            Site::KyoboBook => self.kyobo = Some(v),
        }
        assert(self@ =~= old(self)@.insert(site, v));
    }

    pub fn remove(&mut self, site: &Site) -> (r: Option<V>)
        ensures
            final(self)@ == old(self)@.remove(*site),
            r matches Some(v) ==> old(self)@.contains_key(*site) && v == old(self)@[*site],
            r is None ==> !old(self)@.contains_key(*site),
    {
        let r = match site {
            Site::NLGO => self.nlgo.take(),
            Site::Naver => self.naver.take(),
            Site::Aladin => self.aladin.take(),
            Site::KyoboBook => self.kyobo.take(),
        };
        assert(self@ =~= old(self)@.remove(*site));
        r
    }
}

/// The original data of a book, per site.
pub type Originals = SiteMap<Raw>;

/// What the original data of a book stands for, per site.
pub open spec fn originals_model(o: Originals) -> Map<Site, Seq<(Seq<char>, RawModel)>> {
    o@.map_values(|r: Raw| object_model(r))
}

/// What a book stands for.
pub struct BookView {
    pub id: u64,
    pub isbn: Seq<char>,
    pub publisher_id: u64,
    pub series_id: Option<u64>,
    pub title: Seq<char>,
    pub scheduled_pub_date: Option<Date>,
    pub actual_pub_date: Option<Date>,
    pub originals: Map<Site, Seq<(Seq<char>, RawModel)>>,
    pub registered_at: Option<DateTime>,
    pub modified_at: Option<DateTime>,
}

/// What a book builder holds so far.
pub struct BookBuilderView {
    pub id: Option<u64>,
    pub isbn: Option<Seq<char>>,
    pub publisher_id: Option<u64>,
    pub series_id: Option<u64>,
    pub title: Option<Seq<char>>,
    pub scheduled_pub_date: Option<Date>,
    pub actual_pub_date: Option<Date>,
    pub originals: Map<Site, Seq<(Seq<char>, RawModel)>>,
    pub registered_at: Option<DateTime>,
    pub modified_at: Option<DateTime>,
}

pub open spec fn text_of(s: Option<String>) -> Option<Seq<char>> {
    match s {
        Some(t) => Some(t@),
        None => None,
    }
}

/// A book.
#[derive(Debug, Clone)]
pub struct Book {
    id: u64,
    isbn: String,
    publisher_id: u64,
    series_id: Option<u64>,
    title: String,
    scheduled_pub_date: Option<Date>,
    actual_pub_date: Option<Date>,
    originals: Originals,
    registered_at: Option<DateTime>,
    modified_at: Option<DateTime>,
}

impl Book {
    pub closed spec fn view(&self) -> BookView {
        BookView {
            id: self.id,
            isbn: self.isbn@,
            publisher_id: self.publisher_id,
            series_id: self.series_id,
            title: self.title@,
            scheduled_pub_date: self.scheduled_pub_date,
            actual_pub_date: self.actual_pub_date,
            originals: originals_model(self.originals),
            registered_at: self.registered_at,
            modified_at: self.modified_at,
        }
    }

    /// A builder with nothing set.
    pub fn builder() -> (r: BookBuilder)
        ensures
            r@ == empty_builder_view(),
    {
        BookBuilder::new()
    }

    pub fn id(&self) -> (r: u64)
        ensures
            r == self@.id,
    {
        self.id
    }

    pub fn isbn(&self) -> (r: &str)
        ensures
            r@ == self@.isbn,
    {
        self.isbn.as_str()
    }

    pub fn publisher_id(&self) -> (r: u64)
        ensures
            r == self@.publisher_id,
    {
        self.publisher_id
    }

    pub fn series_id(&self) -> (r: Option<u64>)
        ensures
            r == self@.series_id,
    {
        self.series_id
    }

    pub fn title(&self) -> (r: &str)
        ensures
            r@ == self@.title,
    {
        self.title.as_str()
    }

    pub fn scheduled_pub_date(&self) -> (r: Option<Date>)
        ensures
            r == self@.scheduled_pub_date,
    {
        self.scheduled_pub_date
    }

    pub fn actual_pub_date(&self) -> (r: Option<Date>)
        ensures
            r == self@.actual_pub_date,
    {
        self.actual_pub_date
    }

    pub fn originals(&self) -> (r: &Originals)
        ensures
            originals_model(*r) == self@.originals,
    {
        &self.originals
    }

    pub fn registered_at(&self) -> (r: Option<DateTime>)
        ensures
            r == self@.registered_at,
    {
        self.registered_at
    }

    pub fn modified_at(&self) -> (r: Option<DateTime>)
        ensures
            r == self@.modified_at,
    {
        self.modified_at
    }

    /// Links the book to a series.
    pub fn set_series_id(&mut self, series_id: u64)
        ensures
            final(self)@ == (BookView { series_id: Some(series_id), ..old(self)@ }),
    {
        self.series_id = Some(series_id);
    }

    /// The book updated by `other`: identity (id, ISBN, publisher) stays, the
    /// title is `other`'s, a publication date of `other` is taken when it
    /// differs from this book's (an equal one is dropped, as is a missing one),
    /// and the original data of both is kept with `other`'s winning per site.
    /// The series and the timestamps are not carried over.
    pub fn merge(&self, other: &Book) -> (r: Book)
        ensures
            r@ == merged_view(self@, other@),
    {
        let mut new_builder = Self::builder()
            .id(self.id)
            .title(self.title.clone())
            .isbn(self.isbn.clone())
            .publisher_id(self.publisher_id);

        new_builder = new_builder.add_originals(&self.originals);

        if self.title != other.title {
            new_builder = new_builder.title(other.title.clone());
        }

        if let Some(spd) = other.scheduled_pub_date {
            if Some(spd) != self.scheduled_pub_date {
                new_builder = new_builder.scheduled_pub_date(spd);
            }
        }

        if let Some(apd) = other.actual_pub_date {
            if Some(apd) != self.actual_pub_date {
                new_builder = new_builder.actual_pub_date(apd);
            }
        }

        new_builder = new_builder.add_originals(&other.originals);

        let r = new_builder.build();
        match r {
            Ok(b) => {
                proof {
                    assert(b@.originals =~= merged_view(self@, other@).originals);
                }
                b
            },
            Err(_) => {
                proof {
                    assert(false);
                }
                self.clone()
            },
        }
    }

    /// A builder holding everything this book holds.
    pub fn to_builder(&self) -> (r: BookBuilder)
        ensures
            r@ == builder_view_of(self@),
    {
        let mut builder = BookBuilder::new()
            .id(self.id)
            .isbn(self.isbn.clone())
            .publisher_id(self.publisher_id)
            .title(self.title.clone());

        if let Some(series_id) = self.series_id {
            builder = builder.series_id(series_id);
        }
        if let Some(scheduled_date) = self.scheduled_pub_date {
            builder = builder.scheduled_pub_date(scheduled_date);
        }
        if let Some(actual_date) = self.actual_pub_date {
            builder = builder.actual_pub_date(actual_date);
        }
        if let Some(registered_at) = self.registered_at {
            builder = builder.registered_at(registered_at);
        }
        if let Some(modified_at) = self.modified_at {
            builder = builder.modified_at(modified_at);
        }
        builder = builder.add_originals(&self.originals);
        proof {
            assert(builder@.originals =~= builder_view_of(self@).originals);
        }
        builder
    }
}

/// What `merge` makes of a book and its update.
pub open spec fn merged_view(a: BookView, b: BookView) -> BookView {
    BookView {
        id: a.id,
        isbn: a.isbn,
        publisher_id: a.publisher_id,
        series_id: None,
        title: b.title,
        scheduled_pub_date: if b.scheduled_pub_date is Some && b.scheduled_pub_date != a.scheduled_pub_date {
            b.scheduled_pub_date
        } else {
            None
        },
        actual_pub_date: if b.actual_pub_date is Some && b.actual_pub_date != a.actual_pub_date {
            b.actual_pub_date
        } else {
            None
        },
        originals: a.originals.union_prefer_right(b.originals),
        registered_at: None,
        modified_at: None,
    }
}

/// Merging a stored book with its update keeps the stored book's identity
/// (id, ISBN, publisher), takes the update's title, and for original data
/// the update wins: a site the update has data of holds the update's data,
/// a site only the stored book has data of keeps it, and no other site has
/// data.
pub proof fn lemma_merge_update_wins_per_site(stored: BookView, update: BookView)
    ensures
        merged_view(stored, update).id == stored.id,
        merged_view(stored, update).isbn == stored.isbn,
        merged_view(stored, update).publisher_id == stored.publisher_id,
        merged_view(stored, update).title == update.title,
        forall|s: Site| #[trigger] update.originals.contains_key(s)
            ==> merged_view(stored, update).originals.contains_key(s)
                && merged_view(stored, update).originals[s] == update.originals[s],
        forall|s: Site| stored.originals.contains_key(s) && !update.originals.contains_key(s)
            ==> #[trigger] merged_view(stored, update).originals.contains_key(s)
                && merged_view(stored, update).originals[s] == stored.originals[s],
        forall|s: Site| #[trigger] merged_view(stored, update).originals.contains_key(s)
            ==> stored.originals.contains_key(s) || update.originals.contains_key(s),
{
}

/// A builder holding every part of a book.
pub open spec fn builder_view_of(b: BookView) -> BookBuilderView {
    BookBuilderView {
        id: Some(b.id),
        isbn: Some(b.isbn),
        publisher_id: Some(b.publisher_id),
        series_id: b.series_id,
        title: Some(b.title),
        scheduled_pub_date: b.scheduled_pub_date,
        actual_pub_date: b.actual_pub_date,
        originals: b.originals,
        registered_at: b.registered_at,
        modified_at: b.modified_at,
    }
}

/// A builder with nothing set.
pub open spec fn empty_builder_view() -> BookBuilderView {
    BookBuilderView {
        id: None,
        isbn: None,
        publisher_id: None,
        series_id: None,
        title: None,
        scheduled_pub_date: None,
        actual_pub_date: None,
        originals: Map::empty(),
        registered_at: None,
        modified_at: None,
    }
}

/// The book a builder makes when both ISBN and title are set: a missing id
/// or publisher becomes 0.
pub open spec fn built_view(v: BookBuilderView) -> BookView {
    BookView {
        id: match v.id { Some(i) => i, None => 0 },
        isbn: v.isbn->0,
        publisher_id: match v.publisher_id { Some(i) => i, None => 0 },
        series_id: v.series_id,
        title: v.title->0,
        scheduled_pub_date: v.scheduled_pub_date,
        actual_pub_date: v.actual_pub_date,
        originals: v.originals,
        registered_at: v.registered_at,
        modified_at: v.modified_at,
    }
}

/// Builds a [`Book`] part by part.
#[derive(Debug, Clone)]
pub struct BookBuilder {
    id: Option<u64>,
    isbn: Option<String>,
    publisher_id: Option<u64>,
    series_id: Option<u64>,
    title: Option<String>,
    scheduled_pub_date: Option<Date>,
    actual_pub_date: Option<Date>,
    originals: Originals,
    registered_at: Option<DateTime>,
    modified_at: Option<DateTime>,
}

impl BookBuilder {
    pub closed spec fn view(&self) -> BookBuilderView {
        BookBuilderView {
            id: self.id,
            isbn: text_of(self.isbn),
            publisher_id: self.publisher_id,
            series_id: self.series_id,
            title: text_of(self.title),
            scheduled_pub_date: self.scheduled_pub_date,
            actual_pub_date: self.actual_pub_date,
            originals: originals_model(self.originals),
            registered_at: self.registered_at,
            modified_at: self.modified_at,
        }
    }

    pub fn new() -> (r: Self)
        ensures
            r@ == empty_builder_view(),
    {
        let r = BookBuilder {
            id: None,
            isbn: None,
            publisher_id: None,
            series_id: None,
            title: None,
            scheduled_pub_date: None,
            actual_pub_date: None,
            originals: SiteMap::new(),
            registered_at: None,
            modified_at: None,
        };
        assert(r@.originals =~= Map::empty());
        r
    }

    pub fn id(self, id: u64) -> (r: Self)
        ensures
            r@ == (BookBuilderView { id: Some(id), ..self@ }),
    {
        BookBuilder { id: Some(id), ..self }
    }

    pub fn isbn(self, isbn: String) -> (r: Self)
        ensures
            r@ == (BookBuilderView { isbn: Some(isbn@), ..self@ }),
    {
        BookBuilder { isbn: Some(isbn), ..self }
    }

    pub fn publisher_id(self, publisher_id: u64) -> (r: Self)
        ensures
            r@ == (BookBuilderView { publisher_id: Some(publisher_id), ..self@ }),
    {
        BookBuilder { publisher_id: Some(publisher_id), ..self }
    }

    pub fn title(self, title: String) -> (r: Self)
        ensures
            r@ == (BookBuilderView { title: Some(title@), ..self@ }),
    {
        BookBuilder { title: Some(title), ..self }
    }

    pub fn scheduled_pub_date(self, date: Date) -> (r: Self)
        ensures
            r@ == (BookBuilderView { scheduled_pub_date: Some(date), ..self@ }),
    {
        BookBuilder { scheduled_pub_date: Some(date), ..self }
    }

    pub fn actual_pub_date(self, date: Date) -> (r: Self)
        ensures
            r@ == (BookBuilderView { actual_pub_date: Some(date), ..self@ }),
    {
        BookBuilder { actual_pub_date: Some(date), ..self }
    }

    pub fn series_id(self, series_id: u64) -> (r: Self)
        ensures
            r@ == (BookBuilderView { series_id: Some(series_id), ..self@ }),
    {
        BookBuilder { series_id: Some(series_id), ..self }
    }

    pub fn registered_at(self, registered_at: DateTime) -> (r: Self)
        ensures
            r@ == (BookBuilderView { registered_at: Some(registered_at), ..self@ }),
    {
        BookBuilder { registered_at: Some(registered_at), ..self }
    }

    pub fn modified_at(self, modified_at: DateTime) -> (r: Self)
        ensures
            r@ == (BookBuilderView { modified_at: Some(modified_at), ..self@ }),
    {
        BookBuilder { modified_at: Some(modified_at), ..self }
    }

    /// Sets the original data of `site`, replacing what it had.
    pub fn add_original(self, site: Site, raw: Raw) -> (r: Self)
        ensures
            r@ == (BookBuilderView { originals: self@.originals.insert(site, object_model(raw)), ..self@ }),
    {
        let mut b = self;
        b.originals.insert(site, raw);
        proof {
            assert(originals_model(b.originals) =~= self@.originals.insert(site, object_model(raw)));
        }
        b
    }

    /// Sets one value of the original data of `site`.
    pub fn add_original_raw(self, site: Site, key: &str, raw_value: RawValue) -> (r: Self)
        ensures
            r@.originals.dom() == self@.originals.dom().insert(site),
            r@.originals.remove(site) == self@.originals.remove(site),
            r@ == (BookBuilderView { originals: r@.originals, ..self@ }),
    {
        let mut b = self;
        let mut raw = match b.originals.remove(&site) {
            Some(r) => r,
            None => Dict::new(),
        };
        raw.insert(key.to_owned(), raw_value);
        b.originals.insert(site, raw);
        proof {
            assert(originals_model(b.originals).dom() =~= self@.originals.dom().insert(site));
            assert(originals_model(b.originals).remove(site) =~= self@.originals.remove(site));
        }
        b
    }

    /// Sets the original data of every site that `originals` has, copying it.
    pub fn add_originals(self, originals: &Originals) -> (r: Self)
        ensures
            r@ == (BookBuilderView { originals: self@.originals.union_prefer_right(originals_model(*originals)), ..self@ }),
    {
        let mut b = self;
        if let Some(raw) = originals.get(&Site::NLGO) {
            b = b.add_original(Site::NLGO, copy_raw(raw));
        }
        if let Some(raw) = originals.get(&Site::Naver) {
            b = b.add_original(Site::Naver, copy_raw(raw));
        }
        if let Some(raw) = originals.get(&Site::Aladin) {
            b = b.add_original(Site::Aladin, copy_raw(raw));
        }
        if let Some(raw) = originals.get(&Site::KyoboBook) {
            b = b.add_original(Site::KyoboBook, copy_raw(raw));
        }
        proof {
            assert forall|s: Site| #![auto] b@.originals.contains_key(s) == self@.originals.union_prefer_right(originals_model(*originals)).contains_key(s)
                && (b@.originals.contains_key(s) ==> b@.originals[s] == self@.originals.union_prefer_right(originals_model(*originals))[s]) by {
                match s {
                    Site::NLGO => {},
                    Site::Naver => {},
                    Site::Aladin => {},
                    Site::KyoboBook => {},
                }
            }
            assert(b@.originals =~= self@.originals.union_prefer_right(originals_model(*originals)));
        }
        b
    }

    /// The book, when both ISBN and title are set; otherwise the first of
    /// them that is missing is reported.
    pub fn build(self) -> (r: Result<Book, ItemError>)
        ensures
            self@.isbn is None ==> (r matches Err(ItemError::RequireArgumentMissing(m)) && m@ == "isbn"@),
            self@.isbn is Some && self@.title is None ==> (r matches Err(ItemError::RequireArgumentMissing(m)) && m@ == "title"@),
            self@.isbn is Some && self@.title is Some ==> (r matches Ok(b) && b@ == built_view(self@)),
    {
        proof {
            reveal_strlit("isbn");
            reveal_strlit("title");
        }
        let isbn = match self.isbn {
            Some(i) => i,
            None => return Err(ItemError::RequireArgumentMissing("isbn".to_owned())),
        };
        let title = match self.title {
            Some(t) => t,
            None => return Err(ItemError::RequireArgumentMissing("title".to_owned())),
        };
        Ok(Book {
            id: match self.id { Some(i) => i, None => 0 },
            isbn,
            publisher_id: match self.publisher_id { Some(i) => i, None => 0 },
            series_id: self.series_id,
            title,
            scheduled_pub_date: self.scheduled_pub_date,
            actual_pub_date: self.actual_pub_date,
            originals: self.originals,
            registered_at: self.registered_at,
            modified_at: self.modified_at,
        })
    }
}

/// Building what `to_builder` gives back yields the same book.
pub proof fn lemma_to_builder_build_round_trip(b: BookView)
    ensures
        built_view(builder_view_of(b)) == b,
{
}

/// What a publisher stands for.
pub struct PublisherView {
    pub id: u64,
    pub name: Seq<char>,
    /// The search keywords of the publisher at each site, in the order added.
    pub keywords: Map<Site, Seq<Seq<char>>>,
}

/// The texts of a list of strings.
pub open spec fn texts(v: Vec<String>) -> Seq<Seq<char>> {
    v@.map_values(|s: String| s@)
}

/// The keywords per site, as texts.
pub open spec fn keywords_model(k: SiteMap<Vec<String>>) -> Map<Site, Seq<Seq<char>>> {
    k@.map_values(|v: Vec<String>| texts(v))
}

/// A publisher, with the keywords under which its books are searched at
/// each site.
#[derive(Debug, Clone)]
pub struct Publisher {
    id: u64,
    name: String,
    keywords: SiteMap<Vec<String>>,
}

impl Publisher {
    pub closed spec fn view(&self) -> PublisherView {
        PublisherView { id: self.id, name: self.name@, keywords: keywords_model(self.keywords) }
    }

    pub fn new(id: u64, name: String, keywords: SiteMap<Vec<String>>) -> (r: Publisher)
        ensures
            r@ == (PublisherView { id, name: name@, keywords: keywords_model(keywords) }),
    {
        Publisher { id, name, keywords }
    }

    /// A publisher with no keyword at any site.
    pub fn without_keywords(id: u64, name: String) -> (r: Publisher)
        ensures
            r@ == (PublisherView { id, name: name@, keywords: Map::empty() }),
    {
        let r = Publisher::new(id, name, SiteMap::new());
        assert(keywords_model(r.keywords) =~= Map::empty());
        r
    }

    pub fn id(&self) -> (r: u64)
        ensures
            r == self@.id,
    {
        self.id
    }

    pub fn name(&self) -> (r: &str)
        ensures
            r@ == self@.name,
    {
        self.name.as_str()
    }

    pub fn keywords(&self) -> (r: &SiteMap<Vec<String>>)
        ensures
            keywords_model(*r) == self@.keywords,
    {
        &self.keywords
    }

    /// Appends `keyword` to the keywords of `site`.
    pub fn add_keyword(&mut self, site: Site, keyword: String)
        ensures
            final(self)@.id == old(self)@.id,
            final(self)@.name == old(self)@.name,
            final(self)@.keywords == old(self)@.keywords.insert(
                site,
                (if old(self)@.keywords.contains_key(site) { old(self)@.keywords[site] } else { Seq::empty() }).push(keyword@),
            ),
    {
        let ghost k0 = self.keywords@;
        let removed = self.keywords.remove(&site);
        let mut list = match removed {
            Some(l) => l,
            None => Vec::new(),
        };
        proof {
            if !k0.contains_key(site) {
                assert(texts(list) =~= Seq::<Seq<char>>::empty());
            }
        }
        let ghost before = texts(list);
        list.push(keyword);
        proof {
            assert(texts(list) =~= before.push(keyword@));
        }
        self.keywords.insert(site, list);
        proof {
            let m = keywords_model(self.keywords);
            let m0 = keywords_model(old(self).keywords);
            assert(self.keywords@ =~= k0.insert(site, list));
            assert(m =~= m0.insert(site, texts(list)));
        }
    }
}

/// The store of publishers.
pub trait PublisherRepository {
    /// All publishers.
    fn get_all(&self) -> Vec<Publisher>;

    /// The publishers with the given ids.
    fn find_by_id(&self, id: &[u64]) -> Vec<Publisher>;
}

/// What a series stands for.
pub struct SeriesView {
    pub id: u64,
    pub title: Option<Seq<char>>,
    pub isbn: Option<Seq<char>>,
    /// The embedding of the title, each component by the bits of its `f32`.
    pub vec: Option<Seq<u32>>,
    pub registered_at: Option<DateTime>,
    pub modified_at: Option<DateTime>,
}

pub open spec fn bits_of(v: Option<Vec<u32>>) -> Option<Seq<u32>> {
    match v {
        Some(x) => Some(x@),
        None => None,
    }
}

/// A series of books.
#[derive(Debug, Clone)]
pub struct Series {
    id: u64,
    title: Option<String>,
    isbn: Option<String>,
    vec: Option<Vec<u32>>,
    registered_at: Option<DateTime>,
    modified_at: Option<DateTime>,
}

impl Series {
    pub closed spec fn view(&self) -> SeriesView {
        SeriesView {
            id: self.id,
            title: text_of(self.title),
            isbn: text_of(self.isbn),
            vec: bits_of(self.vec),
            registered_at: self.registered_at,
            modified_at: self.modified_at,
        }
    }

    pub fn builder() -> (r: SeriesBuilder)
        ensures
            r@ == SeriesBuilder::empty_view(),
    {
        SeriesBuilder::new()
    }

    pub fn id(&self) -> (r: u64)
        ensures
            r == self@.id,
    {
        self.id
    }

    pub fn title(&self) -> (r: &Option<String>)
        ensures
            text_of(*r) == self@.title,
    {
        &self.title
    }

    pub fn isbn(&self) -> (r: &Option<String>)
        ensures
            text_of(*r) == self@.isbn,
    {
        &self.isbn
    }

    pub fn vec(&self) -> (r: &Option<Vec<u32>>)
        ensures
            bits_of(*r) == self@.vec,
    {
        &self.vec
    }

    pub fn registered_at(&self) -> (r: Option<DateTime>)
        ensures
            r == self@.registered_at,
    {
        self.registered_at
    }

    pub fn modified_at(&self) -> (r: Option<DateTime>)
        ensures
            r == self@.modified_at,
    {
        self.modified_at
    }
}

/// What a series builder holds so far.
pub struct SeriesBuilderView {
    pub id: Option<u64>,
    pub title: Option<Seq<char>>,
    pub isbn: Option<Seq<char>>,
    pub vec: Option<Seq<u32>>,
    pub registered_at: Option<DateTime>,
    pub modified_at: Option<DateTime>,
}

/// Builds a [`Series`].
#[derive(Debug, Clone)]
pub struct SeriesBuilder {
    id: Option<u64>,
    title: Option<String>,
    isbn: Option<String>,
    vec: Option<Vec<u32>>,
    registered_at: Option<DateTime>,
    modified_at: Option<DateTime>,
}

impl SeriesBuilder {
    pub closed spec fn view(&self) -> SeriesBuilderView {
        SeriesBuilderView {
            id: self.id,
            title: text_of(self.title),
            isbn: text_of(self.isbn),
            vec: bits_of(self.vec),
            registered_at: self.registered_at,
            modified_at: self.modified_at,
        }
    }

    pub open spec fn empty_view() -> SeriesBuilderView {
        SeriesBuilderView { id: None, title: None, isbn: None, vec: None, registered_at: None, modified_at: None }
    }

    pub fn new() -> (r: Self)
        ensures
            r@ == Self::empty_view(),
    {
        SeriesBuilder { id: None, title: None, isbn: None, vec: None, registered_at: None, modified_at: None }
    }

    pub fn id(self, id: u64) -> (r: Self)
        ensures
            r@ == (SeriesBuilderView { id: Some(id), ..self@ }),
    {
        SeriesBuilder { id: Some(id), ..self }
    }

    pub fn title(self, title: String) -> (r: Self)
        ensures
            r@ == (SeriesBuilderView { title: Some(title@), ..self@ }),
    {
        SeriesBuilder { title: Some(title), ..self }
    }

    pub fn isbn(self, isbn: String) -> (r: Self)
        ensures
            r@ == (SeriesBuilderView { isbn: Some(isbn@), ..self@ }),
    {
        SeriesBuilder { isbn: Some(isbn), ..self }
    }

    /// Sets the embedding, each component given by the bits of its `f32`.
    pub fn vec(self, vec: Vec<u32>) -> (r: Self)
        ensures
            r@ == (SeriesBuilderView { vec: Some(vec@), ..self@ }),
    {
        SeriesBuilder { vec: Some(vec), ..self }
    }

    pub fn registered_at(self, registered_at: DateTime) -> (r: Self)
        ensures
            r@ == (SeriesBuilderView { registered_at: Some(registered_at), ..self@ }),
    {
        SeriesBuilder { registered_at: Some(registered_at), ..self }
    }

    pub fn modified_at(self, modified_at: DateTime) -> (r: Self)
        ensures
            r@ == (SeriesBuilderView { modified_at: Some(modified_at), ..self@ }),
    {
        SeriesBuilder { modified_at: Some(modified_at), ..self }
    }

    /// The series; an id that was not set is 0. Building never fails.
    pub fn build(self) -> (r: Result<Series, ItemError>)
        ensures
            r matches Ok(s) && s@ == (SeriesView {
                id: match self@.id { Some(i) => i, None => 0 },
                title: self@.title,
                isbn: self@.isbn,
                vec: self@.vec,
                registered_at: self@.registered_at,
                modified_at: self@.modified_at,
            }),
    {
        Ok(Series {
            id: match self.id { Some(i) => i, None => 0 },
            title: self.title,
            isbn: self.isbn,
            vec: self.vec,
            registered_at: self.registered_at,
            modified_at: self.modified_at,
        })
    }
}

} // verus!
