//! Putting books into series: the decisions of the series job that do not
//! rest on similarity scores.
use vstd::prelude::*;
use vstd::string::*;
use crate::batch::JobParameter;
use crate::batch::error::JobReadFailed;
use crate::dict::map_of;
use crate::item::{Book, BookView, Series, Site, SiteMap, site_display, text_of, texts};
use crate::item::raw::{RawModel, lemma_object_model_map, value_as_integer, values_model, wrap_usize};
use crate::item::raw_utils::{RawDataKind, RawKeyDict, key_text, opt_texts, retrieve_description_from_raw,
    retrieve_sale_price_from_raw, retrieve_series_id_from_raw, retrieve_series_list_titles_from_raw,
    retrieve_title_from_raw, titles_of};
use crate::prompt::{Error as PromptError, NormalizeRequest, NormalizeRequestSaleInfo, SeriesSimilarRequest,
    SeriesSimilarRequestBookInfo, prompt_error_message};
use crate::batch::error::JobProcessFailed;
use crate::item::raw::render;
use crate::text::{int_error_display, int_error_message, parse_integer, parse_integer_str};

pub mod utils;

verus! {

/// Why putting a book into a series failed.
#[derive(Debug, Clone, PartialEq, Eq)]
pub enum SeriesProcessError {
    FailedTitleNormalize(String),
    FailedTitleEmbedding(String),
}

/// The message of an error of putting a book into a series.
pub open spec fn series_error_message(e: SeriesProcessError) -> Seq<char> {
    match e {
        SeriesProcessError::FailedTitleNormalize(m) => "failed title normalize "@ + m@,
        SeriesProcessError::FailedTitleEmbedding(m) => "failed title embedding "@ + m@,
    }
}

impl SeriesProcessError {
    /// The message of the error.
    pub fn to_string(&self) -> (r: String)
        ensures
            r@ == series_error_message(*self),
            self matches SeriesProcessError::FailedTitleNormalize(m) ==> r@ == "failed title normalize "@ + m@,
            self matches SeriesProcessError::FailedTitleEmbedding(m) ==> r@ == "failed title embedding "@ + m@,
    {
        proof {
            reveal_strlit("failed title normalize ");
            reveal_strlit("failed title embedding ");
        }
        let (mut r, m) = match self {
            SeriesProcessError::FailedTitleNormalize(m) => ("failed title normalize ".to_owned(), m),
            SeriesProcessError::FailedTitleEmbedding(m) => ("failed title embedding ".to_owned(), m),
        };
        r.append(m.as_str());
        r
    }
}

/// The number of books the series job reads when no limit is given.
pub const DEFAULT_READ_LIMIT: usize = 50;

/// How many unorganised books the series job reads: the parameter `limit`
/// read as a `usize`, or 50 without it; a limit that does not read is
/// reported with std's message.
pub fn read_limit(params: &JobParameter) -> (r: Result<usize, JobReadFailed>)
    ensures
        !params@.contains_key("limit"@) ==> r == Ok::<usize, JobReadFailed>(DEFAULT_READ_LIMIT),
        params@.contains_key("limit"@) ==> match parse_integer(params@["limit"@]@, 0, usize::MAX as int) {
            Ok(v) => r == Ok::<usize, JobReadFailed>(v as usize),
            Err(k) => r matches Err(JobReadFailed::InvalidArguments(m))
                && m@ == "limit: "@ + int_error_display(k) + " is not a number"@,
        },
{
    proof {
        reveal_strlit("limit: ");
        reveal_strlit(" is not a number");
    }
    match params.get("limit") {
        None => Ok(DEFAULT_READ_LIMIT),
        Some(s) => match parse_integer_str(s.as_str(), 0, usize::MAX as i128) {
            Ok(v) => Ok(v as usize),
            Err(k) => {
                let mut m = "limit: ".to_owned();
                let e = int_error_message(&k);
                m.append(e.as_str());
                m.append(" is not a number");
                Err(JobReadFailed::InvalidArguments(m))
            },
        },
    }
}

/// The first series found for a set ISBN.
pub fn first_series(found: Vec<Series>) -> (r: Option<Series>)
    ensures
        found@.len() == 0 ==> r is None,
        found@.len() > 0 ==> r == Some(found@[0]),
{
    let mut found = found;
    if found.len() == 0 {
        None
    } else {
        Some(found.remove(0))
    }
}

/// Whether a candidate series may stand for a new series with set ISBN
/// `isbn`: with no ISBN any candidate may; otherwise only one that has no
/// ISBN or another one.
pub open spec fn may_stand_for(candidate: Series, isbn: Option<Seq<char>>) -> bool {
    match isbn {
        None => true,
        Some(i) => candidate@.isbn is None || candidate@.isbn != Some(i),
    }
}

/// The first of `candidates` that may stand for the series.
pub open spec fn first_standing<S>(candidates: Seq<(Series, S)>, isbn: Option<Seq<char>>) -> Option<(Series, S)>
    decreases candidates.len(),
{
    if candidates.len() == 0 {
        None
    } else if may_stand_for(candidates[0].0, isbn) {
        Some(candidates[0])
    } else {
        first_standing(candidates.drop_first(), isbn)
    }
}

/// Of the series most similar to a new series (most similar first), the
/// one it is compared with: the first, or, when the new series has a set
/// ISBN, the first whose ISBN is missing or different. Different editions
/// of one work can carry different set ISBNs under near-equal titles, and
/// must not be taken for one series.
pub fn select_similar<S>(candidates: Vec<(Series, S)>, isbn: &Option<String>) -> (r: Option<(Series, S)>)
    ensures
        r == first_standing(candidates@, text_of(*isbn)),
{
    let ghost orig = candidates@;
    let n = candidates.len();
    let mut rest = candidates;
    let mut i: usize = 0;
    while rest.len() > 0
        invariant
            orig == candidates@,
            n == orig.len(),
            i + rest@.len() == n,
            rest@ == orig.subrange(i as int, n as int),
            first_standing(orig, text_of(*isbn)) == first_standing(rest@, text_of(*isbn)),
        decreases rest@.len(),
    {
        let ghost r0 = rest@;
        let c = rest.remove(0);
        proof {
            assert(rest@ =~= r0.drop_first());
            assert(c == r0[0]);
        }
        let fits = match isbn {
            None => true,
            Some(want) => match c.0.isbn() {
                None => true,
                Some(have) => !crate::text::str_eq(have.as_str(), want.as_str()),
            },
        };
        if fits {
            proof {
                match isbn {
                    None => {},
                    Some(want) => {
                        if c.0@.isbn is Some {
                            assert(c.0@.isbn != Some(want@));
                        }
                    },
                }
                assert(may_stand_for(c.0, text_of(*isbn)));
                assert(first_standing(r0, text_of(*isbn)) == Some(c));
            }
            return Some(c);
        }
        i = i + 1;
        proof {
            assert(rest@ =~= orig.subrange(i as int, n as int));
        }
    }
    None
}

/// The set ISBN of a book: the series id in its NLGO data, read with the
/// NLGO key dictionary `dict`.
pub fn retrieve_nlgo_set_isbn(dict: &RawKeyDict, book: &Book) -> (r: Option<String>)
    ensures
        text_of(r) == (if book@.originals.contains_key(Site::NLGO) {
            key_text(dict@, RawDataKind::SeriesID, map_of(book@.originals[Site::NLGO]))
        } else {
            None
        }),
{
    match book.originals().get(&Site::NLGO) {
        Some(raw) => {
            let _ = raw.len();
            proof {
                lemma_object_model_map(*raw);
            }
            retrieve_series_id_from_raw(dict, raw)
        },
        None => None,
    }
}

/// The new series a normalized title makes: the title, its embedding (each
/// component by the bits of its `f32`), and the book's set ISBN when its
/// NLGO data has one; its id is 0 until it is stored.
pub fn normalized_series(dict: &RawKeyDict, book: &Book, title: String, embedding: Vec<u32>) -> (r: Series)
    ensures
        r@.id == 0,
        r@.title == Some(title@),
        r@.vec == Some(embedding@),
        r@.isbn == (if book@.originals.contains_key(Site::NLGO) {
            key_text(dict@, RawDataKind::SeriesID, map_of(book@.originals[Site::NLGO]))
        } else {
            None
        }),
        r@.registered_at is None,
        r@.modified_at is None,
{
    let mut builder = Series::builder().title(title).vec(embedding);
    match retrieve_nlgo_set_isbn(dict, book) {
        Some(set_isbn) => {
            builder = builder.isbn(set_isbn);
        },
        None => {},
    }
    builder.build().unwrap()
}

/// What sale information stands for.
pub struct SaleInfoView {
    pub site: Seq<char>,
    pub title: Seq<char>,
    pub price: Option<usize>,
    pub desc: Option<Seq<char>>,
    pub series: Option<Seq<Seq<char>>>,
}

pub open spec fn sale_info_view(s: NormalizeRequestSaleInfo) -> SaleInfoView {
    SaleInfoView { site: s.site@, title: s.title@, price: s.price, desc: text_of(s.desc), series: opt_texts(s.series) }
}

/// The sale price the data gives under its key, read as a `usize`.
pub open spec fn price_of(d: Map<RawDataKind, Seq<char>>, raw: Map<Seq<char>, RawModel>) -> Option<usize> {
    if d.contains_key(RawDataKind::SalePrice) && raw.contains_key(d[RawDataKind::SalePrice]) {
        match value_as_integer(raw[d[RawDataKind::SalePrice]], 0, usize::MAX as int, |i: int| wrap_usize(i)) {
            Ok(x) => Some(x as usize),
            Err(_) => None,
        }
    } else {
        None
    }
}

/// The series titles the data gives under its key.
pub open spec fn series_of(d: Map<RawDataKind, Seq<char>>, raw: Map<Seq<char>, RawModel>) -> Option<Seq<Seq<char>>> {
    if d.contains_key(RawDataKind::SeriesList) && raw.contains_key(d[RawDataKind::SeriesList]) {
        titles_of(d, raw[d[RawDataKind::SeriesList]])
    } else {
        None
    }
}

/// What a site's data tells of a book's sale, when it gives a title.
pub open spec fn sale_info_of(site: Site, d: Map<RawDataKind, Seq<char>>, raw: Map<Seq<char>, RawModel>) -> Option<SaleInfoView> {
    match key_text(d, RawDataKind::Title, raw) {
        Some(t) => Some(SaleInfoView {
            site: site_display(site),
            title: t,
            price: price_of(d, raw),
            desc: key_text(d, RawDataKind::Description, raw),
            series: series_of(d, raw),
        }),
        None => None,
    }
}

/// The sale information of `site` for a book: none when the book has no
/// data of the site, the site has no dictionary or the data no title.
pub open spec fn site_sale_info(book: BookView, dicts: Map<Site, Map<RawDataKind, Seq<char>>>, site: Site) -> Seq<SaleInfoView> {
    if book.originals.contains_key(site) && dicts.contains_key(site) {
        match sale_info_of(site, dicts[site], map_of(book.originals[site])) {
            Some(s) => seq![s],
            None => Seq::empty(),
        }
    } else {
        Seq::empty()
    }
}

/// The sale information of every site, in the order NLGO, Naver, Aladin, Kyobo.
pub open spec fn sale_infos(book: BookView, dicts: Map<Site, Map<RawDataKind, Seq<char>>>) -> Seq<SaleInfoView> {
    site_sale_info(book, dicts, Site::NLGO) + site_sale_info(book, dicts, Site::Naver)
        + site_sale_info(book, dicts, Site::Aladin) + site_sale_info(book, dicts, Site::KyoboBook)
}

pub open spec fn dicts_model(dicts: SiteMap<RawKeyDict>) -> Map<Site, Map<RawDataKind, Seq<char>>> {
    dicts@.map_values(|d: RawKeyDict| d@)
}

fn add_site_sale_info(infos: &mut Vec<NormalizeRequestSaleInfo>, book: &Book, dicts: &SiteMap<RawKeyDict>, site: Site)
    ensures
        final(infos)@.map_values(|s: NormalizeRequestSaleInfo| sale_info_view(s))
            == old(infos)@.map_values(|s: NormalizeRequestSaleInfo| sale_info_view(s)) + site_sale_info(book@, dicts_model(*dicts), site),
{
    let ghost before = infos@.map_values(|s: NormalizeRequestSaleInfo| sale_info_view(s));
    let raw = match book.originals().get(&site) {
        Some(raw) => raw,
        None => {
            proof {
                assert(before + Seq::<SaleInfoView>::empty() =~= before);
            }
            return;
        },
    };
    let dict = match dicts.get(&site) {
        Some(d) => d,
        None => {
            proof {
                assert(before + Seq::<SaleInfoView>::empty() =~= before);
            }
            return;
        },
    };
    let _ = raw.len();
    proof {
        lemma_object_model_map(*raw);
    }
    match retrieve_title_from_raw(dict, raw) {
        Some(title) => {
            let name = site.to_string();
            let mut info = NormalizeRequestSaleInfo::new(name.as_str(), title.as_str());
            info.price = retrieve_sale_price_from_raw(dict, raw);
            info.desc = retrieve_description_from_raw(dict, raw);
            info.series = retrieve_series_list_titles_from_raw(dict, raw);
            infos.push(info);
            proof {
                assert(infos@.map_values(|s: NormalizeRequestSaleInfo| sale_info_view(s)) =~= before.push(sale_info_view(info)));
                assert(seq![sale_info_view(info)] =~= site_sale_info(book@, dicts_model(*dicts), site));
            }
        },
        None => {
            proof {
                assert(before + Seq::<SaleInfoView>::empty() =~= before);
            }
        },
    }
}

/// The request to normalise a book's title: the title, and what each site
/// that has data of the book and a title for it tells of its sale, read
/// with that site's key dictionary. Sites come in the order NLGO, Naver,
/// Aladin, Kyobo; with no such site the request carries no sale information.
pub fn convert_book_to_normalize_request(book: &Book, dicts: &SiteMap<RawKeyDict>) -> (r: NormalizeRequest)
    ensures
        r.title@ == book@.title,
        sale_infos(book@, dicts_model(*dicts)).len() == 0 ==> r.sale_info is None,
        sale_infos(book@, dicts_model(*dicts)).len() > 0 ==> (r.sale_info matches Some(v)
            && v@.map_values(|s: NormalizeRequestSaleInfo| sale_info_view(s)) == sale_infos(book@, dicts_model(*dicts))),
{
    let mut request = NormalizeRequest::new(book.title());
    let mut infos: Vec<NormalizeRequestSaleInfo> = Vec::new();
    proof {
        assert(infos@.map_values(|s: NormalizeRequestSaleInfo| sale_info_view(s)) =~= Seq::<SaleInfoView>::empty());
    }
    add_site_sale_info(&mut infos, book, dicts, Site::NLGO);
    add_site_sale_info(&mut infos, book, dicts, Site::Naver);
    add_site_sale_info(&mut infos, book, dicts, Site::Aladin);
    add_site_sale_info(&mut infos, book, dicts, Site::KyoboBook);
    proof {
        let e = Seq::<SaleInfoView>::empty();
        assert(infos@.map_values(|s: NormalizeRequestSaleInfo| sale_info_view(s)) =~= sale_infos(book@, dicts_model(*dicts))) by {
            assert(e + site_sale_info(book@, dicts_model(*dicts), Site::NLGO) =~= site_sale_info(book@, dicts_model(*dicts), Site::NLGO));
        }
    }
    if infos.len() > 0 {
        request.sale_info = Some(infos);
    }
    request
}

/// The series a new series is compared with never carries the new
/// series' set ISBN.
pub proof fn lemma_selected_isbn_differs<S>(candidates: Seq<(Series, S)>, isbn: Seq<char>)
    ensures
        first_standing(candidates, Some(isbn)) matches Some(c) ==> c.0@.isbn != Some(isbn),
    decreases candidates.len(),
{
    if candidates.len() > 0 {
        lemma_selected_isbn_differs(candidates.drop_first(), isbn);
    }
}

/// Without a set ISBN the most similar series is the one compared with.
pub proof fn lemma_no_isbn_takes_first<S>(candidates: Seq<(Series, S)>)
    requires
        candidates.len() > 0,
    ensures
        first_standing(candidates, None) == Some(candidates[0]),
{
}

/// The series most similar to a new series, with its score.
#[derive(Debug)]
pub struct MostSimilarSeries<S> {
    pub series: Series,
    pub score: S,
}

/// Where a book goes: into a new series, or into one that exists.
#[derive(Debug)]
pub enum SeriesMappingResult<S> {
    /// A new series is made for the book; the most similar series found,
    /// if any, comes along.
    New(Book, Series, Option<MostSimilarSeries<S>>),
    /// The book joins a series that exists.
    Exists(Book, Series),
}

/// The first step of mapping a book: when a series with the book's set
/// ISBN was found the book joins it; otherwise the book comes back to go on.
pub fn map_by_set_isbn<S>(item: Book, found: Option<Series>) -> (r: Result<SeriesMappingResult<S>, Book>)
    ensures
        match found {
            Some(s) => r matches Ok(SeriesMappingResult::Exists(b, t)) && b == item && t == s,
            None => r == Err::<SeriesMappingResult<S>, Book>(item),
        },
{
    match found {
        Some(s) => Ok(SeriesMappingResult::Exists(item, s)),
        None => Err(item),
    }
}

/// The last step of mapping a book: it joins the most similar series when
/// that one's score reaches the threshold (`reaches`), otherwise a new
/// series is made and the most similar one comes along.
pub fn map_by_similarity<S>(item: Book, new_series: Series, most_similar: Option<(Series, S)>, reaches: bool) -> (r: SeriesMappingResult<S>)
    ensures
        match most_similar {
            Some((s, score)) => if reaches {
                r matches SeriesMappingResult::Exists(b, t) && b == item && t == s
            } else {
                r matches SeriesMappingResult::New(b, n, Some(m)) && b == item && n == new_series && m.series == s
                    && m.score == score
            },
            None => r matches SeriesMappingResult::New(b, n, None) && b == item && n == new_series,
        },
{
    match most_similar {
        Some((s, score)) => {
            if reaches {
                SeriesMappingResult::Exists(item, s)
            } else {
                SeriesMappingResult::New(item, new_series, Some(MostSimilarSeries { series: s, score }))
            }
        },
        None => SeriesMappingResult::New(item, new_series, None),
    }
}

/// What checking whether a book belongs to its most similar series calls for.
#[derive(Debug)]
pub enum BelongStep<S> {
    /// The result stands as it is.
    Done(SeriesMappingResult<S>),
    /// The language model is asked whether the book belongs to the series.
    Ask(Book, Series, MostSimilarSeries<S>),
}

/// Whether a mapped book is looked at again: only a book given a new series
/// whose most similar series reaches the review threshold (`reaches`) is;
/// every other result stands.
pub fn belong_step<S>(item: SeriesMappingResult<S>, reaches: bool) -> (r: BelongStep<S>)
    ensures
        match item {
            SeriesMappingResult::New(b, n, Some(m)) => if reaches {
                r matches BelongStep::Ask(b2, n2, m2) && b2 == b && n2 == n && m2 == m
            } else {
                r matches BelongStep::Done(x) && x == item
            },
            _ => r matches BelongStep::Done(x) && x == item,
        },
{
    match item {
        SeriesMappingResult::New(b, n, Some(m)) => {
            if reaches {
                BelongStep::Ask(b, n, m)
            } else {
                BelongStep::Done(SeriesMappingResult::New(b, n, Some(m)))
            }
        },
        other => BelongStep::Done(other),
    }
}

/// The result after the language model answered: the book joins the most
/// similar series when it belongs to it, otherwise it keeps its new series.
pub fn belong_answer<S>(book: Book, new_series: Series, most_similar: MostSimilarSeries<S>, belongs: bool) -> (r: SeriesMappingResult<S>)
    ensures
        belongs ==> (r matches SeriesMappingResult::Exists(b, s) && b == book && s == most_similar.series),
        !belongs ==> (r matches SeriesMappingResult::New(b, n, Some(m)) && b == book && n == new_series && m == most_similar),
{
    if belongs {
        SeriesMappingResult::Exists(book, most_similar.series)
    } else {
        SeriesMappingResult::New(book, new_series, Some(most_similar))
    }
}

/// The book of an existing series, given that series' id.
pub fn join_series(book: Book, series: &Series) -> (r: Book)
    ensures
        r@ == (crate::item::BookView { series_id: Some(series@.id), ..book@ }),
{
    let mut b = book;
    b.set_series_id(series.id());
    b
}

/// The book of a new series once the store inserted it: the book gets the
/// inserted series' id; when nothing was inserted the write fails and hands
/// the book and the series back.
pub fn join_inserted_series<S>(book: Book, new_series: Series, inserted: Option<Series>) -> (r: Result<Book, crate::batch::error::JobWriteFailed<SeriesMappingResult<S>>>)
    ensures
        inserted matches Some(s) ==> (r matches Ok(b) && b@ == (crate::item::BookView { series_id: Some(s@.id), ..book@ })),
        inserted is None ==> (r matches Err(e) && e.message@ == "시리즈가 저장 되지 않았습니다."@ && e.item@.len() == 1
            && (e.item@[0] matches SeriesMappingResult::New(b, n, None) && b == book && n == new_series)),
{
    match inserted {
        Some(s) => Ok(join_series(book, &s)),
        None => Err(crate::batch::error::JobWriteFailed::new(
            vec![SeriesMappingResult::New(book, new_series, None)],
            "시리즈가 저장 되지 않았습니다.",
        )),
    }
}

/// How many of the most similar series the store is asked for when a new
/// series is compared with those that exist.
pub const SIMILAR_SERIES_CANDIDATES: usize = 2;

/// The failure of mapping a book whose title could not be normalised: the
/// book comes back with the error's message.
pub fn normalize_failed(item: Book, e: &SeriesProcessError) -> (r: JobProcessFailed<Book>)
    ensures
        r.item == Some(item),
        r.message@ == series_error_message(*e),
{
    JobProcessFailed::new(item, e.to_string())
}

/// The failure of the series-membership prompt for a book that was to get a
/// new series: the mapping comes back unchanged with the error's message.
pub fn belong_failed<S>(book: Book, new_series: Series, most_similar: MostSimilarSeries<S>, e: &PromptError)
    -> (r: JobProcessFailed<SeriesMappingResult<S>>)
    ensures
        r.item == Some(SeriesMappingResult::New(book, new_series, Some(most_similar))),
        r.message@ == prompt_error_message(*e),
{
    JobProcessFailed::new(SeriesMappingResult::New(book, new_series, Some(most_similar)), e.to_string())
}

/// The author a site's data of a book names: the value under the site's
/// author key, as it is displayed.
pub open spec fn author_at(book: BookView, dicts: Map<Site, Map<RawDataKind, Seq<char>>>, site: Site) -> Option<Seq<char>> {
    if book.originals.contains_key(site) && dicts.contains_key(site) && dicts[site].contains_key(RawDataKind::Author)
        && map_of(book.originals[site]).contains_key(dicts[site][RawDataKind::Author]) {
        Some(render(map_of(book.originals[site])[dicts[site][RawDataKind::Author]]))
    } else {
        None
    }
}

/// The author of a book: the first site, in the order NLGO, Naver, Aladin,
/// Kyobo, whose data names one.
pub open spec fn author_of(book: BookView, dicts: Map<Site, Map<RawDataKind, Seq<char>>>) -> Option<Seq<char>> {
    if author_at(book, dicts, Site::NLGO) is Some {
        author_at(book, dicts, Site::NLGO)
    } else if author_at(book, dicts, Site::Naver) is Some {
        author_at(book, dicts, Site::Naver)
    } else if author_at(book, dicts, Site::Aladin) is Some {
        author_at(book, dicts, Site::Aladin)
    } else {
        author_at(book, dicts, Site::KyoboBook)
    }
}

fn author_from(book: &Book, dicts: &SiteMap<RawKeyDict>, site: Site) -> (r: Option<String>)
    ensures
        text_of(r) == author_at(book@, dicts_model(*dicts), site),
{
    let raw = match book.originals().get(&site) {
        Some(raw) => raw,
        None => return None,
    };
    let dict = match dicts.get(&site) {
        Some(d) => d,
        None => return None,
    };
    let key = match dict.get(&RawDataKind::Author) {
        Some(k) => k,
        None => return None,
    };
    let _ = raw.len();
    proof {
        lemma_object_model_map(*raw);
    }
    match raw.get(key.as_str()) {
        Some(v) => {
            let t = v.to_string();
            Some(t)
        },
        None => None,
    }
}

/// What the series-membership prompt is told of a book: its title, its
/// publisher and the author its data names (see [`author_of`]).
pub fn convert_series_similar_request_book_info(book: &Book, dicts: &SiteMap<RawKeyDict>) -> (r: SeriesSimilarRequestBookInfo)
    ensures
        r.title@ == book@.title,
        r.publisher == book@.publisher_id,
        text_of(r.author) == author_of(book@, dicts_model(*dicts)),
{
    let mut author = author_from(book, dicts, Site::NLGO);
    if author.is_none() {
        author = author_from(book, dicts, Site::Naver);
    }
    if author.is_none() {
        author = author_from(book, dicts, Site::Aladin);
    }
    if author.is_none() {
        author = author_from(book, dicts, Site::KyoboBook);
    }
    SeriesSimilarRequestBookInfo { title: book.title().to_owned(), publisher: book.publisher_id(), author }
}

/// What a book and a series' books are as the prompt is told of them.
pub open spec fn book_info_matches(i: SeriesSimilarRequestBookInfo, b: BookView, dicts: Map<Site, Map<RawDataKind, Seq<char>>>) -> bool {
    i.title@ == b.title && i.publisher == b.publisher_id && text_of(i.author) == author_of(b, dicts)
}

/// The request asking whether `book` belongs to the series whose books are
/// `series_books`: the book, and each of the series' books in order.
pub fn series_similar_request(book: &Book, series_books: &Vec<Book>, dicts: &SiteMap<RawKeyDict>) -> (r: SeriesSimilarRequest)
    ensures
        book_info_matches(r.new, book@, dicts_model(*dicts)),
        r.series@.len() == series_books@.len(),
        forall|i: int| 0 <= i < r.series@.len() ==> #[trigger] book_info_matches(r.series@[i], series_books@[i]@, dicts_model(*dicts)),
{
    let new = convert_series_similar_request_book_info(book, dicts);
    let mut series: Vec<SeriesSimilarRequestBookInfo> = Vec::new();
    let n = series_books.len();
    let mut i: usize = 0;
    while i < n
        invariant
            n == series_books@.len(),
            i <= n,
            series@.len() == i,
            forall|k: int| 0 <= k < i ==> #[trigger] book_info_matches(series@[k], series_books@[k]@, dicts_model(*dicts)),
        decreases n - i,
    {
        let info = convert_series_similar_request_book_info(&series_books[i], dicts);
        series.push(info);
        i = i + 1;
    }
    SeriesSimilarRequest { new, series }
}

} // verus!
