//! Reading the values that the series job needs out of original data.
use vstd::prelude::*;
use crate::dict::map_of;
use crate::item::{Book, Site, text_of, texts};
use crate::item::raw::{Raw, RawModel, RawNumber, RawValue, model_text, lemma_object_model_lookup};
use crate::prompt::NormalizeRequestSaleInfo;

verus! {

broadcast use vstd::std_specs::vec::axiom_vec_index_decreases, vstd::std_specs::vec::axiom_vec_decreases_to_view;

/// The text a value holds, when it is text.
pub open spec fn raw_text(v: RawValue) -> Option<Seq<char>> {
    match v {
        RawValue::Text(s) => Some(s@),
        _ => None,
    }
}

/// The whole number a value holds as a `u64`; a signed number is taken
/// by its bits (`as u64`). Other values hold none.
pub open spec fn raw_u64(v: RawValue) -> Option<u64> {
    match v {
        RawValue::Number(RawNumber::UnsignedInt(i)) => Some(i),
        RawValue::Number(RawNumber::SignedInt(i)) => Some(i as u64),
        _ => None,
    }
}

/// The text of `raw`, when it is text.
pub fn extract_raw_text(raw: &RawValue) -> (r: Option<String>)
    ensures
        text_of(r) == raw_text(*raw),
{
    match raw {
        RawValue::Text(s) => Some(s.clone()),
        _ => None,
    }
}

/// The whole number `raw` holds, as a `u64`.
pub fn extract_raw_u64(raw: &RawValue) -> (r: Option<u64>)
    ensures
        r == raw_u64(*raw),
{
    match raw {
        RawValue::Number(n) => match n {
            RawNumber::UnsignedInt(i) => Some(*i),
            RawNumber::SignedInt(i) => Some(*i as u64),
            _ => None,
        },
        _ => None,
    }
}

/// The value under the key, when a key is given and the data holds it.
pub open spec fn value_at(key: Option<Seq<char>>, raw: Map<Seq<char>, RawValue>) -> Option<RawValue> {
    match key {
        Some(k) => if raw.contains_key(k) {
            Some(raw[k])
        } else {
            None
        },
        None => None,
    }
}

/// The key of the sale price in the original data of a site.
pub open spec fn price_key(site: Site) -> Option<Seq<char>> {
    match site {
        Site::Naver => Some("discount"@),
        Site::Aladin => Some("priceSales"@),
        Site::KyoboBook => Some("sale_price"@),
        Site::NLGO => None,
    }
}

/// The key of the description in the original data of a site.
pub open spec fn desc_key(site: Site) -> Option<Seq<char>> {
    match site {
        Site::Naver => Some("description"@),
        Site::Aladin => Some("description"@),
        Site::KyoboBook => Some("prod_description"@),
        Site::NLGO => None,
    }
}

/// The key of the series list in the original data of a site.
pub open spec fn series_key(site: Site) -> Option<Seq<char>> {
    match site {
        Site::KyoboBook => Some("series"@),
        _ => None,
    }
}

/// The sale price a value gives: its whole number as a `usize`.
pub open spec fn sale_price_of(v: RawValue) -> Option<usize> {
    match raw_u64(v) {
        Some(x) => Some(x as usize),
        None => None,
    }
}

/// The titles in a series list: of each object in it, the title when it is text.
pub open spec fn series_titles(items: Seq<RawValue>) -> Seq<Seq<char>>
    decreases items.len(),
{
    if items.len() == 0 {
        Seq::empty()
    } else {
        let rest = series_titles(items.drop_last());
        match items.last() {
            RawValue::Object(m) => if m@.contains_key("title"@) {
                match raw_text(m@["title"@]) {
                    Some(t) => rest.push(t),
                    None => rest,
                }
            } else {
                rest
            },
            _ => rest,
        }
    }
}

/// The titles a series value lists; a value that is no array lists none.
pub open spec fn series_list(v: RawValue) -> Seq<Seq<char>> {
    match v {
        RawValue::Array(a) => series_titles(a@),
        _ => Seq::empty(),
    }
}

/// The series titles the data of a site gives, when it gives any.
pub open spec fn series_update(site: Site, raw: Map<Seq<char>, RawValue>) -> Option<Seq<Seq<char>>> {
    match value_at(series_key(site), raw) {
        Some(v) => if series_list(v).len() > 0 {
            Some(series_list(v))
        } else {
            None
        },
        None => None,
    }
}

fn series_titles_of(arr: &Vec<RawValue>) -> (r: Vec<String>)
    ensures
        texts(r) == series_titles(arr@),
{
    let mut s: Vec<String> = Vec::new();
    let n = arr.len();
    let mut i: usize = 0;
    while i < n
        invariant
            n == arr@.len(),
            i <= n,
            texts(s) == series_titles(arr@.subrange(0, i as int)),
        decreases n - i,
    {
        proof {
            assert(arr@.subrange(0, i as int + 1).drop_last() =~= arr@.subrange(0, i as int));
            assert(arr@.subrange(0, i as int + 1).last() == arr@[i as int]);
        }
        let ghost before = texts(s);
        if let RawValue::Object(map) = &arr[i] {
            if let Some(v) = map.get("title") {
                if let Some(t) = extract_raw_text(v) {
                    s.push(t);
                    proof {
                        assert(texts(s) =~= before.push(t@));
                    }
                }
            }
        }
        i = i + 1;
    }
    proof {
        assert(arr@.subrange(0, n as int) =~= arr@);
    }
    s
}

/// Fills in, from the original data of `site`, what the site tells of the
/// sale of a book: the sale price and the description from their keys
/// (Naver: `discount`, `description`; Aladin: `priceSales`,
/// `description`; Kyobo: `sale_price`, `prod_description`), and for Kyobo
/// the titles of the series list under `series` when it names any. A key
/// the data lacks leaves its field as it was; NLGO data sets nothing.
pub fn set_sale_info_value(sale_info: &mut NormalizeRequestSaleInfo, site: &Site, raw: &Raw)
    ensures
        final(sale_info).site == old(sale_info).site,
        final(sale_info).title == old(sale_info).title,
        final(sale_info).price == match value_at(price_key(*site), raw@) {
            Some(v) => sale_price_of(v),
            None => old(sale_info).price,
        },
        value_at(desc_key(*site), raw@) matches Some(v) ==> text_of(final(sale_info).desc) == raw_text(v),
        value_at(desc_key(*site), raw@) is None ==> final(sale_info).desc == old(sale_info).desc,
        series_update(*site, raw@) matches Some(t) ==> (final(sale_info).series matches Some(l) && texts(l) == t),
        series_update(*site, raw@) is None ==> final(sale_info).series == old(sale_info).series,
{
    match site {
        Site::Naver => {
            if let Some(sale_price) = raw.get("discount") {
                sale_info.price = match extract_raw_u64(sale_price) {
                    Some(v) => Some(v as usize),
                    None => None,
                };
            }
            if let Some(prod_description) = raw.get("description") {
                sale_info.desc = extract_raw_text(prod_description);
            }
        },
        Site::Aladin => {
            if let Some(sale_price) = raw.get("priceSales") {
                sale_info.price = match extract_raw_u64(sale_price) {
                    Some(v) => Some(v as usize),
                    None => None,
                };
            }
            if let Some(prod_description) = raw.get("description") {
                sale_info.desc = extract_raw_text(prod_description);
            }
        },
        Site::KyoboBook => {
            if let Some(sale_price) = raw.get("sale_price") {
                sale_info.price = match extract_raw_u64(sale_price) {
                    Some(v) => Some(v as usize),
                    None => None,
                };
            }
            if let Some(prod_description) = raw.get("prod_description") {
                sale_info.desc = extract_raw_text(prod_description);
            }
            if let Some(series) = raw.get("series") {
                let s = match series {
                    RawValue::Array(arr) => series_titles_of(arr),
                    _ => Vec::new(),
                };
                proof {
                    if !(series is Array) {
                        assert(texts(s) =~= Seq::<Seq<char>>::empty());
                    }
                }
                if s.len() > 0 {
                    sale_info.series = Some(s);
                }
            }
        },
        Site::NLGO => {},
    }
}

/// The title in the original data: the text under `title`, whatever the site.
pub fn extract_title_from_raw(site: &Site, raw: &Raw) -> (r: Option<String>)
    ensures
        text_of(r) == match value_at(Some("title"@), raw@) {
            Some(v) => raw_text(v),
            None => None,
        },
{
    match raw.get("title") {
        Some(title_raw) => extract_raw_text(title_raw),
        None => None,
    }
}

/// What a book's NLGO data holds under a key, by model.
pub open spec fn nlgo_value(book: crate::item::BookView, key: Seq<char>) -> Option<RawModel> {
    if book.originals.contains_key(Site::NLGO) && map_of(book.originals[Site::NLGO]).contains_key(key) {
        Some(map_of(book.originals[Site::NLGO])[key])
    } else {
        None
    }
}

/// The ISBN of the set a book belongs to: the text under `set_isbn` in
/// its NLGO data.
pub fn extract_set_isbn_from_book(book: &Book) -> (r: Option<String>)
    ensures
        text_of(r) == match nlgo_value(book@, "set_isbn"@) {
            Some(m) => model_text(m),
            None => None,
        },
{
    match book.originals().get(&Site::NLGO) {
        Some(o) => {
            let _ = o.len();
            proof {
                lemma_object_model_lookup(*o, "set_isbn"@);
            }
            match o.get("set_isbn") {
                Some(v) => extract_raw_text(v),
                None => None,
            }
        },
        None => None,
    }
}

} // verus!
