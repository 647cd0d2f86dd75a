//! Reading values out of a site's original data by what they mean rather
//! than by the key the site stores them under.
use vstd::prelude::*;
use crate::dict::map_of;
use crate::item::{text_of, texts};
use crate::item::raw::{Raw, RawModel, RawValue, array_model, lemma_array_model_values, lemma_object_model_map,
    render, value_as_integer, values_model, wrap_usize};

verus! {

broadcast use vstd::std_specs::vec::axiom_vec_index_decreases, vstd::std_specs::vec::axiom_vec_decreases_to_view;

/// What a value of original data means.
#[derive(Debug, Clone, Copy, PartialEq, Eq, Hash, Structural)]
pub enum RawDataKind {
    Title,
    Author,
    Description,
    SalePrice,
    SeriesID,
    SeriesList,
}

/// The key under which a site stores each kind of value.
#[derive(Debug, Clone)]
pub struct RawKeyDict {
    title: Option<String>,
    author: Option<String>,
    description: Option<String>,
    sale_price: Option<String>,
    series_id: Option<String>,
    series_list: Option<String>,
}

impl RawKeyDict {
    pub closed spec fn slot(&self, kind: RawDataKind) -> Option<String> {
        match kind {
            RawDataKind::Title => self.title,
            RawDataKind::Author => self.author,
            RawDataKind::Description => self.description,
            RawDataKind::SalePrice => self.sale_price,
            RawDataKind::SeriesID => self.series_id,
            RawDataKind::SeriesList => self.series_list,
        }
    }

    /// The key of each kind that has one.
    pub closed spec fn view(&self) -> Map<RawDataKind, Seq<char>> {
        Map::new(|k: RawDataKind| self.slot(k) is Some, |k: RawDataKind| self.slot(k)->0@)
    }

    /// A dictionary with no key.
    pub fn new() -> (r: Self)
        ensures
            r@ == Map::<RawDataKind, Seq<char>>::empty(),
    {
        let r = RawKeyDict {
            title: None,
            author: None,
            description: None,
            sale_price: None,
            series_id: None,
            series_list: None,
        };
        assert(r@ =~= Map::<RawDataKind, Seq<char>>::empty());
        r
    }

    /// Sets the key of `kind`.
    pub fn insert(&mut self, kind: RawDataKind, key: String)
        ensures
            final(self)@ == old(self)@.insert(kind, key@),
    {
        match kind {
            RawDataKind::Title => self.title = Some(key),
            RawDataKind::Author => self.author = Some(key),
            RawDataKind::Description => self.description = Some(key),
            RawDataKind::SalePrice => self.sale_price = Some(key),
            RawDataKind::SeriesID => self.series_id = Some(key),
            RawDataKind::SeriesList => self.series_list = Some(key),
        }
        assert(self@ =~= old(self)@.insert(kind, key@));
    }

    /// The key of `kind`, if it has one.
    pub fn get(&self, kind: &RawDataKind) -> (r: Option<&String>)
        ensures
            r matches Some(k) ==> self@.contains_key(*kind) && k@ == self@[*kind],
            r is None ==> !self@.contains_key(*kind),
    {
        match kind {
            RawDataKind::Title => self.title.as_ref(),
            RawDataKind::Author => self.author.as_ref(),
            RawDataKind::Description => self.description.as_ref(),
            RawDataKind::SalePrice => self.sale_price.as_ref(),
            RawDataKind::SeriesID => self.series_id.as_ref(),
            RawDataKind::SeriesList => self.series_list.as_ref(),
        }
    }
}

/// The displayed text of the value of `kind`, when the site has a key for
/// it, the data holds that key and the text is not empty.
pub open spec fn key_text(d: Map<RawDataKind, Seq<char>>, kind: RawDataKind, raw: Map<Seq<char>, RawModel>) -> Option<Seq<char>> {
    if d.contains_key(kind) && raw.contains_key(d[kind]) && render(raw[d[kind]]).len() > 0 {
        Some(render(raw[d[kind]]))
    } else {
        None
    }
}

fn retrieve_text(dict: &RawKeyDict, kind: RawDataKind, raw: &Raw) -> (r: Option<String>)
    ensures
        text_of(r) == key_text(dict@, kind, values_model(raw@)),
{
    let key = match dict.get(&kind) {
        Some(k) => k,
        None => return None,
    };
    match raw.get(key.as_str()) {
        Some(v) => {
            let s = v.to_string();
            if s.as_str().is_empty() {
                None
            } else {
                Some(s)
            }
        },
        None => None,
    }
}

/// The title, displayed, when the data has a non-empty one.
pub fn retrieve_title_from_raw(dict: &RawKeyDict, raw: &Raw) -> (r: Option<String>)
    ensures
        text_of(r) == key_text(dict@, RawDataKind::Title, values_model(raw@)),
{
    retrieve_text(dict, RawDataKind::Title, raw)
}

/// The series id, displayed, when the data has a non-empty one.
pub fn retrieve_series_id_from_raw(dict: &RawKeyDict, raw: &Raw) -> (r: Option<String>)
    ensures
        text_of(r) == key_text(dict@, RawDataKind::SeriesID, values_model(raw@)),
{
    retrieve_text(dict, RawDataKind::SeriesID, raw)
}

/// The description, displayed, when the data has a non-empty one.
pub fn retrieve_description_from_raw(dict: &RawKeyDict, raw: &Raw) -> (r: Option<String>)
    ensures
        text_of(r) == key_text(dict@, RawDataKind::Description, values_model(raw@)),
{
    retrieve_text(dict, RawDataKind::Description, raw)
}

/// The sale price: the value of its key read as a `usize`, when it reads.
pub fn retrieve_sale_price_from_raw(dict: &RawKeyDict, raw: &Raw) -> (r: Option<usize>)
    ensures
        match (if dict@.contains_key(RawDataKind::SalePrice) && raw@.contains_key(dict@[RawDataKind::SalePrice]) {
            Some(raw@[dict@[RawDataKind::SalePrice]].model())
        } else {
            None
        }) {
            Some(m) => match value_as_integer(m, 0, usize::MAX as int, |i: int| wrap_usize(i)) {
                Ok(x) => r == Some(x as usize),
                Err(_) => r is None,
            },
            None => r is None,
        },
{
    let key = match dict.get(&RawDataKind::SalePrice) {
        Some(k) => k,
        None => return None,
    };
    match raw.get(key.as_str()) {
        Some(v) => match v.to_usize() {
            Ok(x) => Some(x),
            Err(_) => None,
        },
        None => None,
    }
}

/// The series titles a value lists: text is one title, an object gives its
/// title, an array the titles of its elements in order; `None` where there
/// are none.
pub open spec fn titles_of(d: Map<RawDataKind, Seq<char>>, m: RawModel) -> Option<Seq<Seq<char>>>
    decreases m, 1int,
{
    match m {
        RawModel::Text(s) => Some(seq![s]),
        RawModel::Object(es) => match key_text(d, RawDataKind::Title, map_of(es)) {
            Some(t) => Some(seq![t]),
            None => None,
        },
        RawModel::Array(xs) => {
            let all = titles_in(d, xs);
            if all.len() > 0 {
                Some(all)
            } else {
                None
            }
        },
        _ => None,
    }
}

/// The titles the values of `xs` list, one after the other.
pub open spec fn titles_in(d: Map<RawDataKind, Seq<char>>, xs: Seq<RawModel>) -> Seq<Seq<char>>
    decreases xs, 0int,
{
    if xs.len() == 0 {
        Seq::empty()
    } else {
        proof {
            assert(decreases_to!(xs => xs[xs.len() - 1]));
        }
        titles_in(d, xs.drop_last()) + match titles_of(d, xs[xs.len() - 1]) {
            Some(t) => t,
            None => Seq::empty(),
        }
    }
}

pub open spec fn opt_texts(r: Option<Vec<String>>) -> Option<Seq<Seq<char>>> {
    match r {
        Some(v) => Some(texts(v)),
        None => None,
    }
}

fn titles_of_array(dict: &RawKeyDict, arr: &Vec<RawValue>) -> (r: Vec<String>)
    ensures
        texts(r) == titles_in(dict@, array_model(arr@)),
    decreases arr,
{
    let mut out: Vec<String> = Vec::new();
    let n = arr.len();
    let mut i: usize = 0;
    proof {
        lemma_array_model_values(arr@);
        assert(array_model(arr@.subrange(0, 0)) =~= Seq::<RawModel>::empty());
        assert(texts(out) =~= Seq::<Seq<char>>::empty());
    }
    while i < n
        invariant
            n == arr@.len(),
            i <= n,
            texts(out) == titles_in(dict@, array_model(arr@.subrange(0, i as int))),
        decreases n - i,
    {
        proof {
            assert(decreases_to!(*arr => arr[i as int]));
            let pre = arr@.subrange(0, i as int + 1);
            lemma_array_model_values(pre);
            lemma_array_model_values(arr@.subrange(0, i as int));
            assert(array_model(pre).drop_last() =~= array_model(arr@.subrange(0, i as int)));
            assert(array_model(pre)[i as int] == arr@[i as int].model());
        }
        let ghost before = texts(out);
        match retrieve_series_list_titles_from_raw_value(dict, &arr[i]) {
            Some(ts) => {
                let mut k: usize = 0;
                let tn = ts.len();
                while k < tn
                    invariant
                        tn == ts@.len(),
                        k <= tn,
                        texts(out) == before + texts(ts).subrange(0, k as int),
                    decreases tn - k,
                {
                    let ghost o0 = texts(out);
                    out.push(ts[k].clone());
                    proof {
                        assert(texts(out) =~= o0.push(ts@[k as int]@));
                        assert(texts(ts).subrange(0, k + 1) =~= texts(ts).subrange(0, k as int).push(ts@[k as int]@));
                    }
                    k = k + 1;
                }
                proof {
                    assert(texts(ts).subrange(0, tn as int) =~= texts(ts));
                }
            },
            None => {
                proof {
                    assert(before + Seq::<Seq<char>>::empty() =~= before);
                }
            },
        }
        i = i + 1;
    }
    proof {
        assert(arr@.subrange(0, n as int) =~= arr@);
    }
    out
}

/// The series titles a value lists; see [`titles_of`].
pub fn retrieve_series_list_titles_from_raw_value(dict: &RawKeyDict, raw: &RawValue) -> (r: Option<Vec<String>>)
    ensures
        opt_texts(r) == titles_of(dict@, raw.model()),
    decreases raw,
{
    match raw {
        RawValue::Text(s) => {
            let v = vec![s.clone()];
            proof {
                assert(texts(v) =~= seq![s@]);
            }
            Some(v)
        },
        RawValue::Object(o) => {
            let _ = o.len();
            proof {
                lemma_object_model_map(*o);
            }
            match retrieve_title_from_raw(dict, o) {
                Some(t) => {
                    let v = vec![t];
                    proof {
                        assert(texts(v) =~= seq![v@[0]@]);
                    }
                    Some(v)
                },
                None => None,
            }
        },
        RawValue::Array(arr) => {
            let all = titles_of_array(dict, arr);
            if all.len() > 0 {
                Some(all)
            } else {
                None
            }
        },
        _ => None,
    }
}

/// The titles of the series list: the value of its key, see [`titles_of`].
pub fn retrieve_series_list_titles_from_raw(dict: &RawKeyDict, raw: &Raw) -> (r: Option<Vec<String>>)
    ensures
        opt_texts(r) == (if dict@.contains_key(RawDataKind::SeriesList) && raw@.contains_key(dict@[RawDataKind::SeriesList]) {
            titles_of(dict@, raw@[dict@[RawDataKind::SeriesList]].model())
        } else {
            None
        }),
{
    let key = match dict.get(&RawDataKind::SeriesList) {
        Some(k) => k,
        None => return None,
    };
    match raw.get(key.as_str()) {
        Some(v) => retrieve_series_list_titles_from_raw_value(dict, v),
        None => None,
    }
}

} // verus!
