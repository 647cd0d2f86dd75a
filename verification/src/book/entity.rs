//! Rows of the store of the first book model, as plain values, and how
//! they turn into the model and back.
use vstd::prelude::*;
use crate::book::{Book, BookOriginFilter, BookView, FilterView, Operator, Original, origin_model, original_model};
use crate::date::{Date, DateTime};
use crate::dict::Dict;
use crate::item::text_of;

verus! {

/// A publisher row.
#[derive(Debug, Clone, PartialEq, Eq)]
pub struct PublisherEntity {
    pub id: i64,
    pub name: String,
}

/// A search keyword of a publisher at a site.
#[derive(Debug, Clone, PartialEq, Eq)]
pub struct PublisherKeywordEntity {
    pub publisher_id: i64,
    pub site: String,
    pub keyword: String,
}

/// A book row.
#[derive(Debug, Clone, PartialEq, Eq)]
pub struct BookEntity {
    pub id: i64,
    pub isbn: String,
    pub title: String,
    pub publisher_id: i64,
    pub scheduled_pub_date: Option<Date>,
    pub actual_pub_date: Option<Date>,
    pub registered_at: DateTime,
    pub modified_at: Option<DateTime>,
}

/// The book a row stands for, with no original data; ids are taken by
/// their bits (`as u64`).
pub open spec fn book_of_entity(e: BookEntity) -> BookView {
    BookView {
        id: e.id as u64,
        isbn: e.isbn@,
        publisher_id: e.publisher_id as u64,
        title: e.title@,
        scheduled_pub_date: e.scheduled_pub_date,
        actual_pub_date: e.actual_pub_date,
        origin_data: Map::empty(),
    }
}

impl BookEntity {
    /// The book the row stands for, with no original data.
    pub fn to_domain(&self) -> (r: Book)
        ensures
            r@ == book_of_entity(*self),
    {
        let r = Book::existing(
            self.id as u64,
            self.isbn.clone(),
            self.publisher_id as u64,
            self.title.clone(),
            self.scheduled_pub_date,
            self.actual_pub_date,
            Dict::new(),
        );
        assert(r@.origin_data =~= Map::empty());
        r
    }
}

/// A row of a book's original data: one property of one site.
#[derive(Debug, Clone, PartialEq, Eq)]
pub struct BookOriginDataEntity {
    pub book_id: i64,
    pub site: String,
    pub property: String,
    pub val: Option<String>,
}

/// A row of original data to insert.
#[derive(Debug, Clone, PartialEq, Eq)]
pub struct NewBookOriginDataEntity {
    pub book_id: i64,
    pub site: String,
    pub property: String,
    pub val: Option<String>,
}

impl NewBookOriginDataEntity {
    /// The rows that store `origin` for the book `id`: one per site and
    /// property, each holding its value.
    pub fn new(id: i64, origin: &Dict<Original>) -> (r: Vec<NewBookOriginDataEntity>)
        ensures
            forall|i: int| 0 <= i < r@.len() ==> (#[trigger] r@[i]).book_id == id && r@[i].val is Some
                && origin_model(*origin).contains_key(r@[i].site@)
                && origin_model(*origin)[r@[i].site@].contains_key(r@[i].property@)
                && origin_model(*origin)[r@[i].site@][r@[i].property@] == r@[i].val->0@,
            forall|s: Seq<char>, p: Seq<char>| origin_model(*origin).contains_key(s) && #[trigger] origin_model(*origin)[s].contains_key(p)
                ==> exists|i: int| 0 <= i < r@.len() && #[trigger] r@[i].site@ == s && r@[i].property@ == p,
    {
        let mut rows: Vec<NewBookOriginDataEntity> = Vec::new();
        let n = origin.len();
        let mut i: usize = 0;
        proof {
            origin.lemma_pairs_of_entries();
        }
        while i < n
            invariant
                n == origin.pairs().len(),
                crate::dict::unique_keys(origin.pairs()),
                i <= n,
                forall|k: int| 0 <= k < rows@.len() ==> (#[trigger] rows@[k]).book_id == id && rows@[k].val is Some
                    && origin_model(*origin).contains_key(rows@[k].site@)
                    && origin_model(*origin)[rows@[k].site@].contains_key(rows@[k].property@)
                    && origin_model(*origin)[rows@[k].site@][rows@[k].property@] == rows@[k].val->0@,
                forall|j: int, p: Seq<char>| 0 <= j < i && #[trigger] original_model(origin.pairs()[j].1).contains_key(p)
                    ==> exists|k: int| 0 <= k < rows@.len() && #[trigger] rows@[k].site@ == origin.pairs()[j].0 && rows@[k].property@ == p,
            decreases n - i,
        {
            let (site, site_origin) = origin.entry_at(i);
            let m = site_origin.len();
            let mut j: usize = 0;
            let ghost r0 = rows@.len();
            proof {
                site_origin.lemma_pairs_of_entries();
            }
            while j < m
                invariant
                    n == origin.pairs().len(),
                    i < n,
                    m == site_origin.pairs().len(),
                    crate::dict::unique_keys(site_origin.pairs()),
                    origin@.contains_key(site@),
                    origin@[site@] == *site_origin,
                    site@ == origin.pairs()[i as int].0,
                    *site_origin == origin.pairs()[i as int].1,
                    j <= m,
                    r0 <= rows@.len(),
                    forall|k: int| 0 <= k < rows@.len() ==> (#[trigger] rows@[k]).book_id == id && rows@[k].val is Some
                        && origin_model(*origin).contains_key(rows@[k].site@)
                        && origin_model(*origin)[rows@[k].site@].contains_key(rows@[k].property@)
                        && origin_model(*origin)[rows@[k].site@][rows@[k].property@] == rows@[k].val->0@,
                    forall|jj: int, p: Seq<char>| 0 <= jj < i && #[trigger] original_model(origin.pairs()[jj].1).contains_key(p)
                        ==> exists|k: int| 0 <= k < rows@.len() && #[trigger] rows@[k].site@ == origin.pairs()[jj].0 && rows@[k].property@ == p,
                    forall|q: int| 0 <= q < j ==> exists|k: int| 0 <= k < rows@.len() && #[trigger] rows@[k].site@ == site@
                        && rows@[k].property@ == #[trigger] site_origin.pairs()[q].0,
                decreases m - j,
            {
                let (key, value) = site_origin.entry_at(j);
                let ghost before = rows@;
                rows.push(NewBookOriginDataEntity {
                    book_id: id,
                    site: site.clone(),
                    property: key.clone(),
                    val: Some(value.clone()),
                });
                proof {
                    let k = rows@.len() - 1;
                    assert(rows@[k].site@ == site@ && rows@[k].property@ == key@);
                    assert forall|q: int| 0 <= q < j + 1 implies exists|k: int| 0 <= k < rows@.len() && #[trigger] rows@[k].site@ == site@
                        && rows@[k].property@ == #[trigger] site_origin.pairs()[q].0 by {
                        if q < j {
                            let k2 = choose|k: int| 0 <= k < before.len() && #[trigger] before[k].site@ == site@
                                && before[k].property@ == site_origin.pairs()[q].0;
                            assert(rows@[k2] == before[k2]);
                        } else {
                            assert(rows@[rows@.len() - 1].property@ == site_origin.pairs()[q].0);
                        }
                    }
                    assert forall|jj: int, p: Seq<char>| 0 <= jj < i && #[trigger] original_model(origin.pairs()[jj].1).contains_key(p)
                        implies exists|k: int| 0 <= k < rows@.len() && #[trigger] rows@[k].site@ == origin.pairs()[jj].0 && rows@[k].property@ == p by {
                        let k2 = choose|k: int| 0 <= k < before.len() && #[trigger] before[k].site@ == origin.pairs()[jj].0 && before[k].property@ == p;
                        assert(rows@[k2] == before[k2]);
                    }
                }
                j = j + 1;
            }
            proof {
                assert forall|p: Seq<char>| #[trigger] original_model(origin.pairs()[i as int].1).contains_key(p)
                    implies exists|k: int| 0 <= k < rows@.len() && #[trigger] rows@[k].site@ == origin.pairs()[i as int].0 && rows@[k].property@ == p by {
                    crate::dict::lemma_map_of_contains(site_origin.pairs(), p);
                    let q = choose|q: int| 0 <= q < site_origin.pairs().len() && site_origin.pairs()[q].0 == p;
                    assert(site_origin.pairs()[q].0 == p);
                }
            }
            i = i + 1;
        }
        proof {
            assert forall|s: Seq<char>, p: Seq<char>| origin_model(*origin).contains_key(s) && #[trigger] origin_model(*origin)[s].contains_key(p)
                implies exists|i: int| 0 <= i < rows@.len() && #[trigger] rows@[i].site@ == s && rows@[i].property@ == p by {
                crate::dict::lemma_map_of_contains(origin.pairs(), s);
                let j = choose|j: int| 0 <= j < origin.pairs().len() && origin.pairs()[j].0 == s;
                crate::dict::lemma_map_of_value(origin.pairs(), j);
                assert(original_model(origin.pairs()[j].1).contains_key(p));
            }
        }
        rows
    }
}

/// A row of an original-data filter: its node, and the filter it is a
/// child of.
#[derive(Debug, Clone, PartialEq, Eq)]
pub struct BookOriginFilterEntity {
    pub id: i64,
    pub name: String,
    pub site: String,
    pub is_root: bool,
    pub operator_type: Option<String>,
    pub property_name: Option<String>,
    pub regex: Option<String>,
    pub parent_id: Option<i64>,
}

/// The operator a code names, as the first book model has it.
pub open spec fn code_operator(code: Option<String>) -> Option<Operator> {
    match code {
        Some(c) => match crate::item::rule::operator_of_code(c@) {
            Some(crate::item::rule::Operator::AND) => Some(Operator::AND),
            Some(crate::item::rule::Operator::OR) => Some(Operator::OR),
            Some(crate::item::rule::Operator::NOR) => Some(Operator::NOR),
            Some(crate::item::rule::Operator::NAND) => Some(Operator::NAND),
            None => None,
        },
        None => None,
    }
}

/// The filter node a row stands for, without children; an operator code
/// that names no operator gives none.
pub open spec fn node_of_entity(e: BookOriginFilterEntity) -> FilterView {
    FilterView {
        id: e.id as u64,
        name: e.name@,
        site: e.site@,
        is_root: e.is_root,
        operator: code_operator(e.operator_type),
        property_name: text_of(e.property_name),
        regex: text_of(e.regex),
        nodes: Seq::empty(),
    }
}

/// The parent a row names, by its bits (`as u64`).
pub open spec fn parent_of_entity(e: BookOriginFilterEntity) -> Option<u64> {
    match e.parent_id {
        Some(p) => Some(p as u64),
        None => None,
    }
}

impl BookOriginFilterEntity {
    /// Whether the row tests a property: it has both a property and a pattern.
    pub fn is_operand(&self) -> (r: bool)
        ensures
            r == (self.property_name is Some && self.regex is Some),
    {
        self.property_name.is_some() && self.regex.is_some()
    }

    /// Whether the row combines its children: it has an operator code.
    pub fn is_operator(&self) -> (r: bool)
        ensures
            r == self.operator_type is Some,
    {
        self.operator_type.is_some()
    }

    /// The filter node the row stands for, with no children, and its parent.
    pub fn to_domain(self) -> (r: (BookOriginFilter, Option<u64>))
        ensures
            r.0@ == node_of_entity(self),
            r.1 == parent_of_entity(self),
    {
        let operator = match &self.operator_type {
            Some(o) => Operator::from_str(o.as_str()),
            None => None,
        };
        let parent = match self.parent_id {
            Some(p) => Some(p as u64),
            None => None,
        };
        let filter = BookOriginFilter::new(
            self.id as u64,
            self.name,
            self.site,
            self.is_root,
            operator,
            self.property_name,
            self.regex,
        );
        (filter, parent)
    }
}

} // verus!
