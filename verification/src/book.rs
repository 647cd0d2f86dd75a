//! The first book model of the project: sites named by text, original
//! data kept as text, and original-data filters kept as trees.
use vstd::prelude::*;
use crate::date::Date;
use crate::dict::Dict;
use crate::text::{regex_compiles, regex_finds, regex_is_match, regex_valid, str_eq};
use vstd::string::*;

pub mod entity;
pub mod repository;

verus! {

broadcast use vstd::std_specs::vec::axiom_vec_index_decreases, vstd::std_specs::vec::axiom_vec_decreases_to_view;

/// The site a book's data came from, by name.
pub type Site = String;

/// The original data of a site: named texts.
pub type Original = Dict<String>;

/// The texts of original data.
pub open spec fn original_model(o: Original) -> Map<Seq<char>, Seq<char>> {
    o@.map_values(|v: String| v@)
}

/// The original data of each site, as texts.
pub open spec fn origin_model(d: Dict<Original>) -> Map<Seq<char>, Map<Seq<char>, Seq<char>>> {
    d@.map_values(|o: Original| original_model(o))
}

/// What a publisher stands for.
pub struct PublisherView {
    pub id: u64,
    pub name: Seq<char>,
    pub keywords: Map<Seq<char>, Seq<Seq<char>>>,
}

/// A publisher, with its search keywords per site.
#[derive(Debug)]
pub struct Publisher {
    id: u64,
    name: String,
    keywords: Dict<Vec<String>>,
}

impl Publisher {
    pub closed spec fn view(&self) -> PublisherView {
        PublisherView {
            id: self.id,
            name: self.name@,
            keywords: self.keywords@.map_values(|v: Vec<String>| crate::item::texts(v)),
        }
    }

    /// A publisher with no keywords.
    pub fn new(id: u64, name: String) -> (r: Publisher)
        ensures
            r@ == (PublisherView { id, name: name@, keywords: Map::empty() }),
    {
        let r = Publisher { id, name, keywords: Dict::new() };
        assert(r@.keywords =~= Map::empty());
        r
    }

    pub fn id(&self) -> (r: u64)
        ensures
            r == self@.id,
    {
        self.id
    }

    pub fn name(&self) -> (r: &str)
        ensures
            r@ == self@.name,
    {
        self.name.as_str()
    }

    pub fn keywords(&self) -> (r: &Dict<Vec<String>>)
        ensures
            r@.map_values(|v: Vec<String>| crate::item::texts(v)) == self@.keywords,
    {
        &self.keywords
    }

    /// Appends `keyword` to the keywords of `site`.
    pub fn add_keyword(&mut self, site: Site, keyword: String)
        ensures
            final(self)@.id == old(self)@.id,
            final(self)@.name == old(self)@.name,
            final(self)@.keywords == old(self)@.keywords.insert(
                site@,
                (if old(self)@.keywords.contains_key(site@) { old(self)@.keywords[site@] } else { Seq::empty() }).push(keyword@),
            ),
    {
        let ghost k0 = self.keywords@;
        let mut list = match self.keywords.remove(site.as_str()) {
            Some(l) => l,
            None => Vec::new(),
        };
        proof {
            if !k0.contains_key(site@) {
                assert(crate::item::texts(list) =~= Seq::<Seq<char>>::empty());
            }
        }
        let ghost before = crate::item::texts(list);
        list.push(keyword);
        proof {
            assert(crate::item::texts(list) =~= before.push(keyword@));
        }
        let ghost s = site@;
        self.keywords.insert(site, list);
        proof {
            assert(self.keywords@ =~= k0.insert(s, list));
            assert(self@.keywords =~= old(self)@.keywords.insert(s, crate::item::texts(list)));
        }
    }
}

/// What a book stands for.
pub struct BookView {
    pub id: u64,
    pub isbn: Seq<char>,
    pub publisher_id: u64,
    pub title: Seq<char>,
    pub scheduled_pub_date: Option<Date>,
    pub actual_pub_date: Option<Date>,
    pub origin_data: Map<Seq<char>, Map<Seq<char>, Seq<char>>>,
}

/// A book with its original data per site.
#[derive(Debug)]
pub struct Book {
    id: u64,
    isbn: String,
    publisher_id: u64,
    title: String,
    scheduled_pub_date: Option<Date>,
    actual_pub_date: Option<Date>,
    origin_data: Dict<Original>,
}

/// The data of `a` with the entries of `b` added, those of `b` winning.
pub open spec fn merged_origin(
    a: Map<Seq<char>, Map<Seq<char>, Seq<char>>>,
    b: Map<Seq<char>, Map<Seq<char>, Seq<char>>>,
) -> Map<Seq<char>, Map<Seq<char>, Seq<char>>> {
    Map::new(
        |s: Seq<char>| a.contains_key(s) || b.contains_key(s),
        |s: Seq<char>| if !b.contains_key(s) {
            a[s]
        } else if a.contains_key(s) {
            a[s].union_prefer_right(b[s])
        } else {
            b[s]
        },
    )
}

impl Book {
    pub closed spec fn view(&self) -> BookView {
        BookView {
            id: self.id,
            isbn: self.isbn@,
            publisher_id: self.publisher_id,
            title: self.title@,
            scheduled_pub_date: self.scheduled_pub_date,
            actual_pub_date: self.actual_pub_date,
            origin_data: origin_model(self.origin_data),
        }
    }

    /// A book not stored yet: its id is 0.
    pub fn new(
        isbn: String,
        publisher_id: u64,
        title: String,
        scheduled_pub_date: Option<Date>,
        actual_pub_date: Option<Date>,
        origin_data: Dict<Original>,
    ) -> (r: Book)
        ensures
            r@ == (BookView {
                id: 0,
                isbn: isbn@,
                publisher_id,
                title: title@,
                scheduled_pub_date,
                actual_pub_date,
                origin_data: origin_model(origin_data),
            }),
    {
        Book { id: 0, isbn, publisher_id, title, scheduled_pub_date, actual_pub_date, origin_data }
    }

    /// A book that is stored under `id`.
    pub fn existing(
        id: u64,
        isbn: String,
        publisher_id: u64,
        title: String,
        scheduled_pub_date: Option<Date>,
        actual_pub_date: Option<Date>,
        origin_data: Dict<Original>,
    ) -> (r: Book)
        ensures
            r@ == (BookView {
                id,
                isbn: isbn@,
                publisher_id,
                title: title@,
                scheduled_pub_date,
                actual_pub_date,
                origin_data: origin_model(origin_data),
            }),
    {
        Book { id, isbn, publisher_id, title, scheduled_pub_date, actual_pub_date, origin_data }
    }

    pub fn id(&self) -> (r: u64)
        ensures
            r == self@.id,
    {
        self.id
    }

    pub fn isbn(&self) -> (r: &str)
        ensures
            r@ == self@.isbn,
    {
        self.isbn.as_str()
    }

    pub fn publisher_id(&self) -> (r: u64)
        ensures
            r == self@.publisher_id,
    {
        self.publisher_id
    }

    pub fn title(&self) -> (r: &str)
        ensures
            r@ == self@.title,
    {
        self.title.as_str()
    }

    pub fn scheduled_pub_date(&self) -> (r: Option<Date>)
        ensures
            r == self@.scheduled_pub_date,
    {
        self.scheduled_pub_date
    }

    pub fn actual_pub_date(&self) -> (r: Option<Date>)
        ensures
            r == self@.actual_pub_date,
    {
        self.actual_pub_date
    }

    pub fn origin_data(&self) -> (r: &Dict<Original>)
        ensures
            origin_model(*r) == self@.origin_data,
    {
        &self.origin_data
    }

    pub fn set_publisher_id(&mut self, publisher_id: u64)
        ensures
            final(self)@ == (BookView { publisher_id, ..old(self)@ }),
    {
        self.publisher_id = publisher_id;
    }

    /// Sets `property` of the data of `site` to `value`.
    pub fn add_origin_data(&mut self, site: Site, property: String, value: String)
        ensures
            final(self)@ == (BookView {
                origin_data: old(self)@.origin_data.insert(
                    site@,
                    (if old(self)@.origin_data.contains_key(site@) {
                        old(self)@.origin_data[site@]
                    } else {
                        Map::empty()
                    }).insert(property@, value@),
                ),
                ..old(self)@
            }),
    {
        let ghost d0 = self.origin_data@;
        let mut o = match self.origin_data.remove(site.as_str()) {
            Some(o) => o,
            None => Dict::new(),
        };
        proof {
            if !d0.contains_key(site@) {
                assert(original_model(o) =~= Map::<Seq<char>, Seq<char>>::empty());
            }
        }
        let ghost before = original_model(o);
        let ghost pk = property@;
        let ghost vv = value@;
        o.insert(property, value);
        proof {
            assert(original_model(o) =~= before.insert(pk, vv));
        }
        let ghost s = site@;
        self.origin_data.insert(site, o);
        proof {
            assert(self.origin_data@ =~= d0.insert(s, o));
            assert(origin_model(self.origin_data) =~= origin_model(old(self).origin_data).insert(s, original_model(o)));
        }
    }

    /// Takes what `update` says of the book: its title, each publication
    /// date it has, and its original data, whose entries are added to the
    /// book's, replacing those with the same site and property.
    pub fn merge(&mut self, update: &Book)
        ensures
            final(self)@ == (BookView {
                title: update@.title,
                scheduled_pub_date: if update@.scheduled_pub_date is Some {
                    update@.scheduled_pub_date
                } else {
                    old(self)@.scheduled_pub_date
                },
                actual_pub_date: if update@.actual_pub_date is Some {
                    update@.actual_pub_date
                } else {
                    old(self)@.actual_pub_date
                },
                origin_data: merged_origin(old(self)@.origin_data, update@.origin_data),
                ..old(self)@
            }),
    {
        if !str_eq(update.title.as_str(), self.title.as_str()) {
            self.title = update.title.clone();
        }
        if let Some(sch) = update.scheduled_pub_date {
            self.scheduled_pub_date = Some(sch);
        }
        if let Some(act) = update.actual_pub_date {
            self.actual_pub_date = Some(act);
        }
        let ghost a = old(self)@.origin_data;
        let ghost b = update@.origin_data;
        let ghost head = self@;
        let n = update.origin_data.len();
        let mut i: usize = 0;
        proof {
            update.origin_data.lemma_pairs_of_entries();
            assert(merged_origin(a, map_of_prefix(update.origin_data, 0)) =~= a);
        }
        while i < n
            invariant
                n == update.origin_data.pairs().len(),
                crate::dict::unique_keys(update.origin_data.pairs()),
                i <= n,
                self@ == (BookView { origin_data: self@.origin_data, ..head }),
                origin_model(self.origin_data) == merged_origin(a, map_of_prefix(update.origin_data, i as int)),
            decreases n - i,
        {
            let (site, origin) = update.origin_data.entry_at(i);
            self.merge_site(site, origin);
            proof {
                lemma_map_of_prefix_step(update.origin_data, i as int);
                let m = map_of_prefix(update.origin_data, i as int);
                let o = original_model(*origin);
                let lhs = merged_origin(a, m.insert(site@, o));
                let rhs = merged_origin(a, m).insert(
                    site@,
                    (if merged_origin(a, m).contains_key(site@) { merged_origin(a, m)[site@] } else { Map::empty() }).union_prefer_right(o),
                );
                assert forall|k: Seq<char>| #[trigger] lhs.contains_key(k) == rhs.contains_key(k) by {}
                assert forall|k: Seq<char>| #[trigger] lhs.contains_key(k) implies lhs[k] == rhs[k] by {
                    if k == site@ && !a.contains_key(k) {
                        assert(Map::<Seq<char>, Seq<char>>::empty().union_prefer_right(o) =~= o);
                    }
                }
                assert(lhs =~= rhs);
            }
            i = i + 1;
        }
        proof {
            lemma_map_of_prefix_all(update.origin_data);
            assert(self@.origin_data =~= merged_origin(a, b));
        }
    }

    /// Adds the entries of `origin` to the data of `site`.
    fn merge_site(&mut self, site: &String, origin: &Original)
        ensures
            final(self)@ == (BookView {
                origin_data: old(self)@.origin_data.insert(
                    site@,
                    (if old(self)@.origin_data.contains_key(site@) {
                        old(self)@.origin_data[site@]
                    } else {
                        Map::empty()
                    }).union_prefer_right(original_model(*origin)),
                ),
                ..old(self)@
            }),
    {
        let ghost d0 = self.origin_data@;
        let mut o = match self.origin_data.remove(site.as_str()) {
            Some(o) => o,
            None => Dict::new(),
        };
        let ghost start = original_model(o);
        proof {
            if !d0.contains_key(site@) {
                assert(start =~= Map::<Seq<char>, Seq<char>>::empty());
            }
        }
        let n = origin.len();
        let mut i: usize = 0;
        proof {
            origin.lemma_pairs_of_entries();
            assert(start.union_prefer_right(texts_of_prefix(*origin, 0)) =~= start);
        }
        while i < n
            invariant
                n == origin.pairs().len(),
                crate::dict::unique_keys(origin.pairs()),
                i <= n,
                original_model(o) == start.union_prefer_right(texts_of_prefix(*origin, i as int)),
            decreases n - i,
        {
            let (k, v) = origin.entry_at(i);
            let ghost before = original_model(o);
            o.insert(k.clone(), v.clone());
            proof {
                lemma_texts_of_prefix_step(*origin, i as int);
                assert(original_model(o) =~= before.insert(k@, v@));
                assert(start.union_prefer_right(texts_of_prefix(*origin, i + 1)) =~= before.insert(k@, v@));
            }
            i = i + 1;
        }
        proof {
            lemma_texts_of_prefix_all(*origin);
        }
        self.origin_data.insert(site.clone(), o);
        proof {
            assert(self.origin_data@ =~= d0.insert(site@, o));
            assert(origin_model(self.origin_data) =~= origin_model(old(self).origin_data).insert(site@, original_model(o)));
        }
    }
}

/// The data of the first `i` sites of `d`.
pub closed spec fn map_of_prefix(d: Dict<Original>, i: int) -> Map<Seq<char>, Map<Seq<char>, Seq<char>>> {
    crate::dict::map_of(d.pairs().subrange(0, i)).map_values(|o: Original| original_model(o))
}

proof fn lemma_map_of_prefix_step(d: Dict<Original>, i: int)
    requires
        0 <= i < d.pairs().len(),
        crate::dict::unique_keys(d.pairs()),
    ensures
        map_of_prefix(d, i + 1) == map_of_prefix(d, i).insert(d.pairs()[i].0, original_model(d.pairs()[i].1)),
        !map_of_prefix(d, i).contains_key(d.pairs()[i].0),
{
    let p = d.pairs().subrange(0, i + 1);
    assert(p.drop_last() =~= d.pairs().subrange(0, i));
    crate::dict::lemma_map_of_contains(d.pairs().subrange(0, i), d.pairs()[i].0);
    if crate::dict::map_of(d.pairs().subrange(0, i)).contains_key(d.pairs()[i].0) {
        let j = choose|j: int| 0 <= j < d.pairs().subrange(0, i).len() && d.pairs().subrange(0, i)[j].0 == d.pairs()[i].0;
        assert(d.pairs()[j].0 == d.pairs()[i].0);
    }
    assert(map_of_prefix(d, i + 1) =~= map_of_prefix(d, i).insert(d.pairs()[i].0, original_model(d.pairs()[i].1)));
}

proof fn lemma_map_of_prefix_all(d: Dict<Original>)
    ensures
        map_of_prefix(d, d.pairs().len() as int) == origin_model(d),
{
    assert(d.pairs().subrange(0, d.pairs().len() as int) =~= d.pairs());
}

/// The texts of the first `i` entries of `o`.
pub closed spec fn texts_of_prefix(o: Original, i: int) -> Map<Seq<char>, Seq<char>> {
    crate::dict::map_of(o.pairs().subrange(0, i)).map_values(|v: String| v@)
}

proof fn lemma_texts_of_prefix_step(o: Original, i: int)
    requires
        0 <= i < o.pairs().len(),
    ensures
        texts_of_prefix(o, i + 1) == texts_of_prefix(o, i).insert(o.pairs()[i].0, o.pairs()[i].1@),
{
    let p = o.pairs().subrange(0, i + 1);
    assert(p.drop_last() =~= o.pairs().subrange(0, i));
    assert(texts_of_prefix(o, i + 1) =~= texts_of_prefix(o, i).insert(o.pairs()[i].0, o.pairs()[i].1@));
}

proof fn lemma_texts_of_prefix_all(o: Original)
    ensures
        texts_of_prefix(o, o.pairs().len() as int) == original_model(o),
{
    assert(o.pairs().subrange(0, o.pairs().len() as int) =~= o.pairs());
}

/// How the results of a filter's nodes are combined.
#[derive(Debug, Clone, Copy, PartialEq, Eq, Structural)]
pub enum Operator {
    AND,
    OR,
    NOR,
    NAND,
}

impl Operator {
    /// The operator named by `s` (`AND`, `OR`, `NOR` or `NAND`).
    pub fn from_str(s: &str) -> (r: Option<Operator>)
        ensures
            r == match crate::item::rule::operator_of_code(s@) {
                Some(crate::item::rule::Operator::AND) => Some(Operator::AND),
                Some(crate::item::rule::Operator::OR) => Some(Operator::OR),
                Some(crate::item::rule::Operator::NOR) => Some(Operator::NOR),
                Some(crate::item::rule::Operator::NAND) => Some(Operator::NAND),
                None => None::<Operator>,
            },
    {
        proof {
            reveal_strlit("AND");
            reveal_strlit("OR");
            reveal_strlit("NOR");
            reveal_strlit("NAND");
        }
        if str_eq(s, "AND") {
            Some(Operator::AND)
        } else if str_eq(s, "OR") {
            Some(Operator::OR)
        } else if str_eq(s, "NOR") {
            Some(Operator::NOR)
        } else if str_eq(s, "NAND") {
            Some(Operator::NAND)
        } else {
            None
        }
    }
}

/// What an original-data filter holds.
pub struct FilterView {
    pub id: u64,
    pub name: Seq<char>,
    pub site: Seq<char>,
    pub is_root: bool,
    pub operator: Option<Operator>,
    pub property_name: Option<Seq<char>>,
    pub regex: Option<Seq<char>>,
    pub nodes: Seq<FilterView>,
}

/// A filter of a site's original data: an operator over child filters, or
/// a property whose text must match a pattern. A book with no data of the
/// filter's site passes it.
#[derive(Debug)]
pub struct BookOriginFilter {
    id: u64,
    name: String,
    site: Site,
    is_root: bool,
    operator: Option<Operator>,
    property_name: Option<String>,
    regex: Option<String>,
    nodes: Vec<BookOriginFilter>,
}

impl BookOriginFilter {
    pub closed spec fn view(&self) -> FilterView
        decreases self, 0int,
    {
        FilterView {
            id: self.id,
            name: self.name@,
            site: self.site@,
            is_root: self.is_root,
            operator: self.operator,
            property_name: crate::item::text_of(self.property_name),
            regex: crate::item::text_of(self.regex),
            nodes: filters_view(self.nodes, self.nodes@.len() as int),
        }
    }
}

/// What the first `n` filters of `v` hold.
pub closed spec fn filters_view(v: Vec<BookOriginFilter>, n: int) -> Seq<FilterView>
    decreases v, n,
{
    if n <= 0 || n > v@.len() {
        Seq::empty()
    } else {
        filters_view(v, n - 1).push(v@[n - 1].view())
    }
}

proof fn lemma_filters_view(v: Vec<BookOriginFilter>, n: int)
    requires
        0 <= n <= v@.len(),
    ensures
        filters_view(v, n).len() == n,
        forall|i: int| 0 <= i < n ==> #[trigger] filters_view(v, n)[i] == v@[i]@,
    decreases n,
{
    if n > 0 {
        lemma_filters_view(v, n - 1);
    }
}

/// The result of filtering the book data `data` with `f`, or `None` where a
/// pattern that is reached does not compile.
pub open spec fn filter_check(f: FilterView, data: Map<Seq<char>, Map<Seq<char>, Seq<char>>>) -> Option<bool>
    decreases f, 1int,
{
    if !data.contains_key(f.site) {
        Some(true)
    } else {
        match f.operator {
            Some(op) => match op {
                Operator::AND => check_all(f.nodes, data, true),
                Operator::OR => check_any(f.nodes, data),
                Operator::NOR => check_all(f.nodes, data, false),
                Operator::NAND => match check_all(f.nodes, data, true) {
                    Some(b) => Some(!b),
                    None => None,
                },
            },
            None => match (f.regex, f.property_name) {
                (Some(re), Some(p)) => if !regex_compiles(re) {
                    None
                } else if data[f.site].contains_key(p) {
                    Some(regex_finds(re, data[f.site][p]))
                } else {
                    Some(false)
                },
                _ => Some(false),
            },
        }
    }
}

/// Whether every node gives `expected`, stopping at the first that does not.
pub open spec fn check_all(ns: Seq<FilterView>, data: Map<Seq<char>, Map<Seq<char>, Seq<char>>>, expected: bool) -> Option<bool>
    decreases ns, 0int,
{
    if ns.len() == 0 {
        Some(true)
    } else {
        proof {
            assert(decreases_to!(ns => ns[0]));
            assert(decreases_to!(ns => ns.subrange(1, ns.len() as int)));
        }
        match filter_check(ns[0], data) {
            None => None,
            Some(b) => if b == expected {
                check_all(ns.subrange(1, ns.len() as int), data, expected)
            } else {
                Some(false)
            },
        }
    }
}

/// Whether some node passes, stopping at the first that does.
pub open spec fn check_any(ns: Seq<FilterView>, data: Map<Seq<char>, Map<Seq<char>, Seq<char>>>) -> Option<bool>
    decreases ns, 0int,
{
    if ns.len() == 0 {
        Some(false)
    } else {
        proof {
            assert(decreases_to!(ns => ns[0]));
            assert(decreases_to!(ns => ns.subrange(1, ns.len() as int)));
        }
        match filter_check(ns[0], data) {
            None => None,
            Some(b) => if b {
                Some(true)
            } else {
                check_any(ns.subrange(1, ns.len() as int), data)
            },
        }
    }
}

/// Every filter of `ns` can check `data`.
pub open spec fn all_checkable(ns: Seq<FilterView>, data: Map<Seq<char>, Map<Seq<char>, Seq<char>>>) -> bool {
    forall|i: int| 0 <= i < ns.len() ==> (#[trigger] filter_check(ns[i], data)) is Some
}

proof fn lemma_check_any_some(ns: Seq<FilterView>, data: Map<Seq<char>, Map<Seq<char>, Seq<char>>>)
    requires
        all_checkable(ns, data),
    ensures
        check_any(ns, data) == Some(exists|i: int| 0 <= i < ns.len() && #[trigger] filter_check(ns[i], data) == Some(true)),
    decreases ns.len(),
{
    if ns.len() > 0 {
        let rest = ns.subrange(1, ns.len() as int);
        assert forall|i: int| 0 <= i < rest.len() implies (#[trigger] filter_check(rest[i], data)) is Some by {
            assert(rest[i] == ns[i + 1]);
        }
        lemma_check_any_some(rest, data);
        assert(filter_check(ns[0], data) is Some);
        if exists|i: int| 0 <= i < ns.len() && #[trigger] filter_check(ns[i], data) == Some(true) {
            let i = choose|i: int| 0 <= i < ns.len() && #[trigger] filter_check(ns[i], data) == Some(true);
            if i > 0 {
                assert(rest[i - 1] == ns[i]);
            }
        }
        if exists|i: int| 0 <= i < rest.len() && #[trigger] filter_check(rest[i], data) == Some(true) {
            let i = choose|i: int| 0 <= i < rest.len() && #[trigger] filter_check(rest[i], data) == Some(true);
            assert(ns[i + 1] == rest[i]);
        }
    }
}

proof fn lemma_check_all_some(ns: Seq<FilterView>, data: Map<Seq<char>, Map<Seq<char>, Seq<char>>>, expected: bool)
    requires
        all_checkable(ns, data),
    ensures
        check_all(ns, data, expected) == Some(forall|i: int| 0 <= i < ns.len() ==> #[trigger] filter_check(ns[i], data) == Some(expected)),
    decreases ns.len(),
{
    if ns.len() > 0 {
        let rest = ns.subrange(1, ns.len() as int);
        assert forall|i: int| 0 <= i < rest.len() implies (#[trigger] filter_check(rest[i], data)) is Some by {
            assert(rest[i] == ns[i + 1]);
        }
        lemma_check_all_some(rest, data, expected);
        assert(filter_check(ns[0], data) is Some);
        if forall|i: int| 0 <= i < rest.len() ==> #[trigger] filter_check(rest[i], data) == Some(expected) {
            if filter_check(ns[0], data) == Some(expected) {
                assert forall|i: int| 0 <= i < ns.len() implies #[trigger] filter_check(ns[i], data) == Some(expected) by {
                    if i > 0 {
                        assert(ns[i] == rest[i - 1]);
                    }
                }
            }
        } else {
            let i = choose|i: int| 0 <= i < rest.len() && !(#[trigger] filter_check(rest[i], data) == Some(expected));
            assert(ns[i + 1] == rest[i]);
        }
    }
}

/// A filter of a site the book has data of, whose children can all check
/// that data: `OR` passes exactly when some child passes, `AND` when every
/// child passes, `NOR` when every child fails, `NAND` when some child fails.
pub proof fn lemma_filter_combines_children(f: FilterView, data: Map<Seq<char>, Map<Seq<char>, Seq<char>>>)
    requires
        data.contains_key(f.site),
        f.operator is Some,
        all_checkable(f.nodes, data),
    ensures
        f.operator == Some(Operator::OR) ==> filter_check(f, data)
            == Some(exists|i: int| 0 <= i < f.nodes.len() && #[trigger] filter_check(f.nodes[i], data) == Some(true)),
        f.operator == Some(Operator::AND) ==> filter_check(f, data)
            == Some(forall|i: int| 0 <= i < f.nodes.len() ==> #[trigger] filter_check(f.nodes[i], data) == Some(true)),
        f.operator == Some(Operator::NOR) ==> filter_check(f, data)
            == Some(forall|i: int| 0 <= i < f.nodes.len() ==> #[trigger] filter_check(f.nodes[i], data) == Some(false)),
        f.operator == Some(Operator::NAND) ==> filter_check(f, data)
            == Some(exists|i: int| 0 <= i < f.nodes.len() && #[trigger] filter_check(f.nodes[i], data) == Some(false)),
{
    lemma_check_any_some(f.nodes, data);
    lemma_check_all_some(f.nodes, data, true);
    lemma_check_all_some(f.nodes, data, false);
    let ns = f.nodes;
    if f.operator == Some(Operator::NAND) {
        if exists|i: int| 0 <= i < ns.len() && #[trigger] filter_check(ns[i], data) == Some(false) {
            let i = choose|i: int| 0 <= i < ns.len() && #[trigger] filter_check(ns[i], data) == Some(false);
            assert(!(filter_check(ns[i], data) == Some(true)));
        } else {
            assert forall|i: int| 0 <= i < ns.len() implies #[trigger] filter_check(ns[i], data) == Some(true) by {
                assert(filter_check(ns[i], data) is Some);
                assert(filter_check(ns[i], data) != Some(false));
            }
        }
    }
}

fn check_nodes_all(v: &Vec<BookOriginFilter>, book: &Book, expected: bool) -> (r: Option<bool>)
    ensures
        r == check_all(filters_view(*v, v@.len() as int), book@.origin_data, expected),
    decreases v,
{
    let ghost ns = filters_view(*v, v@.len() as int);
    proof {
        lemma_filters_view(*v, v@.len() as int);
        assert(ns.subrange(0, ns.len() as int) =~= ns);
    }
    let n = v.len();
    let mut i: usize = 0;
    while i < n
        invariant
            n == v@.len(),
            ns == filters_view(*v, v@.len() as int),
            ns.len() == n,
            forall|j: int| 0 <= j < n ==> #[trigger] ns[j] == v@[j]@,
            i <= n,
            check_all(ns, book@.origin_data, expected) == check_all(ns.subrange(i as int, n as int), book@.origin_data, expected),
        decreases n - i,
    {
        let ghost rest = ns.subrange(i as int, n as int);
        proof {
            assert(rest[0] == v@[i as int]@);
            assert(decreases_to!(*v => v[i as int]));
            assert(rest.subrange(1, rest.len() as int) =~= ns.subrange(i + 1, n as int));
        }
        match v[i].check(book) {
            None => return None,
            Some(b) => {
                if b != expected {
                    return Some(false);
                }
            },
        }
        i = i + 1;
    }
    Some(true)
}

fn check_nodes_any(v: &Vec<BookOriginFilter>, book: &Book) -> (r: Option<bool>)
    ensures
        r == check_any(filters_view(*v, v@.len() as int), book@.origin_data),
    decreases v,
{
    let ghost ns = filters_view(*v, v@.len() as int);
    proof {
        lemma_filters_view(*v, v@.len() as int);
        assert(ns.subrange(0, ns.len() as int) =~= ns);
    }
    let n = v.len();
    let mut i: usize = 0;
    while i < n
        invariant
            n == v@.len(),
            ns == filters_view(*v, v@.len() as int),
            ns.len() == n,
            forall|j: int| 0 <= j < n ==> #[trigger] ns[j] == v@[j]@,
            i <= n,
            check_any(ns, book@.origin_data) == check_any(ns.subrange(i as int, n as int), book@.origin_data),
        decreases n - i,
    {
        let ghost rest = ns.subrange(i as int, n as int);
        proof {
            assert(rest[0] == v@[i as int]@);
            assert(decreases_to!(*v => v[i as int]));
            assert(rest.subrange(1, rest.len() as int) =~= ns.subrange(i + 1, n as int));
        }
        match v[i].check(book) {
            None => return None,
            Some(b) => {
                if b {
                    return Some(true);
                }
            },
        }
        i = i + 1;
    }
    Some(false)
}

impl BookOriginFilter {
    /// A filter with no child filter.
    pub fn new(
        id: u64,
        name: String,
        site: Site,
        is_root: bool,
        operator: Option<Operator>,
        property_name: Option<String>,
        regex: Option<String>,
    ) -> (r: BookOriginFilter)
        ensures
            r@ == (FilterView {
                id,
                name: name@,
                site: site@,
                is_root,
                operator,
                property_name: crate::item::text_of(property_name),
                regex: crate::item::text_of(regex),
                nodes: Seq::empty(),
            }),
    {
        let r = BookOriginFilter { id, name, site, is_root, operator, property_name, regex, nodes: Vec::new() };
        proof {
            lemma_filters_view(r.nodes, 0);
            assert(r@.nodes =~= Seq::<FilterView>::empty());
        }
        r
    }

    pub fn id(&self) -> (r: u64)
        ensures
            r == self@.id,
    {
        self.id
    }

    pub fn name(&self) -> (r: &str)
        ensures
            r@ == self@.name,
    {
        self.name.as_str()
    }

    pub fn site(&self) -> (r: &str)
        ensures
            r@ == self@.site,
    {
        self.site.as_str()
    }

    pub fn is_root(&self) -> (r: bool)
        ensures
            r == self@.is_root,
    {
        self.is_root
    }

    pub fn operator(&self) -> (r: &Option<Operator>)
        ensures
            *r == self@.operator,
    {
        &self.operator
    }

    pub fn property_name(&self) -> (r: &Option<String>)
        ensures
            crate::item::text_of(*r) == self@.property_name,
    {
        &self.property_name
    }

    pub fn regex(&self) -> (r: &Option<String>)
        ensures
            crate::item::text_of(*r) == self@.regex,
    {
        &self.regex
    }

    pub fn nodes(&self) -> (r: &Vec<BookOriginFilter>)
        ensures
            r@.len() == self@.nodes.len(),
            forall|i: int| 0 <= i < r@.len() ==> #[trigger] r@[i]@ == self@.nodes[i],
    {
        proof {
            lemma_filters_view(self.nodes, self.nodes@.len() as int);
        }
        &self.nodes
    }

    /// Appends `node` to the child filters.
    pub fn add_node(&mut self, node: BookOriginFilter)
        ensures
            final(self)@ == (FilterView { nodes: old(self)@.nodes.push(node@), ..old(self)@ }),
    {
        proof {
            lemma_filters_view(self.nodes, self.nodes@.len() as int);
        }
        self.nodes.push(node);
        proof {
            lemma_filters_view(self.nodes, self.nodes@.len() as int);
            assert(self@.nodes =~= old(self)@.nodes.push(node@));
        }
    }

    /// The result of filtering `book`, or `None` where a pattern that is
    /// reached does not compile.
    pub fn check(&self, book: &Book) -> (r: Option<bool>)
        ensures
            r == filter_check(self@, book@.origin_data),
        decreases self,
    {
        let origin = match book.origin_data.get(self.site.as_str()) {
            Some(o) => o,
            None => return Some(true),
        };
        match self.operator {
            Some(op) => match op {
                Operator::AND => check_nodes_all(&self.nodes, book, true),
                Operator::OR => check_nodes_any(&self.nodes, book),
                Operator::NOR => check_nodes_all(&self.nodes, book, false),
                Operator::NAND => match check_nodes_all(&self.nodes, book, true) {
                    Some(b) => Some(!b),
                    None => None,
                },
            },
            None => match (&self.regex, &self.property_name) {
                (Some(re), Some(p)) => {
                    if !regex_valid(re.as_str()) {
                        None
                    } else {
                        match origin.get(p.as_str()) {
                            Some(v) => regex_is_match(re.as_str(), v.as_str()),
                            None => Some(false),
                        }
                    }
                },
                _ => Some(false),
            },
        }
    }

    /// Whether `book` passes the filter: a book with no data of the
    /// filter's site passes; an operator combines the results of the child
    /// filters (each on its own site's data); otherwise the property's text
    /// must match the pattern, and a filter with neither fails the book.
    pub fn validate(&self, book: &Book) -> (r: bool)
        requires
            filter_check(self@, book@.origin_data) is Some,
        ensures
            r == filter_check(self@, book@.origin_data)->0,
    {
        match self.check(book) {
            Some(b) => b,
            None => false,
        }
    }
}

/// Merging the same update twice gives what merging it once gives.
pub proof fn lemma_merge_origin_idempotent(
    a: Map<Seq<char>, Map<Seq<char>, Seq<char>>>,
    b: Map<Seq<char>, Map<Seq<char>, Seq<char>>>,
)
    ensures
        merged_origin(merged_origin(a, b), b) == merged_origin(a, b),
{
    let m = merged_origin(a, b);
    let mm = merged_origin(m, b);
    assert forall|s: Seq<char>| #[trigger] mm.contains_key(s) implies mm[s] == m[s] by {
        if b.contains_key(s) {
            assert(m[s].union_prefer_right(b[s]) =~= m[s]);
        }
    }
    assert(mm =~= m);
}

/// After a merge the book holds every property of the update's data with
/// the update's value.
pub proof fn lemma_merge_takes_update(
    a: Map<Seq<char>, Map<Seq<char>, Seq<char>>>,
    b: Map<Seq<char>, Map<Seq<char>, Seq<char>>>,
    s: Seq<char>,
    p: Seq<char>,
)
    requires
        b.contains_key(s),
        b[s].contains_key(p),
    ensures
        merged_origin(a, b).contains_key(s),
        merged_origin(a, b)[s].contains_key(p),
        merged_origin(a, b)[s][p] == b[s][p],
{
}

} // verus!
