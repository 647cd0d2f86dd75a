//! The stores of the first book model, and how what they load is put
//! together.
use vstd::prelude::*;
use crate::dict::Dict;
use crate::book::{Book, BookOriginFilter, BookView, FilterView, Operator, Publisher, PublisherView};
use crate::book::entity::{BookEntity, BookOriginDataEntity, BookOriginFilterEntity, PublisherEntity, PublisherKeywordEntity,
    book_of_entity, node_of_entity, parent_of_entity};

verus! {

/// A store failure.
#[derive(Debug, Clone, PartialEq, Eq)]
pub enum SQLError {
    QueryExecuteError(String),
}

impl SQLError {
    /// The message of the failure.
    pub fn to_string(&self) -> (r: String)
        ensures
            self matches SQLError::QueryExecuteError(m) && r@ == m@,
    {
        match self {
            SQLError::QueryExecuteError(m) => m.clone(),
        }
    }
}

/// The store of publishers.
pub trait PublisherRepository {
    /// All publishers.
    fn get_all(&self) -> Vec<Publisher>;
}

/// The store of original-data filters.
pub trait BookOriginFilterRepository {
    /// The root filter of each site, with its tree of children.
    fn get_root_filters(&self) -> Dict<BookOriginFilter>;
}

/// The filter of row `i` with its children, down to `fuel` levels: the
/// children of a filter are the rows whose parent is its id, in row order.
pub open spec fn subtree(es: Seq<BookOriginFilterEntity>, i: int, fuel: nat) -> FilterView
    decreases fuel, 0int,
{
    if fuel == 0 {
        node_of_entity(es[i])
    } else {
        FilterView {
            nodes: children(es, es[i].id as u64, (fuel - 1) as nat, es.len() as int),
            ..node_of_entity(es[i])
        }
    }
}

/// The subtrees of those of the first `n` rows whose parent is `pid`.
pub open spec fn children(es: Seq<BookOriginFilterEntity>, pid: u64, fuel: nat, n: int) -> Seq<FilterView>
    decreases fuel, n + 1,
{
    if n <= 0 {
        Seq::empty()
    } else {
        children(es, pid, fuel, n - 1) + if parent_of_entity(es[n - 1]) == Some(pid) {
            seq![subtree(es, n - 1, fuel)]
        } else {
            Seq::empty()
        }
    }
}

fn node_from(e: &BookOriginFilterEntity) -> (r: BookOriginFilter)
    ensures
        r@ == node_of_entity(*e),
{
    let operator = match &e.operator_type {
        Some(o) => Operator::from_str(o.as_str()),
        None => None,
    };
    BookOriginFilter::new(
        e.id as u64,
        e.name.clone(),
        e.site.clone(),
        e.is_root,
        operator,
        e.property_name.clone(),
        e.regex.clone(),
    )
}

fn build_node(es: &Vec<BookOriginFilterEntity>, i: usize, fuel: usize) -> (r: BookOriginFilter)
    requires
        i < es@.len(),
    ensures
        r@ == subtree(es@, i as int, fuel as nat),
    decreases fuel,
{
    let mut node = node_from(&es[i]);
    if fuel == 0 {
        return node;
    }
    let id = es[i].id as u64;
    let n = es.len();
    let mut k: usize = 0;
    proof {
        assert(node@.nodes =~= children(es@, id, (fuel - 1) as nat, 0));
    }
    while k < n
        invariant
            n == es@.len(),
            i < n,
            fuel > 0,
            id == es@[i as int].id as u64,
            k <= n,
            node@ == (FilterView { nodes: children(es@, id, (fuel - 1) as nat, k as int), ..node_of_entity(es@[i as int]) }),
        decreases n - k,
    {
        let is_child = match es[k].parent_id {
            Some(p) => p as u64 == id,
            None => false,
        };
        let ghost before = node@.nodes;
        if is_child {
            let child = build_node(es, k, fuel - 1);
            node.add_node(child);
            proof {
                assert(node@.nodes =~= children(es@, id, (fuel - 1) as nat, k + 1));
            }
        } else {
            proof {
                assert(children(es@, id, (fuel - 1) as nat, k + 1) =~= before);
            }
        }
        k = k + 1;
    }
    node
}

/// The root tree of each site among the first `n` rows: a later root row of
/// a site takes the place of an earlier one.
pub open spec fn roots_by_site(es: Seq<BookOriginFilterEntity>, n: int) -> Map<Seq<char>, FilterView>
    decreases n,
{
    if n <= 0 {
        Map::empty()
    } else if es[n - 1].is_root {
        roots_by_site(es, n - 1).insert(es[n - 1].site@, subtree(es, n - 1, es.len()))
    } else {
        roots_by_site(es, n - 1)
    }
}

/// The root filter of each site, with its tree of children; where several
/// root rows share a site the last one is kept. See [`roots_by_site`].
pub fn root_filters(entities: &Vec<BookOriginFilterEntity>) -> (r: Dict<BookOriginFilter>)
    ensures
        r@.dom() == roots_by_site(entities@, entities@.len() as int).dom(),
        forall|k: Seq<char>| #[trigger] r@.contains_key(k) ==> r@[k]@ == roots_by_site(entities@, entities@.len() as int)[k],
{
    let n = entities.len();
    let mut out: Dict<BookOriginFilter> = Dict::new();
    let mut k: usize = 0;
    while k < n
        invariant
            n == entities@.len(),
            k <= n,
            out@.dom() == roots_by_site(entities@, k as int).dom(),
            forall|s: Seq<char>| #[trigger] out@.contains_key(s) ==> out@[s]@ == roots_by_site(entities@, k as int)[s],
        decreases n - k,
    {
        if entities[k].is_root {
            let t = build_node(entities, k, n);
            out.insert(entities[k].site.clone(), t);
            proof {
                assert(out@.dom() =~= roots_by_site(entities@, k + 1).dom());
            }
        }
        k = k + 1;
    }
    out
}

/// The publishers of the rows of publishers joined with their keywords:
/// one per id, in the order each id first appears, with the keywords of its
/// rows appended per site in row order.
pub open spec fn grouped_publishers(rows: Seq<(PublisherEntity, Option<PublisherKeywordEntity>)>) -> Seq<PublisherView>
    decreases rows.len(),
{
    if rows.len() == 0 {
        Seq::empty()
    } else {
        let prev = grouped_publishers(rows.drop_last());
        let (pe, kw) = rows.last();
        let id = pe.id as u64;
        match index_of_publisher(prev, id) {
            None => prev.push(with_keyword(PublisherView { id, name: pe.name@, keywords: Map::empty() }, kw)),
            Some(j) => prev.update(j, with_keyword(prev[j], kw)),
        }
    }
}

/// The position of the publisher `id` in `ps`.
pub open spec fn index_of_publisher(ps: Seq<PublisherView>, id: u64) -> Option<int> {
    if exists|j: int| 0 <= j < ps.len() && #[trigger] ps[j].id == id {
        Some(choose|j: int| 0 <= j < ps.len() && #[trigger] ps[j].id == id)
    } else {
        None
    }
}

/// The publisher with the keyword of a row appended, when the row has one.
pub open spec fn with_keyword(p: PublisherView, kw: Option<PublisherKeywordEntity>) -> PublisherView {
    match kw {
        Some(k) => PublisherView {
            keywords: p.keywords.insert(
                k.site@,
                (if p.keywords.contains_key(k.site@) { p.keywords[k.site@] } else { Seq::empty() }).push(k.keyword@),
            ),
            ..p
        },
        None => p,
    }
}

/// Ids are unique among `ps`.
pub open spec fn unique_ids(ps: Seq<PublisherView>) -> bool {
    forall|a: int, b: int| 0 <= a < b < ps.len() ==> ps[a].id != ps[b].id
}

proof fn lemma_grouped_unique(rows: Seq<(PublisherEntity, Option<PublisherKeywordEntity>)>)
    ensures
        unique_ids(grouped_publishers(rows)),
    decreases rows.len(),
{
    if rows.len() > 0 {
        lemma_grouped_unique(rows.drop_last());
    }
}

fn find_publisher(ps: &Vec<Publisher>, id: u64) -> (r: Option<usize>)
    ensures
        r matches Some(j) ==> j < ps@.len() && ps@[j as int]@.id == id,
        r is None ==> forall|j: int| 0 <= j < ps@.len() ==> #[trigger] ps@[j]@.id != id,
{
    let n = ps.len();
    let mut j: usize = 0;
    while j < n
        invariant
            n == ps@.len(),
            j <= n,
            forall|k: int| 0 <= k < j ==> #[trigger] ps@[k]@.id != id,
        decreases n - j,
    {
        if ps[j].id() == id {
            return Some(j);
        }
        j = j + 1;
    }
    None
}

fn add_row_keyword(p: &mut Publisher, kw: &Option<PublisherKeywordEntity>)
    ensures
        final(p)@ == with_keyword(old(p)@, *kw),
{
    match kw {
        Some(k) => p.add_keyword(k.site.clone(), k.keyword.clone()),
        None => {},
    }
}

/// The publishers of the rows; see [`grouped_publishers`].
pub fn group_publishers(rows: &Vec<(PublisherEntity, Option<PublisherKeywordEntity>)>) -> (r: Vec<Publisher>)
    ensures
        r@.map_values(|p: Publisher| p@) == grouped_publishers(rows@),
{
    let n = rows.len();
    let mut out: Vec<Publisher> = Vec::new();
    let mut i: usize = 0;
    proof {
        assert(out@.map_values(|p: Publisher| p@) =~= grouped_publishers(rows@.subrange(0, 0)));
    }
    while i < n
        invariant
            n == rows@.len(),
            i <= n,
            out@.map_values(|p: Publisher| p@) == grouped_publishers(rows@.subrange(0, i as int)),
        decreases n - i,
    {
        let ghost prev = out@.map_values(|p: Publisher| p@);
        proof {
            assert(rows@.subrange(0, i + 1).drop_last() =~= rows@.subrange(0, i as int));
            assert(rows@.subrange(0, i + 1).last() == rows@[i as int]);
            lemma_grouped_unique(rows@.subrange(0, i as int));
        }
        let row = &rows[i];
        let id = row.0.id as u64;
        match find_publisher(&out, id) {
            Some(j) => {
                proof {
                    assert(prev[j as int].id == id);
                    let c = choose|k: int| 0 <= k < prev.len() && #[trigger] prev[k].id == id;
                    assert(c == j as int);
                }
                let mut p = out.remove(j);
                add_row_keyword(&mut p, &row.1);
                out.insert(j, p);
                proof {
                    assert(out@.map_values(|p: Publisher| p@) =~= prev.update(j as int, with_keyword(prev[j as int], row.1)));
                }
            },
            None => {
                proof {
                    assert(!(exists|k: int| 0 <= k < prev.len() && #[trigger] prev[k].id == id));
                }
                let mut p = Publisher::new(id, row.0.name.clone());
                add_row_keyword(&mut p, &row.1);
                out.push(p);
                proof {
                    assert(out@.map_values(|p: Publisher| p@) =~= prev.push(with_keyword(
                        PublisherView { id, name: row.0.name@, keywords: Map::empty() },
                        row.1,
                    )));
                }
            },
        }
        i = i + 1;
    }
    proof {
        assert(rows@.subrange(0, n as int) =~= rows@);
    }
    out
}

/// The book with a row of original data added, when the row has a value.
pub open spec fn with_origin(b: BookView, o: Option<BookOriginDataEntity>) -> BookView {
    match o {
        Some(d) => match d.val {
            Some(v) => BookView {
                origin_data: b.origin_data.insert(
                    d.site@,
                    (if b.origin_data.contains_key(d.site@) { b.origin_data[d.site@] } else { Map::empty() }).insert(d.property@, v@),
                ),
                ..b
            },
            None => b,
        },
        None => b,
    }
}

/// The position of the book with ISBN `isbn` in `bs`.
pub open spec fn index_of_isbn(bs: Seq<BookView>, isbn: Seq<char>) -> Option<int> {
    if exists|j: int| 0 <= j < bs.len() && #[trigger] bs[j].isbn == isbn {
        Some(choose|j: int| 0 <= j < bs.len() && #[trigger] bs[j].isbn == isbn)
    } else {
        None
    }
}

/// The books of the rows of books joined with their original data: one per
/// ISBN, from the first row of that ISBN, in the order each ISBN first
/// appears, with the data of its rows added in row order.
pub open spec fn grouped_books(rows: Seq<(BookEntity, Option<BookOriginDataEntity>)>) -> Seq<BookView>
    decreases rows.len(),
{
    if rows.len() == 0 {
        Seq::empty()
    } else {
        let prev = grouped_books(rows.drop_last());
        let (be, od) = rows.last();
        match index_of_isbn(prev, be.isbn@) {
            None => prev.push(with_origin(book_of_entity(be), od)),
            Some(j) => prev.update(j, with_origin(prev[j], od)),
        }
    }
}

proof fn lemma_grouped_books_unique(rows: Seq<(BookEntity, Option<BookOriginDataEntity>)>)
    ensures
        forall|a: int, b: int| 0 <= a < b < grouped_books(rows).len() ==> grouped_books(rows)[a].isbn != grouped_books(rows)[b].isbn,
    decreases rows.len(),
{
    if rows.len() > 0 {
        lemma_grouped_books_unique(rows.drop_last());
    }
}

fn find_isbn(bs: &Vec<Book>, isbn: &str) -> (r: Option<usize>)
    ensures
        r matches Some(j) ==> j < bs@.len() && bs@[j as int]@.isbn == isbn@,
        r is None ==> forall|j: int| 0 <= j < bs@.len() ==> #[trigger] bs@[j]@.isbn != isbn@,
{
    let n = bs.len();
    let mut j: usize = 0;
    while j < n
        invariant
            n == bs@.len(),
            j <= n,
            forall|k: int| 0 <= k < j ==> #[trigger] bs@[k]@.isbn != isbn@,
        decreases n - j,
    {
        if crate::text::str_eq(bs[j].isbn(), isbn) {
            return Some(j);
        }
        j = j + 1;
    }
    None
}

fn add_row_origin(b: &mut Book, od: &Option<BookOriginDataEntity>)
    ensures
        final(b)@ == with_origin(old(b)@, *od),
{
    match od {
        Some(d) => match &d.val {
            Some(v) => b.add_origin_data(d.site.clone(), d.property.clone(), v.clone()),
            None => {},
        },
        None => {},
    }
}

/// The books of the rows; see [`grouped_books`].
pub fn mapping_book_and_origin_data(rows: &Vec<(BookEntity, Option<BookOriginDataEntity>)>) -> (r: Vec<Book>)
    ensures
        r@.map_values(|b: Book| b@) == grouped_books(rows@),
{
    let n = rows.len();
    let mut out: Vec<Book> = Vec::new();
    let mut i: usize = 0;
    proof {
        assert(out@.map_values(|b: Book| b@) =~= grouped_books(rows@.subrange(0, 0)));
    }
    while i < n
        invariant
            n == rows@.len(),
            i <= n,
            out@.map_values(|b: Book| b@) == grouped_books(rows@.subrange(0, i as int)),
        decreases n - i,
    {
        let ghost prev = out@.map_values(|b: Book| b@);
        proof {
            assert(rows@.subrange(0, i + 1).drop_last() =~= rows@.subrange(0, i as int));
            assert(rows@.subrange(0, i + 1).last() == rows@[i as int]);
            lemma_grouped_books_unique(rows@.subrange(0, i as int));
        }
        let row = &rows[i];
        match find_isbn(&out, row.0.isbn.as_str()) {
            Some(j) => {
                proof {
                    let c = choose|k: int| 0 <= k < prev.len() && #[trigger] prev[k].isbn == row.0.isbn@;
                    assert(prev[j as int].isbn == row.0.isbn@);
                    assert(c == j as int);
                }
                let mut b = out.remove(j);
                add_row_origin(&mut b, &row.1);
                out.insert(j, b);
                proof {
                    assert(out@.map_values(|b: Book| b@) =~= prev.update(j as int, with_origin(prev[j as int], row.1)));
                }
            },
            None => {
                proof {
                    assert(!(exists|k: int| 0 <= k < prev.len() && #[trigger] prev[k].isbn == row.0.isbn@));
                }
                let mut b = row.0.to_domain();
                add_row_origin(&mut b, &row.1);
                out.push(b);
                proof {
                    assert(out@.map_values(|b: Book| b@) =~= prev.push(with_origin(book_of_entity(row.0), row.1)));
                }
            },
        }
        i = i + 1;
    }
    proof {
        assert(rows@.subrange(0, n as int) =~= rows@);
    }
    out
}

/// The position of the publisher `id` in `ps`, for the current model.
pub open spec fn index_of_publisher_view(ps: Seq<crate::item::PublisherView>, id: u64) -> Option<int> {
    if exists|j: int| 0 <= j < ps.len() && #[trigger] ps[j].id == id {
        Some(choose|j: int| 0 <= j < ps.len() && #[trigger] ps[j].id == id)
    } else {
        None
    }
}

/// The publishers the rows give have distinct ids.
pub proof fn lemma_unique_views(rows: Seq<(PublisherEntity, Option<PublisherKeywordEntity>)>)
    ensures
        crate::item::repo::grouped_item_publishers(rows) is Ok ==> unique_view_ids(
            crate::item::repo::grouped_item_publishers(rows)->Ok_0,
        ),
    decreases rows.len(),
{
    if rows.len() > 0 {
        lemma_unique_views(rows.drop_last());
    }
}

/// Ids are unique among `ps`.
pub open spec fn unique_view_ids(ps: Seq<crate::item::PublisherView>) -> bool {
    forall|a: int, b: int| 0 <= a < b < ps.len() ==> ps[a].id != ps[b].id
}

/// The position of the last of `given` with ISBN `isbn`.
pub open spec fn last_given_with_isbn(given: Seq<Book>, isbn: Seq<char>) -> Option<int>
    decreases given.len(),
{
    if given.len() == 0 {
        None
    } else if given.last()@.isbn == isbn {
        Some(given.len() - 1)
    } else {
        last_given_with_isbn(given.drop_last(), isbn)
    }
}

/// Where the original data of registered books comes from: for each
/// registered book in order whose ISBN a given book has, its id and the
/// position of the last given book with that ISBN.
pub open spec fn registered_origin_plan(registered: Seq<Book>, given: Seq<Book>) -> Seq<(u64, int)>
    decreases registered.len(),
{
    if registered.len() == 0 {
        Seq::empty()
    } else {
        let prev = registered_origin_plan(registered.drop_last(), given);
        match last_given_with_isbn(given, registered.last()@.isbn) {
            Some(j) => prev.push((registered.last()@.id, j)),
            None => prev,
        }
    }
}

fn last_given(given: &Vec<Book>, isbn: &str) -> (r: Option<usize>)
    ensures
        r matches Some(k) ==> k < given@.len() && last_given_with_isbn(given@, isbn@) == Some(k as int),
        r is None ==> last_given_with_isbn(given@, isbn@) is None,
{
    let mut k = given.len();
    proof {
        assert(given@.subrange(0, k as int) =~= given@);
    }
    while k > 0
        invariant
            k <= given@.len(),
            last_given_with_isbn(given@, isbn@) == last_given_with_isbn(given@.subrange(0, k as int), isbn@),
        decreases k,
    {
        proof {
            assert(given@.subrange(0, k - 1) =~= given@.subrange(0, k as int).drop_last());
        }
        if crate::text::str_eq(given[k - 1].isbn(), isbn) {
            return Some(k - 1);
        }
        k = k - 1;
    }
    None
}

/// The original data to store for newly registered books: none when the
/// store keeps no original data, else, per [`registered_origin_plan`], the
/// registered book's id and the given book whose data it gets.
pub fn registered_origins(registered: &Vec<Book>, given: &Vec<Book>, with_origin: bool) -> (r: Vec<(u64, usize)>)
    ensures
        !with_origin ==> r@.len() == 0,
        with_origin ==> r@.len() == registered_origin_plan(registered@, given@).len()
            && forall|i: int| 0 <= i < r@.len() ==> (#[trigger] r@[i]).0 == registered_origin_plan(registered@, given@)[i].0
                && r@[i].1 as int == registered_origin_plan(registered@, given@)[i].1,
{
    let mut out: Vec<(u64, usize)> = Vec::new();
    if !with_origin {
        return out;
    }
    let n = registered.len();
    let mut i: usize = 0;
    while i < n
        invariant
            n == registered@.len(),
            i <= n,
            out@.len() == registered_origin_plan(registered@.subrange(0, i as int), given@).len(),
            forall|k: int| 0 <= k < out@.len() ==> (#[trigger] out@[k]).0 == registered_origin_plan(registered@.subrange(0, i as int), given@)[k].0
                && out@[k].1 as int == registered_origin_plan(registered@.subrange(0, i as int), given@)[k].1,
        decreases n - i,
    {
        proof {
            assert(registered@.subrange(0, i + 1).drop_last() =~= registered@.subrange(0, i as int));
            assert(registered@.subrange(0, i + 1).last() == registered@[i as int]);
        }
        match last_given(given, registered[i].isbn()) {
            Some(k) => {
                out.push((registered[i].id(), k));
            },
            None => {},
        }
        i = i + 1;
    }
    proof {
        assert(registered@.subrange(0, n as int) =~= registered@);
    }
    out
}

/// The sites whose stored original data an update of `book` replaces: every
/// site of its data, once each, when the update changed a row and the store
/// keeps original data; none otherwise.
pub fn origin_sites_to_replace(book: &Book, updated: usize, with_origin: bool) -> (r: Vec<String>)
    ensures
        !(updated > 0 && with_origin) ==> r@.len() == 0,
        updated > 0 && with_origin ==> (forall|s: Seq<char>| book@.origin_data.contains_key(s)
            <==> exists|i: int| 0 <= i < r@.len() && #[trigger] r@[i]@ == s)
            && (forall|i: int, j: int| 0 <= i < j < r@.len() ==> r@[i]@ != r@[j]@),
{
    let mut out: Vec<String> = Vec::new();
    if !(updated > 0 && with_origin) {
        return out;
    }
    let data = book.origin_data();
    let n = data.len();
    proof {
        crate::dict::lemma_map_of_entries(data.pairs());
    }
    let mut i: usize = 0;
    while i < n
        invariant
            n == data.pairs().len(),
            crate::dict::unique_keys(data.pairs()),
            i <= n,
            out@.len() == i,
            forall|k: int| 0 <= k < i ==> #[trigger] out@[k]@ == data.pairs()[k].0,
        decreases n - i,
    {
        let (key, _) = data.entry_at(i);
        out.push(key.clone());
        i = i + 1;
    }
    proof {
        assert forall|s: Seq<char>| book@.origin_data.contains_key(s)
            implies exists|k: int| 0 <= k < out@.len() && #[trigger] out@[k]@ == s by {
            crate::dict::lemma_map_of_contains(data.pairs(), s);
            let k = choose|k: int| 0 <= k < data.pairs().len() && data.pairs()[k].0 == s;
            assert(out@[k]@ == s);
        }
        assert forall|s: Seq<char>| (exists|k: int| 0 <= k < out@.len() && #[trigger] out@[k]@ == s)
            implies book@.origin_data.contains_key(s) by {
            let k = choose|k: int| 0 <= k < out@.len() && #[trigger] out@[k]@ == s;
            crate::dict::lemma_map_of_contains(data.pairs(), s);
        }
    }
    out
}

/// The sites whose original data is stored again after an update: those of
/// `sites` whose deletion succeeded, in order.
pub fn reinserted_sites(sites: &Vec<String>, deleted_ok: &Vec<bool>) -> (r: Vec<String>)
    requires
        sites@.len() == deleted_ok@.len(),
    ensures
        r@.map_values(|s: String| s@) == kept_sites(sites@, deleted_ok@),
{
    let mut out: Vec<String> = Vec::new();
    let n = sites.len();
    let mut i: usize = 0;
    while i < n
        invariant
            n == sites@.len(),
            n == deleted_ok@.len(),
            i <= n,
            out@.map_values(|s: String| s@) == kept_sites(sites@.subrange(0, i as int), deleted_ok@.subrange(0, i as int)),
        decreases n - i,
    {
        proof {
            assert(sites@.subrange(0, i + 1).drop_last() =~= sites@.subrange(0, i as int));
            assert(deleted_ok@.subrange(0, i + 1).drop_last() =~= deleted_ok@.subrange(0, i as int));
        }
        if deleted_ok[i] {
            let ghost before = out@;
            out.push(sites[i].clone());
            proof {
                assert(out@.map_values(|s: String| s@) =~= before.map_values(|s: String| s@).push(sites@[i as int]@));
            }
        }
        i = i + 1;
    }
    proof {
        assert(sites@.subrange(0, n as int) =~= sites@);
        assert(deleted_ok@.subrange(0, n as int) =~= deleted_ok@);
    }
    out
}

/// The texts of the sites whose flag is set, in order.
pub open spec fn kept_sites(sites: Seq<String>, ok: Seq<bool>) -> Seq<Seq<char>>
    decreases sites.len(),
{
    if sites.len() == 0 || ok.len() != sites.len() {
        Seq::empty()
    } else if ok.last() {
        kept_sites(sites.drop_last(), ok.drop_last()).push(sites.last()@)
    } else {
        kept_sites(sites.drop_last(), ok.drop_last())
    }
}

} // verus!
