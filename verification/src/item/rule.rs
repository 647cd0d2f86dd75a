//! Rules that decide whether the original data of a book is acceptable.
use vstd::prelude::*;
use crate::item::ItemError;
use crate::item::raw::{Raw, RawModel, RawValue, values_model};
use crate::text::{regex_compiles, regex_finds, regex_is_match, str_eq};
use vstd::string::*;

verus! {

/// How the results of a rule's operands are combined.
#[derive(Debug, Clone, Copy, PartialEq, Eq, Hash, Structural)]
pub enum Operator {
    AND,
    OR,
    NOR,
    NAND,
}

/// The operator a code names.
pub open spec fn operator_of_code(v: Seq<char>) -> Option<Operator> {
    if v == "AND"@ {
        Some(Operator::AND)
    } else if v == "OR"@ {
        Some(Operator::OR)
    } else if v == "NOR"@ {
        Some(Operator::NOR)
    } else if v == "NAND"@ {
        Some(Operator::NAND)
    } else {
        None
    }
}

impl Operator {
    /// The operator named by `v` (one of `AND`, `OR`, `NOR`, `NAND`, in capitals).
    pub fn from_str(v: &str) -> (r: Result<Operator, ItemError>)
        ensures
            r matches Ok(o) ==> operator_of_code(v@) == Some(o),
            r matches Err(e) ==> operator_of_code(v@) is None && (e matches ItemError::UnknownCode(m)
                && m@ == "Unknown operator: "@ + v@),
    {
        proof {
            reveal_strlit("AND");
            reveal_strlit("OR");
            reveal_strlit("NOR");
            reveal_strlit("NAND");
        }
        if str_eq(v, "AND") {
            Ok(Operator::AND)
        } else if str_eq(v, "OR") {
            Ok(Operator::OR)
        } else if str_eq(v, "NOR") {
            Ok(Operator::NOR)
        } else if str_eq(v, "NAND") {
            Ok(Operator::NAND)
        } else {
            let mut m = "Unknown operator: ".to_owned();
            m.append(v);
            Err(ItemError::UnknownCode(m))
        }
    }
}

/// A test of original data.
#[derive(Debug)]
pub enum Predicate {
    /// The operands' results combined by the operator.
    Expression(Expression),
    /// The named property is text in which the pattern finds a match.
    Matches(String, String),
    /// Always passes.
    Always,
}

/// Operands combined by an operator.
#[derive(Debug)]
pub struct Expression(pub Operator, pub Vec<Predicate>);

/// What a predicate stands for.
pub enum PredicateModel {
    Expression(Operator, Seq<PredicateModel>),
    Matches(Seq<char>, Seq<char>),
    Always,
}

impl Predicate {
    pub open spec fn model(&self) -> PredicateModel
        decreases self, 0int,
    {
        match self {
            Predicate::Expression(e) => PredicateModel::Expression(e.0, predicates_model(e.1, e.1@.len() as int)),
            Predicate::Matches(p, r) => PredicateModel::Matches(p@, r@),
            Predicate::Always => PredicateModel::Always,
        }
    }
}

/// What the first `n` predicates of `v` stand for.
pub open spec fn predicates_model(v: Vec<Predicate>, n: int) -> Seq<PredicateModel>
    decreases v, n,
{
    if n <= 0 || n > v@.len() {
        Seq::empty()
    } else {
        predicates_model(v, n - 1).push(v@[n - 1].model())
    }
}

/// The result of testing `raw` with `p`, or `None` where the test cannot be
/// made: a property that it reaches is missing, or a pattern that it reaches
/// does not compile. Operands are tried in order and the first one that
/// decides the result ends the test.
pub open spec fn eval(p: PredicateModel, raw: Map<Seq<char>, RawModel>) -> Option<bool>
    decreases p, 1int,
{
    match p {
        PredicateModel::Always => Some(true),
        PredicateModel::Matches(prop, pattern) => {
            if !raw.contains_key(prop) {
                None
            } else {
                match raw[prop] {
                    RawModel::Text(s) => if regex_compiles(pattern) {
                        Some(regex_finds(pattern, s))
                    } else {
                        None
                    },
                    _ => Some(false),
                }
            }
        },
        PredicateModel::Expression(op, ps) => match op {
            Operator::AND => eval_all(ps, raw, true),
            Operator::OR => eval_any(ps, raw),
            Operator::NOR => eval_all(ps, raw, false),
            Operator::NAND => match eval_all(ps, raw, true) {
                Some(b) => Some(!b),
                None => None,
            },
        },
    }
}

/// Whether every operand gives `expected`, stopping at the first that does not.
pub open spec fn eval_all(ps: Seq<PredicateModel>, raw: Map<Seq<char>, RawModel>, expected: bool) -> Option<bool>
    decreases ps, 0int,
{
    if ps.len() == 0 {
        Some(true)
    } else {
        match eval(ps[0], raw) {
            None => None,
            Some(b) => if b == expected {
                eval_all(ps.drop_first(), raw, expected)
            } else {
                Some(false)
            },
        }
    }
}

/// Whether some operand passes, stopping at the first that does.
pub open spec fn eval_any(ps: Seq<PredicateModel>, raw: Map<Seq<char>, RawModel>) -> Option<bool>
    decreases ps, 0int,
{
    if ps.len() == 0 {
        Some(false)
    } else {
        match eval(ps[0], raw) {
            None => None,
            Some(b) => if b {
                Some(true)
            } else {
                eval_any(ps.drop_first(), raw)
            },
        }
    }
}

/// Every operand of `ps` can be tested on `raw`.
pub open spec fn all_testable(ps: Seq<PredicateModel>, raw: Map<Seq<char>, RawModel>) -> bool {
    forall|i: int| 0 <= i < ps.len() ==> (#[trigger] eval(ps[i], raw)) is Some
}

proof fn lemma_eval_any_some(ps: Seq<PredicateModel>, raw: Map<Seq<char>, RawModel>)
    requires
        all_testable(ps, raw),
    ensures
        eval_any(ps, raw) == Some(exists|i: int| 0 <= i < ps.len() && #[trigger] eval(ps[i], raw) == Some(true)),
    decreases ps.len(),
{
    if ps.len() > 0 {
        let rest = ps.drop_first();
        assert forall|i: int| 0 <= i < rest.len() implies (#[trigger] eval(rest[i], raw)) is Some by {
            assert(rest[i] == ps[i + 1]);
        }
        lemma_eval_any_some(rest, raw);
        assert(eval(ps[0], raw) is Some);
        if exists|i: int| 0 <= i < ps.len() && #[trigger] eval(ps[i], raw) == Some(true) {
            let i = choose|i: int| 0 <= i < ps.len() && #[trigger] eval(ps[i], raw) == Some(true);
            if i > 0 {
                assert(rest[i - 1] == ps[i]);
            }
        }
        if exists|i: int| 0 <= i < rest.len() && #[trigger] eval(rest[i], raw) == Some(true) {
            let i = choose|i: int| 0 <= i < rest.len() && #[trigger] eval(rest[i], raw) == Some(true);
            assert(ps[i + 1] == rest[i]);
        }
    }
}

proof fn lemma_eval_all_some(ps: Seq<PredicateModel>, raw: Map<Seq<char>, RawModel>, expected: bool)
    requires
        all_testable(ps, raw),
    ensures
        eval_all(ps, raw, expected) == Some(forall|i: int| 0 <= i < ps.len() ==> #[trigger] eval(ps[i], raw) == Some(expected)),
    decreases ps.len(),
{
    if ps.len() > 0 {
        let rest = ps.drop_first();
        assert forall|i: int| 0 <= i < rest.len() implies (#[trigger] eval(rest[i], raw)) is Some by {
            assert(rest[i] == ps[i + 1]);
        }
        lemma_eval_all_some(rest, raw, expected);
        assert(eval(ps[0], raw) is Some);
        if forall|i: int| 0 <= i < rest.len() ==> #[trigger] eval(rest[i], raw) == Some(expected) {
            if eval(ps[0], raw) == Some(expected) {
                assert forall|i: int| 0 <= i < ps.len() implies #[trigger] eval(ps[i], raw) == Some(expected) by {
                    if i > 0 {
                        assert(ps[i] == rest[i - 1]);
                    }
                }
            }
        } else {
            let i = choose|i: int| 0 <= i < rest.len() && !(#[trigger] eval(rest[i], raw) == Some(expected));
            assert(ps[i + 1] == rest[i]);
        }
    }
}

/// An `OR` expression over operands that can all be tested passes exactly
/// when some operand passes: an operand after a failing one can still make
/// it pass.
pub proof fn lemma_or_passes_when_some_operand_passes(ps: Seq<PredicateModel>, raw: Map<Seq<char>, RawModel>)
    requires
        all_testable(ps, raw),
    ensures
        eval(PredicateModel::Expression(Operator::OR, ps), raw)
            == Some(exists|i: int| 0 <= i < ps.len() && #[trigger] eval(ps[i], raw) == Some(true)),
{
    lemma_eval_any_some(ps, raw);
}

/// An `AND` expression over operands that can all be tested passes exactly
/// when every operand passes, and a `NOR` expression exactly when every
/// operand fails.
pub proof fn lemma_and_nor_over_every_operand(ps: Seq<PredicateModel>, raw: Map<Seq<char>, RawModel>)
    requires
        all_testable(ps, raw),
    ensures
        eval(PredicateModel::Expression(Operator::AND, ps), raw)
            == Some(forall|i: int| 0 <= i < ps.len() ==> #[trigger] eval(ps[i], raw) == Some(true)),
        eval(PredicateModel::Expression(Operator::NOR, ps), raw)
            == Some(forall|i: int| 0 <= i < ps.len() ==> #[trigger] eval(ps[i], raw) == Some(false)),
{
    lemma_eval_all_some(ps, raw, true);
    lemma_eval_all_some(ps, raw, false);
}

/// A `NAND` expression over operands that can all be tested passes exactly
/// when some operand fails.
pub proof fn lemma_nand_passes_when_some_operand_fails(ps: Seq<PredicateModel>, raw: Map<Seq<char>, RawModel>)
    requires
        all_testable(ps, raw),
    ensures
        eval(PredicateModel::Expression(Operator::NAND, ps), raw)
            == Some(exists|i: int| 0 <= i < ps.len() && #[trigger] eval(ps[i], raw) == Some(false)),
{
    lemma_eval_all_some(ps, raw, true);
    if exists|i: int| 0 <= i < ps.len() && #[trigger] eval(ps[i], raw) == Some(false) {
        let i = choose|i: int| 0 <= i < ps.len() && #[trigger] eval(ps[i], raw) == Some(false);
        assert(!(eval(ps[i], raw) == Some(true)));
    } else {
        assert forall|i: int| 0 <= i < ps.len() implies #[trigger] eval(ps[i], raw) == Some(true) by {
            assert(eval(ps[i], raw) is Some);
            assert(eval(ps[i], raw) != Some(false));
        }
    }
}

proof fn lemma_predicates_model(v: Vec<Predicate>, n: int)
    requires
        0 <= n <= v@.len(),
    ensures
        predicates_model(v, n).len() == n,
        forall|i: int| 0 <= i < n ==> #[trigger] predicates_model(v, n)[i] == v@[i].model(),
    decreases n,
{
    if n > 0 {
        lemma_predicates_model(v, n - 1);
    }
}

/// The models of all predicates of `v` are theirs, in order.
pub proof fn lemma_all_models(v: Vec<Predicate>)
    ensures
        all_models(v).len() == v@.len(),
        forall|i: int| 0 <= i < v@.len() ==> #[trigger] all_models(v)[i] == v@[i].model(),
{
    lemma_predicates_model(v, v@.len() as int);
}

/// The models of all predicates of `v`.
pub open spec fn all_models(v: Vec<Predicate>) -> Seq<PredicateModel> {
    predicates_model(v, v@.len() as int)
}

fn evaluate_all(v: &Vec<Predicate>, raw: &Raw, expected: bool) -> (r: Option<bool>)
    ensures
        r == eval_all(all_models(*v), values_model(raw@), expected),
    decreases v,
{
    let ghost ms = all_models(*v);
    proof {
        lemma_predicates_model(*v, v@.len() as int);
        assert(ms.subrange(0, ms.len() as int) =~= ms);
    }
    let n = v.len();
    let mut i: usize = 0;
    while i < n
        invariant
            n == v@.len(),
            ms == all_models(*v),
            ms.len() == n,
            forall|j: int| 0 <= j < n ==> #[trigger] ms[j] == v@[j].model(),
            i <= n,
            eval_all(ms, values_model(raw@), expected) == eval_all(ms.subrange(i as int, n as int), values_model(raw@), expected),
        decreases n - i,
    {
        let ghost rest = ms.subrange(i as int, n as int);
        proof {
            assert(rest[0] == v@[i as int].model());
            assert(decreases_to!(*v => v[i as int]));
        }
        match v[i].evaluate(raw) {
            None => return None,
            Some(b) => {
                if b != expected {
                    return Some(false);
                }
            },
        }
        i = i + 1;
        proof {
            assert(rest.drop_first() =~= ms.subrange(i as int, n as int));
        }
    }
    Some(true)
}

fn evaluate_any(v: &Vec<Predicate>, raw: &Raw) -> (r: Option<bool>)
    ensures
        r == eval_any(all_models(*v), values_model(raw@)),
    decreases v,
{
    let ghost ms = all_models(*v);
    proof {
        lemma_predicates_model(*v, v@.len() as int);
        assert(ms.subrange(0, ms.len() as int) =~= ms);
    }
    let n = v.len();
    let mut i: usize = 0;
    while i < n
        invariant
            n == v@.len(),
            ms == all_models(*v),
            ms.len() == n,
            forall|j: int| 0 <= j < n ==> #[trigger] ms[j] == v@[j].model(),
            i <= n,
            eval_any(ms, values_model(raw@)) == eval_any(ms.subrange(i as int, n as int), values_model(raw@)),
        decreases n - i,
    {
        let ghost rest = ms.subrange(i as int, n as int);
        proof {
            assert(rest[0] == v@[i as int].model());
            assert(decreases_to!(*v => v[i as int]));
        }
        match v[i].evaluate(raw) {
            None => return None,
            Some(b) => {
                if b {
                    return Some(true);
                }
            },
        }
        i = i + 1;
        proof {
            assert(rest.drop_first() =~= ms.subrange(i as int, n as int));
        }
    }
    Some(false)
}

impl Expression {
    pub fn new(op: Operator, operands: Vec<Predicate>) -> (r: Expression)
        ensures
            r.0 == op,
            r.1 == operands,
    {
        Expression(op, operands)
    }

    /// The operands' results combined by the operator, or `None` where an
    /// operand that is reached cannot be tested.
    pub fn evaluate(&self, raw: &Raw) -> (r: Option<bool>)
        ensures
            r == eval(PredicateModel::Expression(self.0, all_models(self.1)), values_model(raw@)),
        decreases self,
    {
        match self.0 {
            Operator::AND => evaluate_all(&self.1, raw, true),
            Operator::OR => evaluate_any(&self.1, raw),
            Operator::NOR => evaluate_all(&self.1, raw, false),
            Operator::NAND => match evaluate_all(&self.1, raw, true) {
                Some(b) => Some(!b),
                None => None,
            },
        }
    }

    /// The operands' results combined by the operator.
    pub fn test(&self, raw: &Raw) -> (r: bool)
        requires
            eval(PredicateModel::Expression(self.0, all_models(self.1)), values_model(raw@)) is Some,
        ensures
            r == eval(PredicateModel::Expression(self.0, all_models(self.1)), values_model(raw@))->0,
    {
        match self.evaluate(raw) {
            Some(b) => b,
            None => false,
        }
    }
}

impl Predicate {
    /// The result of testing the original data of one site, or `None`
    /// where the test reaches a missing property or a pattern that does not
    /// compile.
    pub fn evaluate(&self, raw: &Raw) -> (r: Option<bool>)
        ensures
            r == eval(self.model(), values_model(raw@)),
        decreases self,
    {
        match self {
            Predicate::Expression(e) => e.evaluate(raw),
            Predicate::Matches(property, pattern) => {
                match raw.get(property.as_str()) {
                    Some(value) => match value {
                        RawValue::Text(s) => regex_is_match(pattern.as_str(), s.as_str()),
                        _ => Some(false),
                    },
                    None => None,
                }
            },
            Predicate::Always => Some(true),
        }
    }

    /// Tests the original data of one site.
    pub fn test(&self, raw: &Raw) -> (r: bool)
        requires
            eval(self.model(), values_model(raw@)) is Some,
        ensures
            r == eval(self.model(), values_model(raw@))->0,
    {
        match self.evaluate(raw) {
            Some(b) => b,
            None => false,
        }
    }
}

/// What a filter rule holds.
pub struct FilterRuleView {
    pub name: Seq<char>,
    pub operator: Option<Operator>,
    /// The property tested and the pattern it must match.
    pub rule: Option<(Seq<char>, Seq<char>)>,
    pub operands: Seq<FilterRuleView>,
}

pub open spec fn rule_text(r: Option<(String, String)>) -> Option<(Seq<char>, Seq<char>)> {
    match r {
        Some(pr) => Some((pr.0@, pr.1@)),
        None => None,
    }
}

/// A rule for the original data of a site: an operator over operand rules,
/// or a property whose text must match a pattern.
///
/// A rule with an operator is an expression over its operands; one with no
/// operator but a property and a pattern is an operand that tests that
/// property; one with neither passes everything.
#[derive(Debug)]
pub struct FilterRule {
    name: String,
    operator: Option<Operator>,
    rule: Option<(String, String)>,
    operands: Vec<FilterRule>,
}

impl FilterRule {
    pub closed spec fn view(&self) -> FilterRuleView
        decreases self, 0int,
    {
        FilterRuleView {
            name: self.name@,
            operator: self.operator,
            rule: rule_text(self.rule),
            operands: rules_view(self.operands, self.operands@.len() as int),
        }
    }
}

/// What the first `n` rules of `v` hold.
pub closed spec fn rules_view(v: Vec<FilterRule>, n: int) -> Seq<FilterRuleView>
    decreases v, n,
{
    if n <= 0 || n > v@.len() {
        Seq::empty()
    } else {
        rules_view(v, n - 1).push(v@[n - 1].view())
    }
}

proof fn lemma_rules_view(v: Vec<FilterRule>, n: int)
    requires
        0 <= n <= v@.len(),
    ensures
        rules_view(v, n).len() == n,
        forall|i: int| 0 <= i < n ==> #[trigger] rules_view(v, n)[i] == v@[i]@,
    decreases n,
{
    if n > 0 {
        lemma_rules_view(v, n - 1);
    }
}

/// The test a rule stands for.
pub open spec fn rule_predicate(r: FilterRuleView) -> PredicateModel
    decreases r,
{
    match r.operator {
        Some(op) => PredicateModel::Expression(op, rules_predicates(r.operands)),
        None => match r.rule {
            Some(pr) => PredicateModel::Matches(pr.0, pr.1),
            None => PredicateModel::Always,
        },
    }
}

/// The tests that a sequence of rules stands for, in order.
pub open spec fn rules_predicates(rs: Seq<FilterRuleView>) -> Seq<PredicateModel>
    decreases rs,
{
    if rs.len() == 0 {
        Seq::empty()
    } else {
        proof {
            assert(decreases_to!(rs => rs[0]));
            assert(decreases_to!(rs => rs.subrange(1, rs.len() as int)));
        }
        seq![rule_predicate(rs[0])] + rules_predicates(rs.subrange(1, rs.len() as int))
    }
}

proof fn lemma_rules_predicates(rs: Seq<FilterRuleView>)
    ensures
        rules_predicates(rs).len() == rs.len(),
        forall|i: int| 0 <= i < rs.len() ==> #[trigger] rules_predicates(rs)[i] == rule_predicate(rs[i]),
    decreases rs.len(),
{
    if rs.len() > 0 {
        let tail = rs.subrange(1, rs.len() as int);
        lemma_rules_predicates(tail);
        assert forall|i: int| 0 <= i < rs.len() implies #[trigger] rules_predicates(rs)[i] == rule_predicate(rs[i]) by {
            if i > 0 {
                assert(rules_predicates(rs)[i] == rules_predicates(tail)[i - 1]);
                assert(tail[i - 1] == rs[i]);
            }
        }
    }
}

impl FilterRule {
    /// An operand rule: the property named `property_name` must be text in
    /// which `pattern` finds a match.
    pub fn new_operand(name: &str, property_name: &str, pattern: &str) -> (r: FilterRule)
        ensures
            r@.name == name@,
            r@.operator is None,
            r@.rule == Some((property_name@, pattern@)),
            r@.operands.len() == 0,
    {
        let r = FilterRule {
            name: name.to_owned(),
            operator: None,
            rule: Some((property_name.to_owned(), pattern.to_owned())),
            operands: Vec::new(),
        };
        proof {
            lemma_rules_view(r.operands, 0);
        }
        r
    }

    /// An expression rule that combines its operands with `operator`; it
    /// starts with none.
    pub fn new_operator(name: &str, operator: Operator) -> (r: FilterRule)
        ensures
            r@.name == name@,
            r@.operator == Some(operator),
            r@.rule is None,
            r@.operands.len() == 0,
    {
        let r = FilterRule {
            name: name.to_owned(),
            operator: Some(operator),
            rule: None,
            operands: Vec::new(),
        };
        proof {
            lemma_rules_view(r.operands, 0);
        }
        r
    }

    pub fn name(&self) -> (r: &str)
        ensures
            r@ == self@.name,
    {
        self.name.as_str()
    }

    pub fn operator(&self) -> (r: Option<Operator>)
        ensures
            r == self@.operator,
    {
        self.operator
    }

    pub fn rule(&self) -> (r: &Option<(String, String)>)
        ensures
            rule_text(*r) == self@.rule,
    {
        &self.rule
    }

    pub fn operands(&self) -> (r: &Vec<FilterRule>)
        ensures
            r@.len() == self@.operands.len(),
            forall|i: int| 0 <= i < r@.len() ==> #[trigger] r@[i]@ == self@.operands[i],
    {
        proof {
            lemma_rules_view(self.operands, self.operands@.len() as int);
        }
        &self.operands
    }

    /// Appends `operand` to the operands.
    pub fn add_operand(&mut self, operand: FilterRule)
        ensures
            final(self)@ == (FilterRuleView { operands: old(self)@.operands.push(operand@), ..old(self)@ }),
    {
        proof {
            lemma_rules_view(self.operands, self.operands@.len() as int);
        }
        self.operands.push(operand);
        proof {
            lemma_rules_view(self.operands, self.operands@.len() as int);
            assert(self@.operands =~= old(self)@.operands.push(operand@));
        }
    }

    /// The test this rule stands for.
    pub fn to_predicate(&self) -> (r: Predicate)
        ensures
            r.model() == rule_predicate(self@),
        decreases self,
    {
        match self.operator {
            Some(op) => {
                let n = self.operands.len();
                let mut ps: Vec<Predicate> = Vec::new();
                let mut i: usize = 0;
                proof {
                    lemma_rules_view(self.operands, n as int);
                    lemma_rules_predicates(self@.operands);
                }
                while i < n
                    invariant
                        n == self.operands@.len(),
                        i <= n,
                        ps@.len() == i,
                        forall|j: int| 0 <= j < i ==> #[trigger] ps@[j].model() == rule_predicate(self.operands@[j]@),
                    decreases n - i,
                {
                    proof {
                        assert(decreases_to!(self => self.operands));
                        assert(decreases_to!(self.operands => self.operands@[i as int]));
                    }
                    let p = self.operands[i].to_predicate();
                    ps.push(p);
                    i = i + 1;
                }
                proof {
                    lemma_predicates_model(ps, n as int);
                    assert(all_models(ps) =~= rules_predicates(self@.operands));
                }
                Predicate::Expression(Expression(op, ps))
            },
            None => match &self.rule {
                Some(pr) => Predicate::Matches(pr.0.clone(), pr.1.clone()),
                None => Predicate::Always,
            },
        }
    }
}

/// A check of the original data of one site that a user supplies, such as
/// a closure over the data.
pub trait Operand {
    /// Whether the check may be run on `raw`.
    spec fn accepts(&self, raw: Raw) -> bool;

    /// Whether `r` is an answer the check may give for `raw`.
    spec fn answers(&self, raw: Raw, r: bool) -> bool;

    fn test(&self, raw: &Raw) -> (r: bool)
        requires
            self.accepts(*raw),
        ensures
            self.answers(*raw, r);
}

impl<F: Fn(&Raw) -> bool> Operand for F {
    open spec fn accepts(&self, raw: Raw) -> bool {
        call_requires(*self, (&raw,))
    }

    open spec fn answers(&self, raw: Raw, r: bool) -> bool {
        call_ensures(*self, (&raw,), r)
    }

    fn test(&self, raw: &Raw) -> (r: bool) {
        self(raw)
    }
}

impl Operand for Predicate {
    open spec fn accepts(&self, raw: Raw) -> bool {
        eval(self.model(), values_model(raw@)) is Some
    }

    open spec fn answers(&self, raw: Raw, r: bool) -> bool {
        r == eval(self.model(), values_model(raw@))->0
    }

    fn test(&self, raw: &Raw) -> (r: bool) {
        Predicate::test(self, raw)
    }
}

/// The value of an operand that lets an operator go on to the next one:
/// `AND` and `NAND` go on while operands pass, `OR` and `NOR` while they fail.
pub open spec fn goes_on(op: Operator) -> bool {
    match op {
        Operator::AND => true,
        Operator::NAND => true,
        Operator::OR => false,
        Operator::NOR => false,
    }
}

/// The answer of an operator over the operands' answers it saw.
pub open spec fn combined(op: Operator, bs: Seq<bool>) -> bool {
    match op {
        Operator::AND => forall|i: int| 0 <= i < bs.len() ==> #[trigger] bs[i],
        Operator::OR => exists|i: int| 0 <= i < bs.len() && #[trigger] bs[i],
        Operator::NOR => forall|i: int| 0 <= i < bs.len() ==> !#[trigger] bs[i],
        Operator::NAND => !(forall|i: int| 0 <= i < bs.len() ==> #[trigger] bs[i]),
    }
}

/// `bs` are the answers the operands gave in order, up to the first that
/// decides the operator (see [`goes_on`]); the later operands are not run.
pub open spec fn ran_in_order(op: Operator, operands: Seq<Box<dyn Operand>>, raw: Raw, bs: Seq<bool>) -> bool {
    &&& bs.len() <= operands.len()
    &&& forall|i: int| 0 <= i < bs.len() ==> #[trigger] operands[i].answers(raw, bs[i])
    &&& forall|i: int| 0 <= i < bs.len() - 1 ==> #[trigger] bs[i] == goes_on(op)
    &&& bs.len() < operands.len() ==> (bs.len() > 0 && bs.last() != goes_on(op))
}

/// User checks combined by an operator; each runs in order until the
/// operator's answer is decided.
pub struct OperandExpression(pub Operator, pub Vec<Box<dyn Operand>>);

impl OperandExpression {
    pub fn new(op: Operator, operands: Vec<Box<dyn Operand>>) -> (r: OperandExpression)
        ensures
            r == OperandExpression(op, operands),
    {
        OperandExpression(op, operands)
    }
}

impl Operand for OperandExpression {
    open spec fn accepts(&self, raw: Raw) -> bool {
        forall|i: int| 0 <= i < self.1@.len() ==> #[trigger] self.1@[i].accepts(raw)
    }

    open spec fn answers(&self, raw: Raw, r: bool) -> bool {
        exists|bs: Seq<bool>| #[trigger] ran_in_order(self.0, self.1@, raw, bs) && r == combined(self.0, bs)
    }

    fn test(&self, raw: &Raw) -> (r: bool) {
        let op = self.0;
        let go = match op {
            Operator::AND => true,
            Operator::NAND => true,
            Operator::OR => false,
            Operator::NOR => false,
        };
        let n = self.1.len();
        let mut i: usize = 0;
        let ghost mut bs: Seq<bool> = Seq::empty();
        let mut stopped = false;
        while i < n && !stopped
            invariant
                n == self.1@.len(),
                i <= n,
                go == goes_on(op),
                op == self.0,
                bs.len() == i,
                forall|k: int| 0 <= k < n ==> #[trigger] self.1@[k].accepts(*raw),
                forall|k: int| 0 <= k < i ==> #[trigger] self.1@[k].answers(*raw, bs[k]),
                !stopped ==> forall|k: int| 0 <= k < i ==> #[trigger] bs[k] == go,
                stopped ==> (i > 0 && forall|k: int| 0 <= k < i - 1 ==> #[trigger] bs[k] == go) && bs.last() != go,
            decreases n - i,
        {
            let b = self.1[i].test(raw);
            proof {
                bs = bs.push(b);
            }
            if b != go {
                stopped = true;
            }
            i = i + 1;
        }
        assert(ran_in_order(self.0, self.1@, *raw, bs));
        let r = match op {
            Operator::AND => !stopped,
            Operator::NAND => stopped,
            Operator::OR => stopped,
            Operator::NOR => !stopped,
        };
        assert(r == combined(self.0, bs));
        r
    }
}

} // verus!
