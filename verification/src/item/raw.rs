//! Original data values as a site delivered them.
use vstd::prelude::*;
use crate::dict::{Dict, map_of, lemma_map_of_contains, lemma_map_of_value};
use crate::text::{decimal, signed_decimal, render_u64, render_i64};
use vstd::string::*;

verus! {

broadcast use vstd::std_specs::vec::axiom_vec_index_decreases, vstd::std_specs::vec::axiom_vec_decreases_to_view;

/// A floating-point number, held by its IEEE-754 bit pattern together with
/// the text it is displayed as.
#[derive(Debug, Clone)]
pub struct FloatNumber {
    pub bits: u64,
    pub text: String,
}

/// A number of the original data.
#[derive(Debug, Clone)]
pub enum RawNumber {
    /// NaN or an infinity that could not be kept.
    Undefined,
    UnsignedInt(u64),
    SignedInt(i64),
    Float(FloatNumber),
}

/// A value of the original data.
#[derive(Debug)]
pub enum RawValue {
    Null,
    Text(String),
    Number(RawNumber),
    Bool(bool),
    Object(Dict<RawValue>),
    Array(Vec<RawValue>),
}

/// The original data of one site: named values.
pub type Raw = Dict<RawValue>;

/// What a number stands for.
pub enum NumberModel {
    Undefined,
    UnsignedInt(u64),
    SignedInt(i64),
    Float(u64, Seq<char>),
}

/// What a value stands for.
pub enum RawModel {
    Null,
    Text(Seq<char>),
    Number(NumberModel),
    Bool(bool),
    Object(Seq<(Seq<char>, RawModel)>),
    Array(Seq<RawModel>),
}

impl RawNumber {
    pub open spec fn model(&self) -> NumberModel {
        match self {
            RawNumber::Undefined => NumberModel::Undefined,
            RawNumber::UnsignedInt(n) => NumberModel::UnsignedInt(*n),
            RawNumber::SignedInt(n) => NumberModel::SignedInt(*n),
            RawNumber::Float(f) => NumberModel::Float(f.bits, f.text@),
        }
    }

    /// A copy with the same model.
    pub fn copy(&self) -> (r: RawNumber)
        ensures
            r.model() == self.model(),
    {
        match self {
            RawNumber::Undefined => RawNumber::Undefined,
            RawNumber::UnsignedInt(n) => RawNumber::UnsignedInt(*n),
            RawNumber::SignedInt(n) => RawNumber::SignedInt(*n),
            RawNumber::Float(f) => RawNumber::Float(FloatNumber { bits: f.bits, text: f.text.clone() }),
        }
    }
}

impl RawValue {
    /// What the value stands for.
    pub open spec fn model(&self) -> RawModel
        decreases self,
    {
        match self {
            RawValue::Null => RawModel::Null,
            RawValue::Text(s) => RawModel::Text(s@),
            RawValue::Number(n) => RawModel::Number(n.model()),
            RawValue::Bool(b) => RawModel::Bool(*b),
            RawValue::Object(d) => RawModel::Object(object_model(*d)),
            RawValue::Array(a) => RawModel::Array(array_model(a@)),
        }
    }
}

/// What the values of a sequence stand for.
pub open spec fn array_model(a: Seq<RawValue>) -> Seq<RawModel>
    decreases a,
{
    if a.len() == 0 {
        Seq::empty()
    } else {
        array_model(a.drop_last()).push(a.last().model())
    }
}

/// What the entries of original data stand for, in order.
pub closed spec fn object_model(d: Raw) -> Seq<(Seq<char>, RawModel)>
    decreases d,
{
    entries_model(d.entries@)
}

closed spec fn entries_model(s: Seq<(String, RawValue)>) -> Seq<(Seq<char>, RawModel)>
    decreases s,
{
    if s.len() == 0 {
        Seq::empty()
    } else {
        entries_model(s.drop_last()).push((s.last().0@, s.last().1.model()))
    }
}

proof fn lemma_entries_model(s: Seq<(String, RawValue)>)
    ensures
        entries_model(s).len() == s.len(),
        forall|i: int|
            0 <= i < s.len() ==> #[trigger] entries_model(s)[i] == (s[i].0@, s[i].1.model()),
    decreases s.len(),
{
    if s.len() > 0 {
        lemma_entries_model(s.drop_last());
    }
}

proof fn lemma_array_model(a: Seq<RawValue>)
    ensures
        array_model(a).len() == a.len(),
        forall|i: int| 0 <= i < a.len() ==> #[trigger] array_model(a)[i] == a[i].model(),
    decreases a.len(),
{
    if a.len() > 0 {
        lemma_array_model(a.drop_last());
    }
}

/// The model of original data lists its entries in order.
pub proof fn lemma_object_model(d: Raw)
    ensures
        object_model(d).len() == d.pairs().len(),
        forall|i: int|
            0 <= i < d.pairs().len() ==> #[trigger] object_model(d)[i] == (
                d.pairs()[i].0,
                d.pairs()[i].1.model(),
            ),
{
    d.lemma_pairs_of_entries();
    lemma_entries_model(d.entries@);
}

/// Looking a key up in the model of original data gives the model of the
/// value that the data holds under that key.
pub proof fn lemma_object_model_lookup(d: Raw, k: Seq<char>)
    requires
        crate::dict::unique_keys(d.pairs()),
    ensures
        map_of(object_model(d)).contains_key(k) == d@.contains_key(k),
        d@.contains_key(k) ==> map_of(object_model(d))[k] == d@[k].model(),
{
    lemma_object_model(d);
    let es = object_model(d);
    let ps = d.pairs();
    lemma_map_of_contains(es, k);
    lemma_map_of_contains(ps, k);
    if d@.contains_key(k) {
        let i = choose|i: int| 0 <= i < ps.len() && ps[i].0 == k;
        assert(es[i].0 == k);
        assert(crate::dict::unique_keys(es)) by {
            assert forall|a: int, b: int| 0 <= a < b < es.len() implies es[a].0 != es[b].0 by {
                assert(es[a].0 == ps[a].0);
                assert(es[b].0 == ps[b].0);
            }
        }
        lemma_map_of_value(es, i);
        lemma_map_of_value(ps, i);
    } else {
        if exists|i: int| 0 <= i < es.len() && es[i].0 == k {
            let i = choose|i: int| 0 <= i < es.len() && es[i].0 == k;
            assert(ps[i].0 == k);
        }
    }
}

/// The models of the values of a map.
pub open spec fn values_model(m: Map<Seq<char>, RawValue>) -> Map<Seq<char>, RawModel> {
    m.map_values(|v: RawValue| v.model())
}

/// The model of original data, looked up by key, is the models of its values.
pub proof fn lemma_object_model_map(d: Raw)
    requires
        crate::dict::unique_keys(d.pairs()),
    ensures
        map_of(object_model(d)) == values_model(d@),
{
    assert forall|k: Seq<char>| #[trigger] map_of(object_model(d)).contains_key(k) == values_model(d@).contains_key(k) by {
        lemma_object_model_lookup(d, k);
    }
    assert forall|k: Seq<char>| #[trigger] map_of(object_model(d)).contains_key(k) implies map_of(object_model(d))[k] == values_model(d@)[k] by {
        lemma_object_model_lookup(d, k);
    }
    assert(map_of(object_model(d)) =~= values_model(d@));
}

/// The text of a value's model, when it is text.
pub open spec fn model_text(m: RawModel) -> Option<Seq<char>> {
    match m {
        RawModel::Text(s) => Some(s),
        _ => None,
    }
}

/// The model of a sequence of values lists their models in order.
pub proof fn lemma_array_model_values(a: Seq<RawValue>)
    ensures
        array_model(a).len() == a.len(),
        forall|i: int| 0 <= i < a.len() ==> #[trigger] array_model(a)[i] == a[i].model(),
{
    lemma_array_model(a);
}

impl RawValue {
    /// A copy with the same model.
    pub fn copy(&self) -> (r: RawValue)
        ensures
            r.model() == self.model(),
        decreases self,
    {
        match self {
            RawValue::Null => RawValue::Null,
            RawValue::Text(s) => RawValue::Text(s.clone()),
            RawValue::Number(n) => RawValue::Number(n.copy()),
            RawValue::Bool(b) => RawValue::Bool(*b),
            RawValue::Object(d) => RawValue::Object(copy_raw(d)),
            RawValue::Array(a) => RawValue::Array(copy_array(a)),
        }
    }
}

/// Copies of the values of `a`, in order.
pub fn copy_array(a: &Vec<RawValue>) -> (r: Vec<RawValue>)
    ensures
        array_model(r@) == array_model(a@),
    decreases a,
{
    let mut r: Vec<RawValue> = Vec::new();
    let mut i: usize = 0;
    while i < a.len()
        invariant
            i <= a@.len(),
            r@.len() == i,
            forall|j: int| 0 <= j < i ==> (#[trigger] r@[j]).model() == a@[j].model(),
        decreases a@.len() - i,
    {
        proof {
            assert(decreases_to!(*a => a[i as int]));
        }
        let c = a[i].copy();
        r.push(c);
        i = i + 1;
    }
    proof {
        lemma_array_model(r@);
        lemma_array_model(a@);
        assert(array_model(r@) =~= array_model(a@));
    }
    r
}

/// A copy of original data with the same entries, in the same order.
pub fn copy_raw(d: &Raw) -> (r: Raw)
    ensures
        object_model(r) == object_model(*d),
        r@.dom() == d@.dom(),
        forall|i: int| 0 <= i < r.pairs().len() ==> (#[trigger] r.pairs()[i]).0 == d.pairs()[i].0,
        r.pairs().len() == d.pairs().len(),
    decreases d,
{
    let n = d.len();
    let mut r: Raw = Dict::new();
    let mut i: usize = 0;
    while i < n
        invariant
            n == d.pairs().len(),
            crate::dict::unique_keys(d.pairs()),
            i <= n,
            r.pairs().len() == i,
            forall|j: int|
                0 <= j < i ==> (#[trigger] r.pairs()[j]).0 == d.pairs()[j].0 && r.pairs()[j].1.model()
                    == d.pairs()[j].1.model(),
        decreases n - i,
    {
        let (k, v) = d.entry_at(i);
        let _ = r.len();
        proof {
            d.lemma_pairs_of_entries();
            assert(decreases_to!(*d => d.entries));
            assert(decreases_to!(d.entries => d.entries@));
            assert(decreases_to!(d.entries@ => d.entries@[i as int]));
            assert(decreases_to!(*d => *v));
            assert(!r@.contains_key(k@)) by {
                crate::dict::lemma_map_of_contains(r.pairs(), k@);
                if r@.contains_key(k@) {
                    let j = choose|j: int| 0 <= j < r.pairs().len() && r.pairs()[j].0 == k@;
                    assert(d.pairs()[j].0 == d.pairs()[i as int].0);
                }
            }
        }
        let c = v.copy();
        r.insert(k.clone(), c);
        i = i + 1;
    }
    let _ = r.len();
    proof {
        lemma_object_model(r);
        lemma_object_model(*d);
        assert(object_model(r) =~= object_model(*d));
        crate::dict::lemma_map_of_entries(r.pairs());
        crate::dict::lemma_map_of_entries(d.pairs());
        assert forall|k: Seq<char>| r@.dom().contains(k) <==> d@.dom().contains(k) by {
            if r@.contains_key(k) {
                let j = choose|j: int| 0 <= j < r.pairs().len() && r.pairs()[j].0 == k;
                assert(d.pairs()[j].0 == k);
            }
            if d@.contains_key(k) {
                let j = choose|j: int| 0 <= j < d.pairs().len() && d.pairs()[j].0 == k;
                assert(r.pairs()[j].0 == k);
            }
        }
        assert(r@.dom() =~= d@.dom());
    }
    r
}

/// The text a number is displayed as.
pub open spec fn render_number(n: NumberModel) -> Seq<char> {
    match n {
        NumberModel::Undefined => "Undefined value is NaN or Infinity"@,
        NumberModel::UnsignedInt(u) => decimal(u as nat),
        NumberModel::SignedInt(i) => signed_decimal(i as int),
        NumberModel::Float(_, text) => text,
    }
}

/// The text a value is displayed as: objects as `{key: value, ...}` and
/// arrays as their elements separated by `, `.
pub open spec fn render(m: RawModel) -> Seq<char>
    decreases m,
{
    match m {
        RawModel::Null => "null"@,
        RawModel::Text(s) => s,
        RawModel::Number(n) => render_number(n),
        RawModel::Bool(b) => if b { "true"@ } else { "false"@ },
        RawModel::Object(es) => seq!['{'] + render_entries(es) + seq!['}'],
        RawModel::Array(xs) => render_items(xs),
    }
}

/// `key: value` for each entry, separated by `, `.
pub open spec fn render_entries(es: Seq<(Seq<char>, RawModel)>) -> Seq<char>
    decreases es,
{
    if es.len() == 0 {
        Seq::empty()
    } else if es.len() == 1 {
        es[0].0 + ": "@ + render(es[0].1)
    } else {
        render_entries(es.drop_last()) + ", "@ + es.last().0 + ": "@ + render(es.last().1)
    }
}

/// The values, separated by `, `.
pub open spec fn render_items(xs: Seq<RawModel>) -> Seq<char>
    decreases xs,
{
    if xs.len() == 0 {
        Seq::empty()
    } else if xs.len() == 1 {
        render(xs[0])
    } else {
        render_items(xs.drop_last()) + ", "@ + render(xs.last())
    }
}

impl RawNumber {
    /// The text the number is displayed as.
    pub fn to_string(&self) -> (r: String)
        ensures
            r@ == render_number(self.model()),
    {
        match self {
            RawNumber::Undefined => {
                proof {
                    reveal_strlit("Undefined value is NaN or Infinity");
                }
                "Undefined value is NaN or Infinity".to_owned()
            },
            RawNumber::UnsignedInt(n) => render_u64(*n),
            RawNumber::SignedInt(n) => render_i64(*n),
            RawNumber::Float(f) => f.text.clone(),
        }
    }
}

impl RawValue {
    /// The text the value is displayed as.
    pub fn to_string(&self) -> (r: String)
        ensures
            r@ == render(self.model()),
        decreases self,
    {
        proof {
            reveal_strlit("null");
            reveal_strlit("true");
            reveal_strlit("false");
        }
        match self {
            RawValue::Null => "null".to_owned(),
            RawValue::Text(s) => s.clone(),
            RawValue::Number(n) => n.to_string(),
            RawValue::Bool(b) => if *b { "true".to_owned() } else { "false".to_owned() },
            RawValue::Object(d) => {
                let inner = render_raw_entries(d);
                let mut r = "{".to_owned();
                r.append(inner.as_str());
                r.append("}");
                proof {
                    reveal_strlit("{");
                    reveal_strlit("}");
                }
                r
            },
            RawValue::Array(a) => render_array(a),
        }
    }
}

fn render_raw_entries(d: &Raw) -> (r: String)
    ensures
        r@ == render_entries(object_model(*d)),
    decreases d,
{
    proof {
        reveal_strlit(", ");
        reveal_strlit(": ");
        lemma_object_model(*d);
    }
    let n = d.len();
    let mut r = String::new();
    let mut i: usize = 0;
    while i < n
        invariant
            n == d.pairs().len(),
            n == object_model(*d).len(),
            forall|j: int|
                0 <= j < n ==> #[trigger] object_model(*d)[j] == (
                    d.pairs()[j].0,
                    d.pairs()[j].1.model(),
                ),
            i <= n,
            r@ == render_entries(object_model(*d).subrange(0, i as int)),
        decreases n - i,
    {
        let (k, v) = d.entry_at(i);
        proof {
            d.lemma_pairs_of_entries();
            assert(decreases_to!(*d => d.entries));
            assert(decreases_to!(d.entries => d.entries@));
            assert(decreases_to!(d.entries@ => d.entries@[i as int]));
            assert(decreases_to!(*d => *v));
        }
        let text = v.to_string();
        let ghost es = object_model(*d).subrange(0, i + 1);
        proof {
            assert(es.drop_last() =~= object_model(*d).subrange(0, i as int));
            assert(es.last() == (k@, v.model()));
        }
        if i > 0 {
            r.append(", ");
        }
        r.append(k.as_str());
        r.append(": ");
        r.append(text.as_str());
        i = i + 1;
        proof {
            if i == 1 {
                assert(r@ =~= render_entries(es));
            } else {
                assert(r@ =~= render_entries(es));
            }
        }
    }
    assert(object_model(*d).subrange(0, n as int) =~= object_model(*d));
    r
}

fn render_array(a: &Vec<RawValue>) -> (r: String)
    ensures
        r@ == render_items(array_model(a@)),
    decreases a,
{
    proof {
        reveal_strlit(", ");
        lemma_array_model(a@);
    }
    let n = a.len();
    let mut r = String::new();
    let mut i: usize = 0;
    while i < n
        invariant
            n == a@.len(),
            n == array_model(a@).len(),
            forall|j: int| 0 <= j < n ==> #[trigger] array_model(a@)[j] == a@[j].model(),
            i <= n,
            r@ == render_items(array_model(a@).subrange(0, i as int)),
        decreases n - i,
    {
        proof {
            assert(decreases_to!(*a => a[i as int]));
        }
        let text = a[i].to_string();
        let ghost xs = array_model(a@).subrange(0, i + 1);
        proof {
            assert(xs.drop_last() =~= array_model(a@).subrange(0, i as int));
        }
        if i > 0 {
            r.append(", ");
        }
        r.append(text.as_str());
        i = i + 1;
        proof {
            assert(r@ =~= render_items(xs));
        }
    }
    assert(array_model(a@).subrange(0, n as int) =~= array_model(a@));
    r
}

impl Clone for RawValue {
    /// A copy with the same model.
    fn clone(&self) -> (r: Self)
        ensures
            r.model() == self.model(),
    {
        self.copy()
    }
}

/// Why a value could not be read as the type asked for.
#[derive(Debug)]
pub enum ParseError {
    IntError(std::num::IntErrorKind),
    FloatError,
    BoolError,
}

impl ParseError {
    /// The text the error is displayed as.
    pub fn to_string(&self) -> (r: String)
        ensures
            r@ == parse_error_display(*self),
    {
        proof {
            reveal_strlit("Invalid integer: Empty");
            reveal_strlit("Invalid integer: InvalidDigit");
            reveal_strlit("Invalid integer: PosOverflow");
            reveal_strlit("Invalid integer: NegOverflow");
            reveal_strlit("Invalid integer: Zero");
            reveal_strlit("Invalid float");
            reveal_strlit("Invalid boolean");
        }
        match self {
            ParseError::IntError(k) => match k {
                std::num::IntErrorKind::Empty => "Invalid integer: Empty".to_owned(),
                std::num::IntErrorKind::InvalidDigit => "Invalid integer: InvalidDigit".to_owned(),
                std::num::IntErrorKind::PosOverflow => "Invalid integer: PosOverflow".to_owned(),
                std::num::IntErrorKind::NegOverflow => "Invalid integer: NegOverflow".to_owned(),
                _ => "Invalid integer: Zero".to_owned(),
            },
            ParseError::FloatError => "Invalid float".to_owned(),
            ParseError::BoolError => "Invalid boolean".to_owned(),
        }
    }
}

/// The text a parse error is displayed as.
pub open spec fn parse_error_display(e: ParseError) -> Seq<char> {
    match e {
        ParseError::IntError(k) => match k {
            std::num::IntErrorKind::Empty => "Invalid integer: Empty"@,
            std::num::IntErrorKind::InvalidDigit => "Invalid integer: InvalidDigit"@,
            std::num::IntErrorKind::PosOverflow => "Invalid integer: PosOverflow"@,
            std::num::IntErrorKind::NegOverflow => "Invalid integer: NegOverflow"@,
            _ => "Invalid integer: Zero"@,
        },
        ParseError::FloatError => "Invalid float"@,
        ParseError::BoolError => "Invalid boolean"@,
    }
}

/// A NaN bit pattern: all exponent bits set and a non-zero fraction.
pub open spec fn is_nan_bits(x: u64) -> bool {
    (x >> 52u64) & 0x7ffu64 == 0x7ffu64 && x & 0xf_ffff_ffff_ffffu64 != 0
}

/// A zero of either sign.
pub open spec fn is_zero_bits(x: u64) -> bool {
    x & 0x7fff_ffff_ffff_ffffu64 == 0
}

/// IEEE-754 equality of two doubles given by their bit patterns:
/// NaN equals nothing and the two zeros are equal.
pub open spec fn float_bits_eq(a: u64, b: u64) -> bool {
    !is_nan_bits(a) && !is_nan_bits(b) && (a == b || (is_zero_bits(a) && is_zero_bits(b)))
}

/// IEEE-754 `x > 0.0` for a double given by its bit pattern.
pub open spec fn float_bits_positive(x: u64) -> bool {
    x >> 63u64 == 0 && !is_zero_bits(x) && !is_nan_bits(x)
}

pub fn float_eq(a: u64, b: u64) -> (r: bool)
    ensures
        r == float_bits_eq(a, b),
{
    let a_nan = (a >> 52u64) & 0x7ffu64 == 0x7ffu64 && a & 0xf_ffff_ffff_ffffu64 != 0;
    let b_nan = (b >> 52u64) & 0x7ffu64 == 0x7ffu64 && b & 0xf_ffff_ffff_ffffu64 != 0;
    !a_nan && !b_nan && (a == b || (a & 0x7fff_ffff_ffff_ffffu64 == 0 && b & 0x7fff_ffff_ffff_ffffu64
        == 0))
}

pub fn float_positive(x: u64) -> (r: bool)
    ensures
        r == float_bits_positive(x),
{
    let nan = (x >> 52u64) & 0x7ffu64 == 0x7ffu64 && x & 0xf_ffff_ffff_ffffu64 != 0;
    x >> 63u64 == 0 && x & 0x7fff_ffff_ffff_ffffu64 != 0 && !nan
}

/// Equality of numbers: integers of the same kind by value, floats by IEEE-754
/// equality, and `Undefined` equal to itself.
pub open spec fn number_eq(a: NumberModel, b: NumberModel) -> bool {
    match (a, b) {
        (NumberModel::UnsignedInt(x), NumberModel::UnsignedInt(y)) => x == y,
        (NumberModel::SignedInt(x), NumberModel::SignedInt(y)) => x == y,
        (NumberModel::Float(x, _), NumberModel::Float(y, _)) => float_bits_eq(x, y),
        (NumberModel::Undefined, NumberModel::Undefined) => true,
        _ => false,
    }
}

impl PartialEq for RawNumber {
    fn eq(&self, other: &Self) -> (r: bool) {
        match (self, other) {
            (RawNumber::UnsignedInt(x), RawNumber::UnsignedInt(y)) => *x == *y,
            (RawNumber::SignedInt(x), RawNumber::SignedInt(y)) => *x == *y,
            (RawNumber::Float(x), RawNumber::Float(y)) => float_eq(x.bits, y.bits),
            (RawNumber::Undefined, RawNumber::Undefined) => true,
            _ => false,
        }
    }
}

impl vstd::std_specs::cmp::PartialEqSpecImpl for RawNumber {
    open spec fn obeys_eq_spec() -> bool {
        true
    }

    open spec fn eq_spec(&self, other: &Self) -> bool {
        number_eq(self.model(), other.model())
    }
}

/// The number's value as an integer of the range `[min, max]`: integers are
/// wrapped into the range by `wrap`, everything else is an error.
pub open spec fn number_as_integer(n: NumberModel, wrap: spec_fn(int) -> int) -> Result<int, ParseError> {
    match n {
        NumberModel::Undefined => Err(ParseError::IntError(std::num::IntErrorKind::Empty)),
        NumberModel::UnsignedInt(i) => Ok(wrap(i as int)),
        NumberModel::SignedInt(i) => Ok(wrap(i as int)),
        NumberModel::Float(_, _) => Err(ParseError::IntError(std::num::IntErrorKind::InvalidDigit)),
    }
}

/// A value read as an integer of the range `[min, max]`: text is parsed,
/// numbers are wrapped by `wrap`, booleans are 1 or 0 and nothing else is one.
pub open spec fn value_as_integer(v: RawModel, min: int, max: int, wrap: spec_fn(int) -> int) -> Result<int, ParseError> {
    match v {
        RawModel::Null => Err(ParseError::IntError(std::num::IntErrorKind::Empty)),
        RawModel::Text(s) => match crate::text::parse_integer(s, min, max) {
            Ok(i) => Ok(i),
            Err(k) => Err(ParseError::IntError(k)),
        },
        RawModel::Number(n) => number_as_integer(n, wrap),
        RawModel::Bool(b) => Ok(if b { 1 } else { 0 }),
        _ => Err(ParseError::IntError(std::num::IntErrorKind::InvalidDigit)),
    }
}

/// Two's complement wrapping into the 64-bit unsigned range.
pub open spec fn wrap_u64(i: int) -> int {
    (i as u64) as int
}

/// Two's complement wrapping into the 64-bit signed range.
pub open spec fn wrap_i64(i: int) -> int {
    (i as i64) as int
}

/// Two's complement wrapping into the `usize` range.
pub open spec fn wrap_usize(i: int) -> int {
    (i as usize) as int
}

impl RawValue {
    /// The value read as a `u64` (text is parsed, numbers are wrapped).
    pub fn to_u64(&self) -> (r: Result<u64, ParseError>)
        ensures
            r matches Ok(x) ==> value_as_integer(self.model(), 0, u64::MAX as int, |i: int| wrap_u64(i)) == Ok::<int, ParseError>(x as int),
            r matches Err(e) ==> value_as_integer(self.model(), 0, u64::MAX as int, |i: int| wrap_u64(i)) == Err::<int, ParseError>(e),
    {
        match self {
            RawValue::Null => Err(ParseError::IntError(std::num::IntErrorKind::Empty)),
            RawValue::Text(s) => match crate::text::parse_integer_str(s.as_str(), 0, u64::MAX as i128) {
                Ok(i) => Ok(i as u64),
                Err(k) => Err(ParseError::IntError(k)),
            },
            RawValue::Number(n) => match n {
                RawNumber::Undefined => Err(ParseError::IntError(std::num::IntErrorKind::Empty)),
                RawNumber::UnsignedInt(i) => Ok(*i),
                RawNumber::SignedInt(i) => Ok(*i as u64),
                RawNumber::Float(_) => Err(ParseError::IntError(std::num::IntErrorKind::InvalidDigit)),
            },
            RawValue::Bool(b) => Ok(if *b { 1 } else { 0 }),
            _ => Err(ParseError::IntError(std::num::IntErrorKind::InvalidDigit)),
        }
    }

    /// The value read as an `i64` (text is parsed, numbers are wrapped).
    pub fn to_i64(&self) -> (r: Result<i64, ParseError>)
        ensures
            r matches Ok(x) ==> value_as_integer(self.model(), i64::MIN as int, i64::MAX as int, |i: int| wrap_i64(i)) == Ok::<int, ParseError>(x as int),
            r matches Err(e) ==> value_as_integer(self.model(), i64::MIN as int, i64::MAX as int, |i: int| wrap_i64(i)) == Err::<int, ParseError>(e),
    {
        match self {
            RawValue::Null => Err(ParseError::IntError(std::num::IntErrorKind::Empty)),
            RawValue::Text(s) => match crate::text::parse_integer_str(s.as_str(), i64::MIN as i128, i64::MAX as i128) {
                Ok(i) => Ok(i as i64),
                Err(k) => Err(ParseError::IntError(k)),
            },
            RawValue::Number(n) => match n {
                RawNumber::Undefined => Err(ParseError::IntError(std::num::IntErrorKind::Empty)),
                RawNumber::UnsignedInt(i) => Ok(*i as i64),
                RawNumber::SignedInt(i) => Ok(*i),
                RawNumber::Float(_) => Err(ParseError::IntError(std::num::IntErrorKind::InvalidDigit)),
            },
            RawValue::Bool(b) => Ok(if *b { 1 } else { 0 }),
            _ => Err(ParseError::IntError(std::num::IntErrorKind::InvalidDigit)),
        }
    }

    /// The value read as a `usize` (text is parsed, numbers are wrapped).
    pub fn to_usize(&self) -> (r: Result<usize, ParseError>)
        ensures
            r matches Ok(x) ==> value_as_integer(self.model(), 0, usize::MAX as int, |i: int| wrap_usize(i)) == Ok::<int, ParseError>(x as int),
            r matches Err(e) ==> value_as_integer(self.model(), 0, usize::MAX as int, |i: int| wrap_usize(i)) == Err::<int, ParseError>(e),
    {
        match self {
            RawValue::Null => Err(ParseError::IntError(std::num::IntErrorKind::Empty)),
            RawValue::Text(s) => match crate::text::parse_integer_str(s.as_str(), 0, usize::MAX as i128) {
                Ok(i) => Ok(i as usize),
                Err(k) => Err(ParseError::IntError(k)),
            },
            RawValue::Number(n) => match n {
                RawNumber::Undefined => Err(ParseError::IntError(std::num::IntErrorKind::Empty)),
                RawNumber::UnsignedInt(i) => Ok(*i as usize),
                RawNumber::SignedInt(i) => Ok(*i as usize),
                RawNumber::Float(_) => Err(ParseError::IntError(std::num::IntErrorKind::InvalidDigit)),
            },
            RawValue::Bool(b) => Ok(if *b { 1 } else { 0 }),
            _ => Err(ParseError::IntError(std::num::IntErrorKind::InvalidDigit)),
        }
    }

    /// The value read as a boolean: numbers are true when greater than zero.
    pub fn to_bool(&self) -> (r: Result<bool, ParseError>)
        ensures
            r == value_as_bool(self.model()),
    {
        match self {
            RawValue::Number(n) => match n {
                RawNumber::Undefined => Ok(false),
                RawNumber::UnsignedInt(i) => Ok(*i > 0),
                RawNumber::SignedInt(i) => Ok(*i > 0),
                RawNumber::Float(f) => Ok(float_positive(f.bits)),
            },
            RawValue::Bool(b) => Ok(*b),
            _ => Err(ParseError::BoolError),
        }
    }
}

/// A value read as a boolean.
pub open spec fn value_as_bool(v: RawModel) -> Result<bool, ParseError> {
    match v {
        RawModel::Number(n) => match n {
            NumberModel::Undefined => Ok(false),
            NumberModel::UnsignedInt(i) => Ok(i > 0),
            NumberModel::SignedInt(i) => Ok(i > 0),
            NumberModel::Float(bits, _) => Ok(float_bits_positive(bits)),
        },
        RawModel::Bool(b) => Ok(b),
        _ => Err(ParseError::BoolError),
    }
}

} // verus!
