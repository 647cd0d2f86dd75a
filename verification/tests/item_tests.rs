use book_batch_rust::date::{Date, DateTime};
use book_batch_rust::dict::Dict;
use book_batch_rust::item::raw::{FloatNumber, ParseError, Raw, RawNumber, RawValue};
use book_batch_rust::item::rule::{FilterRule, Operand, OperandExpression, Operator, Predicate};
use book_batch_rust::item::{Book, ItemError, Publisher, Series, Site, SiteMap};

fn text_raw(entries: &[(&str, &str)]) -> Raw {
    let mut r: Raw = Dict::new();
    for (k, v) in entries {
        r.insert(k.to_string(), RawValue::Text(v.to_string()));
    }
    r
}

#[test]
fn site_codes_ignore_case() {
    assert_eq!(Site::try_from("naver"), Ok(Site::Naver));
    assert_eq!(Site::try_from("NLGO"), Ok(Site::NLGO));
    assert_eq!(Site::try_from("Aladin"), Ok(Site::Aladin));
    assert_eq!(Site::try_from("kyobo"), Ok(Site::KyoboBook));
    assert_eq!(Site::try_from("yes24"), Err(ItemError::UnknownCode("yes24".to_string())));
}

#[test]
fn site_display_names() {
    assert_eq!(Site::NLGO.to_string(), "NLGO");
    assert_eq!(Site::Naver.to_string(), "NAVER");
    assert_eq!(Site::Aladin.to_string(), "ALADIN");
    assert_eq!(Site::KyoboBook.to_string(), "KYOBO");
}

#[test]
fn site_display_reads_back() {
    for s in [Site::NLGO, Site::Naver, Site::Aladin, Site::KyoboBook] {
        assert_eq!(Site::try_from(s.to_string().as_str()), Ok(s));
    }
}

#[test]
fn operator_codes() {
    assert_eq!(Operator::from_str("AND"), Ok(Operator::AND));
    assert_eq!(Operator::from_str("NAND"), Ok(Operator::NAND));
    assert_eq!(Operator::from_str("and"), Err(ItemError::UnknownCode("Unknown operator: and".to_string())));
}

#[test]
fn building_a_book_needs_isbn_then_title() {
    let e = Book::builder().title("t".to_string()).build().unwrap_err();
    assert_eq!(e, ItemError::RequireArgumentMissing("isbn".to_string()));
    let e = Book::builder().isbn("1".to_string()).build().unwrap_err();
    assert_eq!(e, ItemError::RequireArgumentMissing("title".to_string()));
    let e = Book::builder().build().unwrap_err();
    assert_eq!(e, ItemError::RequireArgumentMissing("isbn".to_string()));
}

#[test]
fn a_built_book_defaults_ids_to_zero() {
    let b = Book::builder().isbn("978".to_string()).title("T".to_string()).build().unwrap();
    assert_eq!(b.id(), 0);
    assert_eq!(b.publisher_id(), 0);
    assert_eq!(b.series_id(), None);
    assert_eq!(b.isbn(), "978");
    assert_eq!(b.title(), "T");
}

#[test]
fn to_builder_then_build_gives_the_same_book() {
    let date = Date { year: 2025, month: 2, day: 3 };
    let at = DateTime { date, hour: 1, minute: 2, second: 3, nanosecond: 4 };
    let b = Book::builder()
        .id(5)
        .isbn("978".to_string())
        .title("T".to_string())
        .publisher_id(9)
        .series_id(11)
        .scheduled_pub_date(date)
        .registered_at(at)
        .add_original(Site::Naver, text_raw(&[("title", "T")]))
        .build()
        .unwrap();
    let c = b.to_builder().build().unwrap();
    assert_eq!(c.id(), 5);
    assert_eq!(c.publisher_id(), 9);
    assert_eq!(c.series_id(), Some(11));
    assert_eq!(c.scheduled_pub_date(), Some(date));
    assert_eq!(c.actual_pub_date(), None);
    assert_eq!(c.registered_at(), Some(at));
    assert!(c.originals().get(&Site::Naver).unwrap().get("title").is_some());
}

#[test]
fn merge_takes_new_title_dates_and_originals() {
    let d1 = Date { year: 2025, month: 1, day: 1 };
    let d2 = Date { year: 2025, month: 2, day: 2 };
    let stored = Book::builder()
        .id(1)
        .isbn("9".to_string())
        .title("old".to_string())
        .publisher_id(4)
        .series_id(8)
        .scheduled_pub_date(d1)
        .actual_pub_date(d1)
        .add_original(Site::NLGO, text_raw(&[("a", "1")]))
        .build()
        .unwrap();
    let update = Book::builder()
        .isbn("9".to_string())
        .title("new".to_string())
        .scheduled_pub_date(d2)
        .actual_pub_date(d1)
        .add_original(Site::Naver, text_raw(&[("b", "2")]))
        .build()
        .unwrap();
    let m = stored.merge(&update);
    assert_eq!(m.id(), 1);
    assert_eq!(m.publisher_id(), 4);
    assert_eq!(m.title(), "new");
    assert_eq!(m.scheduled_pub_date(), Some(d2));
    // A date equal to the stored one is not carried over.
    assert_eq!(m.actual_pub_date(), None);
    assert_eq!(m.series_id(), None);
    assert!(m.originals().contains_key(&Site::NLGO));
    assert!(m.originals().contains_key(&Site::Naver));
}

#[test]
fn add_original_raw_adds_one_value() {
    let b = Book::builder()
        .isbn("1".to_string())
        .title("t".to_string())
        .add_original_raw(Site::Aladin, "k", RawValue::Bool(true))
        .add_original_raw(Site::Aladin, "j", RawValue::Null)
        .build()
        .unwrap();
    let r = b.originals().get(&Site::Aladin).unwrap();
    assert_eq!(r.len(), 2);
    assert!(matches!(r.get("k"), Some(RawValue::Bool(true))));
}

#[test]
fn set_series_id_sets_it() {
    let mut b = Book::builder().isbn("1".to_string()).title("t".to_string()).build().unwrap();
    b.set_series_id(3);
    assert_eq!(b.series_id(), Some(3));
}

#[test]
fn publisher_keywords_are_appended_per_site() {
    let mut p = Publisher::without_keywords(3, "pub".to_string());
    p.add_keyword(Site::Naver, "a".to_string());
    p.add_keyword(Site::Naver, "b".to_string());
    p.add_keyword(Site::NLGO, "c".to_string());
    assert_eq!(p.id(), 3);
    assert_eq!(p.name(), "pub");
    assert_eq!(p.keywords().get(&Site::Naver), Some(&vec!["a".to_string(), "b".to_string()]));
    assert_eq!(p.keywords().get(&Site::NLGO), Some(&vec!["c".to_string()]));
    assert_eq!(p.keywords().get(&Site::Aladin), None);
}

#[test]
fn publisher_new_keeps_keywords() {
    let mut k = SiteMap::new();
    k.insert(Site::Aladin, vec!["x".to_string()]);
    let p = Publisher::new(1, "n".to_string(), k);
    assert_eq!(p.keywords().get(&Site::Aladin), Some(&vec!["x".to_string()]));
}

#[test]
fn series_builder_defaults() {
    let s = Series::builder().title("S".to_string()).vec(vec![1u32, 2]).build().unwrap();
    assert_eq!(s.id(), 0);
    assert_eq!(s.title(), &Some("S".to_string()));
    assert_eq!(s.isbn(), &None);
    assert_eq!(s.vec(), &Some(vec![1u32, 2]));
    let s = Series::builder().id(4).isbn("i".to_string()).build().unwrap();
    assert_eq!(s.id(), 4);
    assert_eq!(s.isbn(), &Some("i".to_string()));
}

#[test]
fn operand_rule_tests_a_property() {
    let raw = text_raw(&[("test", "1234")]);
    let rule = FilterRule::new_operand("연산자 테스트", "test", "[0-9]");
    assert!(rule.to_predicate().test(&raw));
    let raw = text_raw(&[("test", "abcd")]);
    assert!(!rule.to_predicate().test(&raw));
}

#[test]
fn expression_rule_combines_operands() {
    let raw = text_raw(&[("first", "1234"), ("second", "abcd")]);
    let mut rule = FilterRule::new_operator("연산식 테스트", Operator::AND);
    rule.add_operand(FilterRule::new_operand("first rule", "first", "[0-9]"));
    rule.add_operand(FilterRule::new_operand("second rule", "second", "^[a-zA-Z]+$"));
    assert!(rule.to_predicate().test(&raw));
    assert_eq!(rule.operands().len(), 2);
    assert_eq!(rule.name(), "연산식 테스트");
    assert_eq!(rule.operator(), Some(Operator::AND));
}

#[test]
fn operators_combine_as_named() {
    let raw = text_raw(&[("a", "1"), ("b", "x")]);
    let make = |op: Operator| {
        let mut r = FilterRule::new_operator("r", op);
        r.add_operand(FilterRule::new_operand("a", "a", "[0-9]"));
        r.add_operand(FilterRule::new_operand("b", "b", "[0-9]"));
        r.to_predicate()
    };
    assert_eq!(make(Operator::AND).evaluate(&raw), Some(false));
    assert_eq!(make(Operator::OR).evaluate(&raw), Some(true));
    assert_eq!(make(Operator::NOR).evaluate(&raw), Some(false));
    assert_eq!(make(Operator::NAND).evaluate(&raw), Some(true));
}

#[test]
fn non_text_values_never_match() {
    let mut raw: Raw = Dict::new();
    raw.insert("n".to_string(), RawValue::Number(RawNumber::UnsignedInt(5)));
    let p = FilterRule::new_operand("n", "n", "5").to_predicate();
    assert_eq!(p.evaluate(&raw), Some(false));
}

#[test]
fn untestable_rules_evaluate_to_none() {
    let raw = text_raw(&[("a", "1")]);
    assert_eq!(FilterRule::new_operand("m", "missing", "1").to_predicate().evaluate(&raw), None);
    assert_eq!(FilterRule::new_operand("bad", "a", "[").to_predicate().evaluate(&raw), None);
    assert_eq!(Predicate::Always.evaluate(&raw), Some(true));
}

#[test]
fn a_rule_with_neither_operator_nor_property_passes() {
    let mut r = FilterRule::new_operator("or", Operator::OR);
    r.add_operand(FilterRule::new_operand("x", "a", "z"));
    let raw = text_raw(&[("a", "abc")]);
    assert_eq!(r.to_predicate().evaluate(&raw), Some(false));
    let empty_or = FilterRule::new_operator("empty", Operator::OR).to_predicate();
    assert_eq!(empty_or.evaluate(&raw), Some(false));
    let empty_and = FilterRule::new_operator("empty", Operator::AND).to_predicate();
    assert_eq!(empty_and.evaluate(&raw), Some(true));
}

#[test]
fn raw_values_display() {
    assert_eq!(RawValue::Null.to_string(), "null");
    assert_eq!(RawValue::Text("a b".to_string()).to_string(), "a b");
    assert_eq!(RawValue::Bool(true).to_string(), "true");
    assert_eq!(RawValue::Number(RawNumber::UnsignedInt(120)).to_string(), "120");
    assert_eq!(RawValue::Number(RawNumber::SignedInt(-7)).to_string(), "-7");
    let f = FloatNumber { bits: 1.5f64.to_bits(), text: "1.5".to_string() };
    assert_eq!(RawValue::Number(RawNumber::Float(f)).to_string(), "1.5");
    assert_eq!(RawNumber::Undefined.to_string(), "Undefined value is NaN or Infinity");
}

#[test]
fn raw_values_read_as_integers() {
    assert_eq!(RawValue::Text("42".to_string()).to_u64().unwrap(), 42);
    assert_eq!(RawValue::Number(RawNumber::SignedInt(-1)).to_u64().unwrap(), u64::MAX);
    assert_eq!(RawValue::Bool(true).to_i64().unwrap(), 1);
    assert_eq!(RawValue::Text("-5".to_string()).to_i64().unwrap(), -5);
    assert_eq!(RawValue::Number(RawNumber::UnsignedInt(7)).to_usize().unwrap(), 7);
    assert!(matches!(RawValue::Null.to_u64(), Err(ParseError::IntError(std::num::IntErrorKind::Empty))));
    assert!(matches!(
        RawValue::Text("x".to_string()).to_u64(),
        Err(ParseError::IntError(std::num::IntErrorKind::InvalidDigit))
    ));
    assert!(matches!(
        RawValue::Text("-1".to_string()).to_u64(),
        Err(ParseError::IntError(std::num::IntErrorKind::InvalidDigit))
    ));
}

#[test]
fn raw_values_read_as_booleans() {
    assert_eq!(RawValue::Bool(false).to_bool().unwrap(), false);
    assert_eq!(RawValue::Number(RawNumber::UnsignedInt(2)).to_bool().unwrap(), true);
    assert_eq!(RawValue::Number(RawNumber::Undefined).to_bool().unwrap(), false);
    assert!(matches!(RawValue::Text("true".to_string()).to_bool(), Err(ParseError::BoolError)));
}

#[test]
fn parse_error_messages() {
    assert_eq!(ParseError::FloatError.to_string(), "Invalid float");
    assert_eq!(ParseError::BoolError.to_string(), "Invalid boolean");
    assert_eq!(ParseError::IntError(std::num::IntErrorKind::Empty).to_string(), "Invalid integer: Empty");
}

#[test]
fn dict_keeps_one_value_per_key() {
    let mut d: Dict<i32> = Dict::new();
    d.insert("a".to_string(), 1);
    d.insert("b".to_string(), 2);
    d.insert("a".to_string(), 3);
    assert_eq!(d.len(), 2);
    assert_eq!(d.get("a"), Some(&3));
    assert!(d.contains_key("b"));
    assert_eq!(d.remove("b"), Some(2));
    assert!(!d.contains_key("b"));
    assert_eq!(d.remove("b"), None);
    assert_eq!(d.into_entries(), vec![("a".to_string(), 3)]);
}

#[test]
fn site_map_holds_one_value_per_site() {
    let mut m: SiteMap<i32> = SiteMap::new();
    m.insert(Site::Naver, 1);
    m.insert(Site::Naver, 2);
    assert_eq!(m.get(&Site::Naver), Some(&2));
    assert!(!m.contains_key(&Site::NLGO));
    assert_eq!(m.remove(&Site::Naver), Some(2));
    assert_eq!(m.get(&Site::Naver), None);
}

#[test]
fn site_text_reads_back_as_the_site() {
    for site in [Site::NLGO, Site::Naver, Site::Aladin, Site::KyoboBook] {
        assert_eq!(Site::try_from(site.to_string().as_str()), Ok(site));
    }
}

#[test]
fn user_checks_combine_by_operator() {
    let mut raw: Raw = Dict::new();
    raw.insert("test".to_string(), RawValue::Text("test".to_string()));
    let operand1: Box<dyn Operand> = Box::new(|raw: &Raw| raw.get("test").is_some());
    let operand2: Box<dyn Operand> =
        Box::new(|raw: &Raw| matches!(raw.get("test"), Some(RawValue::Text(t)) if t == "test"));
    let and_expression = OperandExpression::new(Operator::AND, vec![operand1, operand2]);
    assert!(and_expression.test(&raw));

    let missing: Box<dyn Operand> = Box::new(|raw: &Raw| raw.get("other").is_some());
    let present: Box<dyn Operand> = Box::new(|raw: &Raw| raw.get("test").is_some());
    assert!(!OperandExpression::new(Operator::AND, vec![missing, present]).test(&raw));
    let missing: Box<dyn Operand> = Box::new(|raw: &Raw| raw.get("other").is_some());
    let present: Box<dyn Operand> = Box::new(|raw: &Raw| raw.get("test").is_some());
    assert!(OperandExpression::new(Operator::OR, vec![missing, present]).test(&raw));
    let missing: Box<dyn Operand> = Box::new(|raw: &Raw| raw.get("other").is_some());
    assert!(OperandExpression::new(Operator::NOR, vec![missing]).test(&raw));
    let present: Box<dyn Operand> = Box::new(|raw: &Raw| raw.get("test").is_some());
    assert!(!OperandExpression::new(Operator::NAND, vec![present]).test(&raw));

    let rule: Box<dyn Operand> = Box::new(FilterRule::new_operand("rule", "test", "^te").to_predicate());
    let check: Box<dyn Operand> = Box::new(|raw: &Raw| raw.len() == 1);
    assert!(OperandExpression::new(Operator::AND, vec![rule, check]).test(&raw));
}
