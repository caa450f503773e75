use liquid::model::array::{convert_index, ArrayRender, ArraySource};
use liquid::parser::number::{parse_decimal, parse_integer};
use liquid::{
    Array, ArrayView, Date, DateTime, Decimal, Object, ObjectRender, ObjectSource, ObjectView,
    Scalar, State, Value, ValueView,
};

fn float(x: f64) -> Value {
    Value::scalar(parse_decimal(&format!("{:?}", x)).unwrap())
}

#[test]
fn test_array() {
    let arr = Array::new();
    println!("{}", arr.source());
    let array: &Array = &arr;
    println!("{}", array.source());
    let view = array.to_value();
    println!("{}", view.source());
    assert_eq!(arr.source(), "ArraySource[]");
    assert_eq!(view.source(), "ArraySource[]");
}

#[test]
fn test_object() {
    let obj = Object::new();
    println!("{}", obj.source());
    let object: &Object = &obj;
    println!("{}", object.source());
    let view = object.to_value();
    println!("{}", view.source());
    assert_eq!(obj.source(), "{ObjectSource}");
    assert_eq!(view.source(), "{ObjectSource}");
}

#[test]
fn array_renders_elements_as_json() {
    let arr = vec![
        Value::Nil,
        Value::scalar("a\"b\n"),
        Value::scalar(3),
        Value::scalar(true),
        float(2.0),
        float(-0.25),
        Value::Array(vec![Value::scalar(1), Value::scalar("x")]),
    ];
    assert_eq!(
        arr.render(),
        "[nil, \"a\\\"b\\n\", 3, true, 2.0, -0.25, [1, \"x\"]]"
    );
    assert_eq!(ArrayRender::new(&arr).render(), arr.render());
    assert_eq!(
        ArraySource::new(&arr).render(),
        "ArraySource[nil, \"a\\\"b\\n\", 3, true, 2.0, -0.25, [1, \"x\"]]"
    );
}

#[test]
fn json_escapes_control_characters() {
    let arr = vec![Value::scalar("\u{1}\u{1f}\\\t\r\u{8}\u{c}é")];
    assert_eq!(arr.render(), "[\"\\u0001\\u001f\\\\\\t\\r\\b\\fé\"]");
}

#[test]
fn object_renders_in_key_order() {
    let mut obj = Object::new();
    assert!(obj.insert("b".to_string(), Value::scalar(1)).is_none());
    assert!(obj.insert("a".to_string(), Value::scalar(2)).is_none());
    assert_eq!(obj.render(), "{\"a\"=>2, \"b\"=>1}");
    assert_eq!(ObjectRender::new(&obj).render(), "{\"a\"=>2, \"b\"=>1}");
    assert_eq!(Value::Object(obj).render(), "{\"a\"=>2, \"b\"=>1}");
}

#[test]
fn object_keys_ascend_under_every_view() {
    let mut obj = Object::new();
    for key in ["pear", "apple", "zebra", "Apple", "", "app"] {
        obj.insert(key.to_string(), Value::scalar(key));
    }
    let expected = vec!["", "Apple", "app", "apple", "pear", "zebra"];
    assert_eq!(obj.keys(), expected);
    assert_eq!(ObjectView::keys(&obj), expected);
    let iterated: Vec<&str> = obj.iter().into_iter().map(|(k, _)| k).collect();
    assert_eq!(iterated, expected);
    let values: Vec<String> = obj.values().into_iter().map(|v| v.render()).collect();
    assert_eq!(values, expected);
    assert_eq!(ObjectView::size(&obj), 6);
}

#[test]
fn object_insert_replaces_and_returns_old_value() {
    let mut obj = Object::new();
    obj.insert("k".to_string(), Value::scalar(1));
    let old = obj.insert("k".to_string(), Value::scalar(2));
    assert_eq!(old, Some(Value::scalar(1)));
    assert_eq!(obj.len(), 1);
    assert_eq!(obj.get("k"), Some(&Value::scalar(2)));
    assert!(obj.contains_key("k"));
    assert!(!obj.contains_key("K"));
    assert!(obj.get("missing").is_none());
}

#[test]
fn object_source_keeps_its_braces() {
    let mut obj = Object::new();
    obj.insert("a".to_string(), Value::scalar(1));
    assert_eq!(ObjectSource::new(&obj).render(), "{ObjectSource\"a\": 1, ,}");
    obj.insert("b".to_string(), Value::scalar("x"));
    assert_eq!(obj.source(), "{ObjectSource{\"a\": 1, }\"b\": x, ,}");
    obj.insert("c".to_string(), Value::Nil);
    assert_eq!(obj.source(), "{ObjectSource{\"a\": 1, }\"b\": x, }\"c\": , ,}");
}

#[test]
fn array_index_counts_from_either_end() {
    let arr = vec![Value::scalar(10), Value::scalar(20), Value::scalar(30)];
    assert_eq!(arr.get(0), Some(&Value::scalar(10)));
    assert_eq!(arr.get(2), Some(&Value::scalar(30)));
    assert_eq!(arr.get(-1), arr.get(2));
    assert_eq!(arr.get(-2), arr.get(1));
    assert_eq!(arr.get(-3), arr.get(0));
    assert_eq!(arr.get(3), None);
    assert_eq!(arr.get(-4), None);
    assert_eq!(arr.get(i64::MIN), None);
    assert_eq!(arr.get(i64::MAX), None);
    assert!(arr.contains_key(-3));
    assert!(!arr.contains_key(-4));
    assert!(!arr.contains_key(3));
    assert_eq!(ArrayView::first(&arr), Some(&Value::scalar(10)));
    assert_eq!(ArrayView::last(&arr), Some(&Value::scalar(30)));
    assert_eq!(ArrayView::size(&arr), 3);
    assert_eq!(ArrayView::values(&arr).len(), 3);
    let empty = Array::new();
    assert_eq!(ArrayView::first(&empty), None);
    assert_eq!(ArrayView::last(&empty), None);
    assert_eq!(convert_index(-1, 3), 2);
    assert_eq!(convert_index(1, 3), 1);
    assert_eq!(convert_index(-5, 3), -2);
}

#[test]
fn truthy_is_everything_but_nil_and_false() {
    assert!(!Value::Nil.query_state(State::Truthy));
    assert!(!Value::scalar(false).query_state(State::Truthy));
    assert!(Value::scalar(true).query_state(State::Truthy));
    assert!(Value::scalar(0).query_state(State::Truthy));
    assert!(Value::scalar("").query_state(State::Truthy));
    assert!(Value::Array(vec![]).query_state(State::Truthy));
    assert!(Value::Object(Object::new()).query_state(State::Truthy));
}

#[test]
fn default_empty_and_blank_states() {
    assert!(Value::Nil.query_state(State::DefaultValue));
    assert!(Value::scalar(false).query_state(State::DefaultValue));
    assert!(Value::scalar("").query_state(State::DefaultValue));
    assert!(!Value::scalar(" ").query_state(State::DefaultValue));
    assert!(!Value::scalar(0).query_state(State::DefaultValue));
    assert!(Value::Array(vec![]).query_state(State::DefaultValue));
    assert!(!Value::Array(vec![Value::Nil]).query_state(State::DefaultValue));
    assert!(Value::scalar("").query_state(State::Empty));
    assert!(!Value::scalar(false).query_state(State::Empty));
    assert!(Value::scalar(" \t\n").query_state(State::Blank));
    assert!(!Value::scalar(" x ").query_state(State::Blank));
    assert!(Value::scalar(false).query_state(State::Blank));
    assert!(Value::Object(Object::new()).query_state(State::Blank));
}

#[test]
fn kind_names() {
    assert_eq!(Value::Nil.kind_name(), "nil");
    assert_eq!(Value::scalar(true).kind_name(), "boolean");
    assert_eq!(Value::scalar(1).kind_name(), "whole number");
    assert_eq!(float(1.5).kind_name(), "fractional number");
    assert_eq!(Value::scalar("s").kind_name(), "string");
    assert_eq!(Value::Array(vec![]).kind_name(), "array");
    assert_eq!(Value::Object(Object::new()).kind_name(), "object");
    assert_eq!(Value::scalar(Date::from_ymd(2020, 2, 29)).kind_name(), "date");
    assert_eq!(Value::scalar(DateTime::from_ymd(2020, 2, 29)).kind_name(), "date time");
}

#[test]
fn scalars_render() {
    assert_eq!(Value::Nil.render(), "");
    assert_eq!(Value::scalar("as is \"").render(), "as is \"");
    assert_eq!(Value::scalar(true).render(), "true");
    assert_eq!(Value::scalar(false).render(), "false");
    assert_eq!(Value::scalar(0).render(), "0");
    assert_eq!(Value::scalar(-1205).render(), "-1205");
    assert_eq!(Value::scalar(i64::MIN).render(), "-9223372036854775808");
    assert_eq!(Value::scalar(i64::MAX).render(), "9223372036854775807");
    assert_eq!(float(2.0).render(), "2");
    assert_eq!(float(2.5).render(), "2.5");
    assert_eq!(float(-0.05).render(), "-0.05");
    assert_eq!(float(100.001).render(), "100.001");
    assert_eq!(Value::scalar("s").source(), "\"s\"");
    assert_eq!(Value::Nil.source(), "nil");
    assert_eq!(Value::scalar(7).to_kstr().as_str(), "7");
    assert_eq!(vec![Value::Nil].to_kstr().as_str(), "[nil]");
    assert_eq!(Object::new().to_kstr().as_str(), "{}");
}

#[test]
fn dates_render_in_canonical_format() {
    assert_eq!(Date::from_ymd(2016, 2, 16).render(), "2016-02-16");
    assert_eq!(Date::from_ymd(33, 12, 1).render(), "0033-12-01");
    assert_eq!(Date::from_ymd(-33, 12, 1).render(), "-0033-12-01");
    let date = Date::from_ymd(2021, 5, 2);
    let t = DateTime::from_parts(date, 21, 0, 0, 0, 3600).unwrap();
    assert_eq!(t.render(), "2021-05-02 21:00:00 +0100");
    let t = DateTime::from_parts(date, 21, 0, 0, 120_000_000, 3600).unwrap();
    assert_eq!(t.render(), "2021-05-02 21:00:00.12 +0100");
    let t = DateTime::from_parts(date, 1, 2, 3, 1, -(9 * 3600 + 30 * 60)).unwrap();
    assert_eq!(t.render(), "2021-05-02 01:02:03.000000001 -0930");
    let t = DateTime::from_parts(date, 1, 2, 3, 0, -1800).unwrap();
    assert_eq!(t.render(), "2021-05-02 01:02:03 -0030");
    assert_eq!(
        Value::Array(vec![Value::scalar(date)]).render(),
        "[\"2021-05-02\"]"
    );
}

#[test]
fn invalid_dates_are_refused() {
    assert!(Date::try_from_ymd(2019, 2, 29).is_none());
    assert!(Date::try_from_ymd(2020, 2, 29).is_some());
    assert!(Date::try_from_ymd(1900, 2, 29).is_none());
    assert!(Date::try_from_ymd(2000, 2, 29).is_some());
    assert!(Date::try_from_ymd(2020, 13, 1).is_none());
    assert!(Date::try_from_ymd(2020, 0, 1).is_none());
    assert!(Date::try_from_ymd(2020, 4, 31).is_none());
    assert!(Date::try_from_ymd(10000, 1, 1).is_none());
    let date = Date::from_ymd(2020, 1, 1);
    assert!(DateTime::from_parts(date, 24, 0, 0, 0, 0).is_none());
    assert!(DateTime::from_parts(date, 0, 60, 0, 0, 0).is_none());
    assert!(DateTime::from_parts(date, 0, 0, 60, 0, 0).is_none());
    assert!(DateTime::from_parts(date, 0, 0, 0, 1_000_000_000, 0).is_none());
    assert!(DateTime::from_parts(date, 0, 0, 0, 0, 86_400).is_none());
}

#[test]
fn values_compare_by_kind_and_payload() {
    assert_eq!(Value::scalar(2), float(2.0));
    assert_eq!(float(2.50), float(2.5));
    assert_ne!(Value::scalar(2), float(2.5));
    assert_ne!(Value::scalar(2), Value::scalar("2"));
    assert_ne!(Value::scalar(true), Value::scalar("true"));
    assert_ne!(Value::Nil, Value::scalar(false));
    assert_eq!(Value::Nil, Value::Nil);
    assert_ne!(Value::scalar("a"), Value::Array(vec![Value::scalar("a")]));
    assert_eq!(
        Value::Array(vec![Value::scalar(1), float(2.0)]),
        Value::Array(vec![float(1.0), Value::scalar(2)])
    );
    assert_ne!(
        Value::Array(vec![Value::scalar(1)]),
        Value::Array(vec![Value::scalar(1), Value::scalar(1)])
    );
    let mut a = Object::new();
    a.insert("k".to_string(), Value::scalar(1));
    let mut b = Object::new();
    b.insert("k".to_string(), float(1.0));
    assert_eq!(Value::Object(a), Value::Object(b));
}

#[test]
fn a_date_compares_as_midnight_utc() {
    let date = Date::from_ymd(2016, 2, 16);
    let midnight = DateTime::from_ymd(2016, 2, 16);
    assert_eq!(Value::scalar(date), Value::scalar(midnight));
    let same_instant = DateTime::from_parts(date, 1, 0, 0, 0, 3600).unwrap();
    assert_eq!(Value::scalar(date), Value::scalar(same_instant));
    let later = DateTime::from_parts(date, 1, 0, 0, 0, 0).unwrap();
    assert_ne!(Value::scalar(date), Value::scalar(later));
    assert_eq!(midnight.instant(), Some(1455580800i128 * 1_000_000_000));
    assert_eq!(
        DateTime::from_parts(date, 10, 0, 0, 123456789, 3600).unwrap().instant(),
        Some(1455613200123456789)
    );
}

#[test]
fn to_value_copies_deeply() {
    let mut obj = Object::new();
    obj.insert("list".to_string(), Value::Array(vec![Value::scalar("x"), Value::Nil]));
    let v = Value::Object(obj);
    let copy = v.to_value();
    assert_eq!(copy, v);
    assert_eq!(copy.to_value(), copy);
    assert_eq!(copy.render(), v.render());
    assert_eq!(copy.render(), "{\"list\"=>[\"x\", nil]}");
}

#[test]
fn numerals_round_trip() {
    for n in [0i64, 7, -7, 10, 1234567890, i64::MAX, i64::MIN] {
        assert_eq!(parse_integer(&Value::scalar(n).render()), Some(n));
    }
    assert_eq!(parse_integer(""), None);
    assert_eq!(parse_integer("-"), None);
    assert_eq!(parse_integer("12a"), None);
    assert_eq!(parse_integer("9223372036854775808"), None);
    assert_eq!(parse_integer("-9223372036854775809"), None);
    assert_eq!(parse_integer("99999999999999999999999999"), None);
    for text in ["2.5", "-0.05", "100.001", "0.1", "123456789.123456789"] {
        let d = parse_decimal(text).unwrap();
        let mut out = String::new();
        d.render_to(&mut out);
        assert_eq!(out, text);
    }
    let d = parse_decimal("2.500").unwrap();
    assert_eq!((d.mantissa(), d.scale()), (25, 1));
    let d = parse_decimal("-3.0").unwrap();
    assert_eq!((d.mantissa(), d.scale()), (-3, 0));
    assert!(parse_decimal("1.").is_none());
    assert!(parse_decimal(".5").is_none());
    assert!(parse_decimal("1.2.3").is_none());
    assert!(parse_decimal("1").is_none());
    assert!(parse_decimal("0.1234567890123456789").is_none());
    assert!(Decimal::new(10, 1).is_none());
    assert!(Decimal::new(1, 19).is_none());
    assert!(Decimal::new(10, 0).is_some());
}

#[test]
fn scalar_narrowing() {
    let v = Value::scalar("x");
    assert!(v.as_scalar().is_some());
    assert!(v.as_array().is_none());
    assert!(v.as_object().is_none());
    assert!(v.is_scalar() && !v.is_nil() && !v.is_array() && !v.is_object());
    assert!(matches!(v.as_scalar(), Some(Scalar::Str(s)) if s == "x"));
    assert!(Value::Array(vec![]).as_array().is_some());
    assert!(Value::Object(Object::new()).as_object().is_some());
    assert!(Value::Nil.is_nil());
}

#[test]
fn strings_are_read_as_numbers() {
    let read = |text: &str| Scalar::Str(text.to_string()).to_number().map(|d| (d.mantissa(), d.scale()));
    assert_eq!(read("12"), Some((12, 0)));
    assert_eq!(read("-12"), Some((-12, 0)));
    assert_eq!(read("+12"), Some((12, 0)));
    assert_eq!(read("1.50"), Some((15, 1)));
    assert_eq!(read("+0.25"), Some((25, 2)));
    assert_eq!(read("abc"), None);
    assert_eq!(read(""), None);
    assert_eq!(read("1e3"), None);
    assert_eq!(Scalar::Bool(true).to_number().map(|d| d.mantissa()), None);
    assert_eq!(Scalar::Integer(7).to_number().map(|d| d.mantissa()), Some(7));
    let zero = Scalar::Str("x".to_string()).to_number_or_zero();
    assert_eq!((zero.mantissa(), zero.scale()), (0, 0));
    let five = Scalar::Str("5".to_string()).to_number_or_zero();
    assert_eq!((five.mantissa(), five.scale()), (5, 0));
    assert_eq!(parse_integer("+7"), Some(7));
    assert_eq!(parse_integer("+"), None);
    assert_eq!(parse_integer("+-7"), None);
}

#[test]
fn paths_are_looked_up_on_the_stack() {
    let mut runtime = liquid::Runtime::new();
    let mut inner = Object::new();
    inner.insert("list".to_string(), Value::Array(vec![Value::scalar("a"), Value::scalar("b")]));
    inner.insert("7".to_string(), Value::scalar("seven"));
    runtime.set_global("root".to_string(), Value::Object(inner));
    let path = |items: Vec<Scalar>| items;
    let found = runtime
        .stack()
        .get(&path(vec![Scalar::Str("root".into()), Scalar::Str("list".into()), Scalar::Integer(-1)]));
    assert_eq!(found, Some(&Value::scalar("b")));
    let found = runtime.stack().get(&path(vec![Scalar::Str("root".into()), Scalar::Integer(7)]));
    assert_eq!(found, Some(&Value::scalar("seven")));
    let found = runtime
        .stack()
        .get(&path(vec![Scalar::Str("root".into()), Scalar::Str("list".into()), Scalar::Str("0".into())]));
    assert_eq!(found, None);
    assert_eq!(runtime.stack().get(&path(vec![Scalar::Str("nope".into())])), None);
    assert_eq!(runtime.stack().get(&path(vec![])), None);
    assert!(runtime.stack().get(&path(vec![Scalar::Str("root".into())])).is_some());
}
