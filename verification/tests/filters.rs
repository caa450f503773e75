use liquid::filters::standard::{FilterArguments, Size};
use liquid::parser::number::parse_decimal;
use liquid::runtime::expression::Expression;
use liquid::{Object, Runtime, Value, ValueView};

fn float(x: f64) -> Value {
    Value::scalar(parse_decimal(&format!("{:?}", x)).unwrap())
}

fn tos(text: &str) -> Value {
    Value::scalar(text.to_owned())
}

fn arguments(positional: Vec<Value>) -> FilterArguments {
    FilterArguments {
        positional: positional.into_iter().map(Expression::Literal).collect(),
        keyword: Vec::new(),
    }
}

fn size(input: Value) -> Value {
    let context = Runtime::new();
    let filter = Size.parse(arguments(vec![]), 0).unwrap();
    filter.evaluate(&input, &context).unwrap()
}

fn default(input: Value, fallback: Value) -> Value {
    let context = Runtime::new();
    let filter = liquid::filters::standard::Default.parse(arguments(vec![fallback]), 0).unwrap();
    filter.evaluate(&input, &context).unwrap()
}

#[test]
fn unit_size() {
    assert_eq!(size(tos("abc")), float(3f64));
    assert_eq!(size(tos("this has 22 characters")), float(22f64));
    assert_eq!(
        size(Value::Array(vec![
            float(0f64),
            float(1f64),
            float(2f64),
            float(3f64),
            float(4f64),
        ])),
        float(5f64)
    );
}

#[test]
fn unit_default() {
    assert_eq!(default(tos(""), tos("bar")), tos("bar"));
    assert_eq!(default(tos("foo"), tos("bar")), tos("foo"));
    assert_eq!(default(float(0_f64), tos("bar")), float(0_f64));
    assert_eq!(default(Value::Array(vec![]), float(1_f64)), float(1_f64));
    assert_eq!(
        default(Value::Array(vec![tos("")]), float(1_f64)),
        Value::Array(vec![tos("")])
    );
    assert_eq!(default(Value::Object(Object::new()), float(1_f64)), float(1_f64));
    assert_eq!(default(Value::scalar(false), float(1_f64)), float(1_f64));
    assert_eq!(default(Value::scalar(true), float(1_f64)), Value::scalar(true));
}

#[test]
fn size_of_other_values() {
    assert_eq!(size(Value::Nil), Value::scalar(0));
    assert_eq!(size(Value::scalar(12345)), Value::scalar(5));
    assert_eq!(size(tos("é")), Value::scalar(2));
    let mut obj = Object::new();
    obj.insert("a".to_string(), Value::Nil);
    assert_eq!(size(Value::Object(obj)), Value::scalar(1));
    assert_eq!(default(Value::Nil, Value::scalar(1)).render(), "1");
    assert!(Size.parse(arguments(vec![Value::Nil]), 0).is_err());
    assert!(liquid::filters::standard::Default.parse(arguments(vec![]), 0).is_err());
    assert!(liquid::filters::standard::Default.parse(arguments(vec![Value::Nil, Value::Nil]), 0).is_err());
    assert_eq!(Size.name(), "size");
    assert_eq!(liquid::filters::standard::Default.name(), "default");
}
