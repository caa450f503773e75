use liquid::parser::number::parse_decimal;
use liquid::tags::condition::{contains_check, ComparisonOperator};
use liquid::{
    parse, ErrorKind, Language, Object, Renderable, Runtime, Template, Value, ValueView,
};

fn options() -> Language {
    let mut options = Language::empty();
    options
        .blocks
        .register("if".to_string(), liquid::parser::language::BlockParser::If(liquid::tags::if_block::IfBlock::new()));
    options.blocks.register(
        "unless".to_string(),
        liquid::parser::language::BlockParser::Unless(liquid::tags::if_block::UnlessBlock::new()),
    );
    options
}

fn float(x: f64) -> Value {
    Value::scalar(parse_decimal(&format!("{:?}", x)).unwrap())
}

fn template(text: &str) -> Template {
    parse(text, &options()).map(Template::new).unwrap()
}

#[test]
fn number_comparison() {
    let text = "{% if 6 < 7  %}if true{% endif %}";
    let template = parse(text, &options()).map(Template::new).unwrap();

    let mut context = Runtime::new();
    let output = template.render(&mut context).unwrap();
    assert_eq!(output, "if true");

    let text = "{% if 7 < 6  %}if true{% else %}if false{% endif %}";
    let template = parse(text, &options()).map(Template::new).unwrap();

    let mut context = Runtime::new();
    let output = template.render(&mut context).unwrap();
    assert_eq!(output, "if false");
}

#[test]
fn string_comparison() {
    let text = r#"{% if "one" == "one"  %}if true{% endif %}"#;
    let template = parse(text, &options()).map(Template::new).unwrap();

    let mut context = Runtime::new();
    let output = template.render(&mut context).unwrap();
    assert_eq!(output, "if true");

    let text = r#"{% if "one" == "two"  %}if true{% else %}if false{% endif %}"#;
    let template = parse(text, &options()).map(Template::new).unwrap();

    let mut context = Runtime::new();
    let output = template.render(&mut context).unwrap();
    assert_eq!(output, "if false");
}

#[test]
fn implicit_comparison() {
    let text = "{% if truthy %}yep{% else %}nope{% endif %}";

    let template = parse(text, &options()).map(Template::new).unwrap();

    // Non-existence
    let mut context = Runtime::new();
    let output = template.render(&mut context).unwrap();
    assert_eq!(output, "nope");

    // Explicit nil
    let mut context = Runtime::new();
    context.set_global("truthy".to_string(), Value::Nil);
    let output = template.render(&mut context).unwrap();
    assert_eq!(output, "nope");

    // false
    let mut context = Runtime::new();
    context.set_global("truthy".to_string(), Value::scalar(false));
    let output = template.render(&mut context).unwrap();
    assert_eq!(output, "nope");

    // true
    let mut context = Runtime::new();
    context.set_global("truthy".to_string(), Value::scalar(true));
    let output = template.render(&mut context).unwrap();
    assert_eq!(output, "yep");
}

#[test]
fn unless() {
    let text = "{% unless some_value == 1 %}unless body{% endunless %}";

    let template = parse(text, &options()).map(Template::new).unwrap();

    let mut context = Runtime::new();
    context.set_global("some_value".to_string(), float(1f64));
    let output = template.render(&mut context).unwrap();
    assert_eq!(output, "");

    let mut context = Runtime::new();
    context.set_global("some_value".to_string(), float(42f64));
    let output = template.render(&mut context).unwrap();
    assert_eq!(output, "unless body");
}

#[test]
fn nested_if_else() {
    let text = "{% if truthy %}yep, {% if also_truthy %}also truthy{% else %}not also truthy{% endif %}{% else %}nope{% endif %}";
    let template = parse(text, &options()).map(Template::new).unwrap();

    let mut context = Runtime::new();
    context.set_global("truthy".to_string(), Value::scalar(true));
    context.set_global("also_truthy".to_string(), Value::scalar(false));
    let output = template.render(&mut context).unwrap();
    assert_eq!(output, "yep, not also truthy");
}

#[test]
fn multiple_elif_blocks() {
    let text = "{% if a == 1 %}first{% elsif a == 2 %}second{% elsif a == 3 %}third{% else %}fourth{% endif %}";

    let template = parse(text, &options()).map(Template::new).unwrap();

    let mut context = Runtime::new();
    context.set_global("a".to_string(), float(1f64));
    let output = template.render(&mut context).unwrap();
    assert_eq!(output, "first");

    let mut context = Runtime::new();
    context.set_global("a".to_string(), float(2f64));
    let output = template.render(&mut context).unwrap();
    assert_eq!(output, "second");

    let mut context = Runtime::new();
    context.set_global("a".to_string(), float(3f64));
    let output = template.render(&mut context).unwrap();
    assert_eq!(output, "third");

    let mut context = Runtime::new();
    context.set_global("a".to_string(), Value::scalar("else"));
    let output = template.render(&mut context).unwrap();
    assert_eq!(output, "fourth");
}

#[test]
fn string_contains_with_literals() {
    let text = "{% if \"Star Wars\" contains \"Star\" %}if true{% endif %}";
    let template = parse(text, &options()).map(Template::new).unwrap();

    let mut context = Runtime::new();
    let output = template.render(&mut context).unwrap();
    assert_eq!(output, "if true");

    let text = "{% if \"Star Wars\" contains \"Alf\"  %}if true{% else %}if false{% endif %}";
    let template = parse(text, &options()).map(Template::new).unwrap();

    let mut context = Runtime::new();
    let output = template.render(&mut context).unwrap();
    assert_eq!(output, "if false");
}

#[test]
fn string_contains_with_variables() {
    let text = "{% if movie contains \"Star\"  %}if true{% endif %}";
    let template = parse(text, &options()).map(Template::new).unwrap();

    let mut context = Runtime::new();
    context.set_global("movie".to_string(), Value::scalar("Star Wars"));
    let output = template.render(&mut context).unwrap();
    assert_eq!(output, "if true");

    let text = "{% if movie contains \"Star\"  %}if true{% else %}if false{% endif %}";
    let template = parse(text, &options()).map(Template::new).unwrap();

    let mut context = Runtime::new();
    context.set_global("movie".to_string(), Value::scalar("Batman"));
    let output = template.render(&mut context).unwrap();
    assert_eq!(output, "if false");
}

#[test]
fn contains_with_object_and_key() {
    let text = "{% if movies contains \"Star Wars\" %}if true{% endif %}";
    let template = parse(text, &options()).map(Template::new).unwrap();

    let mut context = Runtime::new();
    let mut obj = Object::new();
    obj.insert("Star Wars".into(), Value::scalar("1977"));
    context.set_global("movies".to_string(), Value::Object(obj));
    let output = template.render(&mut context).unwrap();
    assert_eq!(output, "if true");
}

#[test]
fn contains_with_object_and_missing_key() {
    let text = "{% if movies contains \"Star Wars\" %}if true{% else %}if false{% endif %}";
    let template = parse(text, &options()).map(Template::new).unwrap();

    let mut context = Runtime::new();
    let obj = Object::new();
    context.set_global("movies".to_string(), Value::Object(obj));
    let output = template.render(&mut context).unwrap();
    assert_eq!(output, "if false");
}

#[test]
fn contains_with_array_and_match() {
    let text = "{% if movies contains \"Star Wars\" %}if true{% endif %}";
    let template = parse(text, &options()).map(Template::new).unwrap();

    let mut context = Runtime::new();
    let arr = vec![
        Value::scalar("Star Wars"),
        Value::scalar("Star Trek"),
        Value::scalar("Alien"),
    ];
    context.set_global("movies".to_string(), Value::Array(arr));
    let output = template.render(&mut context).unwrap();
    assert_eq!(output, "if true");
}

#[test]
fn contains_with_array_and_no_match() {
    let text = "{% if movies contains \"Star Wars\" %}if true{% else %}if false{% endif %}";
    let template = parse(text, &options()).map(Template::new).unwrap();

    let mut context = Runtime::new();
    let arr = vec![Value::scalar("Alien")];
    context.set_global("movies".to_string(), Value::Array(arr));
    let output = template.render(&mut context).unwrap();
    assert_eq!(output, "if false");
}

#[test]
fn multiple_conditions_and() {
    let text = "{% if 1 == 1 and 2 == 2 %}if true{% else %}if false{% endif %}";
    let template = parse(text, &options()).map(Template::new).unwrap();

    let mut context = Runtime::new();
    let output = template.render(&mut context).unwrap();
    assert_eq!(output, "if true");

    let text = "{% if 1 == 1 and 2 != 2 %}if true{% else %}if false{% endif %}";
    let template = parse(text, &options()).map(Template::new).unwrap();

    let mut context = Runtime::new();
    let output = template.render(&mut context).unwrap();
    assert_eq!(output, "if false");
}

#[test]
fn multiple_conditions_or() {
    let text = "{% if 1 == 1 or 2 != 2 %}if true{% else %}if false{% endif %}";
    let template = parse(text, &options()).map(Template::new).unwrap();

    let mut context = Runtime::new();
    let output = template.render(&mut context).unwrap();
    assert_eq!(output, "if true");

    let text = "{% if 1 != 1 or 2 != 2 %}if true{% else %}if false{% endif %}";
    let template = parse(text, &options()).map(Template::new).unwrap();

    let mut context = Runtime::new();
    let output = template.render(&mut context).unwrap();
    assert_eq!(output, "if false");
}

#[test]
fn multiple_conditions_and_or() {
    let text = "{% if 1 == 1 or 2 == 2 and 3 != 3 %}if true{% else %}if false{% endif %}";
    let template = parse(text, &options()).map(Template::new).unwrap();

    let mut context = Runtime::new();
    let output = template.render(&mut context).unwrap();
    assert_eq!(output, "if true");
}

#[test]
fn and_binds_tighter_than_or() {
    let output = template("{% if true or false and false %}T{% else %}F{% endif %}")
        .render(&mut Runtime::new())
        .unwrap();
    assert_eq!(output, "T");
    let output = template("{% if false and false or true %}T{% else %}F{% endif %}")
        .render(&mut Runtime::new())
        .unwrap();
    assert_eq!(output, "T");
    let output = template("{% if false or true and false %}T{% else %}F{% endif %}")
        .render(&mut Runtime::new())
        .unwrap();
    assert_eq!(output, "F");
}

#[test]
fn contains_scenarios() {
    let output = template("{% if \"Star Wars\" contains \"Star\" %}Y{% endif %}")
        .render(&mut Runtime::new())
        .unwrap();
    assert_eq!(output, "Y");
    let mut runtime = Runtime::new();
    runtime.set_global("movies".to_string(), Value::Array(vec![Value::scalar("Alien")]));
    let output = template("{% if movies contains \"Star Wars\" %}Y{% endif %}")
        .render(&mut runtime)
        .unwrap();
    assert_eq!(output, "");
}

#[test]
fn contains_is_reflexive() {
    let items = vec![
        Value::Nil,
        Value::scalar(1),
        float(2.5),
        Value::scalar("x"),
        Value::Array(vec![Value::scalar(false)]),
        Value::Object(Object::new()),
    ];
    let array = items.to_value();
    for item in &items {
        assert_eq!(contains_check(&array, item).unwrap(), true);
    }
    for text in ["", "a", "Star Wars"] {
        let s = Value::scalar(text);
        assert_eq!(contains_check(&s, &s).unwrap(), true);
    }
    assert_eq!(
        contains_check(&Value::scalar("abc"), &Value::scalar("bd")).unwrap(),
        false
    );
    assert_eq!(
        contains_check(&Value::scalar("a1b"), &Value::scalar(1)).unwrap(),
        true
    );
}

#[test]
fn contains_refuses_other_kinds() {
    for left in [Value::Nil, Value::scalar(12), Value::scalar(true)] {
        let error = contains_check(&left, &Value::scalar("1")).unwrap_err();
        assert_eq!(error.kind, ErrorKind::UnexpectedValue);
    }
    let error = contains_check(&Value::Nil, &Value::scalar("1")).unwrap_err();
    assert_eq!(error.message, "Expected string | array | object, found `nil`");
    let error = template("{% if 1 contains 1 %}x{% endif %}")
        .render(&mut Runtime::new())
        .unwrap_err();
    assert_eq!(error.kind, ErrorKind::UnexpectedValue);
    assert_eq!(error.trace, vec!["{% if 1 contains 1 %}".to_string()]);
}

#[test]
fn comparison_operators_from_text() {
    assert_eq!(ComparisonOperator::from_str("=="), Ok(ComparisonOperator::Equals));
    assert_eq!(ComparisonOperator::from_str("!="), Ok(ComparisonOperator::NotEquals));
    assert_eq!(ComparisonOperator::from_str("<>"), Ok(ComparisonOperator::NotEquals));
    assert_eq!(ComparisonOperator::from_str("<"), Ok(ComparisonOperator::LessThan));
    assert_eq!(ComparisonOperator::from_str(">"), Ok(ComparisonOperator::GreaterThan));
    assert_eq!(ComparisonOperator::from_str("<="), Ok(ComparisonOperator::LessThanEquals));
    assert_eq!(ComparisonOperator::from_str(">="), Ok(ComparisonOperator::GreaterThanEquals));
    assert_eq!(ComparisonOperator::from_str("contains"), Ok(ComparisonOperator::Contains));
    assert_eq!(ComparisonOperator::from_str("="), Err(()));
    assert_eq!(ComparisonOperator::from_str(""), Err(()));
    assert_eq!(ComparisonOperator::Contains.as_str(), "contains");
}

#[test]
fn comparisons_of_unordered_values_are_false() {
    for op in ["<", ">", "<=", ">="] {
        let text = format!("{{% if \"a\" {} 1 %}}T{{% else %}}F{{% endif %}}", op);
        assert_eq!(template(&text).render(&mut Runtime::new()).unwrap(), "F");
        let text = format!("{{% if x {} y %}}T{{% else %}}F{{% endif %}}", op);
        let mut runtime = Runtime::new();
        runtime.set_global("x".to_string(), Value::Array(vec![]));
        runtime.set_global("y".to_string(), Value::scalar(true));
        assert_eq!(template(&text).render(&mut runtime).unwrap(), "F");
    }
    let output = template("{% if 1 <> 2 %}T{% endif %}{% if 2 >= 2.0 %}U{% endif %}{% if \"a\" < \"b\" %}V{% endif %}")
        .render(&mut Runtime::new())
        .unwrap();
    assert_eq!(output, "TUV");
}

#[test]
fn if_parse_errors() {
    let language = options();
    let error = parse("{% if true %}x", &language).unwrap_err();
    assert_eq!(error.kind, ErrorKind::UnclosedBlock);
    let error = parse("x{% endif %}", &language).unwrap_err();
    assert_eq!(error.kind, ErrorKind::UnknownTag);
    assert_eq!(error.offset, 1);
    let error = parse("{% if a %}x{% else %}y{% else %}z{% endif %}", &language).unwrap_err();
    assert_eq!(error.kind, ErrorKind::DuplicateElse);
    let error = parse("{% if a b %}x{% endif %}", &language).unwrap_err();
    assert_eq!(error.kind, ErrorKind::UnexpectedToken);
    assert_eq!(error.message, "\"and\" or \"or\" expected.");
    let error = parse("{% if %}x{% endif %}", &language).unwrap_err();
    assert_eq!(error.message, "Value expected.");
    let error = parse("{% unless a %}x{% elsif b %}y{% endunless %}", &language).unwrap_err();
    assert_eq!(error.kind, ErrorKind::UnknownTag);
    let error = parse("{% if a %}x{% endunless %}", &language).unwrap_err();
    assert_eq!(error.kind, ErrorKind::UnknownTag);
    let error = parse("{% if a", &language).unwrap_err();
    assert_eq!(error.kind, ErrorKind::Unterminated);
    let error = parse("{% if a # b %}{% endif %}", &language).unwrap_err();
    assert_eq!(error.kind, ErrorKind::BadToken);
    let error = parse("{% if 99999999999999999999 %}{% endif %}", &language).unwrap_err();
    assert_eq!(error.kind, ErrorKind::BadToken);
}

#[test]
fn strict_lookup_reports_unknown_variables() {
    let t = template("{% if a.b == 1 %}x{% endif %}");
    let mut runtime = Runtime::with_globals(Object::new(), true);
    let error = t.render(&mut runtime).unwrap_err();
    assert_eq!(error.kind, ErrorKind::UnknownVariable);
    assert_eq!(error.message, "Unknown variable a[\"b\"]");
    assert_eq!(error.trace, vec!["{% if a[\"b\"] == 1 %}".to_string()]);
    let mut runtime = Runtime::new();
    assert_eq!(t.render(&mut runtime).unwrap(), "");
}

#[test]
fn empty_and_blank_are_states() {
    let mut runtime = Runtime::new();
    runtime.set_global("s".to_string(), Value::scalar(""));
    runtime.set_global("w".to_string(), Value::scalar(" \n"));
    runtime.set_global("a".to_string(), Value::Array(vec![]));
    runtime.set_global("f".to_string(), Value::Array(vec![Value::Nil]));
    let render = |text: &str, runtime: &mut Runtime| template(text).render(runtime).unwrap();
    assert_eq!(render("{% if s == empty %}T{% else %}F{% endif %}", &mut runtime), "T");
    assert_eq!(render("{% if empty == a %}T{% else %}F{% endif %}", &mut runtime), "T");
    assert_eq!(render("{% if f == empty %}T{% else %}F{% endif %}", &mut runtime), "F");
    assert_eq!(render("{% if f != empty %}T{% else %}F{% endif %}", &mut runtime), "T");
    assert_eq!(render("{% if w == empty %}T{% else %}F{% endif %}", &mut runtime), "F");
    assert_eq!(render("{% if w == blank %}T{% else %}F{% endif %}", &mut runtime), "T");
    assert_eq!(render("{% if missing == blank %}T{% else %}F{% endif %}", &mut runtime), "T");
    assert_eq!(render("{% if 1 == blank %}T{% else %}F{% endif %}", &mut runtime), "F");
    assert_eq!(render("{% if empty %}T{% else %}F{% endif %}", &mut runtime), "F");
    assert_eq!(render("{% if s < empty %}T{% else %}F{% endif %}", &mut runtime), "F");
    let mut strict = Runtime::with_globals(Object::new(), true);
    assert_eq!(render("{% if \"\" == empty %}T{% endif %}", &mut strict), "T");
}

#[test]
fn frames_shadow_and_are_dropped() {
    let mut runtime = Runtime::new();
    runtime.set_global("x".to_string(), Value::scalar(1));
    runtime.stack.push_frame();
    runtime.stack.set("x".to_string(), Value::scalar(2));
    runtime.stack.set("y".to_string(), Value::scalar(3));
    assert_eq!(runtime.stack().get_root("x"), Some(&Value::scalar(2)));
    assert_eq!(template("{{ x }}{{ y }}").render(&mut runtime).unwrap(), "23");
    runtime.stack.push_frame();
    assert_eq!(runtime.stack().get_root("y"), Some(&Value::scalar(3)));
    runtime.stack.pop_frame();
    runtime.stack.pop_frame();
    assert_eq!(runtime.stack().get_root("x"), Some(&Value::scalar(1)));
    assert_eq!(runtime.stack().get_root("y"), None);
    runtime.stack.pop_frame();
    runtime.stack.set("z".to_string(), Value::scalar(4));
    assert_eq!(runtime.stack().get_root("z"), Some(&Value::scalar(4)));
}
