use liquid::parser::language::{BlockParser, TagParser};
use liquid::parser::number::parse_decimal;
use liquid::tags::assign_tag::AssignTag;
use liquid::tags::case_block::CaseBlock;
use liquid::{parse, ErrorKind, Language, Object, Renderable, Runtime, Template, Value};

fn options() -> Language {
    let mut options = Language::empty();
    options
        .blocks
        .register("case".to_string(), BlockParser::Case(CaseBlock::new()));
    options
        .tags
        .register("assign".to_string(), TagParser::Assign(AssignTag::new()));
    options
}

fn float(x: f64) -> Value {
    Value::scalar(parse_decimal(&format!("{:?}", x)).unwrap())
}

#[test]
fn test_case_block() {
    let text = "{% case x %}{% when 2 %}two{% when 3 or 4 %}three and a half{% else %}otherwise{% endcase %}";
    let options = options();
    let template = parse(text, &options).map(Template::new).unwrap();

    let mut runtime = Runtime::new();
    runtime.set_global("x".into(), float(2f64));
    assert_eq!(template.render(&mut runtime).unwrap(), "two");

    runtime.set_global("x".into(), float(3f64));
    assert_eq!(template.render(&mut runtime).unwrap(), "three and a half");

    runtime.set_global("x".into(), float(4f64));
    assert_eq!(template.render(&mut runtime).unwrap(), "three and a half");

    runtime.set_global("x".into(), Value::scalar("nope"));
    assert_eq!(template.render(&mut runtime).unwrap(), "otherwise");
}

#[test]
fn test_no_matches_returns_empty_string() {
    let text = "{% case x %}{% when 2 %}two{% when 3 or 4 %}three and a half{% endcase %}";
    let options = options();
    let template = parse(text, &options).map(Template::new).unwrap();

    let mut runtime = Runtime::new();
    runtime.set_global("x".into(), Value::scalar("nope"));
    assert_eq!(template.render(&mut runtime).unwrap(), "");
}

#[test]
fn multiple_else_blocks_is_an_error() {
    let text = "{% case x %}{% when 2 %}two{% else %}else #1{% else %}else # 2{% endcase %}";
    let options = options();
    let template = parse(text, &options).map(Template::new);
    assert!(template.is_err());
    assert_eq!(template.unwrap_err().kind, ErrorKind::DuplicateElse);
}

#[test]
fn remove_whitespaces() {
    let text = r#"
            {%- case x %}
            {% when 1 %}
                {% assign var=1 %}
            {% when 2 %}
                {% assign var=2 %}
            {% when 3 %}
                {% assign var=3 %}
            {% when 4 %}
                {% assign var=4 %}
            {% when 5 %}
                {% assign var=5 %}
            {% else %}
                {% assign var=0 %}
            {% endcase -%}
        "#;
    let options = options();
    let template = parse(text, &options).map(Template::new).unwrap();

    let mut runtime = Runtime::new();
    runtime.set_global("x".into(), Value::scalar(1));
    assert_eq!(template.render(&mut runtime).unwrap(), "");

    let text = r#"
            {%- case x %}
            {% when 1 %}
                {% case y %}
                {% when 1 %}
                    {% assign var=1 %}
                {% when 2 %}
                    {% assign var=2 %}
                {% endcase %}
            {% when 2 %}
                {% assign var=2 %}
            {% when 3 %}
                {% assign var=3 %}
            {% when 4 %}
                {% assign var=4 %}
            {% when 5 %}
                {% assign var=5 %}
            {% else %}
                 {% assign var=0 %}
            {% endcase -%}
        "#;
    let template = parse(text, &options).map(Template::new).unwrap();

    let mut runtime = Runtime::new();
    runtime.set_global("x".into(), Value::scalar(1));
    runtime.set_global("y".into(), Value::scalar(1));
    assert_eq!(template.render(&mut runtime).unwrap(), "");
}

#[test]
fn will_not_remove_whitespaces() {
    let text = r#"
            {%- case x %}
            {% when 1 %}
                {% assign var=1 %}
            {% when 2 %}
                {% assign var=2 %}
            {% when 3 %}
                {% assign var=3 %}
                single nonempty section
            {% when 4 %}
                {% assign var=4 %}
            {% when 5 %}
                {% assign var=5 %}
            {% else %}
                 {% assign var=0 %}
            {% endcase -%}
        "#;
    let options = options();
    let template = parse(text, &options).map(Template::new).unwrap();

    let mut runtime = Runtime::new();
    runtime.set_global("x".into(), Value::scalar(1));
    assert_ne!(template.render(&mut runtime).unwrap(), "");

    let text = r#"
            {%- case x %}
            {% when 1 %}
                {% case y %}
                {% when 1 %}
                    {% assign var=1 %}
                {% when 2 %}
                    {% assign var=2 %}
                {% else %}
                    single nonempty section
                {% endcase %}
            {% when 2 %}
                {% assign var=2 %}
            {% when 3 %}
                {% assign var=3 %}
            {% when 4 %}
                {% assign var=4 %}
            {% when 5 %}
                {% assign var=5 %}
            {% else %}
                 {% assign var=0 %}
            {% endcase -%}
        "#;
    let template = parse(text, &options).map(Template::new).unwrap();

    let mut runtime = Runtime::new();
    runtime.set_global("x".into(), Value::scalar(1));
    runtime.set_global("y".into(), Value::scalar(1));
    assert_ne!(template.render(&mut runtime).unwrap(), "");
}

#[test]
fn case_picks_the_first_matching_branch() {
    let text = "{% case x %}{% when 2 %}two{% when 3 or 4 %}mid{% else %}oth{% endcase %}";
    let template = parse(text, &options()).map(Template::new).unwrap();
    let mut runtime = Runtime::new();
    runtime.set_global("x".into(), Value::scalar(2));
    assert_eq!(template.render(&mut runtime).unwrap(), "two");
    runtime.set_global("x".into(), Value::scalar(4));
    assert_eq!(template.render(&mut runtime).unwrap(), "mid");
    runtime.set_global("x".into(), Value::scalar("nope"));
    assert_eq!(template.render(&mut runtime).unwrap(), "oth");
    let text = "{% case x %}{% when 1, 2 %}a{% when 2 OR 3 %}b{% endcase %}";
    let template = parse(text, &options()).map(Template::new).unwrap();
    runtime.set_global("x".into(), Value::scalar(2));
    assert_eq!(template.render(&mut runtime).unwrap(), "a");
    runtime.set_global("x".into(), Value::scalar(3));
    assert_eq!(template.render(&mut runtime).unwrap(), "b");
}

#[test]
fn case_without_match_and_else_renders_nothing() {
    let text = "{% case x %}{% when 1 %}{% when 2 %}{% endcase %}";
    let template = parse(text, &options()).map(Template::new).unwrap();
    let mut runtime = Runtime::new();
    runtime.set_global("x".into(), Value::scalar(5));
    assert_eq!(template.render(&mut runtime).unwrap(), "");
}

#[test]
fn blank_case_renders_without_whitespace() {
    let text = "{%- case x %}\n{% when 1 %}\n{% assign y=1 %}\n{% else %}\n{% assign y=0 %}\n{% endcase -%}";
    let template = parse(text, &options()).map(Template::new).unwrap();
    let mut runtime = Runtime::new();
    runtime.set_global("x".into(), Value::scalar(1));
    assert_eq!(template.render(&mut runtime).unwrap(), "");
    assert_eq!(runtime.stack().get_root("y"), Some(&Value::scalar(1)));
    assert!(template.is_blank());
    runtime.set_global("x".into(), Value::scalar(7));
    assert_eq!(template.render(&mut runtime).unwrap(), "");
    assert_eq!(runtime.stack().get_root("y"), Some(&Value::scalar(0)));
}

#[test]
fn case_parse_errors() {
    let language = options();
    let error = parse("{% case %}{% endcase %}", &language).unwrap_err();
    assert_eq!(error.message, "Value expected.");
    let error = parse("{% case x y %}{% endcase %}", &language).unwrap_err();
    assert_eq!(error.message, "Unexpected token.");
    let error = parse("{% case x %}{% when %}{% endcase %}", &language).unwrap_err();
    assert_eq!(error.message, "Value expected.");
    let error = parse("{% case x %}{% when 1 2 %}{% endcase %}", &language).unwrap_err();
    assert_eq!(error.message, "\"or\" or \",\" expected.");
    let error = parse("{% case x %}{% else 1 %}{% endcase %}", &language).unwrap_err();
    assert_eq!(error.message, "Unexpected token.");
    let error = parse("{% case x %}{% when 1 %}a", &language).unwrap_err();
    assert_eq!(error.kind, ErrorKind::UnclosedBlock);
    let error = parse("{% case x %}{% else %}a{% when 1 %}b{% endcase %}", &language).unwrap_err();
    assert_eq!(error.kind, ErrorKind::UnknownTag);
    let error = parse("{% when 1 %}", &language).unwrap_err();
    assert_eq!(error.kind, ErrorKind::UnknownTag);
    let error = parse("{% nope %}", &language).unwrap_err();
    assert_eq!(error.kind, ErrorKind::UnknownTag);
    assert_eq!(error.message, "Unknown tag nope");
}

#[test]
fn case_errors_carry_trace_and_context() {
    let mut language = options();
    language.blocks.register(
        "if".to_string(),
        BlockParser::If(liquid::tags::if_block::IfBlock::new()),
    );
    let text = "{% case x %}{% when 1 or 2 %}{% if x contains 1 %}{% endif %}{% endcase %}";
    let template = parse(text, &language).map(Template::new).unwrap();
    let mut runtime = Runtime::new();
    runtime.set_global("x".into(), Value::scalar(2));
    let error = template.render(&mut runtime).unwrap_err();
    assert_eq!(
        error.trace,
        vec![
            "{% if x contains 1 %}".to_string(),
            "{% when 1 or 2 %}".to_string(),
            "{% case x %}".to_string()
        ]
    );
    assert_eq!(error.context, vec![("x".to_string(), "2".to_string())]);
    let text = "a{% case x %}{% else %}b{% if x contains 1 %}{% endif %}{% endcase %}";
    let template = parse(text, &language).map(Template::new).unwrap();
    let mut out = String::new();
    let error = template.render_to(&mut out, &mut runtime).unwrap_err();
    assert_eq!(out, "ab");
    assert_eq!(
        error.trace,
        vec![
            "{% if x contains 1 %}".to_string(),
            "{{% else %}}".to_string(),
            "{% case x %}".to_string()
        ]
    );
}

#[test]
fn parsing_twice_gives_the_same_tree() {
    let language = Language::standard();
    let text = "a {{ x | default: 3 }} {% if x %}{% case y %}{% when 1 %}b{% endcase %}{% endif %}";
    let first = format!("{:?}", parse(text, &language).unwrap());
    let second = format!("{:?}", parse(text, &language).unwrap());
    assert_eq!(first, second);
    let first = format!("{:?}", parse("{% if %}", &language).unwrap_err());
    let second = format!("{:?}", parse("{% if %}", &language).unwrap_err());
    assert_eq!(first, second);
}

#[test]
fn outputs_and_paths() {
    let language = Language::standard();
    let mut runtime = Runtime::new();
    runtime.set_global(
        "arr".into(),
        Value::Array(vec![Value::scalar(10), Value::scalar(20), Value::scalar(30)]),
    );
    let mut obj = Object::new();
    obj.insert("b".to_string(), Value::scalar(1));
    obj.insert("a".to_string(), Value::scalar(2));
    runtime.set_global("obj".into(), Value::Object(obj));
    runtime.set_global("key".into(), Value::scalar("a"));
    let render = |text: &str, runtime: &mut Runtime| {
        parse(text, &language).map(Template::new).unwrap().render(runtime).unwrap()
    };
    assert_eq!(render("{{ arr[-1] }}", &mut runtime), "30");
    assert_eq!(render("{{ arr[0] }}{{ arr[3] }}{{ arr[-4] }}", &mut runtime), "10");
    assert_eq!(render("{{ obj }}", &mut runtime), "{\"a\"=>2, \"b\"=>1}");
    assert_eq!(render("{{ obj.a }}{{ obj[\"b\"] }}{{ obj[key] }}", &mut runtime), "212");
    assert_eq!(render("{{ obj.missing.deeper }}|{{ nope }}", &mut runtime), "|");
    assert_eq!(render("{{ arr }}", &mut runtime), "[10, 20, 30]");
    assert_eq!(render("{{ arr | size }}{{ \"héllo\" | size }}", &mut runtime), "36");
    assert_eq!(render("{{ nope | default: 'x' }}{{ 0 | default: 'x' }}", &mut runtime), "x0");
    assert_eq!(render("  a \n{{- 1 -}}\n b {{ 2 }} c", &mut runtime), "  a1b 2 c");
    assert_eq!(render("{{ 1.50 }} {{ -2 }} {{ true }} {{ nil }}|", &mut runtime), "1.5 -2 true |");
    assert_eq!(render("{{ float }}", &mut runtime), "");
    runtime.set_global("float".into(), float(0.5));
    assert_eq!(render("{{ float }}", &mut runtime), "0.5");
    let error = parse("{{ x | nope }}", &language).unwrap_err();
    assert_eq!(error.kind, ErrorKind::UnknownFilter);
    let error = parse("{{ x | size: 1 }}", &language).unwrap_err();
    assert_eq!(error.kind, ErrorKind::FilterArguments);
    let error = parse("{{ x | default }}", &language).unwrap_err();
    assert_eq!(error.kind, ErrorKind::FilterArguments);
    let error = parse("{{ x | default: a: 1 }}", &language).unwrap_err();
    assert_eq!(error.kind, ErrorKind::FilterArguments);
    let error = parse("{{ x y }}", &language).unwrap_err();
    assert_eq!(error.kind, ErrorKind::UnexpectedToken);
    let error = parse("a\nb {{ 'x }}", &language).unwrap_err();
    assert_eq!(error.kind, ErrorKind::BadToken);
    assert_eq!(liquid::parser::template::locate("a\nb {{ 'x }}", &error), Some((2, 3)));
    assert_eq!(
        liquid::parser::template::excerpt("a\nb {{ 'x }}\nc", &error),
        Some("b {{ 'x }}".to_string())
    );
}
