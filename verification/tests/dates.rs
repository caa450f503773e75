use liquid::model::date_parse::{plan_date_parse, DateRequest};
use liquid::model::datetime::Parts;
use liquid::model::liquid_drop::{DropWrapper, NullDrop};
use liquid::{Date, DateTime, ObjectIndex, ObjectView, State, ValueView};

fn parts(year: i32, month: u8, day: u8, hour: u8, offset: i32) -> Parts {
    Parts { year, month, day, hour, minute: 0, second: 0, nanosecond: 0, offset }
}

#[test]
fn parse_date_time_empty_is_bad() {
    let input = "";
    let actual = plan_date_parse(input);
    assert!(actual.is_none());
}

#[test]
fn parse_date_time_now() {
    let input = "now";
    let actual = plan_date_parse(input);
    assert!(matches!(actual, Some(DateRequest::Now)));
}

#[test]
fn parse_date_time_today() {
    let input = "today";
    let actual = plan_date_parse(input);
    assert!(matches!(actual, Some(DateRequest::Now)));

    let input = "Today";
    let actual = plan_date_parse(input);
    assert!(matches!(actual, Some(DateRequest::Now)));
}

#[test]
fn date_text_is_classified() {
    assert!(matches!(plan_date_parse("  NOW\n"), Some(DateRequest::Now)));
    assert!(matches!(plan_date_parse("nowadays"), Some(DateRequest::Text(_))));
    assert!(matches!(plan_date_parse("946702800"), Some(DateRequest::Unix(946702800))));
    assert!(matches!(plan_date_parse("4102462799"), Some(DateRequest::Unix(4102462799))));
    assert!(matches!(plan_date_parse("946702799"), Some(DateRequest::Text(t)) if t == "946702799 +0000"));
    assert!(matches!(plan_date_parse("4102462800"), Some(DateRequest::Text(t)) if t == "4102462800 +0000"));
    assert!(
        matches!(plan_date_parse("2016-02-16 10:00:00 +0100"), Some(DateRequest::Text(t)) if t == "2016-02-16 10:00:00 +0100")
    );
    assert!(
        matches!(plan_date_parse("2016-02-16 10:00:00"), Some(DateRequest::Text(t)) if t == "2016-02-16 10:00:00 +0000")
    );
    assert!(
        matches!(plan_date_parse("Tue Feb 16 10:00:00 2016 -0930"), Some(DateRequest::Text(t)) if t == "Tue Feb 16 10:00:00 2016 -0930")
    );
    assert!(matches!(plan_date_parse("aaaaa"), Some(DateRequest::Text(t)) if t == "aaaaa +0000"));
}

#[test]
fn only_an_offset_at_the_end_counts() {
    assert!(matches!(plan_date_parse("x +2100"), Some(DateRequest::Text(t)) if t == "x +2100 +0000"));
    assert!(matches!(plan_date_parse("+0100 x"), Some(DateRequest::Text(t)) if t == "+0100 x +0000"));
    assert!(matches!(plan_date_parse("x +0100"), Some(DateRequest::Text(t)) if t == "x +0100"));
    assert!(matches!(plan_date_parse("x -1959"), Some(DateRequest::Text(t)) if t == "x -1959"));
    assert!(matches!(plan_date_parse("x +010"), Some(DateRequest::Text(t)) if t == "x +010 +0000"));
}

#[test]
fn parsed_fields_swap_month_and_day() {
    let t = DateTime::from_parsed_fields(parts(2016, 16, 2, 10, 3600)).unwrap();
    assert_eq!((t.year(), t.month(), t.day(), t.hour()), (2016, 2, 16, 10));
    assert_eq!(t.offset_seconds(), 3600);
    let t = DateTime::from_parsed_fields(parts(2016, 2, 16, 10, 0)).unwrap();
    assert_eq!((t.month(), t.day()), (2, 16));
    assert!(DateTime::from_parsed_fields(parts(2016, 13, 13, 10, 0)).is_none());
    assert!(DateTime::from_parsed_fields(parts(2016, 2, 30, 10, 0)).is_none());
    assert!(DateTime::from_fields(parts(2016, 16, 2, 10, 0)).is_none());
    assert_eq!(t.fields().day, 16);
}

#[test]
fn date_times_move_between_offsets() {
    let t = DateTime::from_fields(parts(2016, 2, 16, 10, 3600)).unwrap();
    assert_eq!(t.instant(), Some(1455613200i128 * 1_000_000_000));
    let utc = t.with_offset(0).unwrap();
    assert_eq!(utc.render(), "2016-02-16 09:00:00 +0000");
    assert_eq!(utc.instant(), t.instant());
    let far = t.with_offset(-10 * 3600).unwrap();
    assert_eq!(far.render(), "2016-02-15 23:00:00 -1000");
    assert!(t.with_offset(100_000).is_none());
    let t = DateTime::from_unix_timestamp(1455613200, 3600).unwrap();
    assert_eq!(t.render(), "2016-02-16 10:00:00 +0100");
    let t = DateTime::from_unix_timestamp(0, 0).unwrap();
    assert_eq!(t.render(), DateTime::default().render());
    assert!(DateTime::from_unix_timestamp(i64::MAX, 0).is_none());
    assert_eq!(t.with_date(Date::from_ymd(2000, 2, 29)).render(), "2000-02-29 00:00:00 +0000");
    assert_eq!(t.date().render(), "1970-01-01");
}

#[test]
fn calendar_numbers() {
    let t = DateTime::from_ymd(2016, 2, 16);
    assert_eq!(t.ordinal(), Some(47));
    assert_eq!(t.iso_week(), Some(7));
    assert_eq!(DateTime::from_ymd(2020, 12, 31).ordinal(), Some(366));
    assert_eq!(DateTime::from_ymd(2021, 1, 3).iso_week(), Some(53));
    let t = DateTime::from_fields(Parts {
        year: 2003,
        month: 7,
        day: 1,
        hour: 10,
        minute: 52,
        second: 37,
        nanosecond: 0,
        offset: 7200,
    })
    .unwrap();
    assert_eq!(t.to_rfc2822(), Some("Tue, 01 Jul 2003 10:52:37 +0200".to_string()));
}

#[test]
fn now_is_a_valid_moment() {
    let now = DateTime::now();
    assert_eq!(now.offset_seconds(), 0);
    assert!(now.year() >= 2024);
    let local = DateTime::now_local();
    let a = now.instant().unwrap();
    let b = local.instant().unwrap();
    assert!(b >= a && b - a < 60_000_000_000);
    let text = now.render();
    assert!(matches!(plan_date_parse(&text), Some(DateRequest::Text(t)) if t == text));
}

#[test]
fn drops_offer_the_view_of_an_object() {
    let wrapper = DropWrapper::new(std::sync::Arc::new(NullDrop));
    assert_eq!(wrapper.render(), "{}");
    assert_eq!(wrapper.kind_name(), "object");
    assert_eq!(wrapper.size(), 0);
    assert!(wrapper.keys().is_empty());
    assert!(wrapper.values().is_empty());
    assert!(wrapper.iter().is_empty());
    assert!(!wrapper.contains_key("a"));
    assert!(wrapper.get("a").is_none());
    assert!(wrapper.is_object());
    assert!(wrapper.query_state(State::Truthy));
    assert_eq!(wrapper.to_value().render(), "{}");
    assert_eq!(wrapper.to_kstr().as_str(), "{}");
    assert_eq!(wrapper.to_kstr().as_index(), "{}");
    assert_eq!("key".to_string().as_index(), "key");
}

#[test]
fn a_drop_is_made_of_an_object() {
    use_drop_errors();
}

fn use_drop_errors() {
    let error = liquid::model::liquid_drop::to_ldrop(liquid::Value::scalar(1)).unwrap_err();
    assert_eq!(error.message, "DropObj cannot be a scalar.");
    let error = liquid::model::liquid_drop::to_ldrop(liquid::Value::Array(vec![])).unwrap_err();
    assert_eq!(error.message, "DropObj cannot be an array.");
    let error = liquid::model::liquid_drop::to_ldrop(liquid::Value::Nil).unwrap_err();
    assert_eq!(error.kind, liquid::ErrorKind::NotAnObject);
    let mut object = liquid::Object::new();
    object.insert("a".to_string(), liquid::Value::Nil);
    let made = liquid::model::liquid_drop::to_ldrop(liquid::Value::Object(object)).unwrap();
    assert_eq!(made.render(), "{\"a\"=>nil}");
    assert_eq!(liquid::model::liquid_drop::object_cannot_be_a_scalar().offset, 0);
    assert_eq!(liquid::model::liquid_drop::object_cannot_be_an_array().trace.len(), 0);
}
