use dockit::binary::{binary_from_text, binary_to_text, decode_binary};
use dockit::dynamodb_utils::{
    convert_attr_value_to_json, convert_json_to_attr_value, decode_cursor, encode_cursor,
    infer_attr_value_from_json, json_to_dynamodb_key_map, parse_attr_type,
    parse_string_to_attribute_value, AttrType,
};
use dockit::json_utils;
use dockit::numeric::{int_to_text, is_decimal_text, parse_i64};
use dockit::value::{AttrValue, Json};

fn s(x: &str) -> String {
    x.to_string()
}

fn obj(entries: Vec<(&str, Json)>) -> Json {
    Json::Object(entries.into_iter().map(|(k, v)| (k.to_string(), v)).collect())
}

#[test]
fn scalar_string_round_trips() {
    let v = Json::Str(s("hello"));
    let a = convert_json_to_attr_value(&v, "S").unwrap();
    assert_eq!(a, AttrValue::S(s("hello")));
    assert_eq!(convert_attr_value_to_json(&a), v);
}

#[test]
fn scalar_bool_and_null_round_trip() {
    for b in [true, false] {
        let v = Json::Bool(b);
        let a = convert_json_to_attr_value(&v, "BOOL").unwrap();
        assert_eq!(a, AttrValue::Bool(b));
        assert_eq!(convert_attr_value_to_json(&a), v);
    }
    let a = convert_json_to_attr_value(&Json::Null, "NULL").unwrap();
    assert_eq!(a, AttrValue::Null(true));
    assert_eq!(convert_attr_value_to_json(&a), Json::Null);
}

#[test]
fn integer_numbers_round_trip() {
    for i in [0i64, 5, -5, 42, 1_000_000, i64::MAX, i64::MIN] {
        let v = Json::Int(i);
        let a = convert_json_to_attr_value(&v, "N").unwrap();
        assert_eq!(a, AttrValue::N(i.to_string()));
        assert_eq!(convert_attr_value_to_json(&a), v);
    }
}

#[test]
fn numeric_string_tagged_n_becomes_number() {
    let a = convert_json_to_attr_value(&Json::Str(s("123")), "N").unwrap();
    assert_eq!(a, AttrValue::N(s("123")));
    assert_eq!(convert_json_to_attr_value(&Json::Str(s("12a")), "N"), None);
    assert_eq!(convert_json_to_attr_value(&Json::Bool(true), "N"), None);
}

#[test]
fn mismatched_shapes_and_unknown_tags_are_absent() {
    assert_eq!(convert_json_to_attr_value(&Json::Int(1), "S"), None);
    assert_eq!(convert_json_to_attr_value(&Json::Str(s("x")), "BOOL"), None);
    assert_eq!(convert_json_to_attr_value(&Json::Str(s("x")), "SS"), None);
    assert_eq!(convert_json_to_attr_value(&Json::Str(s("x")), "X"), None);
    assert_eq!(convert_json_to_attr_value(&Json::Str(s("x")), "s"), None);
    assert_eq!(
        convert_json_to_attr_value(&Json::Int(3), "NULL"),
        Some(AttrValue::Null(true))
    );
}

#[test]
fn sets_keep_fitting_elements() {
    let arr = Json::Array(vec![Json::Str(s("a")), Json::Int(1), Json::Str(s("b"))]);
    assert_eq!(
        convert_json_to_attr_value(&arr, "SS"),
        Some(AttrValue::Ss(vec![s("a"), s("b")]))
    );
    let nums = Json::Array(vec![
        Json::Int(1),
        Json::Float(s("2.5")),
        Json::Str(s("7")),
        Json::Str(s("x")),
        Json::Null,
    ]);
    assert_eq!(
        convert_json_to_attr_value(&nums, "NS"),
        Some(AttrValue::Ns(vec![s("1"), s("2.5"), s("7")]))
    );
    let bins = Json::Array(vec![Json::Str(s("aGk=")), Json::Bool(true), Json::Str(s("!!"))]);
    assert_eq!(
        convert_json_to_attr_value(&bins, "BS"),
        Some(AttrValue::Bs(vec![b"hi".to_vec(), vec![]]))
    );
}

#[test]
fn binary_decodes_base64_and_falls_back_to_empty() {
    assert_eq!(
        convert_json_to_attr_value(&Json::Str(s("aGVsbG8=")), "B"),
        Some(AttrValue::B(b"hello".to_vec()))
    );
    assert_eq!(
        convert_json_to_attr_value(&Json::Str(s("not base64!")), "B"),
        Some(AttrValue::B(vec![]))
    );
    assert_eq!(decode_binary("not base64!"), None);
    assert_eq!(decode_binary("aGVsbG8="), Some(b"hello".to_vec()));
    assert_eq!(binary_from_text("aGk="), b"hi".to_vec());
}

#[test]
fn binary_reads_back_as_base64_text() {
    assert_eq!(binary_to_text(&b"hello".to_vec()), s("aGVsbG8="));
    assert_eq!(
        convert_attr_value_to_json(&AttrValue::B(b"hi".to_vec())),
        Json::Str(s("aGk="))
    );
    assert_eq!(
        convert_attr_value_to_json(&AttrValue::Bs(vec![b"hi".to_vec()])),
        Json::Array(vec![Json::Str(s("aGk="))])
    );
}

#[test]
fn list_and_map_tags_infer_elements() {
    let arr = Json::Array(vec![Json::Int(1), Json::Str(s("a")), Json::Null]);
    assert_eq!(
        convert_json_to_attr_value(&arr, "L"),
        Some(AttrValue::L(vec![
            AttrValue::N(s("1")),
            AttrValue::S(s("a")),
            AttrValue::Null(true)
        ]))
    );
    let o = obj(vec![("x", Json::Bool(false)), ("y", Json::Float(s("0.5")))]);
    assert_eq!(
        convert_json_to_attr_value(&o, "M"),
        Some(AttrValue::M(vec![
            (s("x"), AttrValue::Bool(false)),
            (s("y"), AttrValue::N(s("0.5")))
        ]))
    );
    assert_eq!(convert_json_to_attr_value(&arr, "M"), None);
}

#[test]
fn nested_json_round_trips_through_inference() {
    let v = obj(vec![
        ("name", Json::Str(s("widget"))),
        ("count", Json::Int(-12)),
        ("ratio", Json::Float(s("0.25"))),
        ("tags", Json::Array(vec![Json::Str(s("a")), Json::Bool(true), Json::Null])),
        (
            "nested",
            obj(vec![("deep", Json::Array(vec![obj(vec![("k", Json::Int(1))])]))]),
        ),
        ("empty", Json::Array(vec![])),
    ]);
    let a = infer_attr_value_from_json(&v);
    assert_eq!(convert_attr_value_to_json(&a), v);
    let b = json_utils::convert_json_to_attr_value(&v).unwrap();
    assert_eq!(b, a);
}

#[test]
fn numbers_read_back_by_kind() {
    assert_eq!(convert_attr_value_to_json(&AttrValue::N(s("5"))), Json::Int(5));
    assert_eq!(convert_attr_value_to_json(&AttrValue::N(s("-0"))), Json::Int(0));
    assert_eq!(
        convert_attr_value_to_json(&AttrValue::N(s("1.5"))),
        Json::Float(s("1.5"))
    );
    assert_eq!(
        convert_attr_value_to_json(&AttrValue::N(s("99999999999999999999"))),
        Json::Float(s("99999999999999999999"))
    );
    assert_eq!(
        convert_attr_value_to_json(&AttrValue::N(s("abc"))),
        Json::Str(s("abc"))
    );
    assert_eq!(
        convert_attr_value_to_json(&AttrValue::Ns(vec![s("1"), s("2.5")])),
        Json::Array(vec![Json::Int(1), Json::Float(s("2.5"))])
    );
}

#[test]
fn free_text_values_are_typed() {
    assert_eq!(parse_string_to_attribute_value("true"), AttrValue::Bool(true));
    assert_eq!(parse_string_to_attribute_value("FaLsE"), AttrValue::Bool(false));
    assert_eq!(parse_string_to_attribute_value("30"), AttrValue::N(s("30")));
    assert_eq!(parse_string_to_attribute_value("-1.5e3"), AttrValue::N(s("-1.5e3")));
    assert_eq!(parse_string_to_attribute_value("42"), AttrValue::N(s("42")));
    assert_eq!(parse_string_to_attribute_value("abc"), AttrValue::S(s("abc")));
    assert_eq!(parse_string_to_attribute_value("inf"), AttrValue::S(s("inf")));
    assert_eq!(parse_string_to_attribute_value("NaN"), AttrValue::S(s("NaN")));
    assert_eq!(parse_string_to_attribute_value(""), AttrValue::S(s("")));
}

#[test]
fn numerals_are_recognised() {
    for t in ["0", "12", "+3", "-4", "1.", ".5", "1.5e10", "2E-3", "-.5E+2"] {
        assert!(is_decimal_text(t), "{}", t);
    }
    for t in ["", ".", "-", "e5", "1e", "1.2.3", "1e+", "abc", "inf", "1_0"] {
        assert!(!is_decimal_text(t), "{}", t);
    }
    assert_eq!(parse_i64("+17"), Some(17));
    assert_eq!(parse_i64("-9223372036854775808"), Some(i64::MIN));
    assert_eq!(parse_i64("9223372036854775808"), None);
    assert_eq!(parse_i64("007"), Some(7));
    assert_eq!(parse_i64("1.0"), None);
    assert_eq!(int_to_text(-120), s("-120"));
    assert_eq!(int_to_text(i64::MIN), i64::MIN.to_string());
}

#[test]
fn tags_are_read_exactly() {
    assert_eq!(parse_attr_type("BOOL"), Some(AttrType::Bool));
    assert_eq!(parse_attr_type("NS"), Some(AttrType::Ns));
    assert_eq!(parse_attr_type("bool"), None);
}

#[test]
fn cursor_with_number_key_round_trips() {
    let last = Some(vec![(s("id"), AttrValue::N(s("5")))]);
    let cursor = encode_cursor(&last);
    assert_eq!(cursor, obj(vec![("id", Json::Int(5))]));
    assert_eq!(decode_cursor(Some(&cursor)), vec![(s("id"), AttrValue::N(s("5")))]);
}

#[test]
fn cursor_end_is_null_and_distinct_from_empty() {
    assert_eq!(encode_cursor(&None), Json::Null);
    assert_eq!(encode_cursor(&Some(vec![])), Json::Object(vec![]));
    assert_eq!(decode_cursor(Some(&Json::Null)), vec![]);
    assert_eq!(decode_cursor(None), vec![]);
}

#[test]
fn cursor_keeps_scalars_and_drops_others() {
    let entries = vec![
        (s("pk"), Json::Str(s("user#1"))),
        (s("n"), Json::Int(-3)),
        (s("f"), Json::Float(s("1.5"))),
        (s("b"), Json::Bool(true)),
        (s("x"), Json::Null),
        (s("l"), Json::Array(vec![])),
    ];
    assert_eq!(
        json_to_dynamodb_key_map(&entries),
        vec![
            (s("pk"), AttrValue::S(s("user#1"))),
            (s("n"), AttrValue::N(s("-3"))),
            (s("f"), AttrValue::N(s("1.5"))),
            (s("b"), AttrValue::Bool(true)),
        ]
    );
    let mixed = Some(vec![
        (s("pk"), AttrValue::S(s("a"))),
        (s("blob"), AttrValue::B(vec![1])),
    ]);
    assert_eq!(
        encode_cursor(&mixed),
        obj(vec![("pk", Json::Str(s("a"))), ("blob", Json::Null)])
    );
}

#[test]
fn numbers_beyond_float_range_stay_text() {
    assert_eq!(parse_string_to_attribute_value("1e400"), AttrValue::S(s("1e400")));
    assert_eq!(parse_string_to_attribute_value("-1.8e308"), AttrValue::S(s("-1.8e308")));
    assert_eq!(
        parse_string_to_attribute_value("1.7976931348623157e308"),
        AttrValue::N(s("1.7976931348623157e308"))
    );
    assert_eq!(parse_string_to_attribute_value("1e-400"), AttrValue::N(s("1e-400")));
    assert_eq!(
        parse_string_to_attribute_value("0e99999999999999999999999"),
        AttrValue::N(s("0e99999999999999999999999"))
    );
    assert_eq!(
        parse_string_to_attribute_value("0.00001e313"),
        AttrValue::N(s("0.00001e313"))
    );
    assert_eq!(
        convert_attr_value_to_json(&AttrValue::N(s("1e400"))),
        Json::Str(s("1e400"))
    );
    assert_eq!(convert_json_to_attr_value(&Json::Str(s("1e400")), "N"), None);
    assert_eq!(
        convert_attr_value_to_json(&AttrValue::N(s("1e308"))),
        Json::Float(s("1e308"))
    );
}

#[test]
fn overflow_threshold_is_exact() {
    let below = "179769313486231580793728971405303415079934132710037826936173778980444968292764750946649017977587207096330286416692887910946555547851940402630657488671505820681908902000708383676273854845817711531764475730270069855571366959622842914819860834936475292719074168444365510704342711559699508093042880177904174497791";
    let at = "179769313486231580793728971405303415079934132710037826936173778980444968292764750946649017977587207096330286416692887910946555547851940402630657488671505820681908902000708383676273854845817711531764475730270069855571366959622842914819860834936475292719074168444365510704342711559699508093042880177904174497792";
    assert!(below.parse::<f64>().unwrap().is_finite());
    assert!(at.parse::<f64>().unwrap().is_infinite());
    assert_eq!(parse_string_to_attribute_value(below), AttrValue::N(s(below)));
    assert_eq!(parse_string_to_attribute_value(at), AttrValue::S(s(at)));
    let at_scaled = "1.79769313486231580793728971405303415079934132710037826936173778980444968292764750946649017977587207096330286416692887910946555547851940402630657488671505820681908902000708383676273854845817711531764475730270069855571366959622842914819860834936475292719074168444365510704342711559699508093042880177904174497792e308";
    assert_eq!(parse_string_to_attribute_value(at_scaled), AttrValue::S(s(at_scaled)));
}

#[test]
fn binary_round_trips_through_the_b_tag() {
    let b = AttrValue::B(vec![1, 2, 3]);
    let j = convert_attr_value_to_json(&b);
    assert_eq!(j, Json::Str(s("AQID")));
    assert_eq!(convert_json_to_attr_value(&j, "B"), Some(b));
}
