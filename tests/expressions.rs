use dockit::dynamo::query_table::{plan_query, QueryTableInput};
use dockit::dynamo::scan_table::{plan_scan, ScanTableInput};
use dockit::expression::{
    build_filter_expression, build_update_expression, numbered, parse_filter_op, read_filter,
    FilterOp,
};
use dockit::value::{AttrValue, Json};

fn s(x: &str) -> String {
    x.to_string()
}

fn obj(entries: Vec<(&str, Json)>) -> Json {
    Json::Object(entries.into_iter().map(|(k, v)| (k.to_string(), v)).collect())
}

fn filter(key: &str, op: &str, value: &str) -> Json {
    obj(vec![
        ("key", Json::Str(s(key))),
        ("operator", Json::Str(s(op))),
        ("value", Json::Str(s(value))),
    ])
}

fn key(name: &str, value: &str) -> Json {
    obj(vec![("name", Json::Str(s(name))), ("value", Json::Str(s(value)))])
}

#[test]
fn every_operator_has_its_fragment() {
    let cases = [
        ("=", "#a = :v"),
        ("!=", "#a <> :v"),
        (">", "#a > :v"),
        (">=", "#a >= :v"),
        ("<", "#a < :v"),
        ("<=", "#a <= :v"),
        ("CONTAINS", "contains(#a, :v)"),
        ("contains", "contains(#a, :v)"),
        ("not contains", "not contains(#a, :v)"),
        ("BEGINS_WITH", "begins_with(#a, :v)"),
        ("begins_with", "begins_with(#a, :v)"),
        ("attribute_exists", "attribute_exists(#a)"),
        ("attribute_not_exists", "attribute_not_exists(#a)"),
    ];
    for (op, expected) in cases {
        assert_eq!(build_filter_expression("#a", ":v", op), s(expected), "{}", op);
    }
}

#[test]
fn unrecognized_operator_falls_back_to_equality() {
    assert_eq!(parse_filter_op("~~"), FilterOp::Unrecognized);
    assert_eq!(build_filter_expression("#a", ":v", "~~"), s("#a = :v"));
    assert_eq!(build_filter_expression("#a", ":v", ""), s("#a = :v"));
    assert_eq!(parse_filter_op("Contains"), FilterOp::Contains);
}

#[test]
fn query_placeholders_are_allocated_in_order() {
    let payload = obj(vec![
        ("partition_key", key("pk", "user1")),
        ("sort_key", key("sk", "s1")),
        (
            "filters",
            Json::Array(vec![filter("a", "=", "x"), filter("b", "contains", "y")]),
        ),
        ("limit", Json::Int(10)),
    ]);
    let q = plan_query(QueryTableInput { table_name: "t", payload: &payload }).ok().unwrap();
    assert_eq!(
        q.names,
        vec![
            (s("#attr0"), s("pk")),
            (s("#attr1"), s("sk")),
            (s("#attr2"), s("a")),
            (s("#attr3"), s("b")),
        ]
    );
    let value_names: Vec<String> = q.values.iter().map(|(k, _)| k.clone()).collect();
    assert_eq!(value_names, vec![s(":pkey"), s(":skey"), s(":filter0"), s(":filter1")]);
    assert_eq!(q.values[0].1, AttrValue::S(s("user1")));
    assert_eq!(q.values[1].1, AttrValue::S(s("s1")));
    assert_eq!(q.key_condition_expression, s("#attr0 = :pkey AND #attr1 = :skey"));
    assert_eq!(
        q.filter_expression,
        Some(s("#attr2 = :filter0 AND contains(#attr3, :filter1)"))
    );
    assert_eq!(q.limit, 10);
    assert_eq!(q.table_name, s("t"));
}

#[test]
fn query_without_sort_key_or_filters() {
    let payload = obj(vec![("partition_key", key("id", "7")), ("limit", Json::Int(5))]);
    let q = plan_query(QueryTableInput { table_name: "t", payload: &payload }).ok().unwrap();
    assert_eq!(q.key_condition_expression, s("#attr0 = :pkey"));
    assert_eq!(q.names, vec![(s("#attr0"), s("id"))]);
    assert_eq!(q.filter_expression, None);
    assert_eq!(q.index_name, None);
}

#[test]
fn query_rejects_missing_fields() {
    let no_pk = obj(vec![("limit", Json::Int(5))]);
    let r = plan_query(QueryTableInput { table_name: "t", payload: &no_pk });
    assert_eq!(r.err().unwrap().status, 400);
    let no_limit = obj(vec![("partition_key", key("id", "7"))]);
    let r = plan_query(QueryTableInput { table_name: "t", payload: &no_limit });
    assert_eq!(r.err().unwrap().status, 400);
    let bad_sk = obj(vec![
        ("partition_key", key("id", "7")),
        ("sort_key", Json::Str(s("oops"))),
        ("limit", Json::Int(5)),
    ]);
    let r = plan_query(QueryTableInput { table_name: "t", payload: &bad_sk });
    assert_eq!(r.err().unwrap().status, 400);
}

#[test]
fn scan_filter_infers_number_from_text() {
    let payload = obj(vec![
        ("filters", Json::Array(vec![filter("age", ">=", "30")])),
        ("limit", Json::Int(25)),
    ]);
    let q = plan_scan(ScanTableInput { table_name: "people", payload: &payload }).ok().unwrap();
    assert_eq!(q.filter_expression, Some(s("#attr0 >= :filter0")));
    assert_eq!(q.names, vec![(s("#attr0"), s("age"))]);
    assert_eq!(q.values, vec![(s(":filter0"), AttrValue::N(s("30")))]);
}

#[test]
fn existence_tests_use_no_value_placeholder() {
    let exists = obj(vec![
        ("key", Json::Str(s("email"))),
        ("operator", Json::Str(s("attribute_exists"))),
    ]);
    let payload = obj(vec![
        (
            "filters",
            Json::Array(vec![exists, filter("name", "begins_with", "Al"), filter("ok", "=", "TRUE")]),
        ),
        ("limit", Json::Int(1)),
    ]);
    let q = plan_scan(ScanTableInput { table_name: "t", payload: &payload }).ok().unwrap();
    assert_eq!(
        q.filter_expression,
        Some(s(
            "attribute_exists(#attr0) AND begins_with(#attr1, :filter0) AND #attr2 = :filter1"
        ))
    );
    assert_eq!(
        q.values,
        vec![
            (s(":filter0"), AttrValue::S(s("Al"))),
            (s(":filter1"), AttrValue::Bool(true)),
        ]
    );
}

#[test]
fn malformed_filters_are_skipped() {
    let no_value = obj(vec![("key", Json::Str(s("a"))), ("operator", Json::Str(s("=")))]);
    let typed = obj(vec![
        ("key", Json::Str(s("n"))),
        ("operator", Json::Str(s("<"))),
        ("value", Json::Str(s("12"))),
        ("type", Json::Str(s("S"))),
    ]);
    let payload = obj(vec![
        ("filters", Json::Array(vec![no_value, Json::Int(3), typed])),
        ("limit", Json::Int(1)),
    ]);
    let q = plan_scan(ScanTableInput { table_name: "t", payload: &payload }).ok().unwrap();
    assert_eq!(q.filter_expression, Some(s("#attr2 < :filter0")));
    assert_eq!(q.values, vec![(s(":filter0"), AttrValue::S(s("12")))]);
    assert!(read_filter(&Json::Null).is_none());
}

#[test]
fn scan_needs_a_limit() {
    let payload = obj(vec![]);
    assert_eq!(
        plan_scan(ScanTableInput { table_name: "t", payload: &payload }).err().unwrap().status,
        400
    );
}

#[test]
fn update_expression_sets_each_attribute() {
    let c = build_update_expression(vec![
        (0, s("name"), AttrValue::S(s("x"))),
        (1, s("age"), AttrValue::N(s("3"))),
    ]);
    assert_eq!(c.expression, s("SET #attr0 = :val0, #attr1 = :val1"));
    assert_eq!(c.names, vec![(s("#attr0"), s("name")), (s("#attr1"), s("age"))]);
    assert_eq!(
        c.values,
        vec![(s(":val0"), AttrValue::S(s("x"))), (s(":val1"), AttrValue::N(s("3")))]
    );
    assert_eq!(numbered("#attr", 12), s("#attr12"));
}

#[test]
fn scan_names_follow_array_positions() {
    let payload = obj(vec![
        (
            "filters",
            Json::Array(vec![obj(vec![("key", Json::Str(s("a")))]), filter("b", "=", "y")]),
        ),
        ("limit", Json::Int(5)),
    ]);
    let q = plan_scan(ScanTableInput { table_name: "t", payload: &payload }).ok().unwrap();
    assert_eq!(q.names, vec![(s("#attr1"), s("b"))]);
    assert_eq!(q.values, vec![(s(":filter0"), AttrValue::S(s("y")))]);
    assert_eq!(q.filter_expression, Some(s("#attr1 = :filter0")));
}

#[test]
fn query_names_stay_compact_after_skipped_filters() {
    let payload = obj(vec![
        ("partition_key", key("id", "7")),
        (
            "filters",
            Json::Array(vec![obj(vec![("key", Json::Str(s("a")))]), filter("b", "not contains", "y")]),
        ),
        ("limit", Json::Int(5)),
    ]);
    let q = plan_query(QueryTableInput { table_name: "t", payload: &payload }).ok().unwrap();
    assert_eq!(q.filter_expression, Some(s("not contains(#attr2, :filter0)")));
}
