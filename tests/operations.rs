use dockit::dynamo::cloudwatch_metrics::{
    has_metric_data, metrics_failure_response, metrics_window_hours, plan_table_metrics, CloudWatchInput,
};
use dockit::dynamo::continuous_backups::continuous_backups_response;
use dockit::dynamo::create_item::{create_item_response, plan_create_item, CreateItemInput};
use dockit::dynamo::delete_item::{plan_delete_item, DeleteItemInput};
use dockit::dynamo::execute_statement::{
    execute_statement_response, plan_execute_statement, ExecuteStatementInput, StatementOutput,
};
use dockit::dynamo::query_table::query_response;
use dockit::dynamo::time_to_live::{time_to_live_response, TimeToLive};
use dockit::dynamo::types::{PageOutput, ServiceError};
use dockit::dynamo::update_item::{plan_update_item, UpdateItemInput};
use dockit::dynamo::update_table::{gsi_response, plan_create_gsi, CreateGsiInput, GsiAction, KeyKind, ProjectionKind, ScalarKind};
use dockit::dynamo_client::{plan_operation, DynamoOptions, Request};
use dockit::fetch_client::get_proxy;
use dockit::openai_client::{get_base_url, model_url};
use dockit::value::{AttrValue, Json};

fn s(x: &str) -> String {
    x.to_string()
}

fn obj(entries: Vec<(&str, Json)>) -> Json {
    Json::Object(entries.into_iter().map(|(k, v)| (k.to_string(), v)).collect())
}

fn attr(key: &str, value: Json, ty: &str) -> Json {
    obj(vec![("key", Json::Str(s(key))), ("value", value), ("type", Json::Str(s(ty)))])
}

fn conditional_failure() -> ServiceError {
    ServiceError {
        code: Some(s("ConditionalCheckFailedException")),
        message: Some(s("The conditional request failed")),
    }
}

#[test]
fn skip_existing_turns_conditional_failure_into_success() {
    let payload = obj(vec![
        ("attributes", Json::Array(vec![attr("id", Json::Str(s("1")), "S")])),
        ("skipExisting", Json::Bool(true)),
    ]);
    let put = plan_create_item(CreateItemInput { table_name: "t", payload: &payload }).ok().unwrap();
    assert!(put.skip_existing);
    assert_eq!(put.condition_expression, Some(s("attribute_not_exists(#attr0)")));
    assert_eq!(put.names, vec![(s("#attr0"), s("id"))]);
    let r = create_item_response(&Err(conditional_failure()), true);
    assert_eq!(r.status, 200);
    let r = create_item_response(&Err(conditional_failure()), false);
    assert_eq!(r.status, 500);
    assert_eq!(
        r.message,
        s("Failed to create item!\n\nerrorCode: ConditionalCheckFailedException\nmessage: The conditional request failed")
    );
    assert_eq!(create_item_response(&Ok(()), false).status, 200);
}

#[test]
fn create_item_validates_attributes() {
    let payload = obj(vec![]);
    let r = plan_create_item(CreateItemInput { table_name: "t", payload: &payload });
    assert_eq!(r.err().unwrap().status, 400);
    let payload = obj(vec![(
        "attributes",
        Json::Array(vec![attr("id", Json::Int(3), "N"), attr("bad", Json::Int(1), "S")]),
    )]);
    let put = plan_create_item(CreateItemInput { table_name: "t", payload: &payload }).ok().unwrap();
    assert_eq!(put.item, vec![(s("id"), AttrValue::N(s("3")))]);
    assert_eq!(put.condition_expression, None);
}

#[test]
fn update_with_no_convertible_attribute_is_rejected_before_the_store() {
    let payload = obj(vec![
        ("keys", Json::Array(vec![attr("id", Json::Str(s("1")), "S")])),
        (
            "attributes",
            Json::Array(vec![attr("a", Json::Str(s("x")), "N"), attr("b", Json::Int(1), "BOOL")]),
        ),
    ]);
    let mut store_calls = 0;
    let mut store = |_req: &Request| store_calls += 1;
    let options = DynamoOptions {
        table_name: s("t"),
        operation: s("UPDATE_ITEM"),
        payload: Some(payload),
    };
    let status = match plan_operation(options) {
        Ok(req) => {
            store(&req);
            200
        },
        Err(resp) => resp.status,
    };
    assert_eq!(status, 400);
    assert_eq!(store_calls, 0);
}

#[test]
fn update_builds_set_expression() {
    let payload = obj(vec![
        ("keys", Json::Array(vec![attr("id", Json::Str(s("1")), "S")])),
        (
            "attributes",
            Json::Array(vec![attr("a", Json::Str(s("x")), "S"), attr("b", Json::Int(2), "N")]),
        ),
    ]);
    let u = plan_update_item(UpdateItemInput { table_name: "t", payload: &payload }).ok().unwrap();
    assert_eq!(u.update_expression, s("SET #attr0 = :val0, #attr1 = :val1"));
    assert_eq!(u.key, vec![(s("id"), AttrValue::S(s("1")))]);
    let empty = obj(vec![
        ("keys", Json::Array(vec![])),
        ("attributes", Json::Array(vec![])),
    ]);
    let r = plan_update_item(UpdateItemInput { table_name: "t", payload: &empty });
    assert_eq!(r.err().unwrap().status, 400);
}

#[test]
fn delete_needs_keys() {
    let payload = obj(vec![("keys", Json::Array(vec![]))]);
    let r = plan_delete_item(DeleteItemInput { table_name: "t", payload: &payload });
    assert_eq!(r.err().unwrap().status, 400);
    let payload = obj(vec![("keys", Json::Array(vec![attr("id", Json::Int(9), "N")]))]);
    let d = plan_delete_item(DeleteItemInput { table_name: "t", payload: &payload }).ok().unwrap();
    assert_eq!(d.key, vec![(s("id"), AttrValue::N(s("9")))]);
}

#[test]
fn dispatcher_rejects_unknown_operations_and_missing_payloads() {
    let r = plan_operation(DynamoOptions {
        table_name: s("t"),
        operation: s("DROP_TABLE"),
        payload: None,
    });
    let resp = r.err().unwrap();
    assert_eq!(resp.status, 400);
    assert_eq!(resp.message, s("Unsupported operation: DROP_TABLE"));
    let r = plan_operation(DynamoOptions {
        table_name: s("t"),
        operation: s("QUERY_TABLE"),
        payload: None,
    });
    assert_eq!(r.err().unwrap().status, 400);
    let r = plan_operation(DynamoOptions {
        table_name: s("t"),
        operation: s("DESCRIBE_TABLE"),
        payload: None,
    });
    assert!(matches!(r, Ok(Request::DescribeTable(ref t)) if t == "t"));
}

#[test]
fn metrics_window_is_clamped() {
    assert_eq!(metrics_window_hours(0), 1);
    assert_eq!(metrics_window_hours(-5), 1);
    assert_eq!(metrics_window_hours(24), 24);
    assert_eq!(metrics_window_hours(1000), 168);
    let m = plan_table_metrics(CloudWatchInput { table_name: "t", period_hours: 500 });
    assert_eq!(m.period_hours, 168);
    assert_eq!(m.queries.len(), 6);
    assert_eq!(m.queries[4].metric_name, s("ReadThrottledRequests"));
    let r = plan_operation(DynamoOptions {
        table_name: s("t"),
        operation: s("GET_TABLE_METRICS"),
        payload: None,
    });
    match r {
        Ok(Request::TableMetrics(m)) => assert_eq!(m.period_hours, 24),
        _ => panic!("expected a metrics request"),
    }
}

#[test]
fn metrics_access_refusal_is_not_an_error() {
    let r = metrics_failure_response("User is not authorized to perform GetMetricData");
    assert_eq!(r.status, 200);
    let r = metrics_failure_response("timeout");
    assert_eq!(r.status, 500);
    assert_eq!(r.message, s("Failed to get CloudWatch metrics: timeout"));
}

#[test]
fn page_response_carries_items_and_cursor() {
    let out = PageOutput {
        items: vec![vec![(s("id"), AttrValue::N(s("5"))), (s("n"), AttrValue::S(s("a")))]],
        count: 1,
        scanned_count: 3,
        last_evaluated_key: Some(vec![(s("id"), AttrValue::N(s("5")))]),
    };
    let r = query_response(&Ok(out));
    assert_eq!(r.status, 200);
    let expected = obj(vec![
        (
            "items",
            Json::Array(vec![obj(vec![("id", Json::Int(5)), ("n", Json::Str(s("a")))])]),
        ),
        ("count", Json::Int(1)),
        ("scanned_count", Json::Int(3)),
        ("last_evaluated_key", obj(vec![("id", Json::Int(5))])),
    ]);
    assert_eq!(r.data, Some(expected));
    let failed = query_response(&Err(ServiceError { code: None, message: None }));
    assert_eq!(failed.status, 500);
    assert_eq!(
        failed.message,
        s("Failed to execute query!\n\nerrorCode: UnknownError\nmessage: UnknownError")
    );
}

#[test]
fn statement_paging_and_response() {
    let req = plan_execute_statement(ExecuteStatementInput {
        statement: "SELECT * FROM t",
        next_token: Some(""),
        limit: Some(3),
    });
    assert_eq!(req.next_token, None);
    assert_eq!(req.limit, Some(3));
    let r = execute_statement_response(&Ok(StatementOutput {
        items: vec![vec![(s("a"), AttrValue::Bool(true))]],
        next_token: Some(s("tok")),
    }));
    assert_eq!(
        r.data,
        Some(obj(vec![
            ("items", Json::Array(vec![obj(vec![("a", Json::Bool(true))])])),
            ("count", Json::Int(1)),
            ("next_token", Json::Str(s("tok"))),
        ]))
    );
}

#[test]
fn describe_responses() {
    let r = continuous_backups_response(&Ok(Some(s("ENABLED"))));
    assert_eq!(r.data, Some(obj(vec![("pitrEnabled", Json::Bool(true))])));
    let r = time_to_live_response(&Ok(TimeToLive { status: Some(s("DISABLED")), attribute_name: None }));
    assert_eq!(
        r.data,
        Some(obj(vec![("ttlEnabled", Json::Bool(false)), ("attributeName", Json::Null)]))
    );
}

#[test]
fn index_creation_reads_both_schema_forms() {
    let legacy = CreateGsiInput {
        table_name: s("t"),
        payload: obj(vec![
            ("index_name", Json::Str(s("by_email"))),
            ("partition_key", Json::Str(s("email"))),
            ("sort_key", Json::Str(s("ts"))),
            ("sort_key_type", Json::Str(s("n"))),
            ("projection_type", Json::Str(s("include"))),
            ("projected_attributes", Json::Array(vec![Json::Str(s("name"))])),
        ]),
    };
    let g = plan_create_gsi(&legacy).ok().unwrap();
    assert_eq!(g.key_schema.len(), 2);
    assert_eq!(g.key_schema[1].key_type, KeyKind::Range);
    assert_eq!(g.key_schema[1].attribute_type, ScalarKind::N);
    assert_eq!(g.projection, ProjectionKind::Include);
    assert_eq!(g.non_key_attributes, vec![s("name")]);
    assert_eq!(g.provisioned_throughput, None);
    let bad = CreateGsiInput {
        table_name: s("t"),
        payload: obj(vec![
            ("index_name", Json::Str(s("i"))),
            ("key_schema", Json::Array(vec![obj(vec![("attribute_name", Json::Str(s("a")))])])),
        ]),
    };
    assert_eq!(plan_create_gsi(&bad).err().unwrap().status, 400);
    let r = gsi_response(GsiAction::Create, "by_email", &Ok(Some(s("UPDATING"))));
    assert_eq!(r.message, s("GSI 'by_email' creation initiated successfully"));
}

#[test]
fn provider_endpoints_and_proxy() {
    assert_eq!(get_base_url("DEEP_SEEK"), "https://api.deepseek.com");
    assert_eq!(get_base_url("OPEN_AI"), "https://api.openai.com/v1");
    assert_eq!(model_url("DEEP_SEEK", "chat"), s("https://api.deepseek.com/models/chat"));
    assert_eq!(get_proxy(Some(s("")), Some(s("http://sys"))), Some(s("http://sys")));
    assert_eq!(get_proxy(Some(s("http://p")), Some(s("http://sys"))), Some(s("http://p")));
    assert_eq!(get_proxy(None, None), None);
}

#[test]
fn rejections_carry_their_reason_and_no_data() {
    let payload = obj(vec![]);
    let r = plan_create_item(CreateItemInput { table_name: "t", payload: &payload }).err().unwrap();
    assert_eq!(r.message, s("Attributes array is required"));
    assert_eq!(r.data, None);
    let r = plan_operation(DynamoOptions {
        table_name: s("t"),
        operation: s("FOO"),
        payload: Some(obj(vec![])),
    })
    .err()
    .unwrap();
    assert_eq!(r.data, None);
    let r = metrics_failure_response("AccessDeniedException: no");
    assert_eq!(
        r.data,
        Some(obj(vec![
            ("available", Json::Bool(false)),
            (
                "message",
                Json::Str(s("CloudWatch metrics access denied. Please ensure your IAM credentials have cloudwatch:GetMetricData permission."))
            ),
            ("metrics", Json::Null),
        ]))
    );
    let r = execute_statement_response(&Err(ServiceError { code: Some(s("X")), message: None }));
    assert_eq!(r.status, 500);
    assert_eq!(r.data, None);
}

#[test]
fn metric_data_presence() {
    assert!(!has_metric_data(&vec![]));
    assert!(!has_metric_data(&vec![0, 0]));
    assert!(has_metric_data(&vec![0, 3]));
}

#[test]
fn update_placeholders_follow_array_positions() {
    let payload = obj(vec![
        ("keys", Json::Array(vec![attr("id", Json::Str(s("1")), "S")])),
        (
            "attributes",
            Json::Array(vec![obj(vec![]), attr("b", Json::Str(s("y")), "S")]),
        ),
    ]);
    let u = plan_update_item(UpdateItemInput { table_name: "t", payload: &payload }).ok().unwrap();
    assert_eq!(u.update_expression, s("SET #attr1 = :val1"));
    assert_eq!(u.names, vec![(s("#attr1"), s("b"))]);
    assert_eq!(u.values, vec![(s(":val1"), AttrValue::S(s("y")))]);
}
