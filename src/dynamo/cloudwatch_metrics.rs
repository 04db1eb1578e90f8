//! Capacity and throttling metrics of a table, read from the metrics service.
use vstd::prelude::*;
use crate::dynamo::types::{named, ApiResponse};
use crate::dynamodb_utils::lemma_json_entry_models_push;
use crate::numeric::{contains_text, occurs_in};
use crate::value::{json_entry_models, Json, JsonModel};

verus! {

/// A metrics request for a table over the last `period_hours` hours.
pub struct CloudWatchInput<'a> {
    pub table_name: &'a str,
    pub period_hours: i64,
}

/// The window actually read: the requested hours kept between 1 hour and 7 days.
pub open spec fn window_hours(h: int) -> int {
    if h < 1 {
        1
    } else if h > 168 {
        168
    } else {
        h
    }
}

/// How a metric's data points are aggregated.
#[derive(Debug, Clone, Copy, PartialEq, Eq, Structural)]
pub enum Statistic {
    Sum,
    Average,
}

/// One metric to read: its query id, the metric's name, and the aggregation.
pub struct MetricQuery {
    pub id: String,
    pub metric_name: String,
    pub statistic: Statistic,
}

/// The metric reads for a table.
pub struct MetricsRequest {
    pub table_name: String,
    pub period_hours: i64,
    pub queries: Vec<MetricQuery>,
}

/// The metrics read, in order: consumed read and write capacity (sums), provisioned
/// read and write capacity (averages), read and write throttles (sums), with ids `m0` to
/// `m5`.
pub open spec fn metric_plan() -> Seq<(Seq<char>, Seq<char>, Statistic)> {
    seq![
        ("m0"@, "ConsumedReadCapacityUnits"@, Statistic::Sum),
        ("m1"@, "ConsumedWriteCapacityUnits"@, Statistic::Sum),
        ("m2"@, "ProvisionedReadCapacityUnits"@, Statistic::Average),
        ("m3"@, "ProvisionedWriteCapacityUnits"@, Statistic::Average),
        ("m4"@, "ReadThrottledRequests"@, Statistic::Sum),
        ("m5"@, "WriteThrottledRequests"@, Statistic::Sum),
    ]
}

/// The model of a list of metric queries.
pub open spec fn queries_model(v: Seq<MetricQuery>) -> Seq<(Seq<char>, Seq<char>, Statistic)> {
    v.map_values(|q: MetricQuery| (q.id@, q.metric_name@, q.statistic))
}

/// Keeps a requested window between 1 hour and 7 days.
pub fn metrics_window_hours(period_hours: i64) -> (r: i64)
    ensures
        r == window_hours(period_hours as int),
{
    if period_hours < 1 {
        1
    } else if period_hours > 168 {
        168
    } else {
        period_hours
    }
}

fn query(id: &str, metric_name: &str, statistic: Statistic) -> (r: MetricQuery)
    ensures
        r.id@ == id@,
        r.metric_name@ == metric_name@,
        r.statistic == statistic,
{
    MetricQuery { id: id.to_owned(), metric_name: metric_name.to_owned(), statistic }
}

/// The metric reads for a table (see `metric_plan` and `window_hours`).
pub fn plan_table_metrics(input: CloudWatchInput) -> (r: MetricsRequest)
    ensures
        r.table_name@ == input.table_name@,
        r.period_hours == window_hours(input.period_hours as int),
        queries_model(r.queries@) == metric_plan(),
{
    let queries = vec![
        query("m0", "ConsumedReadCapacityUnits", Statistic::Sum),
        query("m1", "ConsumedWriteCapacityUnits", Statistic::Sum),
        query("m2", "ProvisionedReadCapacityUnits", Statistic::Average),
        query("m3", "ProvisionedWriteCapacityUnits", Statistic::Average),
        query("m4", "ReadThrottledRequests", Statistic::Sum),
        query("m5", "WriteThrottledRequests", Statistic::Sum),
    ];
    assert(queries_model(queries@) =~= metric_plan());
    MetricsRequest {
        table_name: input.table_name.to_owned(),
        period_hours: metrics_window_hours(input.period_hours),
        queries,
    }
}

/// Whether a metrics error says that access was refused.
pub open spec fn is_access_refusal(message: Seq<char>) -> bool {
    occurs_in("AccessDenied"@, message) || occurs_in("not authorized"@, message) || occurs_in(
        "UnauthorizedAccess"@,
        message,
    )
}

/// The data of a response without metrics.
pub open spec fn unavailable_json(note: Seq<char>) -> JsonModel {
    JsonModel::Object(
        seq![
            ("available"@, JsonModel::Bool(false)),
            ("message"@, JsonModel::Str(note)),
            ("metrics"@, JsonModel::Null),
        ],
    )
}

/// A response without metrics: `{available: false, message, metrics: null}`.
pub fn unavailable_response(status: u16, message: String, note: String) -> (r: ApiResponse)
    ensures
        r.status == status,
        r.message@ == message@,
        r.data is Some,
        r.data->0@ == unavailable_json(note@),
{
    let mut fields: Vec<(String, Json)> = Vec::new();
    let e0 = named("available", Json::Bool(false));
    proof {
        lemma_json_entry_models_push(fields@, e0.0, e0.1);
    }
    fields.push(e0);
    let e1 = named("message", Json::Str(note));
    proof {
        lemma_json_entry_models_push(fields@, e1.0, e1.1);
    }
    fields.push(e1);
    let e2 = named("metrics", Json::Null);
    proof {
        lemma_json_entry_models_push(fields@, e2.0, e2.1);
        assert(json_entry_models(fields@.push(e2)) =~= seq![
            ("available"@, JsonModel::Bool(false)),
            ("message"@, JsonModel::Str(note@)),
            ("metrics"@, JsonModel::Null),
        ]);
    }
    fields.push(e2);
    ApiResponse { status, message, data: Some(Json::Object(fields)) }
}

/// Whether any metric returned a data point, given how many points each returned.
pub fn has_metric_data(points: &Vec<usize>) -> (r: bool)
    ensures
        r == exists|i: int| 0 <= i < points@.len() && #[trigger] points@[i] > 0,
{
    let mut i: usize = 0;
    while i < points.len()
        invariant
            i <= points@.len(),
            forall|j: int| 0 <= j < i ==> #[trigger] points@[j] == 0,
        decreases points@.len() - i,
    {
        if points[i] > 0 {
            return true;
        }
        i = i + 1;
    }
    false
}

/// The response when the metrics service answered with no data points at all.
pub fn no_metrics_response() -> (r: ApiResponse)
    ensures
        r.status == 200,
        r.data is Some,
        r.data->0@ == unavailable_json(
            "CloudWatch metrics not available. Enable CloudWatch Contributor Insights or ensure there is recent table activity."@,
        ),
{
    unavailable_response(
        200,
        String::from_str(
            "No CloudWatch metrics available. CloudWatch may not be enabled for this table or there is no recent activity.",
        ),
        String::from_str(
            "CloudWatch metrics not available. Enable CloudWatch Contributor Insights or ensure there is recent table activity.",
        ),
    )
}

/// The response to a failed metrics read: a refusal of access is reported as metrics
/// being unavailable (status 200); any other error is a 500 that carries the error text.
pub fn metrics_failure_response(error: &str) -> (r: ApiResponse)
    ensures
        is_access_refusal(error@) ==> r.status == 200 && r.message@
            == "CloudWatch access not available"@ && r.data is Some && r.data->0@ == unavailable_json(
            "CloudWatch metrics access denied. Please ensure your IAM credentials have cloudwatch:GetMetricData permission."@,
        ),
        !is_access_refusal(error@) ==> r.status == 500 && r.message@
            == "Failed to get CloudWatch metrics: "@ + error@ && r.data is Some && r.data->0@
            == unavailable_json("Error retrieving metrics: "@ + error@),
        r.data is Some,
{
    if contains_text(error, "AccessDenied") || contains_text(error, "not authorized")
        || contains_text(error, "UnauthorizedAccess") {
        unavailable_response(
            200,
            String::from_str("CloudWatch access not available"),
            String::from_str(
                "CloudWatch metrics access denied. Please ensure your IAM credentials have cloudwatch:GetMetricData permission.",
            ),
        )
    } else {
        let mut message = String::from_str("Failed to get CloudWatch metrics: ");
        message.append(error);
        let mut note = String::from_str("Error retrieving metrics: ");
        note.append(error);
        proof {
            reveal_strlit("Failed to get CloudWatch metrics: ");
            reveal_strlit("Error retrieving metrics: ");
        }
        unavailable_response(500, message, note)
    }
}

} // verus!
