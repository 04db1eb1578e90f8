//! The operation dispatcher: a closed set of operations, each turned into one request
//! for the store or into a response without calling it.
use vstd::prelude::*;
use crate::dynamo::cloudwatch_metrics::{plan_table_metrics, CloudWatchInput, MetricsRequest};
use crate::dynamo::create_item::{planned_put, plan_create_item, CreateItemInput, PutItemRequest};
use crate::dynamo::delete_item::{planned_delete_key, plan_delete_item, DeleteItemInput, DeleteItemRequest};
use crate::dynamo::execute_statement::{
    planned_statement, read_statement_payload, statement_model, StatementRequest,
};
use crate::dynamo::query_table::{planned_query, plan_query, QueryRequest, QueryTableInput};
use crate::dynamo::scan_table::{planned_scan, plan_scan, ScanRequest, ScanTableInput};
use crate::dynamo::types::{bad_request, ApiResponse};
use crate::dynamo::update_item::{planned_update, plan_update_item, UpdateItemInput, UpdateItemRequest};
use crate::dynamo::update_table::{
    planned_create_gsi, planned_update_gsi, update_gsi_model, plan_create_gsi, plan_delete_gsi, plan_update_gsi, CreateGsiInput,
    CreateGsiRequest, DeleteGsiInput, DeleteGsiRequest, UpdateGsiInput, UpdateGsiRequest,
};
use crate::json_utils::{field, get_field, str_field};
use crate::numeric::same_text;
use crate::value::{attr_entry_models, Json, JsonModel};

verus! {

/// Credentials for the store.
pub struct DynamoCredentials {
    pub region: String,
    pub access_key_id: String,
    pub secret_access_key: String,
}

/// An operation envelope: the table, the operation's name, and its payload.
pub struct DynamoOptions {
    pub table_name: String,
    pub operation: String,
    pub payload: Option<Json>,
}

/// The operations the dispatcher knows.
#[derive(Debug, Clone, Copy, PartialEq, Eq, Structural)]
pub enum Operation {
    DescribeTable,
    CreateItem,
    QueryTable,
    ScanTable,
    ExecuteStatement,
    UpdateItem,
    DeleteItem,
    CreateGlobalSecondaryIndex,
    UpdateGlobalSecondaryIndex,
    DeleteGlobalSecondaryIndex,
    GetTableMetrics,
    DescribeContinuousBackups,
    DescribeTimeToLive,
}

/// The operation an envelope names, matched exactly.
pub open spec fn operation_of(name: Seq<char>) -> Option<Operation> {
    if name == "DESCRIBE_TABLE"@ {
        Some(Operation::DescribeTable)
    } else if name == "CREATE_ITEM"@ {
        Some(Operation::CreateItem)
    } else if name == "QUERY_TABLE"@ {
        Some(Operation::QueryTable)
    } else if name == "SCAN_TABLE"@ {
        Some(Operation::ScanTable)
    } else if name == "EXECUTE_STATEMENT"@ {
        Some(Operation::ExecuteStatement)
    } else if name == "UPDATE_ITEM"@ {
        Some(Operation::UpdateItem)
    } else if name == "DELETE_ITEM"@ {
        Some(Operation::DeleteItem)
    } else if name == "CREATE_GLOBAL_SECONDARY_INDEX"@ {
        Some(Operation::CreateGlobalSecondaryIndex)
    } else if name == "UPDATE_GLOBAL_SECONDARY_INDEX"@ {
        Some(Operation::UpdateGlobalSecondaryIndex)
    } else if name == "DELETE_GLOBAL_SECONDARY_INDEX"@ {
        Some(Operation::DeleteGlobalSecondaryIndex)
    } else if name == "GET_TABLE_METRICS"@ {
        Some(Operation::GetTableMetrics)
    } else if name == "DESCRIBE_CONTINUOUS_BACKUPS"@ {
        Some(Operation::DescribeContinuousBackups)
    } else if name == "DESCRIBE_TIME_TO_LIVE"@ {
        Some(Operation::DescribeTimeToLive)
    } else {
        None
    }
}

/// Reads an operation name (see `operation_of`).
pub fn parse_operation(name: &str) -> (r: Option<Operation>)
    ensures
        r == operation_of(name@),
{
    if same_text(name, "DESCRIBE_TABLE") {
        Some(Operation::DescribeTable)
    } else if same_text(name, "CREATE_ITEM") {
        Some(Operation::CreateItem)
    } else if same_text(name, "QUERY_TABLE") {
        Some(Operation::QueryTable)
    } else if same_text(name, "SCAN_TABLE") {
        Some(Operation::ScanTable)
    } else if same_text(name, "EXECUTE_STATEMENT") {
        Some(Operation::ExecuteStatement)
    } else if same_text(name, "UPDATE_ITEM") {
        Some(Operation::UpdateItem)
    } else if same_text(name, "DELETE_ITEM") {
        Some(Operation::DeleteItem)
    } else if same_text(name, "CREATE_GLOBAL_SECONDARY_INDEX") {
        Some(Operation::CreateGlobalSecondaryIndex)
    } else if same_text(name, "UPDATE_GLOBAL_SECONDARY_INDEX") {
        Some(Operation::UpdateGlobalSecondaryIndex)
    } else if same_text(name, "DELETE_GLOBAL_SECONDARY_INDEX") {
        Some(Operation::DeleteGlobalSecondaryIndex)
    } else if same_text(name, "GET_TABLE_METRICS") {
        Some(Operation::GetTableMetrics)
    } else if same_text(name, "DESCRIBE_CONTINUOUS_BACKUPS") {
        Some(Operation::DescribeContinuousBackups)
    } else if same_text(name, "DESCRIBE_TIME_TO_LIVE") {
        Some(Operation::DescribeTimeToLive)
    } else {
        None
    }
}

/// Whether an operation needs a payload. The describe operations and the metrics read
/// do not.
pub open spec fn needs_payload(o: Operation) -> bool {
    !(o == Operation::DescribeTable || o == Operation::GetTableMetrics || o
        == Operation::DescribeContinuousBackups || o == Operation::DescribeTimeToLive)
}

/// The request for the store that an envelope turns into.
pub enum Request {
    DescribeTable(String),
    PutItem(PutItemRequest),
    Query(QueryRequest),
    Scan(ScanRequest),
    ExecuteStatement(StatementRequest),
    UpdateItem(UpdateItemRequest),
    DeleteItem(DeleteItemRequest),
    CreateGsi(CreateGsiRequest),
    UpdateGsi(UpdateGsiRequest),
    DeleteGsi(DeleteGsiRequest),
    TableMetrics(MetricsRequest),
    DescribeContinuousBackups(String),
    DescribeTimeToLive(String),
}

/// The metrics window a payload asks for: its integer `period_hours`, or a day.
pub open spec fn period_hours_of(p: Option<JsonModel>) -> int {
    match p {
        Some(j) => match field(j, "period_hours"@) {
            Some(JsonModel::Int(h)) => h,
            _ => 24,
        },
        None => 24,
    }
}

/// How a dispatched envelope relates to the operation's own planning: each operation
/// yields the request of its kind exactly when its planner accepts the payload, with
/// the planner's request, and a 400 response otherwise.
pub open spec fn dispatched(o: Operation, table: Seq<char>, p: JsonModel, r: Result<Request, ApiResponse>) -> bool {
    match r {
        Err(resp) => resp.status == 400 && resp.data is None && match o {
            Operation::CreateItem => planned_put(table, p) is None,
            Operation::QueryTable => planned_query(table, p) is None,
            Operation::ScanTable => planned_scan(table, p) is None,
            Operation::UpdateItem => planned_update(table, p) is None,
            Operation::DeleteItem => planned_delete_key(p) is None,
            Operation::CreateGlobalSecondaryIndex => planned_create_gsi(table, p) is None,
            Operation::ExecuteStatement => planned_statement(p) is None,
            Operation::UpdateGlobalSecondaryIndex => planned_update_gsi(table, p) is None,
            Operation::DeleteGlobalSecondaryIndex => str_field(p, "index_name"@) is None,
            _ => false,
        },
        Ok(req) => match (o, req) {
            (Operation::CreateItem, Request::PutItem(q)) => planned_put(table, p) == Some(q@),
            (Operation::QueryTable, Request::Query(q)) => planned_query(table, p) == Some(q@),
            (Operation::ScanTable, Request::Scan(q)) => planned_scan(table, p) == Some(q@),
            (Operation::UpdateItem, Request::UpdateItem(q)) => planned_update(table, p) == Some(q@),
            (Operation::DeleteItem, Request::DeleteItem(q)) => q.table_name@ == table
                && planned_delete_key(p) == Some(attr_entry_models(q.key@)),
            (Operation::CreateGlobalSecondaryIndex, Request::CreateGsi(q)) => planned_create_gsi(
                table,
                p,
            ) == Some(q@),
            (Operation::ExecuteStatement, Request::ExecuteStatement(q)) => planned_statement(p)
                == Some(statement_model(q)),
            (Operation::UpdateGlobalSecondaryIndex, Request::UpdateGsi(q)) => planned_update_gsi(
                table,
                p,
            ) == Some(update_gsi_model(q)),
            (Operation::DeleteGlobalSecondaryIndex, Request::DeleteGsi(q)) => q.table_name@ == table
                && str_field(p, "index_name"@) == Some(q.index_name@),
            _ => false,
        },
    }
}

fn payload_required(o: Operation) -> (r: ApiResponse)
    ensures
        r.status == 400,
        r.data is None,
{
    let message = match o {
        Operation::CreateItem => "Item payload is required",
        Operation::QueryTable => "Query parameters are required",
        Operation::ScanTable => "Scan parameters are required",
        _ => "Payload is required",
    };
    bad_request(message.to_owned())
}

fn read_period_hours(p: &Option<Json>) -> (r: i64)
    ensures
        r as int == period_hours_of(
            match p {
                Some(j) => Some(j@),
                None => None,
            },
        ),
{
    match p {
        Some(j) => match get_field(j, "period_hours") {
            Some(Json::Int(h)) => *h,
            _ => 24,
        },
        None => 24,
    }
}

fn plan_with_payload(o: Operation, table_name: String, p: Json) -> (r: Result<Request, ApiResponse>)
    requires
        needs_payload(o),
    ensures
        dispatched(o, table_name@, p@, r),
{
    match o {
        Operation::CreateItem => match plan_create_item(
            CreateItemInput { table_name: table_name.as_str(), payload: &p },
        ) {
            Ok(q) => Ok(Request::PutItem(q)),
            Err(e) => Err(e),
        },
        Operation::QueryTable => match plan_query(
            QueryTableInput { table_name: table_name.as_str(), payload: &p },
        ) {
            Ok(q) => Ok(Request::Query(q)),
            Err(e) => Err(e),
        },
        Operation::ScanTable => match plan_scan(
            ScanTableInput { table_name: table_name.as_str(), payload: &p },
        ) {
            Ok(q) => Ok(Request::Scan(q)),
            Err(e) => Err(e),
        },
        Operation::ExecuteStatement => match read_statement_payload(&p) {
            Ok(q) => Ok(Request::ExecuteStatement(q)),
            Err(e) => Err(e),
        },
        Operation::UpdateItem => match plan_update_item(
            UpdateItemInput { table_name: table_name.as_str(), payload: &p },
        ) {
            Ok(q) => Ok(Request::UpdateItem(q)),
            Err(e) => Err(e),
        },
        Operation::DeleteItem => match plan_delete_item(
            DeleteItemInput { table_name: table_name.as_str(), payload: &p },
        ) {
            Ok(q) => Ok(Request::DeleteItem(q)),
            Err(e) => Err(e),
        },
        Operation::CreateGlobalSecondaryIndex => match plan_create_gsi(
            &CreateGsiInput { table_name, payload: p },
        ) {
            Ok(q) => Ok(Request::CreateGsi(q)),
            Err(e) => Err(e),
        },
        Operation::UpdateGlobalSecondaryIndex => match plan_update_gsi(
            &UpdateGsiInput { table_name, payload: p },
        ) {
            Ok(q) => Ok(Request::UpdateGsi(q)),
            Err(e) => Err(e),
        },
        _ => match plan_delete_gsi(&DeleteGsiInput { table_name, payload: p }) {
            Ok(q) => Ok(Request::DeleteGsi(q)),
            Err(e) => Err(e),
        },
    }
}

/// Turns an envelope into a request for the store, or into a 400 response when the
/// operation is unknown, its payload is missing, or its payload is rejected (see
/// `dispatched`). Nothing is sent to the store for a 400.
pub fn plan_operation(options: DynamoOptions) -> (r: Result<Request, ApiResponse>)
    ensures
        match operation_of(options.operation@) {
            None => r is Err && r->Err_0.status == 400 && r->Err_0.message@
                == "Unsupported operation: "@ + options.operation@ && r->Err_0.data is None,
            Some(o) => if !needs_payload(o) {
                match (o, r) {
                    (Operation::DescribeTable, Ok(Request::DescribeTable(t))) => t@
                        == options.table_name@,
                    (Operation::DescribeContinuousBackups, Ok(Request::DescribeContinuousBackups(t))) => t@
                        == options.table_name@,
                    (Operation::DescribeTimeToLive, Ok(Request::DescribeTimeToLive(t))) => t@
                        == options.table_name@,
                    (Operation::GetTableMetrics, Ok(Request::TableMetrics(m))) => m.table_name@
                        == options.table_name@ && m.period_hours
                        == crate::dynamo::cloudwatch_metrics::window_hours(
                        period_hours_of(
                            match options.payload {
                                Some(j) => Some(j@),
                                None => None,
                            },
                        ),
                    ) && crate::dynamo::cloudwatch_metrics::queries_model(m.queries@)
                        == crate::dynamo::cloudwatch_metrics::metric_plan(),
                    _ => false,
                }
            } else {
                match options.payload {
                    None => r is Err && r->Err_0.status == 400 && r->Err_0.data is None,
                    Some(p) => dispatched(o, options.table_name@, p@, r),
                }
            },
        },
{
    let o = match parse_operation(options.operation.as_str()) {
        Some(o) => o,
        None => {
            let mut message = String::from_str("Unsupported operation: ");
            message.append(options.operation.as_str());
            proof {
                reveal_strlit("Unsupported operation: ");
            }
            return Err(bad_request(message));
        },
    };
    match o {
        Operation::DescribeTable => Ok(Request::DescribeTable(options.table_name)),
        Operation::DescribeContinuousBackups => Ok(
            Request::DescribeContinuousBackups(options.table_name),
        ),
        Operation::DescribeTimeToLive => Ok(Request::DescribeTimeToLive(options.table_name)),
        Operation::GetTableMetrics => {
            let hours = read_period_hours(&options.payload);
            Ok(
                Request::TableMetrics(
                    plan_table_metrics(
                        CloudWatchInput { table_name: options.table_name.as_str(), period_hours: hours },
                    ),
                ),
            )
        },
        _ => match options.payload {
            Some(p) => plan_with_payload(o, options.table_name, p),
            None => Err(payload_required(o)),
        },
    }
}

} // verus!
