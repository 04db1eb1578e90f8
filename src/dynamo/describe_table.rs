//! Describing a table.
use vstd::prelude::*;
use crate::dynamo::types::{failure_text, service_failure, success, ApiResponse, ServiceError};
use crate::value::Json;

verus! {

/// The response to a table description: the description the store gave on success,
/// else a 500 with the store's error.
pub fn describe_table_response(result: Result<Json, ServiceError>) -> (r: ApiResponse)
    ensures
        match result {
            Ok(info) => r.status == 200 && r.message@ == "Table described successfully"@ && r.data
                == Some(info),
            Err(e) => r.status == 500 && r.message@ == failure_text("Failed to describe table"@, e)
                && r.data is None,
        },
{
    match result {
        Ok(info) => success("Table described successfully", Some(info)),
        Err(e) => service_failure("Failed to describe table", &e),
    }
}

} // verus!
