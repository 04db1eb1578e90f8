//! Point-in-time recovery status of a table.
use vstd::prelude::*;
use crate::dynamo::types::{failure_text, named, service_failure, success, ApiResponse, ServiceError};
use crate::dynamodb_utils::lemma_json_entry_models_push;
use crate::numeric::same_text;
use crate::value::{json_entry_models, Json, JsonModel};

verus! {

/// Whether a reported status text is `ENABLED`.
pub open spec fn is_enabled(status: Option<String>) -> bool {
    match status {
        Some(s) => s@ == "ENABLED"@,
        None => false,
    }
}

/// Whether a status text is `ENABLED`.
pub fn status_enabled(status: &Option<String>) -> (r: bool)
    ensures
        r == is_enabled(*status),
{
    match status {
        Some(s) => same_text(s.as_str(), "ENABLED"),
        None => false,
    }
}

/// The response to a backups description, given the point-in-time recovery status the
/// store reported: `{pitrEnabled}` on success, else a 500 with the store's error.
pub fn continuous_backups_response(result: &Result<Option<String>, ServiceError>) -> (r: ApiResponse)
    ensures
        match result {
            Ok(status) => r.status == 200 && r.data is Some && r.data->0@ == JsonModel::Object(
                seq![("pitrEnabled"@, JsonModel::Bool(is_enabled(*status)))],
            ),
            Err(e) => r.status == 500 && r.message@ == failure_text(
                "Failed to describe continuous backups"@,
                *e,
            ) && r.data is None,
        },
{
    match result {
        Ok(status) => {
            let mut fields: Vec<(String, Json)> = Vec::new();
            let e0 = named("pitrEnabled", Json::Bool(status_enabled(status)));
            proof {
                lemma_json_entry_models_push(fields@, e0.0, e0.1);
                assert(json_entry_models(fields@.push(e0)) =~= seq![
                    ("pitrEnabled"@, JsonModel::Bool(is_enabled(*status))),
                ]);
            }
            fields.push(e0);
            success("Success", Some(Json::Object(fields)))
        },
        Err(e) => service_failure("Failed to describe continuous backups", e),
    }
}

} // verus!
