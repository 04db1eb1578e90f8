//! Time-to-live settings of a table.
use vstd::prelude::*;
use crate::dynamo::continuous_backups::{is_enabled, status_enabled};
use crate::dynamo::types::{failure_text, named, service_failure, success, ApiResponse, ServiceError};
use crate::dynamodb_utils::lemma_json_entry_models_push;
use crate::value::{json_entry_models, Json, JsonModel};

verus! {

/// The time-to-live settings the store reported.
pub struct TimeToLive {
    pub status: Option<String>,
    pub attribute_name: Option<String>,
}

/// The response to a time-to-live description: `{ttlEnabled, attributeName}` on
/// success, else a 500 with the store's error.
pub fn time_to_live_response(result: &Result<TimeToLive, ServiceError>) -> (r: ApiResponse)
    ensures
        match result {
            Ok(ttl) => r.status == 200 && r.data is Some && r.data->0@ == JsonModel::Object(
                seq![
                    ("ttlEnabled"@, JsonModel::Bool(is_enabled(ttl.status))),
                    ("attributeName"@, match ttl.attribute_name {
                        Some(a) => JsonModel::Str(a@),
                        None => JsonModel::Null,
                    }),
                ],
            ),
            Err(e) => r.status == 500 && r.message@ == failure_text(
                "Failed to describe time to live"@,
                *e,
            ) && r.data is None,
        },
{
    match result {
        Ok(ttl) => {
            let mut fields: Vec<(String, Json)> = Vec::new();
            let e0 = named("ttlEnabled", Json::Bool(status_enabled(&ttl.status)));
            proof {
                lemma_json_entry_models_push(fields@, e0.0, e0.1);
            }
            fields.push(e0);
            let name = match &ttl.attribute_name {
                Some(a) => Json::Str(a.clone()),
                None => Json::Null,
            };
            let e1 = named("attributeName", name);
            proof {
                lemma_json_entry_models_push(fields@, e1.0, e1.1);
                assert(json_entry_models(fields@.push(e1)) =~= seq![
                    ("ttlEnabled"@, JsonModel::Bool(is_enabled(ttl.status))),
                    ("attributeName"@, match ttl.attribute_name {
                        Some(a) => JsonModel::Str(a@),
                        None => JsonModel::Null,
                    }),
                ]);
            }
            fields.push(e1);
            success("Success", Some(Json::Object(fields)))
        },
        Err(e) => service_failure("Failed to describe time to live", e),
    }
}

} // verus!
