//! PartiQL statements, passed through to the store with paging.
use vstd::prelude::*;
use crate::dynamo::types::{
    bad_request, failure_text, items_json, items_to_json, opt_text, read_opt_str, service_failure,
    success, ApiResponse, ServiceError,
};
use crate::dynamo::types::named;
use crate::dynamodb_utils::lemma_json_entry_models_push;
use crate::json_utils::{field, get_field, str_field};
use crate::value::{json_entry_models, AttrValue, Json, JsonModel};

verus! {

/// A statement to run.
pub struct ExecuteStatementInput<'a> {
    pub statement: &'a str,
    pub next_token: Option<&'a str>,
    pub limit: Option<i32>,
}

/// The statement call to send to the store.
pub struct StatementRequest {
    pub statement: String,
    pub next_token: Option<String>,
    pub limit: Option<i32>,
}

/// The paging token that is passed on: a non-empty one.
pub open spec fn passed_token(t: Option<Seq<char>>) -> Option<Seq<char>> {
    match t {
        Some(s) => if s.len() > 0 {
            Some(s)
        } else {
            None
        },
        None => None,
    }
}

/// Builds the statement call; an empty paging token is dropped.
pub fn plan_execute_statement(input: ExecuteStatementInput) -> (r: StatementRequest)
    ensures
        r.statement@ == input.statement@,
        opt_text(r.next_token) == passed_token(
            match input.next_token {
                Some(t) => Some(t@),
                None => None,
            },
        ),
        r.limit == input.limit,
{
    let next_token = match input.next_token {
        Some(t) => if t.unicode_len() > 0 {
            Some(t.to_owned())
        } else {
            None
        },
        None => None,
    };
    StatementRequest { statement: input.statement.to_owned(), next_token, limit: input.limit }
}

/// The page size of a statement payload: its `limit` when that is an integer in the
/// `i32` range, else none.
pub open spec fn statement_limit_of(p: JsonModel) -> Option<i32> {
    match field(p, "limit"@) {
        Some(JsonModel::Int(n)) => if i32::MIN <= n <= i32::MAX {
            Some(n as i32)
        } else {
            None
        },
        _ => None,
    }
}

/// The model of a `StatementRequest`: statement, paging token, page size.
pub open spec fn statement_model(q: StatementRequest) -> (Seq<char>, Option<Seq<char>>, Option<i32>) {
    (q.statement@, opt_text(q.next_token), q.limit)
}

/// The statement call a payload asks for; `None` without a `statement` string.
pub open spec fn planned_statement(p: JsonModel) -> Option<(Seq<char>, Option<Seq<char>>, Option<i32>)> {
    match str_field(p, "statement"@) {
        Some(st) => Some((st, passed_token(str_field(p, "next_token"@)), statement_limit_of(p))),
        None => None,
    }
}

/// Reads a statement payload `{statement, next_token?, limit?}` (see
/// `planned_statement`); one without a `statement` string gives a 400 response.
pub fn read_statement_payload(p: &Json) -> (r: Result<StatementRequest, ApiResponse>)
    ensures
        match r {
            Ok(q) => planned_statement(p@) == Some(statement_model(q)),
            Err(resp) => planned_statement(p@) is None && resp.status == 400 && resp.message@
                == "statement is required"@ && resp.data is None,
        },
{
    let statement = match read_opt_str(p, "statement") {
        Some(s) => s,
        None => {
            return Err(bad_request(String::from_str("statement is required")));
        },
    };
    let token = read_opt_str(p, "next_token");
    let limit = match get_field(p, "limit") {
        Some(Json::Int(n)) => if -0x8000_0000 <= *n && *n <= 0x7fff_ffff {
            Some(*n as i32)
        } else {
            None
        },
        _ => None,
    };
    let next_token = match &token {
        Some(t) => Some(t.as_str()),
        None => None,
    };
    Ok(plan_execute_statement(ExecuteStatementInput { statement: statement.as_str(), next_token, limit }))
}

/// What a statement returned: the items and the token of the next page.
pub struct StatementOutput {
    pub items: Vec<Vec<(String, AttrValue)>>,
    pub next_token: Option<String>,
}

/// The data of a statement's page: its items, their number, and the next token (null
/// when there is none).
pub open spec fn statement_json(out: StatementOutput) -> JsonModel {
    JsonModel::Object(
        seq![
            ("items"@, JsonModel::Array(items_json(out.items@))),
            ("count"@, JsonModel::Int(
                if out.items@.len() <= i64::MAX {
                    out.items@.len() as int
                } else {
                    i64::MAX as int
                },
            )),
            ("next_token"@, match out.next_token {
                Some(t) => JsonModel::Str(t@),
                None => JsonModel::Null,
            }),
        ],
    )
}

/// The response to a statement: its page on success, else a 500 with the store's error.
pub fn execute_statement_response(result: &Result<StatementOutput, ServiceError>) -> (r: ApiResponse)
    ensures
        match result {
            Ok(out) => r.status == 200 && r.data is Some && r.data->0@ == statement_json(*out),
            Err(e) => r.status == 500 && r.message@ == failure_text(
                "PartiQL execution failed"@,
                *e,
            ) && r.data is None,
        },
{
    match result {
        Ok(out) => {
            let items = items_to_json(&out.items);
            let n = out.items.len();
            let count: i64 = if (n as u128) <= 0x7fff_ffff_ffff_ffff {
                n as i64
            } else {
                0x7fff_ffff_ffff_ffff
            };
            let token = match &out.next_token {
                Some(t) => Json::Str(t.clone()),
                None => Json::Null,
            };
            let mut fields: Vec<(String, Json)> = Vec::new();
            let e0 = named("items", Json::Array(items));
            proof {
                lemma_json_entry_models_push(fields@, e0.0, e0.1);
            }
            fields.push(e0);
            let e1 = named("count", Json::Int(count));
            proof {
                lemma_json_entry_models_push(fields@, e1.0, e1.1);
            }
            fields.push(e1);
            let e2 = named("next_token", token);
            proof {
                lemma_json_entry_models_push(fields@, e2.0, e2.1);
                assert(json_entry_models(fields@.push(e2)) =~= seq![
                    ("items"@, JsonModel::Array(items_json(out.items@))),
                    ("count"@, JsonModel::Int(count as int)),
                    ("next_token"@, match out.next_token {
                        Some(t) => JsonModel::Str(t@),
                        None => JsonModel::Null,
                    }),
                ]);
            }
            fields.push(e2);
            success("Success", Some(Json::Object(fields)))
        },
        Err(e) => service_failure("PartiQL execution failed", e),
    }
}

} // verus!
