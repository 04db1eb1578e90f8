//! Scans: a whole-table read with optional filters and paging.
use vstd::prelude::*;
use crate::dynamo::query_table::filter_expression_of;
use crate::dynamo::types::{
    bad_request, failure_text, filter_list, limit_of, opt_text, page_json, page_response,
    read_limit, read_opt_str, read_start_key, service_failure, start_key_of, ApiResponse,
    PageOutput, ServiceError,
};
use crate::expression::{
    add_filters, filter_names, filter_values, names_model, numbered_filters, FilterModel,
};
use crate::json_utils::{get_field, str_field};
use crate::value::{attr_entry_models, AttrModel, AttrValue, Json, JsonModel};

verus! {

/// A scan of a table.
pub struct ScanTableInput<'a> {
    pub table_name: &'a str,
    pub payload: &'a Json,
}

/// The scan to send to the store.
pub struct ScanRequest {
    pub table_name: String,
    pub index_name: Option<String>,
    pub limit: i32,
    pub exclusive_start_key: Vec<(String, AttrValue)>,
    pub filter_expression: Option<String>,
    pub names: Vec<(String, String)>,
    pub values: Vec<(String, AttrValue)>,
}

/// The model of a `ScanRequest`.
pub struct ScanModel {
    pub table_name: Seq<char>,
    pub index_name: Option<Seq<char>>,
    pub limit: i32,
    pub exclusive_start_key: Seq<(Seq<char>, AttrModel)>,
    pub filter_expression: Option<Seq<char>>,
    pub names: Seq<(Seq<char>, Seq<char>)>,
    pub values: Seq<(Seq<char>, AttrModel)>,
}

impl View for ScanRequest {
    type V = ScanModel;

    open spec fn view(&self) -> ScanModel {
        ScanModel {
            table_name: self.table_name@,
            index_name: opt_text(self.index_name),
            limit: self.limit,
            exclusive_start_key: attr_entry_models(self.exclusive_start_key@),
            filter_expression: opt_text(self.filter_expression),
            names: names_model(self.names@),
            values: attr_entry_models(self.values@),
        }
    }
}

/// The scan a payload asks for, or `None` when it has no `limit`. With no key
/// condition, a filter takes the name `#attr{i}`, i its position in the `filters` array
/// (a skipped entry uses up its position), and values are numbered from `:filter0` on
/// over the comparing clauses.
pub open spec fn planned_scan(table: Seq<char>, p: JsonModel) -> Option<ScanModel> {
    match limit_of(p) {
        Some(limit) => {
            let fs = numbered_filters(filter_list(p), 0, true);
            Some(
                ScanModel {
                    table_name: table,
                    index_name: str_field(p, "index_name"@),
                    limit,
                    exclusive_start_key: start_key_of(p),
                    filter_expression: filter_expression_of(fs),
                    names: filter_names(fs),
                    values: filter_values(fs),
                },
            )
        },
        None => None,
    }
}

/// Reads a scan payload (see `planned_scan`); one without a limit gives a 400 response.
pub fn plan_scan(input: ScanTableInput) -> (r: Result<ScanRequest, ApiResponse>)
    ensures
        match r {
            Ok(q) => planned_scan(input.table_name@, input.payload@) == Some(q@),
            Err(resp) => planned_scan(input.table_name@, input.payload@) is None && resp.status
                == 400 && resp.message@ == "limit is required"@ && resp.data is None,
        },
{
    let p = input.payload;
    let limit = match read_limit(p) {
        Some(l) => l,
        None => {
            return Err(bad_request(String::from_str("limit is required")));
        },
    };
    let mut names: Vec<(String, String)> = Vec::new();
    let mut values: Vec<(String, AttrValue)> = Vec::new();
    proof {
        assert(names_model(names@) =~= Seq::empty());
    }
    let filter_expression = match get_field(p, "filters") {
        Some(Json::Array(fs)) => add_filters(fs, 0, true, &mut names, &mut values),
        _ => {
            assert(numbered_filters(Seq::<JsonModel>::empty(), 0, true) =~= Seq::<(nat, FilterModel)>::empty());
            None
        },
    };
    assert(names_model(names@) =~= filter_names(numbered_filters(filter_list(p@), 0, true)));
    assert(attr_entry_models(values@) =~= filter_values(numbered_filters(filter_list(p@), 0, true)));
    Ok(
        ScanRequest {
            table_name: input.table_name.to_owned(),
            index_name: read_opt_str(p, "index_name"),
            limit,
            exclusive_start_key: read_start_key(p),
            filter_expression,
            names,
            values,
        },
    )
}

/// The response to a scan: its page on success, else a 500 with the store's error.
pub fn scan_response(result: &Result<PageOutput, ServiceError>) -> (r: ApiResponse)
    ensures
        match result {
            Ok(out) => r.status == 200 && r.data is Some && r.data->0@ == page_json(*out),
            Err(e) => r.status == 500 && r.message@ == failure_text("Failed to execute scan"@, *e)
                && r.data is None,
        },
{
    match result {
        Ok(out) => page_response(out, "Scan executed successfully"),
        Err(e) => service_failure("Failed to execute scan", e),
    }
}

} // verus!
