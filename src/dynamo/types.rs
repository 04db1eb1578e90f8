//! The response envelope, the store's error report, readers for payload fields shared by
//! the operations, and the shaping of pages of items.
use vstd::prelude::*;
use crate::dynamodb_utils::{
    attr_json_entries, convert_attr_value_to_json, cursor_entries, lemma_attr_entry_models_step,
    lemma_json_entry_models_push, lemma_json_models_push,
};
use crate::json_utils::{field, get_field, get_str, str_field};
use crate::value::{attr_entry_models, json_entry_models, json_models, AttrModel, AttrValue, Json, JsonModel};

verus! {

/// The outcome of an operation: a status class (200, 400, 404, 500), a message, and an
/// optional payload.
#[derive(Debug)]
pub struct ApiResponse {
    pub status: u16,
    pub message: String,
    pub data: Option<Json>,
}

/// An error reported by the store: its error code and message, when it gave them.
#[derive(Debug)]
pub struct ServiceError {
    pub code: Option<String>,
    pub message: Option<String>,
}

/// A part of an error report, or `UnknownError` when it is missing.
pub open spec fn or_unknown(s: Option<String>) -> Seq<char> {
    match s {
        Some(t) => t@,
        None => "UnknownError"@,
    }
}

/// The message of a failed store call: what failed, then the error code and message.
pub open spec fn failure_text(prefix: Seq<char>, e: ServiceError) -> Seq<char> {
    prefix + "!\n\nerrorCode: "@ + or_unknown(e.code) + "\nmessage: "@ + or_unknown(e.message)
}

fn or_unknown_text(s: &Option<String>) -> (r: &str)
    ensures
        r@ == or_unknown(*s),
{
    match s {
        Some(t) => t.as_str(),
        None => "UnknownError",
    }
}

/// A 400 response for a request that was rejected before reaching the store.
pub fn bad_request(message: String) -> (r: ApiResponse)
    ensures
        r.status == 400,
        r.message@ == message@,
        r.data is None,
{
    ApiResponse { status: 400, message, data: None }
}

/// A 200 response.
pub fn success(message: &str, data: Option<Json>) -> (r: ApiResponse)
    ensures
        r.status == 200,
        r.message@ == message@,
        r.data == data,
{
    ApiResponse { status: 200, message: message.to_owned(), data }
}

/// The 500 response for a failed store call (see `failure_text`).
pub fn service_failure(prefix: &str, e: &ServiceError) -> (r: ApiResponse)
    ensures
        r.status == 500,
        r.message@ == failure_text(prefix@, *e),
        r.data is None,
{
    let mut m = prefix.to_owned();
    m.append("!\n\nerrorCode: ");
    m.append(or_unknown_text(&e.code));
    m.append("\nmessage: ");
    m.append(or_unknown_text(&e.message));
    ApiResponse { status: 500, message: m, data: None }
}

/// The model of an optional string.
pub open spec fn opt_text(o: Option<String>) -> Option<Seq<char>> {
    match o {
        Some(s) => Some(s@),
        None => None,
    }
}

/// A key clause `{name, value}` with string fields, as (name, value).
pub open spec fn key_clause_of(k: Option<JsonModel>) -> Option<(Seq<char>, Seq<char>)> {
    match k {
        Some(obj) => match (str_field(obj, "name"@), str_field(obj, "value"@)) {
            (Some(n), Some(v)) => Some((n, v)),
            _ => None,
        },
        None => None,
    }
}

/// The page size a payload asks for: its `limit`, an integer from 0 to `i32::MAX`.
pub open spec fn limit_of(p: JsonModel) -> Option<i32> {
    match field(p, "limit"@) {
        Some(JsonModel::Int(n)) => if 0 <= n <= i32::MAX {
            Some(n as i32)
        } else {
            None
        },
        _ => None,
    }
}

/// The filter objects of a payload: its `filters` array, or none.
pub open spec fn filter_list(p: JsonModel) -> Seq<JsonModel> {
    match field(p, "filters"@) {
        Some(JsonModel::Array(a)) => a,
        _ => Seq::empty(),
    }
}

/// The start key a payload resumes from: the entries of its `exclusive_start_key`
/// object (see `cursor_entries`), or none.
pub open spec fn start_key_of(p: JsonModel) -> Seq<(Seq<char>, AttrModel)> {
    match field(p, "exclusive_start_key"@) {
        Some(JsonModel::Object(e)) => cursor_entries(e),
        _ => Seq::empty(),
    }
}

/// Reads a key clause (see `key_clause_of`).
pub fn read_key_clause(k: Option<&Json>) -> (r: Option<(String, String)>)
    ensures
        match r {
            Some(c) => key_clause_of(
                match k {
                    Some(j) => Some(j@),
                    None => None,
                },
            ) == Some((c.0@, c.1@)),
            None => key_clause_of(
                match k {
                    Some(j) => Some(j@),
                    None => None,
                },
            ) is None,
        },
{
    match k {
        Some(obj) => match (get_str(obj, "name"), get_str(obj, "value")) {
            (Some(n), Some(v)) => Some((n.clone(), v.clone())),
            _ => None,
        },
        None => None,
    }
}

/// Reads the page size (see `limit_of`).
pub fn read_limit(p: &Json) -> (r: Option<i32>)
    ensures
        r == limit_of(p@),
{
    match get_field(p, "limit") {
        Some(Json::Int(n)) => if 0 <= *n && *n <= 0x7fff_ffff {
            Some(*n as i32)
        } else {
            None
        },
        _ => None,
    }
}

/// Reads the start key (see `start_key_of`).
pub fn read_start_key(p: &Json) -> (r: Vec<(String, AttrValue)>)
    ensures
        attr_entry_models(r@) == start_key_of(p@),
{
    crate::dynamodb_utils::decode_cursor(get_field(p, "exclusive_start_key"))
}

/// Reads an optional string field.
pub fn read_opt_str(p: &Json, k: &str) -> (r: Option<String>)
    ensures
        opt_text(r) == str_field(p@, k@),
{
    match get_str(p, k) {
        Some(s) => Some(s.clone()),
        None => None,
    }
}

// ---------------------------------------------------------------------------
// Pages of items
// ---------------------------------------------------------------------------

/// One page of a query or scan as the store returned it.
pub struct PageOutput {
    pub items: Vec<Vec<(String, AttrValue)>>,
    pub count: i32,
    pub scanned_count: i32,
    pub last_evaluated_key: Option<Vec<(String, AttrValue)>>,
}

/// The JSON object of an item: each attribute read back as JSON.
pub open spec fn item_json(item: Seq<(String, AttrValue)>) -> JsonModel {
    JsonModel::Object(attr_json_entries(attr_entry_models(item)))
}

/// The JSON of a list of items.
pub open spec fn items_json(items: Seq<Vec<(String, AttrValue)>>) -> Seq<JsonModel> {
    items.map_values(|it: Vec<(String, AttrValue)>| item_json(it@))
}

/// The data of a page: its items, counts, and the cursor for the next page (null when
/// there is none).
pub open spec fn page_json(out: PageOutput) -> JsonModel {
    JsonModel::Object(
        seq![
            ("items"@, JsonModel::Array(items_json(out.items@))),
            ("count"@, JsonModel::Int(out.count as int)),
            ("scanned_count"@, JsonModel::Int(out.scanned_count as int)),
            ("last_evaluated_key"@, crate::dynamodb_utils::encoded_cursor(
                match out.last_evaluated_key {
                    Some(k) => Some(attr_entry_models(k@)),
                    None => None,
                },
            )),
        ],
    )
}

/// Converts a stored item to a JSON object (see `item_json`).
pub fn item_to_json(item: &Vec<(String, AttrValue)>) -> (r: Json)
    ensures
        r@ == item_json(item@),
{
    let mut out: Vec<(String, Json)> = Vec::new();
    let mut i: usize = 0;
    while i < item.len()
        invariant
            i <= item@.len(),
            json_entry_models(out@) == attr_json_entries(attr_entry_models(item@.subrange(0, i as int))),
        decreases item@.len() - i,
    {
        let ghost prefix = attr_entry_models(item@.subrange(0, i as int));
        proof {
            lemma_attr_entry_models_step(item@, i as int);
            assert(prefix.push((item@[i as int].0@, item@[i as int].1@)).drop_last() =~= prefix);
        }
        let j = convert_attr_value_to_json(&item[i].1);
        let k = item[i].0.clone();
        proof {
            lemma_json_entry_models_push(out@, k, j);
        }
        out.push((k, j));
        i = i + 1;
    }
    assert(item@.subrange(0, item@.len() as int) =~= item@);
    Json::Object(out)
}

/// Converts a list of stored items.
pub fn items_to_json(items: &Vec<Vec<(String, AttrValue)>>) -> (r: Vec<Json>)
    ensures
        json_models(r@) == items_json(items@),
{
    let mut out: Vec<Json> = Vec::new();
    let mut i: usize = 0;
    while i < items.len()
        invariant
            i <= items@.len(),
            json_models(out@) == items_json(items@.subrange(0, i as int)),
        decreases items@.len() - i,
    {
        let j = item_to_json(&items[i]);
        proof {
            lemma_json_models_push(out@, j);
            assert(items_json(items@.subrange(0, i + 1)) =~= items_json(
                items@.subrange(0, i as int),
            ).push(j@));
        }
        out.push(j);
        i = i + 1;
    }
    assert(items@.subrange(0, items@.len() as int) =~= items@);
    out
}

pub fn named(name: &str, value: Json) -> (r: (String, Json))
    ensures
        r.0@ == name@,
        r.1 == value,
{
    (name.to_owned(), value)
}

/// The 200 response for a page (see `page_json`).
pub fn page_response(out: &PageOutput, message: &str) -> (r: ApiResponse)
    ensures
        r.status == 200,
        r.message@ == message@,
        r.data is Some,
        r.data->0@ == page_json(*out),
{
    let mut fields: Vec<(String, Json)> = Vec::new();
    let items = Json::Array(items_to_json(&out.items));
    let e0 = named("items", items);
    proof {
        lemma_json_entry_models_push(fields@, e0.0, e0.1);
    }
    fields.push(e0);
    let e1 = named("count", Json::Int(out.count as i64));
    proof {
        lemma_json_entry_models_push(fields@, e1.0, e1.1);
    }
    fields.push(e1);
    let e2 = named("scanned_count", Json::Int(out.scanned_count as i64));
    proof {
        lemma_json_entry_models_push(fields@, e2.0, e2.1);
    }
    fields.push(e2);
    let e3 = named("last_evaluated_key", crate::dynamodb_utils::encode_cursor(&out.last_evaluated_key));
    proof {
        lemma_json_entry_models_push(fields@, e3.0, e3.1);
    }
    fields.push(e3);
    let data = Json::Object(fields);
    assert(data@ == page_json(*out)) by {
        assert(json_entry_models(fields@) =~= seq![
            ("items"@, JsonModel::Array(items_json(out.items@))),
            ("count"@, JsonModel::Int(out.count as int)),
            ("scanned_count"@, JsonModel::Int(out.scanned_count as int)),
            ("last_evaluated_key"@, crate::dynamodb_utils::encoded_cursor(
                match out.last_evaluated_key {
                    Some(k) => Some(attr_entry_models(k@)),
                    None => None,
                },
            )),
        ]);
    }
    success(message, Some(data))
}

/// An array field of a payload.
pub open spec fn array_field(p: JsonModel, k: Seq<char>) -> Option<Seq<JsonModel>> {
    match field(p, k) {
        Some(JsonModel::Array(a)) => Some(a),
        _ => None,
    }
}

/// Reads an array field.
pub fn get_array<'a>(p: &'a Json, k: &str) -> (r: Option<&'a Vec<Json>>)
    ensures
        match r {
            Some(a) => array_field(p@, k@) == Some(json_models(a@)),
            None => array_field(p@, k@) is None,
        },
{
    match get_field(p, k) {
        Some(Json::Array(a)) => Some(a),
        _ => None,
    }
}

/// A 200 response with no data, or the 500 response for a failed store call.
pub fn write_response(result: &Result<(), ServiceError>, done: &str, failed: &str) -> (r: ApiResponse)
    ensures
        match result {
            Ok(_) => r.status == 200 && r.message@ == done@ && r.data is None,
            Err(e) => r.status == 500 && r.message@ == failure_text(failed@, *e) && r.data is None,
        },
{
    match result {
        Ok(_) => success(done, None),
        Err(e) => service_failure(failed, e),
    }
}

} // verus!
