//! Global secondary indexes: creating, re-provisioning and deleting them.
use vstd::prelude::*;
use crate::dynamo::types::{
    array_field, bad_request, failure_text, get_array, named, read_opt_str, service_failure,
    success, ApiResponse, ServiceError,
};
use crate::dynamodb_utils::{lemma_json_entry_models_push, lemma_json_models_step, string_elems};
use crate::json_utils::{field, get_field, get_str, str_field};
use crate::numeric::{folded, same_text_ignoring_case};
use crate::value::{json_entry_models, json_models, strings_model, Json, JsonModel};

verus! {

/// A request to create an index.
pub struct CreateGsiInput {
    pub table_name: String,
    pub payload: Json,
}

/// A request to change an index's provisioned throughput.
pub struct UpdateGsiInput {
    pub table_name: String,
    pub payload: Json,
}

/// A request to delete an index.
pub struct DeleteGsiInput {
    pub table_name: String,
    pub payload: Json,
}

/// The role of a key attribute.
#[derive(Debug, Clone, Copy, PartialEq, Eq, Structural)]
pub enum KeyKind {
    Hash,
    Range,
}

/// The scalar type of a key attribute.
#[derive(Debug, Clone, Copy, PartialEq, Eq, Structural)]
pub enum ScalarKind {
    S,
    N,
    B,
}

/// Which attributes an index projects.
#[derive(Debug, Clone, Copy, PartialEq, Eq, Structural)]
pub enum ProjectionKind {
    All,
    KeysOnly,
    Include,
}

/// A key role text, in any ASCII case: `RANGE` is a sort key, anything else a
/// partition key.
pub open spec fn key_kind_of(t: Seq<char>) -> KeyKind {
    if folded(t) == folded("RANGE"@) {
        KeyKind::Range
    } else {
        KeyKind::Hash
    }
}

/// A scalar type text, in any ASCII case: `N`, `B`, or else `S`.
pub open spec fn scalar_kind_of(t: Seq<char>) -> ScalarKind {
    if folded(t) == folded("N"@) {
        ScalarKind::N
    } else if folded(t) == folded("B"@) {
        ScalarKind::B
    } else {
        ScalarKind::S
    }
}

/// A projection text, in any ASCII case: `KEYS_ONLY`, `INCLUDE`, or else `ALL`.
pub open spec fn projection_kind_of(t: Seq<char>) -> ProjectionKind {
    if folded(t) == folded("KEYS_ONLY"@) {
        ProjectionKind::KeysOnly
    } else if folded(t) == folded("INCLUDE"@) {
        ProjectionKind::Include
    } else {
        ProjectionKind::All
    }
}

/// The scalar type of an optional type text; `S` when absent.
pub open spec fn type_or_s(t: Option<Seq<char>>) -> ScalarKind {
    match t {
        Some(x) => scalar_kind_of(x),
        None => ScalarKind::S,
    }
}

/// Reads a key role text.
pub fn parse_key_kind(t: &str) -> (r: KeyKind)
    ensures
        r == key_kind_of(t@),
{
    if same_text_ignoring_case(t, "RANGE") {
        KeyKind::Range
    } else {
        KeyKind::Hash
    }
}

/// Reads a scalar type text.
pub fn parse_scalar_type(t: &str) -> (r: ScalarKind)
    ensures
        r == scalar_kind_of(t@),
{
    if same_text_ignoring_case(t, "N") {
        ScalarKind::N
    } else if same_text_ignoring_case(t, "B") {
        ScalarKind::B
    } else {
        ScalarKind::S
    }
}

/// Reads a projection text.
pub fn parse_projection_type(t: &str) -> (r: ProjectionKind)
    ensures
        r == projection_kind_of(t@),
{
    if same_text_ignoring_case(t, "KEYS_ONLY") {
        ProjectionKind::KeysOnly
    } else if same_text_ignoring_case(t, "INCLUDE") {
        ProjectionKind::Include
    } else {
        ProjectionKind::All
    }
}

fn read_type_or_s(p: &Json, k: &str) -> (r: ScalarKind)
    ensures
        r == type_or_s(str_field(p@, k@)),
{
    match get_str(p, k) {
        Some(t) => parse_scalar_type(t.as_str()),
        None => ScalarKind::S,
    }
}

/// One element of an index's key schema.
pub struct KeySchemaEntry {
    pub attribute_name: String,
    pub key_type: KeyKind,
    pub attribute_type: ScalarKind,
}

/// The model of a key schema element.
pub open spec fn entry_model(e: KeySchemaEntry) -> (Seq<char>, KeyKind, ScalarKind) {
    (e.attribute_name@, e.key_type, e.attribute_type)
}

/// The model of a key schema.
pub open spec fn schema_model(v: Seq<KeySchemaEntry>) -> Seq<(Seq<char>, KeyKind, ScalarKind)> {
    v.map_values(|e: KeySchemaEntry| entry_model(e))
}

/// A key schema object `{attribute_name, key_type, attribute_type?}`.
pub open spec fn schema_entry_of(item: JsonModel) -> Option<(Seq<char>, KeyKind, ScalarKind)> {
    match (str_field(item, "attribute_name"@), str_field(item, "key_type"@)) {
        (Some(n), Some(k)) => Some((n, key_kind_of(k), type_or_s(str_field(item, "attribute_type"@)))),
        _ => None,
    }
}

/// A key schema array; `None` when any element lacks a name or a role.
pub open spec fn schema_entries(s: Seq<JsonModel>) -> Option<Seq<(Seq<char>, KeyKind, ScalarKind)>>
    decreases s.len(),
{
    if s.len() == 0 {
        Some(Seq::empty())
    } else {
        match (schema_entries(s.drop_last()), schema_entry_of(s.last())) {
            (Some(r), Some(e)) => Some(r.push(e)),
            _ => None,
        }
    }
}

/// The key schema given as `partition_key` (with `partition_key_type`) and an optional
/// non-empty `sort_key` (with `sort_key_type`).
pub open spec fn legacy_schema(p: JsonModel) -> Option<Seq<(Seq<char>, KeyKind, ScalarKind)>> {
    match str_field(p, "partition_key"@) {
        Some(pk) => {
            let first = seq![(pk, KeyKind::Hash, type_or_s(str_field(p, "partition_key_type"@)))];
            match str_field(p, "sort_key"@) {
                Some(sk) => if sk.len() > 0 {
                    Some(first.push((sk, KeyKind::Range, type_or_s(str_field(p, "sort_key_type"@)))))
                } else {
                    Some(first)
                },
                None => Some(first),
            }
        },
        None => None,
    }
}

/// The key schema of an index payload: its `key_schema` array when it has one, else the
/// `partition_key`/`sort_key` form.
pub open spec fn key_schema_of(p: JsonModel) -> Option<Seq<(Seq<char>, KeyKind, ScalarKind)>> {
    match array_field(p, "key_schema"@) {
        Some(a) => schema_entries(a),
        None => legacy_schema(p),
    }
}

/// Two integer fields read together; `None` unless both are integers.
pub open spec fn int_pair(p: JsonModel, a: Seq<char>, b: Seq<char>) -> Option<(int, int)> {
    match (field(p, a), field(p, b)) {
        (Some(JsonModel::Int(x)), Some(JsonModel::Int(y))) => Some((x, y)),
        _ => None,
    }
}

/// The projection text of a payload; `ALL` when absent.
pub open spec fn projection_text(p: JsonModel) -> Seq<char> {
    match str_field(p, "projection_type"@) {
        Some(t) => t,
        None => "ALL"@,
    }
}

/// The index to create.
pub struct CreateGsiRequest {
    pub table_name: String,
    pub index_name: String,
    pub key_schema: Vec<KeySchemaEntry>,
    pub projection: ProjectionKind,
    pub non_key_attributes: Vec<String>,
    pub provisioned_throughput: Option<(i64, i64)>,
    pub warm_throughput: Option<(i64, i64)>,
}

/// The model of a `CreateGsiRequest`.
pub struct CreateGsiModel {
    pub table_name: Seq<char>,
    pub index_name: Seq<char>,
    pub key_schema: Seq<(Seq<char>, KeyKind, ScalarKind)>,
    pub projection: ProjectionKind,
    pub non_key_attributes: Seq<Seq<char>>,
    pub provisioned_throughput: Option<(int, int)>,
    pub warm_throughput: Option<(int, int)>,
}

pub open spec fn opt_int_pair(o: Option<(i64, i64)>) -> Option<(int, int)> {
    match o {
        Some(p) => Some((p.0 as int, p.1 as int)),
        None => None,
    }
}

impl View for CreateGsiRequest {
    type V = CreateGsiModel;

    open spec fn view(&self) -> CreateGsiModel {
        CreateGsiModel {
            table_name: self.table_name@,
            index_name: self.index_name@,
            key_schema: schema_model(self.key_schema@),
            projection: self.projection,
            non_key_attributes: strings_model(self.non_key_attributes@),
            provisioned_throughput: opt_int_pair(self.provisioned_throughput),
            warm_throughput: opt_int_pair(self.warm_throughput),
        }
    }
}

/// The index a creation payload asks for; `None` without an `index_name` or a valid key
/// schema. Non-key attributes (`projected_attributes`) count only for an `INCLUDE`
/// projection; throughput settings only when both numbers are given.
pub open spec fn planned_create_gsi(table: Seq<char>, p: JsonModel) -> Option<CreateGsiModel> {
    match (str_field(p, "index_name"@), key_schema_of(p)) {
        (Some(name), Some(schema)) => {
            let projection = projection_kind_of(projection_text(p));
            Some(
                CreateGsiModel {
                    table_name: table,
                    index_name: name,
                    key_schema: schema,
                    projection,
                    non_key_attributes: if projection == ProjectionKind::Include {
                        match array_field(p, "projected_attributes"@) {
                            Some(a) => string_elems(a),
                            None => Seq::empty(),
                        }
                    } else {
                        Seq::empty()
                    },
                    provisioned_throughput: int_pair(
                        p,
                        "read_capacity_units"@,
                        "write_capacity_units"@,
                    ),
                    warm_throughput: match field(p, "warm_throughput"@) {
                        Some(w) => int_pair(w, "read_units_per_second"@, "write_units_per_second"@),
                        None => None,
                    },
                },
            )
        },
        _ => None,
    }
}

fn read_int_pair(p: &Json, a: &str, b: &str) -> (r: Option<(i64, i64)>)
    ensures
        opt_int_pair(r) == int_pair(p@, a@, b@),
{
    match (get_field(p, a), get_field(p, b)) {
        (Some(Json::Int(x)), Some(Json::Int(y))) => Some((*x, *y)),
        _ => None,
    }
}

proof fn lemma_schema_entries_push(s: Seq<JsonModel>, j: JsonModel)
    ensures
        schema_entries(s.push(j)) == (match (schema_entries(s), schema_entry_of(j)) {
            (Some(r), Some(e)) => Some(r.push(e)),
            _ => None,
        }),
{
    assert(s.push(j).drop_last() =~= s);
}

proof fn lemma_schema_model_push(v: Seq<KeySchemaEntry>, e: KeySchemaEntry)
    ensures
        schema_model(v.push(e)) == schema_model(v).push(entry_model(e)),
{
    assert(schema_model(v.push(e)) =~= schema_model(v).push(entry_model(e)));
}

fn read_schema_entries(items: &Vec<Json>) -> (r: Option<Vec<KeySchemaEntry>>)
    ensures
        match r {
            Some(v) => schema_entries(json_models(items@)) == Some(schema_model(v@)),
            None => schema_entries(json_models(items@)) is None,
        },
{
    let mut out: Vec<KeySchemaEntry> = Vec::new();
    let mut i: usize = 0;
    while i < items.len()
        invariant
            i <= items@.len(),
            schema_entries(json_models(items@.subrange(0, i as int))) == Some(schema_model(out@)),
        decreases items@.len() - i,
    {
        proof {
            lemma_json_models_step(items@, i as int);
            lemma_schema_entries_push(json_models(items@.subrange(0, i as int)), items@[i as int]@);
        }
        let item = &items[i];
        match (get_str(item, "attribute_name"), get_str(item, "key_type")) {
            (Some(n), Some(k)) => {
                let e = KeySchemaEntry {
                    attribute_name: n.clone(),
                    key_type: parse_key_kind(k.as_str()),
                    attribute_type: read_type_or_s(item, "attribute_type"),
                };
                proof {
                    lemma_schema_model_push(out@, e);
                }
                out.push(e);
            },
            _ => {
                proof {
                    lemma_schema_entries_none_extends(items@, i + 1);
                }
                return None;
            },
        }
        i = i + 1;
    }
    assert(items@.subrange(0, items@.len() as int) =~= items@);
    Some(out)
}

proof fn lemma_schema_entries_none_extends(items: Seq<Json>, k: int)
    requires
        0 <= k <= items.len(),
        schema_entries(json_models(items.subrange(0, k))) is None,
    ensures
        schema_entries(json_models(items)) is None,
    decreases items.len() - k,
{
    if k < items.len() {
        crate::dynamodb_utils::lemma_json_models_step(items, k);
        lemma_schema_entries_push(json_models(items.subrange(0, k)), items[k]@);
        lemma_schema_entries_none_extends(items, k + 1);
    } else {
        assert(items.subrange(0, k) =~= items);
    }
}

fn read_key_schema(p: &Json) -> (r: Option<Vec<KeySchemaEntry>>)
    ensures
        match r {
            Some(v) => key_schema_of(p@) == Some(schema_model(v@)),
            None => key_schema_of(p@) is None,
        },
{
    match get_array(p, "key_schema") {
        Some(a) => read_schema_entries(a),
        None => match get_str(p, "partition_key") {
            Some(pk) => {
                let mut out: Vec<KeySchemaEntry> = Vec::new();
                let first = KeySchemaEntry {
                    attribute_name: pk.clone(),
                    key_type: KeyKind::Hash,
                    attribute_type: read_type_or_s(p, "partition_key_type"),
                };
                proof {
                    lemma_schema_model_push(out@, first);
                }
                out.push(first);
                match get_str(p, "sort_key") {
                    Some(sk) => {
                        if sk.as_str().unicode_len() > 0 {
                            let second = KeySchemaEntry {
                                attribute_name: sk.clone(),
                                key_type: KeyKind::Range,
                                attribute_type: read_type_or_s(p, "sort_key_type"),
                            };
                            proof {
                                lemma_schema_model_push(out@, second);
                            }
                            out.push(second);
                        }
                    },
                    None => {},
                }
                Some(out)
            },
            None => None,
        },
    }
}

fn read_strings(a: &Vec<Json>) -> (r: Vec<String>)
    ensures
        strings_model(r@) == string_elems(json_models(a@)),
{
    let mut out: Vec<String> = Vec::new();
    let mut i: usize = 0;
    while i < a.len()
        invariant
            i <= a@.len(),
            strings_model(out@) == string_elems(json_models(a@.subrange(0, i as int))),
        decreases a@.len() - i,
    {
        proof {
            lemma_json_models_step(a@, i as int);
            assert(json_models(a@.subrange(0, i as int)).push(a@[i as int]@).drop_last()
                =~= json_models(a@.subrange(0, i as int)));
        }
        match &a[i] {
            Json::Str(s) => {
                let c = s.clone();
                assert(strings_model(out@.push(c)) =~= strings_model(out@).push(c@));
                out.push(c);
            },
            _ => {},
        }
        i = i + 1;
    }
    assert(a@.subrange(0, a@.len() as int) =~= a@);
    out
}

/// Reads an index creation payload (see `planned_create_gsi`).
pub fn plan_create_gsi(input: &CreateGsiInput) -> (r: Result<CreateGsiRequest, ApiResponse>)
    ensures
        match r {
            Ok(q) => planned_create_gsi(input.table_name@, input.payload@) == Some(q@),
            Err(resp) => planned_create_gsi(input.table_name@, input.payload@) is None
                && resp.status == 400 && resp.data is None && resp.message@ == (if str_field(
                input.payload@,
                "index_name"@,
            ) is None {
                "index_name is required"@
            } else {
                "partition_key or key_schema with attribute_name and key_type is required"@
            }),
        },
{
    let p = &input.payload;
    let index_name = match read_opt_str(p, "index_name") {
        Some(n) => n,
        None => {
            return Err(bad_request(String::from_str("index_name is required")));
        },
    };
    let key_schema = match read_key_schema(p) {
        Some(k) => k,
        None => {
            return Err(
                bad_request(
                    String::from_str(
                        "partition_key or key_schema with attribute_name and key_type is required",
                    ),
                ),
            );
        },
    };
    let projection = match get_str(p, "projection_type") {
        Some(t) => parse_projection_type(t.as_str()),
        None => {
            proof {
                reveal_strlit("ALL");
                reveal_strlit("KEYS_ONLY");
                reveal_strlit("INCLUDE");
                assert(folded("ALL"@) != folded("KEYS_ONLY"@) && folded("ALL"@) != folded(
                    "INCLUDE"@,
                )) by {
                    assert(folded("ALL"@).len() != folded("KEYS_ONLY"@).len());
                    assert(folded("ALL"@).len() != folded("INCLUDE"@).len());
                }
            }
            ProjectionKind::All
        },
    };
    let non_key_attributes = match projection {
        ProjectionKind::Include => match get_array(p, "projected_attributes") {
            Some(a) => read_strings(a),
            None => {
                assert(strings_model(Seq::<String>::empty()) =~= Seq::empty());
                Vec::new()
            },
        },
        _ => {
            assert(strings_model(Seq::<String>::empty()) =~= Seq::empty());
            Vec::new()
        },
    };
    let provisioned_throughput = read_int_pair(p, "read_capacity_units", "write_capacity_units");
    let warm_throughput = match get_field(p, "warm_throughput") {
        Some(w) => read_int_pair(w, "read_units_per_second", "write_units_per_second"),
        None => None,
    };
    Ok(
        CreateGsiRequest {
            table_name: input.table_name.clone(),
            index_name,
            key_schema,
            projection,
            non_key_attributes,
            provisioned_throughput,
            warm_throughput,
        },
    )
}

/// The throughput change for an index.
pub struct UpdateGsiRequest {
    pub table_name: String,
    pub index_name: String,
    pub read_capacity_units: i64,
    pub write_capacity_units: i64,
}

/// The model of an `UpdateGsiRequest`: table, index, read and write capacity.
pub open spec fn update_gsi_model(q: UpdateGsiRequest) -> (Seq<char>, Seq<char>, int, int) {
    (q.table_name@, q.index_name@, q.read_capacity_units as int, q.write_capacity_units as int)
}

/// The throughput change a payload asks for; `None` unless `index_name`,
/// `read_capacity_units` and `write_capacity_units` are all given.
pub open spec fn planned_update_gsi(table: Seq<char>, p: JsonModel) -> Option<(Seq<char>, Seq<char>, int, int)> {
    match (str_field(p, "index_name"@), int_pair(p, "read_capacity_units"@, "write_capacity_units"@)) {
        (Some(name), Some(rw)) => Some((table, name, rw.0, rw.1)),
        _ => None,
    }
}

/// Reads a re-provisioning payload (see `planned_update_gsi`).
pub fn plan_update_gsi(input: &UpdateGsiInput) -> (r: Result<UpdateGsiRequest, ApiResponse>)
    ensures
        match r {
            Ok(q) => planned_update_gsi(input.table_name@, input.payload@) == Some(update_gsi_model(q)),
            Err(resp) => planned_update_gsi(input.table_name@, input.payload@) is None
                && resp.status == 400 && resp.data is None && resp.message@ == (if str_field(
                input.payload@,
                "index_name"@,
            ) is None {
                "index_name is required"@
            } else {
                "read_capacity_units and write_capacity_units are required"@
            }),
        },
{
    let p = &input.payload;
    let index_name = match read_opt_str(p, "index_name") {
        Some(n) => n,
        None => {
            return Err(bad_request(String::from_str("index_name is required")));
        },
    };
    match read_int_pair(p, "read_capacity_units", "write_capacity_units") {
        Some((read, write)) => Ok(
            UpdateGsiRequest {
                table_name: input.table_name.clone(),
                index_name,
                read_capacity_units: read,
                write_capacity_units: write,
            },
        ),
        None => Err(
            bad_request(String::from_str("read_capacity_units and write_capacity_units are required")),
        ),
    }
}

/// The index to delete.
pub struct DeleteGsiRequest {
    pub table_name: String,
    pub index_name: String,
}

/// Reads a deletion payload: `index_name` is required.
pub fn plan_delete_gsi(input: &DeleteGsiInput) -> (r: Result<DeleteGsiRequest, ApiResponse>)
    ensures
        match r {
            Ok(q) => q.table_name@ == input.table_name@ && str_field(input.payload@, "index_name"@)
                == Some(q.index_name@),
            Err(resp) => str_field(input.payload@, "index_name"@) is None && resp.status == 400
                && resp.message@ == "index_name is required"@ && resp.data is None,
        },
{
    match read_opt_str(&input.payload, "index_name") {
        Some(n) => Ok(DeleteGsiRequest { table_name: input.table_name.clone(), index_name: n }),
        None => Err(bad_request(String::from_str("index_name is required"))),
    }
}

/// What is being done to an index.
#[derive(Debug, Clone, Copy, PartialEq, Eq, Structural)]
pub enum GsiAction {
    Create,
    Update,
    Delete,
}

/// The noun for an action in a success message.
pub open spec fn action_noun(a: GsiAction) -> Seq<char> {
    match a {
        GsiAction::Create => "creation"@,
        GsiAction::Update => "update"@,
        GsiAction::Delete => "deletion"@,
    }
}

/// The prefix of a failure message for an action.
pub open spec fn action_failure(a: GsiAction) -> Seq<char> {
    match a {
        GsiAction::Create => "Failed to create GSI"@,
        GsiAction::Update => "Failed to update GSI"@,
        GsiAction::Delete => "Failed to delete GSI"@,
    }
}

fn noun_of(a: GsiAction) -> (r: &'static str)
    ensures
        r@ == action_noun(a),
{
    match a {
        GsiAction::Create => "creation",
        GsiAction::Update => "update",
        GsiAction::Delete => "deletion",
    }
}

fn failure_of(a: GsiAction) -> (r: &'static str)
    ensures
        r@ == action_failure(a),
{
    match a {
        GsiAction::Create => "Failed to create GSI",
        GsiAction::Update => "Failed to update GSI",
        GsiAction::Delete => "Failed to delete GSI",
    }
}

/// The data of an index change: the index, its kind, and the table status the store
/// reported (null when it gave none).
pub open spec fn gsi_json(index_name: Seq<char>, table_status: Option<String>) -> JsonModel {
    JsonModel::Object(
        seq![
            ("indexName"@, JsonModel::Str(index_name)),
            ("indexType"@, JsonModel::Str("GSI"@)),
            ("tableStatus"@, match table_status {
                Some(s) => JsonModel::Str(s@),
                None => JsonModel::Null,
            }),
        ],
    )
}

/// The response to an index change: `GSI '<name>' <noun> initiated successfully` with
/// its data on success, else a 500 with the store's error.
pub fn gsi_response(action: GsiAction, index_name: &str, result: &Result<Option<String>, ServiceError>) -> (r: ApiResponse)
    ensures
        match result {
            Ok(status) => r.status == 200 && r.message@ == "GSI '"@ + index_name@ + "' "@
                + action_noun(action) + " initiated successfully"@ && r.data is Some
                && r.data->0@ == gsi_json(index_name@, *status),
            Err(e) => r.status == 500 && r.message@ == failure_text(action_failure(action), *e)
                && r.data is None,
        },
{
    match result {
        Ok(status) => {
            let mut message = String::from_str("GSI '");
            message.append(index_name);
            message.append("' ");
            message.append(noun_of(action));
            message.append(" initiated successfully");
            proof {
                reveal_strlit("GSI '");
            }
            let mut fields: Vec<(String, Json)> = Vec::new();
            let e0 = named("indexName", Json::Str(index_name.to_owned()));
            proof {
                lemma_json_entry_models_push(fields@, e0.0, e0.1);
            }
            fields.push(e0);
            let e1 = named("indexType", Json::Str(String::from_str("GSI")));
            proof {
                lemma_json_entry_models_push(fields@, e1.0, e1.1);
                reveal_strlit("GSI");
            }
            fields.push(e1);
            let st = match status {
                Some(s) => Json::Str(s.clone()),
                None => Json::Null,
            };
            let e2 = named("tableStatus", st);
            proof {
                lemma_json_entry_models_push(fields@, e2.0, e2.1);
                assert(json_entry_models(fields@.push(e2)) =~= seq![
                    ("indexName"@, JsonModel::Str(index_name@)),
                    ("indexType"@, JsonModel::Str("GSI"@)),
                    ("tableStatus"@, match *status {
                        Some(s) => JsonModel::Str(s@),
                        None => JsonModel::Null,
                    }),
                ]);
            }
            fields.push(e2);
            ApiResponse { status: 200, message, data: Some(Json::Object(fields)) }
        },
        Err(e) => service_failure(failure_of(action), e),
    }
}

} // verus!
