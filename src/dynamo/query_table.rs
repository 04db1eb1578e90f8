//! Queries: a partition-key condition, an optional sort-key condition, filters, paging.
use vstd::prelude::*;
use crate::dynamo::types::{
    bad_request, filter_list, key_clause_of, limit_of, opt_text, page_response, read_key_clause,
    read_limit, read_opt_str, read_start_key, service_failure, start_key_of, ApiResponse,
    PageOutput, ServiceError,
};
use crate::expression::{
    add_filters, filter_names, filter_texts, filter_values, joined, names_model, numbered_filters,
};
use crate::json_utils::{field, get_field, str_field};
use crate::value::{attr_entry_models, AttrModel, AttrValue, Json, JsonModel};

verus! {

/// A query against a table.
pub struct QueryTableInput<'a> {
    pub table_name: &'a str,
    pub payload: &'a Json,
}

/// The query to send to the store.
pub struct QueryRequest {
    pub table_name: String,
    pub index_name: Option<String>,
    pub limit: i32,
    pub exclusive_start_key: Vec<(String, AttrValue)>,
    pub key_condition_expression: String,
    pub filter_expression: Option<String>,
    pub names: Vec<(String, String)>,
    pub values: Vec<(String, AttrValue)>,
}

/// The model of a `QueryRequest`.
pub struct QueryModel {
    pub table_name: Seq<char>,
    pub index_name: Option<Seq<char>>,
    pub limit: i32,
    pub exclusive_start_key: Seq<(Seq<char>, AttrModel)>,
    pub key_condition_expression: Seq<char>,
    pub filter_expression: Option<Seq<char>>,
    pub names: Seq<(Seq<char>, Seq<char>)>,
    pub values: Seq<(Seq<char>, AttrModel)>,
}

impl View for QueryRequest {
    type V = QueryModel;

    open spec fn view(&self) -> QueryModel {
        QueryModel {
            table_name: self.table_name@,
            index_name: opt_text(self.index_name),
            limit: self.limit,
            exclusive_start_key: attr_entry_models(self.exclusive_start_key@),
            key_condition_expression: self.key_condition_expression@,
            filter_expression: opt_text(self.filter_expression),
            names: names_model(self.names@),
            values: attr_entry_models(self.values@),
        }
    }
}

/// The filter expression of a list of clauses: their fragments joined by ` AND `, or
/// none when there is no clause.
pub open spec fn filter_expression_of(fs: Seq<(nat, crate::expression::FilterModel)>) -> Option<Seq<char>> {
    if fs.len() == 0 {
        None
    } else {
        Some(joined(filter_texts(fs), " AND "@))
    }
}

/// The query a payload asks for, or `None` when it lacks a partition key `{name,
/// value}` or a `limit`, or has a malformed `sort_key`. The partition key binds
/// `#attr0`/`:pkey`, the sort key `#attr1`/`:skey`, and the filters take names
/// `#attr2`, `#attr3`, ... in the order they are read, and values from `:filter0` on.
pub open spec fn planned_query(table: Seq<char>, p: JsonModel) -> Option<QueryModel> {
    match (key_clause_of(field(p, "partition_key"@)), limit_of(p)) {
        (Some(pk), Some(limit)) => {
            let sk_field = field(p, "sort_key"@);
            let sk = key_clause_of(sk_field);
            if sk_field is Some && sk is None {
                None
            } else {
                let fs = numbered_filters(filter_list(p), 2, false);
                let key_names = match sk {
                    Some(s) => seq![("#attr0"@, pk.0), ("#attr1"@, s.0)],
                    None => seq![("#attr0"@, pk.0)],
                };
                let key_values = match sk {
                    Some(s) => seq![(":pkey"@, AttrModel::S(pk.1)), (":skey"@, AttrModel::S(s.1))],
                    None => seq![(":pkey"@, AttrModel::S(pk.1))],
                };
                let condition = match sk {
                    Some(_) => "#attr0 = :pkey"@ + " AND #attr1 = :skey"@,
                    None => "#attr0 = :pkey"@,
                };
                Some(
                    QueryModel {
                        table_name: table,
                        index_name: str_field(p, "index_name"@),
                        limit,
                        exclusive_start_key: start_key_of(p),
                        key_condition_expression: condition,
                        filter_expression: filter_expression_of(fs),
                        names: key_names + filter_names(fs),
                        values: key_values + filter_values(fs),
                    },
                )
            }
        },
        _ => None,
    }
}

/// Why a query payload is rejected, checking the partition key, then the limit, then
/// the sort key.
pub open spec fn query_rejection(p: JsonModel) -> Seq<char> {
    if key_clause_of(field(p, "partition_key"@)) is None {
        "partition_key with name and value is required"@
    } else if limit_of(p) is None {
        "limit is required"@
    } else {
        "sort_key needs a name and a value"@
    }
}

fn pair(a: &str, b: String) -> (r: (String, String))
    ensures
        r.0@ == a@,
        r.1@ == b@,
{
    (a.to_owned(), b)
}

fn value_pair(a: &str, b: AttrValue) -> (r: (String, AttrValue))
    ensures
        r.0@ == a@,
        r.1 == b,
{
    (a.to_owned(), b)
}

/// Reads a query payload (see `planned_query`); a payload that does not describe a
/// query gives a 400 response.
pub fn plan_query(input: QueryTableInput) -> (r: Result<QueryRequest, ApiResponse>)
    ensures
        match r {
            Ok(q) => planned_query(input.table_name@, input.payload@) == Some(q@),
            Err(resp) => planned_query(input.table_name@, input.payload@) is None && resp.status
                == 400 && resp.message@ == query_rejection(input.payload@) && resp.data is None,
        },
{
    let p = input.payload;
    let pk = match read_key_clause(get_field(p, "partition_key")) {
        Some(k) => k,
        None => {
            return Err(bad_request(String::from_str("partition_key with name and value is required")));
        },
    };
    let limit = match read_limit(p) {
        Some(l) => l,
        None => {
            return Err(bad_request(String::from_str("limit is required")));
        },
    };
    let sk_field = get_field(p, "sort_key");
    let sk = read_key_clause(sk_field);
    if sk_field.is_some() && sk.is_none() {
        return Err(bad_request(String::from_str("sort_key needs a name and a value")));
    }
    let ghost pkm = (pk.0@, pk.1@);
    let ghost skm: Option<(Seq<char>, Seq<char>)> = match &sk {
        Some(s) => Some((s.0@, s.1@)),
        None => None,
    };
    let mut names: Vec<(String, String)> = Vec::new();
    let mut values: Vec<(String, AttrValue)> = Vec::new();
    let (pk_name, pk_value) = pk;
    let n0 = pair("#attr0", pk_name);
    names.push(n0);
    let v0 = value_pair(":pkey", AttrValue::S(pk_value));
    proof {
        crate::dynamodb_utils::lemma_attr_entry_models_push(values@, v0.0, v0.1);
    }
    values.push(v0);
    let mut condition = String::from_str("#attr0 = :pkey");
    match sk {
        Some((sk_name, sk_value)) => {
            let n1 = pair("#attr1", sk_name);
            names.push(n1);
            let v1 = value_pair(":skey", AttrValue::S(sk_value));
            proof {
                crate::dynamodb_utils::lemma_attr_entry_models_push(values@, v1.0, v1.1);
            }
            values.push(v1);
            condition.append(" AND #attr1 = :skey");
        },
        None => {},
    }
    let ghost names0 = names_model(names@);
    let ghost values0 = attr_entry_models(values@);
    proof {
        assert(names0 =~= (match skm {
            Some(s) => seq![("#attr0"@, pkm.0), ("#attr1"@, s.0)],
            None => seq![("#attr0"@, pkm.0)],
        }));
        match skm {
            Some(s) => {
                assert(values0 =~= seq![(":pkey"@, AttrModel::S(pkm.1)), (":skey"@, AttrModel::S(s.1))]);
            },
            None => {
                assert(values0 =~= seq![(":pkey"@, AttrModel::S(pkm.1))]);
            },
        }
    }
    let filter_expression = match get_field(p, "filters") {
        Some(Json::Array(fs)) => add_filters(fs, 2, false, &mut names, &mut values),
        _ => {
            assert(numbered_filters(Seq::<JsonModel>::empty(), 2, false) =~= Seq::<
                (nat, crate::expression::FilterModel),
            >::empty());
            assert(names_model(names@) =~= names0 + filter_names(Seq::empty()));
            assert(attr_entry_models(values@) =~= values0 + filter_values(Seq::empty()));
            None
        },
    };
    let req = QueryRequest {
        table_name: input.table_name.to_owned(),
        index_name: read_opt_str(p, "index_name"),
        limit,
        exclusive_start_key: read_start_key(p),
        key_condition_expression: condition,
        filter_expression,
        names,
        values,
    };
    Ok(req)
}

/// The response to a query: its page on success, else a 500 with the store's error.
pub fn query_response(result: &Result<PageOutput, ServiceError>) -> (r: ApiResponse)
    ensures
        match result {
            Ok(out) => r.status == 200 && r.data is Some && r.data->0@
                == crate::dynamo::types::page_json(*out),
            Err(e) => r.status == 500 && r.message@ == crate::dynamo::types::failure_text(
                "Failed to execute query"@,
                *e,
            ) && r.data is None,
        },
{
    match result {
        Ok(out) => page_response(out, "Query executed successfully"),
        Err(e) => service_failure("Failed to execute query", e),
    }
}

} // verus!
