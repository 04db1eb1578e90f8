//! Creating an item, optionally leaving an existing item in place.
use vstd::prelude::*;
use crate::dynamo::types::{
    array_field, bad_request, failure_text, get_array, opt_text, service_failure, success,
    write_response, ApiResponse, ServiceError,
};
use crate::expression::{names_model, read_typed_attributes, typed_attrs};
use crate::json_utils::{field, get_field};
use crate::numeric::same_text;
use crate::value::{attr_entry_models, AttrModel, AttrValue, Json, JsonModel};

verus! {

/// An item to create.
pub struct CreateItemInput<'a> {
    pub table_name: &'a str,
    pub payload: &'a Json,
}

/// The put to send to the store. With `skip_existing`, the put is conditional on no item
/// with the first attribute (the partition key) existing.
pub struct PutItemRequest {
    pub table_name: String,
    pub item: Vec<(String, AttrValue)>,
    pub skip_existing: bool,
    pub condition_expression: Option<String>,
    pub names: Vec<(String, String)>,
}

/// The model of a `PutItemRequest`.
pub struct PutItemModel {
    pub table_name: Seq<char>,
    pub item: Seq<(Seq<char>, AttrModel)>,
    pub skip_existing: bool,
    pub condition_expression: Option<Seq<char>>,
    pub names: Seq<(Seq<char>, Seq<char>)>,
}

impl View for PutItemRequest {
    type V = PutItemModel;

    open spec fn view(&self) -> PutItemModel {
        PutItemModel {
            table_name: self.table_name@,
            item: attr_entry_models(self.item@),
            skip_existing: self.skip_existing,
            condition_expression: opt_text(self.condition_expression),
            names: names_model(self.names@),
        }
    }
}

/// Whether a payload asks to leave an existing item in place: `skipExisting` is `true`.
pub open spec fn skip_existing_of(p: JsonModel) -> bool {
    field(p, "skipExisting"@) == Some(JsonModel::Bool(true))
}

/// The put a payload asks for: the convertible entries of its `attributes` array; `None`
/// when there is no such array or no entry converts. With `skipExisting`, the put is
/// conditional on the first converted attribute being absent, so the caller must list a
/// key attribute (the partition key) first: only then does the condition fail exactly
/// when an item with that key exists.
pub open spec fn planned_put(table: Seq<char>, p: JsonModel) -> Option<PutItemModel> {
    match array_field(p, "attributes"@) {
        Some(a) => {
            let item = typed_attrs(a);
            if item.len() == 0 {
                None
            } else {
                let skip = skip_existing_of(p);
                Some(
                    PutItemModel {
                        table_name: table,
                        item,
                        skip_existing: skip,
                        condition_expression: if skip {
                            Some("attribute_not_exists(#attr0)"@)
                        } else {
                            None
                        },
                        names: if skip {
                            seq![("#attr0"@, item[0].0)]
                        } else {
                            Seq::empty()
                        },
                    },
                )
            }
        },
        None => None,
    }
}

/// Why a create payload is rejected: no `attributes` array, or no entry of it converts.
pub open spec fn put_rejection(p: JsonModel) -> Seq<char> {
    if array_field(p, "attributes"@) is None {
        "Attributes array is required"@
    } else {
        "No valid attributes to create"@
    }
}

/// Reads a create payload (see `planned_put`); a payload without convertible
/// attributes gives a 400 response and nothing is sent.
pub fn plan_create_item(input: CreateItemInput) -> (r: Result<PutItemRequest, ApiResponse>)
    ensures
        match r {
            Ok(q) => planned_put(input.table_name@, input.payload@) == Some(q@),
            Err(resp) => planned_put(input.table_name@, input.payload@) is None && resp.status
                == 400 && resp.message@ == put_rejection(input.payload@) && resp.data is None,
        },
{
    let p = input.payload;
    let attributes = match get_array(p, "attributes") {
        Some(a) => a,
        None => {
            return Err(bad_request(String::from_str("Attributes array is required")));
        },
    };
    let item = read_typed_attributes(attributes);
    if item.len() == 0 {
        return Err(bad_request(String::from_str("No valid attributes to create")));
    }
    let skip = match get_field(p, "skipExisting") {
        Some(Json::Bool(b)) => *b,
        _ => false,
    };
    let mut names: Vec<(String, String)> = Vec::new();
    let condition = if skip {
        proof {
            crate::value::lemma_attr_entry_models_index(item@);
        }
        names.push((String::from_str("#attr0"), item[0].0.clone()));
        proof {
            reveal_strlit("#attr0");
            assert(names_model(names@) =~= seq![("#attr0"@, attr_entry_models(item@)[0].0)]);
        }
        Some(String::from_str("attribute_not_exists(#attr0)"))
    } else {
        assert(names_model(names@) =~= Seq::empty());
        None
    };
    proof {
        reveal_strlit("attribute_not_exists(#attr0)");
    }
    Ok(
        PutItemRequest {
            table_name: input.table_name.to_owned(),
            item,
            skip_existing: skip,
            condition_expression: condition,
            names,
        },
    )
}

/// Whether a store error is the rejection of a conditional write.
pub open spec fn is_conditional_check_failure(e: ServiceError) -> bool {
    match e.code {
        Some(c) => c@ == "ConditionalCheckFailedException"@,
        None => false,
    }
}

/// The status of the response to a put (see `create_item_response`).
pub open spec fn create_status(result: Result<(), ServiceError>, skip_existing: bool) -> u16 {
    match result {
        Ok(_) => 200,
        Err(e) => if skip_existing && is_conditional_check_failure(e) {
            200
        } else {
            500
        },
    }
}

/// The response to a put. A conditional-check rejection of a put that asked to skip an
/// existing item is a success: the item the caller wanted is there. Any other error is a
/// 500.
pub fn create_item_response(result: &Result<(), ServiceError>, skip_existing: bool) -> (r: ApiResponse)
    ensures
        match result {
            Ok(_) => r.status == 200 && r.message@ == "Item created successfully"@,
            Err(e) => if skip_existing && is_conditional_check_failure(*e) {
                r.status == 200 && r.message@ == "Item already exists; skipped"@
            } else {
                r.status == 500 && r.message@ == failure_text("Failed to create item"@, *e)
            },
        },
        r.data is None,
        r.status == create_status(*result, skip_existing),
{
    match result {
        Err(e) => {
            let conditional = match &e.code {
                Some(c) => same_text(c.as_str(), "ConditionalCheckFailedException"),
                None => false,
            };
            if skip_existing && conditional {
                success("Item already exists; skipped", None)
            } else {
                service_failure("Failed to create item", e)
            }
        },
        Ok(_) => write_response(result, "Item created successfully", "Failed to create item"),
    }
}

} // verus!
