//! Updating attributes of an item with a `SET` expression.
use vstd::prelude::*;
use crate::dynamo::types::{
    array_field, bad_request, failure_text, get_array, write_response, ApiResponse, ServiceError,
};
use crate::expression::{
    build_update_expression, names_model, positioned_attrs, read_positioned_attributes,
    read_typed_attributes, typed_attrs, update_expression_of, update_names, update_values,
};
use crate::value::{attr_entry_models, AttrModel, AttrValue, Json, JsonModel};

verus! {

/// An update of an item.
pub struct UpdateItemInput<'a> {
    pub table_name: &'a str,
    pub payload: &'a Json,
}

/// The update to send to the store.
pub struct UpdateItemRequest {
    pub table_name: String,
    pub key: Vec<(String, AttrValue)>,
    pub update_expression: String,
    pub names: Vec<(String, String)>,
    pub values: Vec<(String, AttrValue)>,
}

/// The model of an `UpdateItemRequest`.
pub struct UpdateItemModel {
    pub table_name: Seq<char>,
    pub key: Seq<(Seq<char>, AttrModel)>,
    pub update_expression: Seq<char>,
    pub names: Seq<(Seq<char>, Seq<char>)>,
    pub values: Seq<(Seq<char>, AttrModel)>,
}

impl View for UpdateItemRequest {
    type V = UpdateItemModel;

    open spec fn view(&self) -> UpdateItemModel {
        UpdateItemModel {
            table_name: self.table_name@,
            key: attr_entry_models(self.key@),
            update_expression: self.update_expression@,
            names: names_model(self.names@),
            values: attr_entry_models(self.values@),
        }
    }
}

/// The update a payload asks for: the item's key from the convertible entries of
/// `keys`, and one `SET` clause per convertible entry of `attributes`, numbered by the
/// entry's position in that array; entries that do not convert bind nothing. `None` when
/// either array is missing, `attributes` is empty, or no key or no attribute converts.
pub open spec fn planned_update(table: Seq<char>, p: JsonModel) -> Option<UpdateItemModel> {
    match (array_field(p, "keys"@), array_field(p, "attributes"@)) {
        (Some(ks), Some(attributes)) => {
            let key = typed_attrs(ks);
            let attrs = positioned_attrs(attributes);
            if attributes.len() == 0 || attrs.len() == 0 || key.len() == 0 {
                None
            } else {
                Some(
                    UpdateItemModel {
                        table_name: table,
                        key,
                        update_expression: update_expression_of(attrs),
                        names: update_names(attrs),
                        values: update_values(attrs),
                    },
                )
            }
        },
        _ => None,
    }
}

/// Why an update payload is rejected, checking in this order: the `keys` array, the
/// `attributes` array, its emptiness, its convertible entries, the convertible keys.
pub open spec fn update_rejection(p: JsonModel) -> Seq<char> {
    match (array_field(p, "keys"@), array_field(p, "attributes"@)) {
        (None, _) => "Keys array is required"@,
        (_, None) => "Attributes array is required"@,
        (Some(ks), Some(attributes)) => if attributes.len() == 0 {
            "At least one attribute is required for update"@
        } else if positioned_attrs(attributes).len() == 0 {
            "No valid attributes to update"@
        } else {
            "No valid key attributes"@
        },
    }
}

/// Reads an update payload (see `planned_update`). When no attribute converts, the
/// result is a 400 response and nothing is sent to the store.
pub fn plan_update_item(input: UpdateItemInput) -> (r: Result<UpdateItemRequest, ApiResponse>)
    ensures
        match r {
            Ok(q) => planned_update(input.table_name@, input.payload@) == Some(q@),
            Err(resp) => planned_update(input.table_name@, input.payload@) is None && resp.status
                == 400 && resp.message@ == update_rejection(input.payload@) && resp.data is None,
        },
        array_field(input.payload@, "attributes"@) matches Some(a) && positioned_attrs(a).len() == 0
            ==> r is Err,
{
    let p = input.payload;
    let keys = match get_array(p, "keys") {
        Some(k) => k,
        None => {
            return Err(bad_request(String::from_str("Keys array is required")));
        },
    };
    let attributes = match get_array(p, "attributes") {
        Some(a) => a,
        None => {
            return Err(bad_request(String::from_str("Attributes array is required")));
        },
    };
    if attributes.len() == 0 {
        return Err(bad_request(String::from_str("At least one attribute is required for update")));
    }
    let attrs = read_positioned_attributes(attributes);
    if attrs.len() == 0 {
        return Err(bad_request(String::from_str("No valid attributes to update")));
    }
    let key = read_typed_attributes(keys);
    if key.len() == 0 {
        return Err(bad_request(String::from_str("No valid key attributes")));
    }
    let clauses = build_update_expression(attrs);
    Ok(
        UpdateItemRequest {
            table_name: input.table_name.to_owned(),
            key,
            update_expression: clauses.expression,
            names: clauses.names,
            values: clauses.values,
        },
    )
}

/// The response to an update.
pub fn update_item_response(result: &Result<(), ServiceError>) -> (r: ApiResponse)
    ensures
        match result {
            Ok(_) => r.status == 200 && r.message@ == "Item updated successfully"@,
            Err(e) => r.status == 500 && r.message@ == failure_text("Failed to update item"@, *e),
        },
        r.data is None,
{
    write_response(result, "Item updated successfully", "Failed to update item")
}

} // verus!
