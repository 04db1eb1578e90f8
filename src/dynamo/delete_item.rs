//! Deleting an item by its key.
use vstd::prelude::*;
use crate::dynamo::types::{
    array_field, bad_request, failure_text, get_array, write_response, ApiResponse, ServiceError,
};
use crate::expression::{read_typed_attributes, typed_attrs};
use crate::value::{attr_entry_models, AttrModel, AttrValue, Json, JsonModel};

verus! {

/// A deletion of an item.
pub struct DeleteItemInput<'a> {
    pub table_name: &'a str,
    pub payload: &'a Json,
}

/// The deletion to send to the store.
pub struct DeleteItemRequest {
    pub table_name: String,
    pub key: Vec<(String, AttrValue)>,
}

/// The key a deletion payload names: the convertible entries of a non-empty `keys`
/// array; `None` when the array is missing or empty or no entry converts.
pub open spec fn planned_delete_key(p: JsonModel) -> Option<Seq<(Seq<char>, AttrModel)>> {
    match array_field(p, "keys"@) {
        Some(ks) => if ks.len() == 0 || typed_attrs(ks).len() == 0 {
            None
        } else {
            Some(typed_attrs(ks))
        },
        None => None,
    }
}

/// Why a deletion payload is rejected: no `keys` array, an empty one, or no convertible
/// key.
pub open spec fn delete_rejection(p: JsonModel) -> Seq<char> {
    match array_field(p, "keys"@) {
        None => "Keys array is required"@,
        Some(ks) => if ks.len() == 0 {
            "At least one key is required for deletion"@
        } else {
            "No valid key attributes"@
        },
    }
}

/// Reads a deletion payload (see `planned_delete_key`).
pub fn plan_delete_item(input: DeleteItemInput) -> (r: Result<DeleteItemRequest, ApiResponse>)
    ensures
        match r {
            Ok(q) => q.table_name@ == input.table_name@ && planned_delete_key(input.payload@)
                == Some(attr_entry_models(q.key@)),
            Err(resp) => planned_delete_key(input.payload@) is None && resp.status == 400
                && resp.message@ == delete_rejection(input.payload@) && resp.data is None,
        },
{
    let keys = match get_array(input.payload, "keys") {
        Some(k) => k,
        None => {
            return Err(bad_request(String::from_str("Keys array is required")));
        },
    };
    if keys.len() == 0 {
        return Err(bad_request(String::from_str("At least one key is required for deletion")));
    }
    let key = read_typed_attributes(keys);
    if key.len() == 0 {
        return Err(bad_request(String::from_str("No valid key attributes")));
    }
    Ok(DeleteItemRequest { table_name: input.table_name.to_owned(), key })
}

/// The response to a deletion.
pub fn delete_item_response(result: &Result<(), ServiceError>) -> (r: ApiResponse)
    ensures
        match result {
            Ok(_) => r.status == 200 && r.message@ == "Item deleted successfully"@,
            Err(e) => r.status == 500 && r.message@ == failure_text("Failed to delete item"@, *e),
        },
        r.data is None,
{
    write_response(result, "Item deleted successfully", "Failed to delete item")
}

} // verus!
