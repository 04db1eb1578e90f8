//! JSON helpers: reading fields of payload objects, and the tag-free conversion.
use vstd::prelude::*;
use crate::dynamodb_utils::{infer_attr_value_from_json, inferred};
use crate::numeric::same_text;
use crate::value::{
    json_entry_models, lemma_json_entry_models_index, opt_attr_model, AttrValue, Json, JsonModel,
};

verus! {

/// The value stored under a key among object entries; the last entry wins when a key
/// repeats.
pub open spec fn lookup(e: Seq<(Seq<char>, JsonModel)>, k: Seq<char>) -> Option<JsonModel>
    decreases e.len(),
{
    if e.len() == 0 {
        None
    } else if e.last().0 == k {
        Some(e.last().1)
    } else {
        lookup(e.drop_last(), k)
    }
}

/// The field of an object under a key; nothing for a missing key or a non-object.
pub open spec fn field(j: JsonModel, k: Seq<char>) -> Option<JsonModel> {
    match j {
        JsonModel::Object(e) => lookup(e, k),
        _ => None,
    }
}

/// The string held by a field, if the field is a string.
pub open spec fn str_field(j: JsonModel, k: Seq<char>) -> Option<Seq<char>> {
    match field(j, k) {
        Some(JsonModel::Str(s)) => Some(s),
        _ => None,
    }
}

/// Reads a field of an object.
pub fn get_field<'a>(j: &'a Json, k: &str) -> (r: Option<&'a Json>)
    ensures
        match r {
            Some(v) => field(j@, k@) == Some(v@),
            None => field(j@, k@) is None,
        },
{
    match j {
        Json::Object(entries) => {
            let mut found: Option<usize> = None;
            let mut i: usize = 0;
            while i < entries.len()
                invariant
                    i <= entries@.len(),
                    match found {
                        Some(f) => f < i && lookup(
                            json_entry_models(entries@.subrange(0, i as int)),
                            k@,
                        ) == Some(entries@[f as int].1@),
                        None => lookup(
                            json_entry_models(entries@.subrange(0, i as int)),
                            k@,
                        ) is None,
                    },
                decreases entries@.len() - i,
            {
                let ghost prev = json_entry_models(entries@.subrange(0, i as int));
                let ghost next = json_entry_models(entries@.subrange(0, i + 1));
                proof {
                    assert(entries@.subrange(0, i + 1).drop_last() =~= entries@.subrange(
                        0,
                        i as int,
                    ));
                    lemma_json_entry_models_index(entries@.subrange(0, i + 1));
                    assert(next.drop_last() =~= prev);
                }
                if same_text(entries[i].0.as_str(), k) {
                    found = Some(i);
                }
                i = i + 1;
            }
            assert(entries@.subrange(0, entries@.len() as int) =~= entries@);
            match found {
                Some(f) => Some(&entries[f].1),
                None => None,
            }
        },
        _ => None,
    }
}

/// Reads a string field of an object.
pub fn get_str<'a>(j: &'a Json, k: &str) -> (r: Option<&'a String>)
    ensures
        match r {
            Some(s) => str_field(j@, k@) == Some(s@),
            None => str_field(j@, k@) is None,
        },
{
    match get_field(j, k) {
        Some(Json::Str(s)) => Some(s),
        _ => None,
    }
}

/// Converts a JSON value without a tag; every JSON value converts.
pub fn convert_json_to_attr_value(value: &Json) -> (r: Option<AttrValue>)
    ensures
        opt_attr_model(r) == Some(inferred(value@)),
{
    Some(infer_attr_value_from_json(value))
}

} // verus!
