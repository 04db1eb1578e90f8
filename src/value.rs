//! The two value worlds the codec bridges: schemaless JSON and DynamoDB's attribute
//! values, each with a mathematical model that contracts speak of.
use vstd::prelude::*;

verus! {

/// A JSON value. Numbers are either integers in the signed 64-bit range or other
/// numbers carried as their decimal text.
#[derive(Debug, PartialEq)]
pub enum Json {
    Null,
    Bool(bool),
    Int(i64),
    Float(String),
    Str(String),
    Array(Vec<Json>),
    /// An object's entries in order; a well-formed object's keys are unique
    /// (`distinct_keys`), which the conversions keep.
    Object(Vec<(String, Json)>),
}

/// A DynamoDB attribute value: the ten variants of the attribute-value union. Numbers
/// are decimal text; maps keep the order of their entries.
#[derive(Debug, PartialEq)]
pub enum AttrValue {
    S(String),
    N(String),
    B(Vec<u8>),
    Bool(bool),
    Null(bool),
    Ss(Vec<String>),
    Ns(Vec<String>),
    Bs(Vec<Vec<u8>>),
    L(Vec<AttrValue>),
    /// A map's entries in order; a well-formed map's keys are unique (`distinct_keys`),
    /// which the conversions keep.
    M(Vec<(String, AttrValue)>),
}

/// The mathematical model of a `Json`.
pub enum JsonModel {
    Null,
    Bool(bool),
    Int(int),
    Float(Seq<char>),
    Str(Seq<char>),
    Array(Seq<JsonModel>),
    Object(Seq<(Seq<char>, JsonModel)>),
}

/// The mathematical model of an `AttrValue`.
pub enum AttrModel {
    S(Seq<char>),
    N(Seq<char>),
    B(Seq<u8>),
    Bool(bool),
    Null(bool),
    Ss(Seq<Seq<char>>),
    Ns(Seq<Seq<char>>),
    Bs(Seq<Seq<u8>>),
    L(Seq<AttrModel>),
    M(Seq<(Seq<char>, AttrModel)>),
}

pub open spec fn json_model(j: Json) -> JsonModel
    decreases j,
{
    match j {
        Json::Null => JsonModel::Null,
        Json::Bool(b) => JsonModel::Bool(b),
        Json::Int(i) => JsonModel::Int(i as int),
        Json::Float(t) => JsonModel::Float(t@),
        Json::Str(s) => JsonModel::Str(s@),
        Json::Array(v) => JsonModel::Array(json_models(v@)),
        Json::Object(v) => JsonModel::Object(json_entry_models(v@)),
    }
}

pub open spec fn json_models(s: Seq<Json>) -> Seq<JsonModel>
    decreases s,
{
    if s.len() == 0 {
        Seq::empty()
    } else {
        json_models(s.drop_last()).push(json_model(s.last()))
    }
}

pub open spec fn json_entry_models(s: Seq<(String, Json)>) -> Seq<(Seq<char>, JsonModel)>
    decreases s,
{
    if s.len() == 0 {
        Seq::empty()
    } else {
        json_entry_models(s.drop_last()).push((s.last().0@, json_model(s.last().1)))
    }
}

impl View for Json {
    type V = JsonModel;

    open spec fn view(&self) -> JsonModel {
        json_model(*self)
    }
}

pub open spec fn strings_model(v: Seq<String>) -> Seq<Seq<char>> {
    v.map_values(|s: String| s@)
}

pub open spec fn bytes_model(v: Seq<Vec<u8>>) -> Seq<Seq<u8>> {
    v.map_values(|b: Vec<u8>| b@)
}

pub open spec fn attr_model(a: AttrValue) -> AttrModel
    decreases a,
{
    match a {
        AttrValue::S(s) => AttrModel::S(s@),
        AttrValue::N(n) => AttrModel::N(n@),
        AttrValue::B(b) => AttrModel::B(b@),
        AttrValue::Bool(b) => AttrModel::Bool(b),
        AttrValue::Null(b) => AttrModel::Null(b),
        AttrValue::Ss(v) => AttrModel::Ss(strings_model(v@)),
        AttrValue::Ns(v) => AttrModel::Ns(strings_model(v@)),
        AttrValue::Bs(v) => AttrModel::Bs(bytes_model(v@)),
        AttrValue::L(v) => AttrModel::L(attr_models(v@)),
        AttrValue::M(v) => AttrModel::M(attr_entry_models(v@)),
    }
}

pub open spec fn attr_models(s: Seq<AttrValue>) -> Seq<AttrModel>
    decreases s,
{
    if s.len() == 0 {
        Seq::empty()
    } else {
        attr_models(s.drop_last()).push(attr_model(s.last()))
    }
}

pub open spec fn attr_entry_models(s: Seq<(String, AttrValue)>) -> Seq<(Seq<char>, AttrModel)>
    decreases s,
{
    if s.len() == 0 {
        Seq::empty()
    } else {
        attr_entry_models(s.drop_last()).push((s.last().0@, attr_model(s.last().1)))
    }
}

impl View for AttrValue {
    type V = AttrModel;

    open spec fn view(&self) -> AttrModel {
        attr_model(*self)
    }
}

/// The model of an optional attribute value.
pub open spec fn opt_attr_model(a: Option<AttrValue>) -> Option<AttrModel> {
    match a {
        Some(v) => Some(v@),
        None => None,
    }
}

pub proof fn lemma_json_models_index(s: Seq<Json>)
    ensures
        json_models(s).len() == s.len(),
        forall|i: int| 0 <= i < s.len() ==> #[trigger] json_models(s)[i] == s[i]@,
    decreases s.len(),
{
    if s.len() > 0 {
        lemma_json_models_index(s.drop_last());
    }
}

pub proof fn lemma_json_entry_models_index(s: Seq<(String, Json)>)
    ensures
        json_entry_models(s).len() == s.len(),
        forall|i: int|
            0 <= i < s.len() ==> #[trigger] json_entry_models(s)[i] == (s[i].0@, s[i].1@),
    decreases s.len(),
{
    if s.len() > 0 {
        lemma_json_entry_models_index(s.drop_last());
    }
}

pub proof fn lemma_attr_models_index(s: Seq<AttrValue>)
    ensures
        attr_models(s).len() == s.len(),
        forall|i: int| 0 <= i < s.len() ==> #[trigger] attr_models(s)[i] == s[i]@,
    decreases s.len(),
{
    if s.len() > 0 {
        lemma_attr_models_index(s.drop_last());
    }
}

pub proof fn lemma_attr_entry_models_index(s: Seq<(String, AttrValue)>)
    ensures
        attr_entry_models(s).len() == s.len(),
        forall|i: int|
            0 <= i < s.len() ==> #[trigger] attr_entry_models(s)[i] == (s[i].0@, s[i].1@),
    decreases s.len(),
{
    if s.len() > 0 {
        lemma_attr_entry_models_index(s.drop_last());
    }
}

} // verus!
