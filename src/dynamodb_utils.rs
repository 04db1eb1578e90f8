//! The attribute-value codec: typed and inferred conversion from JSON, conversion back
//! to JSON, and the scalar helpers the expression builder and the cursor codec share.
use vstd::prelude::*;
use crate::binary::{base64_text, binary_from_text, binary_of_text, binary_to_text};
use crate::numeric::{
    int_text, int_to_text, is_finite_decimal_text, is_finite_numeral, parse_i64, parsed_i64,
    same_text, same_text_ignoring_case, folded,
};
use crate::value::{
    attr_entry_models, attr_models, bytes_model, json_entry_models, json_models,
    opt_attr_model, strings_model, AttrModel, AttrValue, Json, JsonModel,
};

verus! {

/// The type tags a caller may attach to a value.
#[derive(Debug, Clone, Copy, PartialEq, Eq, Structural)]
pub enum AttrType {
    S,
    N,
    B,
    Bool,
    Null,
    Ss,
    Ns,
    Bs,
    L,
    M,
}

/// The tag that a tag text names: `S`, `N`, `B`, `BOOL`, `NULL`, `SS`, `NS`, `BS`, `L`,
/// `M`, matched exactly.
pub open spec fn attr_type_of(t: Seq<char>) -> Option<AttrType> {
    if t == seq!['S'] {
        Some(AttrType::S)
    } else if t == seq!['N'] {
        Some(AttrType::N)
    } else if t == seq!['B'] {
        Some(AttrType::B)
    } else if t == seq!['B', 'O', 'O', 'L'] {
        Some(AttrType::Bool)
    } else if t == seq!['N', 'U', 'L', 'L'] {
        Some(AttrType::Null)
    } else if t == seq!['S', 'S'] {
        Some(AttrType::Ss)
    } else if t == seq!['N', 'S'] {
        Some(AttrType::Ns)
    } else if t == seq!['B', 'S'] {
        Some(AttrType::Bs)
    } else if t == seq!['L'] {
        Some(AttrType::L)
    } else if t == seq!['M'] {
        Some(AttrType::M)
    } else {
        None
    }
}

/// Reads a type tag.
pub fn parse_attr_type(t: &str) -> (r: Option<AttrType>)
    ensures
        r == attr_type_of(t@),
{
    proof {
        reveal_strlit("S");
        reveal_strlit("N");
        reveal_strlit("B");
        reveal_strlit("BOOL");
        reveal_strlit("NULL");
        reveal_strlit("SS");
        reveal_strlit("NS");
        reveal_strlit("BS");
        reveal_strlit("L");
        reveal_strlit("M");
        assert("S"@ =~= seq!['S']);
        assert("N"@ =~= seq!['N']);
        assert("B"@ =~= seq!['B']);
        assert("BOOL"@ =~= seq!['B', 'O', 'O', 'L']);
        assert("NULL"@ =~= seq!['N', 'U', 'L', 'L']);
        assert("SS"@ =~= seq!['S', 'S']);
        assert("NS"@ =~= seq!['N', 'S']);
        assert("BS"@ =~= seq!['B', 'S']);
        assert("L"@ =~= seq!['L']);
        assert("M"@ =~= seq!['M']);
    }
    if same_text(t, "S") {
        Some(AttrType::S)
    } else if same_text(t, "N") {
        Some(AttrType::N)
    } else if same_text(t, "B") {
        Some(AttrType::B)
    } else if same_text(t, "BOOL") {
        Some(AttrType::Bool)
    } else if same_text(t, "NULL") {
        Some(AttrType::Null)
    } else if same_text(t, "SS") {
        Some(AttrType::Ss)
    } else if same_text(t, "NS") {
        Some(AttrType::Ns)
    } else if same_text(t, "BS") {
        Some(AttrType::Bs)
    } else if same_text(t, "L") {
        Some(AttrType::L)
    } else if same_text(t, "M") {
        Some(AttrType::M)
    } else {
        None
    }
}

// ---------------------------------------------------------------------------
// Inferred mode
// ---------------------------------------------------------------------------

/// The attribute value a JSON value becomes when no tag is given: strings, numbers,
/// booleans and null map to their scalar variants; arrays and objects become lists and
/// maps of inferred elements, keys and order kept.
pub open spec fn inferred(j: JsonModel) -> AttrModel
    decreases j,
{
    match j {
        JsonModel::Null => AttrModel::Null(true),
        JsonModel::Bool(b) => AttrModel::Bool(b),
        JsonModel::Int(i) => AttrModel::N(int_text(i)),
        JsonModel::Float(t) => AttrModel::N(t),
        JsonModel::Str(s) => AttrModel::S(s),
        JsonModel::Array(a) => AttrModel::L(inferred_all(a)),
        JsonModel::Object(e) => AttrModel::M(inferred_entries(e)),
    }
}

pub open spec fn inferred_all(s: Seq<JsonModel>) -> Seq<AttrModel>
    decreases s,
{
    if s.len() == 0 {
        Seq::empty()
    } else {
        inferred_all(s.drop_last()).push(inferred(s.last()))
    }
}

pub open spec fn inferred_entries(s: Seq<(Seq<char>, JsonModel)>) -> Seq<(Seq<char>, AttrModel)>
    decreases s,
{
    if s.len() == 0 {
        Seq::empty()
    } else {
        inferred_entries(s.drop_last()).push((s.last().0, inferred(s.last().1)))
    }
}

pub proof fn lemma_json_models_step(s: Seq<Json>, i: int)
    requires
        0 <= i < s.len(),
    ensures
        json_models(s.subrange(0, i + 1)) == json_models(s.subrange(0, i)).push(s[i]@),
{
    assert(s.subrange(0, i + 1).drop_last() =~= s.subrange(0, i));
}

pub proof fn lemma_json_entry_models_step(s: Seq<(String, Json)>, i: int)
    requires
        0 <= i < s.len(),
    ensures
        json_entry_models(s.subrange(0, i + 1)) == json_entry_models(s.subrange(0, i)).push(
            (s[i].0@, s[i].1@),
        ),
{
    assert(s.subrange(0, i + 1).drop_last() =~= s.subrange(0, i));
}

pub proof fn lemma_attr_models_push(s: Seq<AttrValue>, a: AttrValue)
    ensures
        attr_models(s.push(a)) == attr_models(s).push(a@),
{
    assert(s.push(a).drop_last() =~= s);
}

pub proof fn lemma_attr_entry_models_push(s: Seq<(String, AttrValue)>, k: String, a: AttrValue)
    ensures
        attr_entry_models(s.push((k, a))) == attr_entry_models(s).push((k@, a@)),
{
    assert(s.push((k, a)).drop_last() =~= s);
}

proof fn lemma_inferred_all_push(s: Seq<JsonModel>, j: JsonModel)
    ensures
        inferred_all(s.push(j)) == inferred_all(s).push(inferred(j)),
{
    assert(s.push(j).drop_last() =~= s);
}

proof fn lemma_inferred_entries_push(s: Seq<(Seq<char>, JsonModel)>, k: Seq<char>, j: JsonModel)
    ensures
        inferred_entries(s.push((k, j))) == inferred_entries(s).push((k, inferred(j))),
{
    assert(s.push((k, j)).drop_last() =~= s);
}

/// Converts a JSON value without a tag (see `inferred`). This never fails.
pub fn infer_attr_value_from_json(value: &Json) -> (r: AttrValue)
    ensures
        r@ == inferred(value@),
    decreases value,
{
    match value {
        Json::Null => AttrValue::Null(true),
        Json::Bool(b) => AttrValue::Bool(*b),
        Json::Int(i) => AttrValue::N(int_to_text(*i)),
        Json::Float(t) => AttrValue::N(t.clone()),
        Json::Str(s) => AttrValue::S(s.clone()),
        Json::Array(arr) => {
            let mut out: Vec<AttrValue> = Vec::new();
            let mut i: usize = 0;
            while i < arr.len()
                invariant
                    i <= arr@.len(),
                    *value == Json::Array(*arr),
                    attr_models(out@) == inferred_all(json_models(arr@.subrange(0, i as int))),
                decreases arr@.len() - i,
            {
                proof {
                    assert(decreases_to!(*value => (*value)->Array_0));
                    assert(decreases_to!(*arr => arr@));
                    assert(decreases_to!(arr@ => arr@[i as int]));
                }
                let a = infer_attr_value_from_json(&arr[i]);
                proof {
                    lemma_json_models_step(arr@, i as int);
                    lemma_inferred_all_push(json_models(arr@.subrange(0, i as int)), arr@[i as int]@);
                    lemma_attr_models_push(out@, a);
                }
                out.push(a);
                i = i + 1;
            }
            assert(arr@.subrange(0, arr@.len() as int) =~= arr@);
            AttrValue::L(out)
        },
        Json::Object(entries) => {
            let mut out: Vec<(String, AttrValue)> = Vec::new();
            let mut i: usize = 0;
            while i < entries.len()
                invariant
                    i <= entries@.len(),
                    *value == Json::Object(*entries),
                    attr_entry_models(out@) == inferred_entries(
                        json_entry_models(entries@.subrange(0, i as int)),
                    ),
                decreases entries@.len() - i,
            {
                proof {
                    assert(decreases_to!(*value => (*value)->Object_0));
                    assert(decreases_to!(*entries => entries@));
                    assert(decreases_to!(entries@ => entries@[i as int]));
                    assert(decreases_to!(entries@[i as int] => entries@[i as int].1));
                }
                let a = infer_attr_value_from_json(&entries[i].1);
                let k = entries[i].0.clone();
                proof {
                    lemma_json_entry_models_step(entries@, i as int);
                    lemma_inferred_entries_push(
                        json_entry_models(entries@.subrange(0, i as int)),
                        entries@[i as int].0@,
                        entries@[i as int].1@,
                    );
                    lemma_attr_entry_models_push(out@, k, a);
                }
                out.push((k, a));
                i = i + 1;
            }
            assert(entries@.subrange(0, entries@.len() as int) =~= entries@);
            AttrValue::M(out)
        },
    }
}

// ---------------------------------------------------------------------------
// Typed mode
// ---------------------------------------------------------------------------

/// The number text a JSON value stands for under the `N` tag: an integer's decimal
/// text, another number's text, or a string holding a decimal numeral in the finite
/// range of a 64-bit float.
pub open spec fn number_text_of(j: JsonModel) -> Option<Seq<char>> {
    match j {
        JsonModel::Int(i) => Some(int_text(i)),
        JsonModel::Float(t) => Some(t),
        JsonModel::Str(s) => if is_finite_numeral(s) {
            Some(s)
        } else {
            None
        },
        _ => None,
    }
}

/// The strings among the elements, in order; other elements are left out.
pub open spec fn string_elems(s: Seq<JsonModel>) -> Seq<Seq<char>>
    decreases s.len(),
{
    if s.len() == 0 {
        Seq::empty()
    } else {
        let rest = string_elems(s.drop_last());
        match s.last() {
            JsonModel::Str(x) => rest.push(x),
            _ => rest,
        }
    }
}

/// The number texts of the elements that stand for numbers, in order.
pub open spec fn number_elems(s: Seq<JsonModel>) -> Seq<Seq<char>>
    decreases s.len(),
{
    if s.len() == 0 {
        Seq::empty()
    } else {
        let rest = number_elems(s.drop_last());
        match number_text_of(s.last()) {
            Some(n) => rest.push(n),
            None => rest,
        }
    }
}

/// The bytes of the string elements read as base64, in order.
pub open spec fn binary_elems(s: Seq<JsonModel>) -> Seq<Seq<u8>>
    decreases s.len(),
{
    if s.len() == 0 {
        Seq::empty()
    } else {
        let rest = binary_elems(s.drop_last());
        match s.last() {
            JsonModel::Str(x) => rest.push(binary_of_text(x)),
            _ => rest,
        }
    }
}

/// The attribute value a JSON value becomes under an explicit tag, or `None` when its
/// shape does not fit the tag. `NULL` accepts anything; the set tags keep the elements
/// of the fitting kind; `L` and `M` infer their elements.
pub open spec fn typed(j: JsonModel, t: AttrType) -> Option<AttrModel> {
    match t {
        AttrType::S => match j {
            JsonModel::Str(s) => Some(AttrModel::S(s)),
            _ => None,
        },
        AttrType::N => match number_text_of(j) {
            Some(n) => Some(AttrModel::N(n)),
            None => None,
        },
        AttrType::B => match j {
            JsonModel::Str(s) => Some(AttrModel::B(binary_of_text(s))),
            _ => None,
        },
        AttrType::Bool => match j {
            JsonModel::Bool(b) => Some(AttrModel::Bool(b)),
            _ => None,
        },
        AttrType::Null => Some(AttrModel::Null(true)),
        AttrType::Ss => match j {
            JsonModel::Array(a) => Some(AttrModel::Ss(string_elems(a))),
            _ => None,
        },
        AttrType::Ns => match j {
            JsonModel::Array(a) => Some(AttrModel::Ns(number_elems(a))),
            _ => None,
        },
        AttrType::Bs => match j {
            JsonModel::Array(a) => Some(AttrModel::Bs(binary_elems(a))),
            _ => None,
        },
        AttrType::L => match j {
            JsonModel::Array(a) => Some(AttrModel::L(inferred_all(a))),
            _ => None,
        },
        AttrType::M => match j {
            JsonModel::Object(e) => Some(AttrModel::M(inferred_entries(e))),
            _ => None,
        },
    }
}

/// What converting under a tag text gives: nothing for an unknown tag.
pub open spec fn typed_by_tag(j: JsonModel, tag: Seq<char>) -> Option<AttrModel> {
    match attr_type_of(tag) {
        Some(t) => typed(j, t),
        None => None,
    }
}

proof fn lemma_strings_model_push(s: Seq<String>, x: String)
    ensures
        strings_model(s.push(x)) == strings_model(s).push(x@),
{
    assert(strings_model(s.push(x)) =~= strings_model(s).push(x@));
}

proof fn lemma_bytes_model_push(s: Seq<Vec<u8>>, x: Vec<u8>)
    ensures
        bytes_model(s.push(x)) == bytes_model(s).push(x@),
{
    assert(bytes_model(s.push(x)) =~= bytes_model(s).push(x@));
}

proof fn lemma_elems_push(s: Seq<JsonModel>, j: JsonModel)
    ensures
        string_elems(s.push(j)) == (match j {
            JsonModel::Str(x) => string_elems(s).push(x),
            _ => string_elems(s),
        }),
        number_elems(s.push(j)) == (match number_text_of(j) {
            Some(n) => number_elems(s).push(n),
            None => number_elems(s),
        }),
        binary_elems(s.push(j)) == (match j {
            JsonModel::Str(x) => binary_elems(s).push(binary_of_text(x)),
            _ => binary_elems(s),
        }),
{
    assert(s.push(j).drop_last() =~= s);
}

/// The number text of a JSON value under the `N` tag.
fn number_text(value: &Json) -> (r: Option<String>)
    ensures
        match r {
            Some(n) => number_text_of(value@) == Some(n@),
            None => number_text_of(value@) is None,
        },
{
    match value {
        Json::Int(i) => Some(int_to_text(*i)),
        Json::Float(t) => Some(t.clone()),
        Json::Str(s) => if is_finite_decimal_text(s.as_str()) {
            Some(s.clone())
        } else {
            None
        },
        _ => None,
    }
}

/// The elements of an array kept by a set tag, converted.
fn set_elements(arr: &Vec<Json>, t: AttrType) -> (r: AttrValue)
    requires
        t == AttrType::Ss || t == AttrType::Ns || t == AttrType::Bs,
    ensures
        Some(r@) == typed(JsonModel::Array(json_models(arr@)), t),
{
    let mut strs: Vec<String> = Vec::new();
    let mut bins: Vec<Vec<u8>> = Vec::new();
    let mut i: usize = 0;
    while i < arr.len()
        invariant
            i <= arr@.len(),
            t == AttrType::Ss ==> strings_model(strs@) == string_elems(
                json_models(arr@.subrange(0, i as int)),
            ),
            t == AttrType::Ns ==> strings_model(strs@) == number_elems(
                json_models(arr@.subrange(0, i as int)),
            ),
            t == AttrType::Bs ==> bytes_model(bins@) == binary_elems(
                json_models(arr@.subrange(0, i as int)),
            ),
        decreases arr@.len() - i,
    {
        let ghost prefix = json_models(arr@.subrange(0, i as int));
        proof {
            lemma_json_models_step(arr@, i as int);
            lemma_elems_push(prefix, arr@[i as int]@);
        }
        match t {
            AttrType::Ns => {
                match number_text(&arr[i]) {
                    Some(n) => {
                        proof {
                            lemma_strings_model_push(strs@, n);
                        }
                        strs.push(n);
                    },
                    None => {},
                }
            },
            _ => {
                match &arr[i] {
                    Json::Str(x) => {
                        if t == AttrType::Ss {
                            let c = x.clone();
                            proof {
                                lemma_strings_model_push(strs@, c);
                            }
                            strs.push(c);
                        } else {
                            let b = binary_from_text(x.as_str());
                            proof {
                                lemma_bytes_model_push(bins@, b);
                            }
                            bins.push(b);
                        }
                    },
                    _ => {},
                }
            },
        }
        i = i + 1;
    }
    assert(arr@.subrange(0, arr@.len() as int) =~= arr@);
    match t {
        AttrType::Ss => AttrValue::Ss(strs),
        AttrType::Ns => AttrValue::Ns(strs),
        _ => AttrValue::Bs(bins),
    }
}

/// Converts a JSON value under an explicit tag (see `typed`).
pub fn to_attr_value(value: &Json, t: AttrType) -> (r: Option<AttrValue>)
    ensures
        opt_attr_model(r) == typed(value@, t),
{
    match t {
        AttrType::S => match value {
            Json::Str(s) => Some(AttrValue::S(s.clone())),
            _ => None,
        },
        AttrType::N => match number_text(value) {
            Some(n) => Some(AttrValue::N(n)),
            None => None,
        },
        AttrType::B => match value {
            Json::Str(s) => Some(AttrValue::B(binary_from_text(s.as_str()))),
            _ => None,
        },
        AttrType::Bool => match value {
            Json::Bool(b) => Some(AttrValue::Bool(*b)),
            _ => None,
        },
        AttrType::Null => Some(AttrValue::Null(true)),
        AttrType::Ss | AttrType::Ns | AttrType::Bs => match value {
            Json::Array(arr) => Some(set_elements(arr, t)),
            _ => None,
        },
        AttrType::L => match value {
            Json::Array(_) => Some(infer_attr_value_from_json(value)),
            _ => None,
        },
        AttrType::M => match value {
            Json::Object(_) => Some(infer_attr_value_from_json(value)),
            _ => None,
        },
    }
}

/// Converts a JSON value under a type tag text (`S`, `N`, `B`, `BOOL`, `NULL`, `SS`,
/// `NS`, `BS`, `L`, `M`). `None` when the tag is unknown or the value's shape does not
/// fit it; callers skip such a field.
pub fn convert_json_to_attr_value(value: &Json, attr_type: &str) -> (r: Option<AttrValue>)
    ensures
        opt_attr_model(r) == typed_by_tag(value@, attr_type@),
{
    match parse_attr_type(attr_type) {
        Some(t) => to_attr_value(value, t),
        None => None,
    }
}

// ---------------------------------------------------------------------------
// Back to JSON
// ---------------------------------------------------------------------------

/// The JSON value a number text reads back as: an integer when it reads as a signed
/// 64-bit integer, else a number when it is a decimal numeral in the finite range of a
/// 64-bit float, else the text itself.
pub open spec fn number_json(n: Seq<char>) -> JsonModel {
    match parsed_i64(n) {
        Some(i) => JsonModel::Int(i as int),
        None => if is_finite_numeral(n) {
            JsonModel::Float(n)
        } else {
            JsonModel::Str(n)
        },
    }
}

/// The JSON value an attribute value reads back as. Binary data becomes base64 text;
/// sets become arrays; lists and maps convert their elements, keys and order kept.
pub open spec fn attr_json(a: AttrModel) -> JsonModel
    decreases a,
{
    match a {
        AttrModel::S(s) => JsonModel::Str(s),
        AttrModel::N(n) => number_json(n),
        AttrModel::B(b) => JsonModel::Str(base64_text(b)),
        AttrModel::Bool(b) => JsonModel::Bool(b),
        AttrModel::Null(_) => JsonModel::Null,
        AttrModel::Ss(v) => JsonModel::Array(v.map_values(|s: Seq<char>| JsonModel::Str(s))),
        AttrModel::Ns(v) => JsonModel::Array(v.map_values(|n: Seq<char>| number_json(n))),
        AttrModel::Bs(v) => JsonModel::Array(
            v.map_values(|b: Seq<u8>| JsonModel::Str(base64_text(b))),
        ),
        AttrModel::L(l) => JsonModel::Array(attr_json_all(l)),
        AttrModel::M(m) => JsonModel::Object(attr_json_entries(m)),
    }
}

pub open spec fn attr_json_all(s: Seq<AttrModel>) -> Seq<JsonModel>
    decreases s,
{
    if s.len() == 0 {
        Seq::empty()
    } else {
        attr_json_all(s.drop_last()).push(attr_json(s.last()))
    }
}

pub open spec fn attr_json_entries(s: Seq<(Seq<char>, AttrModel)>) -> Seq<(Seq<char>, JsonModel)>
    decreases s,
{
    if s.len() == 0 {
        Seq::empty()
    } else {
        attr_json_entries(s.drop_last()).push((s.last().0, attr_json(s.last().1)))
    }
}

proof fn lemma_attr_models_step(s: Seq<AttrValue>, i: int)
    requires
        0 <= i < s.len(),
    ensures
        attr_models(s.subrange(0, i + 1)) == attr_models(s.subrange(0, i)).push(s[i]@),
{
    assert(s.subrange(0, i + 1).drop_last() =~= s.subrange(0, i));
}

pub proof fn lemma_attr_entry_models_step(s: Seq<(String, AttrValue)>, i: int)
    requires
        0 <= i < s.len(),
    ensures
        attr_entry_models(s.subrange(0, i + 1)) == attr_entry_models(s.subrange(0, i)).push(
            (s[i].0@, s[i].1@),
        ),
{
    assert(s.subrange(0, i + 1).drop_last() =~= s.subrange(0, i));
}

pub proof fn lemma_json_models_push(s: Seq<Json>, j: Json)
    ensures
        json_models(s.push(j)) == json_models(s).push(j@),
{
    assert(s.push(j).drop_last() =~= s);
}

pub proof fn lemma_json_entry_models_push(s: Seq<(String, Json)>, k: String, j: Json)
    ensures
        json_entry_models(s.push((k, j))) == json_entry_models(s).push((k@, j@)),
{
    assert(s.push((k, j)).drop_last() =~= s);
}

proof fn lemma_attr_json_all_push(s: Seq<AttrModel>, a: AttrModel)
    ensures
        attr_json_all(s.push(a)) == attr_json_all(s).push(attr_json(a)),
{
    assert(s.push(a).drop_last() =~= s);
}

proof fn lemma_attr_json_entries_push(s: Seq<(Seq<char>, AttrModel)>, k: Seq<char>, a: AttrModel)
    ensures
        attr_json_entries(s.push((k, a))) == attr_json_entries(s).push((k, attr_json(a))),
{
    assert(s.push((k, a)).drop_last() =~= s);
}

/// Reads a number text back as JSON (see `number_json`).
pub fn number_to_json(n: &String) -> (r: Json)
    ensures
        r@ == number_json(n@),
{
    match parse_i64(n.as_str()) {
        Some(i) => Json::Int(i),
        None => if is_finite_decimal_text(n.as_str()) {
            Json::Float(n.clone())
        } else {
            Json::Str(n.clone())
        },
    }
}

/// Converts the elements of a set value.
fn set_to_json(a: &AttrValue) -> (r: Json)
    requires
        a is Ss || a is Ns || a is Bs,
    ensures
        r@ == attr_json(a@),
{
    let mut out: Vec<Json> = Vec::new();
    let n: usize = match a {
        AttrValue::Ss(v) => v.len(),
        AttrValue::Ns(v) => v.len(),
        AttrValue::Bs(v) => v.len(),
        _ => 0,
    };
    let mut i: usize = 0;
    while i < n
        invariant
            i <= n,
            a is Ss ==> n == a->Ss_0@.len() && json_models(out@) =~= a->Ss_0@.subrange(
                0,
                i as int,
            ).map_values(|s: String| JsonModel::Str(s@)),
            a is Ns ==> n == a->Ns_0@.len() && json_models(out@) =~= a->Ns_0@.subrange(
                0,
                i as int,
            ).map_values(|s: String| number_json(s@)),
            a is Bs ==> n == a->Bs_0@.len() && json_models(out@) =~= a->Bs_0@.subrange(
                0,
                i as int,
            ).map_values(|b: Vec<u8>| JsonModel::Str(base64_text(b@))),
        decreases n - i,
    {
        let j = match a {
            AttrValue::Ss(v) => Json::Str(v[i].clone()),
            AttrValue::Ns(v) => number_to_json(&v[i]),
            AttrValue::Bs(v) => Json::Str(binary_to_text(&v[i])),
            _ => Json::Null,
        };
        proof {
            lemma_json_models_push(out@, j);
        }
        out.push(j);
        i = i + 1;
    }
    match a {
        AttrValue::Ss(v) => {
            assert(v@.subrange(0, v@.len() as int) =~= v@);
            assert(json_models(out@) =~= strings_model(v@).map_values(
                |s: Seq<char>| JsonModel::Str(s),
            ));
        },
        AttrValue::Ns(v) => {
            assert(v@.subrange(0, v@.len() as int) =~= v@);
            assert(json_models(out@) =~= strings_model(v@).map_values(
                |n: Seq<char>| number_json(n),
            ));
        },
        AttrValue::Bs(v) => {
            assert(v@.subrange(0, v@.len() as int) =~= v@);
            assert(json_models(out@) =~= bytes_model(v@).map_values(
                |b: Seq<u8>| JsonModel::Str(base64_text(b)),
            ));
        },
        _ => {},
    }
    Json::Array(out)
}

/// Converts an attribute value back to JSON (see `attr_json`). A binary value read back
/// and converted under the `B` tag is the same value.
pub fn convert_attr_value_to_json(av: &AttrValue) -> (r: Json)
    ensures
        r@ == attr_json(av@),
        av is B ==> typed(r@, AttrType::B) == Some(av@),
    decreases av,
{
    match av {
        AttrValue::S(s) => Json::Str(s.clone()),
        AttrValue::N(n) => number_to_json(n),
        AttrValue::B(b) => Json::Str(binary_to_text(b)),
        AttrValue::Bool(b) => Json::Bool(*b),
        AttrValue::Null(_) => Json::Null,
        AttrValue::Ss(_) | AttrValue::Ns(_) | AttrValue::Bs(_) => set_to_json(av),
        AttrValue::L(l) => {
            let mut out: Vec<Json> = Vec::new();
            let mut i: usize = 0;
            while i < l.len()
                invariant
                    i <= l@.len(),
                    *av == AttrValue::L(*l),
                    json_models(out@) == attr_json_all(attr_models(l@.subrange(0, i as int))),
                decreases l@.len() - i,
            {
                proof {
                    assert(decreases_to!(*av => (*av)->L_0));
                    assert(decreases_to!(*l => l@));
                    assert(decreases_to!(l@ => l@[i as int]));
                }
                let j = convert_attr_value_to_json(&l[i]);
                proof {
                    lemma_attr_models_step(l@, i as int);
                    lemma_attr_json_all_push(attr_models(l@.subrange(0, i as int)), l@[i as int]@);
                    lemma_json_models_push(out@, j);
                }
                out.push(j);
                i = i + 1;
            }
            assert(l@.subrange(0, l@.len() as int) =~= l@);
            Json::Array(out)
        },
        AttrValue::M(m) => {
            let mut out: Vec<(String, Json)> = Vec::new();
            let mut i: usize = 0;
            while i < m.len()
                invariant
                    i <= m@.len(),
                    *av == AttrValue::M(*m),
                    json_entry_models(out@) == attr_json_entries(
                        attr_entry_models(m@.subrange(0, i as int)),
                    ),
                decreases m@.len() - i,
            {
                proof {
                    assert(decreases_to!(*av => (*av)->M_0));
                    assert(decreases_to!(*m => m@));
                    assert(decreases_to!(m@ => m@[i as int]));
                    assert(decreases_to!(m@[i as int] => m@[i as int].1));
                }
                let j = convert_attr_value_to_json(&m[i].1);
                let k = m[i].0.clone();
                proof {
                    lemma_attr_entry_models_step(m@, i as int);
                    lemma_attr_json_entries_push(
                        attr_entry_models(m@.subrange(0, i as int)),
                        m@[i as int].0@,
                        m@[i as int].1@,
                    );
                    lemma_json_entry_models_push(out@, k, j);
                }
                out.push((k, j));
                i = i + 1;
            }
            assert(m@.subrange(0, m@.len() as int) =~= m@);
            Json::Object(out)
        },
    }
}

// ---------------------------------------------------------------------------
// Free-text values
// ---------------------------------------------------------------------------

/// The attribute value a free-text value stands for when no type is given: `true` or
/// `false` in any ASCII case is a boolean, a decimal numeral in the finite range of a
/// 64-bit float is a number, anything else is a string.
pub open spec fn literal_attr(s: Seq<char>) -> AttrModel {
    if folded(s) == folded("true"@) {
        AttrModel::Bool(true)
    } else if folded(s) == folded("false"@) {
        AttrModel::Bool(false)
    } else if is_finite_numeral(s) {
        AttrModel::N(s)
    } else {
        AttrModel::S(s)
    }
}

/// Types a free-text value (see `literal_attr`).
pub fn parse_string_to_attribute_value(value: &str) -> (r: AttrValue)
    ensures
        r@ == literal_attr(value@),
{
    if same_text_ignoring_case(value, "true") {
        AttrValue::Bool(true)
    } else if same_text_ignoring_case(value, "false") {
        AttrValue::Bool(false)
    } else if is_finite_decimal_text(value) {
        AttrValue::N(value.to_owned())
    } else {
        AttrValue::S(value.to_owned())
    }
}

// ---------------------------------------------------------------------------
// Pagination cursors
// ---------------------------------------------------------------------------

/// The key value a cursor entry stands for: strings, numbers and booleans; other
/// entries are dropped.
pub open spec fn cursor_value_of(j: JsonModel) -> Option<AttrModel> {
    match j {
        JsonModel::Str(s) => Some(AttrModel::S(s)),
        JsonModel::Int(i) => Some(AttrModel::N(int_text(i))),
        JsonModel::Float(t) => Some(AttrModel::N(t)),
        JsonModel::Bool(b) => Some(AttrModel::Bool(b)),
        _ => None,
    }
}

/// The key that cursor entries decode to, in order.
pub open spec fn cursor_entries(e: Seq<(Seq<char>, JsonModel)>) -> Seq<(Seq<char>, AttrModel)>
    decreases e.len(),
{
    if e.len() == 0 {
        Seq::empty()
    } else {
        let rest = cursor_entries(e.drop_last());
        match cursor_value_of(e.last().1) {
            Some(a) => rest.push((e.last().0, a)),
            None => rest,
        }
    }
}

/// The JSON an entry of a last-evaluated key encodes to: strings, numbers and booleans
/// read back as JSON, anything else as null.
pub open spec fn cursor_json_of(a: AttrModel) -> JsonModel {
    match a {
        AttrModel::S(_) | AttrModel::N(_) | AttrModel::Bool(_) => attr_json(a),
        _ => JsonModel::Null,
    }
}

pub open spec fn encoded_entries(k: Seq<(Seq<char>, AttrModel)>) -> Seq<(Seq<char>, JsonModel)>
    decreases k.len(),
{
    if k.len() == 0 {
        Seq::empty()
    } else {
        encoded_entries(k.drop_last()).push((k.last().0, cursor_json_of(k.last().1)))
    }
}

/// The cursor for a page: null when there are no more pages, else an object of the
/// key's entries (possibly empty).
pub open spec fn encoded_cursor(k: Option<Seq<(Seq<char>, AttrModel)>>) -> JsonModel {
    match k {
        None => JsonModel::Null,
        Some(e) => JsonModel::Object(encoded_entries(e)),
    }
}

proof fn lemma_cursor_entries_push(e: Seq<(Seq<char>, JsonModel)>, k: Seq<char>, j: JsonModel)
    ensures
        cursor_entries(e.push((k, j))) == (match cursor_value_of(j) {
            Some(a) => cursor_entries(e).push((k, a)),
            None => cursor_entries(e),
        }),
{
    assert(e.push((k, j)).drop_last() =~= e);
}

proof fn lemma_encoded_entries_push(e: Seq<(Seq<char>, AttrModel)>, k: Seq<char>, a: AttrModel)
    ensures
        encoded_entries(e.push((k, a))) == encoded_entries(e).push((k, cursor_json_of(a))),
{
    assert(e.push((k, a)).drop_last() =~= e);
}

/// Decodes cursor entries into a start key (see `cursor_entries`).
pub fn json_to_dynamodb_key_map(key_map: &Vec<(String, Json)>) -> (r: Vec<(String, AttrValue)>)
    ensures
        attr_entry_models(r@) == cursor_entries(json_entry_models(key_map@)),
{
    let mut out: Vec<(String, AttrValue)> = Vec::new();
    let mut i: usize = 0;
    while i < key_map.len()
        invariant
            i <= key_map@.len(),
            attr_entry_models(out@) == cursor_entries(
                json_entry_models(key_map@.subrange(0, i as int)),
            ),
        decreases key_map@.len() - i,
    {
        proof {
            lemma_json_entry_models_step(key_map@, i as int);
            lemma_cursor_entries_push(
                json_entry_models(key_map@.subrange(0, i as int)),
                key_map@[i as int].0@,
                key_map@[i as int].1@,
            );
        }
        let v: Option<AttrValue> = match &key_map[i].1 {
            Json::Str(s) => Some(AttrValue::S(s.clone())),
            Json::Int(n) => Some(AttrValue::N(int_to_text(*n))),
            Json::Float(t) => Some(AttrValue::N(t.clone())),
            Json::Bool(b) => Some(AttrValue::Bool(*b)),
            _ => None,
        };
        match v {
            Some(a) => {
                let k = key_map[i].0.clone();
                proof {
                    lemma_attr_entry_models_push(out@, k, a);
                }
                out.push((k, a));
            },
            None => {},
        }
        i = i + 1;
    }
    assert(key_map@.subrange(0, key_map@.len() as int) =~= key_map@);
    out
}

/// Decodes an exclusive start key: the entries of an object; an absent key or one that
/// is not an object gives no entries.
pub fn decode_cursor(cursor: Option<&Json>) -> (r: Vec<(String, AttrValue)>)
    ensures
        attr_entry_models(r@) == (match cursor {
            Some(j) => match j@ {
                JsonModel::Object(e) => cursor_entries(e),
                _ => Seq::empty(),
            },
            None => Seq::empty(),
        }),
{
    match cursor {
        Some(Json::Object(e)) => json_to_dynamodb_key_map(e),
        _ => Vec::new(),
    }
}

/// Encodes a last-evaluated key as the cursor for the next page (see `encoded_cursor`).
pub fn encode_cursor(last_key: &Option<Vec<(String, AttrValue)>>) -> (r: Json)
    ensures
        r@ == encoded_cursor(match last_key {
            Some(k) => Some(attr_entry_models(k@)),
            None => None,
        }),
{
    match last_key {
        None => Json::Null,
        Some(k) => {
            let mut out: Vec<(String, Json)> = Vec::new();
            let mut i: usize = 0;
            while i < k.len()
                invariant
                    i <= k@.len(),
                    json_entry_models(out@) == encoded_entries(
                        attr_entry_models(k@.subrange(0, i as int)),
                    ),
                decreases k@.len() - i,
            {
                proof {
                    lemma_attr_entry_models_step(k@, i as int);
                    lemma_encoded_entries_push(
                        attr_entry_models(k@.subrange(0, i as int)),
                        k@[i as int].0@,
                        k@[i as int].1@,
                    );
                }
                let j = match &k[i].1 {
                    AttrValue::S(_) | AttrValue::N(_) | AttrValue::Bool(_) => convert_attr_value_to_json(
                        &k[i].1,
                    ),
                    _ => Json::Null,
                };
                let name = k[i].0.clone();
                proof {
                    lemma_json_entry_models_push(out@, name, j);
                }
                out.push((name, j));
                i = i + 1;
            }
            assert(k@.subrange(0, k@.len() as int) =~= k@);
            Json::Object(out)
        },
    }
}

} // verus!
