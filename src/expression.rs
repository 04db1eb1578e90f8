//! Expression building: filter operators and their fragments, placeholder allocation,
//! key conditions, filter lists and update expressions. Raw names and values never
//! enter expression text; they are bound to `#attrN` and `:...` placeholders.
use vstd::prelude::*;
use crate::dynamodb_utils::{
    convert_json_to_attr_value, infer_attr_value_from_json, inferred, lemma_attr_entry_models_push,
    lemma_json_models_step, literal_attr, parse_string_to_attribute_value, typed_by_tag,
};
use crate::json_utils::{field, get_field, get_str, str_field};
use crate::numeric::{append_nat_text, folded, nat_text, same_text, same_text_ignoring_case};
use crate::value::{attr_entry_models, json_models, opt_attr_model, AttrModel, AttrValue, Json, JsonModel};

verus! {

/// A filter operator. `Unrecognized` is the fallback for any other token, rendered as an
/// equality.
#[derive(Debug, Clone, Copy, PartialEq, Eq, Structural)]
pub enum FilterOp {
    Eq,
    Ne,
    Gt,
    Ge,
    Lt,
    Le,
    Contains,
    NotContains,
    BeginsWith,
    AttributeExists,
    AttributeNotExists,
    Unrecognized,
}

/// The operator a token names. Symbols match exactly; word operators match in any ASCII
/// case.
pub open spec fn filter_op_of(op: Seq<char>) -> FilterOp {
    if op == "="@ {
        FilterOp::Eq
    } else if op == "!="@ {
        FilterOp::Ne
    } else if op == ">"@ {
        FilterOp::Gt
    } else if op == ">="@ {
        FilterOp::Ge
    } else if op == "<"@ {
        FilterOp::Lt
    } else if op == "<="@ {
        FilterOp::Le
    } else if folded(op) == folded("contains"@) {
        FilterOp::Contains
    } else if folded(op) == folded("not contains"@) {
        FilterOp::NotContains
    } else if folded(op) == folded("begins_with"@) {
        FilterOp::BeginsWith
    } else if folded(op) == folded("attribute_exists"@) {
        FilterOp::AttributeExists
    } else if folded(op) == folded("attribute_not_exists"@) {
        FilterOp::AttributeNotExists
    } else {
        FilterOp::Unrecognized
    }
}

/// Whether the operator compares against a value (and so uses a value placeholder).
pub open spec fn takes_value(op: FilterOp) -> bool {
    !(op is AttributeExists || op is AttributeNotExists)
}

/// The expression fragment for an operator over a name and a value placeholder.
pub open spec fn fragment(op: FilterOp, name: Seq<char>, value: Seq<char>) -> Seq<char> {
    match op {
        FilterOp::Eq | FilterOp::Unrecognized => name + " = "@ + value,
        FilterOp::Ne => name + " <> "@ + value,
        FilterOp::Gt => name + " > "@ + value,
        FilterOp::Ge => name + " >= "@ + value,
        FilterOp::Lt => name + " < "@ + value,
        FilterOp::Le => name + " <= "@ + value,
        FilterOp::Contains => "contains("@ + name + ", "@ + value + ")"@,
        FilterOp::NotContains => "not contains("@ + name + ", "@ + value + ")"@,
        FilterOp::BeginsWith => "begins_with("@ + name + ", "@ + value + ")"@,
        FilterOp::AttributeExists => "attribute_exists("@ + name + ")"@,
        FilterOp::AttributeNotExists => "attribute_not_exists("@ + name + ")"@,
    }
}

/// Reads an operator token (see `filter_op_of`).
pub fn parse_filter_op(op: &str) -> (r: FilterOp)
    ensures
        r == filter_op_of(op@),
{
    if same_text(op, "=") {
        FilterOp::Eq
    } else if same_text(op, "!=") {
        FilterOp::Ne
    } else if same_text(op, ">") {
        FilterOp::Gt
    } else if same_text(op, ">=") {
        FilterOp::Ge
    } else if same_text(op, "<") {
        FilterOp::Lt
    } else if same_text(op, "<=") {
        FilterOp::Le
    } else if same_text_ignoring_case(op, "contains") {
        FilterOp::Contains
    } else if same_text_ignoring_case(op, "not contains") {
        FilterOp::NotContains
    } else if same_text_ignoring_case(op, "begins_with") {
        FilterOp::BeginsWith
    } else if same_text_ignoring_case(op, "attribute_exists") {
        FilterOp::AttributeExists
    } else if same_text_ignoring_case(op, "attribute_not_exists") {
        FilterOp::AttributeNotExists
    } else {
        FilterOp::Unrecognized
    }
}

fn concat3(a: &str, b: &str, c: &str) -> (r: String)
    ensures
        r@ == a@ + b@ + c@,
{
    let mut r = a.to_owned();
    r.append(b);
    r.append(c);
    r
}

fn concat5(a: &str, b: &str, c: &str, d: &str, e: &str) -> (r: String)
    ensures
        r@ == a@ + b@ + c@ + d@ + e@,
{
    let mut r = concat3(a, b, c);
    r.append(d);
    r.append(e);
    r
}

/// Renders the fragment for an operator (see `fragment`).
pub fn filter_fragment(op: FilterOp, name: &str, value: &str) -> (r: String)
    ensures
        r@ == fragment(op, name@, value@),
{
    match op {
        FilterOp::Eq | FilterOp::Unrecognized => concat3(name, " = ", value),
        FilterOp::Ne => concat3(name, " <> ", value),
        FilterOp::Gt => concat3(name, " > ", value),
        FilterOp::Ge => concat3(name, " >= ", value),
        FilterOp::Lt => concat3(name, " < ", value),
        FilterOp::Le => concat3(name, " <= ", value),
        FilterOp::Contains => concat5("contains(", name, ", ", value, ")"),
        FilterOp::NotContains => concat5("not contains(", name, ", ", value, ")"),
        FilterOp::BeginsWith => concat5("begins_with(", name, ", ", value, ")"),
        FilterOp::AttributeExists => concat3("attribute_exists(", name, ")"),
        FilterOp::AttributeNotExists => concat3("attribute_not_exists(", name, ")"),
    }
}

/// Builds the fragment for an operator token; an unrecognised token gives an equality.
pub fn build_filter_expression(name_placeholder: &str, value_placeholder: &str, operator: &str) -> (r: String)
    ensures
        r@ == fragment(filter_op_of(operator@), name_placeholder@, value_placeholder@),
{
    filter_fragment(parse_filter_op(operator), name_placeholder, value_placeholder)
}

/// The name placeholder with a given index.
pub open spec fn name_placeholder(n: nat) -> Seq<char> {
    "#attr"@ + nat_text(n)
}

/// The filter-value placeholder with a given index.
pub open spec fn filter_placeholder(n: nat) -> Seq<char> {
    ":filter"@ + nat_text(n)
}

/// The update-value placeholder with a given index.
pub open spec fn value_placeholder(n: nat) -> Seq<char> {
    ":val"@ + nat_text(n)
}

/// A prefix followed by the decimal text of an index.
pub fn numbered(prefix: &str, n: u128) -> (r: String)
    ensures
        r@ == prefix@ + nat_text(n as nat),
{
    let mut r = prefix.to_owned();
    append_nat_text(n, &mut r);
    r
}

/// Parts joined by a separator.
pub open spec fn joined(parts: Seq<Seq<char>>, sep: Seq<char>) -> Seq<char>
    decreases parts.len(),
{
    if parts.len() == 0 {
        Seq::empty()
    } else if parts.len() == 1 {
        parts[0]
    } else {
        joined(parts.drop_last(), sep) + sep + parts.last()
    }
}

/// Appends one part to a joined text.
pub fn join_push(text: &mut String, count: usize, sep: &str, part: &str)
    ensures
        final(text)@ == (if count == 0 {
            part@
        } else {
            old(text)@ + sep@ + part@
        }),
{
    if count == 0 {
        *text = part.to_owned();
    } else {
        text.append(sep);
        text.append(part);
    }
}

pub proof fn lemma_joined_push(parts: Seq<Seq<char>>, sep: Seq<char>, p: Seq<char>)
    ensures
        joined(parts.push(p), sep) == (if parts.len() == 0 {
            p
        } else {
            joined(parts, sep) + sep + p
        }),
{
    assert(parts.push(p).drop_last() =~= parts);
}

// ---------------------------------------------------------------------------
// Filter clauses
// ---------------------------------------------------------------------------

/// A filter clause as read from a request: the attribute name, the operator, and the
/// value bound to it (none for the existence tests).
pub struct FilterClause {
    pub key: String,
    pub op: FilterOp,
    pub value: Option<AttrValue>,
}

/// The model of a `FilterClause`.
pub struct FilterModel {
    pub key: Seq<char>,
    pub op: FilterOp,
    pub value: Option<AttrModel>,
}

impl View for FilterClause {
    type V = FilterModel;

    open spec fn view(&self) -> FilterModel {
        FilterModel { key: self.key@, op: self.op, value: opt_attr_model(self.value) }
    }
}

/// The value of a filter object: under its `type` tag when it has one, else typed from
/// free text when it is a string, else inferred.
pub open spec fn filter_value_of(f: JsonModel) -> Option<AttrModel> {
    match field(f, "value"@) {
        None => None,
        Some(v) => match str_field(f, "type"@) {
            Some(t) => typed_by_tag(v, t),
            None => match v {
                JsonModel::Str(s) => Some(literal_attr(s)),
                _ => Some(inferred(v)),
            },
        },
    }
}

/// The clause a filter object `{key, operator, value, type?}` stands for; `None` when
/// the key or operator is missing, or a comparing operator has no convertible value.
pub open spec fn filter_of(f: JsonModel) -> Option<FilterModel> {
    match (str_field(f, "key"@), str_field(f, "operator"@)) {
        (Some(k), Some(o)) => {
            let op = filter_op_of(o);
            if !takes_value(op) {
                Some(FilterModel { key: k, op, value: None })
            } else {
                match filter_value_of(f) {
                    Some(v) => Some(FilterModel { key: k, op, value: Some(v) }),
                    None => None,
                }
            }
        },
        _ => None,
    }
}

fn read_filter_value(f: &Json) -> (r: Option<AttrValue>)
    ensures
        opt_attr_model(r) == filter_value_of(f@),
{
    match get_field(f, "value") {
        None => None,
        Some(v) => match get_str(f, "type") {
            Some(t) => convert_json_to_attr_value(v, t.as_str()),
            None => match v {
                Json::Str(s) => Some(parse_string_to_attribute_value(s.as_str())),
                _ => Some(infer_attr_value_from_json(v)),
            },
        },
    }
}

/// Reads a filter object (see `filter_of`).
pub fn read_filter(f: &Json) -> (r: Option<FilterClause>)
    ensures
        match r {
            Some(c) => filter_of(f@) == Some(c@),
            None => filter_of(f@) is None,
        },
{
    match (get_str(f, "key"), get_str(f, "operator")) {
        (Some(k), Some(o)) => {
            let op = parse_filter_op(o.as_str());
            match op {
                FilterOp::AttributeExists | FilterOp::AttributeNotExists => Some(
                    FilterClause { key: k.clone(), op, value: None },
                ),
                _ => match read_filter_value(f) {
                    Some(v) => Some(FilterClause { key: k.clone(), op, value: Some(v) }),
                    None => None,
                },
            }
        },
        _ => None,
    }
}

/// The clauses that a list of filter objects yields, in order, each with the index of
/// its name placeholder. Indices start at `base`; with `by_position` a clause takes
/// `base` plus its position in the list (skipped entries use up theirs), otherwise
/// `base` plus the number of clauses before it.
pub open spec fn numbered_filters(s: Seq<JsonModel>, base: nat, by_position: bool) -> Seq<(nat, FilterModel)>
    decreases s.len(),
{
    if s.len() == 0 {
        Seq::empty()
    } else {
        let rest = numbered_filters(s.drop_last(), base, by_position);
        match filter_of(s.last()) {
            Some(f) => rest.push(
                (
                    if by_position {
                        (base + s.len() - 1) as nat
                    } else {
                        base + rest.len()
                    },
                    f,
                ),
            ),
            None => rest,
        }
    }
}

/// How many value placeholders the clauses use.
pub open spec fn values_used(fs: Seq<(nat, FilterModel)>) -> nat
    decreases fs.len(),
{
    if fs.len() == 0 {
        0
    } else {
        values_used(fs.drop_last()) + if takes_value(fs.last().1.op) {
            1nat
        } else {
            0nat
        }
    }
}

/// The fragments of the clauses: each names `#attr{index}` and, if it compares, the next
/// unused `:filter{n}`, counted from 0 over the comparing clauses only.
pub open spec fn filter_texts(fs: Seq<(nat, FilterModel)>) -> Seq<Seq<char>>
    decreases fs.len(),
{
    if fs.len() == 0 {
        Seq::empty()
    } else {
        filter_texts(fs.drop_last()).push(
            fragment(
                fs.last().1.op,
                name_placeholder(fs.last().0),
                filter_placeholder(values_used(fs.drop_last())),
            ),
        )
    }
}

/// The name bindings of the clauses.
pub open spec fn filter_names(fs: Seq<(nat, FilterModel)>) -> Seq<(Seq<char>, Seq<char>)>
    decreases fs.len(),
{
    if fs.len() == 0 {
        Seq::empty()
    } else {
        filter_names(fs.drop_last()).push((name_placeholder(fs.last().0), fs.last().1.key))
    }
}

/// The value bindings of the clauses that compare.
pub open spec fn filter_values(fs: Seq<(nat, FilterModel)>) -> Seq<(Seq<char>, AttrModel)>
    decreases fs.len(),
{
    if fs.len() == 0 {
        Seq::empty()
    } else {
        let rest = filter_values(fs.drop_last());
        if takes_value(fs.last().1.op) {
            rest.push((filter_placeholder(values_used(fs.drop_last())), fs.last().1.value->0))
        } else {
            rest
        }
    }
}

/// The model of name bindings.
pub open spec fn names_model(v: Seq<(String, String)>) -> Seq<(Seq<char>, Seq<char>)> {
    v.map_values(|p: (String, String)| (p.0@, p.1@))
}

proof fn lemma_filters_push(fs: Seq<(nat, FilterModel)>, g: (nat, FilterModel))
    ensures
        values_used(fs.push(g)) == values_used(fs) + if takes_value(g.1.op) {
            1nat
        } else {
            0nat
        },
        filter_texts(fs.push(g)) == filter_texts(fs).push(
            fragment(g.1.op, name_placeholder(g.0), filter_placeholder(values_used(fs))),
        ),
        filter_names(fs.push(g)) == filter_names(fs).push((name_placeholder(g.0), g.1.key)),
        filter_values(fs.push(g)) == (if takes_value(g.1.op) {
            filter_values(fs).push((filter_placeholder(values_used(fs)), g.1.value->0))
        } else {
            filter_values(fs)
        }),
{
    assert(fs.push(g).drop_last() =~= fs);
}

proof fn lemma_numbered_push(s: Seq<JsonModel>, j: JsonModel, base: nat, by_position: bool)
    ensures
        numbered_filters(s.push(j), base, by_position) == (match filter_of(j) {
            Some(f) => numbered_filters(s, base, by_position).push(
                (
                    if by_position {
                        base + s.len()
                    } else {
                        base + numbered_filters(s, base, by_position).len()
                    },
                    f,
                ),
            ),
            None => numbered_filters(s, base, by_position),
        }),
{
    assert(s.push(j).drop_last() =~= s);
}

pub proof fn lemma_numbered_len(s: Seq<JsonModel>, base: nat, by_position: bool)
    ensures
        numbered_filters(s, base, by_position).len() <= s.len(),
    decreases s.len(),
{
    if s.len() > 0 {
        lemma_numbered_len(s.drop_last(), base, by_position);
    }
}

proof fn lemma_names_push(v: Seq<(String, String)>, a: String, b: String)
    ensures
        names_model(v.push((a, b))) == names_model(v).push((a@, b@)),
{
    assert(names_model(v.push((a, b))) =~= names_model(v).push((a@, b@)));
}

/// Reads a list of filter objects (see `numbered_filters`), binds each clause's name
/// placeholder and, for each comparing clause, the next `:filter{n}`, and returns the
/// clauses' fragments joined by ` AND ` (nothing when no clause was read).
pub fn add_filters(
    filters: &Vec<Json>,
    first_name: u128,
    by_position: bool,
    names: &mut Vec<(String, String)>,
    values: &mut Vec<(String, AttrValue)>,
) -> (r: Option<String>)
    requires
        first_name <= u64::MAX,
    ensures
        names_model(final(names)@) == names_model(old(names)@) + filter_names(
            numbered_filters(json_models(filters@), first_name as nat, by_position),
        ),
        attr_entry_models(final(values)@) == attr_entry_models(old(values)@) + filter_values(
            numbered_filters(json_models(filters@), first_name as nat, by_position),
        ),
        match r {
            Some(t) => numbered_filters(json_models(filters@), first_name as nat, by_position).len()
                > 0 && t@ == joined(
                filter_texts(numbered_filters(json_models(filters@), first_name as nat, by_position)),
                " AND "@,
            ),
            None => numbered_filters(json_models(filters@), first_name as nat, by_position).len()
                == 0,
        },
{
    let ghost names0 = names_model(names@);
    let ghost values0 = attr_entry_models(values@);
    let ghost base = first_name as nat;
    let mut text = String::new();
    let mut na: u128 = 0;
    let mut nv: u128 = 0;
    let mut i: usize = 0;
    while i < filters.len()
        invariant
            i <= filters@.len(),
            first_name <= u64::MAX,
            base == first_name as nat,
            na <= i,
            nv <= na,
            na == numbered_filters(json_models(filters@.subrange(0, i as int)), base, by_position).len(),
            nv == values_used(
                numbered_filters(json_models(filters@.subrange(0, i as int)), base, by_position),
            ),
            names_model(names@) == names0 + filter_names(
                numbered_filters(json_models(filters@.subrange(0, i as int)), base, by_position),
            ),
            attr_entry_models(values@) == values0 + filter_values(
                numbered_filters(json_models(filters@.subrange(0, i as int)), base, by_position),
            ),
            text@ == joined(
                filter_texts(
                    numbered_filters(json_models(filters@.subrange(0, i as int)), base, by_position),
                ),
                " AND "@,
            ),
        decreases filters@.len() - i,
    {
        let ghost acc = numbered_filters(json_models(filters@.subrange(0, i as int)), base, by_position);
        proof {
            lemma_json_models_step(filters@, i as int);
            lemma_numbered_push(
                json_models(filters@.subrange(0, i as int)),
                filters@[i as int]@,
                base,
                by_position,
            );
            crate::value::lemma_json_models_index(filters@.subrange(0, i as int));
        }
        match read_filter(&filters[i]) {
            Some(clause) => {
                let index: u128 = if by_position {
                    first_name + i as u128
                } else {
                    first_name + na
                };
                let ghost g = (index as nat, clause@);
                proof {
                    lemma_filters_push(acc, g);
                    lemma_joined_push(
                        filter_texts(acc),
                        " AND "@,
                        fragment(clause.op, name_placeholder(index as nat), filter_placeholder(nv as nat)),
                    );
                }
                let name = numbered("#attr", index);
                let vph = numbered(":filter", nv);
                let frag = filter_fragment(clause.op, name.as_str(), vph.as_str());
                let ghost old_names = names@;
                proof {
                    lemma_names_push(old_names, name, clause.key);
                }
                names.push((name, clause.key));
                assert(names_model(names@) =~= names0 + filter_names(acc.push(g)));
                match clause.value {
                    Some(v) => {
                        match clause.op {
                            FilterOp::AttributeExists | FilterOp::AttributeNotExists => {},
                            _ => {
                                let ghost old_values = values@;
                                proof {
                                    lemma_attr_entry_models_push(old_values, vph, v);
                                }
                                values.push((vph, v));
                                nv = nv + 1;
                                assert(attr_entry_models(values@) =~= values0 + filter_values(
                                    acc.push(g),
                                ));
                            },
                        }
                    },
                    None => {},
                }
                join_push(&mut text, na as usize, " AND ", frag.as_str());
                na = na + 1;
            },
            None => {},
        }
        i = i + 1;
    }
    assert(filters@.subrange(0, filters@.len() as int) =~= filters@);
    if na == 0 {
        None
    } else {
        Some(text)
    }
}

// ---------------------------------------------------------------------------
// Typed attribute lists and update expressions
// ---------------------------------------------------------------------------

/// The (name, value) pair a typed attribute object `{key, value, type}` stands for, or
/// `None` when a field is missing or the value does not convert under the tag.
pub open spec fn typed_attr_of(a: JsonModel) -> Option<(Seq<char>, AttrModel)> {
    match (str_field(a, "key"@), field(a, "value"@), str_field(a, "type"@)) {
        (Some(k), Some(v), Some(t)) => match typed_by_tag(v, t) {
            Some(m) => Some((k, m)),
            None => None,
        },
        _ => None,
    }
}

/// The pairs that a list of typed attribute objects yields, in order; the others are
/// skipped.
pub open spec fn typed_attrs(s: Seq<JsonModel>) -> Seq<(Seq<char>, AttrModel)>
    decreases s.len(),
{
    if s.len() == 0 {
        Seq::empty()
    } else {
        let rest = typed_attrs(s.drop_last());
        match typed_attr_of(s.last()) {
            Some(p) => rest.push(p),
            None => rest,
        }
    }
}

proof fn lemma_typed_attrs_push(s: Seq<JsonModel>, j: JsonModel)
    ensures
        typed_attrs(s.push(j)) == (match typed_attr_of(j) {
            Some(p) => typed_attrs(s).push(p),
            None => typed_attrs(s),
        }),
{
    assert(s.push(j).drop_last() =~= s);
}

/// Reads a list of typed attribute objects (see `typed_attrs`).
pub fn read_typed_attributes(arr: &Vec<Json>) -> (r: Vec<(String, AttrValue)>)
    ensures
        attr_entry_models(r@) == typed_attrs(json_models(arr@)),
{
    let mut out: Vec<(String, AttrValue)> = Vec::new();
    let mut i: usize = 0;
    while i < arr.len()
        invariant
            i <= arr@.len(),
            attr_entry_models(out@) == typed_attrs(json_models(arr@.subrange(0, i as int))),
        decreases arr@.len() - i,
    {
        proof {
            lemma_json_models_step(arr@, i as int);
            lemma_typed_attrs_push(json_models(arr@.subrange(0, i as int)), arr@[i as int]@);
        }
        let a = &arr[i];
        match (get_str(a, "key"), get_field(a, "value"), get_str(a, "type")) {
            (Some(k), Some(v), Some(t)) => match convert_json_to_attr_value(v, t.as_str()) {
                Some(m) => {
                    let key = k.clone();
                    proof {
                        lemma_attr_entry_models_push(out@, key, m);
                    }
                    out.push((key, m));
                },
                None => {},
            },
            _ => {},
        }
        i = i + 1;
    }
    assert(arr@.subrange(0, arr@.len() as int) =~= arr@);
    out
}

/// The convertible entries of a list of typed attribute objects, each with its
/// position in the list.
pub open spec fn positioned_attrs(s: Seq<JsonModel>) -> Seq<(nat, Seq<char>, AttrModel)>
    decreases s.len(),
{
    if s.len() == 0 {
        Seq::empty()
    } else {
        let rest = positioned_attrs(s.drop_last());
        match typed_attr_of(s.last()) {
            Some(p) => rest.push(((s.len() - 1) as nat, p.0, p.1)),
            None => rest,
        }
    }
}

/// The model of positioned attributes.
pub open spec fn positioned_model(v: Seq<(usize, String, AttrValue)>) -> Seq<(nat, Seq<char>, AttrModel)> {
    v.map_values(|t: (usize, String, AttrValue)| (t.0 as nat, t.1@, t.2@))
}

proof fn lemma_positioned_push(s: Seq<JsonModel>, j: JsonModel)
    ensures
        positioned_attrs(s.push(j)) == (match typed_attr_of(j) {
            Some(p) => positioned_attrs(s).push((s.len(), p.0, p.1)),
            None => positioned_attrs(s),
        }),
{
    assert(s.push(j).drop_last() =~= s);
}

/// Reads a list of typed attribute objects, keeping each convertible entry's position
/// (see `positioned_attrs`).
pub fn read_positioned_attributes(arr: &Vec<Json>) -> (r: Vec<(usize, String, AttrValue)>)
    ensures
        positioned_model(r@) == positioned_attrs(json_models(arr@)),
{
    let mut out: Vec<(usize, String, AttrValue)> = Vec::new();
    let mut i: usize = 0;
    while i < arr.len()
        invariant
            i <= arr@.len(),
            positioned_model(out@) == positioned_attrs(json_models(arr@.subrange(0, i as int))),
        decreases arr@.len() - i,
    {
        proof {
            lemma_json_models_step(arr@, i as int);
            lemma_positioned_push(json_models(arr@.subrange(0, i as int)), arr@[i as int]@);
            crate::value::lemma_json_models_index(arr@.subrange(0, i as int));
        }
        let a = &arr[i];
        match (get_str(a, "key"), get_field(a, "value"), get_str(a, "type")) {
            (Some(k), Some(v), Some(t)) => match convert_json_to_attr_value(v, t.as_str()) {
                Some(m) => {
                    let key = k.clone();
                    let ghost old_out = out@;
                    out.push((i, key, m));
                    assert(positioned_model(out@) =~= positioned_model(old_out).push(
                        (i as nat, key@, m@),
                    ));
                },
                None => {},
            },
            _ => {},
        }
        i = i + 1;
    }
    assert(arr@.subrange(0, arr@.len() as int) =~= arr@);
    out
}

/// The clause of an update expression for the attribute at position i.
pub open spec fn set_clause(i: nat) -> Seq<char> {
    name_placeholder(i) + " = "@ + value_placeholder(i)
}

/// The update expression that sets positioned attributes: one `#attr{i} = :val{i}`
/// clause per attribute, i its position, joined by `, ` after `SET `.
pub open spec fn update_expression_of(ps: Seq<(nat, Seq<char>, AttrModel)>) -> Seq<char> {
    "SET "@ + joined(ps.map_values(|p: (nat, Seq<char>, AttrModel)| set_clause(p.0)), ", "@)
}

/// The name bindings of an update: `#attr{i}` to the name of the attribute at position i.
pub open spec fn update_names(ps: Seq<(nat, Seq<char>, AttrModel)>) -> Seq<(Seq<char>, Seq<char>)> {
    ps.map_values(|p: (nat, Seq<char>, AttrModel)| (name_placeholder(p.0), p.1))
}

/// The value bindings of an update: `:val{i}` to the value of the attribute at position i.
pub open spec fn update_values(ps: Seq<(nat, Seq<char>, AttrModel)>) -> Seq<(Seq<char>, AttrModel)> {
    ps.map_values(|p: (nat, Seq<char>, AttrModel)| (value_placeholder(p.0), p.2))
}

/// An update expression with its placeholder bindings.
pub struct UpdateClauses {
    pub expression: String,
    pub names: Vec<(String, String)>,
    pub values: Vec<(String, AttrValue)>,
}

/// Builds the update expression that sets each positioned attribute, in order.
pub fn build_update_expression(attrs: Vec<(usize, String, AttrValue)>) -> (r: UpdateClauses)
    ensures
        r.expression@ == update_expression_of(positioned_model(attrs@)),
        names_model(r.names@) == update_names(positioned_model(attrs@)),
        attr_entry_models(r.values@) == update_values(positioned_model(attrs@)),
{
    let ghost all = positioned_model(attrs@);
    let total: usize = attrs.len();
    let ghost n = total as nat;
    let mut rest = attrs;
    let mut text = String::new();
    let mut names: Vec<(String, String)> = Vec::new();
    let mut values: Vec<(String, AttrValue)> = Vec::new();
    let mut i: usize = 0;
    while rest.len() > 0
        invariant
            i + rest@.len() == n,
            n <= usize::MAX,
            all.len() == n,
            positioned_model(rest@) == all.subrange(i as int, n as int),
            text@ == joined(
                all.subrange(0, i as int).map_values(
                    |p: (nat, Seq<char>, AttrModel)| set_clause(p.0),
                ),
                ", "@,
            ),
            names_model(names@) == update_names(all.subrange(0, i as int)),
            attr_entry_models(values@) == update_values(all.subrange(0, i as int)),
        decreases rest@.len(),
    {
        let ghost old_rest = rest@;
        let (pos, key, value) = rest.remove(0);
        proof {
            assert(positioned_model(old_rest)[0] == all[i as int]);
            assert(positioned_model(rest@) =~= all.subrange(i + 1, n as int)) by {
                assert forall|k: int| 0 <= k < rest@.len() implies #[trigger] positioned_model(
                    rest@,
                )[k] == all.subrange(i + 1, n as int)[k] by {
                    assert(rest@[k] == old_rest[k + 1]);
                    assert(positioned_model(old_rest)[k + 1] == all.subrange(i as int, n as int)[k
                        + 1]);
                }
            }
        }
        let name = numbered("#attr", pos as u128);
        let vph = numbered(":val", pos as u128);
        let clause = concat3(name.as_str(), " = ", vph.as_str());
        let ghost prefix = all.subrange(0, i as int);
        let ghost clauses = prefix.map_values(|p: (nat, Seq<char>, AttrModel)| set_clause(p.0));
        proof {
            lemma_joined_push(clauses, ", "@, clause@);
            assert(all.subrange(0, i + 1) =~= prefix.push(all[i as int]));
            assert(clauses.push(clause@) =~= all.subrange(0, i + 1).map_values(
                |p: (nat, Seq<char>, AttrModel)| set_clause(p.0),
            ));
            lemma_names_push(names@, name, key);
            lemma_attr_entry_models_push(values@, vph, value);
        }
        join_push(&mut text, i, ", ", clause.as_str());
        names.push((name, key));
        values.push((vph, value));
        i = i + 1;
        assert(names_model(names@) =~= update_names(all.subrange(0, i as int)));
        assert(attr_entry_models(values@) =~= update_values(all.subrange(0, i as int)));
    }
    assert(all.subrange(0, n as int) =~= all);
    let mut expression = String::from_str("SET ");
    expression.append(text.as_str());
    proof {
        reveal_strlit("SET ");
    }
    UpdateClauses { expression, names, values }
}

} // verus!
