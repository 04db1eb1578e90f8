//! Laws of the codec, the cursor codec and placeholder allocation.
use vstd::prelude::*;
use crate::dynamodb_utils::{
    attr_json, attr_json_all, attr_json_entries, cursor_entries, cursor_json_of, encoded_cursor,
    encoded_entries, inferred, inferred_all, inferred_entries, number_elems, number_json,
    number_text_of, string_elems, typed, AttrType,
};
use crate::numeric::{int_text, is_finite_numeral, lemma_int_text_reads_back, parsed_i64};
use crate::dynamo::create_item::{
    create_status, is_conditional_check_failure, planned_put, skip_existing_of,
};
use crate::dynamo::query_table::{filter_expression_of, planned_query};
use crate::dynamo::types::ServiceError;
use crate::dynamo::scan_table::planned_scan;
use crate::dynamo::update_item::planned_update;
use crate::expression::{
    filter_names, filter_placeholder, filter_values, name_placeholder, numbered_filters,
    positioned_attrs, typed_attr_of, value_placeholder, values_used, FilterModel,
};
use crate::numeric::{lemma_nat_text, nat_text};
use crate::value::{AttrModel, JsonModel};

verus! {

/// Integers in the signed 64-bit range read back from their number text.
proof fn lemma_int_reads_back(i: int)
    requires
        i64::MIN <= i <= i64::MAX,
    ensures
        number_json(int_text(i)) == JsonModel::Int(i),
{
    lemma_int_text_reads_back(i);
}

/// A scalar JSON value converted under its matching tag and read back is the same value:
/// strings under `S`, booleans under `BOOL`, null under `NULL`, integers in the signed
/// 64-bit range under `N`.
pub proof fn lemma_scalar_round_trip(v: JsonModel, t: AttrType)
    requires
        (v is Str && t == AttrType::S) || (v is Bool && t == AttrType::Bool) || (v is Null && t
            == AttrType::Null) || (v is Int && t == AttrType::N && i64::MIN <= v->Int_0
            <= i64::MAX),
    ensures
        typed(v, t) is Some,
        attr_json(typed(v, t)->0) == v,
{
    if v is Int {
        lemma_int_reads_back(v->Int_0);
    }
}

/// The JSON values whose numbers read back unchanged: integers in the signed 64-bit
/// range, and other numbers whose text is a decimal numeral in the finite range of a
/// 64-bit float that does not read as such an integer.
pub open spec fn numbers_read_back(v: JsonModel) -> bool
    decreases v,
{
    match v {
        JsonModel::Int(i) => i64::MIN <= i <= i64::MAX,
        JsonModel::Float(t) => is_finite_numeral(t) && parsed_i64(t) is None,
        JsonModel::Array(a) => all_numbers_read_back(a),
        JsonModel::Object(e) => entry_numbers_read_back(e),
        _ => true,
    }
}

pub open spec fn all_numbers_read_back(s: Seq<JsonModel>) -> bool
    decreases s,
{
    s.len() == 0 || (all_numbers_read_back(s.drop_last()) && numbers_read_back(s.last()))
}

pub open spec fn entry_numbers_read_back(s: Seq<(Seq<char>, JsonModel)>) -> bool
    decreases s,
{
    s.len() == 0 || (entry_numbers_read_back(s.drop_last()) && numbers_read_back(s.last().1))
}

/// Any JSON value, nested arrays and objects included, converted without tags and read
/// back is the same value, provided its numbers read back (see `numbers_read_back`).
pub proof fn lemma_inferred_round_trip(v: JsonModel)
    requires
        numbers_read_back(v),
    ensures
        attr_json(inferred(v)) == v,
    decreases v,
{
    match v {
        JsonModel::Int(i) => lemma_int_reads_back(i),
        JsonModel::Array(a) => lemma_inferred_all_round_trip(a),
        JsonModel::Object(e) => lemma_inferred_entries_round_trip(e),
        _ => {},
    }
}

proof fn lemma_inferred_all_round_trip(s: Seq<JsonModel>)
    requires
        all_numbers_read_back(s),
    ensures
        attr_json_all(inferred_all(s)) == s,
    decreases s,
{
    if s.len() > 0 {
        lemma_inferred_all_round_trip(s.drop_last());
        lemma_inferred_round_trip(s.last());
        let x = inferred_all(s.drop_last());
        assert(x.push(inferred(s.last())).drop_last() =~= x);
        assert(s.drop_last().push(s.last()) =~= s);
    }
}

proof fn lemma_inferred_entries_round_trip(s: Seq<(Seq<char>, JsonModel)>)
    requires
        entry_numbers_read_back(s),
    ensures
        attr_json_entries(inferred_entries(s)) == s,
    decreases s,
{
    if s.len() > 0 {
        lemma_inferred_entries_round_trip(s.drop_last());
        lemma_inferred_round_trip(s.last().1);
        let x = inferred_entries(s.drop_last());
        assert(x.push((s.last().0, inferred(s.last().1))).drop_last() =~= x);
        assert(s.drop_last().push(s.last()) =~= s);
    }
}

/// Number texts that read back unchanged: the canonical decimal text of a signed 64-bit
/// integer, or a decimal numeral in the finite range of a 64-bit float that does not
/// read as such an integer.
pub open spec fn canonical_number(n: Seq<char>) -> bool {
    match parsed_i64(n) {
        Some(i) => int_text(i as int) == n,
        None => is_finite_numeral(n),
    }
}

/// Key entries that a cursor carries unchanged: strings, booleans, and numbers with
/// canonical text.
pub open spec fn cursor_key(k: Seq<(Seq<char>, AttrModel)>) -> bool {
    forall|i: int|
        0 <= i < k.len() ==> match #[trigger] k[i].1 {
            AttrModel::S(_) | AttrModel::Bool(_) => true,
            AttrModel::N(n) => canonical_number(n),
            _ => false,
        }
}

/// A last-evaluated key encoded as a cursor and decoded as the next request's start
/// key is the same key.
pub proof fn lemma_cursor_round_trip(k: Seq<(Seq<char>, AttrModel)>)
    requires
        cursor_key(k),
    ensures
        encoded_cursor(Some(k)) == JsonModel::Object(encoded_entries(k)),
        cursor_entries(encoded_entries(k)) == k,
    decreases k.len(),
{
    if k.len() > 0 {
        let init = k.drop_last();
        assert forall|i: int| 0 <= i < init.len() implies match #[trigger] init[i].1 {
            AttrModel::S(_) | AttrModel::Bool(_) => true,
            AttrModel::N(n) => canonical_number(n),
            _ => false,
        } by {
            assert(init[i] == k[i]);
        }
        lemma_cursor_round_trip(init);
        let last = k.last();
        let x = encoded_entries(init);
        assert(x.push((last.0, cursor_json_of(last.1))).drop_last() =~= x);
        assert(k[k.len() - 1] == last);
        if let AttrModel::N(n) = last.1 {
            if let Some(i) = parsed_i64(n) {
                lemma_int_reads_back(i as int);
            }
        }
        assert(init.push(last) =~= k);
    }
}

/// Under the tags that keep structure, a JSON value reads back unchanged: a number
/// under `N`, an array under `L` and an object under `M`, provided its numbers read
/// back (see `numbers_read_back`).
pub proof fn lemma_typed_round_trip(v: JsonModel, t: AttrType)
    requires
        numbers_read_back(v),
        (v is Int && t == AttrType::N) || (v is Float && t == AttrType::N) || (v is Array && t
            == AttrType::L) || (v is Object && t == AttrType::M),
    ensures
        typed(v, t) is Some,
        attr_json(typed(v, t)->0) == v,
{
    match v {
        JsonModel::Int(i) => lemma_int_reads_back(i),
        JsonModel::Array(a) => lemma_inferred_round_trip(v),
        JsonModel::Object(e) => lemma_inferred_round_trip(v),
        _ => {},
    }
}

/// No two bindings share a placeholder.
pub open spec fn distinct_keys<A>(s: Seq<(Seq<char>, A)>) -> bool {
    forall|i: int, j: int| 0 <= i < j < s.len() ==> s[i].0 != s[j].0
}

proof fn lemma_nat_text_injective(a: nat, b: nat)
    requires
        nat_text(a) == nat_text(b),
    ensures
        a == b,
{
    lemma_nat_text(a);
    lemma_nat_text(b);
}

proof fn lemma_prefixed_injective(prefix: Seq<char>, a: nat, b: nat)
    requires
        prefix + nat_text(a) == prefix + nat_text(b),
    ensures
        a == b,
{
    assert((prefix + nat_text(a)).subrange(prefix.len() as int, (prefix + nat_text(a)).len() as int)
        =~= nat_text(a));
    assert((prefix + nat_text(b)).subrange(prefix.len() as int, (prefix + nat_text(b)).len() as int)
        =~= nat_text(b));
    lemma_nat_text_injective(a, b);
}

proof fn lemma_filter_names_shape(fs: Seq<(nat, FilterModel)>)
    ensures
        filter_names(fs).len() == fs.len(),
        forall|i: int|
            0 <= i < fs.len() ==> #[trigger] filter_names(fs)[i].0 == name_placeholder(fs[i].0),
    decreases fs.len(),
{
    if fs.len() > 0 {
        lemma_filter_names_shape(fs.drop_last());
    }
}

proof fn lemma_filter_values_shape(fs: Seq<(nat, FilterModel)>)
    ensures
        filter_values(fs).len() == values_used(fs),
        forall|j: int|
            0 <= j < filter_values(fs).len() ==> #[trigger] filter_values(fs)[j].0
                == filter_placeholder(j as nat),
    decreases fs.len(),
{
    if fs.len() > 0 {
        lemma_filter_values_shape(fs.drop_last());
    }
}

/// Name indices that start at `lo` and strictly increase.
pub open spec fn increasing_from(fs: Seq<(nat, FilterModel)>, lo: nat) -> bool {
    &&& forall|i: int| 0 <= i < fs.len() ==> lo <= #[trigger] fs[i].0
    &&& forall|i: int, j: int| 0 <= i < j < fs.len() ==> fs[i].0 < fs[j].0
}

proof fn lemma_numbered_increasing(s: Seq<JsonModel>, base: nat, by_position: bool)
    ensures
        increasing_from(numbered_filters(s, base, by_position), base),
        forall|i: int|
            0 <= i < numbered_filters(s, base, by_position).len() ==> #[trigger] numbered_filters(
                s,
                base,
                by_position,
            )[i].0 < base + s.len(),
        !by_position ==> forall|i: int|
            0 <= i < numbered_filters(s, base, by_position).len() ==> #[trigger] numbered_filters(
                s,
                base,
                by_position,
            )[i].0 == base + i,
    decreases s.len(),
{
    if s.len() > 0 {
        let init = s.drop_last();
        lemma_numbered_increasing(init, base, by_position);
        crate::expression::lemma_numbered_len(init, base, by_position);
    }
}

proof fn lemma_filter_names_distinct(fs: Seq<(nat, FilterModel)>, lo: nat)
    requires
        increasing_from(fs, lo),
    ensures
        distinct_keys(filter_names(fs)),
{
    let n = filter_names(fs);
    lemma_filter_names_shape(fs);
    assert forall|i: int, j: int| 0 <= i < j < n.len() implies n[i].0 != n[j].0 by {
        assert(n[i].0 == name_placeholder(fs[i].0) && n[j].0 == name_placeholder(fs[j].0));
        if n[i].0 == n[j].0 {
            lemma_prefixed_injective("#attr"@, fs[i].0, fs[j].0);
        }
    }
}

proof fn lemma_filter_values_distinct(fs: Seq<(nat, FilterModel)>)
    ensures
        distinct_keys(filter_values(fs)),
{
    let v = filter_values(fs);
    lemma_filter_values_shape(fs);
    assert forall|i: int, j: int| 0 <= i < j < v.len() implies v[i].0 != v[j].0 by {
        assert(v[i].0 == filter_placeholder(i as nat) && v[j].0 == filter_placeholder(j as nat));
        if v[i].0 == v[j].0 {
            lemma_prefixed_injective(":filter"@, i as nat, j as nat);
        }
    }
}

/// Placeholders of the key condition differ from every filter placeholder.
proof fn lemma_key_placeholders_apart(k: nat)
    ensures
        "#attr0"@ == name_placeholder(0),
        "#attr1"@ == name_placeholder(1),
        ":pkey"@ != filter_placeholder(k),
        ":skey"@ != filter_placeholder(k),
        ":pkey"@ != ":skey"@,
{
    reveal_strlit("#attr0");
    reveal_strlit("#attr1");
    reveal_strlit("#attr");
    reveal_strlit(":pkey");
    reveal_strlit(":skey");
    reveal_strlit(":filter");
    assert(nat_text(0) =~= seq!['0']);
    assert(nat_text(1) =~= seq!['1']);
    assert("#attr0"@ =~= name_placeholder(0));
    assert("#attr1"@ =~= name_placeholder(1));
    assert(":pkey"@[1] != filter_placeholder(k)[1]);
    assert(":skey"@[1] != filter_placeholder(k)[1]);
    assert(":pkey"@[1] != ":skey"@[1]);
}

/// A planned query never binds a name placeholder or a value placeholder twice: the key
/// attributes take `#attr0`/`#attr1` and `:pkey`/`:skey`, the filters the indices after
/// them.
pub proof fn lemma_query_placeholders_unique(table: Seq<char>, p: JsonModel)
    requires
        planned_query(table, p) is Some,
    ensures
        distinct_keys(planned_query(table, p)->0.names),
        distinct_keys(planned_query(table, p)->0.values),
{
    let q = planned_query(table, p)->0;
    let fs = numbered_filters(crate::dynamo::types::filter_list(p), 2, false);
    let fnames = filter_names(fs);
    let fvalues = filter_values(fs);
    lemma_numbered_increasing(crate::dynamo::types::filter_list(p), 2, false);
    lemma_filter_names_distinct(fs, 2);
    lemma_filter_values_distinct(fs);
    lemma_filter_names_shape(fs);
    lemma_filter_values_shape(fs);
    lemma_key_placeholders_apart(0);
    assert forall|i: int, j: int| 0 <= i < j < q.names.len() implies q.names[i].0 != q.names[j].0 by {
        let kn = q.names.len() - fnames.len();
        if j >= kn {
            if i >= kn {
                assert(q.names[i] == fnames[i - kn]);
                assert(q.names[j] == fnames[j - kn]);
            } else {
                assert(q.names[j].0 == name_placeholder(fs[j - kn].0));
                assert(fs[j - kn].0 >= 2);
                assert(q.names[i].0 == name_placeholder(i as nat));
                if q.names[i].0 == q.names[j].0 {
                    lemma_prefixed_injective("#attr"@, i as nat, fs[j - kn].0);
                }
            }
        } else {
            assert(q.names[i].0 == name_placeholder(0) && q.names[j].0 == name_placeholder(1));
            if q.names[i].0 == q.names[j].0 {
                lemma_prefixed_injective("#attr"@, 0, 1);
            }
        }
    }
    assert forall|i: int, j: int| 0 <= i < j < q.values.len() implies q.values[i].0 != q.values[j].0 by {
        let kv = q.values.len() - fvalues.len();
        if j >= kv {
            if i >= kv {
                assert(q.values[i] == fvalues[i - kv]);
                assert(q.values[j] == fvalues[j - kv]);
            } else {
                assert(q.values[j].0 == filter_placeholder((j - kv) as nat));
                lemma_key_placeholders_apart((j - kv) as nat);
            }
        }
    }
}

/// A planned scan never binds a name placeholder or a value placeholder twice.
pub proof fn lemma_scan_placeholders_unique(table: Seq<char>, p: JsonModel)
    requires
        planned_scan(table, p) is Some,
    ensures
        distinct_keys(planned_scan(table, p)->0.names),
        distinct_keys(planned_scan(table, p)->0.values),
{
    let fs = numbered_filters(crate::dynamo::types::filter_list(p), 0, true);
    lemma_numbered_increasing(crate::dynamo::types::filter_list(p), 0, true);
    lemma_filter_names_distinct(fs, 0);
    lemma_filter_values_distinct(fs);
}

proof fn lemma_positioned_increasing(s: Seq<JsonModel>)
    ensures
        forall|i: int|
            0 <= i < positioned_attrs(s).len() ==> #[trigger] positioned_attrs(s)[i].0 < s.len(),
        forall|i: int, j: int|
            0 <= i < j < positioned_attrs(s).len() ==> positioned_attrs(s)[i].0 < positioned_attrs(
                s,
            )[j].0,
    decreases s.len(),
{
    if s.len() > 0 {
        let init = s.drop_last();
        lemma_positioned_increasing(init);
        let r = positioned_attrs(init);
        let ps = positioned_attrs(s);
        match typed_attr_of(s.last()) {
            Some(q) => {
                let last = ((s.len() - 1) as nat, q.0, q.1);
                assert(ps == r.push(last));
                assert forall|i: int| 0 <= i < ps.len() implies #[trigger] ps[i].0 < s.len() by {
                    if i < r.len() {
                        assert(ps[i] == r[i]);
                    }
                }
                assert forall|i: int, j: int| 0 <= i < j < ps.len() implies ps[i].0 < ps[j].0 by {
                    assert(ps[i] == r[i]);
                    if j < r.len() {
                        assert(ps[j] == r[j]);
                    }
                }
            },
            None => {
                assert(ps == r);
            },
        }
    }
}

/// A planned update never binds a name placeholder or a value placeholder twice: each
/// attribute's placeholders carry its own position in the payload.
pub proof fn lemma_update_placeholders_unique(table: Seq<char>, p: JsonModel)
    requires
        planned_update(table, p) is Some,
    ensures
        distinct_keys(planned_update(table, p)->0.names),
        distinct_keys(planned_update(table, p)->0.values),
{
    let u = planned_update(table, p)->0;
    let ps = positioned_attrs(crate::dynamo::types::array_field(p, "attributes"@)->0);
    lemma_positioned_increasing(crate::dynamo::types::array_field(p, "attributes"@)->0);
    assert forall|i: int, j: int| 0 <= i < j < u.names.len() implies u.names[i].0 != u.names[j].0 by {
        assert(u.names[i].0 == name_placeholder(ps[i].0));
        assert(u.names[j].0 == name_placeholder(ps[j].0));
        if u.names[i].0 == u.names[j].0 {
            lemma_prefixed_injective("#attr"@, ps[i].0, ps[j].0);
        }
    }
    assert forall|i: int, j: int| 0 <= i < j < u.values.len() implies u.values[i].0 != u.values[j].0 by {
        assert(u.values[i].0 == value_placeholder(ps[i].0));
        assert(u.values[j].0 == value_placeholder(ps[j].0));
        if u.values[i].0 == u.values[j].0 {
            lemma_prefixed_injective(":val"@, ps[i].0, ps[j].0);
        }
    }
}

/// Arrays whose elements are all strings.
pub open spec fn all_strings(a: Seq<JsonModel>) -> bool {
    forall|i: int| 0 <= i < a.len() ==> #[trigger] a[i] is Str
}

/// Arrays whose elements are all numbers that read back (see `numbers_read_back`).
pub open spec fn all_numbers(a: Seq<JsonModel>) -> bool {
    forall|i: int|
        0 <= i < a.len() ==> (#[trigger] a[i] is Int || a[i] is Float) && numbers_read_back(a[i])
}

proof fn lemma_string_set_reads_back(a: Seq<JsonModel>)
    requires
        all_strings(a),
    ensures
        string_elems(a).map_values(|s: Seq<char>| JsonModel::Str(s)) == a,
    decreases a.len(),
{
    if a.len() > 0 {
        let init = a.drop_last();
        assert forall|i: int| 0 <= i < init.len() implies #[trigger] init[i] is Str by {
            assert(init[i] == a[i]);
        }
        lemma_string_set_reads_back(init);
        assert(a[a.len() - 1] is Str);
        let r = string_elems(init);
        assert(r.push(a.last()->Str_0).map_values(|s: Seq<char>| JsonModel::Str(s)) =~= r.map_values(
            |s: Seq<char>| JsonModel::Str(s),
        ).push(a.last()));
        assert(init.push(a.last()) =~= a);
    }
}

proof fn lemma_number_set_reads_back(a: Seq<JsonModel>)
    requires
        all_numbers(a),
    ensures
        number_elems(a).map_values(|n: Seq<char>| number_json(n)) == a,
    decreases a.len(),
{
    if a.len() > 0 {
        let init = a.drop_last();
        assert forall|i: int| 0 <= i < init.len() implies (#[trigger] init[i] is Int || init[i] is Float)
            && numbers_read_back(init[i]) by {
            assert(init[i] == a[i]);
        }
        lemma_number_set_reads_back(init);
        let last = a.last();
        assert((last is Int || last is Float) && numbers_read_back(last)) by {
            assert(a[a.len() - 1] == last);
        }
        if let JsonModel::Int(i) = last {
            lemma_int_reads_back(i);
        }
        let r = number_elems(init);
        let t = number_text_of(last)->0;
        assert(number_json(t) == last);
        assert(r.push(t).map_values(|n: Seq<char>| number_json(n)) =~= r.map_values(
            |n: Seq<char>| number_json(n),
        ).push(last));
        assert(init.push(last) =~= a);
    }
}

/// Under the set tags, an array of strings (`SS`) or of numbers that read back (`NS`)
/// reads back unchanged.
pub proof fn lemma_set_round_trip(v: JsonModel, t: AttrType)
    requires
        (v is Array && t == AttrType::Ss && all_strings(v->Array_0)) || (v is Array && t
            == AttrType::Ns && all_numbers(v->Array_0)),
    ensures
        typed(v, t) is Some,
        attr_json(typed(v, t)->0) == v,
{
    if t == AttrType::Ss {
        lemma_string_set_reads_back(v->Array_0);
    } else {
        lemma_number_set_reads_back(v->Array_0);
    }
}

proof fn lemma_inferred_entries_keys(e: Seq<(Seq<char>, JsonModel)>)
    ensures
        inferred_entries(e).len() == e.len(),
        forall|i: int| 0 <= i < e.len() ==> #[trigger] inferred_entries(e)[i].0 == e[i].0,
    decreases e.len(),
{
    if e.len() > 0 {
        lemma_inferred_entries_keys(e.drop_last());
    }
}

proof fn lemma_attr_json_entries_keys(m: Seq<(Seq<char>, AttrModel)>)
    ensures
        attr_json_entries(m).len() == m.len(),
        forall|i: int| 0 <= i < m.len() ==> #[trigger] attr_json_entries(m)[i].0 == m[i].0,
    decreases m.len(),
{
    if m.len() > 0 {
        lemma_attr_json_entries_keys(m.drop_last());
    }
}

/// Converting a JSON object to a map keeps its keys in order, so a map made from an
/// object with unique keys has unique keys.
pub proof fn lemma_map_keys_unique(e: Seq<(Seq<char>, JsonModel)>)
    requires
        distinct_keys(e),
    ensures
        inferred(JsonModel::Object(e)) == AttrModel::M(inferred_entries(e)),
        distinct_keys(inferred_entries(e)),
{
    lemma_inferred_entries_keys(e);
    let m = inferred_entries(e);
    assert forall|i: int, j: int| 0 <= i < j < m.len() implies m[i].0 != m[j].0 by {
        assert(m[i].0 == e[i].0 && m[j].0 == e[j].0);
    }
}

/// Reading a map back as JSON keeps its keys in order, so a map with unique keys
/// becomes an object with unique keys.
pub proof fn lemma_object_keys_unique(m: Seq<(Seq<char>, AttrModel)>)
    requires
        distinct_keys(m),
    ensures
        attr_json(AttrModel::M(m)) == JsonModel::Object(attr_json_entries(m)),
        distinct_keys(attr_json_entries(m)),
{
    lemma_attr_json_entries_keys(m);
    let o = attr_json_entries(m);
    assert forall|i: int, j: int| 0 <= i < j < o.len() implies o[i].0 != o[j].0 by {
        assert(o[i].0 == m[i].0 && o[j].0 == m[j].0);
    }
}

/// A lone filter clause renders as its operator's fragment over its name placeholder
/// and `:filter0`, for every operator, the unrecognised ones included.
pub proof fn lemma_single_filter_fragment(index: nat, f: FilterModel)
    ensures
        filter_expression_of(seq![(index, f)]) == Some(
            crate::expression::fragment(f.op, name_placeholder(index), filter_placeholder(0)),
        ),
{
    let fs = seq![(index, f)];
    assert(fs.drop_last() =~= Seq::<(nat, FilterModel)>::empty());
    let empty = Seq::<(nat, FilterModel)>::empty();
    assert(crate::expression::filter_texts(empty) =~= Seq::<Seq<char>>::empty());
    assert(values_used(empty) == 0);
    let frag = crate::expression::fragment(f.op, name_placeholder(index), filter_placeholder(0));
    assert(crate::expression::filter_texts(fs) =~= seq![frag]);
}

/// In a query whose filters yield one clause, that clause renders as its operator's
/// fragment over `#attr2` and `:filter0`.
pub proof fn lemma_query_single_filter(table: Seq<char>, p: JsonModel)
    requires
        planned_query(table, p) is Some,
        numbered_filters(crate::dynamo::types::filter_list(p), 2, false).len() == 1,
    ensures
        planned_query(table, p)->0.filter_expression == Some(
            crate::expression::fragment(
                numbered_filters(crate::dynamo::types::filter_list(p), 2, false)[0].1.op,
                name_placeholder(2),
                filter_placeholder(0),
            ),
        ),
{
    let fs = numbered_filters(crate::dynamo::types::filter_list(p), 2, false);
    lemma_numbered_increasing(crate::dynamo::types::filter_list(p), 2, false);
    assert(fs =~= seq![(2nat, fs[0].1)]);
    lemma_single_filter_fragment(2, fs[0].1);
}

/// Creating an item with `skipExisting` when an item with its key already exists is a
/// success: the planned put is conditional on the first attribute being absent, and the
/// store's conditional-check rejection of that put is answered with status 200.
pub proof fn lemma_skip_existing_succeeds(table: Seq<char>, p: JsonModel, e: ServiceError)
    requires
        planned_put(table, p) is Some,
        skip_existing_of(p),
        is_conditional_check_failure(e),
    ensures
        planned_put(table, p)->0.skip_existing,
        planned_put(table, p)->0.condition_expression == Some("attribute_not_exists(#attr0)"@),
        planned_put(table, p)->0.names == seq![("#attr0"@, planned_put(table, p)->0.item[0].0)],
        create_status(Err(e), planned_put(table, p)->0.skip_existing) == 200,
{
}

} // verus!
