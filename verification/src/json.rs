//! The text-encoded object payloads of `INFO` and `CONNECT`.  Parsing the
//! standard JSON grammar is serde_json's work, taken on trust behind a
//! named result; everything that reads the parsed tree — field lookup,
//! typing, range checks — is the library's own verified logic.

use vstd::prelude::*;

use crate::strings::str_eq;

verus! {

/// A JSON value in the library's model: object members in the order
/// serde_json reports them, numbers only as unsigned 64-bit integers, any
/// other number marked as out of range.
#[derive(Debug)]
pub enum Json {
    Null,
    Bool(bool),
    Num(u64),
    NumOther,
    Str(String),
    Arr(Vec<Json>),
    Obj(Vec<(String, Json)>),
}

#[verifier::external_type_specification]
#[verifier::external_body]
pub struct ExSerdeValue(serde_json::Value);

/// Relies on serde_json::Value: its six variants carry exactly what this
/// library's model carries; each arm moves one variant's contents over,
/// recursing into arrays and objects.
#[verifier::external_body]
fn value_to_json(v: &serde_json::Value) -> Json {
    match v {
        serde_json::Value::Null => Json::Null,
        serde_json::Value::Bool(b) => Json::Bool(*b),
        serde_json::Value::Number(n) => n.as_u64().map_or(Json::NumOther, Json::Num),
        serde_json::Value::String(s) => Json::Str(s.clone()),
        serde_json::Value::Array(a) => Json::Arr(a.iter().map(value_to_json).collect()),
        serde_json::Value::Object(m) => Json::Obj(
            m.iter().map(|(k, x)| (k.clone(), value_to_json(x))).collect(),
        ),
    }
}

/// What serde_json parses a byte string to, in the library's model; a pure
/// function of the bytes (object members come back in sorted key order).
pub uninterp spec fn json_of(s: Seq<u8>) -> Option<Json>;

/// Relies on serde_json::from_slice::<Value>: it parses the standard JSON
/// grammar, returning an error exactly on malformed input, and its result
/// depends on the input bytes alone.
#[verifier::external_body]
pub fn parse_json(b: &[u8]) -> (r: Option<Json>)
    ensures
        json_of(b@) == r,
{
    match serde_json::from_slice::<serde_json::Value>(b) {
        Ok(v) => Some(value_to_json(&v)),
        Err(_) => None,
    }
}

/// The value of the first member named `k`, if any.
pub open spec fn jv_get(o: Seq<(String, Json)>, k: Seq<char>) -> Option<Json>
    decreases o.len(),
{
    if o.len() == 0 {
        None
    } else if o[0].0@ == k {
        Some(o[0].1)
    } else {
        jv_get(o.skip(1), k)
    }
}

/// Look a member up by name.
pub fn obj_get<'a>(o: &'a Vec<(String, Json)>, k: &str) -> (r: Option<&'a Json>)
    ensures
        match r {
            Some(j) => jv_get(o@, k@) == Some(*j),
            None => jv_get(o@, k@) is None,
        },
{
    let mut i: usize = 0;
    while i < o.len()
        invariant
            i <= o@.len(),
            forall|j: int| 0 <= j < i ==> o@[j].0@ != k@,
        decreases o@.len() - i,
    {
        if str_eq(o[i].0.as_str(), k) {
            proof {
                lemma_jv_get_at(o@, k@, i as int);
            }
            return Some(&o[i].1);
        }
        i = i + 1;
    }
    proof {
        lemma_jv_get_none(o@, k@);
    }
    None
}

proof fn lemma_jv_get_at(o: Seq<(String, Json)>, k: Seq<char>, i: int)
    requires
        0 <= i < o.len(),
        o[i].0@ == k,
        forall|j: int| 0 <= j < i ==> o[j].0@ != k,
    ensures
        jv_get(o, k) == Some(o[i].1),
    decreases i,
{
    if i == 0 {
    } else {
        assert(forall|j: int| 0 <= j < i - 1 ==> o.skip(1)[j] == o[j + 1]);
        assert(o.skip(1)[i - 1] == o[i]);
        lemma_jv_get_at(o.skip(1), k, i - 1);
    }
}

proof fn lemma_jv_get_none(o: Seq<(String, Json)>, k: Seq<char>)
    requires
        forall|j: int| 0 <= j < o.len() ==> o[j].0@ != k,
    ensures
        jv_get(o, k) is None,
    decreases o.len(),
{
    if o.len() > 0 {
        assert(forall|j: int| 0 <= j < o.skip(1).len() ==> o.skip(1)[j] == o[j + 1]);
        lemma_jv_get_none(o.skip(1), k);
    }
}

/// A required string member.
pub open spec fn req_str(o: Seq<(String, Json)>, k: Seq<char>) -> Option<Seq<char>> {
    match jv_get(o, k) {
        Some(Json::Str(s)) => Some(s@),
        _ => None,
    }
}

/// An optional string member: absent or null is accepted as none; any
/// non-string value is a type error.
pub open spec fn opt_str(o: Seq<(String, Json)>, k: Seq<char>) -> Option<
    Option<Seq<char>>,
> {
    match jv_get(o, k) {
        None => Some(None),
        Some(Json::Null) => Some(None),
        Some(Json::Str(s)) => Some(Some(s@)),
        _ => None,
    }
}

/// A required boolean member.
pub open spec fn req_bool(o: Seq<(String, Json)>, k: Seq<char>) -> Option<bool> {
    match jv_get(o, k) {
        Some(Json::Bool(b)) => Some(b),
        _ => None,
    }
}

/// An optional boolean member.
pub open spec fn opt_bool(o: Seq<(String, Json)>, k: Seq<char>) -> Option<Option<bool>> {
    match jv_get(o, k) {
        None => Some(None),
        Some(Json::Null) => Some(None),
        Some(Json::Bool(b)) => Some(Some(b)),
        _ => None,
    }
}

/// A required unsigned member.
pub open spec fn req_u64(o: Seq<(String, Json)>, k: Seq<char>) -> Option<u64> {
    match jv_get(o, k) {
        Some(Json::Num(n)) => Some(n),
        _ => None,
    }
}

/// An optional unsigned member.
pub open spec fn opt_u64(o: Seq<(String, Json)>, k: Seq<char>) -> Option<Option<u64>> {
    match jv_get(o, k) {
        None => Some(None),
        Some(Json::Null) => Some(None),
        Some(Json::Num(n)) => Some(Some(n)),
        _ => None,
    }
}

/// Every element of the array is a string.
pub open spec fn all_strs(a: Seq<Json>) -> bool {
    forall|i: int| 0 <= i < a.len() ==> a[i] is Str
}

/// The strings of an all-string array.
pub open spec fn strs_of(a: Seq<Json>) -> Seq<Seq<char>> {
    Seq::new(a.len(), |i: int| a[i]->Str_0@)
}

/// An optional array-of-strings member.
pub open spec fn opt_str_arr(o: Seq<(String, Json)>, k: Seq<char>) -> Option<
    Option<Seq<Seq<char>>>,
> {
    match jv_get(o, k) {
        None => Some(None),
        Some(Json::Null) => Some(None),
        Some(Json::Arr(a)) => if all_strs(a@) {
            Some(Some(strs_of(a@)))
        } else {
            None
        },
        _ => None,
    }
}

pub fn get_req_str(o: &Vec<(String, Json)>, k: &str) -> (r: Option<String>)
    ensures
        match r {
            Some(s) => req_str(o@, k@) == Some(s@),
            None => req_str(o@, k@) is None,
        },
{
    match obj_get(o, k) {
        Some(Json::Str(s)) => Some(s.clone()),
        _ => None,
    }
}

pub fn get_opt_str(o: &Vec<(String, Json)>, k: &str) -> (r: Option<Option<String>>)
    ensures
        match r {
            Some(s) => opt_str(o@, k@) == Some(crate::commands::opt_str_view(s)),
            None => opt_str(o@, k@) is None,
        },
{
    match obj_get(o, k) {
        None => Some(None),
        Some(Json::Null) => Some(None),
        Some(Json::Str(s)) => Some(Some(s.clone())),
        _ => None,
    }
}

pub fn get_req_bool(o: &Vec<(String, Json)>, k: &str) -> (r: Option<bool>)
    ensures
        match r {
            Some(b) => req_bool(o@, k@) == Some(b),
            None => req_bool(o@, k@) is None,
        },
{
    match obj_get(o, k) {
        Some(Json::Bool(b)) => Some(*b),
        _ => None,
    }
}

pub fn get_opt_bool(o: &Vec<(String, Json)>, k: &str) -> (r: Option<Option<bool>>)
    ensures
        match r {
            Some(b) => opt_bool(o@, k@) == Some(b),
            None => opt_bool(o@, k@) is None,
        },
{
    match obj_get(o, k) {
        None => Some(None),
        Some(Json::Null) => Some(None),
        Some(Json::Bool(b)) => Some(Some(*b)),
        _ => None,
    }
}

pub fn get_req_u64(o: &Vec<(String, Json)>, k: &str) -> (r: Option<u64>)
    ensures
        match r {
            Some(n) => req_u64(o@, k@) == Some(n),
            None => req_u64(o@, k@) is None,
        },
{
    match obj_get(o, k) {
        Some(Json::Num(n)) => Some(*n),
        _ => None,
    }
}

pub fn get_opt_u64(o: &Vec<(String, Json)>, k: &str) -> (r: Option<Option<u64>>)
    ensures
        match r {
            Some(n) => opt_u64(o@, k@) == Some(n),
            None => opt_u64(o@, k@) is None,
        },
{
    match obj_get(o, k) {
        None => Some(None),
        Some(Json::Null) => Some(None),
        Some(Json::Num(n)) => Some(Some(*n)),
        _ => None,
    }
}

pub fn get_opt_str_arr(o: &Vec<(String, Json)>, k: &str) -> (r: Option<
    Option<Vec<String>>,
>)
    ensures
        match r {
            Some(v) => opt_str_arr(o@, k@) == Some(crate::commands::opt_str_list_view(v)),
            None => opt_str_arr(o@, k@) is None,
        },
{
    let arr = match obj_get(o, k) {
        None => {
            return Some(None);
        },
        Some(Json::Null) => {
            return Some(None);
        },
        Some(Json::Arr(a)) => a,
        _ => {
            return None;
        },
    };
    let mut out: Vec<String> = Vec::new();
    let mut i: usize = 0;
    while i < arr.len()
        invariant
            i <= arr@.len(),
            jv_get(o@, k@) matches Some(j) && j is Arr && j->Arr_0@ == arr@,
            forall|j: int| 0 <= j < i ==> arr@[j] is Str,
            out.deep_view() =~= strs_of(arr@.take(i as int)),
        decreases arr@.len() - i,
    {
        match &arr[i] {
            Json::Str(s) => {
                out.push(s.clone());
                proof {
                    assert(strs_of(arr@.take(i + 1)) =~= strs_of(arr@.take(i as int)).push(
                        arr@[i as int]->Str_0@,
                    ));
                }
            },
            _ => {
                proof {
                    assert(!(arr@[i as int] is Str));
                    assert(!all_strs(arr@));
                }
                return None;
            },
        }
        i = i + 1;
    }
    proof {
        assert(all_strs(arr@));
        assert(arr@.take(arr@.len() as int) =~= arr@);
        assert(out.deep_view() =~= strs_of(arr@));
    }
    Some(Some(out))
}

} // verus!
