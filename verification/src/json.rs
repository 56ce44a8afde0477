use serde_json::{Map as JsonMap, Value};
use vstd::prelude::*;

use crate::text::{chars_of, split_chars, split_on, string_from_chars};

verus! {

/// A JSON value of `serde_json`, carried through as it is.
#[verifier::external_type_specification]
#[verifier::external_body]
pub struct ExValue(Value);

/// A JSON object of `serde_json`: values by key.
#[verifier::external_type_specification]
#[verifier::external_body]
#[verifier::reject_recursive_types(K)]
#[verifier::reject_recursive_types(V)]
pub struct ExJsonMap<K, V>(JsonMap<K, V>);

/// The entries of a JSON object: its values, by key.
pub uninterp spec fn json_entries(m: JsonMap<String, Value>) -> Map<Seq<char>, Value>;

/// The object that a JSON value is, `None` when it is no object.
pub uninterp spec fn json_as_object(v: Value) -> Option<JsonMap<String, Value>>;

/// `serde_json::Value::as_object`: the object the value is, if it is one.
#[verifier::external_body]
fn as_object(v: &Value) -> (r: Option<&JsonMap<String, Value>>)
    ensures
        match r {
            Some(m) => json_as_object(*v) == Some(*m),
            None => json_as_object(*v) is None,
        },
{
    v.as_object()
}

/// `serde_json::Map::get`: the value under `key`, if the object has that key.
#[verifier::external_body]
fn object_get<'a>(m: &'a JsonMap<String, Value>, key: &str) -> (r: Option<&'a Value>)
    ensures
        match r {
            Some(x) => json_entries(*m).contains_key(key@) && json_entries(*m)[key@] == *x,
            None => !json_entries(*m).contains_key(key@),
        },
{
    m.get(key)
}

/// `<serde_json::Value as Clone>::clone`: a copy of the value.
#[verifier::external_body]
fn clone_value(v: &Value) -> (r: Value)
    ensures
        r == *v,
{
    v.clone()
}

/// The value found in object `m` by following `keys`: each key but the last names an
/// object nested in the one before, the last names the value.
pub open spec fn lookup_path(m: JsonMap<String, Value>, keys: Seq<Seq<char>>) -> Option<Value>
    decreases keys.len(),
{
    let entries = json_entries(m);
    if keys.len() == 0 || !entries.contains_key(keys[0]) {
        None
    } else if keys.len() == 1 {
        Some(entries[keys[0]])
    } else {
        match json_as_object(entries[keys[0]]) {
            Some(inner) => lookup_path(inner, keys.drop_first()),
            None => None,
        }
    }
}

/// The value of `data` at the dotted path `key` (`"a.b"` is the key `b` of the object
/// under key `a`), when `data` is an object and the path leads somewhere.
pub open spec fn json_key_lookup(data: Value, key: Seq<char>) -> Option<Value> {
    match json_as_object(data) {
        Some(m) => lookup_path(m, split_chars(key, '.')),
        None => None,
    }
}

/// The value of `data` at the dotted path `key` (see [`json_key_lookup`]), copied out.
pub fn get_json_key(data: &Value, key: &'static str) -> (r: Option<Value>)
    ensures
        r == json_key_lookup(*data, key@),
{
    let keys = split_on(&chars_of(key), '.');
    let ghost all = split_chars(key@, '.');
    let map = match as_object(data) {
        Some(m) => m,
        None => return None,
    };
    proof {
        crate::text::lemma_split_nonempty(key@, '.');
    }
    let key_tot = keys.len();
    let mut cur = map;
    assert(all.skip(0) =~= all);
    let mut nk: usize = 0;
    while nk < key_tot
        invariant
            key_tot == keys@.len(),
            keys@.len() == all.len(),
            all.len() >= 1,
            forall|j: int| 0 <= j < keys@.len() ==> (#[trigger] keys@[j])@ == all[j],
            nk < key_tot,
            json_key_lookup(*data, key@) == lookup_path(*cur, all.skip(nk as int)),
        decreases key_tot - nk,
    {
        let k = string_from_chars(&keys[nk]);
        let ghost rest = all.skip(nk as int);
        assert(rest[0] == all[nk as int]);
        assert(rest.drop_first() =~= all.skip(nk + 1));
        if nk == key_tot - 1 {
            return match object_get(cur, k.as_str()) {
                Some(v) => Some(clone_value(v)),
                None => None,
            };
        } else {
            let inner = match object_get(cur, k.as_str()) {
                Some(v) => v,
                None => return None,
            };
            let inner = match as_object(inner) {
                Some(m) => m,
                None => return None,
            };
            cur = inner;
        }
        nk = nk + 1;
    }
    None
}

} // verus!
