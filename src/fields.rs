//! Writing option fields as JSON values, and reading them back.
use vstd::prelude::*;

use crate::json::{Json, JsonValue, entries_view, items_view, lemma_array_view, lemma_object_view};

verus! {

broadcast use {lemma_array_view, lemma_object_view};

/// The texts of a sequence of strings.
pub open spec fn strings_view(items: Seq<String>) -> Seq<Seq<char>> {
    items.map_values(|s: String| s@)
}

/// The text of an optional string.
pub open spec fn opt_string_view(o: Option<String>) -> Option<Seq<char>> {
    match o {
        Some(s) => Some(s@),
        None => None,
    }
}

/// The texts of an optional sequence of strings.
pub open spec fn opt_strings_view(o: Option<Vec<String>>) -> Option<Seq<Seq<char>>> {
    match o {
        Some(v) => Some(strings_view(v@)),
        None => None,
    }
}

/// An array of strings.
pub open spec fn str_array(items: Seq<Seq<char>>) -> JsonValue {
    JsonValue::Array(items.map_values(|s: Seq<char>| JsonValue::Str(s)))
}

/// An optional string: `null` where it is unset.
pub open spec fn opt_str(o: Option<Seq<char>>) -> JsonValue {
    match o {
        Some(s) => JsonValue::Str(s),
        None => JsonValue::Null,
    }
}

/// An optional count: `null` where it is unset.
pub open spec fn opt_count(o: Option<usize>) -> JsonValue {
    match o {
        Some(n) => JsonValue::Int(n as int),
        None => JsonValue::Null,
    }
}

/// An optional array of strings: `null` where it is unset.
pub open spec fn opt_str_array(o: Option<Seq<Seq<char>>>) -> JsonValue {
    match o {
        Some(items) => str_array(items),
        None => JsonValue::Null,
    }
}

/// The entry `(key, value)` with an owned key.
pub fn entry(key: &str, value: Json) -> (r: (String, Json))
    ensures
        r.0@ == key@,
        r.1 == value,
{
    (key.to_owned(), value)
}

/// An array that holds each string in turn.
pub fn string_array(items: &Vec<String>) -> (r: Json)
    ensures
        r@ == str_array(strings_view(items@)),
{
    let mut out: Vec<Json> = Vec::new();
    let mut i: usize = 0;
    while i < items.len()
        invariant
            i <= items.len(),
            out@.len() == i,
            forall|j: int| 0 <= j < i ==> #[trigger] out@[j]@ == JsonValue::Str(items@[j]@),
        decreases items.len() - i,
    {
        out.push(Json::Str(items[i].clone()));
        i += 1;
    }
    let r = Json::Array(out);
    assert(r@->Array_0 =~= str_array(strings_view(items@))->Array_0);
    r
}

/// An optional string, `null` where it is unset.
pub fn optional_string(o: Option<String>) -> (r: Json)
    ensures
        r@ == opt_str(opt_string_view(o)),
{
    match o {
        Some(s) => Json::Str(s),
        None => Json::Null,
    }
}

/// An optional count, `null` where it is unset.
pub fn optional_count(o: Option<usize>) -> (r: Json)
    ensures
        r@ == opt_count(o),
{
    match o {
        Some(n) => Json::PosInt(n as u64),
        None => Json::Null,
    }
}

/// An optional array of strings, `null` where it is unset.
pub fn optional_string_array(o: &Option<Vec<String>>) -> (r: Json)
    ensures
        r@ == opt_str_array(opt_strings_view(*o)),
{
    match o {
        Some(items) => string_array(items),
        None => Json::Null,
    }
}

/// Whether entry `i` of `entries` stands under `key`.
pub fn key_is(entries: &Vec<(String, Json)>, i: usize, key: &str) -> (r: bool)
    ensures
        r == (i < entries@.len() && entries_view(entries@)[i as int].0 == key@),
{
    if i < entries.len() {
        let k = key.to_owned();
        entries[i].0 == k
    } else {
        false
    }
}

/// The string that `v` holds, if it is one.
pub fn read_string(v: &Json) -> (r: Option<String>)
    ensures
        r is Some <==> v@ is Str,
        r matches Some(s) ==> v@ == JsonValue::Str(s@),
{
    match v {
        Json::Str(s) => Some(s.clone()),
        _ => None,
    }
}

/// The flag that `v` holds, if it is one.
pub fn read_bool(v: &Json) -> (r: Option<bool>)
    ensures
        r is Some <==> v@ is Bool,
        r matches Some(b) ==> v@ == JsonValue::Bool(b),
{
    match v {
        Json::Bool(b) => Some(*b),
        _ => None,
    }
}

/// The strings of an array of strings.
pub fn read_string_array(v: &Json) -> (r: Option<Vec<String>>)
    ensures
        r is Some <==> exists|x: Seq<Seq<char>>| str_array(x) == v@,
        r matches Some(items) ==> v@ == str_array(strings_view(items@)),
{
    match v {
        Json::Array(items) => {
            proof {
                lemma_array_view(*items);
            }
            let mut out: Vec<String> = Vec::new();
            let mut i: usize = 0;
            while i < items.len()
                invariant
                    i <= items.len(),
                    out@.len() == i,
                    v@ == JsonValue::Array(items_view(items@)),
                    forall|j: int| 0 <= j < i ==> items@[j]@ == JsonValue::Str(#[trigger] out@[j]@),
                decreases items.len() - i,
            {
                match &items[i] {
                    Json::Str(s) => out.push(s.clone()),
                    _ => {
                        proof {
                            assert forall|x: Seq<Seq<char>>| str_array(x) != v@ by {
                                if str_array(x) == v@ {
                                    assert(0 <= i < items@.len());
                                    assert(items_view(items@)[i as int] == items@[i as int]@);
                                    assert(v@->Array_0 == items_view(items@));
                                    assert(v@->Array_0[i as int] == items@[i as int]@);
                                }
                            }
                        }
                        return None;
                    },
                }
                i += 1;
            }
            assert(v@->Array_0 =~= str_array(strings_view(out@))->Array_0);
            Some(out)
        },
        _ => None,
    }
}

/// An optional string: `null` reads as unset.
pub fn read_optional_string(v: &Json) -> (r: Option<Option<String>>)
    ensures
        r is Some <==> exists|x: Option<Seq<char>>| opt_str(x) == v@,
        r matches Some(o) ==> v@ == opt_str(opt_string_view(o)),
{
    match v {
        Json::Null => Some(None),
        Json::Str(s) => Some(Some(s.clone())),
        _ => None,
    }
}

/// An optional count: `null` reads as unset.
pub fn read_optional_count(v: &Json) -> (r: Option<Option<usize>>)
    ensures
        r is Some <==> exists|x: Option<usize>| opt_count(x) == v@,
        r matches Some(o) ==> v@ == opt_count(o),
{
    match v {
        Json::Null => Some(None),
        Json::PosInt(n) => {
            if *n <= usize::MAX as u64 {
                Some(Some(*n as usize))
            } else {
                None
            }
        },
        Json::NegInt(n) => {
            if 0 <= *n && *n as u64 <= usize::MAX as u64 {
                Some(Some(*n as usize))
            } else {
                None
            }
        },
        _ => None,
    }
}

/// An optional array of strings: `null` reads as unset.
pub fn read_optional_string_array(v: &Json) -> (r: Option<Option<Vec<String>>>)
    ensures
        r is Some <==> exists|x: Option<Seq<Seq<char>>>| opt_str_array(x) == v@,
        r matches Some(o) ==> v@ == opt_str_array(opt_strings_view(o)),
{
    match v {
        Json::Null => Some(None),
        _ => {
            match read_string_array(v) {
                Some(items) => Some(Some(items)),
                None => {
                    assert forall|x: Option<Seq<Seq<char>>>| opt_str_array(x) != v@ by {
                        if let Some(items) = x {
                            assert(str_array(items) != v@);
                        }
                    }
                    None
                },
            }
        },
    }
}

} // verus!
