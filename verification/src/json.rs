//! A plain-value model of JSON documents, and the field accessors that the
//! protocol parsers use.

use vstd::prelude::*;

use crate::text::{chars_of, str_eq};

verus! {

/// A JSON number, classified the way the parsers read it.
#[derive(Debug, Clone, Copy, PartialEq, Eq, Structural)]
pub enum JsonNumber {
    /// A non-negative integer that fits in `u64`.
    PosInt(u64),
    /// A negative integer that fits in `i64`.
    NegInt(i64),
    /// Any other number (fractional, exponent form or out of range).
    Fractional,
}

/// A JSON value. Object members keep their document order.
#[derive(Debug)]
pub enum JsonValue {
    Null,
    Bool(bool),
    Number(JsonNumber),
    Str(String),
    Array(Vec<JsonValue>),
    Object(Vec<(String, JsonValue)>),
}

/// `i` is the first member of `entries` whose key is `k`.
pub open spec fn is_first_key(entries: Seq<(String, JsonValue)>, k: Seq<char>, i: int) -> bool {
    &&& 0 <= i < entries.len()
    &&& entries[i].0@ == k
    &&& forall|j: int| 0 <= j < i ==> entries[j].0@ != k
}

/// Index of the first member named `k`, if any.
pub open spec fn key_index(entries: Seq<(String, JsonValue)>, k: Seq<char>) -> Option<int> {
    if exists|i: int| is_first_key(entries, k, i) {
        Some(choose|i: int| is_first_key(entries, k, i))
    } else {
        None
    }
}

/// `Value::get(key)`: the member named `k` of an object.
pub open spec fn json_get(v: JsonValue, k: Seq<char>) -> Option<JsonValue> {
    match v {
        JsonValue::Object(entries) => match key_index(entries@, k) {
            Some(i) => Some(entries@[i].1),
            None => None,
        },
        _ => None,
    }
}

/// `Value::as_str` on an optional value.
pub open spec fn json_str(v: Option<JsonValue>) -> Option<Seq<char>> {
    match v {
        Some(JsonValue::Str(s)) => Some(s@),
        _ => None,
    }
}

/// `Value::as_u64` on an optional value.
pub open spec fn json_u64(v: Option<JsonValue>) -> Option<u64> {
    match v {
        Some(JsonValue::Number(JsonNumber::PosInt(n))) => Some(n),
        _ => None,
    }
}

/// `Value::as_bool` on an optional value.
pub open spec fn json_bool(v: Option<JsonValue>) -> Option<bool> {
    match v {
        Some(JsonValue::Bool(b)) => Some(b),
        _ => None,
    }
}

/// `Value::as_array` on an optional value.
pub open spec fn json_array(v: Option<JsonValue>) -> Option<Seq<JsonValue>> {
    match v {
        Some(JsonValue::Array(items)) => Some(items@),
        _ => None,
    }
}

/// The view of an optional string.
pub open spec fn ov(o: Option<String>) -> Option<Seq<char>> {
    match o {
        Some(s) => Some(s@),
        None => None,
    }
}

/// Relates an optional reference to the optional value it denotes.
pub open spec fn deref_opt(r: Option<&JsonValue>) -> Option<JsonValue> {
    match r {
        Some(x) => Some(*x),
        None => None,
    }
}

/// The member named `key` of an object value.
pub fn get<'a>(v: &'a JsonValue, key: &str) -> (r: Option<&'a JsonValue>)
    ensures
        deref_opt(r) == json_get(*v, key@),
{
    match v {
        JsonValue::Object(entries) => {
            let mut i: usize = 0;
            while i < entries.len()
                invariant
                    *v == JsonValue::Object(*entries),
                    i <= entries.len(),
                    forall|j: int| 0 <= j < i ==> entries@[j].0@ != key@,
                decreases entries.len() - i,
            {
                if str_eq(entries[i].0.as_str(), key) {
                    assert(is_first_key(entries@, key@, i as int));
                    proof {
                        let c = choose|c: int| is_first_key(entries@, key@, c);
                        assert(is_first_key(entries@, key@, c));
                        if c < i {
                            assert(entries@[c].0@ != key@);
                        } else if c > i {
                            assert(entries@[i as int].0@ == key@);
                        }
                        assert(c == i);
                        assert(key_index(entries@, key@) == Some(i as int));
                        assert(*v == JsonValue::Object(*entries));
                        assert(json_get(*v, key@) == Some(entries@[i as int].1));
                    }
                    let r = &entries[i].1;
                    assert(*r == entries@[i as int].1);
                    return Some(r);
                }
                i += 1;
            }
            assert(!exists|c: int| is_first_key(entries@, key@, c));
            None
        },
        _ => None,
    }
}

/// The member named `key` of an optional object value.
pub fn get_in<'a>(v: Option<&'a JsonValue>, key: &str) -> (r: Option<&'a JsonValue>)
    ensures
        deref_opt(r) == match deref_opt(v) {
            Some(x) => json_get(x, key@),
            None => None,
        },
{
    match v {
        Some(x) => get(x, key),
        None => None,
    }
}

/// `as_str` on an optional value, as an owned string.
pub fn as_str(v: Option<&JsonValue>) -> (r: Option<String>)
    ensures
        ov(r) == json_str(deref_opt(v)),
{
    match v {
        Some(JsonValue::Str(s)) => Some(s.clone()),
        _ => None,
    }
}

/// `as_u64` on an optional value.
pub fn as_u64(v: Option<&JsonValue>) -> (r: Option<u64>)
    ensures
        r == json_u64(deref_opt(v)),
{
    match v {
        Some(JsonValue::Number(JsonNumber::PosInt(n))) => Some(*n),
        _ => None,
    }
}

/// `as_bool` on an optional value.
pub fn as_bool(v: Option<&JsonValue>) -> (r: Option<bool>)
    ensures
        r == json_bool(deref_opt(v)),
{
    match v {
        Some(JsonValue::Bool(b)) => Some(*b),
        _ => None,
    }
}

/// `as_array` on an optional value.
pub fn as_array<'a>(v: Option<&'a JsonValue>) -> (r: Option<&'a Vec<JsonValue>>)
    ensures
        match r {
            Some(items) => json_array(deref_opt(v)) == Some(items@),
            None => json_array(deref_opt(v)).is_none(),
        },
{
    match v {
        Some(JsonValue::Array(items)) => Some(items),
        _ => None,
    }
}

/// The string member `key` of `v`.
pub fn get_str(v: &JsonValue, key: &str) -> (r: Option<String>)
    ensures
        ov(r) == json_str(json_get(*v, key@)),
{
    as_str(get(v, key))
}

/// The unsigned integer member `key` of `v`.
pub fn get_u64(v: &JsonValue, key: &str) -> (r: Option<u64>)
    ensures
        r == json_u64(json_get(*v, key@)),
{
    as_u64(get(v, key))
}

/// Whether the string member `key` of `v` equals `expected`.
pub fn str_field_is(v: &JsonValue, key: &str, expected: &str) -> (b: bool)
    ensures
        b == (json_str(json_get(*v, key@)) == Some(expected@)),
{
    match get(v, key) {
        Some(JsonValue::Str(s)) => str_eq(s.as_str(), expected),
        _ => false,
    }
}

/// Whether an optional string equals `expected`.
pub fn opt_str_is(o: &Option<String>, expected: &str) -> (b: bool)
    ensures
        b == (ov(*o) == Some(expected@)),
{
    match o {
        Some(s) => str_eq(s.as_str(), expected),
        None => false,
    }
}

} // verus!

verus! {

/// Structural equality of two JSON values, member order included.
pub open spec fn same_json(a: JsonValue, b: JsonValue) -> bool
    decreases a,
{
    match a {
        JsonValue::Null => b is Null,
        JsonValue::Bool(x) => b == JsonValue::Bool(x),
        JsonValue::Number(x) => b == JsonValue::Number(x),
        JsonValue::Str(x) => match b {
            JsonValue::Str(y) => x@ == y@,
            _ => false,
        },
        JsonValue::Array(xs) => match b {
            JsonValue::Array(ys) => xs.len() == ys.len() && forall|i: int|
                0 <= i < xs.len() ==> same_json(#[trigger] xs[i], ys[i]),
            _ => false,
        },
        JsonValue::Object(xs) => match b {
            JsonValue::Object(ys) => xs.len() == ys.len() && forall|i: int|
                0 <= i < xs.len() ==> (#[trigger] xs[i]).0@ == ys[i].0@ && same_json(xs[i].1, ys[i].1),
            _ => false,
        },
    }
}

/// A deep copy of a JSON value.
pub fn copy_json(v: &JsonValue) -> (r: JsonValue)
    ensures
        same_json(r, *v),
    decreases v,
{
    match v {
        JsonValue::Null => JsonValue::Null,
        JsonValue::Bool(b) => JsonValue::Bool(*b),
        JsonValue::Number(n) => JsonValue::Number(*n),
        JsonValue::Str(s) => JsonValue::Str(s.clone()),
        JsonValue::Array(items) => {
            let mut out: Vec<JsonValue> = Vec::new();
            let mut i: usize = 0;
            while i < items.len()
                invariant
                    *v == JsonValue::Array(*items),
                    i <= items.len(),
                    out.len() == i,
                    forall|j: int| 0 <= j < i ==> same_json(#[trigger] out[j], items[j]),
                decreases items.len() - i,
            {
                proof {
                    vstd::std_specs::vec::axiom_vec_index_decreases(*items, i as int);
                    assert(decreases_to!(*v => (*v)->Array_0));
                    assert(decreases_to!(*v => items[i as int]));
                }
                let c = copy_json(&items[i]);
                out.push(c);
                i += 1;
            }
            JsonValue::Array(out)
        },
        JsonValue::Object(entries) => {
            let mut out: Vec<(String, JsonValue)> = Vec::new();
            let mut i: usize = 0;
            while i < entries.len()
                invariant
                    *v == JsonValue::Object(*entries),
                    i <= entries.len(),
                    out.len() == i,
                    forall|j: int| 0 <= j < i ==> (#[trigger] out[j]).0@ == entries[j].0@
                        && same_json(out[j].1, entries[j].1),
                decreases entries.len() - i,
            {
                proof {
                    vstd::std_specs::vec::axiom_vec_index_decreases(*entries, i as int);
                    assert(decreases_to!(*v => (*v)->Object_0));
                    assert(decreases_to!(*v => entries[i as int].1));
                }
                let c = copy_json(&entries[i].1);
                out.push((entries[i].0.clone(), c));
                i += 1;
            }
            JsonValue::Object(out)
        },
    }
}

} // verus!

verus! {

/// The member `k` of an optional object value.
pub open spec fn json_in(v: Option<JsonValue>, k: Seq<char>) -> Option<JsonValue> {
    match v {
        Some(x) => json_get(x, k),
        None => None,
    }
}

/// The members of an object value; no members for anything else.
pub open spec fn members(v: JsonValue) -> Seq<(String, JsonValue)> {
    match v {
        JsonValue::Object(es) => es@,
        _ => Seq::empty(),
    }
}

/// `v` after `v[key] = x` (`serde_json`'s index assignment on an object or null):
/// the first member named `key` takes the new value, or the member is appended.
pub open spec fn member_set(v: JsonValue, key: Seq<char>, x: JsonValue, r: JsonValue) -> bool {
    let olds = members(v);
    &&& r is Object
    &&& match key_index(olds, key) {
        Some(i) => {
            &&& members(r).len() == olds.len()
            &&& members(r)[i].0@ == key
            &&& members(r)[i].1 == x
            &&& forall|j: int| 0 <= j < olds.len() && j != i ==> #[trigger] members(r)[j] == olds[j]
        },
        None => {
            &&& members(r).len() == olds.len() + 1
            &&& members(r)[olds.len() as int].0@ == key
            &&& members(r)[olds.len() as int].1 == x
            &&& forall|j: int| 0 <= j < olds.len() ==> #[trigger] members(r)[j] == olds[j]
        },
    }
}

/// `v[key] = x` on an object or on null.
pub fn set_member(v: &mut JsonValue, key: &str, x: JsonValue)
    requires
        *old(v) is Object || *old(v) is Null,
    ensures
        member_set(*old(v), key@, x, *final(v)),
{
    let mut cur = JsonValue::Null;
    std::mem::swap(&mut cur, v);
    let mut entries: Vec<(String, JsonValue)> = match cur {
        JsonValue::Object(es) => es,
        _ => Vec::new(),
    };
    let ghost olds = entries@;
    assert(olds == members(*old(v)));
    let mut i: usize = 0;
    while i < entries.len()
        invariant
            entries@ == olds,
            olds == members(*old(v)),
            i <= entries.len(),
            forall|j: int| 0 <= j < i ==> entries@[j].0@ != key@,
        decreases entries.len() - i,
    {
        if str_eq(entries[i].0.as_str(), key) {
            proof {
                assert(is_first_key(olds, key@, i as int));
                let c = choose|c: int| is_first_key(olds, key@, c);
                if c < i {
                    assert(olds[c].0@ != key@);
                } else if c > i {
                    assert(olds[i as int].0@ == key@);
                }
                assert(key_index(olds, key@) == Some(i as int));
            }
            let k = crate::text::owned(key);
            entries.set(i, (k, x));
            assert(entries@ == olds.update(i as int, (k, x)));
            *v = JsonValue::Object(entries);
            assert(members(*v) == entries@);
            assert(members(*v)[i as int].0@ == key@);
            return;
        }
        i += 1;
    }
    assert(!exists|c: int| is_first_key(olds, key@, c));
    let k = crate::text::owned(key);
    entries.push((k, x));
    *v = JsonValue::Object(entries);
}

proof fn lemma_first_key_exists(entries: Seq<(String, JsonValue)>, k: Seq<char>, j: int)
    requires
        0 <= j < entries.len(),
        entries[j].0@ == k,
    ensures
        exists|i: int| is_first_key(entries, k, i),
    decreases j,
{
    if exists|i: int| 0 <= i < j && entries[i].0@ == k {
        let i = choose|i: int| 0 <= i < j && entries[i].0@ == k;
        lemma_first_key_exists(entries, k, i);
    } else {
        assert(is_first_key(entries, k, j));
    }
}

proof fn lemma_first_key_index(entries: Seq<(String, JsonValue)>, k: Seq<char>, i: int)
    requires
        is_first_key(entries, k, i),
    ensures
        key_index(entries, k) == Some(i),
{
    let c = choose|c: int| is_first_key(entries, k, c);
    assert(is_first_key(entries, k, c));
    if c < i {
        assert(entries[c].0@ != k);
    } else if c > i {
        assert(entries[i].0@ != k);
    }
}

/// Reading a member back after setting it gives the value that was set.
pub proof fn member_set_reads_back(v: JsonValue, key: Seq<char>, x: JsonValue, r: JsonValue)
    requires
        member_set(v, key, x, r),
    ensures
        json_get(r, key) == Some(x),
{
    let olds = members(v);
    let news = members(r);
    match key_index(olds, key) {
        Some(i) => {
            let c = choose|c: int| is_first_key(olds, key, c);
            assert(is_first_key(olds, key, c));
            assert(c == i);
            assert forall|j: int| 0 <= j < i implies news[j].0@ != key by {
                assert(news[j] == olds[j]);
            }
            assert(is_first_key(news, key, i));
            lemma_first_key_index(news, key, i);
        },
        None => {
            assert forall|j: int| 0 <= j < olds.len() implies olds[j].0@ != key by {
                if olds[j].0@ == key {
                    lemma_first_key_exists(olds, key, j);
                }
            }
            let n = olds.len() as int;
            assert forall|j: int| 0 <= j < n implies news[j].0@ != key by {
                assert(news[j] == olds[j]);
            }
            assert(is_first_key(news, key, n));
            lemma_first_key_index(news, key, n);
        },
    }
}

} // verus!
