//! Preparing exported task documents: control characters are removed from
//! the response parts.

use vstd::prelude::*;

use crate::json::JsonValue;
use crate::text::{sanitize_seq, sanitize_text, str_eq};

verus! {

/// `r` is `v` with every string sanitised, keys and structure kept.
pub open spec fn json_sanitized(r: JsonValue, v: JsonValue) -> bool
    decreases v,
{
    match v {
        JsonValue::Str(s) => match r {
            JsonValue::Str(t) => t@ == sanitize_seq(s@),
            _ => false,
        },
        JsonValue::Array(ys) => match r {
            JsonValue::Array(xs) => xs.len() == ys.len() && forall|i: int|
                0 <= i < ys.len() ==> json_sanitized(#[trigger] xs[i], ys[i]),
            _ => false,
        },
        JsonValue::Object(ys) => match r {
            JsonValue::Object(xs) => xs.len() == ys.len() && forall|i: int|
                0 <= i < ys.len() ==> (#[trigger] xs[i]).0@ == ys[i].0@ && json_sanitized(xs[i].1, ys[i].1),
            _ => false,
        },
        JsonValue::Null => r is Null,
        JsonValue::Bool(b) => r == JsonValue::Bool(b),
        JsonValue::Number(n) => r == JsonValue::Number(n),
    }
}

fn sanitized_copy(v: &JsonValue) -> (r: JsonValue)
    ensures
        json_sanitized(r, *v),
    decreases v,
{
    match v {
        JsonValue::Null => JsonValue::Null,
        JsonValue::Bool(b) => JsonValue::Bool(*b),
        JsonValue::Number(n) => JsonValue::Number(*n),
        JsonValue::Str(s) => JsonValue::Str(sanitize_text(s.as_str())),
        JsonValue::Array(items) => {
            let mut out: Vec<JsonValue> = Vec::new();
            let mut i: usize = 0;
            while i < items.len()
                invariant
                    *v == JsonValue::Array(*items),
                    i <= items.len(),
                    out.len() == i,
                    forall|j: int| 0 <= j < i ==> json_sanitized(#[trigger] out[j], items[j]),
                decreases items.len() - i,
            {
                proof {
                    vstd::std_specs::vec::axiom_vec_index_decreases(*items, i as int);
                    assert(decreases_to!(*v => (*v)->Array_0));
                    assert(decreases_to!(*v => items[i as int]));
                }
                let c = sanitized_copy(&items[i]);
                out.push(c);
                i += 1;
            }
            JsonValue::Array(out)
        },
        JsonValue::Object(entries) => {
            let mut out: Vec<(String, JsonValue)> = Vec::new();
            let mut i: usize = 0;
            while i < entries.len()
                invariant
                    *v == JsonValue::Object(*entries),
                    i <= entries.len(),
                    out.len() == i,
                    forall|j: int| 0 <= j < i ==> (#[trigger] out[j]).0@ == entries[j].0@
                        && json_sanitized(out[j].1, entries[j].1),
                decreases entries.len() - i,
            {
                proof {
                    vstd::std_specs::vec::axiom_vec_index_decreases(*entries, i as int);
                    assert(decreases_to!(*v => (*v)->Object_0));
                    assert(decreases_to!(*v => entries[i as int].1));
                }
                let c = sanitized_copy(&entries[i].1);
                out.push((entries[i].0.clone(), c));
                i += 1;
            }
            JsonValue::Object(out)
        },
    }
}

/// Removes control characters other than `\n`, `\r` and `\t` from every
/// string in a JSON value.
pub fn sanitize_json_control_chars(value: &mut JsonValue)
    ensures
        json_sanitized(*final(value), *old(value)),
{
    let cur = sanitized_copy(value);
    *value = cur;
}

/// The response parts of an exported task.
pub open spec fn is_response_key(k: Seq<char>) -> bool {
    k == "response_body"@ || k == "normalized_response"@ || k == "sse_events"@ || k == "content_text"@
}

/// Member `j` is the first member of its name, and that name is a response part.
pub open spec fn first_response_member(es: Seq<(String, JsonValue)>, j: int) -> bool {
    &&& is_response_key(es[j].0@)
    &&& forall|i: int| 0 <= i < j ==> es[i].0@ != es[j].0@
}

fn is_response_name(k: &str) -> (b: bool)
    ensures
        b == is_response_key(k@),
{
    str_eq(k, "response_body") || str_eq(k, "normalized_response") || str_eq(k, "sse_events") || str_eq(
        k,
        "content_text",
    )
}

/// Sanitises the response parts of an exported task document: the members
/// `response_body`, `normalized_response`, `sse_events` and `content_text` (the
/// first of each name); everything else is kept.
pub fn sanitize_task_response(task: &mut JsonValue)
    ensures
        match *old(task) {
            JsonValue::Object(ys) => match *final(task) {
                JsonValue::Object(xs) => xs@.len() == ys@.len() && forall|j: int|
                    0 <= j < ys@.len() ==> {
                        &&& (#[trigger] xs@[j]).0@ == ys@[j].0@
                        &&& if first_response_member(ys@, j) {
                            json_sanitized(xs@[j].1, ys@[j].1)
                        } else {
                            xs@[j] == ys@[j]
                        }
                    },
                _ => false,
            },
            _ => *final(task) == *old(task),
        },
{
    let mut cur = JsonValue::Null;
    std::mem::swap(&mut cur, task);
    match cur {
        JsonValue::Object(mut entries) => {
            let ghost ys = entries@;
            let mut j: usize = 0;
            while j < entries.len()
                invariant
                    j <= entries@.len(),
                    entries@.len() == ys.len(),
                    forall|k: int| 0 <= k < ys.len() ==> (#[trigger] entries@[k]).0@ == ys[k].0@,
                    forall|k: int|
                        0 <= k < ys.len() ==> if k < j && first_response_member(ys, k) {
                            json_sanitized((#[trigger] entries@[k]).1, ys[k].1)
                        } else {
                            entries@[k] == ys[k]
                        },
                decreases entries@.len() - j,
            {
                let mut first = is_response_name(entries[j].0.as_str());
                let mut i: usize = 0;
                while i < j && first
                    invariant
                        i <= j < entries@.len(),
                        entries@.len() == ys.len(),
                        forall|k: int| 0 <= k < ys.len() ==> (#[trigger] entries@[k]).0@ == ys[k].0@,
                        first ==> is_response_key(ys[j as int].0@) && forall|k: int|
                            0 <= k < i ==> ys[k].0@ != ys[j as int].0@,
                        !first ==> !first_response_member(ys, j as int),
                    decreases j - i,
                {
                    if str_eq(entries[i].0.as_str(), entries[j].0.as_str()) {
                        first = false;
                    }
                    i += 1;
                }
                if first {
                    let name = entries[j].0.clone();
                    let value = sanitized_copy(&entries[j].1);
                    entries.set(j, (name, value));
                }
                j += 1;
            }
            *task = JsonValue::Object(entries);
        },
        other => {
            *task = other;
        },
    }
}

} // verus!
