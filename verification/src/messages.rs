//! Reading user messages of a conversation: tool results, real prompts and
//! their text.

use vstd::prelude::*;

use crate::config::validation::{join_seq, join_strings};
use crate::json::{as_array, as_str, get, json_array, json_get, json_str, JsonValue};
use crate::text::{
    owned, seq_starts_with, str_eq, str_is_empty, str_starts_with, trim_seq, trim_start_seq,
    trim_start_str, trim_str, views,
};

verus! {

/// The first of three members that is present.
pub open spec fn first_of3(a: Option<JsonValue>, b: Option<JsonValue>, c: Option<JsonValue>) -> Option<
    JsonValue,
> {
    if a is Some {
        a
    } else if b is Some {
        b
    } else {
        c
    }
}

/// The text of a content block: its `text`, `input_text` or `output_text`
/// (the first present), when that is a string.
pub open spec fn spec_block_text(b: JsonValue) -> Option<Seq<char>> {
    json_str(
        first_of3(
            json_get(b, "text"@),
            json_get(b, "input_text"@),
            json_get(b, "output_text"@),
        ),
    )
}

/// Reads the text of a content block.
pub fn block_text(block: &JsonValue) -> (r: Option<String>)
    ensures
        crate::json::ov(r) == spec_block_text(*block),
{
    let v = if get(block, "text").is_some() {
        get(block, "text")
    } else if get(block, "input_text").is_some() {
        get(block, "input_text")
    } else {
        get(block, "output_text")
    };
    as_str(v)
}

/// The type of a content block.
pub open spec fn block_type(b: JsonValue) -> Option<Seq<char>> {
    json_str(json_get(b, "type"@))
}

/// Whether some content block of a message has type `ty`.
pub open spec fn has_block_type(msg: JsonValue, ty: Seq<char>) -> bool {
    match json_array(json_get(msg, "content"@)) {
        Some(bs) => exists|i: int| 0 <= i < bs.len() && block_type(#[trigger] bs[i]) == Some(ty),
        None => false,
    }
}

/// Whether some content block of a message has type `ty`.
pub fn has_block_of_type(msg: &JsonValue, ty: &str) -> (b: bool)
    ensures
        b == has_block_type(*msg, ty@),
{
    match as_array(get(msg, "content")) {
        Some(blocks) => {
            let mut i: usize = 0;
            while i < blocks.len()
                invariant
                    i <= blocks@.len(),
                    json_array(json_get(*msg, "content"@)) == Some(blocks@),
                    forall|j: int| 0 <= j < i ==> block_type(#[trigger] blocks@[j]) != Some(ty@),
                decreases blocks@.len() - i,
            {
                match as_str(get(&blocks[i], "type")) {
                    Some(t) => {
                        if str_eq(t.as_str(), ty) {
                            assert(block_type(blocks@[i as int]) == Some(ty@));
                            return true;
                        }
                    },
                    None => {},
                }
                i += 1;
            }
            false
        },
        None => false,
    }
}

/// Whether a message's content holds a `tool_result` block.
pub fn is_tool_result(msg: &JsonValue) -> (b: bool)
    ensures
        b == has_block_type(*msg, "tool_result"@),
{
    has_block_of_type(msg, "tool_result")
}

/// Text that is not a system reminder.
pub open spec fn not_reminder(t: Seq<char>) -> bool {
    !seq_starts_with(trim_start_seq(t), "<system-reminder>"@)
}

fn is_reminder(t: &str) -> (b: bool)
    ensures
        b == !not_reminder(t@),
{
    let s = trim_start_str(t);
    str_starts_with(s.as_str(), "<system-reminder>")
}

/// A block of type `text` or `input_text`.
pub open spec fn is_text_block(b: JsonValue) -> bool {
    block_type(b) == Some("text"@) || block_type(b) == Some("input_text"@)
}

fn is_text_block_exec(b: &JsonValue) -> (r: bool)
    ensures
        r == is_text_block(*b),
{
    match as_str(get(b, "type")) {
        Some(t) => str_eq(t.as_str(), "text") || str_eq(t.as_str(), "input_text"),
        None => false,
    }
}

/// The texts of the blocks that are not system reminders, in order; with
/// `typed`, only of text blocks.
pub open spec fn user_texts(bs: Seq<JsonValue>, typed: bool) -> Seq<Seq<char>>
    decreases bs.len(),
{
    if bs.len() == 0 {
        Seq::empty()
    } else {
        let prev = user_texts(bs.drop_last(), typed);
        let b = bs.last();
        if (!typed || is_text_block(b)) && spec_block_text(b) is Some && not_reminder(
            spec_block_text(b)->0,
        ) {
            prev.push(spec_block_text(b)->0)
        } else {
            prev
        }
    }
}

fn collect_user_texts(blocks: &Vec<JsonValue>, typed: bool) -> (r: Vec<String>)
    ensures
        views(r@) == user_texts(blocks@, typed),
{
    let mut out: Vec<String> = Vec::new();
    let mut i: usize = 0;
    while i < blocks.len()
        invariant
            i <= blocks@.len(),
            views(out@) == user_texts(blocks@.take(i as int), typed),
        decreases blocks@.len() - i,
    {
        assert(blocks@.take(i + 1).drop_last() =~= blocks@.take(i as int));
        assert(blocks@.take(i + 1).last() == blocks@[i as int]);
        let b = &blocks[i];
        if !typed || is_text_block_exec(b) {
            match block_text(b) {
                Some(t) => {
                    if !is_reminder(t.as_str()) {
                        out.push(t);
                        assert(views(out@) =~= user_texts(blocks@.take(i + 1), typed));
                    }
                },
                None => {},
            }
        }
        i += 1;
    }
    assert(blocks@.take(i as int) =~= blocks@);
    out
}

/// The user text of a message: its text blocks that are not system reminders,
/// joined by newlines; or its content string unless that is a system reminder.
pub open spec fn spec_user_text(msg: JsonValue) -> Seq<char> {
    match json_get(msg, "content"@) {
        Some(JsonValue::Array(bs)) => join_seq(user_texts(bs@, true), "\n"@),
        Some(JsonValue::Str(s)) => if not_reminder(s@) {
            s@
        } else {
            Seq::empty()
        },
        _ => Seq::empty(),
    }
}

/// Extracts the joined user text of a message, skipping system reminders.
pub fn extract_user_text(msg: &JsonValue) -> (r: String)
    ensures
        r@ == spec_user_text(*msg),
{
    match get(msg, "content") {
        Some(JsonValue::Array(blocks)) => {
            let texts = collect_user_texts(blocks, true);
            join_strings(&texts, "\n")
        },
        Some(JsonValue::Str(s)) => if is_reminder(s.as_str()) {
            String::new()
        } else {
            s.clone()
        },
        _ => String::new(),
    }
}

/// Whether a user message is a real prompt: a non-empty string that is not a
/// system reminder, or content made only of text blocks, none a tool result,
/// whose non-reminder text is not blank.
pub open spec fn spec_is_real_user_prompt(msg: JsonValue) -> bool {
    match json_array(json_get(msg, "content"@)) {
        None => {
            let s = match json_str(json_get(msg, "content"@)) {
                Some(s) => s,
                None => Seq::empty(),
            };
            not_reminder(s) && s.len() > 0
        },
        Some(bs) => {
            &&& forall|i: int| 0 <= i < bs.len() ==> is_text_block(#[trigger] bs[i])
            &&& !has_block_type(msg, "tool_result"@)
            &&& trim_seq(join_seq(user_texts(bs, false), "\n"@)).len() > 0
        },
    }
}

/// Whether a user message is a real prompt (not a tool result, a system
/// reminder or blank injected text).
pub fn is_real_user_prompt(msg: &JsonValue) -> (b: bool)
    ensures
        b == spec_is_real_user_prompt(*msg),
{
    let blocks = match as_array(get(msg, "content")) {
        Some(c) => c,
        None => {
            let s = match as_str(get(msg, "content")) {
                Some(s) => s,
                None => String::new(),
            };
            return !is_reminder(s.as_str()) && !str_is_empty(s.as_str());
        },
    };
    let mut i: usize = 0;
    while i < blocks.len()
        invariant
            i <= blocks@.len(),
            json_array(json_get(*msg, "content"@)) == Some(blocks@),
            forall|j: int| 0 <= j < i ==> is_text_block(#[trigger] blocks@[j]),
        decreases blocks@.len() - i,
    {
        if !is_text_block_exec(&blocks[i]) {
            assert(!is_text_block(blocks@[i as int]));
            return false;
        }
        i += 1;
    }
    if is_tool_result(msg) {
        return false;
    }
    let texts = collect_user_texts(blocks, false);
    let joined = join_strings(&texts, "\n");
    let t = trim_str(joined.as_str());
    !str_is_empty(t.as_str())
}

} // verus!
