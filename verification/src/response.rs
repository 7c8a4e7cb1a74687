//! Normalising an accumulated Anthropic-style response into text, reasoning,
//! tool calls and tool results.

use vstd::prelude::*;

use crate::json::{as_array, as_str, get, json_array, json_get, json_str, same_json, JsonValue};
use crate::relay::upstream::{
    copy_or_null, or_null, string_field, string_member, sv, NormalizedResponse, ToolCallRecord,
    ToolResultRecord, ToolView,
};
use crate::text::{sanitize_seq, sanitize_text, str_eq, str_is_empty};

verus! {

/// The compact JSON text of the parts of a response that are kept as text when
/// their shape is not known: the whole value, each content block, and each
/// block's `content` member (empty where a block has none).
#[derive(Debug)]
pub struct JsonTexts {
    pub whole: String,
    pub blocks: Vec<String>,
    pub contents: Vec<String>,
}

/// A tool result as plain values: the call it answers and its content.
pub type ResultView = (Seq<char>, Seq<char>);

/// A normalised response as plain values: text, reasoning, tool calls, tool results.
pub type ResponseView = (Seq<Seq<char>>, Seq<Seq<char>>, Seq<ToolView>, Seq<ResultView>);

/// The content blocks of a response: its `content` array, or the value itself
/// when that is an array.
pub open spec fn response_blocks(raw: JsonValue) -> Option<Seq<JsonValue>> {
    match json_array(json_get(raw, "content"@)) {
        Some(a) => Some(a),
        None => json_array(Some(raw)),
    }
}

/// The content of a tool result block: its `content` string, or the JSON text
/// of any other `content` value, sanitised; empty when there is none.
pub open spec fn result_content(block: JsonValue, content_text: Seq<char>) -> Seq<char> {
    match json_get(block, "content"@) {
        None => Seq::empty(),
        Some(JsonValue::Str(s)) => sanitize_seq(s@),
        Some(_) => sanitize_seq(content_text),
    }
}

/// Adds one content block to a normalised response.
pub open spec fn response_step(
    acc: ResponseView,
    block: JsonValue,
    block_text: Seq<char>,
    content_text: Seq<char>,
) -> ResponseView {
    let t = string_member(block, "type"@);
    if t == "thinking"@ {
        match json_str(json_get(block, "thinking"@)) {
            Some(x) => (acc.0, acc.1.push(sanitize_seq(x)), acc.2, acc.3),
            None => acc,
        }
    } else if t == "text"@ || t == "text_delta"@ {
        match json_str(json_get(block, "text"@)) {
            Some(x) => (acc.0.push(sanitize_seq(x)), acc.1, acc.2, acc.3),
            None => acc,
        }
    } else if t == "tool_use"@ {
        (
            acc.0,
            acc.1,
            acc.2.push(
                (string_member(block, "id"@), string_member(block, "name"@), or_null(json_get(block, "input"@))),
            ),
            acc.3,
        )
    } else if t == "tool_result"@ {
        (
            acc.0,
            acc.1,
            acc.2,
            acc.3.push((string_member(block, "tool_use_id"@), result_content(block, content_text))),
        )
    } else {
        let s = sanitize_seq(block_text);
        if s.len() > 0 {
            (acc.0.push(s), acc.1, acc.2, acc.3)
        } else {
            acc
        }
    }
}

/// The first `n` blocks, normalised.
pub open spec fn response_fold(
    blocks: Seq<JsonValue>,
    block_texts: Seq<Seq<char>>,
    content_texts: Seq<Seq<char>>,
    n: nat,
) -> ResponseView
    decreases n,
{
    if n == 0 {
        (Seq::empty(), Seq::empty(), Seq::empty(), Seq::empty())
    } else {
        response_step(
            response_fold(blocks, block_texts, content_texts, (n - 1) as nat),
            blocks[n - 1],
            block_texts[n - 1],
            content_texts[n - 1],
        )
    }
}

/// The normalised form of a response: its blocks one by one, or, where it has
/// none, its whole JSON text as one text part unless that is empty or `null`.
pub open spec fn spec_normalize_response(
    raw: JsonValue,
    whole: Seq<char>,
    block_texts: Seq<Seq<char>>,
    content_texts: Seq<Seq<char>>,
) -> ResponseView {
    match response_blocks(raw) {
        Some(bs) => response_fold(bs, block_texts, content_texts, bs.len()),
        None => {
            let s = sanitize_seq(whole);
            if s.len() > 0 && s != "null"@ {
                (seq![s], Seq::empty(), Seq::empty(), Seq::empty())
            } else {
                (Seq::empty(), Seq::empty(), Seq::empty(), Seq::empty())
            }
        },
    }
}

/// `r` holds the values of `v`; tool inputs are compared structurally.
pub open spec fn response_is(r: NormalizedResponse, v: ResponseView) -> bool {
    &&& sv(r.text@) == v.0
    &&& sv(r.thinking@) == v.1
    &&& r.tool_calls@.len() == v.2.len()
    &&& forall|i: int|
        0 <= i < v.2.len() ==> {
            &&& (#[trigger] r.tool_calls@[i]).id@ == v.2[i].0
            &&& r.tool_calls@[i].name@ == v.2[i].1
            &&& same_json(r.tool_calls@[i].input, v.2[i].2)
        }
    &&& r.tool_results@.len() == v.3.len()
    &&& forall|i: int|
        0 <= i < v.3.len() ==> {
            &&& (#[trigger] r.tool_results@[i]).tool_use_id@ == v.3[i].0
            &&& r.tool_results@[i].content@ == v.3[i].1
        }
}

/// The texts cover every block of the response.
pub open spec fn texts_cover(raw: JsonValue, texts: JsonTexts) -> bool {
    match response_blocks(raw) {
        Some(bs) => texts.blocks@.len() == bs.len() && texts.contents@.len() == bs.len(),
        None => true,
    }
}

fn tool_result_content(block: &JsonValue, content_text: &String) -> (r: String)
    ensures
        r@ == result_content(*block, content_text@),
{
    match get(block, "content") {
        None => String::new(),
        Some(JsonValue::Str(s)) => sanitize_text(s.as_str()),
        Some(_) => sanitize_text(content_text.as_str()),
    }
}

/// Normalises a raw accumulated response into text, reasoning, tool calls and
/// tool results. Thinking and text blocks keep their sanitised text, tool use
/// and tool result blocks become records, and a block of any other kind is
/// kept as its sanitised JSON text when that is not empty. A value with no
/// content blocks becomes its sanitised JSON text, unless that is empty or `null`.
pub fn normalize_response(raw: &JsonValue, texts: &JsonTexts) -> (r: NormalizedResponse)
    requires
        texts_cover(*raw, *texts),
    ensures
        response_is(r, spec_normalize_response(*raw, texts.whole@, sv(texts.blocks@), sv(texts.contents@))),
{
    let mut r = NormalizedResponse::new();
    let ghost bt = sv(texts.blocks@);
    let ghost ct = sv(texts.contents@);
    assert(sv(r.text@) =~= Seq::<Seq<char>>::empty());
    assert(sv(r.thinking@) =~= Seq::<Seq<char>>::empty());
    let blocks: &Vec<JsonValue> = match as_array(get(raw, "content")) {
        Some(b) => b,
        None => match raw {
            JsonValue::Array(v) => v,
            _ => {
                let text = sanitize_text(texts.whole.as_str());
                if !str_is_empty(text.as_str()) && !str_eq(text.as_str(), "null") {
                    r.text.push(text);
                    assert(sv(r.text@) =~= seq![sanitize_seq(texts.whole@)]);
                }
                return r;
            },
        },
    };
    assert(response_blocks(*raw) == Some(blocks@));
    let mut i: usize = 0;
    while i < blocks.len()
        invariant
            i <= blocks@.len(),
            texts.blocks@.len() == blocks@.len(),
            texts.contents@.len() == blocks@.len(),
            bt == sv(texts.blocks@),
            ct == sv(texts.contents@),
            response_is(r, response_fold(blocks@, bt, ct, i as nat)),
        decreases blocks@.len() - i,
    {
        let block = &blocks[i];
        let ghost acc = response_fold(blocks@, bt, ct, i as nat);
        let ghost old_r = r;
        proof {
            assert(bt[i as int] == texts.blocks@[i as int]@);
            assert(ct[i as int] == texts.contents@[i as int]@);
        }
        let t = string_field(block, "type");
        if str_eq(t.as_str(), "thinking") {
            match as_str(get(block, "thinking")) {
                Some(x) => {
                    r.thinking.push(sanitize_text(x.as_str()));
                    assert(sv(r.thinking@) =~= sv(old_r.thinking@).push(sanitize_seq(x@)));
                },
                None => {},
            }
        } else if str_eq(t.as_str(), "text") || str_eq(t.as_str(), "text_delta") {
            match as_str(get(block, "text")) {
                Some(x) => {
                    r.text.push(sanitize_text(x.as_str()));
                    assert(sv(r.text@) =~= sv(old_r.text@).push(sanitize_seq(x@)));
                },
                None => {},
            }
        } else if str_eq(t.as_str(), "tool_use") {
            let rec = ToolCallRecord {
                id: string_field(block, "id"),
                name: string_field(block, "name"),
                input: copy_or_null(get(block, "input")),
            };
            r.tool_calls.push(rec);
            proof {
                assert forall|k: int| 0 <= k < old_r.tool_calls@.len() implies r.tool_calls@[k]
                    == old_r.tool_calls@[k] by {}
            }
        } else if str_eq(t.as_str(), "tool_result") {
            let rec = ToolResultRecord {
                tool_use_id: string_field(block, "tool_use_id"),
                content: tool_result_content(block, &texts.contents[i]),
            };
            r.tool_results.push(rec);
            proof {
                assert forall|k: int| 0 <= k < old_r.tool_results@.len() implies r.tool_results@[k]
                    == old_r.tool_results@[k] by {}
            }
        } else {
            let text = sanitize_text(texts.blocks[i].as_str());
            if !str_is_empty(text.as_str()) {
                r.text.push(text);
                assert(sv(r.text@) =~= sv(old_r.text@).push(sanitize_seq(bt[i as int])));
            }
        }
        proof {
            assert(response_fold(blocks@, bt, ct, (i + 1) as nat) == response_step(
                acc,
                blocks@[i as int],
                bt[i as int],
                ct[i as int],
            ));
        }
        i += 1;
    }
    r
}

} // verus!
