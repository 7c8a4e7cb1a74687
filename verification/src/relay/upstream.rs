//! Upstream request preparation and response inspection: protocol detection,
//! header rewriting, session ids, usage extraction and response normalisation.

use vstd::prelude::*;
use vstd::string::StringSliceAdditionalSpecFns;

use super::sse::SseEvent;
use crate::json::{
    as_array, as_str, as_u64, copy_json, get, get_in, json_array, json_get, json_in, json_str,
    json_u64, members, member_set, ov, same_json, set_member, JsonValue,
};
use crate::text::{
    before_char, chars_of, find_cut, owned, seq_contains, seq_starts_with, str_contains, str_eq,
    str_is_empty, string_of, strip_prefix, sub_vec,
};

verus! {

/// API payload family used for session tracking and response inspection.
#[derive(Debug, Clone, Copy, PartialEq, Eq, Structural)]
pub enum ApiProtocol {
    Anthropic,
    Codex,
}

/// The name under which a protocol is recorded.
pub open spec fn protocol_name(p: ApiProtocol) -> Seq<char> {
    match p {
        ApiProtocol::Anthropic => "anthropic"@,
        ApiProtocol::Codex => "codex"@,
    }
}

impl ApiProtocol {
    /// The request type recorded for this protocol.
    pub fn request_type(self) -> (r: &'static str)
        ensures
            r@ == protocol_name(self),
    {
        match self {
            ApiProtocol::Anthropic => "anthropic",
            ApiProtocol::Codex => "codex",
        }
    }
}

/// A URL without its `https://` or `http://` scheme.
pub open spec fn strip_scheme(u: Seq<char>) -> Seq<char> {
    if seq_starts_with(u, "https://"@) {
        u.skip("https://"@.len() as int)
    } else if seq_starts_with(u, "http://"@) {
        u.skip("http://"@.len() as int)
    } else {
        u
    }
}

/// The host part of a provider URL: what follows the scheme, up to the first `/`.
pub open spec fn host_of(u: Seq<char>) -> Seq<char> {
    before_char(strip_scheme(u), '/')
}

/// Extracts the host name of a provider URL, for logging. There is always one.
pub fn extract_host(url: &str) -> (r: Option<String>)
    ensures
        r matches Some(h) && h@ == host_of(url@),
{
    let rest: String = match strip_prefix(url, "https://") {
        Some(t) => t,
        None => match strip_prefix(url, "http://") {
            Some(t) => t,
            None => owned(url),
        },
    };
    let v = chars_of(rest.as_str());
    let k = find_cut(&v, '/');
    let host = sub_vec(&v, 0, k);
    assert(host@ =~= before_char(rest@, '/'));
    Some(string_of(&host))
}

/// Which protocol a request speaks: the Responses API by its path, or by a body
/// that has `input` and no `messages`.
pub open spec fn spec_detect_protocol(path: Seq<char>, body: JsonValue) -> ApiProtocol {
    if seq_contains(path, "/responses"@) || (json_get(body, "input"@) is Some && json_get(
        body,
        "messages"@,
    ) is None) {
        ApiProtocol::Codex
    } else {
        ApiProtocol::Anthropic
    }
}

/// Detects the protocol of a request from its path and body.
pub fn detect_protocol(path: &str, body: &JsonValue) -> (r: ApiProtocol)
    ensures
        r == spec_detect_protocol(path@, *body),
{
    if str_contains(path, "/responses") || (get(body, "input").is_some() && get(
        body,
        "messages",
    ).is_none()) {
        ApiProtocol::Codex
    } else {
        ApiProtocol::Anthropic
    }
}

/// The body member that holds the conversation for a protocol.
pub open spec fn conversation_field(p: ApiProtocol) -> Seq<char> {
    match p {
        ApiProtocol::Anthropic => "messages"@,
        ApiProtocol::Codex => "input"@,
    }
}

/// The number of conversation items: the array's length (as `u32`), or 1 for a
/// present non-array value, or 0.
pub open spec fn spec_message_count(p: ApiProtocol, body: JsonValue) -> u32 {
    let f = json_get(body, conversation_field(p));
    match json_array(f) {
        Some(items) => items.len() as u32,
        None => if f is Some {
            1
        } else {
            0
        },
    }
}

/// Counts the conversation items of a request.
pub fn message_count(protocol: ApiProtocol, body: &JsonValue) -> (r: u32)
    ensures
        r == spec_message_count(protocol, *body),
{
    let field = match protocol {
        ApiProtocol::Anthropic => "messages",
        ApiProtocol::Codex => "input",
    };
    let f = get(body, field);
    match as_array(f) {
        Some(items) => {
            #[verifier::truncate]
            let n = items.len() as u32;
            n
        },
        None => if f.is_some() {
            1
        } else {
            0
        },
    }
}

/// A token count read from JSON, truncated to `u32`; 0 when absent.
pub open spec fn tokens(v: Option<u64>) -> u32 {
    match v {
        Some(n) => n as u32,
        None => 0,
    }
}

/// `(input, output, cached)` token counts of a response's `usage` member.
pub open spec fn spec_usage(body: JsonValue) -> (u32, u32, u32) {
    let usage = json_get(body, "usage"@);
    (
        tokens(json_u64(json_in(usage, "input_tokens"@))),
        tokens(json_u64(json_in(usage, "output_tokens"@))),
        tokens(
            json_u64(json_in(json_in(usage, "input_tokens_details"@), "cached_tokens"@)),
        ),
    )
}

fn tokens_of(v: Option<u64>) -> (r: u32)
    ensures
        r == tokens(v),
{
    match v {
        Some(n) => {
            #[verifier::truncate]
            let t = n as u32;
            t
        },
        None => 0,
    }
}

/// Reads the input, output and cached-input token counts of a response body.
pub fn usage_from_json(body: &JsonValue) -> (r: (u32, u32, u32))
    ensures
        r == spec_usage(*body),
{
    let usage = get(body, "usage");
    let input = tokens_of(as_u64(get_in(usage, "input_tokens")));
    let output = tokens_of(as_u64(get_in(usage, "output_tokens")));
    let cached = tokens_of(as_u64(get_in(get_in(usage, "input_tokens_details"), "cached_tokens")));
    (input, output, cached)
}

/// An effort level that asks for injection: neither empty nor `auto`.
pub open spec fn effort_active(e: Seq<char>) -> bool {
    e.len() > 0 && e != "auto"@
}

/// Whether an effort level asks for injection.
pub fn is_effort_active(effort: &str) -> (b: bool)
    ensures
        b == effort_active(effort@),
{
    !str_is_empty(effort) && !str_eq(effort, "auto")
}

/// `x` is the document `{"effort": effort}`.
pub open spec fn is_effort_doc(x: JsonValue, effort: Seq<char>) -> bool {
    &&& members(x).len() == 1
    &&& x is Object
    &&& members(x)[0].0@ == "effort"@
    &&& json_str(Some(members(x)[0].1)) == Some(effort)
}

/// Sets `output_config` to `{"effort": effort}` unless the effort is empty or `auto`.
pub fn inject_effort(body_json: &mut JsonValue, effort: &str)
    requires
        effort_active(effort@) ==> (*old(body_json) is Object || *old(body_json) is Null),
    ensures
        !effort_active(effort@) ==> *final(body_json) == *old(body_json),
        effort_active(effort@) ==> exists|x: JsonValue|
            is_effort_doc(x, effort@) && #[trigger] member_set(
                *old(body_json),
                "output_config"@,
                x,
                *final(body_json),
            ),
{
    if !is_effort_active(effort) {
        return;
    }
    let mut doc: Vec<(String, JsonValue)> = Vec::new();
    doc.push((owned("effort"), JsonValue::Str(owned(effort))));
    let x = JsonValue::Object(doc);
    assert(is_effort_doc(x, effort@));
    let ghost gx = x;
    set_member(body_json, "output_config", x);
    assert(member_set(*old(body_json), "output_config"@, gx, *body_json));
}

/// Adds the effort beta header unless the effort is empty or `auto`.
pub fn append_effort_beta_header(headers: &mut Vec<(&str, String)>, effort: &str)
    ensures
        !effort_active(effort@) ==> final(headers)@ == old(headers)@,
        effort_active(effort@) ==> final(headers)@.len() == old(headers)@.len() + 1
            && final(headers)@.take(old(headers)@.len() as int) == old(headers)@
            && final(headers)@.last().0@ == "anthropic-beta"@
            && final(headers)@.last().1@ == "effort-2025-11-24"@,
{
    if !is_effort_active(effort) {
        return;
    }
    headers.push(("anthropic-beta", owned("effort-2025-11-24")));
    assert(headers@.take(old(headers)@.len() as int) =~= old(headers)@);
}

// ── Headers ──

/// One HTTP header: its name and its raw value bytes.
#[derive(Debug, Clone)]
pub struct HeaderField {
    pub name: String,
    pub value: Vec<u8>,
}

/// A header as plain values.
pub open spec fn hv(h: HeaderField) -> (Seq<char>, Seq<u8>) {
    (h.name@, h.value@)
}

/// A header list as plain values.
pub open spec fn hviews(hs: Seq<HeaderField>) -> Seq<(Seq<char>, Seq<u8>)> {
    hs.map_values(|h: HeaderField| hv(h))
}

/// A list of text pairs as plain values.
pub open spec fn pair_views(ps: Seq<(String, String)>) -> Seq<(Seq<char>, Seq<char>)> {
    ps.map_values(|p: (String, String)| (p.0@, p.1@))
}

/// A byte that a header value may show as text (`HeaderValue::to_str`).
pub open spec fn visible_ascii(b: u8) -> bool {
    (32 <= b && b < 127) || b == 9
}

/// A byte that a header value may hold at all (`HeaderValue::from_str`).
pub open spec fn valid_value_byte(b: u8) -> bool {
    (32 <= b && b != 127) || b == 9
}

/// The text of a header value, when every byte is visible ASCII.
pub open spec fn header_text(v: Seq<u8>) -> Option<Seq<char>> {
    if forall|i: int| 0 <= i < v.len() ==> visible_ascii(#[trigger] v[i]) {
        Some(v.map_values(|b: u8| b as char))
    } else {
        None
    }
}

/// The text of a header value, when every byte is visible ASCII.
pub fn header_value_text(v: &Vec<u8>) -> (r: Option<String>)
    ensures
        ov(r) == header_text(v@),
{
    let mut out = String::new();
    let mut i: usize = 0;
    while i < v.len()
        invariant
            i <= v.len(),
            out@ == v@.take(i as int).map_values(|b: u8| b as char),
            forall|j: int| 0 <= j < i ==> visible_ascii(#[trigger] v@[j]),
        decreases v.len() - i,
    {
        let b = v[i];
        if !((32 <= b && b < 127) || b == 9) {
            return None;
        }
        crate::text::push_char(&mut out, b as char);
        assert(v@.take(i + 1).map_values(|b: u8| b as char) =~= v@.take(i as int).map_values(
            |b: u8| b as char,
        ).push(b as char));
        i += 1;
    }
    assert(v@.take(i as int) =~= v@);
    Some(out)
}

/// The bytes of a string slice.
pub fn bytes_of(s: &str) -> (r: Vec<u8>)
    ensures
        r@ == s.spec_bytes(),
{
    let b = s.as_bytes();
    let mut out: Vec<u8> = Vec::new();
    let mut i: usize = 0;
    while i < b.len()
        invariant
            i <= b@.len(),
            b@ == s.spec_bytes(),
            out@ == b@.take(i as int),
        decreases b@.len() - i,
    {
        out.push(b[i]);
        assert(out@ =~= b@.take(i + 1));
        i += 1;
    }
    assert(b@.take(i as int) =~= b@);
    out
}

/// Header names whose values are never stored.
pub open spec fn is_redacted_name(k: Seq<char>) -> bool {
    k == "x-api-key"@ || k == "authorization"@
}

/// Header names that are not stored at all.
pub open spec fn is_dropped_name(k: Seq<char>) -> bool {
    k == "transfer-encoding"@ || k == "content-encoding"@ || k == "content-length"@
}

/// The stored value of a header.
pub open spec fn redacted_value(h: HeaderField) -> Seq<char> {
    if is_redacted_name(crate::config::routing::lowercase(h.name@)) {
        "[REDACTED]"@
    } else {
        match header_text(h.value@) {
            Some(t) => t,
            None => "[binary]"@,
        }
    }
}

/// The stored headers, in order: dropped names left out, credentials redacted,
/// binary values marked.
pub open spec fn spec_redact(hs: Seq<HeaderField>) -> Seq<(Seq<char>, Seq<char>)>
    decreases hs.len(),
{
    if hs.len() == 0 {
        Seq::empty()
    } else {
        let prev = spec_redact(hs.drop_last());
        let h = hs.last();
        if is_dropped_name(crate::config::routing::lowercase(h.name@)) {
            prev
        } else {
            prev.push((h.name@, redacted_value(h)))
        }
    }
}

/// Stored headers never carry a credential: every stored header whose name is
/// `authorization` or `x-api-key` (in any case) has the value `[REDACTED]`, and
/// every stored header comes from the request.
pub proof fn redaction_hides_credentials(hs: Seq<HeaderField>)
    ensures
        forall|j: int|
            0 <= j < spec_redact(hs).len() && is_redacted_name(
                crate::config::routing::lowercase(#[trigger] spec_redact(hs)[j].0),
            ) ==> spec_redact(hs)[j].1 == "[REDACTED]"@,
        forall|j: int|
            0 <= j < spec_redact(hs).len() ==> exists|i: int| 0 <= i < hs.len() && hs[i].name@ == (
                #[trigger] spec_redact(hs)[j]).0,
    decreases hs.len(),
{
    if hs.len() > 0 {
        redaction_hides_credentials(hs.drop_last());
        let prev = spec_redact(hs.drop_last());
        assert forall|j: int| 0 <= j < spec_redact(hs).len() implies exists|i: int|
            0 <= i < hs.len() && hs[i].name@ == (#[trigger] spec_redact(hs)[j]).0 by {
            if j < prev.len() {
                let i = choose|i: int| 0 <= i < hs.drop_last().len() && hs.drop_last()[i].name@ == prev[j].0;
                assert(hs[i] == hs.drop_last()[i]);
            } else {
                assert(hs[hs.len() - 1].name@ == spec_redact(hs)[j].0);
            }
        }
    }
}

/// Redacts header values for storage. Collected into a map, a later header of
/// the same name replaces an earlier one.
pub fn redact_headers(headers: &Vec<HeaderField>) -> (r: Vec<(String, String)>)
    ensures
        pair_views(r@) == spec_redact(headers@),
{
    let mut out: Vec<(String, String)> = Vec::new();
    let mut i: usize = 0;
    while i < headers.len()
        invariant
            i <= headers.len(),
            pair_views(out@) == spec_redact(headers@.take(i as int)),
        decreases headers.len() - i,
    {
        let h = &headers[i];
        assert(headers@.take(i + 1).drop_last() =~= headers@.take(i as int));
        assert(headers@.take(i + 1).last() == headers@[i as int]);
        let key = crate::config::routing::to_lowercase(h.name.as_str());
        let k = key.as_str();
        if !(str_eq(k, "transfer-encoding") || str_eq(k, "content-encoding") || str_eq(
            k,
            "content-length",
        )) {
            let value: String = if str_eq(k, "x-api-key") || str_eq(k, "authorization") {
                owned("[REDACTED]")
            } else {
                match header_value_text(&h.value) {
                    Some(t) => t,
                    None => owned("[binary]"),
                }
            };
            let name = h.name.clone();
            out.push((name, value));
            assert(pair_views(out@) =~= spec_redact(headers@.take(i as int)).push(
                (h.name@, redacted_value(*h)),
            ));
        }
        i += 1;
    }
    assert(headers@.take(i as int) =~= headers@);
    out
}

/// `i` is the first header named `k`.
pub open spec fn is_first_header(hs: Seq<(Seq<char>, Seq<u8>)>, k: Seq<char>, i: int) -> bool {
    &&& 0 <= i < hs.len()
    &&& hs[i].0 == k
    &&& forall|j: int| 0 <= j < i ==> hs[j].0 != k
}

/// `HeaderMap::insert`: the header named `k` takes the value `v` in place, or is appended.
pub open spec fn header_put(hs: Seq<(Seq<char>, Seq<u8>)>, k: Seq<char>, v: Seq<u8>) -> Seq<
    (Seq<char>, Seq<u8>),
> {
    if exists|i: int| is_first_header(hs, k, i) {
        hs.update(choose|i: int| is_first_header(hs, k, i), (k, v))
    } else {
        hs.push((k, v))
    }
}

/// `HeaderMap::insert` on a header list.
pub fn put_header_field(hs: &mut Vec<HeaderField>, k: String, v: Vec<u8>)
    ensures
        hviews(final(hs)@) == header_put(hviews(old(hs)@), k@, v@),
{
    let ghost olds = hviews(hs@);
    let mut i: usize = 0;
    while i < hs.len()
        invariant
            olds == hviews(hs@),
            hs@ == old(hs)@,
            i <= hs.len(),
            forall|j: int| 0 <= j < i ==> olds[j].0 != k@,
        decreases hs.len() - i,
    {
        if str_eq(hs[i].name.as_str(), k.as_str()) {
            proof {
                assert(is_first_header(olds, k@, i as int));
                let c = choose|c: int| is_first_header(olds, k@, c);
                if c < i {
                    assert(olds[c].0 != k@);
                } else if c > i {
                    assert(olds[i as int].0 == k@);
                }
            }
            hs.set(i, HeaderField { name: k, value: v });
            assert(hviews(hs@) =~= header_put(olds, k@, v@));
            return;
        }
        i += 1;
    }
    assert(!exists|c: int| is_first_header(olds, k@, c));
    hs.push(HeaderField { name: k, value: v });
    assert(hviews(hs@) =~= header_put(olds, k@, v@));
}

/// Hop-by-hop and transport headers that are never forwarded.
pub open spec fn is_hop_name(k: Seq<char>) -> bool {
    k == "host"@ || k == "connection"@ || k == "transfer-encoding"@ || k == "content-length"@ || k
        == "accept-encoding"@ || k == "proxy-connection"@ || k == "proxy-authorization"@
}

/// Client credential headers, replaced when the provider's token is injected.
pub open spec fn is_credential_name(k: Seq<char>) -> bool {
    k == "authorization"@ || k == "x-api-key"@
}

/// The client headers that are forwarded, by lower-case name, later values
/// replacing earlier ones.
pub open spec fn forwarded(hs: Seq<HeaderField>, overriding: bool) -> Seq<(Seq<char>, Seq<u8>)>
    decreases hs.len(),
{
    if hs.len() == 0 {
        Seq::empty()
    } else {
        let prev = forwarded(hs.drop_last(), overriding);
        let h = hs.last();
        let k = crate::config::routing::lowercase(h.name@);
        if is_hop_name(k) || (overriding && is_credential_name(k)) {
            prev
        } else {
            header_put(prev, k, h.value@)
        }
    }
}

/// The bytes of `Bearer `.
pub open spec fn bearer_prefix() -> Seq<u8> {
    seq![66u8, 101u8, 97u8, 114u8, 101u8, 114u8, 32u8]
}

/// The bytes of `identity`.
pub open spec fn identity_bytes() -> Seq<u8> {
    seq![105u8, 100u8, 101u8, 110u8, 116u8, 105u8, 116u8, 121u8]
}

/// The headers sent upstream: the forwarded client headers, the provider token
/// (as a bearer `authorization` for `sk-` tokens, else as `x-api-key`), and
/// `accept-encoding: identity`.
pub open spec fn spec_upstream_headers(hs: Seq<HeaderField>, token: Option<&str>) -> Seq<
    (Seq<char>, Seq<u8>),
> {
    let fw = forwarded(hs, token is Some);
    let with_token = match token {
        None => fw,
        Some(t) => if seq_starts_with(t@, "sk-"@) {
            header_put(fw, "authorization"@, bearer_prefix() + t.spec_bytes())
        } else {
            header_put(fw, "x-api-key"@, t.spec_bytes())
        },
    };
    header_put(with_token, "accept-encoding"@, identity_bytes())
}

/// Builds the upstream request headers: strips hop-by-hop headers and injects
/// the provider token.
pub fn build_upstream_headers(headers: &Vec<HeaderField>, override_token: Option<&str>) -> (r: Vec<
    HeaderField,
>)
    requires
        override_token matches Some(t) ==> forall|i: int|
            0 <= i < t.spec_bytes().len() ==> valid_value_byte(#[trigger] t.spec_bytes()[i]),
    ensures
        hviews(r@) == spec_upstream_headers(headers@, override_token),
{
    let overriding = override_token.is_some();
    let mut fwd: Vec<HeaderField> = Vec::new();
    let mut i: usize = 0;
    while i < headers.len()
        invariant
            i <= headers.len(),
            overriding == override_token is Some,
            hviews(fwd@) == forwarded(headers@.take(i as int), overriding),
        decreases headers.len() - i,
    {
        let h = &headers[i];
        assert(headers@.take(i + 1).drop_last() =~= headers@.take(i as int));
        assert(headers@.take(i + 1).last() == headers@[i as int]);
        let key = crate::config::routing::to_lowercase(h.name.as_str());
        let k = key.as_str();
        let hop = str_eq(k, "host") || str_eq(k, "connection") || str_eq(k, "transfer-encoding")
            || str_eq(k, "content-length") || str_eq(k, "accept-encoding") || str_eq(
            k,
            "proxy-connection",
        ) || str_eq(k, "proxy-authorization");
        let cred = str_eq(k, "authorization") || str_eq(k, "x-api-key");
        if !(hop || (overriding && cred)) {
            let value = h.value.clone();
            put_header_field(&mut fwd, key, value);
        }
        i += 1;
    }
    assert(headers@.take(i as int) =~= headers@);
    match override_token {
        Some(token) => {
            if crate::text::str_starts_with(token, "sk-") {
                let mut v: Vec<u8> = Vec::new();
                v.push(66u8);
                v.push(101u8);
                v.push(97u8);
                v.push(114u8);
                v.push(101u8);
                v.push(114u8);
                v.push(32u8);
                let t = bytes_of(token);
                let mut j: usize = 0;
                while j < t.len()
                    invariant
                        j <= t.len(),
                        v@ == bearer_prefix() + t@.take(j as int),
                    decreases t.len() - j,
                {
                    v.push(t[j]);
                    assert(v@ =~= bearer_prefix() + t@.take(j + 1));
                    j += 1;
                }
                assert(t@.take(j as int) =~= t@);
                put_header_field(&mut fwd, owned("authorization"), v);
            } else {
                put_header_field(&mut fwd, owned("x-api-key"), bytes_of(token));
            }
        },
        None => {},
    }
    let mut idv: Vec<u8> = Vec::new();
    idv.push(105u8);
    idv.push(100u8);
    idv.push(101u8);
    idv.push(110u8);
    idv.push(116u8);
    idv.push(105u8);
    idv.push(116u8);
    idv.push(121u8);
    assert(idv@ =~= identity_bytes());
    put_header_field(&mut fwd, owned("accept-encoding"), idv);
    fwd
}

// ── Session ids ──

/// Some text when it is present and not empty.
pub open spec fn nonempty(s: Option<Seq<char>>) -> Option<Seq<char>> {
    match s {
        Some(t) => if t.len() > 0 {
            Some(t)
        } else {
            None
        },
        None => None,
    }
}

fn nonempty_string(s: Option<String>) -> (r: Option<String>)
    ensures
        ov(r) == nonempty(ov(s)),
{
    match s {
        Some(t) => if str_is_empty(t.as_str()) {
            None
        } else {
            Some(t)
        },
        None => None,
    }
}

/// The value of the first header whose lower-case name is `name` (`HeaderMap::get`).
pub open spec fn first_named(hs: Seq<HeaderField>, name: Seq<char>) -> Option<Seq<u8>>
    decreases hs.len(),
{
    if hs.len() == 0 {
        None
    } else if crate::config::routing::lowercase(hs[0].name@) == name {
        Some(hs[0].value@)
    } else {
        first_named(hs.drop_first(), name)
    }
}

/// A header's value as non-empty text.
pub open spec fn header_session(hs: Seq<HeaderField>, name: Seq<char>) -> Option<Seq<char>> {
    match first_named(hs, name) {
        Some(v) => nonempty(header_text(v)),
        None => None,
    }
}

fn header_session_of(headers: &Vec<HeaderField>, name: &str) -> (r: Option<String>)
    ensures
        ov(r) == header_session(headers@, name@),
{
    let mut i: usize = 0;
    assert(headers@.skip(0) =~= headers@);
    while i < headers.len()
        invariant
            i <= headers.len(),
            first_named(headers@, name@) == first_named(headers@.skip(i as int), name@),
        decreases headers.len() - i,
    {
        assert(headers@.skip(i as int).drop_first() =~= headers@.skip(i + 1));
        assert(headers@.skip(i as int)[0] == headers@[i as int]);
        let key = crate::config::routing::to_lowercase(headers[i].name.as_str());
        if str_eq(key.as_str(), name) {
            return nonempty_string(header_value_text(&headers[i].value));
        }
        i += 1;
    }
    None
}

/// The `metadata.user_id` text of a request body; Anthropic clients put a JSON
/// document there.
pub open spec fn spec_user_id(body: JsonValue) -> Option<Seq<char>> {
    json_str(json_in(json_get(body, "metadata"@), "user_id"@))
}

/// Reads `metadata.user_id` of a request body.
pub fn metadata_user_id(body_json: &JsonValue) -> (r: Option<String>)
    ensures
        ov(r) == spec_user_id(*body_json),
{
    as_str(get_in(get(body_json, "metadata"), "user_id"))
}

/// The non-empty `session_id` of the parsed `metadata.user_id` document.
pub open spec fn spec_session_from_user(doc: Option<JsonValue>) -> Option<Seq<char>> {
    nonempty(json_str(json_in(doc, "session_id"@)))
}

/// The session id of an Anthropic request, from its parsed `metadata.user_id`
/// document (`None` when that text is missing or is not JSON).
pub fn extract_session_id(user_id_doc: Option<&JsonValue>) -> (r: Option<String>)
    ensures
        ov(r) == spec_session_from_user(crate::json::deref_opt(user_id_doc)),
{
    nonempty_string(as_str(get_in(user_id_doc, "session_id")))
}

/// The first present member of `metadata.session_id`, `session_id`,
/// `conversation_id`, `prompt_cache_key`.
pub open spec fn codex_session_member(body: JsonValue) -> Option<JsonValue> {
    let a = json_in(json_get(body, "metadata"@), "session_id"@);
    if a is Some {
        a
    } else if json_get(body, "session_id"@) is Some {
        json_get(body, "session_id"@)
    } else if json_get(body, "conversation_id"@) is Some {
        json_get(body, "conversation_id"@)
    } else {
        json_get(body, "prompt_cache_key"@)
    }
}

/// The session id of a request: a non-empty `session_id`, `x-session-id` or
/// `x-codex-session-id` header first; then, for Anthropic, the one in
/// `metadata.user_id`; for Codex, the first present of the body's session
/// members, when it is non-empty text.
pub open spec fn spec_request_session_id(
    p: ApiProtocol,
    hs: Seq<HeaderField>,
    body: JsonValue,
    doc: Option<JsonValue>,
) -> Option<Seq<char>> {
    if header_session(hs, "session_id"@) is Some {
        header_session(hs, "session_id"@)
    } else if header_session(hs, "x-session-id"@) is Some {
        header_session(hs, "x-session-id"@)
    } else if header_session(hs, "x-codex-session-id"@) is Some {
        header_session(hs, "x-codex-session-id"@)
    } else if p == ApiProtocol::Anthropic {
        spec_session_from_user(doc)
    } else {
        nonempty(json_str(codex_session_member(body)))
    }
}

/// Finds the client's session id of a request. `user_id_doc` is the parsed
/// `metadata.user_id` document of the body, when there is one.
pub fn extract_request_session_id(
    protocol: ApiProtocol,
    headers: &Vec<HeaderField>,
    body: &JsonValue,
    user_id_doc: Option<&JsonValue>,
) -> (r: Option<String>)
    ensures
        ov(r) == spec_request_session_id(
            protocol,
            headers@,
            *body,
            crate::json::deref_opt(user_id_doc),
        ),
{
    let a = header_session_of(headers, "session_id");
    if a.is_some() {
        return a;
    }
    let b = header_session_of(headers, "x-session-id");
    if b.is_some() {
        return b;
    }
    let c = header_session_of(headers, "x-codex-session-id");
    if c.is_some() {
        return c;
    }
    if protocol == ApiProtocol::Anthropic {
        return extract_session_id(user_id_doc);
    }
    let m = get_in(get(body, "metadata"), "session_id");
    let v = if m.is_some() {
        m
    } else if get(body, "session_id").is_some() {
        get(body, "session_id")
    } else if get(body, "conversation_id").is_some() {
        get(body, "conversation_id")
    } else {
        get(body, "prompt_cache_key")
    };
    nonempty_string(as_str(v))
}

// ── Normalised responses ──

/// A tool call found in a response.
#[derive(Debug)]
pub struct ToolCallRecord {
    pub id: String,
    pub name: String,
    pub input: JsonValue,
}

/// A tool result found in a response: the call it answers and its content.
#[derive(Debug)]
pub struct ToolResultRecord {
    pub tool_use_id: String,
    pub content: String,
}

/// A response reduced to its text, its reasoning, its tool calls and its tool
/// results.
#[derive(Debug)]
pub struct NormalizedResponse {
    pub text: Vec<String>,
    pub thinking: Vec<String>,
    pub tool_calls: Vec<ToolCallRecord>,
    pub tool_results: Vec<ToolResultRecord>,
}

impl NormalizedResponse {
    /// An empty response.
    pub fn new() -> (r: Self)
        ensures
            r.text@.len() == 0,
            r.thinking@.len() == 0,
            r.tool_calls@.len() == 0,
            r.tool_results@.len() == 0,
    {
        NormalizedResponse {
            text: Vec::new(),
            thinking: Vec::new(),
            tool_calls: Vec::new(),
            tool_results: Vec::new(),
        }
    }
}

impl Default for NormalizedResponse {
    fn default() -> (r: Self)
        ensures
            r.text@.len() == 0,
            r.thinking@.len() == 0,
            r.tool_calls@.len() == 0,
            r.tool_results@.len() == 0,
    {
        Self::new()
    }
}

/// A tool call as plain values: id, name and input.
pub type ToolView = (Seq<char>, Seq<char>, JsonValue);

/// A normalised response as plain values.
pub type NormView = (Seq<Seq<char>>, Seq<Seq<char>>, Seq<ToolView>);

/// The view of a list of strings.
pub open spec fn sv(v: Seq<String>) -> Seq<Seq<char>> {
    crate::text::views(v)
}

/// `r` holds the values of `v` and no tool results; tool inputs are compared
/// structurally.
pub open spec fn norm_is(r: NormalizedResponse, v: NormView) -> bool {
    &&& r.tool_results@.len() == 0
    &&& sv(r.text@) == v.0
    &&& sv(r.thinking@) == v.1
    &&& r.tool_calls@.len() == v.2.len()
    &&& forall|i: int|
        0 <= i < v.2.len() ==> {
            &&& (#[trigger] r.tool_calls@[i]).id@ == v.2[i].0
            &&& r.tool_calls@[i].name@ == v.2[i].1
            &&& same_json(r.tool_calls@[i].input, v.2[i].2)
        }
}

/// Appends the text of `v` when it is a non-empty string.
pub open spec fn push_text(acc: Seq<Seq<char>>, v: Option<JsonValue>) -> Seq<Seq<char>> {
    match nonempty(json_str(v)) {
        Some(s) => acc.push(s),
        None => acc,
    }
}

fn push_text_exec(target: &mut Vec<String>, v: Option<&JsonValue>)
    ensures
        sv(final(target)@) == push_text(sv(old(target)@), crate::json::deref_opt(v)),
{
    match nonempty_string(as_str(v)) {
        Some(s) => {
            target.push(s);
            assert(sv(target@) =~= sv(old(target)@).push(s@));
        },
        None => {},
    }
}

/// The text member `k` of `v`, or empty text.
pub open spec fn string_member(v: JsonValue, k: Seq<char>) -> Seq<char> {
    match json_str(json_get(v, k)) {
        Some(s) => s,
        None => Seq::empty(),
    }
}

/// Reads the text member `key` of `value`, or empty text.
pub fn string_field(value: &JsonValue, key: &str) -> (r: String)
    ensures
        r@ == string_member(*value, key@),
{
    match as_str(get(value, key)) {
        Some(s) => s,
        None => String::new(),
    }
}

/// A present value, or null.
pub open spec fn or_null(v: Option<JsonValue>) -> JsonValue {
    match v {
        Some(x) => x,
        None => JsonValue::Null,
    }
}

pub(crate) fn copy_or_null(v: Option<&JsonValue>) -> (r: JsonValue)
    ensures
        same_json(r, or_null(crate::json::deref_opt(v))),
{
    match v {
        Some(x) => copy_json(x),
        None => JsonValue::Null,
    }
}

/// The items of an array member, or none.
pub open spec fn items_of(v: Option<JsonValue>) -> Seq<JsonValue> {
    match json_array(v) {
        Some(a) => a,
        None => Seq::empty(),
    }
}

/// One Anthropic content block added to a normalised response.
pub open spec fn anthropic_step(acc: NormView, block: JsonValue) -> NormView {
    match json_str(json_get(block, "type"@)) {
        Some(t) => if t == "text"@ {
            (push_text(acc.0, json_get(block, "text"@)), acc.1, acc.2)
        } else if t == "thinking"@ {
            (acc.0, push_text(acc.1, json_get(block, "thinking"@)), acc.2)
        } else if t == "tool_use"@ {
            (
                acc.0,
                acc.1,
                acc.2.push(
                    (
                        string_member(block, "id"@),
                        string_member(block, "name"@),
                        or_null(json_get(block, "input"@)),
                    ),
                ),
            )
        } else {
            acc
        },
        None => acc,
    }
}

/// Anthropic content blocks, in order.
pub open spec fn anthropic_fold(blocks: Seq<JsonValue>) -> NormView
    decreases blocks.len(),
{
    if blocks.len() == 0 {
        (Seq::empty(), Seq::empty(), Seq::empty())
    } else {
        anthropic_step(anthropic_fold(blocks.drop_last()), blocks.last())
    }
}

/// The `key` text of each item, appended when non-empty.
pub open spec fn texts_fold(acc: Seq<Seq<char>>, items: Seq<JsonValue>, key: Seq<char>) -> Seq<
    Seq<char>,
>
    decreases items.len(),
{
    if items.len() == 0 {
        acc
    } else {
        push_text(texts_fold(acc, items.drop_last(), key), json_get(items.last(), key))
    }
}

fn push_texts(target: &mut Vec<String>, items: &Vec<JsonValue>, key: &str)
    ensures
        sv(final(target)@) == texts_fold(sv(old(target)@), items@, key@),
{
    let mut i: usize = 0;
    while i < items.len()
        invariant
            i <= items.len(),
            sv(target@) == texts_fold(sv(old(target)@), items@.take(i as int), key@),
        decreases items.len() - i,
    {
        assert(items@.take(i + 1).drop_last() =~= items@.take(i as int));
        assert(items@.take(i + 1).last() == items@[i as int]);
        push_text_exec(target, get(&items[i], key));
        i += 1;
    }
    assert(items@.take(i as int) =~= items@);
}

/// One Responses-API output item added to a normalised response.
pub open spec fn codex_step(acc: NormView, item: JsonValue) -> NormView {
    match json_str(json_get(item, "type"@)) {
        Some(t) => if t == "message"@ {
            (texts_fold(acc.0, items_of(json_get(item, "content"@)), "text"@), acc.1, acc.2)
        } else if t == "reasoning"@ {
            (acc.0, texts_fold(acc.1, items_of(json_get(item, "summary"@)), "text"@), acc.2)
        } else if t == "function_call"@ {
            (
                acc.0,
                acc.1,
                acc.2.push(
                    (
                        string_member(item, "call_id"@),
                        string_member(item, "name"@),
                        or_null(json_get(item, "arguments"@)),
                    ),
                ),
            )
        } else {
            acc
        },
        None => acc,
    }
}

/// Responses-API output items, in order.
pub open spec fn codex_fold(items: Seq<JsonValue>) -> NormView
    decreases items.len(),
{
    if items.len() == 0 {
        (Seq::empty(), Seq::empty(), Seq::empty())
    } else {
        codex_step(codex_fold(items.drop_last()), items.last())
    }
}

/// The normalised form of a response body: its `content` blocks for Anthropic,
/// its `output` items for Codex.
pub open spec fn spec_normalize(p: ApiProtocol, body: JsonValue) -> NormView {
    if p == ApiProtocol::Anthropic {
        anthropic_fold(items_of(json_get(body, "content"@)))
    } else {
        codex_fold(items_of(json_get(body, "output"@)))
    }
}

fn push_tool(r: &mut NormalizedResponse, item: &JsonValue, id_key: &str, input_key: &str)
    ensures
        sv(final(r).text@) == sv(old(r).text@),
        sv(final(r).thinking@) == sv(old(r).thinking@),
        final(r).tool_calls@.len() == old(r).tool_calls@.len() + 1,
        final(r).tool_results@ == old(r).tool_results@,
        forall|i: int|
            0 <= i < old(r).tool_calls@.len() ==> #[trigger] final(r).tool_calls@[i] == old(r).tool_calls@[i],
        final(r).tool_calls@.last().id@ == string_member(*item, id_key@),
        final(r).tool_calls@.last().name@ == string_member(*item, "name"@),
        same_json(final(r).tool_calls@.last().input, or_null(json_get(*item, input_key@))),
{
    let rec = ToolCallRecord {
        id: string_field(item, id_key),
        name: string_field(item, "name"),
        input: copy_or_null(get(item, input_key)),
    };
    r.tool_calls.push(rec);
}

/// Normalises a non-streaming response body into text, reasoning and tool calls.
pub fn normalize_response_body(protocol: ApiProtocol, body: &JsonValue) -> (r: NormalizedResponse)
    ensures
        norm_is(r, spec_normalize(protocol, *body)),
{
    let mut r = NormalizedResponse::new();
    assert(sv(r.text@) =~= Seq::<Seq<char>>::empty());
    assert(sv(r.thinking@) =~= Seq::<Seq<char>>::empty());
    if protocol == ApiProtocol::Anthropic {
        let blocks = as_array(get(body, "content"));
        let empty: Vec<JsonValue> = Vec::new();
        let items: &Vec<JsonValue> = match blocks {
            Some(b) => b,
            None => &empty,
        };
        assert(items@ == items_of(json_get(*body, "content"@)));
        assert(items@.take(0) =~= Seq::<JsonValue>::empty());
        let mut i: usize = 0;
        while i < items.len()
            invariant
                i <= items.len(),
                norm_is(r, anthropic_fold(items@.take(i as int))),
            decreases items.len() - i,
        {
            assert(items@.take(i + 1).drop_last() =~= items@.take(i as int));
            assert(items@.take(i + 1).last() == items@[i as int]);
            let block = &items[i];
            let ghost acc = anthropic_fold(items@.take(i as int));
            let t = as_str(get(block, "type"));
            match t {
                Some(ts) => {
                    if str_eq(ts.as_str(), "text") {
                        push_text_exec(&mut r.text, get(block, "text"));
                    } else if str_eq(ts.as_str(), "thinking") {
                        push_text_exec(&mut r.thinking, get(block, "thinking"));
                    } else if str_eq(ts.as_str(), "tool_use") {
                        push_tool(&mut r, block, "id", "input");
                        assert(norm_is(r, anthropic_step(acc, *block)));
                    }
                },
                None => {},
            }
            i += 1;
        }
        assert(items@.take(i as int) =~= items@);
        return r;
    }
    let outs = as_array(get(body, "output"));
    let empty: Vec<JsonValue> = Vec::new();
    let items: &Vec<JsonValue> = match outs {
        Some(b) => b,
        None => &empty,
    };
    assert(items@ == items_of(json_get(*body, "output"@)));
    assert(items@.take(0) =~= Seq::<JsonValue>::empty());
    let mut i: usize = 0;
    while i < items.len()
        invariant
            i <= items.len(),
            norm_is(r, codex_fold(items@.take(i as int))),
        decreases items.len() - i,
    {
        assert(items@.take(i + 1).drop_last() =~= items@.take(i as int));
        assert(items@.take(i + 1).last() == items@[i as int]);
        let item = &items[i];
        let ghost acc = codex_fold(items@.take(i as int));
        let t = as_str(get(item, "type"));
        match t {
            Some(ts) => {
                if str_eq(ts.as_str(), "message") {
                    let empty2: Vec<JsonValue> = Vec::new();
                    let cs: &Vec<JsonValue> = match as_array(get(item, "content")) {
                        Some(c) => c,
                        None => &empty2,
                    };
                    push_texts(&mut r.text, cs, "text");
                } else if str_eq(ts.as_str(), "reasoning") {
                    let empty2: Vec<JsonValue> = Vec::new();
                    let ss: &Vec<JsonValue> = match as_array(get(item, "summary")) {
                        Some(c) => c,
                        None => &empty2,
                    };
                    push_texts(&mut r.thinking, ss, "text");
                } else if str_eq(ts.as_str(), "function_call") {
                    push_tool(&mut r, item, "call_id", "arguments");
                    assert(norm_is(r, codex_step(acc, *item)));
                }
            },
            None => {},
        }
        i += 1;
    }
    assert(items@.take(i as int) =~= items@);
    r
}

/// The larger of two counts.
pub open spec fn max_u32(a: u32, b: u32) -> u32 {
    if a >= b {
        a
    } else {
        b
    }
}

/// The object a Responses-API lifecycle event describes: its `response`
/// member, or the event itself.
pub open spec fn event_response(event: JsonValue) -> JsonValue {
    match json_get(event, "response"@) {
        Some(r) => r,
        None => event,
    }
}

/// Applies one Responses-API stream event: text and reasoning deltas are
/// appended; `response.completed` and `response.created` raise the token counts
/// to the reported ones and set the message id and model.
pub fn parse_codex_stream_event(
    event: &JsonValue,
    normalized: &mut NormalizedResponse,
    input_tokens: &mut u32,
    output_tokens: &mut u32,
    cache_read_tokens: &mut u32,
    message_id: &mut Option<String>,
    model: &mut Option<String>,
)
    ensures
        ({
            let t = json_str(json_get(*event, "type"@));
            let delta = t == Some("response.output_text.delta"@);
            let rdelta = t == Some("response.reasoning_summary_text.delta"@);
            let life = t == Some("response.completed"@) || t == Some("response.created"@);
            let resp = event_response(*event);
            let u = spec_usage(resp);
            &&& sv(final(normalized).text@) == (if delta {
                push_text(sv(old(normalized).text@), json_get(*event, "delta"@))
            } else {
                sv(old(normalized).text@)
            })
            &&& sv(final(normalized).thinking@) == (if rdelta {
                push_text(sv(old(normalized).thinking@), json_get(*event, "delta"@))
            } else {
                sv(old(normalized).thinking@)
            })
            &&& final(normalized).tool_calls@ == old(normalized).tool_calls@
            &&& final(normalized).tool_results@ == old(normalized).tool_results@
            &&& *final(input_tokens) == (if life {
                max_u32(u.0, *old(input_tokens))
            } else {
                *old(input_tokens)
            })
            &&& *final(output_tokens) == (if life {
                max_u32(u.1, *old(output_tokens))
            } else {
                *old(output_tokens)
            })
            &&& *final(cache_read_tokens) == (if life {
                max_u32(u.2, *old(cache_read_tokens))
            } else {
                *old(cache_read_tokens)
            })
            &&& ov(*final(message_id)) == (if life {
                json_str(json_get(resp, "id"@))
            } else {
                ov(*old(message_id))
            })
            &&& ov(*final(model)) == (if life {
                json_str(json_get(resp, "model"@))
            } else {
                ov(*old(model))
            })
        }),
{
    proof {
        reveal_strlit("response.output_text.delta");
        reveal_strlit("response.reasoning_summary_text.delta");
        reveal_strlit("response.completed");
        reveal_strlit("response.created");
    }
    let t = as_str(get(event, "type"));
    match t {
        Some(ts) => {
            let k = ts.as_str();
            if str_eq(k, "response.output_text.delta") {
                assert(ts@.len() != "response.reasoning_summary_text.delta"@.len());
                assert(ts@ != "response.reasoning_summary_text.delta"@);
                push_text_exec(&mut normalized.text, get(event, "delta"));
            } else if str_eq(k, "response.reasoning_summary_text.delta") {
                push_text_exec(&mut normalized.thinking, get(event, "delta"));
            } else if str_eq(k, "response.completed") || str_eq(k, "response.created") {
                let response = match get(event, "response") {
                    Some(r) => r,
                    None => event,
                };
                let (input, output, cached) = usage_from_json(response);
                if input > *input_tokens {
                    *input_tokens = input;
                }
                if output > *output_tokens {
                    *output_tokens = output;
                }
                if cached > *cache_read_tokens {
                    *cache_read_tokens = cached;
                }
                *message_id = as_str(get(response, "id"));
                *model = as_str(get(response, "model"));
            }
        },
        None => {},
    }
}

// ── Upstream responses ──

/// What the relay learned from an upstream response.
#[derive(Debug)]
pub struct UpstreamResponse {
    pub status_code: u16,
    pub response_headers: Vec<HeaderField>,
    pub content_text: Option<String>,
    pub raw_body: Vec<u8>,
    pub normalized: NormalizedResponse,
    pub sse_events: Vec<SseEvent>,
    pub input_tokens: u32,
    pub output_tokens: u32,
    pub cache_creation_tokens: u32,
    pub cache_read_tokens: u32,
    pub stop_reason: Option<String>,
    pub message_id: Option<String>,
    pub model: Option<String>,
    pub duration_ms: u64,
    pub ttft_ms: Option<u64>,
    pub error: Option<String>,
}

/// All parts, concatenated (`[String]::join("")`).
pub open spec fn concat_all(parts: Seq<Seq<char>>) -> Seq<char>
    decreases parts.len(),
{
    if parts.len() == 0 {
        Seq::empty()
    } else {
        concat_all(parts.drop_last()) + parts.last()
    }
}

/// Concatenates strings.
pub fn join_all(parts: &Vec<String>) -> (r: String)
    ensures
        r@ == concat_all(sv(parts@)),
{
    let mut out = String::new();
    let mut i: usize = 0;
    while i < parts.len()
        invariant
            i <= parts.len(),
            out@ == concat_all(sv(parts@.take(i as int))),
        decreases parts.len() - i,
    {
        assert(sv(parts@.take(i + 1)).drop_last() =~= sv(parts@.take(i as int)));
        crate::text::push_str(&mut out, parts[i].as_str());
        i += 1;
    }
    assert(parts@.take(i as int) =~= parts@);
    out
}

/// The text of a response: what was streamed or listed, else the joined
/// normalised text, else nothing.
pub open spec fn text_or_joined(content: Seq<char>, text: Seq<Seq<char>>) -> Option<Seq<char>> {
    if content.len() > 0 {
        Some(content)
    } else {
        nonempty(Some(concat_all(text)))
    }
}

/// `HTTP <status>` followed by `tail`.
pub open spec fn http_msg(status: u16, tail: Seq<char>) -> Seq<char> {
    "HTTP "@ + crate::text::decimal(status as nat) + tail
}

fn http_message(status: u16, tail: &str) -> (r: String)
    ensures
        r@ == http_msg(status, tail@),
{
    let mut out = owned("HTTP ");
    crate::text::push_u64(&mut out, status as u64);
    crate::text::push_str(&mut out, tail);
    out
}

/// The error text of a failed streaming request: the JSON body's
/// `error.message` (or, when that is absent, `error.type`) if it is text, else
/// the trimmed body.
pub open spec fn spec_stream_error_text(text: Seq<char>, parsed: Option<JsonValue>) -> Seq<char> {
    let e = json_in(parsed, "error"@);
    let m = if json_in(e, "message"@) is Some {
        json_in(e, "message"@)
    } else {
        json_in(e, "type"@)
    };
    match json_str(m) {
        Some(s) => s,
        None => crate::text::trim_seq(text),
    }
}

/// The record of a streaming request that the upstream answered with a status of
/// 300 or more: the body is kept as text, and its error message (or
/// `HTTP <status> (no body)`) is the error. `parsed` is the body parsed as JSON.
pub fn stream_error_response(
    status_code: u16,
    response_headers: Vec<HeaderField>,
    body: Vec<u8>,
    parsed: Option<&JsonValue>,
    duration_ms: u64,
) -> (r: UpstreamResponse)
    ensures
        ({
            let text = super::sse::utf8_lossy(body@);
            let msg = spec_stream_error_text(text, crate::json::deref_opt(parsed));
            &&& r.status_code == status_code
            &&& r.response_headers == response_headers
            &&& r.raw_body == body
            &&& ov(r.content_text) == nonempty(Some(text))
            &&& ov(r.error) == Some(if msg.len() == 0 { http_msg(status_code, " (no body)"@) } else { msg })
            &&& norm_is(r.normalized, (Seq::empty(), Seq::empty(), Seq::empty()))
            &&& r.sse_events@.len() == 0
            &&& r.input_tokens == 0 && r.output_tokens == 0
            &&& r.cache_creation_tokens == 0 && r.cache_read_tokens == 0
            &&& r.stop_reason is None && r.message_id is None && r.model is None
            &&& r.duration_ms == duration_ms && r.ttft_ms is None
        }),
{
    let text = super::sse::decode_lossy(body.as_slice());
    let e = get_in(parsed, "error");
    let m = if get_in(e, "message").is_some() {
        get_in(e, "message")
    } else {
        get_in(e, "type")
    };
    let msg = match as_str(m) {
        Some(s) => s,
        None => crate::text::trim_str(text.as_str()),
    };
    let error = if str_is_empty(msg.as_str()) {
        http_message(status_code, " (no body)")
    } else {
        msg
    };
    let content_text = nonempty_string(Some(text));
    let normalized = NormalizedResponse::new();
    assert(sv(normalized.text@) =~= Seq::<Seq<char>>::empty());
    assert(sv(normalized.thinking@) =~= Seq::<Seq<char>>::empty());
    UpstreamResponse {
        status_code,
        response_headers,
        content_text,
        raw_body: body,
        normalized,
        sse_events: Vec::new(),
        input_tokens: 0,
        output_tokens: 0,
        cache_creation_tokens: 0,
        cache_read_tokens: 0,
        stop_reason: None,
        message_id: None,
        model: None,
        duration_ms,
        ttft_ms: None,
        error: Some(error),
    }
}

/// The record of a response whose body could not be read.
pub fn body_read_failure(
    status_code: u16,
    response_headers: Vec<HeaderField>,
    reason: &str,
    duration_ms: u64,
) -> (r: UpstreamResponse)
    ensures
        r.status_code == status_code,
        r.response_headers == response_headers,
        r.content_text is None,
        r.raw_body@.len() == 0,
        norm_is(r.normalized, (Seq::empty(), Seq::empty(), Seq::empty())),
        r.sse_events@.len() == 0,
        r.input_tokens == 0 && r.output_tokens == 0,
        r.cache_creation_tokens == 0 && r.cache_read_tokens == 0,
        r.stop_reason is None && r.message_id is None && r.model is None,
        r.duration_ms == duration_ms && r.ttft_ms is None,
        ov(r.error) == Some("Failed to read response body: "@ + reason@),
{
    let mut error = owned("Failed to read response body: ");
    crate::text::push_str(&mut error, reason);
    let normalized = NormalizedResponse::new();
    assert(sv(normalized.text@) =~= Seq::<Seq<char>>::empty());
    assert(sv(normalized.thinking@) =~= Seq::<Seq<char>>::empty());
    UpstreamResponse {
        status_code,
        response_headers,
        content_text: None,
        raw_body: Vec::new(),
        normalized,
        sse_events: Vec::new(),
        input_tokens: 0,
        output_tokens: 0,
        cache_creation_tokens: 0,
        cache_read_tokens: 0,
        stop_reason: None,
        message_id: None,
        model: None,
        duration_ms,
        ttft_ms: None,
        error: Some(error),
    }
}

/// The concatenated `text` of every content block that has one; nothing when
/// `content` is not an array.
pub open spec fn anthropic_text(body: JsonValue) -> Option<Seq<char>> {
    match json_array(json_get(body, "content"@)) {
        Some(blocks) => Some(block_texts(blocks)),
        None => None,
    }
}

/// The `text` strings of the blocks, concatenated.
pub open spec fn block_texts(blocks: Seq<JsonValue>) -> Seq<char>
    decreases blocks.len(),
{
    if blocks.len() == 0 {
        Seq::empty()
    } else {
        block_texts(blocks.drop_last()) + match json_str(json_get(blocks.last(), "text"@)) {
            Some(t) => t,
            None => Seq::empty(),
        }
    }
}

fn block_texts_of(blocks: &Vec<JsonValue>) -> (r: String)
    ensures
        r@ == block_texts(blocks@),
{
    let mut out = String::new();
    let mut i: usize = 0;
    while i < blocks.len()
        invariant
            i <= blocks.len(),
            out@ == block_texts(blocks@.take(i as int)),
        decreases blocks.len() - i,
    {
        assert(blocks@.take(i + 1).drop_last() =~= blocks@.take(i as int));
        assert(blocks@.take(i + 1).last() == blocks@[i as int]);
        match as_str(get(&blocks[i], "text")) {
            Some(t) => {
                crate::text::push_str(&mut out, t.as_str());
            },
            None => {
                assert(out@ + Seq::<char>::empty() =~= out@);
            },
        }
        i += 1;
    }
    assert(blocks@.take(i as int) =~= blocks@);
    out
}

/// The error of a JSON response: `error.message` when it is text, else
/// `HTTP <status> (no error detail)` for a status of 400 or more.
pub open spec fn spec_json_error(status: u16, body: JsonValue) -> Option<Seq<char>> {
    match json_str(json_in(json_get(body, "error"@), "message"@)) {
        Some(m) => Some(m),
        None => if status >= 400 {
            Some(http_msg(status, " (no error detail)"@))
        } else {
            None
        },
    }
}

/// Cached input tokens: `usage.cache_read_input_tokens`, else the Responses-API count.
pub open spec fn spec_cache_read(body: JsonValue, codex_cached: u32) -> u32 {
    match json_u64(json_in(json_get(body, "usage"@), "cache_read_input_tokens"@)) {
        Some(n) => n as u32,
        None => codex_cached,
    }
}

/// The record of a non-streaming response. `parsed` is the body parsed as JSON;
/// a body that is not JSON is kept as text, and is an error for a status of 400
/// or more.
pub fn non_streaming_response(
    status_code: u16,
    response_headers: Vec<HeaderField>,
    body: Vec<u8>,
    parsed: Option<&JsonValue>,
    protocol: ApiProtocol,
    duration_ms: u64,
) -> (r: UpstreamResponse)
    ensures
        r.status_code == status_code,
        r.response_headers == response_headers,
        r.raw_body == body,
        r.sse_events@.len() == 0,
        r.duration_ms == duration_ms && r.ttft_ms is None,
        parsed is None ==> ({
            let text = super::sse::utf8_lossy(body@);
            &&& ov(r.content_text) == Some(text)
            &&& ov(r.error) == (if status_code >= 400 {
                Some(http_msg(status_code, ": "@ + crate::text::trim_seq(text)))
            } else {
                None
            })
            &&& norm_is(r.normalized, (Seq::empty(), Seq::empty(), Seq::empty()))
            &&& r.input_tokens == 0 && r.output_tokens == 0
            &&& r.cache_creation_tokens == 0 && r.cache_read_tokens == 0
            &&& r.stop_reason is None && r.message_id is None && r.model is None
        }),
        parsed matches Some(j) ==> ({
            let u = spec_usage(*j);
            let n = spec_normalize(protocol, *j);
            &&& norm_is(r.normalized, n)
            &&& r.input_tokens == u.0 && r.output_tokens == u.1
            &&& r.cache_creation_tokens == tokens(
                json_u64(json_in(json_get(*j, "usage"@), "cache_creation_input_tokens"@)),
            )
            &&& r.cache_read_tokens == spec_cache_read(*j, u.2)
            &&& ov(r.model) == json_str(json_get(*j, "model"@))
            &&& ov(r.stop_reason) == json_str(json_get(*j, "stop_reason"@))
            &&& ov(r.message_id) == json_str(json_get(*j, "id"@))
            &&& ov(r.content_text) == (match nonempty(anthropic_text(*j)) {
                Some(t) => Some(t),
                None => nonempty(Some(concat_all(n.0))),
            })
            &&& ov(r.error) == spec_json_error(status_code, *j)
        }),
{
    match parsed {
        None => {
            let text = super::sse::decode_lossy(body.as_slice());
            let error = if status_code >= 400 {
                let mut m = http_message(status_code, ": ");
                let t = crate::text::trim_str(text.as_str());
                crate::text::push_str(&mut m, t.as_str());
                assert(m@ =~= http_msg(status_code, ": "@ + crate::text::trim_seq(text@)));
                Some(m)
            } else {
                None
            };
            let normalized = NormalizedResponse::new();
            assert(sv(normalized.text@) =~= Seq::<Seq<char>>::empty());
            assert(sv(normalized.thinking@) =~= Seq::<Seq<char>>::empty());
            UpstreamResponse {
                status_code,
                response_headers,
                content_text: Some(text),
                raw_body: body,
                normalized,
                sse_events: Vec::new(),
                input_tokens: 0,
                output_tokens: 0,
                cache_creation_tokens: 0,
                cache_read_tokens: 0,
                stop_reason: None,
                message_id: None,
                model: None,
                duration_ms,
                ttft_ms: None,
                error,
            }
        },
        Some(j) => {
            let (input_tokens, output_tokens, codex_cached) = usage_from_json(j);
            let usage = get(j, "usage");
            let cache_creation_tokens = tokens_of(
                as_u64(get_in(usage, "cache_creation_input_tokens")),
            );
            let cache_read_tokens = match as_u64(get_in(usage, "cache_read_input_tokens")) {
                Some(n) => {
                    #[verifier::truncate]
                    let t = n as u32;
                    t
                },
                None => codex_cached,
            };
            let model = as_str(get(j, "model"));
            let stop_reason = as_str(get(j, "stop_reason"));
            let message_id = as_str(get(j, "id"));
            let normalized = normalize_response_body(protocol, j);
            let anthropic = match as_array(get(j, "content")) {
                Some(blocks) => nonempty_string(Some(block_texts_of(blocks))),
                None => None,
            };
            let content_text = match anthropic {
                Some(t) => Some(t),
                None => nonempty_string(Some(join_all(&normalized.text))),
            };
            let error = match as_str(get_in(get(j, "error"), "message")) {
                Some(m) => Some(m),
                None => if status_code >= 400 {
                    Some(http_message(status_code, " (no error detail)"))
                } else {
                    None
                },
            };
            UpstreamResponse {
                status_code,
                response_headers,
                content_text,
                raw_body: body,
                normalized,
                sse_events: Vec::new(),
                input_tokens,
                output_tokens,
                cache_creation_tokens,
                cache_read_tokens,
                stop_reason,
                message_id,
                model,
                duration_ms,
                ttft_ms: None,
                error,
            }
        },
    }
}

// ── Streaming responses ──

/// What a streamed response has told so far, as plain values.
pub struct StreamState {
    pub content: Seq<char>,
    pub text: Seq<Seq<char>>,
    pub thinking: Seq<Seq<char>>,
    pub input: u32,
    pub output: u32,
    pub cache_creation: u32,
    pub cache_read: u32,
    pub stop_reason: Option<Seq<char>>,
    pub message_id: Option<Seq<char>>,
    pub model: Option<Seq<char>>,
    pub error: Option<Seq<char>>,
}

/// A Responses-API stream event applied to the state (see `parse_codex_stream_event`).
pub open spec fn codex_event(s: StreamState, ev: JsonValue) -> StreamState {
    let t = json_str(json_get(ev, "type"@));
    if t == Some("response.output_text.delta"@) {
        StreamState { text: push_text(s.text, json_get(ev, "delta"@)), ..s }
    } else if t == Some("response.reasoning_summary_text.delta"@) {
        StreamState { thinking: push_text(s.thinking, json_get(ev, "delta"@)), ..s }
    } else if t == Some("response.completed"@) || t == Some("response.created"@) {
        let resp = event_response(ev);
        let u = spec_usage(resp);
        StreamState {
            input: max_u32(u.0, s.input),
            output: max_u32(u.1, s.output),
            cache_read: max_u32(u.2, s.cache_read),
            message_id: json_str(json_get(resp, "id"@)),
            model: json_str(json_get(resp, "model"@)),
            ..s
        }
    } else {
        s
    }
}

/// A count that replaces the current one when present.
pub open spec fn count_or(v: Option<u64>, current: u32) -> u32 {
    match v {
        Some(n) => n as u32,
        None => current,
    }
}

/// An Anthropic stream event applied to the state, by its `type`:
/// `message_start` sets the model, the message id and the input and cache
/// counts of `message.usage`; `message_delta` sets the output count and the
/// stop reason; `content_block_delta` appends `delta.text`; `error` takes
/// `error.message`.
pub open spec fn anthropic_event(s: StreamState, ev: JsonValue) -> StreamState {
    let t = json_str(json_get(ev, "type"@));
    if t == Some("message_start"@) {
        let m = json_get(ev, "message"@);
        let u = json_in(m, "usage"@);
        StreamState {
            model: json_str(json_in(m, "model"@)),
            message_id: json_str(json_in(m, "id"@)),
            input: count_or(json_u64(json_in(u, "input_tokens"@)), s.input),
            cache_creation: count_or(
                json_u64(json_in(u, "cache_creation_input_tokens"@)),
                s.cache_creation,
            ),
            cache_read: count_or(json_u64(json_in(u, "cache_read_input_tokens"@)), s.cache_read),
            ..s
        }
    } else if t == Some("message_delta"@) {
        StreamState {
            output: count_or(
                json_u64(json_in(json_get(ev, "usage"@), "output_tokens"@)),
                s.output,
            ),
            stop_reason: match json_str(json_in(json_get(ev, "delta"@), "stop_reason"@)) {
                Some(r) => Some(r),
                None => s.stop_reason,
            },
            ..s
        }
    } else if t == Some("content_block_delta"@) {
        match json_str(json_in(json_get(ev, "delta"@), "text"@)) {
            Some(x) => StreamState { content: s.content + x, text: s.text.push(x), ..s },
            None => s,
        }
    } else if t == Some("error"@) {
        match json_get(ev, "error"@) {
            Some(e) => StreamState { error: json_str(json_get(e, "message"@)), ..s },
            None => s,
        }
    } else {
        s
    }
}

/// One parsed stream event: the Responses-API reading first for Codex, then the
/// Anthropic reading.
pub open spec fn stream_step(s: StreamState, p: ApiProtocol, ev: JsonValue) -> StreamState {
    anthropic_event(
        if p == ApiProtocol::Codex {
            codex_event(s, ev)
        } else {
            s
        },
        ev,
    )
}

/// Collects the record of a streamed response, event by event.
#[derive(Debug)]
pub struct StreamCollector {
    content_text: String,
    normalized: NormalizedResponse,
    input_tokens: u32,
    output_tokens: u32,
    cache_creation_tokens: u32,
    cache_read_tokens: u32,
    stop_reason: Option<String>,
    message_id: Option<String>,
    model: Option<String>,
    error: Option<String>,
    sse_events: Vec<SseEvent>,
}

impl StreamCollector {
    /// The state collected so far.
    pub closed spec fn state(&self) -> StreamState {
        StreamState {
            content: self.content_text@,
            text: sv(self.normalized.text@),
            thinking: sv(self.normalized.thinking@),
            input: self.input_tokens,
            output: self.output_tokens,
            cache_creation: self.cache_creation_tokens,
            cache_read: self.cache_read_tokens,
            stop_reason: ov(self.stop_reason),
            message_id: ov(self.message_id),
            model: ov(self.model),
            error: ov(self.error),
        }
    }

    /// The events received so far.
    pub closed spec fn events(&self) -> Seq<SseEvent> {
        self.sse_events@
    }

    /// No tool calls or tool results are collected from a stream.
    pub closed spec fn well_formed(&self) -> bool {
        &&& self.normalized.tool_calls@.len() == 0
        &&& self.normalized.tool_results@.len() == 0
    }

    /// A collector that has seen nothing.
    pub fn new() -> (r: Self)
        ensures
            r.well_formed(),
            r.events().len() == 0,
            r.state() == (StreamState {
                content: Seq::empty(),
                text: Seq::empty(),
                thinking: Seq::empty(),
                input: 0,
                output: 0,
                cache_creation: 0,
                cache_read: 0,
                stop_reason: None,
                message_id: None,
                model: None,
                error: None,
            }),
    {
        let r = StreamCollector {
            content_text: String::new(),
            normalized: NormalizedResponse::new(),
            input_tokens: 0,
            output_tokens: 0,
            cache_creation_tokens: 0,
            cache_read_tokens: 0,
            stop_reason: None,
            message_id: None,
            model: None,
            error: None,
            sse_events: Vec::new(),
        };
        assert(r.state().text =~= Seq::<Seq<char>>::empty());
        assert(r.state().thinking =~= Seq::<Seq<char>>::empty());
        assert(r.state().content =~= Seq::<char>::empty());
        r
    }

    fn apply_anthropic(&mut self, ev: &JsonValue)
        requires
            old(self).well_formed(),
        ensures
            final(self).well_formed(),
            final(self).events() == old(self).events(),
            final(self).state() == anthropic_event(old(self).state(), *ev),
    {
        proof {
            reveal_strlit("message_start");
            reveal_strlit("message_delta");
            reveal_strlit("content_block_delta");
            reveal_strlit("error");
        }
        let t = as_str(get(ev, "type"));
        let k: String = match t {
            Some(x) => x,
            None => return,
        };
        if str_eq(k.as_str(), "message_start") {
            assert(k@[8] != "message_delta"@[8]);
            let m = get(ev, "message");
            let u = get_in(m, "usage");
            self.model = as_str(get_in(m, "model"));
            self.message_id = as_str(get_in(m, "id"));
            match as_u64(get_in(u, "input_tokens")) {
                Some(n) => {
                    #[verifier::truncate]
                    let v = n as u32;
                    self.input_tokens = v;
                },
                None => {},
            }
            match as_u64(get_in(u, "cache_creation_input_tokens")) {
                Some(n) => {
                    #[verifier::truncate]
                    let v = n as u32;
                    self.cache_creation_tokens = v;
                },
                None => {},
            }
            match as_u64(get_in(u, "cache_read_input_tokens")) {
                Some(n) => {
                    #[verifier::truncate]
                    let v = n as u32;
                    self.cache_read_tokens = v;
                },
                None => {},
            }
        } else if str_eq(k.as_str(), "message_delta") {
            match as_u64(get_in(get(ev, "usage"), "output_tokens")) {
                Some(n) => {
                    #[verifier::truncate]
                    let v = n as u32;
                    self.output_tokens = v;
                },
                None => {},
            }
            match as_str(get_in(get(ev, "delta"), "stop_reason")) {
                Some(r) => {
                    self.stop_reason = Some(r);
                },
                None => {},
            }
        } else if str_eq(k.as_str(), "content_block_delta") {
            assert(k@.len() != "error"@.len());
            match as_str(get_in(get(ev, "delta"), "text")) {
                Some(x) => {
                    crate::text::push_str(&mut self.content_text, x.as_str());
                    self.normalized.text.push(x);
                    assert(sv(self.normalized.text@) =~= sv(old(self).normalized.text@).push(
                        x@,
                    ));
                },
                None => {},
            }
        } else if str_eq(k.as_str(), "error") {
            match get(ev, "error") {
                Some(e) => {
                    self.error = as_str(get(e, "message"));
                },
                None => {},
            }
        }
    }

    /// Takes one event of the stream. `parsed` is its `data` parsed as JSON, when
    /// it has data and that data is JSON.
    pub fn on_event(&mut self, protocol: ApiProtocol, event: SseEvent, parsed: Option<&JsonValue>)
        requires
            old(self).well_formed(),
            event.data is None ==> parsed is None,
        ensures
            final(self).well_formed(),
            final(self).events() == old(self).events().push(event),
            final(self).state() == match parsed {
                Some(j) => stream_step(old(self).state(), protocol, *j),
                None => old(self).state(),
            },
    {
        self.sse_events.push(event);
        match parsed {
            Some(j) => {
                if protocol == ApiProtocol::Codex {
                    let ghost before = self.state();
                    parse_codex_stream_event(
                        j,
                        &mut self.normalized,
                        &mut self.input_tokens,
                        &mut self.output_tokens,
                        &mut self.cache_read_tokens,
                        &mut self.message_id,
                        &mut self.model,
                    );
                    proof {
                        reveal_strlit("response.output_text.delta");
                        reveal_strlit("response.reasoning_summary_text.delta");
                        reveal_strlit("response.completed");
                        reveal_strlit("response.created");
                        let t = json_str(json_get(*j, "type"@));
                        if t == Some("response.output_text.delta"@) {
                            assert(t->0.len() != "response.reasoning_summary_text.delta"@.len());
                        }
                        if t == Some("response.reasoning_summary_text.delta"@) {
                            assert(t->0.len() != "response.completed"@.len());
                        }
                        assert(self.state() == codex_event(before, *j));
                    }
                }
                self.apply_anthropic(j);
            },
            None => {},
        }
    }

    /// Records that the byte stream failed.
    pub fn on_stream_error(&mut self, reason: &str)
        requires
            old(self).well_formed(),
        ensures
            final(self).well_formed(),
            final(self).events() == old(self).events(),
            final(self).state() == (StreamState {
                error: Some("Stream error: "@ + reason@),
                ..old(self).state()
            }),
    {
        let mut e = owned("Stream error: ");
        crate::text::push_str(&mut e, reason);
        self.error = Some(e);
    }

    /// Records that the client went away while the stream was being forwarded.
    pub fn on_client_disconnect(&mut self)
        requires
            old(self).well_formed(),
        ensures
            final(self).well_formed(),
            final(self).events() == old(self).events(),
            final(self).state() == (StreamState {
                error: Some("client disconnected"@),
                ..old(self).state()
            }),
    {
        self.error = Some(owned("client disconnected"));
    }

    /// The record of the finished stream.
    pub fn finish(
        self,
        status_code: u16,
        response_headers: Vec<HeaderField>,
        raw_body: Vec<u8>,
        duration_ms: u64,
        ttft_ms: Option<u64>,
    ) -> (r: UpstreamResponse)
        requires
            self.well_formed(),
        ensures
            r.status_code == status_code,
            r.response_headers == response_headers,
            r.raw_body == raw_body,
            r.duration_ms == duration_ms,
            r.ttft_ms == ttft_ms,
            r.sse_events@ == self.events(),
            norm_is(r.normalized, (self.state().text, self.state().thinking, Seq::empty())),
            ov(r.content_text) == text_or_joined(self.state().content, self.state().text),
            r.input_tokens == self.state().input,
            r.output_tokens == self.state().output,
            r.cache_creation_tokens == self.state().cache_creation,
            r.cache_read_tokens == self.state().cache_read,
            ov(r.stop_reason) == self.state().stop_reason,
            ov(r.message_id) == self.state().message_id,
            ov(r.model) == self.state().model,
            ov(r.error) == self.state().error,
    {
        let content_text = if str_is_empty(self.content_text.as_str()) {
            nonempty_string(Some(join_all(&self.normalized.text)))
        } else {
            Some(self.content_text)
        };
        UpstreamResponse {
            status_code,
            response_headers,
            content_text,
            raw_body,
            normalized: self.normalized,
            sse_events: self.sse_events,
            input_tokens: self.input_tokens,
            output_tokens: self.output_tokens,
            cache_creation_tokens: self.cache_creation_tokens,
            cache_read_tokens: self.cache_read_tokens,
            stop_reason: self.stop_reason,
            message_id: self.message_id,
            model: self.model,
            duration_ms,
            ttft_ms,
            error: self.error,
        }
    }
}

/// The bytes of `effort-2025-11-24`.
pub open spec fn beta_bytes() -> Seq<u8> {
    seq![
        101u8, 102u8, 102u8, 111u8, 114u8, 116u8, 45u8, 50u8, 48u8, 50u8, 53u8, 45u8, 49u8, 49u8,
        45u8, 50u8, 52u8,
    ]
}

/// The value of the effort beta header.
pub fn beta_value() -> (r: Vec<u8>)
    ensures
        r@ == beta_bytes(),
{
    let r: Vec<u8> = vec![
        101u8, 102u8, 102u8, 111u8, 114u8, 116u8, 45u8, 50u8, 48u8, 50u8, 53u8, 45u8, 49u8, 49u8,
        45u8, 50u8, 52u8,
    ];
    assert(r@ =~= beta_bytes());
    r
}

/// Some header is named `k` with value `v`.
pub open spec fn has_header(hs: Seq<(Seq<char>, Seq<u8>)>, k: Seq<char>, v: Seq<u8>) -> bool {
    exists|i: int| 0 <= i < hs.len() && hs[i] == (k, v)
}

/// No header is named `k`.
pub open spec fn lacks_header(hs: Seq<(Seq<char>, Seq<u8>)>, k: Seq<char>) -> bool {
    forall|i: int| 0 <= i < hs.len() ==> (#[trigger] hs[i]).0 != k
}

proof fn lemma_put_has(hs: Seq<(Seq<char>, Seq<u8>)>, k: Seq<char>, v: Seq<u8>)
    ensures
        has_header(header_put(hs, k, v), k, v),
{
    let r = header_put(hs, k, v);
    if exists|i: int| is_first_header(hs, k, i) {
        let i = choose|i: int| is_first_header(hs, k, i);
        assert(r[i] == (k, v));
    } else {
        assert(r[hs.len() as int] == (k, v));
    }
}

proof fn lemma_put_keeps(hs: Seq<(Seq<char>, Seq<u8>)>, k: Seq<char>, v: Seq<u8>, k2: Seq<char>, v2: Seq<u8>)
    requires
        k != k2,
        has_header(hs, k2, v2),
    ensures
        has_header(header_put(hs, k, v), k2, v2),
{
    let r = header_put(hs, k, v);
    let j = choose|j: int| 0 <= j < hs.len() && hs[j] == (k2, v2);
    if exists|i: int| is_first_header(hs, k, i) {
        let i = choose|i: int| is_first_header(hs, k, i);
        assert(i != j);
        assert(r[j] == (k2, v2));
    } else {
        assert(r[j] == (k2, v2));
    }
}

proof fn lemma_put_lacks(hs: Seq<(Seq<char>, Seq<u8>)>, k: Seq<char>, v: Seq<u8>, k2: Seq<char>)
    requires
        k != k2,
        lacks_header(hs, k2),
    ensures
        lacks_header(header_put(hs, k, v), k2),
{
    let r = header_put(hs, k, v);
    if exists|i: int| is_first_header(hs, k, i) {
        let i = choose|i: int| is_first_header(hs, k, i);
        assert forall|j: int| 0 <= j < r.len() implies (#[trigger] r[j]).0 != k2 by {
            if j != i {
                assert(r[j] == hs[j]);
            }
        }
    } else {
        assert forall|j: int| 0 <= j < r.len() implies (#[trigger] r[j]).0 != k2 by {
            if j < hs.len() {
                assert(r[j] == hs[j]);
            }
        }
    }
}

proof fn lemma_forwarded_no_credentials(hs: Seq<HeaderField>)
    ensures
        lacks_header(forwarded(hs, true), "authorization"@),
        lacks_header(forwarded(hs, true), "x-api-key"@),
    decreases hs.len(),
{
    if hs.len() > 0 {
        lemma_forwarded_no_credentials(hs.drop_last());
        let prev = forwarded(hs.drop_last(), true);
        let h = hs.last();
        let k = crate::config::routing::lowercase(h.name@);
        if !(is_hop_name(k) || is_credential_name(k)) {
            lemma_put_lacks(prev, k, h.value@, "authorization"@);
            lemma_put_lacks(prev, k, h.value@, "x-api-key"@);
        }
    }
}

/// The provider token replaces the client's credentials: a token that begins
/// with `sk-` is sent as `authorization: Bearer <token>` and no `x-api-key`
/// goes out; any other token is sent as `x-api-key: <token>` and no
/// `authorization` goes out. `accept-encoding: identity` is always sent.
pub proof fn provider_token_is_the_only_credential(hs: Seq<HeaderField>, t: &str)
    ensures
        seq_starts_with(t@, "sk-"@) ==> has_header(
            spec_upstream_headers(hs, Some(t)),
            "authorization"@,
            bearer_prefix() + t.spec_bytes(),
        ) && lacks_header(spec_upstream_headers(hs, Some(t)), "x-api-key"@),
        !seq_starts_with(t@, "sk-"@) ==> has_header(
            spec_upstream_headers(hs, Some(t)),
            "x-api-key"@,
            t.spec_bytes(),
        ) && lacks_header(spec_upstream_headers(hs, Some(t)), "authorization"@),
        has_header(spec_upstream_headers(hs, Some(t)), "accept-encoding"@, identity_bytes()),
{
    reveal_strlit("authorization");
    reveal_strlit("x-api-key");
    reveal_strlit("accept-encoding");
    let fw = forwarded(hs, true);
    lemma_forwarded_no_credentials(hs);
    let ae = "accept-encoding"@;
    assert("authorization"@.len() != "x-api-key"@.len());
    assert(ae.len() != "x-api-key"@.len());
    assert(ae.len() != "authorization"@.len());
    if seq_starts_with(t@, "sk-"@) {
        let w = header_put(fw, "authorization"@, bearer_prefix() + t.spec_bytes());
        lemma_put_has(fw, "authorization"@, bearer_prefix() + t.spec_bytes());
        lemma_put_lacks(fw, "authorization"@, bearer_prefix() + t.spec_bytes(), "x-api-key"@);
        lemma_put_keeps(w, ae, identity_bytes(), "authorization"@, bearer_prefix() + t.spec_bytes());
        lemma_put_lacks(w, ae, identity_bytes(), "x-api-key"@);
        lemma_put_has(w, ae, identity_bytes());
    } else {
        let w = header_put(fw, "x-api-key"@, t.spec_bytes());
        lemma_put_has(fw, "x-api-key"@, t.spec_bytes());
        lemma_put_lacks(fw, "x-api-key"@, t.spec_bytes(), "authorization"@);
        lemma_put_keeps(w, ae, identity_bytes(), "x-api-key"@, t.spec_bytes());
        lemma_put_lacks(w, ae, identity_bytes(), "authorization"@);
        lemma_put_has(w, ae, identity_bytes());
    }
}

} // verus!
