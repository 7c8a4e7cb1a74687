//! Capture records: what is written for each proxied exchange when recording
//! is on.

use vstd::prelude::*;
use vstd::string::StringSliceAdditionalSpecFns;
use vstd::utf8::encode_utf8;

use super::relay::{is_cut_point, safe_truncate_bytes};
use crate::text::{decimal, owned, push_str, push_u64};

verus! {

/// Data for a proxied exchange to be recorded to capture files.
#[derive(Debug)]
pub struct ExchangeInfo {
    pub method: String,
    pub path: String,
    pub status_code: u16,
    pub request_body: String,
    pub response_body: String,
    pub duration_ms: u64,
}

/// Largest body, in bytes, written to a capture file.
pub const CAPTURE_LIMIT: usize = 1048576;

/// `r` is `value` cut at the last character boundary within the capture limit
/// and marked as truncated, or `value` itself when it fits.
pub open spec fn capture_text(value: Seq<char>, r: Seq<char>) -> bool {
    let b = encode_utf8(value);
    if b.len() <= CAPTURE_LIMIT {
        r == value
    } else {
        exists|h: Seq<char>|
            is_cut_point(b, CAPTURE_LIMIT as int, #[trigger] encode_utf8(h).len() as int)
                && encode_utf8(h) == b.take(encode_utf8(h).len() as int) && r == h
                + "\n[truncated]"@
    }
}

/// Truncates a body to the capture limit without splitting a character.
pub fn truncate_capture(value: &str) -> (r: String)
    ensures
        capture_text(value@, r@),
{
    let head = safe_truncate_bytes(value, CAPTURE_LIMIT);
    if value.as_bytes().len() <= CAPTURE_LIMIT {
        return owned(value);
    }
    let mut out = owned(head);
    push_str(&mut out, "\n[truncated]");
    assert(head.spec_bytes() == encode_utf8(head@));
    assert(out@ == head@ + "\n[truncated]"@);
    out
}

/// A session id character kept in capture file names.
pub open spec fn safe_id_char(c: char) -> bool {
    ('a' <= c && c <= 'z') || ('A' <= c && c <= 'Z') || ('0' <= c && c <= '9') || c == '-' || c
        == '_'
}

/// The session id as used in file names: its safe characters, at most 64.
pub open spec fn safe_session_id(sid: Seq<char>) -> Seq<char> {
    let kept = sid.filter(|c: char| safe_id_char(c));
    if kept.len() <= 64 {
        kept
    } else {
        kept.take(64)
    }
}

/// The name of the capture file of a session: `session_<safe id>.txt`.
pub fn capture_file_name(session_id: &str) -> (r: String)
    ensures
        r@ == "session_"@ + safe_session_id(session_id@) + ".txt"@,
{
    let v = crate::text::chars_of(session_id);
    let mut kept = String::new();
    let mut n: usize = 0;
    let mut i: usize = 0;
    while i < v.len()
        invariant
            i <= v.len(),
            v@ == session_id@,
            n <= 64,
            n == kept@.len(),
            kept@ == safe_session_id(v@.take(i as int)),
        decreases v.len() - i,
    {
        let c = v[i];
        proof {
            reveal_with_fuel(Seq::filter, 1);
            assert(v@.take(i + 1).drop_last() =~= v@.take(i as int));
        }
        let ghost prev = v@.take(i as int).filter(|c: char| safe_id_char(c));
        if ('a' <= c && c <= 'z') || ('A' <= c && c <= 'Z') || ('0' <= c && c <= '9') || c == '-'
            || c == '_' {
            assert(v@.take(i + 1).filter(|c: char| safe_id_char(c)) == prev.push(c));
            if n < 64 {
                crate::text::push_char(&mut kept, c);
                n += 1;
                assert(kept@ =~= safe_session_id(v@.take(i + 1)));
            } else {
                proof {
                    assert(prev.push(c).take(64) =~= prev.take(64));
                    if prev.len() <= 64 {
                        assert(prev.take(64) =~= prev);
                    }
                }
            }
        } else {
            assert(v@.take(i + 1).filter(|c: char| safe_id_char(c)) == prev);
        }
        i += 1;
    }
    assert(v@.take(i as int) =~= session_id@);
    let mut out = owned("session_");
    push_str(&mut out, kept.as_str());
    push_str(&mut out, ".txt");
    out
}

/// The text appended to a capture file for one exchange.
pub open spec fn capture_entry_text(
    timestamp: Seq<char>,
    info: ExchangeInfo,
    request: Seq<char>,
    response: Seq<char>,
) -> Seq<char> {
    "---\ntimestamp: "@ + timestamp + "\nmethod: "@ + info.method@ + "\npath: "@ + info.path@
        + "\nstatus: "@ + decimal(info.status_code as nat) + "\nduration_ms: "@ + decimal(
        info.duration_ms as nat,
    ) + "\n\n> REQUEST\n"@ + request + "\n\n> RESPONSE\n"@ + response + "\n"@
}

/// Formats the capture entry of an exchange; both bodies are truncated to the
/// capture limit.
pub fn capture_entry(timestamp: &str, info: &ExchangeInfo) -> (r: String)
    ensures
        exists|req: Seq<char>, resp: Seq<char>|
            capture_text(info.request_body@, req) && capture_text(
                info.response_body@,
                resp,
            ) && r@ == #[trigger] capture_entry_text(timestamp@, *info, req, resp),
{
    let request_body = truncate_capture(info.request_body.as_str());
    let response_body = truncate_capture(info.response_body.as_str());
    let mut out = owned("---\ntimestamp: ");
    push_str(&mut out, timestamp);
    push_str(&mut out, "\nmethod: ");
    push_str(&mut out, info.method.as_str());
    push_str(&mut out, "\npath: ");
    push_str(&mut out, info.path.as_str());
    push_str(&mut out, "\nstatus: ");
    push_u64(&mut out, info.status_code as u64);
    push_str(&mut out, "\nduration_ms: ");
    push_u64(&mut out, info.duration_ms);
    push_str(&mut out, "\n\n> REQUEST\n");
    push_str(&mut out, request_body.as_str());
    push_str(&mut out, "\n\n> RESPONSE\n");
    push_str(&mut out, response_body.as_str());
    push_str(&mut out, "\n");
    assert(out@ =~= capture_entry_text(timestamp@, *info, request_body@, response_body@));
    out
}

} // verus!
