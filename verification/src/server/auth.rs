//! Dashboard authentication and WebSocket origin checks.

use vstd::prelude::*;

use crate::relay::upstream::{first_named, header_text, HeaderField};
use crate::text::{
    chars_of, cut_pos, is_cut, lemma_cut_unique, seq_starts_with, str_starts_with, sub_vec,
    trim_seq, trim_vec,
};

verus! {

/// The pieces of `s` between semicolons (`str::split(';')`).
pub open spec fn split_semis(s: Seq<char>) -> Seq<Seq<char>>
    decreases s.len(),
{
    let k = cut_pos(s, ';');
    if is_cut(s, ';', k) && k < s.len() {
        seq![s.take(k)] + split_semis(s.skip(k + 1))
    } else {
        seq![s]
    }
}

/// A cookie piece that carries the dashboard token.
pub open spec fn is_auth_cookie(piece: Seq<char>, token: Seq<char>) -> bool {
    trim_seq(piece) == "cc_proxy_auth="@ + token
}

/// Whether some piece of a cookie header carries the token.
pub open spec fn cookie_has_token(cookies: Seq<char>, token: Seq<char>) -> bool {
    exists|i: int|
        0 <= i < split_semis(cookies).len() && is_auth_cookie(
            #[trigger] split_semis(cookies)[i],
            token,
        )
}

/// Whether a request carries the dashboard token: an `authorization` header
/// that is exactly `Bearer <token>`, or a `cc_proxy_auth=<token>` cookie.
pub open spec fn spec_credentials_match(hs: Seq<HeaderField>, token: Seq<char>) -> bool {
    let bearer = match first_named(hs, "authorization"@) {
        Some(v) => header_text(v) == Some("Bearer "@ + token),
        None => false,
    };
    let cookie = match first_named(hs, "cookie"@) {
        Some(v) => match header_text(v) {
            Some(t) => cookie_has_token(t, token),
            None => false,
        },
        None => false,
    };
    bearer || cookie
}

fn first_value(headers: &Vec<HeaderField>, name: &str) -> (r: Option<String>)
    ensures
        crate::json::ov(r) == match first_named(headers@, name@) {
            Some(v) => header_text(v),
            None => None,
        },
{
    let mut i: usize = 0;
    assert(headers@.skip(0) =~= headers@);
    while i < headers.len()
        invariant
            i <= headers.len(),
            first_named(headers@, name@) == first_named(headers@.skip(i as int), name@),
        decreases headers.len() - i,
    {
        assert(headers@.skip(i as int).drop_first() =~= headers@.skip(i + 1));
        assert(headers@.skip(i as int)[0] == headers@[i as int]);
        let key = crate::config::routing::to_lowercase(headers[i].name.as_str());
        if crate::text::str_eq(key.as_str(), name) {
            return crate::relay::upstream::header_value_text(&headers[i].value);
        }
        i += 1;
    }
    None
}

fn piece_matches(v: &Vec<char>, a: usize, b: usize, expected: &Vec<char>) -> (r: bool)
    requires
        a <= b <= v@.len(),
    ensures
        r == (trim_seq(v@.subrange(a as int, b as int)) == expected@),
{
    let piece = sub_vec(v, a, b);
    let t = trim_vec(&piece);
    if t.len() != expected.len() {
        return false;
    }
    let mut i: usize = 0;
    while i < t.len()
        invariant
            i <= t@.len(),
            t@ == trim_seq(v@.subrange(a as int, b as int)),
            t@.len() == expected@.len(),
            forall|j: int| 0 <= j < i ==> t@[j] == expected@[j],
        decreases t@.len() - i,
    {
        if t[i] != expected[i] {
            assert(t@[i as int] != expected@[i as int]);
            return false;
        }
        i += 1;
    }
    assert(t@ =~= expected@);
    true
}

fn cookie_search(v: &Vec<char>, from: usize, expected: &Vec<char>, Ghost(token): Ghost<Seq<char>>) -> (r: bool)
    requires
        from <= v@.len(),
        expected@ == "cc_proxy_auth="@ + token,
    ensures
        r == cookie_has_token(v@.skip(from as int), token),
    decreases v@.len() - from,
{
    let s = Ghost(v@.skip(from as int));
    let mut k: usize = from;
    while k < v.len() && v[k] != ';'
        invariant
            from <= k <= v@.len(),
            forall|j: int| from <= j < k ==> v@[j] != ';',
        decreases v@.len() - k,
    {
        k += 1;
    }
    let ghost rel = (k - from) as int;
    proof {
        assert(is_cut(s@, ';', rel)) by {
            if rel < s@.len() {
                assert(s@[rel] == v@[k as int]);
            }
            assert forall|j: int| 0 <= j < rel implies s@[j] != ';' by {
                assert(s@[j] == v@[from + j]);
            }
        }
        lemma_cut_unique(s@, ';', rel);
        assert(s@.take(rel) =~= v@.subrange(from as int, k as int));
    }
    let here = piece_matches(v, from, k, expected);
    if k == v.len() {
        proof {
            assert(split_semis(s@) == seq![s@]);
            assert(s@ =~= v@.subrange(from as int, k as int));
            if cookie_has_token(s@, token) {
                let i = choose|i: int|
                    0 <= i < split_semis(s@).len() && is_auth_cookie(
                        #[trigger] split_semis(s@)[i],
                        token,
                    );
                assert(i == 0);
            }
            if here {
                assert(is_auth_cookie(split_semis(s@)[0], token));
            }
        }
        return here;
    }
    let rest = cookie_search(v, k + 1, expected, Ghost(token));
    proof {
        assert(s@.skip(rel + 1) =~= v@.skip(k + 1));
        let ps = split_semis(s@);
        let tail = split_semis(v@.skip(k + 1));
        assert(ps == seq![s@.take(rel)] + tail);
        if cookie_has_token(s@, token) {
            let i = choose|i: int| 0 <= i < ps.len() && is_auth_cookie(#[trigger] ps[i], token);
            if i > 0 {
                assert(ps[i] == tail[i - 1]);
                assert(cookie_has_token(v@.skip(k + 1), token));
            }
        }
        if here {
            assert(is_auth_cookie(ps[0], token));
        }
        if rest {
            let i = choose|i: int| 0 <= i < tail.len() && is_auth_cookie(#[trigger] tail[i], token);
            assert(ps[i + 1] == tail[i]);
        }
    }
    here || rest
}

/// Whether a request carries the dashboard token, as a bearer token or a cookie.
pub fn credentials_match(headers: &Vec<HeaderField>, token: &str) -> (b: bool)
    ensures
        b == spec_credentials_match(headers@, token@),
{
    let mut expected_bearer = crate::text::owned("Bearer ");
    crate::text::push_str(&mut expected_bearer, token);
    let bearer = match first_value(headers, "authorization") {
        Some(v) => crate::text::str_eq(v.as_str(), expected_bearer.as_str()),
        None => false,
    };
    let cookie = match first_value(headers, "cookie") {
        Some(c) => {
            let v = chars_of(c.as_str());
            let mut e = crate::text::owned("cc_proxy_auth=");
            crate::text::push_str(&mut e, token);
            let ev = chars_of(e.as_str());
            let r = cookie_search(&v, 0, &ev, Ghost(token@));
            assert(v@.skip(0) =~= c@);
            r
        },
        None => false,
    };
    bearer || cookie
}

/// `origin` names `host` itself: the host, then nothing, a `:port` or a `/` path.
pub open spec fn names_host(origin: Seq<char>, host: Seq<char>) -> bool {
    seq_starts_with(origin, host) && (origin.len() == host.len() || origin[host.len() as int] == ':'
        || origin[host.len() as int] == '/')
}

/// An origin served from this machine: `http://localhost` or `http://127.0.0.1`,
/// optionally followed by a port or a path.
pub open spec fn spec_loopback_origin(origin: Seq<char>) -> bool {
    names_host(origin, "http://localhost"@) || names_host(origin, "http://127.0.0.1"@)
}

fn names_host_exec(origin: &Vec<char>, host: &str) -> (b: bool)
    ensures
        b == names_host(origin@, host@),
{
    let h = chars_of(host);
    if !crate::text::starts_with_vec(origin, &h) {
        return false;
    }
    if origin.len() == h.len() {
        return true;
    }
    let c = origin[h.len()];
    c == ':' || c == '/'
}

/// Whether a WebSocket client may connect from `origin`: only pages served
/// from this machine, so a host that merely begins like a loopback name
/// (`http://localhost.example.com`) is refused.
pub fn is_allowed_origin(origin: &str) -> (b: bool)
    ensures
        b == spec_loopback_origin(origin@),
{
    let v = chars_of(origin);
    names_host_exec(&v, "http://localhost") || names_host_exec(&v, "http://127.0.0.1")
}


/// A listen address of this machine only.
pub open spec fn spec_is_loopback(addr: Seq<char>) -> bool {
    addr == "127.0.0.1"@ || addr == "::1"@ || addr == "localhost"@
}

/// Whether the server may listen on `addr`: a loopback address always, any
/// other only with a non-empty dashboard token.
pub fn listen_allowed(addr: &str, auth_token: &Option<String>) -> (b: bool)
    ensures
        b == (spec_is_loopback(addr@) || match auth_token {
            Some(t) => t@.len() > 0,
            None => false,
        }),
{
    if crate::text::str_eq(addr, "127.0.0.1") || crate::text::str_eq(addr, "::1") || crate::text::str_eq(addr, "localhost") {
        return true;
    }
    match auth_token {
        Some(t) => !crate::text::str_is_empty(t.as_str()),
        None => false,
    }
}

/// What the dashboard does with a request.
#[derive(Debug)]
pub enum AuthDecision {
    /// Serve it, setting the token cookie when one is given.
    Pass { set_cookie: Option<String> },
    /// Refuse it with `401 {"error": "unauthorized"}`.
    Unauthorized,
}

/// A control-plane path: the API and the WebSocket.
pub open spec fn is_control_path(path: Seq<char>) -> bool {
    seq_starts_with(path, "/api/"@) || path == "/ws"@
}

/// A page load: a `GET` whose `sec-fetch-dest` is absent, unreadable or `document`.
pub open spec fn is_document_load(is_get: bool, hs: Seq<HeaderField>) -> bool {
    is_get && match first_named(hs, "sec-fetch-dest"@) {
        Some(v) => match header_text(v) {
            Some(t) => t == "document"@,
            None => true,
        },
        None => true,
    }
}

/// The dashboard cookie that carries the token.
pub open spec fn auth_cookie(token: Seq<char>) -> Seq<char> {
    "cc_proxy_auth="@ + token + "; HttpOnly; SameSite=Strict; Path=/"@
}

/// How the dashboard treats a request. Control-plane requests need the token
/// (as a bearer token or cookie) when a non-empty one is configured; other
/// requests are served, and a page load gets the token cookie.
pub fn auth_decision(path: &str, is_get: bool, headers: &Vec<HeaderField>, auth_token: &Option<String>) -> (r: AuthDecision)
    ensures
        !is_control_path(path@) ==> match r {
            AuthDecision::Pass { set_cookie } => crate::json::ov(set_cookie) == (match auth_token {
                Some(t) => if is_document_load(is_get, headers@) && t@.len() > 0 {
                    Some(auth_cookie(t@))
                } else {
                    None
                },
                None => None,
            }),
            AuthDecision::Unauthorized => false,
        },
        is_control_path(path@) ==> match r {
            AuthDecision::Pass { set_cookie } => set_cookie.is_none() && match auth_token {
                Some(t) => t@.len() == 0 || spec_credentials_match(headers@, t@),
                None => true,
            },
            AuthDecision::Unauthorized => match auth_token {
                Some(t) => t@.len() > 0 && !spec_credentials_match(headers@, t@),
                None => false,
            },
        },
{
    let is_control = str_starts_with(path, "/api/") || crate::text::str_eq(path, "/ws");
    if !is_control {
        let is_document = is_get && match first_value(headers, "sec-fetch-dest") {
            Some(d) => crate::text::str_eq(d.as_str(), "document"),
            None => true,
        };
        proof {
            assert(is_document == is_document_load(is_get, headers@));
        }
        let set_cookie = match auth_token {
            Some(t) => if is_document && !crate::text::str_is_empty(t.as_str()) {
                let mut c = crate::text::owned("cc_proxy_auth=");
                crate::text::push_str(&mut c, t.as_str());
                crate::text::push_str(&mut c, "; HttpOnly; SameSite=Strict; Path=/");
                assert(c@ =~= auth_cookie(t@));
                Some(c)
            } else {
                None
            },
            None => None,
        };
        return AuthDecision::Pass { set_cookie };
    }
    match auth_token {
        Some(t) => {
            if crate::text::str_is_empty(t.as_str()) {
                AuthDecision::Pass { set_cookie: None }
            } else if !credentials_match(headers, t.as_str()) {
                AuthDecision::Unauthorized
            } else {
                AuthDecision::Pass { set_cookie: None }
            }
        },
        None => AuthDecision::Pass { set_cookie: None },
    }
}

} // verus!
