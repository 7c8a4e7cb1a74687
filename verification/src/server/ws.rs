//! The dashboard WebSocket: which clients may connect, and how a connection
//! reacts to its timer, its peer and the event bus.

use vstd::prelude::*;

use crate::relay::upstream::{first_named, header_text, HeaderField};
use crate::server::auth::{is_allowed_origin, spec_loopback_origin};

verus! {

/// Seconds between pings.
pub const PING_INTERVAL_SECS: u64 = 10;

/// Seconds without a pong after which a connection is dropped.
pub const DEAD_TIMEOUT_SECS: u64 = 300;

/// A connection may be opened unless it names an origin, readable as text,
/// that is not served from this machine.
pub fn ws_origin_allowed(headers: &Vec<HeaderField>) -> (b: bool)
    ensures
        b == match first_named(headers@, "origin"@) {
            Some(v) => match header_text(v) {
                Some(o) => spec_loopback_origin(o),
                None => true,
            },
            None => true,
        },
{
    let mut i: usize = 0;
    assert(headers@.skip(0) =~= headers@);
    while i < headers.len()
        invariant
            i <= headers@.len(),
            first_named(headers@, "origin"@) == first_named(headers@.skip(i as int), "origin"@),
        decreases headers@.len() - i,
    {
        let name = crate::config::routing::to_lowercase(headers[i].name.as_str());
        proof {
            assert(headers@.skip(i as int)[0] == headers@[i as int]);
            assert(headers@.skip(i as int).drop_first() =~= headers@.skip(i + 1));
        }
        if crate::text::str_eq(name.as_str(), "origin") {
            return match crate::relay::upstream::header_value_text(&headers[i].value) {
                Some(o) => is_allowed_origin(o.as_str()),
                None => true,
            };
        }
        i += 1;
    }
    proof {
        assert(headers@.skip(i as int).len() == 0);
    }
    true
}

/// How long a connection has gone without a pong, as far as it has warned about it.
#[derive(Debug, Clone, Copy, PartialEq, Eq, Structural)]
pub struct WsLiveness {
    /// 0 when a pong came recently; 1, 2 or 3 once 200, 220 or 240 seconds passed.
    pub last_warned: u8,
}

/// Something that happened to a connection.
#[derive(Debug, Clone, Copy, PartialEq, Eq, Structural)]
pub enum WsEvent {
    /// The ping timer fired this many seconds after the last pong.
    Tick { since_pong_secs: u64 },
    /// The peer answered a ping.
    Pong,
    /// The peer pinged.
    Ping,
    /// The peer closed, or the stream ended.
    Closed,
    /// The event bus delivered a message.
    Broadcast,
    /// The connection fell behind the event bus.
    Lagged,
    /// The event bus is gone.
    BusClosed,
    /// Any other frame from the peer.
    Other,
}

/// What a connection does next.
#[derive(Debug, Clone, Copy, PartialEq, Eq, Structural)]
pub enum WsAction {
    /// Send a ping, after logging a warning when `warn`.
    Ping { warn: bool },
    /// Close the connection, after logging a warning when `warn`.
    Stop { warn: bool },
    /// Answer the peer's ping.
    Pong,
    /// Forward the bus message to the peer.
    Forward,
    /// Tell the peer to reload everything.
    Resync,
    /// Nothing.
    Nothing,
}

/// The warning level after a tick `elapsed` seconds after the last pong.
pub open spec fn warned_after(level: u8, elapsed: u64) -> u8 {
    if elapsed > 240 && level < 3 {
        3
    } else if elapsed > 220 && level < 2 {
        2
    } else if elapsed > 200 && level < 1 {
        1
    } else {
        level
    }
}

/// A connection's next state and action for an event.
pub open spec fn spec_ws_step(s: WsLiveness, e: WsEvent) -> (WsLiveness, WsAction) {
    match e {
        WsEvent::Tick { since_pong_secs } => {
            let warn = since_pong_secs > 240 && s.last_warned < 3;
            let next = WsLiveness { last_warned: warned_after(s.last_warned, since_pong_secs) };
            if since_pong_secs > DEAD_TIMEOUT_SECS {
                (next, WsAction::Stop { warn })
            } else {
                (next, WsAction::Ping { warn })
            }
        },
        WsEvent::Pong => (WsLiveness { last_warned: 0 }, WsAction::Nothing),
        WsEvent::Ping => (s, WsAction::Pong),
        WsEvent::Closed => (s, WsAction::Stop { warn: false }),
        WsEvent::Broadcast => (s, WsAction::Forward),
        WsEvent::Lagged => (s, WsAction::Resync),
        WsEvent::BusClosed => (s, WsAction::Stop { warn: false }),
        WsEvent::Other => (s, WsAction::Nothing),
    }
}

/// Advances a connection by one event and says what it does.
pub fn ws_step(state: &mut WsLiveness, event: WsEvent) -> (a: WsAction)
    ensures
        (*final(state), a) == spec_ws_step(*old(state), event),
{
    match event {
        WsEvent::Tick { since_pong_secs } => {
            let warn = since_pong_secs > 240 && state.last_warned < 3;
            if since_pong_secs > 240 && state.last_warned < 3 {
                state.last_warned = 3;
            } else if since_pong_secs > 220 && state.last_warned < 2 {
                state.last_warned = 2;
            } else if since_pong_secs > 200 && state.last_warned < 1 {
                state.last_warned = 1;
            }
            if since_pong_secs > DEAD_TIMEOUT_SECS {
                WsAction::Stop { warn }
            } else {
                WsAction::Ping { warn }
            }
        },
        WsEvent::Pong => {
            state.last_warned = 0;
            WsAction::Nothing
        },
        WsEvent::Ping => WsAction::Pong,
        WsEvent::Closed => WsAction::Stop { warn: false },
        WsEvent::Broadcast => WsAction::Forward,
        WsEvent::Lagged => WsAction::Resync,
        WsEvent::BusClosed => WsAction::Stop { warn: false },
        WsEvent::Other => WsAction::Nothing,
    }
}

/// A connection warns at most once between pongs: once a tick has warned,
/// later ticks do not, until a pong resets the level.
pub proof fn ws_warns_once_per_silence(s: WsLiveness, e1: u64, e2: u64)
    requires
        spec_ws_step(s, WsEvent::Tick { since_pong_secs: e1 }).1 matches WsAction::Ping { warn: true },
    ensures
        !(spec_ws_step(
            spec_ws_step(s, WsEvent::Tick { since_pong_secs: e1 }).0,
            WsEvent::Tick { since_pong_secs: e2 },
        ).1 matches WsAction::Ping { warn: true }),
        !(spec_ws_step(
            spec_ws_step(s, WsEvent::Tick { since_pong_secs: e1 }).0,
            WsEvent::Tick { since_pong_secs: e2 },
        ).1 matches WsAction::Stop { warn: true }),
{
}

} // verus!
