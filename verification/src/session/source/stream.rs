//! Stateful streaming tool parser. A streamed tool-use block arrives as three
//! events: `content_block_start` (tool use id and name), `content_block_delta`
//! (partial input, keyed by block index) and `content_block_stop` (input
//! complete). The parser tracks in-flight blocks across events.

use vstd::prelude::*;

use super::now_millis;
use crate::json::{as_str, as_u64, get, get_in, json_get, json_in, json_str, json_u64, JsonValue};
use crate::session::observation::ObservationKind;
use crate::text::{owned, str_eq};

verus! {

/// An in-flight block: tool use id, tool name and the input received so far.
pub type Slot = Option<(Seq<char>, Seq<char>, Seq<char>)>;

/// The view of one block slot.
pub open spec fn slot_view(o: Option<(String, String, String)>) -> Slot {
    match o {
        Some(t) => Some((t.0@, t.1@, t.2@)),
        None => None,
    }
}

/// The block index an event names; 0 when it names none.
pub open spec fn event_index(parsed: JsonValue) -> usize {
    match json_u64(json_get(parsed, "index"@)) {
        Some(n) => n as usize,
        None => 0,
    }
}

fn index_of(parsed: &JsonValue) -> (r: usize)
    ensures
        r == event_index(*parsed),
{
    match as_u64(get(parsed, "index")) {
        Some(n) => {
            #[verifier::truncate]
            let i = n as usize;
            i
        },
        None => 0,
    }
}

/// The id and name of a tool-use block that an event starts, if it starts one.
pub open spec fn started_tool(parsed: JsonValue) -> Option<(Seq<char>, Seq<char>)> {
    let block = json_get(parsed, "content_block"@);
    if block is Some && json_str(json_in(block, "type"@)) == Some("tool_use"@) {
        match (json_str(json_in(block, "id"@)), json_str(json_in(block, "name"@))) {
            (Some(id), Some(name)) => Some((id, name)),
            _ => None,
        }
    } else {
        None
    }
}

/// `s` resized to `n` slots: cut, or padded with empty slots.
pub open spec fn resized(s: Seq<Slot>, n: int) -> Seq<Slot> {
    Seq::new(n as nat, |i: int| if i < s.len() { s[i] } else { None })
}

/// The event type.
pub open spec fn event_type(parsed: JsonValue) -> Option<Seq<char>> {
    json_str(json_get(parsed, "type"@))
}

/// Whether an event starts a tool-use block.
pub open spec fn is_tool_start(parsed: JsonValue) -> bool {
    event_type(parsed) == Some("content_block_start"@) && started_tool(parsed) is Some
}

/// `k` is the observation that a tool use `id` named `name` was emitted at `at`,
/// with the call id left empty for the caller to fill.
pub open spec fn is_emitted(k: ObservationKind, id: Seq<char>, name: Seq<char>, at: i64) -> bool {
    k matches ObservationKind::ToolEmitted { call_id, tool_use_id, tool_name, started_at }
        && call_id@.len() == 0 && tool_use_id@ == id && tool_name@ == name && started_at == at
}

/// `k` is the observation that the input of tool use `id` is `input`.
pub open spec fn is_input_complete(k: ObservationKind, id: Seq<char>, input: Seq<char>) -> bool {
    k matches ObservationKind::ToolInputComplete { tool_use_id, input_json } && tool_use_id@ == id
        && input_json@ == input
}

/// `k` is the observation that tool use `id` was abandoned.
pub open spec fn is_abandoned(k: ObservationKind, id: Seq<char>) -> bool {
    k matches ObservationKind::ToolResult {
        tool_use_id,
        raw_result_preview,
        effective_result_preview,
        status,
    } && tool_use_id@ == id && raw_result_preview is None && effective_result_preview is None
        && status@ == "abandoned"@
}

/// The slots and observations after one event, observed at time `now`:
/// a tool-use start opens its slot (resizing the slot list to just past it) and
/// is emitted; an `input_json_delta` appends to an open slot; a stop closes an
/// open slot and reports its input; anything else changes nothing.
pub open spec fn feed_result(
    old_slots: Seq<Slot>,
    parsed: JsonValue,
    now: i64,
    slots: Seq<Slot>,
    out: Seq<ObservationKind>,
) -> bool {
    let t = event_type(parsed);
    let idx = event_index(parsed) as int;
    if t == Some("content_block_start"@) {
        match started_tool(parsed) {
            Some((id, name)) => slots == resized(old_slots, idx + 1).update(
                idx,
                Some((id, name, Seq::empty())),
            ) && out.len() == 1 && is_emitted(out[0], id, name, now),
            None => slots == old_slots && out.len() == 0,
        }
    } else if t == Some("content_block_delta"@) {
        let delta = json_get(parsed, "delta"@);
        &&& out.len() == 0
        &&& if json_str(json_in(delta, "type"@)) == Some("input_json_delta"@) && idx
            < old_slots.len() && old_slots[idx] is Some && json_str(
            json_in(delta, "partial_json"@),
        ) is Some {
            let (a, b, acc) = old_slots[idx]->0;
            slots == old_slots.update(
                idx,
                Some((a, b, acc + json_str(json_in(delta, "partial_json"@))->0)),
            )
        } else {
            slots == old_slots
        }
    } else if t == Some("content_block_stop"@) {
        if idx < old_slots.len() && old_slots[idx] is Some {
            let (id, _, input) = old_slots[idx]->0;
            slots == old_slots.update(idx, None) && out.len() == 1 && is_input_complete(
                out[0],
                id,
                input,
            )
        } else {
            slots == old_slots && out.len() == 0
        }
    } else {
        slots == old_slots && out.len() == 0
    }
}

/// The ids of the open slots, in order.
pub open spec fn open_ids(slots: Seq<Slot>) -> Seq<Seq<char>>
    decreases slots.len(),
{
    if slots.len() == 0 {
        Seq::empty()
    } else {
        open_ids(slots.drop_last()) + match slots.last() {
            Some(t) => seq![t.0],
            None => Seq::empty(),
        }
    }
}

/// Tracks tool-use blocks currently streaming in a response.
#[derive(Debug)]
pub struct ToolStreamParser {
    blocks: Vec<Option<(String, String, String)>>,
}

impl ToolStreamParser {
    /// The in-flight blocks, by block index.
    pub closed spec fn slots(&self) -> Seq<Slot> {
        self.blocks@.map_values(|o: Option<(String, String, String)>| slot_view(o))
    }

    /// A parser with no block in flight.
    pub fn new() -> (r: Self)
        ensures
            r.slots().len() == 0,
    {
        ToolStreamParser { blocks: Vec::new() }
    }

    /// Feeds one parsed SSE event observed at time `now`; returns the
    /// observations it produces. Only the three tool-related event kinds have
    /// an effect.
    pub fn feed_at(&mut self, parsed: &JsonValue, now: i64) -> (r: Vec<ObservationKind>)
        requires
            is_tool_start(*parsed) ==> event_index(*parsed) < usize::MAX,
        ensures
            feed_result(old(self).slots(), *parsed, now, final(self).slots(), r@),
    {
        proof {
            reveal_strlit("content_block_start");
            reveal_strlit("content_block_delta");
            reveal_strlit("content_block_stop");
        }
        let t = match as_str(get(parsed, "type")) {
            Some(t) => t,
            None => return Vec::new(),
        };
        if str_eq(t.as_str(), "content_block_start") {
            assert(t@[14] != "content_block_delta"@[14]);
            self.on_block_start(parsed, now)
        } else if str_eq(t.as_str(), "content_block_delta") {
            assert(t@.len() != "content_block_stop"@.len());
            self.on_block_delta(parsed);
            Vec::new()
        } else if str_eq(t.as_str(), "content_block_stop") {
            self.on_block_stop(parsed)
        } else {
            Vec::new()
        }
    }

    /// Feeds one parsed SSE event, stamping emitted tools with the current time.
    pub fn feed(&mut self, parsed: &JsonValue) -> (r: Vec<ObservationKind>)
        requires
            is_tool_start(*parsed) ==> event_index(*parsed) < usize::MAX,
        ensures
            exists|now: i64| feed_result(old(self).slots(), *parsed, now, final(self).slots(), r@),
    {
        let now = now_millis();
        self.feed_at(parsed, now)
    }

    fn on_block_start(&mut self, parsed: &JsonValue, now: i64) -> (r: Vec<ObservationKind>)
        requires
            started_tool(*parsed) is Some ==> event_index(*parsed) < usize::MAX,
        ensures
            match started_tool(*parsed) {
                Some((id, name)) => final(self).slots() == resized(
                    old(self).slots(),
                    event_index(*parsed) + 1,
                ).update(event_index(*parsed) as int, Some((id, name, Seq::empty()))) && r@.len()
                    == 1 && is_emitted(r@[0], id, name, now),
                None => final(self).slots() == old(self).slots() && r@.len() == 0,
            },
    {
        proof {
            reveal_strlit("tool_use");
        }
        let block = get(parsed, "content_block");
        if block.is_none() {
            return Vec::new();
        }
        match as_str(get_in(block, "type")) {
            Some(ty) => {
                if !str_eq(ty.as_str(), "tool_use") {
                    return Vec::new();
                }
            },
            None => {
                return Vec::new();
            },
        }
        let (id, name) = match (as_str(get_in(block, "id")), as_str(get_in(block, "name"))) {
            (Some(a), Some(b)) => (a, b),
            _ => {
                return Vec::new();
            },
        };
        let index = index_of(parsed);
        let n = index + 1;
        let ghost olds = self.slots();
        self.blocks.truncate(n);
        assert(self.slots() =~= resized(olds, self.blocks@.len() as int));
        while self.blocks.len() < n
            invariant
                n == index + 1,
                self.blocks@.len() <= n,
                self.blocks@.len() < n ==> olds.len() <= self.blocks@.len(),
                self.slots() == resized(olds, self.blocks@.len() as int),
            decreases n - self.blocks@.len(),
        {
            let ghost pb = self.blocks@;
            let ghost ps = self.slots();
            self.blocks.push(None);
            assert(self.blocks@ == pb.push(None));
            assert forall|j: int| 0 <= j < self.blocks@.len() implies #[trigger] self.slots()[j]
                == resized(olds, self.blocks@.len() as int)[j] by {
                if j < pb.len() {
                    assert(self.blocks@[j] == pb[j]);
                    assert(ps[j] == resized(olds, pb.len() as int)[j]);
                    assert(ps[j] == slot_view(pb[j]));
                } else {
                    assert(self.slots()[j] == slot_view(None));
                }
            }
            assert(self.slots() =~= resized(olds, self.blocks@.len() as int));
        }
        let ghost before = self.slots();
        self.blocks.set(index, Some((id.clone(), name.clone(), String::new())));
        assert(self.slots() =~= before.update(index as int, Some((id@, name@, Seq::empty()))));
        let mut out: Vec<ObservationKind> = Vec::new();
        out.push(
            ObservationKind::ToolEmitted {
                call_id: String::new(),
                tool_use_id: id,
                tool_name: name,
                started_at: now,
            },
        );
        out
    }

    fn on_block_delta(&mut self, parsed: &JsonValue)
        ensures
            ({
                let delta = json_get(*parsed, "delta"@);
                let idx = event_index(*parsed) as int;
                let olds = old(self).slots();
                if json_str(json_in(delta, "type"@)) == Some("input_json_delta"@) && idx
                    < olds.len() && olds[idx] is Some && json_str(json_in(delta, "partial_json"@))
                    is Some {
                    let (a, b, acc) = olds[idx]->0;
                    final(self).slots() == olds.update(
                        idx,
                        Some((a, b, acc + json_str(json_in(delta, "partial_json"@))->0)),
                    )
                } else {
                    final(self).slots() == olds
                }
            }),
    {
        let delta = get(parsed, "delta");
        match as_str(get_in(delta, "type")) {
            Some(ty) => {
                if !str_eq(ty.as_str(), "input_json_delta") {
                    return;
                }
            },
            None => {
                return;
            },
        }
        let index = index_of(parsed);
        if index >= self.blocks.len() {
            return;
        }
        let partial = match as_str(get_in(delta, "partial_json")) {
            Some(p) => p,
            None => {
                return;
            },
        };
        let slot = match &self.blocks[index] {
            Some(t) => t,
            None => {
                return;
            },
        };
        let mut acc = slot.2.clone();
        crate::text::push_str(&mut acc, partial.as_str());
        let updated = Some((slot.0.clone(), slot.1.clone(), acc));
        let ghost olds = self.slots();
        self.blocks.set(index, updated);
        assert(self.slots() =~= olds.update(index as int, slot_view(updated)));
    }

    fn on_block_stop(&mut self, parsed: &JsonValue) -> (r: Vec<ObservationKind>)
        ensures
            ({
                let idx = event_index(*parsed) as int;
                let olds = old(self).slots();
                if idx < olds.len() && olds[idx] is Some {
                    let (id, _, input) = olds[idx]->0;
                    final(self).slots() == olds.update(idx, None) && r@.len() == 1
                        && is_input_complete(r@[0], id, input)
                } else {
                    final(self).slots() == olds && r@.len() == 0
                }
            }),
    {
        let index = index_of(parsed);
        if index >= self.blocks.len() {
            return Vec::new();
        }
        let (id, input) = match &self.blocks[index] {
            Some(t) => (t.0.clone(), t.2.clone()),
            None => {
                return Vec::new();
            },
        };
        let ghost olds = self.slots();
        self.blocks.set(index, None);
        assert(self.slots() =~= olds.update(index as int, None));
        let mut out: Vec<ObservationKind> = Vec::new();
        out.push(ObservationKind::ToolInputComplete { tool_use_id: id, input_json: input });
        out
    }

    /// Ends the stream: every block still in flight is reported abandoned, in
    /// block order, and the parser is left empty.
    pub fn finish(&mut self) -> (r: Vec<ObservationKind>)
        ensures
            final(self).slots().len() == 0,
            r@.len() == open_ids(old(self).slots()).len(),
            forall|i: int|
                0 <= i < r@.len() ==> is_abandoned(
                    #[trigger] r@[i],
                    open_ids(old(self).slots())[i],
                ),
    {
        let ghost olds = self.slots();
        let mut out: Vec<ObservationKind> = Vec::new();
        let mut i: usize = 0;
        while i < self.blocks.len()
            invariant
                i <= self.blocks@.len(),
                self.slots() == olds,
                out@.len() == open_ids(olds.take(i as int)).len(),
                forall|j: int|
                    0 <= j < out@.len() ==> is_abandoned(
                        #[trigger] out@[j],
                        open_ids(olds.take(i as int))[j],
                    ),
            decreases self.blocks@.len() - i,
        {
            assert(olds.take(i + 1).drop_last() =~= olds.take(i as int));
            assert(olds[i as int] == slot_view(self.blocks@[i as int]));
            match &self.blocks[i] {
                Some(t) => {
                    out.push(
                        ObservationKind::ToolResult {
                            tool_use_id: t.0.clone(),
                            raw_result_preview: None,
                            effective_result_preview: None,
                            status: owned("abandoned"),
                        },
                    );
                },
                None => {},
            }
            i += 1;
        }
        assert(olds.take(i as int) =~= olds);
        self.blocks = Vec::new();
        assert(self.slots() =~= Seq::<Slot>::empty());
        out
    }
}

} // verus!
