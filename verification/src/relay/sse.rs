//! Server-Sent Events framing.

use vstd::prelude::*;
use vstd::utf8::{decode_utf8, valid_utf8};

use crate::text::{
    chars_of, seq_starts_with, starts_with_vec, string_of, sub_vec, trim_seq, trim_vec,
};

verus! {

/// One SSE event: its `event:` type and its `data:` payload.
#[derive(Debug)]
pub struct SseEvent {
    pub event_type: Option<String>,
    pub data: Option<String>,
}

/// The view of an event: its type and data as text.
pub open spec fn event_view(e: SseEvent) -> (Option<Seq<char>>, Option<Seq<char>>) {
    (crate::text::opt_view(e.event_type), crate::text::opt_view(e.data))
}

/// Largest number of bytes held while waiting for the end of an event.
pub const MAX_SSE_EVENT_BYTES: usize = 1048576;

/// Text decoded from bytes, with invalid sequences replaced by U+FFFD
/// (`String::from_utf8_lossy`).
pub uninterp spec fn utf8_lossy(b: Seq<u8>) -> Seq<char>;

/// Decodes bytes as UTF-8, replacing invalid sequences.
///
/// Trusted: calls `String::from_utf8_lossy`. Its result depends on the bytes alone
/// (named `utf8_lossy`); its documentation states that valid UTF-8 is decoded
/// unchanged, which is the second clause, and that each invalid sequence becomes
/// a replacement character, so bytes never decode to empty text. How invalid
/// sequences are replaced is left unsaid beyond that.
#[verifier::external_body]
pub(crate) fn decode_lossy(b: &[u8]) -> (r: String)
    ensures
        r@ == utf8_lossy(b@),
        valid_utf8(b@) ==> r@ == decode_utf8(b@),
        b@.len() > 0 ==> r@.len() > 0,
{
    String::from_utf8_lossy(b).into_owned()
}

/// The two-byte event delimiter `\n\n`.
pub open spec fn lf_lf() -> Seq<u8> {
    seq![10u8, 10u8]
}

/// The four-byte event delimiter `\r\n\r\n`.
pub open spec fn crlf_crlf() -> Seq<u8> {
    seq![13u8, 10u8, 13u8, 10u8]
}

/// `d` occurs in `buf` at position `i`.
pub open spec fn delim_at(buf: Seq<u8>, d: Seq<u8>, i: int) -> bool {
    0 <= i && i + d.len() <= buf.len() && buf.subrange(i, i + d.len()) == d
}

/// `i` is the first position of `d` in `buf`.
pub open spec fn is_first_delim(buf: Seq<u8>, d: Seq<u8>, i: int) -> bool {
    delim_at(buf, d, i) && forall|j: int| 0 <= j < i ==> !delim_at(buf, d, j)
}

/// The first position of `d` in `buf`.
pub open spec fn find_delim(buf: Seq<u8>, d: Seq<u8>) -> Option<int> {
    if exists|i: int| is_first_delim(buf, d, i) {
        Some(choose|i: int| is_first_delim(buf, d, i))
    } else {
        None
    }
}

/// Cuts `buf` into the blocks that end with `d` (delimiter included) and the
/// remainder after the last one.
pub open spec fn split_blocks(buf: Seq<u8>, d: Seq<u8>) -> (Seq<Seq<u8>>, Seq<u8>)
    decreases buf.len(),
{
    if d.len() == 0 {
        (seq![], buf)
    } else {
        match find_delim(buf, d) {
            Some(i) => {
                if 0 <= i && i + d.len() <= buf.len() {
                    let e = i + d.len();
                    let rest = split_blocks(buf.skip(e), d);
                    (seq![buf.take(e)] + rest.0, rest.1)
                } else {
                    (seq![], buf)
                }
            },
            None => (seq![], buf),
        }
    }
}

/// `i` is the first position of `c` in `s`.
pub open spec fn is_first_char(s: Seq<char>, c: char, i: int) -> bool {
    0 <= i < s.len() && s[i] == c && forall|j: int| 0 <= j < i ==> s[j] != c
}

pub open spec fn find_char(s: Seq<char>, c: char) -> Option<int> {
    if exists|i: int| is_first_char(s, c, i) {
        Some(choose|i: int| is_first_char(s, c, i))
    } else {
        None
    }
}

/// The pieces of `s` between newline characters; no trailing empty piece.
pub open spec fn split_lines(s: Seq<char>) -> Seq<Seq<char>>
    decreases s.len(),
{
    if s.len() == 0 {
        seq![]
    } else {
        match find_char(s, '\n') {
            Some(i) => if 0 <= i < s.len() {
                seq![s.take(i)] + split_lines(s.skip(i + 1))
            } else {
                seq![s]
            },
            None => seq![s],
        }
    }
}

/// The trimmed value of a `name:` line.
pub open spec fn field_value(line: Seq<char>, prefix: Seq<char>) -> Option<Seq<char>> {
    if seq_starts_with(line, prefix) {
        Some(trim_seq(line.skip(prefix.len() as int)))
    } else {
        None
    }
}

/// The value of the last line of the block carrying the field.
pub open spec fn last_field(lines: Seq<Seq<char>>, prefix: Seq<char>) -> Option<Seq<char>>
    decreases lines.len(),
{
    if lines.len() == 0 {
        None
    } else {
        match field_value(lines.last(), prefix) {
            Some(v) => Some(v),
            None => last_field(lines.drop_last(), prefix),
        }
    }
}

/// The event a raw block describes: its last `event:` and last `data:` values,
/// or nothing when it has neither.
pub open spec fn block_event(raw: Seq<u8>) -> Option<(Option<Seq<char>>, Option<Seq<char>>)> {
    let lines = split_lines(utf8_lossy(raw));
    let ev = last_field(lines, "event:"@);
    let data = last_field(lines, "data:"@);
    if ev.is_some() || data.is_some() {
        Some((ev, data))
    } else {
        None
    }
}

/// The events of a list of blocks, skipping blocks that describe none.
pub open spec fn events_of(blocks: Seq<Seq<u8>>) -> Seq<(Option<Seq<char>>, Option<Seq<char>>)>
    decreases blocks.len(),
{
    if blocks.len() == 0 {
        seq![]
    } else {
        match block_event(blocks[0]) {
            Some(e) => seq![e] + events_of(blocks.drop_first()),
            None => events_of(blocks.drop_first()),
        }
    }
}

/// The views of a list of events.
pub open spec fn events_view(v: Seq<SseEvent>) -> Seq<(Option<Seq<char>>, Option<Seq<char>>)> {
    v.map_values(|e: SseEvent| event_view(e))
}

proof fn lemma_last_field_push(ls: Seq<Seq<char>>, l: Seq<char>, p: Seq<char>)
    ensures
        last_field(ls.push(l), p) == match field_value(l, p) {
            Some(v) => Some(v),
            None => last_field(ls, p),
        },
{
    assert(ls.push(l).drop_last() =~= ls);
}

proof fn lemma_find_char_skip(s: Seq<char>, start: int, i: int)
    requires
        0 <= start <= i < s.len(),
        s[i] == '\n',
        forall|j: int| start <= j < i ==> s[j] != '\n',
    ensures
        find_char(s.skip(start), '\n') == Some(i - start),
{
    let t = s.skip(start);
    assert(is_first_char(t, '\n', i - start));
    let c = choose|c: int| is_first_char(t, '\n', c);
    assert(is_first_char(t, '\n', c));
    if c < i - start {
        assert(t[c] == s[c + start]);
    } else if c > i - start {
        assert(t[i - start] == '\n');
    }
}

proof fn lemma_find_char_none(s: Seq<char>, start: int)
    requires
        0 <= start <= s.len(),
        forall|j: int| start <= j < s.len() ==> s[j] != '\n',
    ensures
        find_char(s.skip(start), '\n').is_none(),
{
    let t = s.skip(start);
    assert forall|c: int| !is_first_char(t, '\n', c) by {
        if 0 <= c < t.len() {
            assert(t[c] == s[c + start]);
        }
    }
}

fn field_of(line: &Vec<char>, prefix: &Vec<char>) -> (r: Option<Vec<char>>)
    ensures
        match r {
            Some(v) => field_value(line@, prefix@) == Some(v@),
            None => field_value(line@, prefix@).is_none(),
        },
{
    if starts_with_vec(line, prefix) {
        let rest = sub_vec(line, prefix.len(), line.len());
        assert(rest@ =~= line@.skip(prefix.len() as int));
        Some(trim_vec(&rest))
    } else {
        None
    }
}

/// Parses one raw event block: the last `event:` and `data:` lines give the
/// event's type and data (values trimmed); a block with neither gives nothing.
pub fn parse_event_block(raw: &[u8]) -> (r: Option<SseEvent>)
    ensures
        match r {
            Some(e) => block_event(raw@) == Some(event_view(e)),
            None => block_event(raw@).is_none(),
        },
{
    let text = decode_lossy(raw);
    let t = chars_of(text.as_str());
    let ev_p = chars_of("event:");
    let data_p = chars_of("data:");
    let mut ev: Option<Vec<char>> = None;
    let mut data: Option<Vec<char>> = None;
    let ghost mut done: Seq<Seq<char>> = seq![];
    let mut start: usize = 0;
    let mut i: usize = 0;
    assert(t@.skip(0) =~= t@);
    assert(done + split_lines(t@) =~= split_lines(t@));
    while i < t.len()
        invariant
            t@ == utf8_lossy(raw@),
            ev_p@ == "event:"@,
            data_p@ == "data:"@,
            start <= i <= t.len(),
            forall|j: int| start <= j < i ==> t@[j] != '\n',
            split_lines(t@) == done + split_lines(t@.skip(start as int)),
            match ev {
                Some(v) => last_field(done, "event:"@) == Some(v@),
                None => last_field(done, "event:"@).is_none(),
            },
            match data {
                Some(v) => last_field(done, "data:"@) == Some(v@),
                None => last_field(done, "data:"@).is_none(),
            },
        decreases t.len() - i,
    {
        if t[i] == '\n' {
            let line = sub_vec(&t, start, i);
            proof {
                lemma_find_char_skip(t@, start as int, i as int);
                let s = t@.skip(start as int);
                assert(s.take(i - start) =~= line@);
                assert(s.skip(i - start + 1) =~= t@.skip(i + 1));
                assert(split_lines(s) == seq![line@] + split_lines(t@.skip(i + 1)));
                assert(done + split_lines(s) =~= done.push(line@) + split_lines(t@.skip(i + 1)));
                lemma_last_field_push(done, line@, "event:"@);
                lemma_last_field_push(done, line@, "data:"@);
                done = done.push(line@);
            }
            if let Some(v) = field_of(&line, &ev_p) {
                ev = Some(v);
            }
            if let Some(v) = field_of(&line, &data_p) {
                data = Some(v);
            }
            start = i + 1;
        }
        i += 1;
    }
    if start < t.len() {
        let line = sub_vec(&t, start, t.len());
        proof {
            lemma_find_char_none(t@, start as int);
            let s = t@.skip(start as int);
            assert(s =~= line@);
            assert(split_lines(s) == seq![line@]);
            lemma_last_field_push(done, line@, "event:"@);
            lemma_last_field_push(done, line@, "data:"@);
            done = done.push(line@);
        }
        if let Some(v) = field_of(&line, &ev_p) {
            ev = Some(v);
        }
        if let Some(v) = field_of(&line, &data_p) {
            data = Some(v);
        }
    } else {
        proof {
            assert(t@.skip(start as int).len() == 0);
            assert(done + split_lines(t@.skip(start as int)) =~= done);
        }
    }
    proof {
        assert(split_lines(t@) == done);
    }
    match (ev, data) {
        (None, None) => None,
        (e, d) => {
            let event_type = match e {
                Some(v) => Some(string_of(&v)),
                None => None,
            };
            let data = match d {
                Some(v) => Some(string_of(&v)),
                None => None,
            };
            Some(SseEvent { event_type, data })
        },
    }
}


proof fn lemma_delim_skip(buf: Seq<u8>, d: Seq<u8>, start: int, j: int)
    requires
        0 <= start <= buf.len(),
        0 <= j,
    ensures
        delim_at(buf.skip(start), d, j) == delim_at(buf, d, j + start),
{
    if j + d.len() <= buf.len() - start {
        assert(buf.skip(start).subrange(j, j + d.len()) =~= buf.subrange(j + start, j + start + d.len()));
    }
}

proof fn lemma_find_delim_skip(buf: Seq<u8>, d: Seq<u8>, start: int, p: int)
    requires
        0 <= start <= p,
        delim_at(buf, d, p),
        forall|j: int| start <= j < p ==> !delim_at(buf, d, j),
    ensures
        find_delim(buf.skip(start), d) == Some(p - start),
{
    let t = buf.skip(start);
    lemma_delim_skip(buf, d, start, p - start);
    assert forall|j: int| 0 <= j < p - start implies !delim_at(t, d, j) by {
        lemma_delim_skip(buf, d, start, j);
    }
    assert(is_first_delim(t, d, p - start));
    let c = choose|c: int| is_first_delim(t, d, c);
    assert(is_first_delim(t, d, c));
    if c < p - start {
        assert(!delim_at(t, d, c));
    } else if c > p - start {
        assert(delim_at(t, d, p - start));
    }
}

proof fn lemma_find_delim_none(buf: Seq<u8>, d: Seq<u8>, start: int)
    requires
        0 <= start <= buf.len(),
        forall|j: int| start <= j ==> !delim_at(buf, d, j),
    ensures
        find_delim(buf.skip(start), d).is_none(),
{
    let t = buf.skip(start);
    assert forall|c: int| !is_first_delim(t, d, c) by {
        if 0 <= c {
            lemma_delim_skip(buf, d, start, c);
        }
    }
}

fn delim_at_exec(buf: &Vec<u8>, d: &Vec<u8>, i: usize) -> (b: bool)
    ensures
        b == delim_at(buf@, d@, i as int),
{
    if i > buf.len() || d.len() > buf.len() - i {
        return false;
    }
    let mut k: usize = 0;
    while k < d.len()
        invariant
            i + d.len() <= buf.len(),
            k <= d.len(),
            forall|j: int| 0 <= j < k ==> buf@[i + j] == d@[j],
        decreases d.len() - k,
    {
        if buf[i + k] != d[k] {
            assert(buf@.subrange(i as int, i + d.len())[k as int] != d@[k as int]);
            return false;
        }
        k += 1;
    }
    assert(buf@.subrange(i as int, i + d.len()) =~= d@);
    true
}

/// The first position `>= start` where `d` occurs.
fn find_from(buf: &Vec<u8>, start: usize, d: &Vec<u8>) -> (r: Option<usize>)
    requires
        start <= buf.len(),
        d@.len() > 0,
    ensures
        match r {
            Some(p) => start <= p && delim_at(buf@, d@, p as int) && forall|j: int|
                start <= j < p ==> !delim_at(buf@, d@, j),
            None => forall|j: int| start <= j ==> !delim_at(buf@, d@, j),
        },
{
    let mut i: usize = start;
    while i < buf.len()
        invariant
            start <= i <= buf.len(),
            forall|j: int| start <= j < i ==> !delim_at(buf@, d@, j),
        decreases buf.len() - i,
    {
        if delim_at_exec(buf, d, i) {
            return Some(i);
        }
        i += 1;
    }
    assert forall|j: int| start <= j implies !delim_at(buf@, d@, j) by {
        if j >= i {
        }
    }
    None
}

proof fn lemma_events_cons(b: Seq<u8>, rest: Seq<Seq<u8>>)
    ensures
        events_of(seq![b] + rest) == match block_event(b) {
            Some(e) => seq![e] + events_of(rest),
            None => events_of(rest),
        },
{
    assert((seq![b] + rest)[0] == b);
    assert((seq![b] + rest).drop_first() =~= rest);
}

proof fn lemma_events_view_push(v: Seq<SseEvent>, e: SseEvent)
    ensures
        events_view(v.push(e)) == events_view(v).push(event_view(e)),
{
    assert(events_view(v.push(e)) =~= events_view(v).push(event_view(e)));
}

/// Cuts `buf` at each occurrence of `d`, parsing every complete block.
fn drain_blocks(buf: &Vec<u8>, d: &Vec<u8>) -> (r: (Vec<SseEvent>, Vec<u8>))
    requires
        d@.len() > 0,
    ensures
        events_view(r.0@) == events_of(split_blocks(buf@, d@).0),
        r.1@ == split_blocks(buf@, d@).1,
{
    let mut out: Vec<SseEvent> = Vec::new();
    let mut start: usize = 0;
    assert(buf@.skip(0) =~= buf@);
    assert(events_view(out@) + events_of(split_blocks(buf@.skip(0), d@).0) =~= events_of(
        split_blocks(buf@, d@).0,
    ));
    loop
        invariant
            d@.len() > 0,
            start <= buf.len(),
            events_of(split_blocks(buf@, d@).0) == events_view(out@) + events_of(
                split_blocks(buf@.skip(start as int), d@).0,
            ),
            split_blocks(buf@, d@).1 == split_blocks(buf@.skip(start as int), d@).1,
        decreases buf.len() - start,
    {
        match find_from(buf, start, d) {
            Some(p) => {
                let e = p + d.len();
                let block = sub_vec(buf, start, e);
                proof {
                    lemma_find_delim_skip(buf@, d@, start as int, p as int);
                    let s = buf@.skip(start as int);
                    let k = p - start + d@.len();
                    assert(s.take(k) =~= block@);
                    assert(s.skip(k) =~= buf@.skip(e as int));
                    let rest = split_blocks(buf@.skip(e as int), d@);
                    assert(split_blocks(s, d@) == (seq![block@] + rest.0, rest.1));
                    lemma_events_cons(block@, rest.0);
                }
                match parse_event_block(block.as_slice()) {
                    Some(ev) => {
                        proof {
                            lemma_events_view_push(out@, ev);
                        }
                        out.push(ev);
                    },
                    None => {},
                }
                start = e;
            },
            None => {
                proof {
                    lemma_find_delim_none(buf@, d@, start as int);
                }
                let rest = sub_vec(buf, start, buf.len());
                assert(rest@ =~= buf@.skip(start as int));
                assert(events_view(out@) + events_of(Seq::<Seq<u8>>::empty()) =~= events_view(out@));
                return (out, rest);
            },
        }
    }
}

/// The remainder of a split never holds the delimiter.
proof fn lemma_split_rest_clean(buf: Seq<u8>, d: Seq<u8>)
    requires
        d.len() > 0,
    ensures
        find_delim(split_blocks(buf, d).1, d).is_none(),
        exists|k: int| 0 <= k <= buf.len() && split_blocks(buf, d).1 == buf.skip(k),
    decreases buf.len(),
{
    match find_delim(buf, d) {
        Some(i) => {
            let e = i + d.len();
            if 0 <= i && e <= buf.len() {
                lemma_split_rest_clean(buf.skip(e), d);
                let k = choose|k: int|
                    0 <= k <= buf.skip(e).len() && split_blocks(buf.skip(e), d).1 == buf.skip(
                        e,
                    ).skip(k);
                assert(buf.skip(e).skip(k) =~= buf.skip(e + k));
            } else {
                assert(buf.skip(0) =~= buf);
            }
        },
        None => {
            assert(buf.skip(0) =~= buf);
        },
    }
}

/// A sequence without `d` keeps that property in every suffix.
proof fn lemma_clean_suffix(buf: Seq<u8>, d: Seq<u8>, k: int)
    requires
        0 <= k <= buf.len(),
        find_delim(buf, d).is_none(),
    ensures
        find_delim(buf.skip(k), d).is_none(),
{
    assert forall|j: int| !delim_at(buf, d, j) by {
        if delim_at(buf, d, j) {
            // the least position would be a first position
            let mut m = j;
            assert(exists|i: int| delim_at(buf, d, i));
            lemma_first_exists(buf, d, j);
        }
    }
    lemma_find_delim_none(buf, d, k);
}

proof fn lemma_first_exists(buf: Seq<u8>, d: Seq<u8>, j: int)
    requires
        delim_at(buf, d, j),
    ensures
        exists|i: int| is_first_delim(buf, d, i),
    decreases j,
{
    if exists|i: int| 0 <= i < j && delim_at(buf, d, i) {
        let i = choose|i: int| 0 <= i < j && delim_at(buf, d, i);
        lemma_first_exists(buf, d, i);
    } else {
        assert(is_first_delim(buf, d, j));
    }
}

/// Parses a Server-Sent Events byte stream into events.
#[derive(Debug)]
pub struct SseParser {
    buffer: Vec<u8>,
    truncated: bool,
}

/// One call of `feed` within the buffer limit: the events completed by the
/// pending bytes and the chunk, `\n\n` blocks first and then `\r\n\r\n` blocks,
/// and the bytes left pending.
pub open spec fn feed_step(pending: Seq<u8>, chunk: Seq<u8>) -> (
    Seq<(Option<Seq<char>>, Option<Seq<char>>)>,
    Seq<u8>,
) {
    let first = split_blocks(pending + chunk, lf_lf());
    let second = split_blocks(first.1, crlf_crlf());
    (events_of(first.0) + events_of(second.0), second.1)
}

proof fn lemma_first_delim_unique(buf: Seq<u8>, d: Seq<u8>, i: int)
    requires
        is_first_delim(buf, d, i),
    ensures
        find_delim(buf, d) == Some(i),
{
    let c = choose|c: int| is_first_delim(buf, d, c);
    assert(is_first_delim(buf, d, c));
    if c < i {
        assert(!delim_at(buf, d, c));
    } else if c > i {
        assert(!delim_at(buf, d, i));
    }
}

/// Splitting a concatenation splits the first part, then what it leaves
/// pending together with the second part.
proof fn lemma_split_concat(x: Seq<u8>, y: Seq<u8>, d: Seq<u8>)
    requires
        d.len() > 0,
    ensures
        split_blocks(x + y, d) == (
            split_blocks(x, d).0 + split_blocks(split_blocks(x, d).1 + y, d).0,
            split_blocks(split_blocks(x, d).1 + y, d).1,
        ),
    decreases x.len(),
{
    match find_delim(x, d) {
        Some(i) => {
            assert(is_first_delim(x, d, i));
            let e = i + d.len();
            let xy = x + y;
            assert(xy.subrange(i, e) =~= x.subrange(i, e));
            assert forall|j: int| 0 <= j < i implies !delim_at(xy, d, j) by {
                assert(xy.subrange(j, j + d.len()) =~= x.subrange(j, j + d.len()));
                assert(!delim_at(x, d, j));
            }
            assert(is_first_delim(xy, d, i));
            lemma_first_delim_unique(xy, d, i);
            assert(xy.take(e) =~= x.take(e));
            assert(xy.skip(e) =~= x.skip(e) + y);
            lemma_split_concat(x.skip(e), y, d);
            let rx = split_blocks(x.skip(e), d);
            let ry = split_blocks(rx.1 + y, d);
            assert(seq![x.take(e)] + (rx.0 + ry.0) =~= (seq![x.take(e)] + rx.0) + ry.0);
        },
        None => {
            assert(Seq::<Seq<u8>>::empty() + split_blocks(x + y, d).0 =~= split_blocks(x + y, d).0);
        },
    }
}

proof fn lemma_events_concat(a: Seq<Seq<u8>>, b: Seq<Seq<u8>>)
    ensures
        events_of(a + b) == events_of(a) + events_of(b),
    decreases a.len(),
{
    if a.len() == 0 {
        assert(a + b =~= b);
        assert(events_of(a) + events_of(b) =~= events_of(b));
    } else {
        assert((a + b)[0] == a[0]);
        assert((a + b).drop_first() =~= a.drop_first() + b);
        lemma_events_concat(a.drop_first(), b);
        match block_event(a[0]) {
            Some(e) => {
                assert(seq![e] + (events_of(a.drop_first()) + events_of(b)) =~= (seq![e] + events_of(
                    a.drop_first(),
                )) + events_of(b));
            },
            None => {},
        }
    }
}

/// Bytes with no carriage return hold no `\r\n\r\n` block.
proof fn lemma_no_cr_no_crlf(buf: Seq<u8>)
    requires
        forall|k: int| 0 <= k < buf.len() ==> buf[k] != 13u8,
    ensures
        split_blocks(buf, crlf_crlf()) == (Seq::<Seq<u8>>::empty(), buf),
{
    assert forall|j: int| !delim_at(buf, crlf_crlf(), j) by {
        if delim_at(buf, crlf_crlf(), j) {
            assert(buf.subrange(j, j + 4)[0] == crlf_crlf()[0]);
            assert(buf[j] == 13u8);
        }
    }
    assert(!exists|i: int| is_first_delim(buf, crlf_crlf(), i));
}

/// Feeding a stream in two chunks completes the same events, and leaves the
/// same bytes pending, as feeding it in one, when the stream delimits its
/// events with `\n\n` only (it holds no carriage return) and stays within the
/// buffer limit.
pub proof fn sse_chunks_compose(p: Seq<u8>, c1: Seq<u8>, c2: Seq<u8>)
    requires
        forall|k: int| 0 <= k < p.len() ==> p[k] != 13u8,
        forall|k: int| 0 <= k < c1.len() ==> c1[k] != 13u8,
        forall|k: int| 0 <= k < c2.len() ==> c2[k] != 13u8,
    ensures
        feed_step(p, c1).0 + feed_step(feed_step(p, c1).1, c2).0 == feed_step(p, c1 + c2).0,
        feed_step(feed_step(p, c1).1, c2).1 == feed_step(p, c1 + c2).1,
{
    let x = p + c1;
    assert forall|k: int| 0 <= k < x.len() implies x[k] != 13u8 by {
        if k < p.len() {
            assert(x[k] == p[k]);
        } else {
            assert(x[k] == c1[k - p.len()]);
        }
    }
    let f1 = split_blocks(x, lf_lf());
    lemma_split_rest_clean(x, lf_lf());
    let k1 = choose|k: int| 0 <= k <= x.len() && f1.1 == x.skip(k);
    assert forall|k: int| 0 <= k < f1.1.len() implies f1.1[k] != 13u8 by {
        assert(f1.1[k] == x[k + k1]);
    }
    lemma_no_cr_no_crlf(f1.1);
    let z = f1.1 + c2;
    assert forall|k: int| 0 <= k < z.len() implies z[k] != 13u8 by {
        if k < f1.1.len() {
            assert(z[k] == f1.1[k]);
        } else {
            assert(z[k] == c2[k - f1.1.len()]);
        }
    }
    let f2 = split_blocks(z, lf_lf());
    lemma_split_rest_clean(z, lf_lf());
    let k2 = choose|k: int| 0 <= k <= z.len() && f2.1 == z.skip(k);
    assert forall|k: int| 0 <= k < f2.1.len() implies f2.1[k] != 13u8 by {
        assert(f2.1[k] == z[k + k2]);
    }
    lemma_no_cr_no_crlf(f2.1);
    assert(p + (c1 + c2) =~= x + c2);
    lemma_split_concat(x, c2, lf_lf());
    lemma_events_concat(f1.0, f2.0);
    assert(events_of(Seq::<Seq<u8>>::empty()) =~= Seq::<(Option<Seq<char>>, Option<Seq<char>>)>::empty());
    assert(events_of(f1.0) + events_of(Seq::<Seq<u8>>::empty()) =~= events_of(f1.0));
    assert(events_of(f2.0) + events_of(Seq::<Seq<u8>>::empty()) =~= events_of(f2.0));
    assert(events_of(f1.0 + f2.0) + events_of(Seq::<Seq<u8>>::empty()) =~= events_of(f1.0 + f2.0));
}

impl SseParser {
    /// Bytes received but not yet part of a complete event.
    pub closed spec fn pending_bytes(&self) -> Seq<u8> {
        self.buffer@
    }

    /// Whether an oversized event was ever dropped.
    pub closed spec fn has_truncated(&self) -> bool {
        self.truncated
    }

    /// The state every parser keeps: the pending bytes fit the limit and hold no
    /// complete event.
    pub open spec fn well_formed(&self) -> bool {
        &&& self.pending_bytes().len() <= MAX_SSE_EVENT_BYTES
        &&& find_delim(self.pending_bytes(), lf_lf()).is_none()
        &&& find_delim(self.pending_bytes(), crlf_crlf()).is_none()
    }

    pub fn new() -> (r: Self)
        ensures
            r.pending_bytes().len() == 0,
            !r.has_truncated(),
            r.well_formed(),
    {
        let r = SseParser { buffer: Vec::new(), truncated: false };
        assert(!exists|i: int| is_first_delim(Seq::<u8>::empty(), lf_lf(), i));
        assert(!exists|i: int| is_first_delim(Seq::<u8>::empty(), crlf_crlf(), i));
        r
    }

    /// Feed a chunk of bytes; returns the events it completes.
    ///
    /// Events end at `\n\n`, then at `\r\n\r\n`. When the pending bytes would
    /// exceed the limit, they are dropped with the chunk and the parser records
    /// the truncation.
    pub fn feed(&mut self, chunk: &[u8]) -> (r: Vec<SseEvent>)
        ensures
            final(self).well_formed(),
            if old(self).pending_bytes().len() + chunk@.len() > MAX_SSE_EVENT_BYTES {
                &&& final(self).pending_bytes().len() == 0
                &&& final(self).has_truncated()
                &&& r@.len() == 0
            } else {
                let step = feed_step(old(self).pending_bytes(), chunk@);
                &&& final(self).pending_bytes() == step.1
                &&& final(self).has_truncated() == old(self).has_truncated()
                &&& events_view(r@) == step.0
            },
    {
        if chunk.len() > MAX_SSE_EVENT_BYTES || self.buffer.len() > MAX_SSE_EVENT_BYTES - chunk.len() {
            self.buffer.clear();
            self.truncated = true;
            assert(!exists|i: int| is_first_delim(Seq::<u8>::empty(), lf_lf(), i));
            assert(!exists|i: int| is_first_delim(Seq::<u8>::empty(), crlf_crlf(), i));
            return Vec::new();
        }
        let mut all = self.buffer.clone();
        assert(all@ =~= self.buffer@);
        let mut i: usize = 0;
        while i < chunk.len()
            invariant
                i <= chunk@.len(),
                all@ == old(self).buffer@ + chunk@.take(i as int),
            decreases chunk@.len() - i,
        {
            all.push(chunk[i]);
            assert(all@ =~= old(self).buffer@ + chunk@.take(i + 1));
            i += 1;
        }
        assert(chunk@.take(chunk@.len() as int) =~= chunk@);
        let lf = vec![10u8, 10u8];
        let crlf = vec![13u8, 10u8, 13u8, 10u8];
        assert(lf@ =~= lf_lf());
        assert(crlf@ =~= crlf_crlf());
        let (mut events, rest) = drain_blocks(&all, &lf);
        let (mut more, rest2) = drain_blocks(&rest, &crlf);
        proof {
            lemma_split_rest_clean(all@, lf_lf());
            lemma_split_rest_clean(rest@, crlf_crlf());
            let k = choose|k: int|
                0 <= k <= rest@.len() && split_blocks(rest@, crlf_crlf()).1 == rest@.skip(k);
            lemma_clean_suffix(rest@, lf_lf(), k);
            let k1 = choose|k: int|
                0 <= k <= all@.len() && split_blocks(all@, lf_lf()).1 == all@.skip(k);
            assert(rest2@.len() <= all@.len());
        }
        let ghost ev1 = events@;
        let ghost ev2 = more@;
        events.append(&mut more);
        assert(events_view(events@) =~= events_view(ev1) + events_view(ev2));
        self.buffer = rest2;
        events
    }

    pub fn was_truncated(&self) -> (b: bool)
        ensures
            b == self.has_truncated(),
    {
        self.truncated
    }
}

impl Default for SseParser {
    fn default() -> (r: Self)
        ensures
            r.pending_bytes().len() == 0,
            !r.has_truncated(),
            r.well_formed(),
    {
        Self::new()
    }
}

} // verus!
