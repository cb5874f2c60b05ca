use vstd::prelude::*;
use vstd::string::StringExecFns;
use vstd::utf8::valid_utf8;

use crate::client::builder::OMcpClientBuilder;
use crate::client::types::{
    classify, frame_classifies, frame_error_matches, frame_event_matches, SseEvent,
    SseEventEndpoint, SseRawEvent, SseWireEvent,
};
use crate::encoding::utf8_valid;
use crate::error::Error;
use crate::json_rpc::{
    JsonObject, JsonRPCInitParams, JsonRPCMessage, JsonRPCMessageBuilder, JsonRPCParameters,
    CLIENT_NAME, CLIENT_VERSION, JSON_RPC_PROTOCOL_VERSION, JSON_RPC_VERSION,
};
use crate::types::McpParams;

verus! {

// ---------------------------------------------------------------------------
// Model of the wire format
// ---------------------------------------------------------------------------
/// Parser state between bytes: the partial line carried so far and the
/// accumulated `event`/`data` texts.
pub ghost struct WireState {
    pub line: Seq<u8>,
    pub event: Seq<u8>,
    pub data: Seq<u8>,
}

impl WireState {
    /// The state of a fresh stream.
    pub open spec fn init() -> WireState {
        WireState { line: Seq::empty(), event: Seq::empty(), data: Seq::empty() }
    }
}

/// What a parser run leaves behind: the state, the completed frames in
/// order, and how many lines were not valid text.
pub ghost struct WireRun {
    pub state: WireState,
    pub frames: Seq<(Seq<u8>, Seq<u8>)>,
    pub bad: nat,
}

/// A line's trailing carriage return, if any, is not part of its text.
pub open spec fn strip_cr(line: Seq<u8>) -> Seq<u8> {
    if line.len() > 0 && line.last() == 13 {
        line.drop_last()
    } else {
        line
    }
}

/// True for comment lines, which begin with `": "`.
pub open spec fn is_comment_line(l: Seq<u8>) -> bool {
    l.len() >= 2 && l[0] == 58 && l[1] == 32
}

/// True for lines that begin with `"event: "`.
pub open spec fn is_event_line(l: Seq<u8>) -> bool {
    l.len() >= 7 && l[0] == 101 && l[1] == 118 && l[2] == 101 && l[3] == 110 && l[4] == 116
        && l[5] == 58 && l[6] == 32
}

/// True for lines that begin with `"data: "`.
pub open spec fn is_data_line(l: Seq<u8>) -> bool {
    l.len() >= 6 && l[0] == 100 && l[1] == 97 && l[2] == 116 && l[3] == 97 && l[4] == 58 && l[5]
        == 32
}

/// Outcome of one completed line on the accumulator.
pub ghost struct LineOut {
    pub event: Seq<u8>,
    pub data: Seq<u8>,
    pub frame: Option<(Seq<u8>, Seq<u8>)>,
    pub bad: bool,
}

/// One line against the accumulated `event`/`data` texts, by the wire
/// rules: a line that is not valid text is dropped and counted; empty and
/// comment lines are skipped; an `event: ` or `data: ` line replaces its
/// text; once both texts are non-empty the frame is complete and the
/// accumulator starts over.
pub open spec fn line_step(ev: Seq<u8>, da: Seq<u8>, raw: Seq<u8>) -> LineOut {
    if !valid_utf8(raw) {
        LineOut { event: ev, data: da, frame: None, bad: true }
    } else {
        let l = strip_cr(raw);
        if l.len() == 0 || is_comment_line(l) {
            LineOut { event: ev, data: da, frame: None, bad: false }
        } else {
            let ev2 = if is_event_line(l) {
                l.skip(7)
            } else {
                ev
            };
            let da2 = if is_data_line(l) {
                l.skip(6)
            } else {
                da
            };
            if ev2.len() > 0 && da2.len() > 0 {
                LineOut {
                    event: Seq::empty(),
                    data: Seq::empty(),
                    frame: Some((ev2, da2)),
                    bad: false,
                }
            } else {
                LineOut { event: ev2, data: da2, frame: None, bad: false }
            }
        }
    }
}

/// One byte of input: a newline completes the current line, any other byte
/// extends it.
pub open spec fn wire_step(s: WireState, b: u8) -> WireRun {
    if b == 10 {
        let out = line_step(s.event, s.data, s.line);
        WireRun {
            state: WireState { line: Seq::empty(), event: out.event, data: out.data },
            frames: match out.frame {
                Some(f) => seq![f],
                None => Seq::empty(),
            },
            bad: if out.bad {
                1nat
            } else {
                0nat
            },
        }
    } else {
        WireRun {
            state: WireState { line: s.line.push(b), event: s.event, data: s.data },
            frames: Seq::empty(),
            bad: 0,
        }
    }
}

/// A whole input, byte by byte.
pub open spec fn wire_run(s: WireState, input: Seq<u8>) -> WireRun
    decreases input.len(),
{
    if input.len() == 0 {
        WireRun { state: s, frames: Seq::empty(), bad: 0 }
    } else {
        let head = wire_step(s, input[0]);
        let rest = wire_run(head.state, input.drop_first());
        WireRun {
            state: rest.state,
            frames: head.frames + rest.frames,
            bad: head.bad + rest.bad,
        }
    }
}

/// Chunk-boundary independence: however an input is cut in two, parsing
/// the parts in turn leaves the same state and yields the same frames, in
/// the same order, as parsing the whole.
pub proof fn lemma_wire_run_concat(s: WireState, a: Seq<u8>, b: Seq<u8>)
    ensures
        ({
            let whole = wire_run(s, a + b);
            let head = wire_run(s, a);
            let tail = wire_run(head.state, b);
            whole.state == tail.state && whole.frames == head.frames + tail.frames && whole.bad
                == head.bad + tail.bad
        }),
    decreases a.len(),
{
    if a.len() == 0 {
        assert(a + b =~= b);
        assert(wire_run(s, a).frames + wire_run(s, b).frames =~= wire_run(s, b).frames);
    } else {
        let step = wire_step(s, a[0]);
        assert((a + b)[0] == a[0]);
        assert((a + b).drop_first() =~= a.drop_first() + b);
        lemma_wire_run_concat(step.state, a.drop_first(), b);
        let head_rest = wire_run(step.state, a.drop_first());
        let tail = wire_run(wire_run(s, a).state, b);
        assert(step.frames + (head_rest.frames + tail.frames) =~= (step.frames
            + head_rest.frames) + tail.frames);
    }
}

/// A run over a sequence of chunks, each fed in turn.
pub open spec fn wire_run_chunks(s: WireState, chunks: Seq<Seq<u8>>) -> WireRun
    decreases chunks.len(),
{
    if chunks.len() == 0 {
        WireRun { state: s, frames: Seq::empty(), bad: 0 }
    } else {
        let head = wire_run(s, chunks[0]);
        let rest = wire_run_chunks(head.state, chunks.drop_first());
        WireRun {
            state: rest.state,
            frames: head.frames + rest.frames,
            bad: head.bad + rest.bad,
        }
    }
}

/// However a byte stream is split into chunks, feeding the chunks one at a
/// time yields exactly the run of the whole stream.
pub proof fn lemma_wire_run_chunked(s: WireState, chunks: Seq<Seq<u8>>)
    ensures
        wire_run_chunks(s, chunks) == wire_run(s, chunks.flatten()),
    decreases chunks.len(),
{
    if chunks.len() == 0 {
        assert(chunks.flatten() =~= Seq::<u8>::empty());
        assert(wire_run_chunks(s, chunks).frames =~= wire_run(s, chunks.flatten()).frames);
    } else {
        assert(chunks.flatten() == chunks[0] + chunks.drop_first().flatten());
        let head = wire_run(s, chunks[0]);
        lemma_wire_run_chunked(head.state, chunks.drop_first());
        lemma_wire_run_concat(s, chunks[0], chunks.drop_first().flatten());
    }
}

proof fn lemma_wire_run_snoc(s: WireState, pre: Seq<u8>, b: u8)
    ensures
        ({
            let whole = wire_run(s, pre.push(b));
            let head = wire_run(s, pre);
            let step = wire_step(head.state, b);
            whole.state == step.state && whole.frames == head.frames + step.frames && whole.bad
                == head.bad + step.bad
        }),
{
    reveal_with_fuel(wire_run, 3);
    assert(pre.push(b) =~= pre + seq![b]);
    lemma_wire_run_concat(s, pre, seq![b]);
    let head = wire_run(s, pre);
    let step = wire_step(head.state, b);
    assert(seq![b][0] == b);
    assert(seq![b].drop_first() =~= Seq::<u8>::empty());
    assert(wire_run(step.state, Seq::<u8>::empty()).frames =~= Seq::<(Seq<u8>, Seq<u8>)>::empty());
    assert(wire_run(head.state, seq![b]).frames =~= step.frames);
    assert(wire_run(head.state, seq![b]).bad == step.bad);
    assert(wire_run(head.state, seq![b]).state == step.state);
}

// ---------------------------------------------------------------------------
// The parser
// ---------------------------------------------------------------------------
/// Streaming wire-frame parser: accumulates partial lines across chunks,
/// so that frames come out the same however the stream was cut.
#[derive(Debug)]
pub struct WireParser {
    wire: SseWireEvent,
    line: Vec<u8>,
}

impl View for WireParser {
    type V = WireState;

    closed spec fn view(&self) -> WireState {
        WireState { line: self.line@, event: self.wire.event@, data: self.wire.data@ }
    }
}

impl WireParser {
    /// The origin URL this parser's stream was opened against.
    pub closed spec fn server_spec(&self) -> Seq<u8> {
        self.wire.server@
    }

    /// A fresh parser for `server`'s stream.
    pub fn new(server: &[u8]) -> (r: WireParser)
        ensures
            r@ == WireState::init(),
            r.server_spec() == server@,
    {
        let r = WireParser { wire: SseWireEvent::new(server), line: Vec::new() };
        proof {
            assert(r@ =~= WireState::init());
        }
        r
    }

    /// The origin URL, as bytes.
    pub fn server_ref(&self) -> (r: &[u8])
        ensures
            r@ == self.server_spec(),
    {
        self.wire.server.as_slice()
    }

    /// Feeds one chunk.  Returns the frames completed by it, in wire
    /// order, and how many of its lines were dropped as invalid text.
    pub fn feed(&mut self, chunk: &[u8]) -> (r: (Vec<(Vec<u8>, Vec<u8>)>, usize))
        ensures
            ({
                let run = wire_run(old(self)@, chunk@);
                final(self)@ == run.state && final(self).server_spec() == old(self).server_spec()
                    && r.0@.len() == run.frames.len() && (forall|i: int|
                    0 <= i < run.frames.len() ==> (r.0@[i].0@, r.0@[i].1@) == run.frames[i])
                    && r.1 == run.bad
            }),
    {
        let mut frames: Vec<(Vec<u8>, Vec<u8>)> = Vec::new();
        let mut bad: usize = 0;
        let n = chunk.len();
        let mut i: usize = 0;
        proof {
            assert(chunk@.subrange(0, 0) =~= Seq::<u8>::empty());
        }
        while i < n
            invariant
                i <= n,
                n == chunk@.len(),
                self.server_spec() == old(self).server_spec(),
                ({
                    let run = wire_run(old(self)@, chunk@.subrange(0, i as int));
                    self@ == run.state && frames@.len() == run.frames.len() && (forall|j: int|
                        0 <= j < run.frames.len() ==> (frames@[j].0@, frames@[j].1@)
                            == run.frames[j]) && bad == run.bad && run.bad <= i
                }),
            decreases n - i,
        {
            let ghost pre = chunk@.subrange(0, i as int);
            let ghost state_before = self@;
            let b = chunk[i];
            proof {
                lemma_wire_run_snoc(old(self)@, pre, b);
                assert(chunk@.subrange(0, i as int + 1) =~= pre.push(b));
            }
            if b == 10 {
                let ghost raw = self.line@;
                if !utf8_valid(self.line.as_slice()) {
                    bad = bad + 1;
                    self.line.clear();
                } else {
                    // Drop a trailing carriage return.
                    let llen = self.line.len();
                    if llen > 0 && self.line[llen - 1] == 13 {
                        self.line.pop();
                    }
                    proof {
                        assert(self.line@ =~= strip_cr(raw));
                    }
                    let llen = self.line.len();
                    let skip_line = llen == 0 || (llen >= 2 && self.line[0] == 58 && self.line[1]
                        == 32);
                    if !skip_line {
                        if llen >= 7 && self.line[0] == 101 && self.line[1] == 118 && self.line[2]
                            == 101 && self.line[3] == 110 && self.line[4] == 116 && self.line[5]
                            == 58 && self.line[6] == 32 {
                            // `event: ` line: keep the remainder.
                            self.wire.event.clear();
                            let rest = vstd::slice::slice_subrange(self.line.as_slice(), 7, llen);
                            crate::encoding::append_bytes(&mut self.wire.event, rest);
                            proof {
                                assert(self.wire.event@ =~= strip_cr(raw).skip(7));
                            }
                        } else if llen >= 6 && self.line[0] == 100 && self.line[1] == 97
                            && self.line[2] == 116 && self.line[3] == 97 && self.line[4] == 58
                            && self.line[5] == 32 {
                            // `data: ` line: keep the remainder.
                            self.wire.data.clear();
                            let rest = vstd::slice::slice_subrange(self.line.as_slice(), 6, llen);
                            crate::encoding::append_bytes(&mut self.wire.data, rest);
                            proof {
                                assert(self.wire.data@ =~= strip_cr(raw).skip(6));
                            }
                        }
                        if self.wire.event.len() > 0 && self.wire.data.len() > 0 {
                            // The frame is complete: emit it and start over.
                            let mut ev: Vec<u8> = Vec::new();
                            let mut da: Vec<u8> = Vec::new();
                            core::mem::swap(&mut ev, &mut self.wire.event);
                            core::mem::swap(&mut da, &mut self.wire.data);
                            frames.push((ev, da));
                        }
                    }
                    self.line.clear();
                }
                proof {
                    assert(self@ =~= wire_step(state_before, b).state);
                }
            } else {
                self.line.push(b);
                proof {
                    assert(self@ =~= wire_step(state_before, b).state);
                }
            }
            i = i + 1;
        }
        proof {
            assert(chunk@.subrange(0, n as int) =~= chunk@);
        }
        (frames, bad)
    }
}

/// Parses one whole buffer from a fresh accumulator and classifies every
/// completed frame: the batch reading of the wire format, in which one
/// buffer may carry any number of frames.  Fails with
/// `Error::InvalidEncoding` when any line is not valid text, and
/// otherwise with the first frame's classification error.
pub fn sse_parse_wire(server: &[u8], data: &[u8]) -> (r: Result<Vec<SseRawEvent>, Error>)
    ensures
        ({
            let run = wire_run(WireState::init(), data@);
            match r {
                Ok(events) => run.bad == 0 && events@.len() == run.frames.len() && (forall|i: int|
                    0 <= i < run.frames.len() ==> frame_classifies(server@, run.frames[i]))
                    && (forall|i: int|
                    0 <= i < run.frames.len() ==> frame_event_matches(
                        server@,
                        run.frames[i],
                        events@[i],
                    )),
                Err(e) => (run.bad > 0 && e == Error::InvalidEncoding) || (run.bad == 0
                    && exists|i: int|
                    0 <= i < run.frames.len() && !frame_classifies(server@, run.frames[i])
                        && frame_error_matches(run.frames[i], e) && (forall|j: int|
                        0 <= j < i ==> frame_classifies(server@, #[trigger] run.frames[j]))),
            }
        }),
{
    let mut parser = WireParser::new(server);
    let (frames, bad) = parser.feed(data);
    if bad > 0 {
        return Err(Error::InvalidEncoding);
    }
    let ghost run = wire_run(WireState::init(), data@);
    let mut events: Vec<SseRawEvent> = Vec::new();
    let n = frames.len();
    let mut i: usize = 0;
    while i < n
        invariant
            i <= n,
            n == frames@.len(),
            n == run.frames.len(),
            run == wire_run(WireState::init(), data@),
            run.bad == 0,
            forall|j: int| 0 <= j < n ==> (frames@[j].0@, frames@[j].1@) == run.frames[j],
            events@.len() == i,
            forall|j: int| 0 <= j < i ==> frame_classifies(server@, #[trigger] run.frames[j]),
            forall|j: int|
                0 <= j < i ==> frame_event_matches(server@, run.frames[j], #[trigger] events@[j]),
        decreases n - i,
    {
        let frame = &frames[i];
        match classify(server, frame.0.as_slice(), frame.1.as_slice()) {
            Ok(ev) => {
                events.push(ev);
            },
            Err(e) => {
                proof {
                    let w = i as int;
                    assert(0 <= w < run.frames.len() && !frame_classifies(server@, run.frames[w])
                        && frame_error_matches(run.frames[w], e) && (forall|j: int|
                        0 <= j < w ==> frame_classifies(server@, #[trigger] run.frames[j])));
                    assert(exists|k: int|
                        0 <= k < run.frames.len() && !frame_classifies(server@, run.frames[k])
                            && frame_error_matches(run.frames[k], e) && (forall|j: int|
                            0 <= j < k ==> frame_classifies(server@, #[trigger] run.frames[j])));
                }
                return Err(e);
            },
        }
        i = i + 1;
    }
    Ok(events)
}

// ---------------------------------------------------------------------------
// The event pump's control logic
// ---------------------------------------------------------------------------
/// What the pump's loop observed this iteration: its cancellation signal,
/// a finished reconnect, or the outcome of reading the live stream.
#[derive(Debug)]
pub enum PumpInput {
    Cancelled,
    Reconnected,
    Chunk(Vec<u8>),
    ChunkEmpty,
    ChunkError,
}

/// What the pump's loop must do next: stop for good, wait for the next
/// readiness, or publish the classified events of a chunk in wire order.
#[derive(Debug)]
pub enum PumpAction {
    Exit,
    Idle,
    Publish(Vec<SseRawEvent>),
}

/// True when `events` is exactly the classification of the frames that
/// classify, in order; frames that do not classify are passed over.
pub open spec fn events_match_frames(
    server: Seq<u8>,
    frames: Seq<(Seq<u8>, Seq<u8>)>,
    events: Seq<SseRawEvent>,
) -> bool
    decreases frames.len(),
{
    if frames.len() == 0 {
        events.len() == 0
    } else if frame_classifies(server, frames.first()) {
        events.len() > 0 && frame_event_matches(server, frames.first(), events.first())
            && events_match_frames(server, frames.drop_first(), events.drop_first())
    } else {
        events_match_frames(server, frames.drop_first(), events)
    }
}

proof fn lemma_events_match_snoc_kept(
    server: Seq<u8>,
    frames: Seq<(Seq<u8>, Seq<u8>)>,
    events: Seq<SseRawEvent>,
    f: (Seq<u8>, Seq<u8>),
    e: SseRawEvent,
)
    requires
        events_match_frames(server, frames, events),
        frame_classifies(server, f),
        frame_event_matches(server, f, e),
    ensures
        events_match_frames(server, frames.push(f), events.push(e)),
    decreases frames.len(),
{
    reveal_with_fuel(events_match_frames, 3);
    if frames.len() == 0 {
        assert(frames.push(f).first() == f);
        assert(events.push(e).first() == e);
        assert(frames.push(f).drop_first() =~= frames);
        assert(events.push(e).drop_first() =~= Seq::<SseRawEvent>::empty());
    } else {
        assert(frames.push(f).drop_first() =~= frames.drop_first().push(f));
        if frame_classifies(server, frames.first()) {
            assert(events.push(e).drop_first() =~= events.drop_first().push(e));
            lemma_events_match_snoc_kept(server, frames.drop_first(), events.drop_first(), f, e);
        } else {
            lemma_events_match_snoc_kept(server, frames.drop_first(), events, f, e);
        }
    }
}

proof fn lemma_events_match_snoc_dropped(
    server: Seq<u8>,
    frames: Seq<(Seq<u8>, Seq<u8>)>,
    events: Seq<SseRawEvent>,
    f: (Seq<u8>, Seq<u8>),
)
    requires
        events_match_frames(server, frames, events),
        !frame_classifies(server, f),
    ensures
        events_match_frames(server, frames.push(f), events),
    decreases frames.len(),
{
    reveal_with_fuel(events_match_frames, 3);
    if frames.len() == 0 {
        assert(frames.push(f).first() == f);
        assert(frames.push(f).drop_first() =~= frames);
    } else {
        assert(frames.push(f).drop_first() =~= frames.drop_first().push(f));
        if frame_classifies(server, frames.first()) {
            lemma_events_match_snoc_dropped(server, frames.drop_first(), events.drop_first(), f);
        } else {
            lemma_events_match_snoc_dropped(server, frames.drop_first(), events, f);
        }
    }
}

/// Control state of the background reader: whether the stream is live and
/// where the parser stands on it.  The pump itself performs no reads; its
/// loop hands each readiness in and carries the decided action out.
#[derive(Debug)]
pub struct EventPump {
    connected: bool,
    parser: WireParser,
}

impl EventPump {
    /// True while the pump believes its stream is live.
    pub closed spec fn connected_spec(&self) -> bool {
        self.connected
    }

    /// The parser's state on the live stream.
    pub closed spec fn wire_spec(&self) -> WireState {
        self.parser@
    }

    /// The origin URL the stream was opened against.
    pub closed spec fn server_spec(&self) -> Seq<u8> {
        self.parser.server_spec()
    }

    /// A pump for a stream just opened against `server`.
    pub fn new(server: &[u8]) -> (r: EventPump)
        ensures
            r.connected_spec(),
            r.wire_spec() == WireState::init(),
            r.server_spec() == server@,
    {
        EventPump { connected: true, parser: WireParser::new(server) }
    }

    /// One iteration of the pump's loop.  Cancellation always exits;
    /// a reconnect installs a fresh parser for the new stream; a chunk is
    /// parsed and its classified events are published in wire order, with
    /// invalid lines and unclassifiable frames passed over; a read error
    /// only marks the stream dead, so the next iteration reconnects.
    pub fn step(&mut self, input: PumpInput) -> (r: PumpAction)
        requires
            input is Reconnected ==> !old(self).connected_spec(),
            (input matches PumpInput::Chunk(_) || input is ChunkEmpty || input is ChunkError)
                ==> old(self).connected_spec(),
        ensures
            final(self).server_spec() == old(self).server_spec(),
            input is Cancelled ==> r is Exit && *final(self) == *old(self),
            input is Reconnected ==> (r is Idle && final(self).connected_spec()
                && final(self).wire_spec() == WireState::init()),
            input is ChunkEmpty ==> r is Idle && *final(self) == *old(self),
            input is ChunkError ==> (r is Idle && !final(self).connected_spec()
                && final(self).wire_spec() == old(self).wire_spec()),
            (input matches PumpInput::Chunk(c) ==> final(self).connected_spec() && ({
                let run = wire_run(old(self).wire_spec(), c@);
                final(self).wire_spec() == run.state && (r matches PumpAction::Publish(events)
                    && events_match_frames(old(self).server_spec(), run.frames, events@))
            })),
    {
        match input {
            PumpInput::Cancelled => PumpAction::Exit,
            PumpInput::Reconnected => {
                // The dead stream's partial line must not bleed into the
                // new one.
                let server = vstd::slice::slice_to_vec(self.parser.server_ref());
                self.parser = WireParser::new(server.as_slice());
                self.connected = true;
                PumpAction::Idle
            },
            PumpInput::ChunkEmpty => PumpAction::Idle,
            PumpInput::ChunkError => {
                self.connected = false;
                PumpAction::Idle
            },
            PumpInput::Chunk(c) => {
                let (frames, _dropped) = self.parser.feed(c.as_slice());
                let ghost run = wire_run(old(self).wire_spec(), c@);
                let mut events: Vec<SseRawEvent> = Vec::new();
                let n = frames.len();
                let mut i: usize = 0;
                proof {
                    assert(run.frames.subrange(0, 0) =~= Seq::<(Seq<u8>, Seq<u8>)>::empty());
                }
                while i < n
                    invariant
                        i <= n,
                        n == frames@.len(),
                        n == run.frames.len(),
                        self.server_spec() == old(self).server_spec(),
                        forall|j: int|
                            0 <= j < n ==> (frames@[j].0@, frames@[j].1@) == run.frames[j],
                        events_match_frames(
                            old(self).server_spec(),
                            run.frames.subrange(0, i as int),
                            events@,
                        ),
                    decreases n - i,
                {
                    let ghost done = run.frames.subrange(0, i as int);
                    let frame = &frames[i];
                    match classify(
                        self.parser.server_ref(),
                        frame.0.as_slice(),
                        frame.1.as_slice(),
                    ) {
                        Ok(ev) => {
                            proof {
                                lemma_events_match_snoc_kept(
                                    old(self).server_spec(),
                                    done,
                                    events@,
                                    run.frames[i as int],
                                    ev,
                                );
                            }
                            events.push(ev);
                        },
                        Err(_) => {
                            proof {
                                lemma_events_match_snoc_dropped(
                                    old(self).server_spec(),
                                    done,
                                    events@,
                                    run.frames[i as int],
                                );
                            }
                        },
                    }
                    proof {
                        assert(run.frames.subrange(0, i as int + 1) =~= done.push(
                            run.frames[i as int],
                        ));
                    }
                    i = i + 1;
                }
                proof {
                    assert(run.frames.subrange(0, n as int) =~= run.frames);
                }
                PumpAction::Publish(events)
            },
        }
    }
}

// ---------------------------------------------------------------------------
// The session: handshake state machine and correlation layer
// ---------------------------------------------------------------------------
/// Handshake phases of one session.
#[derive(Debug, Clone, Copy, PartialEq, Eq, Structural)]
pub enum SseClientState {
    Uninitialized,
    Initialized,
    Ready,
}

/// What one handshake step asks of the caller, by kind.
pub enum HandshakeStepKind {
    SendInitialize,
    SendInitialized,
    Deliver,
    Reject,
}

/// The handshake transition relation.  An endpoint announcement always
/// (re)opens the capability exchange; a message while `Uninitialized` with
/// no endpoint known is a protocol violation; the first message after
/// `initialize` completes the handshake; messages in `Ready` belong to the
/// active consumer.
pub open spec fn handshake_next(
    s: SseClientState,
    endpoint_known: bool,
    event_is_endpoint: bool,
) -> (SseClientState, HandshakeStepKind) {
    if event_is_endpoint {
        (SseClientState::Initialized, HandshakeStepKind::SendInitialize)
    } else {
        match s {
            SseClientState::Uninitialized => if endpoint_known {
                (SseClientState::Initialized, HandshakeStepKind::SendInitialize)
            } else {
                (s, HandshakeStepKind::Reject)
            },
            SseClientState::Initialized => (SseClientState::Ready, HandshakeStepKind::SendInitialized),
            SseClientState::Ready => (SseClientState::Ready, HandshakeStepKind::Deliver),
        }
    }
}

/// From any phase, an endpoint announcement followed by any message
/// drives the handshake through `Initialized` to `Ready`, sending
/// `initialize` and then `notifications/initialized`; and once `Ready`,
/// every further message is handed to the consumer with no change of
/// phase.
pub proof fn lemma_handshake_reaches_ready(s0: SseClientState, endpoint_known: bool)
    ensures
        ({
            let first = handshake_next(s0, endpoint_known, true);
            let second = handshake_next(first.0, true, false);
            first.0 == SseClientState::Initialized && first.1 is SendInitialize && second.0
                == SseClientState::Ready && second.1 is SendInitialized
        }),
        handshake_next(SseClientState::Ready, true, false) == (
            SseClientState::Ready,
            HandshakeStepKind::Deliver,
        ),
{
}

/// True of the `initialize` request that opens the handshake: id 1, the
/// fixed protocol revision, capabilities and client identity.
pub open spec fn is_init_request(m: JsonRPCMessage) -> bool {
    &&& m.id == Some(1u64)
    &&& (m.method matches Some(name) && name@ == "initialize"@)
    &&& (m.parameters matches Some(JsonRPCParameters::Init(p)) && p.protocol_version@
        == JSON_RPC_PROTOCOL_VERSION@ && p.capabilities.roots.list_changed && p.client_info.name@
        == CLIENT_NAME@ && p.client_info.version@ == CLIENT_VERSION@)
    &&& m.result is None
    &&& m.error is None
    &&& m.jsonrpc@ == JSON_RPC_VERSION@
}

/// True of the `notifications/initialized` notification that closes the
/// handshake.
pub open spec fn is_initialized_notification(m: JsonRPCMessage) -> bool {
    &&& m.id is None
    &&& (m.method matches Some(name) && name@ == "notifications/initialized"@)
    &&& m.parameters is None
    &&& m.result is None
    &&& m.error is None
    &&& m.jsonrpc@ == JSON_RPC_VERSION@
}

/// The `initialize` request (id 1) with this client's handshake payload.
pub fn build_init_message() -> (r: JsonRPCMessage)
    ensures
        is_init_request(r),
        r.is_request(),
{
    let params = JsonRPCInitParams::new();
    JsonRPCMessageBuilder::new().with_id(1).with_method("initialize").with_parameter(
        JsonRPCParameters::Init(params),
    ).build()
}

/// The `notifications/initialized` notification that closes the handshake.
pub fn build_initialized_message() -> (r: JsonRPCMessage)
    ensures
        is_initialized_notification(r),
        r.is_notification(),
{
    JsonRPCMessageBuilder::new().with_method("notifications/initialized").build()
}

/// What the caller must send or consume after one handshake step.
#[derive(Debug)]
pub enum SseEventAction {
    SendInitialize(JsonRPCMessage),
    SendInitialized(JsonRPCMessage),
    Deliver(Box<JsonRPCMessage>),
}

/// What `disconnect` asks of the caller: signal the pump and await it, or
/// nothing, because no pump is running.
#[derive(Debug, PartialEq, Eq, Structural)]
pub enum DisconnectAction {
    SignalPump,
    AlreadyStopped,
}

/// One session over the streaming transport: the handshake phase, the
/// announced endpoint, the outbound id counter, and whether a stream is
/// live.  The network itself stays outside; the session is driven with
/// the events read from it.
///
/// The event stream has one logical reader: whoever drives the session
/// must be the only consumer of its events, and at most one request may
/// be in flight at a time, since the next message read is taken to be
/// the reply.  That exclusivity is a usage contract of the transport,
/// held by construction where one driver owns both the session and the
/// stream's receiving end.
#[derive(Debug)]
pub struct SseClient {
    server: Vec<u8>,
    headers: Vec<(Vec<u8>, Vec<u8>)>,
    endpoint: Option<SseEventEndpoint>,
    state: SseClientState,
    msg_id: u64,
    connected: bool,
}

/// A session after `disconnect`: the stream marked dead, the handshake
/// back at the start, the endpoint forgotten; the id counter keeps its
/// place so a later session never reuses an id drawn in this one.
pub closed spec fn disconnected_session(c: SseClient) -> SseClient {
    SseClient {
        endpoint: None,
        state: SseClientState::Uninitialized,
        connected: false,
        ..c
    }
}

/// Disconnecting twice is the same as disconnecting once.
pub proof fn lemma_disconnect_idempotent(c: SseClient)
    ensures
        disconnected_session(disconnected_session(c)) == disconnected_session(c),
{
}

impl SseClient {
    /// The connect URL of this session's stream.
    pub closed spec fn server_spec(&self) -> Seq<u8> {
        self.server@
    }

    /// The header pairs sent with every request of this session.
    pub closed spec fn headers_spec(&self) -> Seq<(Vec<u8>, Vec<u8>)> {
        self.headers@
    }

    /// The endpoint announced by the server, once one has arrived.
    pub closed spec fn endpoint_spec(&self) -> Option<SseEventEndpoint> {
        self.endpoint
    }

    /// The handshake phase.
    pub closed spec fn state_spec(&self) -> SseClientState {
        self.state
    }

    /// The next id a call will draw.
    pub closed spec fn msg_id_spec(&self) -> u64 {
        self.msg_id
    }

    /// True while the session believes its stream is live.
    pub closed spec fn connected_spec(&self) -> bool {
        self.connected
    }

    /// A fresh session over the builder's URL and headers.  Ids 1 and 2
    /// are reserved for `initialize` and `tools/list`, so the counter
    /// starts at 2: the first call draws 2, the next 3, and so on.
    pub fn from_builder(builder: OMcpClientBuilder) -> (r: SseClient)
        ensures
            r.server_spec() == builder.url@,
            r.headers_spec() == builder.headers@,
            r.endpoint_spec() is None,
            r.state_spec() == SseClientState::Uninitialized,
            r.msg_id_spec() == 2,
            !r.connected_spec(),
    {
        SseClient {
            server: builder.url,
            headers: builder.headers,
            endpoint: None,
            state: SseClientState::Uninitialized,
            msg_id: 2,
            connected: false,
        }
    }

    /// The id the next call will draw.
    pub fn next_call_id(&self) -> (id: u64)
        ensures
            id == self.msg_id_spec(),
    {
        self.msg_id
    }

    /// The handshake phase, for callers.
    pub fn state(&self) -> (s: SseClientState)
        ensures
            s == self.state_spec(),
    {
        self.state
    }

    /// Records that the stream was opened.
    pub fn mark_connected(&mut self)
        ensures
            final(self).connected_spec(),
            final(self).server_spec() == old(self).server_spec(),
            final(self).headers_spec() == old(self).headers_spec(),
            final(self).endpoint_spec() == old(self).endpoint_spec(),
            final(self).state_spec() == old(self).state_spec(),
            final(self).msg_id_spec() == old(self).msg_id_spec(),
    {
        self.connected = true;
    }

    /// Ends the session.  Total and idempotent: before `connect`, or a
    /// second time in a row, there is no pump to stop and nothing
    /// changes.
    pub fn disconnect(&mut self) -> (r: DisconnectAction)
        ensures
            *final(self) == disconnected_session(*old(self)),
            r == (if old(self).connected_spec() {
                DisconnectAction::SignalPump
            } else {
                DisconnectAction::AlreadyStopped
            }),
    {
        let was_connected = self.connected;
        self.connected = false;
        self.state = SseClientState::Uninitialized;
        self.endpoint = None;
        if was_connected {
            DisconnectAction::SignalPump
        } else {
            DisconnectAction::AlreadyStopped
        }
    }

    /// Drives the handshake with one protocol event, by the transition
    /// relation `handshake_next`: an endpoint announcement is recorded and
    /// answered with `initialize`; the first message after that is
    /// answered with `notifications/initialized`, reaching `Ready`; in
    /// `Ready` messages are delivered to the consumer; a message with no
    /// endpoint ever seen is `Error::ConnectionStateFailure`.
    pub fn handshake_event(&mut self, event: SseEvent) -> (r: Result<SseEventAction, Error>)
        ensures
            ({
                let is_ep = event matches SseEvent::Endpoint(_);
                let nxt = handshake_next(
                    old(self).state_spec(),
                    old(self).endpoint_spec() is Some,
                    is_ep,
                );
                &&& final(self).state_spec() == nxt.0
                &&& final(self).server_spec() == old(self).server_spec()
                &&& final(self).headers_spec() == old(self).headers_spec()
                &&& final(self).msg_id_spec() == old(self).msg_id_spec()
                &&& final(self).connected_spec() == old(self).connected_spec()
                &&& (match event {
                    SseEvent::Endpoint(e) => final(self).endpoint_spec() == Some(e),
                    SseEvent::JsonRpcMessage(_) => final(self).endpoint_spec() == old(
                        self,
                    ).endpoint_spec(),
                })
                &&& (nxt.1 is SendInitialize ==> (r matches Ok(SseEventAction::SendInitialize(m))
                    && is_init_request(m)))
                &&& (nxt.1 is SendInitialized ==> (r matches Ok(
                    SseEventAction::SendInitialized(m),
                ) && is_initialized_notification(m)))
                &&& (nxt.1 is Deliver ==> (r matches Ok(SseEventAction::Deliver(b)) && (
                event matches SseEvent::JsonRpcMessage(orig) && b == orig)))
                &&& (nxt.1 is Reject ==> r == Err::<SseEventAction, Error>(
                    Error::ConnectionStateFailure,
                ))
            }),
    {
        match event {
            SseEvent::Endpoint(e) => {
                self.endpoint = Some(e);
                self.state = SseClientState::Initialized;
                Ok(SseEventAction::SendInitialize(build_init_message()))
            },
            SseEvent::JsonRpcMessage(b) => match self.state {
                SseClientState::Uninitialized => {
                    if self.endpoint.is_some() {
                        self.state = SseClientState::Initialized;
                        Ok(SseEventAction::SendInitialize(build_init_message()))
                    } else {
                        Err(Error::ConnectionStateFailure)
                    }
                },
                SseClientState::Initialized => {
                    self.state = SseClientState::Ready;
                    Ok(SseEventAction::SendInitialized(build_initialized_message()))
                },
                SseClientState::Ready => Ok(SseEventAction::Deliver(b)),
            },
        }
    }

    /// The URL outbound messages must be POSTed to; `Error::NotConnected`
    /// until an endpoint announcement has arrived.
    pub fn send_target(&self) -> (r: Result<&SseEventEndpoint, Error>)
        ensures
            match r {
                Ok(e) => self.endpoint_spec() == Some(*e),
                Err(er) => er == Error::NotConnected && self.endpoint_spec() is None,
            },
    {
        match &self.endpoint {
            Some(e) => Ok(e),
            None => Err(Error::NotConnected),
        }
    }

    /// The `tools/list` request, under the id the protocol reserves for
    /// it.
    pub fn list_tools_request(&self) -> (r: JsonRPCMessage)
        ensures
            r.id == Some(2u64),
            (r.method matches Some(m) && m@ == "tools/list"@),
            r.parameters is None,
            r.result is None,
            r.error is None,
            r.jsonrpc@ == JSON_RPC_VERSION@,
            r.is_request(),
    {
        JsonRPCMessageBuilder::new().with_id(2).with_method("tools/list").build()
    }

    /// A `tools/call` request for `params`, under the next id of this
    /// session's counter; no id is drawn twice.
    pub fn call_request(&mut self, params: McpParams) -> (r: JsonRPCMessage)
        requires
            old(self).msg_id_spec() < u64::MAX,
        ensures
            r.id == Some(old(self).msg_id_spec()),
            (r.method matches Some(m) && m@ == "tools/call"@),
            (r.parameters matches Some(JsonRPCParameters::Tool(p)) && p == params),
            r.result is None,
            r.error is None,
            r.jsonrpc@ == JSON_RPC_VERSION@,
            r.is_request(),
            final(self).msg_id_spec() == old(self).msg_id_spec() + 1,
            final(self).server_spec() == old(self).server_spec(),
            final(self).headers_spec() == old(self).headers_spec(),
            final(self).endpoint_spec() == old(self).endpoint_spec(),
            final(self).state_spec() == old(self).state_spec(),
            final(self).connected_spec() == old(self).connected_spec(),
    {
        let id = self.msg_id;
        self.msg_id = self.msg_id + 1;
        JsonRPCMessageBuilder::new().with_id(id).with_method("tools/call").with_parameter(
            JsonRPCParameters::Tool(params),
        ).build()
    }

    /// Picks the tool listing out of a `tools/list` reply: the `tools`
    /// member of the result, `Error::NotFound` when the reply has no
    /// result or the result has no such member.
    pub fn list_tools_response(msg: JsonRPCMessage) -> (r: Result<serde_json::Value, Error>)
        requires
            (msg.result matches Some(o) ==> o.wf()),
        ensures
            match r {
                Ok(v) => (msg.result matches Some(o) && o@.contains_key("tools"@)
                    && v == o@["tools"@]),
                Err(e) => e == Error::NotFound && (match msg.result {
                    Some(o) => !o@.contains_key("tools"@),
                    None => true,
                }),
            },
    {
        match msg.result {
            Some(mut o) => {
                let key = String::from_str("tools");
                match o.take(&key) {
                    Some(v) => Ok(v),
                    None => Err(Error::NotFound),
                }
            },
            None => Err(Error::NotFound),
        }
    }

    /// The result carried by a call's reply, `Error::NotFound` when it
    /// has none.
    pub fn call_response(msg: JsonRPCMessage) -> (r: Result<JsonObject, Error>)
        ensures
            match r {
                Ok(o) => msg.result == Some(o),
                Err(e) => e == Error::NotFound && msg.result is None,
            },
    {
        match msg.result {
            Some(o) => Ok(o),
            None => Err(Error::NotFound),
        }
    }
}

/// The ids that `k` successive calls draw from a counter standing at
/// `start`.
pub open spec fn call_ids(start: u64, k: nat) -> Seq<u64> {
    Seq::new(k, |i: int| (start + i) as u64)
}

/// Successive calls never share an id: the counter only moves forward.
pub proof fn lemma_call_ids_distinct(start: u64, k: nat, i: int, j: int)
    requires
        start + k <= u64::MAX,
        0 <= i < j < k,
    ensures
        call_ids(start, k)[i] != call_ids(start, k)[j],
{
}

} // verus!
