use vstd::prelude::*;

use crate::error::Error;
use crate::json_rpc::{JsonRPCMessage, JsonRPCMessageBuilder};

verus! {

/// Transport variants a client can be built over.
#[derive(Debug)]
pub enum OMcpServerType {
    Sse,
    Baked,
}

/// Index of the first `/` in `s` at or after `from`; `s.len()` when there
/// is none.
pub open spec fn first_slash(s: Seq<u8>, from: int) -> int
    recommends
        0 <= from <= s.len(),
    decreases s.len() - from,
    when 0 <= from <= s.len()
{
    if from >= s.len() {
        s.len() as int
    } else if s[from] == 47 {
        from
    } else {
        first_slash(s, from + 1)
    }
}

/// True when `needle` occurs in `hay` starting at `k`.
pub open spec fn match_at(hay: Seq<u8>, needle: Seq<u8>, k: int) -> bool {
    0 <= k && k + needle.len() <= hay.len() && hay.subrange(k, k + needle.len()) == needle
}

/// Index of the first occurrence of `needle` in `hay` at or after `from`;
/// -1 when there is none.
pub open spec fn first_match(hay: Seq<u8>, needle: Seq<u8>, from: int) -> int
    recommends
        0 <= from,
        needle.len() > 0,
    decreases hay.len() - from,
    when 0 <= from && needle.len() > 0
{
    if from + needle.len() > hay.len() {
        -1
    } else if match_at(hay, needle, from) {
        from
    } else {
        first_match(hay, needle, from + 1)
    }
}

/// The announced path's anchor substring: the first `/`-delimited segment
/// of `path` with its leading slash, e.g. `/messages` for
/// `/messages/abcd`.  `None` when `path` has no slash at all.
pub open spec fn path_root(path: Seq<u8>) -> Option<Seq<u8>> {
    let i = first_slash(path, 0);
    if i >= path.len() {
        None
    } else {
        Some(path.subrange(i, first_slash(path, i + 1)))
    }
}

/// The endpoint URL that `path` resolves to against `server`: the part of
/// `server` before the first occurrence of the anchor, followed by the
/// whole of `path`.  `None` when `path` has no anchor or `server` does not
/// contain it.
pub open spec fn resolved_url(server: Seq<u8>, path: Seq<u8>) -> Option<Seq<u8>> {
    match path_root(path) {
        None => None,
        Some(root) => {
            let k = first_match(server, root, 0);
            if k < 0 {
                None
            } else {
                Some(server.subrange(0, k) + path)
            }
        },
    }
}

proof fn lemma_first_slash_found(s: Seq<u8>, from: int, i: int)
    requires
        0 <= from <= i <= s.len(),
        forall|j: int| from <= j < i ==> s[j] != 47,
        i < s.len() ==> s[i] == 47,
    ensures
        first_slash(s, from) == if i < s.len() {
            i
        } else {
            s.len() as int
        },
    decreases i - from,
{
    if from < i {
        lemma_first_slash_found(s, from + 1, i);
    }
}

proof fn lemma_first_match_found(hay: Seq<u8>, needle: Seq<u8>, from: int, k: int)
    requires
        needle.len() > 0,
        0 <= from <= k,
        forall|j: int| from <= j < k ==> !match_at(hay, needle, j),
        if k + needle.len() <= hay.len() {
            match_at(hay, needle, k)
        } else {
            forall|j: int| k <= j ==> !match_at(hay, needle, j)
        },
    ensures
        first_match(hay, needle, from) == if k + needle.len() <= hay.len() {
            k
        } else {
            -1
        },
    decreases k - from,
{
    if from < k {
        lemma_first_match_found(hay, needle, from + 1, k);
    }
}

/// The endpoint announced by the server: the literal path and the absolute
/// URL it resolves to against the connect URL, fixed once at announcement
/// time.
#[derive(Debug)]
pub struct SseEventEndpoint {
    pub endpoint: Vec<u8>,
    pub url: Vec<u8>,
}

impl SseEventEndpoint {
    /// Resolves `endpoint` against `server`.  Fails with
    /// `Error::InvalidEndpoint` exactly when the path has no first segment
    /// or `server` does not contain it.
    pub fn new(server: &[u8], endpoint: &[u8]) -> (r: Result<SseEventEndpoint, Error>)
        ensures
            match r {
                Ok(e) => resolved_url(server@, endpoint@) == Some(e.url@) && e.endpoint@
                    == endpoint@,
                Err(er) => er == Error::InvalidEndpoint && resolved_url(server@, endpoint@)
                    is None,
            },
    {
        let path_len = endpoint.len();
        // First slash of the announced path.
        let mut i: usize = 0;
        while i < path_len && endpoint[i] != 47
            invariant
                i <= path_len,
                path_len == endpoint@.len(),
                forall|j: int| 0 <= j < i ==> endpoint@[j] != 47,
            decreases path_len - i,
        {
            i = i + 1;
        }
        proof {
            lemma_first_slash_found(endpoint@, 0, i as int);
        }
        if i == path_len {
            return Err(Error::InvalidEndpoint);
        }
        // Slash (or end) closing the first segment.
        let mut j: usize = i + 1;
        while j < path_len && endpoint[j] != 47
            invariant
                i < j <= path_len,
                path_len == endpoint@.len(),
                forall|k: int| i < k < j ==> endpoint@[k] != 47,
            decreases path_len - j,
        {
            j = j + 1;
        }
        proof {
            lemma_first_slash_found(endpoint@, i as int + 1, j as int);
        }
        let root = vstd::slice::slice_subrange(endpoint, i, j);
        // First occurrence of the anchor in the origin.
        let root_len = j - i;
        let server_len = server.len();
        if root_len <= server_len {
            let last = server_len - root_len;
            let mut k: usize = 0;
            while k <= last
                invariant
                    k <= last + 1,
                    1 <= root_len <= server_len,
                    last == server_len - root_len,
                    root_len == root@.len(),
                    server_len == server@.len(),
                    root@ == endpoint@.subrange(i as int, j as int),
                    path_root(endpoint@) == Some(root@),
                    forall|m: int| 0 <= m < k ==> !match_at(server@, root@, m),
                decreases last + 1 - k,
            {
                let window = vstd::slice::slice_subrange(server, k, k + root_len);
                if crate::encoding::bytes_eq(window, root) {
                    proof {
                        lemma_first_match_found(server@, root@, 0, k as int);
                    }
                    let base = vstd::slice::slice_subrange(server, 0, k);
                    let mut url: Vec<u8> = Vec::new();
                    crate::encoding::append_bytes(&mut url, base);
                    crate::encoding::append_bytes(&mut url, endpoint);
                    proof {
                        assert(url@ =~= server@.subrange(0, k as int) + endpoint@);
                    }
                    return Ok(
                        SseEventEndpoint { endpoint: vstd::slice::slice_to_vec(endpoint), url },
                    );
                }
                k = k + 1;
            }
            proof {
                assert(forall|m: int| k <= m ==> !match_at(server@, root@, m));
                lemma_first_match_found(server@, root@, 0, k as int);
            }
        } else {
            proof {
                assert(forall|m: int| 0 <= m ==> !match_at(server@, root@, m));
                lemma_first_match_found(server@, root@, 0, 0);
            }
        }
        Err(Error::InvalidEndpoint)
    }
}

/// A protocol event after classification: a fresh endpoint announcement or
/// one JSON-RPC message envelope.
#[derive(Debug)]
pub enum SseEvent {
    Endpoint(SseEventEndpoint),
    JsonRpcMessage(Box<JsonRPCMessage>),
}

/// A classified frame whose message body, if any, is still raw text: the
/// envelope bytes only become a `JsonRPCMessage` once decoded outside the
/// library.
#[derive(Debug)]
pub enum SseRawEvent {
    Endpoint(SseEventEndpoint),
    Message(Vec<u8>),
}

/// The byte text of the `endpoint` event name.
pub open spec fn endpoint_name() -> Seq<u8> {
    seq![101u8, 110, 100, 112, 111, 105, 110, 116]
}

/// The byte text of the `message` event name.
pub open spec fn message_name() -> Seq<u8> {
    seq![109u8, 101, 115, 115, 97, 103, 101]
}

/// Accumulator for one wire frame: the origin it belongs to and the
/// `event`/`data` texts gathered so far.  A frame is complete exactly when
/// both texts are non-empty.
#[derive(Debug)]
pub struct SseWireEvent {
    pub server: Vec<u8>,
    pub event: Vec<u8>,
    pub data: Vec<u8>,
}

impl SseWireEvent {
    /// An empty accumulator for `server`'s stream.
    pub fn new(server: &[u8]) -> (r: SseWireEvent)
        ensures
            r.server@ == server@,
            r.event@ == Seq::<u8>::empty(),
            r.data@ == Seq::<u8>::empty(),
    {
        SseWireEvent {
            server: vstd::slice::slice_to_vec(server),
            event: Vec::new(),
            data: Vec::new(),
        }
    }
}

/// True when `e` is the `endpoint` event name.
fn is_endpoint_name(e: &[u8]) -> (r: bool)
    ensures
        r == (e@ == endpoint_name()),
{
    let r = e.len() == 8 && e[0] == 101 && e[1] == 110 && e[2] == 100 && e[3] == 112 && e[4]
        == 111 && e[5] == 105 && e[6] == 110 && e[7] == 116;
    proof {
        if r {
            assert(e@ =~= endpoint_name());
        }
    }
    r
}

/// True when `e` is the `message` event name.
fn is_message_name(e: &[u8]) -> (r: bool)
    ensures
        r == (e@ == message_name()),
{
    let r = e.len() == 7 && e[0] == 109 && e[1] == 101 && e[2] == 115 && e[3] == 115 && e[4]
        == 97 && e[5] == 103 && e[6] == 101;
    proof {
        if r {
            assert(e@ =~= message_name());
        }
    }
    r
}

/// Classifies one completed frame against its origin.  An `endpoint` frame
/// resolves its path; a `message` frame keeps its body for decoding; any
/// other event name is refused.
pub fn classify(server: &[u8], event: &[u8], data: &[u8]) -> (r: Result<SseRawEvent, Error>)
    ensures
        event@ == endpoint_name() ==> match r {
            Ok(ev) => (ev matches SseRawEvent::Endpoint(e) && resolved_url(server@, data@)
                == Some(e.url@) && e.endpoint@ == data@),
            Err(er) => er == Error::InvalidEndpoint && resolved_url(server@, data@) is None,
        },
        event@ == message_name() ==> (r matches Ok(SseRawEvent::Message(d)) && d@ == data@),
        event@ != endpoint_name() && event@ != message_name() ==> (r matches Err(
            Error::UnsupportedEventType { name },
        ) && name@ == event@),
{
    if is_endpoint_name(event) {
        match SseEventEndpoint::new(server, data) {
            Ok(e) => Ok(SseRawEvent::Endpoint(e)),
            Err(er) => Err(er),
        }
    } else if is_message_name(event) {
        Ok(SseRawEvent::Message(vstd::slice::slice_to_vec(data)))
    } else {
        Err(Error::UnsupportedEventType { name: vstd::slice::slice_to_vec(event) })
    }
}

/// True when classification of the frame `f` (event name, data) succeeds:
/// a `message` frame always does, an `endpoint` frame exactly when its
/// path resolves, and no other frame does.
pub open spec fn frame_classifies(server: Seq<u8>, f: (Seq<u8>, Seq<u8>)) -> bool {
    f.0 == message_name() || (f.0 == endpoint_name() && resolved_url(server, f.1) is Some)
}

/// True when `e` is the classification of the frame `f` against `server`.
pub open spec fn frame_event_matches(server: Seq<u8>, f: (Seq<u8>, Seq<u8>), e: SseRawEvent) -> bool {
    if f.0 == endpoint_name() {
        e matches SseRawEvent::Endpoint(ep) && ep.endpoint@ == f.1 && Some(ep.url@)
            == resolved_url(server, f.1)
    } else {
        f.0 == message_name() && (e matches SseRawEvent::Message(d) && d@ == f.1)
    }
}

/// True when `e` is the error that classification of the frame `f` gives.
pub open spec fn frame_error_matches(f: (Seq<u8>, Seq<u8>), e: Error) -> bool {
    if f.0 == endpoint_name() {
        e == Error::InvalidEndpoint
    } else {
        f.0 != message_name() && (e matches Error::UnsupportedEventType { name } && name@ == f.0)
    }
}

/// Wraps a decoded message body, or substitutes the fail-soft error
/// envelope when the body did not decode: one malformed push must not end
/// the session.
pub fn message_event(parsed: Option<JsonRPCMessage>) -> (r: SseEvent)
    ensures
        (parsed matches Some(m) ==> (r matches SseEvent::JsonRpcMessage(b) && *b == m)),
        parsed is None ==> (r matches SseEvent::JsonRpcMessage(b) && b.id is None && b.method
            is None && b.result is None && (b.error matches Some(e) && e.code == 1 && e.message@
            == "deserialization failure"@)),
{
    match parsed {
        Some(m) => SseEvent::JsonRpcMessage(Box::new(m)),
        None => {
            let msg = JsonRPCMessageBuilder::new().with_error(1, "deserialization failure").build();
            SseEvent::JsonRpcMessage(Box::new(msg))
        },
    }
}

} // verus!
