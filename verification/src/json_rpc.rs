use vstd::prelude::*;
use vstd::string::StringExecFns;

use crate::types::McpParams;

verus! {

/// Version tag carried by every envelope.
pub const JSON_RPC_VERSION: &'static str = "2.0";

/// Protocol revision announced during the handshake.
pub const JSON_RPC_PROTOCOL_VERSION: &'static str = "2025-03-26";

/// Client name announced during the handshake.
pub const CLIENT_NAME: &'static str = "omcp";

/// Client version announced during the handshake.
pub const CLIENT_VERSION: &'static str = "0.1.0";

/// JSON values that ride inside message payloads.  The transport never looks
/// inside one; it only stores, moves and hands them out.
#[verifier::external_type_specification]
#[verifier::external_body]
pub struct ExValue(serde_json::Value);

/// One `key: value` pair of a JSON object payload.
#[derive(Debug)]
pub struct JsonEntry {
    pub key: String,
    pub value: serde_json::Value,
}

/// A JSON object payload: an association list with pairwise distinct keys,
/// viewed as a map from key text to value.
#[derive(Debug)]
pub struct JsonObject {
    entries: Vec<JsonEntry>,
}

/// True when no two entries share a key.
pub open spec fn unique_keys(s: Seq<JsonEntry>) -> bool {
    forall|i: int, j: int| 0 <= i < j < s.len() ==> s[i].key@ != s[j].key@
}

/// The map an entry sequence denotes; a later entry would win over an
/// earlier one with the same key, but well-formed objects have no such pair.
pub open spec fn entries_map(s: Seq<JsonEntry>) -> Map<Seq<char>, serde_json::Value>
    decreases s.len(),
{
    if s.len() == 0 {
        Map::empty()
    } else {
        entries_map(s.drop_last()).insert(s.last().key@, s.last().value)
    }
}

proof fn lemma_entries_map_domain(s: Seq<JsonEntry>, k: Seq<char>)
    ensures
        entries_map(s).contains_key(k) <==> exists|i: int| 0 <= i < s.len() && s[i].key@ == k,
    decreases s.len(),
{
    if s.len() > 0 {
        lemma_entries_map_domain(s.drop_last(), k);
        if entries_map(s).contains_key(k) {
            if s.last().key@ != k {
                let i = choose|i: int| 0 <= i < s.drop_last().len() && s.drop_last()[i].key@ == k;
                assert(s[i].key@ == k);
            }
        }
        if exists|i: int| 0 <= i < s.len() && s[i].key@ == k {
            let i = choose|i: int| 0 <= i < s.len() && s[i].key@ == k;
            if i < s.len() - 1 {
                assert(s.drop_last()[i].key@ == k);
            }
        }
    }
}

proof fn lemma_entries_map_lookup(s: Seq<JsonEntry>, i: int)
    requires
        unique_keys(s),
        0 <= i < s.len(),
    ensures
        entries_map(s).contains_key(s[i].key@),
        entries_map(s)[s[i].key@] == s[i].value,
    decreases s.len(),
{
    if i == s.len() - 1 {
    } else {
        assert(s.drop_last()[i] == s[i]);
        lemma_entries_map_lookup(s.drop_last(), i);
        assert(s[i].key@ != s.last().key@);
    }
}

proof fn lemma_entries_map_remove(s: Seq<JsonEntry>, i: int)
    requires
        unique_keys(s),
        0 <= i < s.len(),
    ensures
        entries_map(s.remove(i)) =~= entries_map(s).remove(s[i].key@),
    decreases s.len(),
{
    if i == s.len() - 1 {
        assert(s.remove(i) =~= s.drop_last());
        lemma_entries_map_domain(s.drop_last(), s[i].key@);
        assert(forall|j: int|
            0 <= j < s.drop_last().len() ==> #[trigger] s.drop_last()[j].key@ != s[i].key@);
    } else {
        assert(s.remove(i).drop_last() =~= s.drop_last().remove(i));
        assert(s.remove(i).last() == s.last());
        lemma_entries_map_remove(s.drop_last(), i);
        assert(s.drop_last()[i] == s[i]);
        assert(s[i].key@ != s.last().key@);
    }
}

impl View for JsonObject {
    type V = Map<Seq<char>, serde_json::Value>;

    closed spec fn view(&self) -> Map<Seq<char>, serde_json::Value> {
        entries_map(self.entries@)
    }
}

impl JsonObject {
    /// Well-formed: keys are pairwise distinct.  Every constructor
    /// establishes this and every method preserves it.
    pub closed spec fn wf(&self) -> bool {
        unique_keys(self.entries@)
    }

    /// The empty object.
    pub fn new() -> (r: JsonObject)
        ensures
            r.wf(),
            r@ == Map::<Seq<char>, serde_json::Value>::empty(),
    {
        JsonObject { entries: Vec::new() }
    }

    /// Number of keys.
    pub fn len(&self) -> (r: usize)
        requires
            self.wf(),
        ensures
            r == self@.dom().len(),
    {
        proof {
            Self::lemma_len(self.entries@);
        }
        self.entries.len()
    }

    /// True when the object has no keys.
    pub fn is_empty(&self) -> (r: bool)
        requires
            self.wf(),
        ensures
            r == (self@ == Map::<Seq<char>, serde_json::Value>::empty()),
    {
        proof {
            Self::lemma_len(self.entries@);
            if self.entries@.len() == 0 {
                assert(self@ =~= Map::<Seq<char>, serde_json::Value>::empty());
            } else {
                lemma_entries_map_lookup(self.entries@, 0);
            }
        }
        self.entries.len() == 0
    }

    proof fn lemma_len(s: Seq<JsonEntry>)
        requires
            unique_keys(s),
        ensures
            entries_map(s).dom().finite(),
            entries_map(s).dom().len() == s.len(),
        decreases s.len(),
    {
        if s.len() > 0 {
            Self::lemma_len(s.drop_last());
            lemma_entries_map_domain(s.drop_last(), s.last().key@);
        }
    }

    /// Index of the entry holding `key`, if any.
    fn find(&self, key: &String) -> (r: Option<usize>)
        requires
            self.wf(),
        ensures
            match r {
                Some(i) => i < self.entries@.len() && self.entries@[i as int].key@ == key@,
                None => forall|j: int|
                    0 <= j < self.entries@.len() ==> #[trigger] self.entries@[j].key@ != key@,
            },
    {
        let n = self.entries.len();
        let mut i: usize = 0;
        while i < n
            invariant
                i <= n,
                n == self.entries@.len(),
                forall|j: int| 0 <= j < i ==> #[trigger] self.entries@[j].key@ != key@,
            decreases n - i,
        {
            if self.entries[i].key.eq(key) {
                return Some(i);
            }
            i = i + 1;
        }
        None
    }

    /// The value under `key`, if present.
    pub fn get<'a>(&'a self, key: &String) -> (r: Option<&'a serde_json::Value>)
        requires
            self.wf(),
        ensures
            match r {
                Some(v) => self@.contains_key(key@) && *v == self@[key@],
                None => !self@.contains_key(key@),
            },
    {
        proof {
            lemma_entries_map_domain(self.entries@, key@);
        }
        match self.find(key) {
            Some(i) => {
                proof {
                    lemma_entries_map_lookup(self.entries@, i as int);
                }
                Some(&self.entries[i].value)
            },
            None => None,
        }
    }

    /// Removes `key` and returns its value, if present.
    pub fn take(&mut self, key: &String) -> (r: Option<serde_json::Value>)
        requires
            old(self).wf(),
        ensures
            final(self).wf(),
            final(self)@ == old(self)@.remove(key@),
            match r {
                Some(v) => old(self)@.contains_key(key@) && v == old(self)@[key@],
                None => !old(self)@.contains_key(key@),
            },
    {
        proof {
            lemma_entries_map_domain(self.entries@, key@);
        }
        match self.find(key) {
            Some(i) => {
                proof {
                    lemma_entries_map_lookup(self.entries@, i as int);
                    lemma_entries_map_remove(self.entries@, i as int);
                }
                let entry = self.entries.remove(i);
                Some(entry.value)
            },
            None => {
                proof {
                    assert(old(self)@.remove(key@) =~= old(self)@);
                }
                None
            },
        }
    }

    /// Binds `key` to `value`, replacing any earlier binding.
    pub fn insert(&mut self, key: String, value: serde_json::Value)
        requires
            old(self).wf(),
        ensures
            final(self).wf(),
            final(self)@ == old(self)@.insert(key@, value),
    {
        let _ = self.take(&key);
        let ghost taken = self.entries@;
        self.entries.push(JsonEntry { key, value });
        proof {
            assert(self.entries@.drop_last() =~= taken);
            assert(forall|j: int|
                0 <= j < taken.len() ==> #[trigger] taken[j].key@ != self.entries@.last().key@)
                by {
                lemma_entries_map_domain(taken, self.entries@.last().key@);
            }
            assert(final(self)@ =~= old(self)@.insert(self.entries@.last().key@, value));
        }
    }

    /// Hands the entries out as a vector; keys are pairwise distinct and
    /// denote exactly the object's map.
    pub fn into_vec(self) -> (r: Vec<JsonEntry>)
        requires
            self.wf(),
        ensures
            unique_keys(r@),
            entries_map(r@) == self@,
    {
        self.entries
    }
}

/// Root-listing capability declared by this client.
#[derive(Debug)]
pub struct JsonRPCRoots {
    pub list_changed: bool,
}

/// Sampling capability declared by this client (an empty object on the wire).
#[derive(Debug)]
pub struct JsonRPCSampling {}

/// Capability set announced in the `initialize` request.
#[derive(Debug)]
pub struct JsonRPCCapabilities {
    pub roots: JsonRPCRoots,
    pub sampling: JsonRPCSampling,
}

/// Name and version announced in the `initialize` request.
#[derive(Debug)]
pub struct JsonRPCClientInfo {
    pub name: String,
    pub version: String,
}

/// Parameters of the `initialize` request: protocol revision, capabilities
/// and client identity.
#[derive(Debug)]
pub struct JsonRPCInitParams {
    pub protocol_version: String,
    pub capabilities: JsonRPCCapabilities,
    pub client_info: JsonRPCClientInfo,
}

impl JsonRPCInitParams {
    /// The fixed handshake payload of this client.
    pub fn new() -> (r: JsonRPCInitParams)
        ensures
            r.protocol_version@ == JSON_RPC_PROTOCOL_VERSION@,
            r.capabilities.roots.list_changed,
            r.client_info.name@ == CLIENT_NAME@,
            r.client_info.version@ == CLIENT_VERSION@,
    {
        let roots = JsonRPCRoots { list_changed: true };
        let sampling = JsonRPCSampling {};
        let capabilities = JsonRPCCapabilities { roots, sampling };
        let client_info = JsonRPCClientInfo {
            name: String::from_str(CLIENT_NAME),
            version: String::from_str(CLIENT_VERSION),
        };
        JsonRPCInitParams {
            protocol_version: String::from_str(JSON_RPC_PROTOCOL_VERSION),
            capabilities,
            client_info,
        }
    }
}

/// A tool as named in a listing reply.
#[derive(Debug)]
pub struct JsonRPCTool {
    pub name: String,
}

/// Server identity as named in an `initialize` reply.
#[derive(Debug)]
pub struct JsonRPCServerInfo {
    pub name: String,
    pub version: String,
}

/// The error member of a response envelope.
#[derive(Debug)]
pub struct JsonRPCError {
    pub code: u64,
    pub message: String,
}

/// Parameters of an outbound or inbound request, by payload shape.
#[derive(Debug)]
pub enum JsonRPCParameters {
    /// Handshake payload of `initialize`.
    Init(JsonRPCInitParams),
    /// `tools/call` payload: tool name and arguments.
    Tool(McpParams),
    /// Any other object payload.
    Object(JsonObject),
}

/// A JSON-RPC envelope.  A message is a request when `id` and `method` are
/// both present, a notification when only `method` is, and a response when
/// only `id` is.
#[derive(Debug)]
pub struct JsonRPCMessage {
    pub jsonrpc: String,
    pub id: Option<u64>,
    pub method: Option<String>,
    pub result: Option<JsonObject>,
    pub error: Option<JsonRPCError>,
    pub parameters: Option<JsonRPCParameters>,
}

impl JsonRPCMessage {
    /// Carries a method invocation that expects a reply.
    pub open spec fn is_request(&self) -> bool {
        self.id is Some && self.method is Some
    }

    /// Carries a method invocation with no reply expected.
    pub open spec fn is_notification(&self) -> bool {
        self.method is Some && self.id is None
    }

    /// Carries a result or error for an earlier request.
    pub open spec fn is_response(&self) -> bool {
        self.id is Some && self.method is None
    }
}

/// Step-by-step construction of an envelope, starting from the bare
/// version tag.
#[derive(Debug)]
pub struct JsonRPCMessageBuilder {
    inner: JsonRPCMessage,
}

impl JsonRPCMessageBuilder {
    /// The spec view of the message under construction.
    pub closed spec fn inner_spec(&self) -> JsonRPCMessage {
        self.inner
    }

    /// An envelope with the version tag set and every optional member absent.
    pub fn new() -> (r: JsonRPCMessageBuilder)
        ensures
            r.inner_spec().jsonrpc@ == JSON_RPC_VERSION@,
            r.inner_spec().id is None,
            r.inner_spec().method is None,
            r.inner_spec().result is None,
            r.inner_spec().error is None,
            r.inner_spec().parameters is None,
    {
        let inner = JsonRPCMessage {
            jsonrpc: String::from_str(JSON_RPC_VERSION),
            id: None,
            method: None,
            result: None,
            error: None,
            parameters: None,
        };
        JsonRPCMessageBuilder { inner }
    }

    pub fn with_id(self, id: u64) -> (r: JsonRPCMessageBuilder)
        ensures
            r.inner_spec() == (JsonRPCMessage { id: Some(id), ..self.inner_spec() }),
    {
        let mut b = self;
        b.inner.id = Some(id);
        b
    }

    pub fn with_method(self, method: &str) -> (r: JsonRPCMessageBuilder)
        ensures
            (r.inner_spec().method matches Some(m) && m@ == method@),
            r.inner_spec() == (JsonRPCMessage {
                method: r.inner_spec().method,
                ..self.inner_spec()
            }),
    {
        let mut b = self;
        b.inner.method = Some(String::from_str(method));
        b
    }

    pub fn with_parameter(self, parameters: JsonRPCParameters) -> (r: JsonRPCMessageBuilder)
        ensures
            r.inner_spec() == (JsonRPCMessage {
                parameters: Some(parameters),
                ..self.inner_spec()
            }),
    {
        let mut b = self;
        b.inner.parameters = Some(parameters);
        b
    }

    pub fn with_result(self, result: JsonObject) -> (r: JsonRPCMessageBuilder)
        ensures
            r.inner_spec() == (JsonRPCMessage { result: Some(result), ..self.inner_spec() }),
    {
        let mut b = self;
        b.inner.result = Some(result);
        b
    }

    pub fn with_error(self, code: u64, message: &str) -> (r: JsonRPCMessageBuilder)
        ensures
            (r.inner_spec().error matches Some(e) && e.code == code && e.message@ == message@),
            r.inner_spec() == (JsonRPCMessage { error: r.inner_spec().error, ..self.inner_spec() }),
    {
        let mut b = self;
        b.inner.error = Some(
            JsonRPCError { code, message: String::from_str(message) },
        );
        b
    }

    pub fn build(self) -> (r: JsonRPCMessage)
        ensures
            r == self.inner_spec(),
    {
        self.inner
    }
}

} // verus!
