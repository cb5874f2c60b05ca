use vstd::prelude::*;

use crate::client::io::OMcpClient;
use crate::client::sse::SseClient;
use crate::client::types::OMcpServerType;
use crate::encoding::{append_bytes, bytes_eq};
use crate::error::Error;

verus! {

/// The header texts of a pair list, for contracts.
pub open spec fn headers_view(h: Seq<(Vec<u8>, Vec<u8>)>) -> Seq<(Seq<u8>, Seq<u8>)> {
    Seq::new(h.len(), |i: int| (h[i].0@, h[i].1@))
}

/// Index of the first pair named `k`; -1 when there is none.
pub open spec fn header_index(s: Seq<(Seq<u8>, Seq<u8>)>, k: Seq<u8>, from: int) -> int
    recommends
        0 <= from,
    decreases s.len() - from,
    when 0 <= from
{
    if from >= s.len() {
        -1
    } else if s[from].0 == k {
        from
    } else {
        header_index(s, k, from + 1)
    }
}

/// A pair list after setting `k` to `v`: the first pair named `k` is
/// replaced, or the pair is appended when the name is new.
pub open spec fn headers_insert(s: Seq<(Seq<u8>, Seq<u8>)>, k: Seq<u8>, v: Seq<u8>) -> Seq<
    (Seq<u8>, Seq<u8>),
> {
    let i = header_index(s, k, 0);
    if i < 0 {
        s.push((k, v))
    } else {
        s.update(i, (k, v))
    }
}

/// The byte text of the `Authorization` header name.
pub open spec fn authorization_name() -> Seq<u8> {
    seq![65u8, 117, 116, 104, 111, 114, 105, 122, 97, 116, 105, 111, 110]
}

/// The byte text of the `Bearer ` scheme prefix.
pub open spec fn bearer_prefix() -> Seq<u8> {
    seq![66u8, 101, 97, 114, 101, 114, 32]
}

proof fn lemma_header_index_found(s: Seq<(Seq<u8>, Seq<u8>)>, k: Seq<u8>, from: int, i: int)
    requires
        0 <= from <= i <= s.len(),
        forall|j: int| from <= j < i ==> s[j].0 != k,
        i < s.len() ==> s[i].0 == k,
    ensures
        header_index(s, k, from) == if i < s.len() {
            i
        } else {
            -1
        },
    decreases i - from,
{
    if from < i {
        lemma_header_index_found(s, k, from + 1, i);
    }
}

/// Configuration a client is built from: the connect URL, the transport
/// kind, and the header pairs every request carries.
#[derive(Debug)]
pub struct OMcpClientBuilder {
    pub url: Vec<u8>,
    pub server_type: OMcpServerType,
    pub headers: Vec<(Vec<u8>, Vec<u8>)>,
}

impl OMcpClientBuilder {
    /// An empty configuration for the given transport kind.
    pub fn new(server_type: OMcpServerType) -> (r: OMcpClientBuilder)
        ensures
            r.url@ == Seq::<u8>::empty(),
            r.server_type == server_type,
            r.headers@ == Seq::<(Vec<u8>, Vec<u8>)>::empty(),
    {
        OMcpClientBuilder { url: Vec::new(), server_type, headers: Vec::new() }
    }

    /// Replaces the connect URL.
    pub fn with_sse_url(self, url: &[u8]) -> (r: OMcpClientBuilder)
        ensures
            r.url@ == url@,
            r.server_type == self.server_type,
            r.headers == self.headers,
    {
        let mut b = self;
        b.url = vstd::slice::slice_to_vec(url);
        b
    }

    /// Adds a bearer token: the `Authorization` header with the
    /// `Bearer ` scheme.  Whether the token's bytes are acceptable header
    /// text is for the HTTP layer to decide at send time.
    pub fn with_sse_bearer(self, bearer: &[u8]) -> (r: Result<OMcpClientBuilder, Error>)
        ensures
            (r matches Ok(b) && headers_view(b.headers@) == headers_insert(
                headers_view(self.headers@),
                authorization_name(),
                bearer_prefix() + bearer@,
            ) && b.url == self.url && b.server_type == self.server_type),
    {
        let mut name: Vec<u8> = Vec::new();
        name.push(65);
        name.push(117);
        name.push(116);
        name.push(104);
        name.push(111);
        name.push(114);
        name.push(105);
        name.push(122);
        name.push(97);
        name.push(116);
        name.push(105);
        name.push(111);
        name.push(110);
        let mut value: Vec<u8> = Vec::new();
        value.push(66);
        value.push(101);
        value.push(97);
        value.push(114);
        value.push(101);
        value.push(114);
        value.push(32);
        append_bytes(&mut value, bearer);
        proof {
            assert(name@ =~= authorization_name());
            assert(value@ =~= bearer_prefix() + bearer@);
        }
        self.with_sse_header(name.as_slice(), value.as_slice())
    }

    /// Sets one header: the first pair with the same name is replaced,
    /// a new name is appended.
    pub fn with_sse_header(self, key: &[u8], value: &[u8]) -> (r: Result<OMcpClientBuilder, Error>)
        ensures
            (r matches Ok(b) && headers_view(b.headers@) == headers_insert(
                headers_view(self.headers@),
                key@,
                value@,
            ) && b.url == self.url && b.server_type == self.server_type),
    {
        let ghost old_view = headers_view(self.headers@);
        let mut b = self;
        let pair = (vstd::slice::slice_to_vec(key), vstd::slice::slice_to_vec(value));
        let n = b.headers.len();
        let mut i: usize = 0;
        while i < n
            invariant
                i <= n,
                n == b.headers@.len(),
                old_view == headers_view(self.headers@),
                old_view == headers_view(b.headers@),
                b.url == self.url,
                b.server_type == self.server_type,
                pair.0@ == key@,
                pair.1@ == value@,
                forall|j: int| 0 <= j < i ==> headers_view(b.headers@)[j].0 != key@,
            decreases n - i,
        {
            if bytes_eq(b.headers[i].0.as_slice(), key) {
                proof {
                    lemma_header_index_found(old_view, key@, 0, i as int);
                }
                b.headers.remove(i);
                b.headers.insert(i, pair);
                proof {
                    assert(headers_view(b.headers@) =~= old_view.update(
                        i as int,
                        (key@, value@),
                    ));
                }
                return Ok(b);
            }
            i = i + 1;
        }
        proof {
            lemma_header_index_found(old_view, key@, 0, n as int);
        }
        b.headers.push(pair);
        proof {
            assert(headers_view(b.headers@) =~= old_view.push((key@, value@)));
        }
        Ok(b)
    }

    /// The client this configuration describes.  Only the streaming
    /// transport is built here.
    pub fn build(self) -> (r: OMcpClient)
        requires
            self.server_type is Sse,
        ensures
            (r matches OMcpClient::Sse(c) && c.server_spec() == self.url@ && c.headers_spec()
                == self.headers@ && c.endpoint_spec() is None && c.state_spec()
                == crate::client::sse::SseClientState::Uninitialized && !c.connected_spec()),
    {
        OMcpClient::Sse(SseClient::from_builder(self))
    }
}

} // verus!
