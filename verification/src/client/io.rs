use vstd::prelude::*;

use crate::client::sse::SseClient;

verus! {

/// A built client, by transport.  Only the streaming transport carries
/// verified session logic; the alternative transports live with the I/O
/// around the library.
#[derive(Debug)]
pub enum OMcpClient {
    Sse(SseClient),
}

impl OMcpClient {
    /// The streaming session inside.
    pub fn as_sse(&self) -> (r: &SseClient)
        ensures
            *self == OMcpClient::Sse(*r),
    {
        match self {
            OMcpClient::Sse(c) => c,
        }
    }

    /// The streaming session inside, for driving.
    pub fn as_sse_mut(&mut self) -> (r: &mut SseClient)
        ensures
            *old(self) == OMcpClient::Sse(*r),
            *final(self) == OMcpClient::Sse(*final(r)),
    {
        match self {
            OMcpClient::Sse(c) => c,
        }
    }
}

} // verus!
