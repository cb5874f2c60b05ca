use vstd::prelude::*;

verus! {

/// Errors of the transport and protocol layers.
///
/// Text carried by a variant is UTF-8 bytes, like every other piece of wire
/// text in this crate.
#[derive(Debug, Clone, PartialEq, Eq)]
pub enum Error {
    NotImplemented,
    QuitSignalFailure,
    /// The initial HTTP request did not yield a usable stream.
    ConnectionFailure,
    Empty,
    /// An operation needed a live stream or a known endpoint and had neither.
    NotConnected,
    MissingSender,
    EventSendFailure,
    /// A wire line was not valid UTF-8 text.
    InvalidEncoding,
    /// A frame named an event type the protocol does not know.
    UnsupportedEventType { name: Vec<u8> },
    UrlNotInitialized,
    /// The announced endpoint path could not be anchored in the origin URL.
    InvalidEndpoint,
    HttpFailure,
    ReadFailure,
    EndpointMissing,
    Eof,
    /// A message arrived in a handshake state that cannot accept it.
    ConnectionStateFailure,
    /// An expected result shape was missing from a response.
    NotFound,
    /// Serializing or deserializing a message body failed.
    Serialization,
    FunctionCallFailure { error: Vec<u8> },
}

} // verus!
