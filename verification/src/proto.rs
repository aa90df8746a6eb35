//! The protocol's messages, as plain values (the wire encoding itself is
//! protobuf's, done by the programs around the library). Samples carry
//! floating-point readings and are not among them.

use vstd::prelude::*;

verus! {

/// An energy source as the daemon describes it to clients.
#[derive(Debug, PartialEq)]
pub struct Source {
    pub source_id: u32,
    pub name: String,
    pub kind: String,
    pub unit: String,
    pub available: bool,
}

impl Clone for Source {
    fn clone(&self) -> (r: Self)
        ensures
            r == *self,
    {
        Source {
            source_id: self.source_id,
            name: self.name.clone(),
            kind: self.kind.clone(),
            unit: self.unit.clone(),
            available: self.available,
        }
    }
}

/// Opens a session: the client's protocol version and name.
#[derive(Clone, Debug, PartialEq)]
pub struct HelloRequest {
    pub protocol_version: u32,
    pub client_name: String,
}

/// Asks for the daemon's energy sources.
#[derive(Clone, Debug, PartialEq)]
pub struct ListSourcesRequest {}

/// Asks for a stream of samples of some sources (all available ones when
/// `source_ids` is empty) every `interval_ns` nanoseconds.
#[derive(Clone, Debug, PartialEq)]
pub struct StartStreamRequest {
    pub source_ids: Vec<u32>,
    pub interval_ns: u64,
    pub include_raw: bool,
}

/// Asks the daemon to stop the running stream.
#[derive(Clone, Debug, PartialEq)]
pub struct StopStreamRequest {}

/// What a request asks for.
#[derive(Clone, Debug, PartialEq)]
pub enum RequestKind {
    Hello(HelloRequest),
    ListSources(ListSourcesRequest),
    StartStream(StartStreamRequest),
    StopStream(StopStreamRequest),
}

/// A client request.
#[derive(Clone, Debug, PartialEq)]
pub struct Request {
    pub request_id: u64,
    pub kind: Option<RequestKind>,
}

/// The daemon's answer to a hello.
#[derive(Clone, Debug, PartialEq)]
pub struct HelloResponse {
    pub protocol_version: u32,
    pub daemon_version: String,
}

/// The daemon's energy sources.
#[derive(Clone, Debug, PartialEq)]
pub struct ListSourcesResponse {
    pub sources: Vec<Source>,
}

/// Whether a stream started, and the interval in effect.
#[derive(Clone, Debug, PartialEq)]
pub struct StartStreamResponse {
    pub started: bool,
    pub effective_interval_ns: u64,
}

/// Whether a running stream was stopped.
#[derive(Clone, Debug, PartialEq)]
pub struct StopStreamResponse {
    pub stopped: bool,
}

/// A refused request: an error code and a message.
#[derive(Clone, Debug, PartialEq)]
pub struct Error {
    pub code: u32,
    pub message: String,
}

/// What a response carries (a sample is sent by the stream, not here).
#[derive(Clone, Debug, PartialEq)]
pub enum ResponseKind {
    Hello(HelloResponse),
    ListSources(ListSourcesResponse),
    StartStream(StartStreamResponse),
    StopStream(StopStreamResponse),
    Error(Error),
}

/// A daemon response, tagged with the id of the request it answers.
#[derive(Clone, Debug, PartialEq)]
pub struct Response {
    pub request_id: u64,
    pub kind: Option<ResponseKind>,
}

} // verus!
