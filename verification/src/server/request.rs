use vstd::prelude::*;
use vstd::std_specs::convert::FromSpecImpl;

use crate::domain::node_id::NodeId;
use crate::server::log::ServerLogEntry;

verus! {

/// Message represents a message sent from or received by a Server.
#[derive(Clone, Debug)]
pub enum Message {
    Request(ServerRequest),
    Response(ServerResponse),
}

impl From<ServerRequest> for Message {
    fn from(req: ServerRequest) -> (m: Self) {
        Self::Request(req)
    }
}

impl FromSpecImpl<ServerRequest> for Message {
    open spec fn obeys_from_spec() -> bool {
        true
    }

    open spec fn from_spec(req: ServerRequest) -> Message {
        Message::Request(req)
    }
}

impl From<ServerResponse> for Message {
    fn from(res: ServerResponse) -> (m: Self) {
        Self::Response(res)
    }
}

impl FromSpecImpl<ServerResponse> for Message {
    open spec fn obeys_from_spec() -> bool {
        true
    }

    open spec fn from_spec(res: ServerResponse) -> Message {
        Message::Response(res)
    }
}

/// ServerMessagePayload represents the methods available on the payload of a server-specific Message
pub trait ServerMessagePayload<Body: Clone> {
    fn sender_id(&self) -> NodeId;

    fn term(&self) -> usize;

    fn body(&self) -> &Body;
}

/// ServerRequestHeaders represents the headers of a ServerRequest
#[derive(Clone, Copy, Debug, PartialEq, Eq, Structural)]
pub struct ServerRequestHeaders {
    pub node_id: NodeId,
    pub term: usize,
}

/// ServerRequestBody represents the body of a ServerRequest.
#[derive(Clone, Debug)]
pub enum ServerRequestBody {
    AppendEntries {
        /// so follower can redirect clients
        leader_id: NodeId,
        /// index of log entry immediately preceding new ones
        prev_log_index: usize,
        /// term of prevLogIndex entry
        prev_log_term: usize,
        /// log entries to store (empty for heartbeat; may send more
        /// than one for efficiency)
        entries: Vec<ServerLogEntry>,
        /// leader's commitIndex
        leader_commit: usize,
    },
    RequestVote {
        /// candidate requesting vote
        candidate_id: NodeId,
    },
}

/// ServerRequest represents a request sent by a Server.
#[derive(Clone, Debug)]
pub struct ServerRequest {
    headers: ServerRequestHeaders,
    body: ServerRequestBody,
}

impl ServerRequest {
    pub closed spec fn headers_spec(&self) -> ServerRequestHeaders {
        self.headers
    }

    pub closed spec fn body_spec(&self) -> ServerRequestBody {
        self.body
    }

    pub fn new(headers: ServerRequestHeaders, body: ServerRequestBody) -> (r: Self)
        ensures
            r.headers_spec() == headers,
            r.body_spec() == body,
    {
        Self { headers, body }
    }
}

impl ServerMessagePayload<ServerRequestBody> for ServerRequest {
    fn sender_id(&self) -> (r: NodeId)
        ensures
            r == self.headers_spec().node_id,
    {
        self.headers.node_id
    }

    fn term(&self) -> (r: usize)
        ensures
            r == self.headers_spec().term,
    {
        self.headers.term
    }

    fn body(&self) -> (r: &ServerRequestBody)
        ensures
            *r == self.body_spec(),
    {
        &self.body
    }
}

/// ServerResponseHeaders represents the headers of a ServerResponse
#[derive(Clone, Copy, Debug, PartialEq, Eq, Structural)]
pub struct ServerResponseHeaders {
    pub node_id: NodeId,
    pub term: usize,
}

/// ServerResponseBody represents the body of a ServerResponse
#[derive(Clone, Copy, Debug, PartialEq, Eq, Structural)]
pub enum ServerResponseBody {
    AppendEntries { success: bool },
    RequestVote { vote_granted: bool },
}

/// ServerResponse represents a response received from a Server.
#[derive(Clone, Copy, Debug, PartialEq, Eq, Structural)]
pub struct ServerResponse {
    headers: ServerResponseHeaders,
    body: ServerResponseBody,
}

impl ServerResponse {
    pub closed spec fn headers_spec(&self) -> ServerResponseHeaders {
        self.headers
    }

    pub closed spec fn body_spec(&self) -> ServerResponseBody {
        self.body
    }

    pub fn new(headers: ServerResponseHeaders, body: ServerResponseBody) -> (r: Self)
        ensures
            r.headers_spec() == headers,
            r.body_spec() == body,
    {
        Self { headers, body }
    }
}

impl ServerMessagePayload<ServerResponseBody> for ServerResponse {
    fn sender_id(&self) -> (r: NodeId)
        ensures
            r == self.headers_spec().node_id,
    {
        self.headers.node_id
    }

    fn term(&self) -> (r: usize)
        ensures
            r == self.headers_spec().term,
    {
        self.headers.term
    }

    fn body(&self) -> (r: &ServerResponseBody)
        ensures
            *r == self.body_spec(),
    {
        &self.body
    }
}

} // verus!
