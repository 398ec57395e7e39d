//! Client and server messages. Each WebSocket text message carries one JSON object whose
//! `type` field selects the variant.

use vstd::prelude::*;

use crate::protocol::error::ErrorResponse;
use crate::protocol::ids::{AgentId, CatalogEntryId, RequestId, RunId, SessionId, StateId};
use crate::protocol::version::ProtocolVersion;
use crate::text::str_eq;

verus! {

/// Spawn placement.
#[derive(Debug, Clone, Copy, PartialEq, Eq, Structural)]
pub enum Placement {
    /// A specific cell. `(0, 0)` is the south-west corner; `x` grows east and `y` grows north.
    Cell { x: u32, y: u32 },
    /// A cell chosen uniformly among unoccupied cells.
    Random,
}

/// Run lifecycle phase.
#[derive(Debug, Clone, Copy, PartialEq, Eq, Structural)]
pub enum RunPhase {
    Setup,
    Started,
}

/// Messages sent by clients.
#[derive(Debug, PartialEq)]
pub enum ClientMessage {
    /// First message on every connection: the protocol version handshake. It belongs to the
    /// connection, does not create a session, and is not a request, so it has no request ID.
    Hello { protocol_version: ProtocolVersion },
    /// Create a run from a catalog entry and establish this connection's session as its creator.
    CreateRun { request_id: RequestId, catalog_entry: CatalogEntryId },
    /// Join an existing run, establishing this connection's session.
    JoinRun { request_id: RequestId, run_id: RunId },
    /// Spawn an agent owned by this session.
    Spawn { request_id: RequestId, placement: Placement },
    /// Close setup and start the run. Creator only.
    Start { request_id: RequestId },
}

/// The contents of a client message, with identifiers as their strings and numbers.
pub enum ClientMessageView {
    Hello { protocol_version: ProtocolVersion },
    CreateRun { request_id: u64, catalog_entry: Seq<char> },
    JoinRun { request_id: u64, run_id: Seq<char> },
    Spawn { request_id: u64, placement: Placement },
    Start { request_id: u64 },
}

impl View for ClientMessage {
    type V = ClientMessageView;

    open spec fn view(&self) -> ClientMessageView {
        match self {
            ClientMessage::Hello { protocol_version } => ClientMessageView::Hello {
                protocol_version: *protocol_version,
            },
            ClientMessage::CreateRun { request_id, catalog_entry } => ClientMessageView::CreateRun {
                request_id: request_id@,
                catalog_entry: catalog_entry@,
            },
            ClientMessage::JoinRun { request_id, run_id } => ClientMessageView::JoinRun {
                request_id: request_id@,
                run_id: run_id@,
            },
            ClientMessage::Spawn { request_id, placement } => ClientMessageView::Spawn {
                request_id: request_id@,
                placement: *placement,
            },
            ClientMessage::Start { request_id } => ClientMessageView::Start {
                request_id: request_id@,
            },
        }
    }
}

/// The request ID of a client message; `hello` has none.
pub open spec fn spec_request_id(m: ClientMessage) -> Option<RequestId> {
    match m {
        ClientMessage::Hello { .. } => None,
        ClientMessage::CreateRun { request_id, .. } => Some(request_id),
        ClientMessage::JoinRun { request_id, .. } => Some(request_id),
        ClientMessage::Spawn { request_id, .. } => Some(request_id),
        ClientMessage::Start { request_id } => Some(request_id),
    }
}

/// The `type` wire names of the client messages.
pub open spec fn is_client_type(kind: Seq<char>) -> bool {
    ||| kind == "hello"@
    ||| kind == "create_run"@
    ||| kind == "join_run"@
    ||| kind == "spawn"@
    ||| kind == "start"@
}

impl ClientMessage {
    /// The request ID, for every message except `hello`.
    pub fn request_id(&self) -> (id: Option<RequestId>)
        ensures
            id == spec_request_id(*self),
    {
        match self {
            ClientMessage::Hello { .. } => None,
            ClientMessage::CreateRun { request_id, .. } => Some(*request_id),
            ClientMessage::JoinRun { request_id, .. } => Some(*request_id),
            ClientMessage::Spawn { request_id, .. } => Some(*request_id),
            ClientMessage::Start { request_id } => Some(*request_id),
        }
    }

    /// The `type` wire name of every client message. A frame whose `type` is not listed here
    /// is an unknown message type rather than a malformed message.
    pub fn types() -> (names: Vec<&'static str>)
        ensures
            names@.len() == 5,
            forall|i: int| 0 <= i < 5 ==> is_client_type(#[trigger] names@[i]@),
            forall|k: Seq<char>| is_client_type(k) ==> exists|i: int| 0 <= i < 5 && #[trigger] names@[i]@ == k,
    {
        let names = vec!["hello", "create_run", "join_run", "spawn", "start"];
        assert(names@[0]@ == "hello"@);
        assert(names@[1]@ == "create_run"@);
        assert(names@[2]@ == "join_run"@);
        assert(names@[3]@ == "spawn"@);
        assert(names@[4]@ == "start"@);
        names
    }

    /// Whether `kind` is the `type` wire name of a client message.
    pub fn is_type(kind: &str) -> (known: bool)
        ensures
            known == is_client_type(kind@),
    {
        str_eq(kind, "hello") || str_eq(kind, "create_run") || str_eq(kind, "join_run")
            || str_eq(kind, "spawn") || str_eq(kind, "start")
    }

    /// Whether two messages have the same contents.
    pub fn same_as(&self, other: &ClientMessage) -> (eq: bool)
        ensures
            eq == (self@ == other@),
    {
        match (self, other) {
            (
                ClientMessage::Hello { protocol_version: a },
                ClientMessage::Hello { protocol_version: b },
            ) => a.major == b.major && a.minor == b.minor && a.patch == b.patch,
            (
                ClientMessage::CreateRun { request_id: a, catalog_entry: x },
                ClientMessage::CreateRun { request_id: b, catalog_entry: y },
            ) => a.get() == b.get() && x.same_as(y),
            (
                ClientMessage::JoinRun { request_id: a, run_id: x },
                ClientMessage::JoinRun { request_id: b, run_id: y },
            ) => a.get() == b.get() && x.same_as(y),
            (
                ClientMessage::Spawn { request_id: a, placement: x },
                ClientMessage::Spawn { request_id: b, placement: y },
            ) => a.get() == b.get() && match (x, y) {
                (Placement::Random, Placement::Random) => true,
                (Placement::Cell { x: x1, y: y1 }, Placement::Cell { x: x2, y: y2 }) => *x1 == *x2
                    && *y1 == *y2,
                _ => false,
            },
            (ClientMessage::Start { request_id: a }, ClientMessage::Start { request_id: b }) => a.get()
                == b.get(),
            _ => false,
        }
    }
}

impl Clone for ClientMessage {
    fn clone(&self) -> (m: ClientMessage)
        ensures
            m == *self,
    {
        match self {
            ClientMessage::Hello { protocol_version } => ClientMessage::Hello {
                protocol_version: *protocol_version,
            },
            ClientMessage::CreateRun { request_id, catalog_entry } => ClientMessage::CreateRun {
                request_id: *request_id,
                catalog_entry: catalog_entry.clone(),
            },
            ClientMessage::JoinRun { request_id, run_id } => ClientMessage::JoinRun {
                request_id: *request_id,
                run_id: run_id.clone(),
            },
            ClientMessage::Spawn { request_id, placement } => ClientMessage::Spawn {
                request_id: *request_id,
                placement: *placement,
            },
            ClientMessage::Start { request_id } => ClientMessage::Start { request_id: *request_id },
        }
    }
}

/// Messages sent by the server.
#[derive(Debug, PartialEq)]
pub enum ServerMessage {
    /// Successful handshake.
    Welcome { protocol_version: ProtocolVersion },
    /// Successful `create_run`.
    RunCreated {
        request_id: RequestId,
        run_id: RunId,
        session_id: SessionId,
        catalog_entry: CatalogEntryId,
        state_id: StateId,
        phase: RunPhase,
    },
    /// Successful `join_run`.
    RunJoined {
        request_id: RequestId,
        run_id: RunId,
        session_id: SessionId,
        catalog_entry: CatalogEntryId,
        state_id: StateId,
        phase: RunPhase,
    },
    /// Successful `spawn`: the agent has been placed.
    Spawned { request_id: RequestId, agent_id: AgentId },
    /// Successful `start`: setup is closed and the run has started.
    Started { request_id: RequestId },
    /// Any failed request or rejected message.
    Error(ErrorResponse),
}

impl Clone for ServerMessage {
    fn clone(&self) -> (m: ServerMessage)
        ensures
            m == *self,
    {
        match self {
            ServerMessage::Welcome { protocol_version } => ServerMessage::Welcome {
                protocol_version: *protocol_version,
            },
            ServerMessage::RunCreated {
                request_id,
                run_id,
                session_id,
                catalog_entry,
                state_id,
                phase,
            } => ServerMessage::RunCreated {
                request_id: *request_id,
                run_id: run_id.clone(),
                session_id: session_id.clone(),
                catalog_entry: catalog_entry.clone(),
                state_id: *state_id,
                phase: *phase,
            },
            ServerMessage::RunJoined {
                request_id,
                run_id,
                session_id,
                catalog_entry,
                state_id,
                phase,
            } => ServerMessage::RunJoined {
                request_id: *request_id,
                run_id: run_id.clone(),
                session_id: session_id.clone(),
                catalog_entry: catalog_entry.clone(),
                state_id: *state_id,
                phase: *phase,
            },
            ServerMessage::Spawned { request_id, agent_id } => ServerMessage::Spawned {
                request_id: *request_id,
                agent_id: *agent_id,
            },
            ServerMessage::Started { request_id } => ServerMessage::Started {
                request_id: *request_id,
            },
            ServerMessage::Error(e) => ServerMessage::Error(e.clone()),
        }
    }
}

} // verus!
