//! One client connection: the version handshake, then requests handled one at a time.
//! The application reads frames and performs the run calls that a step asks
//! for; every decision is made here.

use vstd::prelude::*;

use crate::protocol::error::{ErrorCode, ErrorDetails, ErrorResponse};
use crate::protocol::ids::{AgentId, CatalogEntryId, RequestId, RunId, SessionId, MAX_SAFE_INTEGER};
use crate::protocol::message::{
    spec_request_id, ClientMessage, ClientMessageView, Placement, ServerMessage,
};
use crate::protocol::version::{
    protocol_version, spec_protocol_version, version_text, ProtocolVersion,
};
use crate::server::catalog::{catalog, lookup, CatalogEntry};
use crate::server::requests::{
    admission_matches, error_is, lemma_log_is_well_formed, lemma_retry_replays_until_expired,
    log_wf, record_all, recorded, rising_ids, verdict, Admission, LogModel, RequestLog,
    RetainedResult, Verdict, RETAINED_RESULTS,
};
use crate::server::run::{RunGone, SessionInfo, StartRejection};
use crate::server::wire;
use crate::sim;
use crate::sim::error::{spawn_error_text, SpawnError};
use crate::sim::types::GridPos;
use crate::text::{debug_str, debug_text, owned, push_str};

verus! {

/// The response to one frame, and whether to close the connection after sending it.
#[derive(Debug)]
pub struct Reply {
    pub message: ServerMessage,
    pub close: bool,
}

impl Reply {
    pub fn send(message: ServerMessage) -> (r: Reply)
        ensures
            r == (Reply { message, close: false }),
    {
        Reply { message, close: false }
    }

    pub fn error(error: ErrorResponse) -> (r: Reply)
        ensures
            r == (Reply { message: ServerMessage::Error(error), close: false }),
    {
        Reply::send(ServerMessage::Error(error))
    }
}

/// What the connection does next with a received frame.
#[derive(Debug)]
pub enum Step {
    /// Send this reply.
    Reply(Reply),
    /// Create a run from `entry` with `run::create`, register it, then report the new
    /// session with [`Connection::created`].
    CreateRun {
        request_id: RequestId,
        request: ClientMessage,
        catalog_entry: CatalogEntryId,
        entry: CatalogEntry,
    },
    /// Look up run `run_id` and join it, then report the outcome with [`Connection::joined`].
    JoinRun { request_id: RequestId, request: ClientMessage, run_id: RunId },
    /// Ask this session's run to spawn an agent, map the outcome with [`spawn_response`], and
    /// report it with [`Connection::executed`].
    Spawn { request_id: RequestId, request: ClientMessage, placement: sim::types::Placement },
    /// Ask this session's run to start, map the outcome with [`start_response`], and report it
    /// with [`Connection::executed`].
    Start { request_id: RequestId, request: ClientMessage },
}

/// This connection's session, seen from outside.
pub struct LinkModel {
    pub id: Seq<char>,
    pub run_id: Seq<char>,
    pub log: LogModel,
}

/// A connection, seen from outside.
pub struct ConnectionModel {
    pub handshake_done: bool,
    pub session: Option<LinkModel>,
}

/// This connection's session.
struct SessionLink {
    id: SessionId,
    run_id: RunId,
    requests: RequestLog,
}

/// One connection's handshake state and session.
pub struct Connection {
    handshake_done: bool,
    session: Option<SessionLink>,
}

/// The simulation's form of a protocol placement. Both use the same coordinates.
pub open spec fn spec_sim_placement(placement: Placement) -> sim::types::Placement {
    match placement {
        Placement::Cell { x, y } => sim::types::Placement::Cell(GridPos { x, y }),
        Placement::Random => sim::types::Placement::Random,
    }
}

/// The simulation's form of a protocol placement.
pub fn to_sim_placement(placement: Placement) -> (p: sim::types::Placement)
    ensures
        p == spec_sim_placement(placement),
{
    // The protocol and the simulation use the same coordinate convention.
    match placement {
        Placement::Cell { x, y } => sim::types::Placement::Cell(GridPos::new(x, y)),
        Placement::Random => sim::types::Placement::Random,
    }
}

/// Whether `e` is the error that a failed spawn of request `id` is answered with.
pub open spec fn spawn_error_is(e: ErrorResponse, id: RequestId, error: SpawnError) -> bool {
    let message = spawn_error_text(error);
    match error {
        SpawnError::NotInSetup => error_is(e, Some(id), ErrorCode::RunAlreadyStarted, message, None),
        SpawnError::OutOfBounds(cell) => error_is(
            e,
            Some(id),
            ErrorCode::CellOutOfBounds,
            message,
            Some(ErrorDetails::Cell { x: cell.x, y: cell.y }),
        ),
        SpawnError::Occupied(cell) => error_is(
            e,
            Some(id),
            ErrorCode::CellOccupied,
            message,
            Some(ErrorDetails::Cell { x: cell.x, y: cell.y }),
        ),
        SpawnError::NoFreeCell => error_is(e, Some(id), ErrorCode::NoFreeCell, message, None),
    }
}

/// The error that a failed spawn of request `id` is answered with.
pub fn spawn_error(id: RequestId, error: SpawnError) -> (e: ErrorResponse)
    ensures
        spawn_error_is(e, id, error),
{
    let message = error.message();
    match error {
        SpawnError::NotInSetup => wire::error(Some(id), ErrorCode::RunAlreadyStarted, message),
        SpawnError::OutOfBounds(cell) => wire::with_details(
            wire::error(Some(id), ErrorCode::CellOutOfBounds, message),
            ErrorDetails::Cell { x: cell.x, y: cell.y },
        ),
        SpawnError::Occupied(cell) => wire::with_details(
            wire::error(Some(id), ErrorCode::CellOccupied, message),
            ErrorDetails::Cell { x: cell.x, y: cell.y },
        ),
        SpawnError::NoFreeCell => wire::error(Some(id), ErrorCode::NoFreeCell, message),
    }
}

/// Whether `e` is the error that a refused Start of request `id` is answered with.
pub open spec fn start_error_is(e: ErrorResponse, id: RequestId, rejection: StartRejection) -> bool {
    match rejection {
        StartRejection::NotCreator => error_is(
            e,
            Some(id),
            ErrorCode::NotCreator,
            "only the run's creator can start it"@,
            None,
        ),
        StartRejection::AlreadyStarted => error_is(
            e,
            Some(id),
            ErrorCode::RunAlreadyStarted,
            "the run has already started"@,
            None,
        ),
        StartRejection::NotEligible => error_is(
            e,
            Some(id),
            ErrorCode::StartNotEligible,
            "the run has no agents and no connected viewers"@,
            None,
        ),
    }
}

/// The error that a refused Start of request `id` is answered with.
pub fn start_error(id: RequestId, rejection: StartRejection) -> (e: ErrorResponse)
    ensures
        start_error_is(e, id, rejection),
{
    let (code, message) = match rejection {
        StartRejection::NotCreator => (
            ErrorCode::NotCreator,
            owned("only the run's creator can start it"),
        ),
        StartRejection::AlreadyStarted => (
            ErrorCode::RunAlreadyStarted,
            owned("the run has already started"),
        ),
        StartRejection::NotEligible => (
            ErrorCode::StartNotEligible,
            owned("the run has no agents and no connected viewers"),
        ),
    };
    wire::error(Some(id), code, message)
}

/// Whether `m` is the `unknown_run` error for request `id` and run `run_id`.
pub open spec fn unknown_run_is(m: ServerMessage, id: RequestId, run_id: RunId) -> bool {
    m matches ServerMessage::Error(e) && error_is(
        e,
        Some(id),
        ErrorCode::UnknownRun,
        "no run RunId("@ + debug_str(run_id@) + ")"@,
        Some(ErrorDetails::Run { run_id }),
    )
}

/// The `unknown_run` error for request `id` and run `run_id`.
pub fn unknown_run(id: RequestId, run_id: &RunId) -> (m: ServerMessage)
    ensures
        unknown_run_is(m, id, *run_id),
{
    let mut message = owned("no run RunId(");
    let quoted = debug_text(run_id.as_str());
    push_str(&mut message, quoted.as_str());
    push_str(&mut message, ")");
    ServerMessage::Error(
        wire::with_details(
            wire::error(Some(id), ErrorCode::UnknownRun, message),
            ErrorDetails::Run { run_id: run_id.clone() },
        ),
    )
}

/// The response to spawn request `id`, from what the run answered. A run is not released
/// while it has a connected session, so a run that is gone is not expected; it is reported
/// as an unknown run.
pub fn spawn_response(
    id: RequestId,
    outcome: Result<Result<sim::types::AgentId, SpawnError>, RunGone>,
    run_id: &RunId,
) -> (m: ServerMessage)
    requires
        outcome matches Ok(Ok(agent)) ==> 1 <= agent.0 <= MAX_SAFE_INTEGER,
    ensures
        match outcome {
            Ok(Ok(agent)) => m matches ServerMessage::Spawned { request_id, agent_id }
                && request_id == id && agent_id@ == agent.0,
            Ok(Err(error)) => m matches ServerMessage::Error(e) && spawn_error_is(e, id, error),
            Err(_) => unknown_run_is(m, id, *run_id),
        },
{
    match outcome {
        Ok(Ok(agent)) => ServerMessage::Spawned {
            request_id: id,
            agent_id: AgentId::new(agent.0).unwrap(),
        },
        Ok(Err(error)) => ServerMessage::Error(spawn_error(id, error)),
        Err(_) => unknown_run(id, run_id),
    }
}

/// The response to start request `id`, from what the run answered.
pub fn start_response(
    id: RequestId,
    outcome: Result<Result<(), StartRejection>, RunGone>,
    run_id: &RunId,
) -> (m: ServerMessage)
    ensures
        match outcome {
            Ok(Ok(())) => m == ServerMessage::Started { request_id: id },
            Ok(Err(rejection)) => m matches ServerMessage::Error(e) && start_error_is(
                e,
                id,
                rejection,
            ),
            Err(_) => unknown_run_is(m, id, *run_id),
        },
{
    match outcome {
        Ok(Ok(())) => ServerMessage::Started { request_id: id },
        Ok(Err(rejection)) => ServerMessage::Error(start_error(id, rejection)),
        Err(_) => unknown_run(id, run_id),
    }
}

/// Whether `r` is the reply to a `hello` for version `requested` on a connection whose
/// handshake is (`done`) or is not yet complete.
pub open spec fn hello_reply_is(r: Reply, done: bool, requested: ProtocolVersion) -> bool {
    if done {
        !r.close && (r.message matches ServerMessage::Error(e) && error_is(
            e,
            None,
            ErrorCode::MalformedMessage,
            "hello was already received on this connection"@,
            None,
        ))
    } else if requested != spec_protocol_version() {
        r.close && (r.message matches ServerMessage::Error(e) && error_is(
            e,
            None,
            ErrorCode::UnsupportedProtocolVersion,
            "protocol version "@ + version_text(requested) + " is not supported"@,
            Some(
                ErrorDetails::Versions { requested, supported: spec_protocol_version() },
            ),
        ))
    } else {
        r == Reply::send_spec(ServerMessage::Welcome { protocol_version: spec_protocol_version() })
    }
}

impl Reply {
    pub open spec fn send_spec(message: ServerMessage) -> Reply {
        Reply { message, close: false }
    }
}

/// Whether `r` replies to request `id` of a connection without a session that needs no run:
/// an unknown catalog entry, or a run-scoped request.
pub open spec fn establish_reply_is(r: Reply, id: RequestId, request: ClientMessage) -> bool {
    match request {
        ClientMessage::CreateRun { catalog_entry, .. } => r.message matches ServerMessage::Error(
            e,
        ) && error_is(
            e,
            Some(id),
            ErrorCode::UnknownCatalogEntry,
            "no catalog entry CatalogEntryId("@ + debug_str(catalog_entry@) + ")"@,
            Some(ErrorDetails::CatalogEntry { catalog_entry }),
        ) && !r.close,
        _ => r.message matches ServerMessage::Error(e) && error_is(
            e,
            Some(id),
            ErrorCode::NoSession,
            "create or join a run first"@,
            None,
        ) && !r.close,
    }
}

/// The response recorded for a `create_run` or `join_run` on a connection that already has a
/// session.
pub open spec fn already_established_is(m: ServerMessage, id: RequestId) -> bool {
    m matches ServerMessage::Error(e) && error_is(
        e,
        Some(id),
        ErrorCode::SessionAlreadyEstablished,
        "this connection already has a session"@,
        None,
    )
}

/// What a request after the handshake leads to. Without a session, `create_run` and
/// `join_run` go to the run registry and everything else is refused; with one, the request
/// number is judged first: a new `create_run` or `join_run` is refused and recorded, a new
/// `spawn` or `start` goes to the run, a retry gets its recorded response, and other numbers
/// are rejected without being recorded.
pub open spec fn request_step(old: &Connection, request: ClientMessage, step: Step, new: &Connection) -> bool {
    let id = spec_request_id(request)->0;
    match old.model().session {
        None => new.model() == old.model() && match request {
            ClientMessage::CreateRun { catalog_entry, .. } => match catalog(catalog_entry@) {
                Some(entry) => step == (Step::CreateRun {
                    request_id: id,
                    request,
                    catalog_entry,
                    entry,
                }),
                None => step matches Step::Reply(r) && establish_reply_is(r, id, request),
            },
            ClientMessage::JoinRun { run_id, .. } => step == (Step::JoinRun {
                request_id: id,
                request,
                run_id,
            }),
            _ => step matches Step::Reply(r) && establish_reply_is(r, id, request),
        },
        Some(link) => {
            let v = verdict(link.log, id@, request@);
            match v {
                Verdict::New => match request {
                    ClientMessage::Spawn { placement, .. } => step == (Step::Spawn {
                        request_id: id,
                        request,
                        placement: spec_sim_placement(placement),
                    }) && new.model() == old.model(),
                    ClientMessage::Start { .. } => step == (Step::Start { request_id: id, request })
                        && new.model() == old.model(),
                    _ => step matches Step::Reply(r) && !r.close && already_established_is(
                        r.message,
                        id,
                    ) && new.model() == (ConnectionModel {
                        handshake_done: old.model().handshake_done,
                        session: Some(
                            LinkModel { log: recorded(link.log, id@, request@, r.message), ..link },
                        ),
                    }),
                },
                Verdict::Replay(response) => step == Step::Reply(Reply::send_spec(response))
                    && new.model() == old.model(),
                _ => step matches Step::Reply(r) && !r.close && (r.message matches ServerMessage::Error(
                    e,
                ) && admission_matches(Admission::Rejected(e), v, id, old.highest())) && new.model()
                    == old.model(),
            }
        },
    }
}

impl Connection {
    /// The connection's handshake state and session.
    pub closed spec fn model(&self) -> ConnectionModel {
        ConnectionModel {
            handshake_done: self.handshake_done,
            session: match self.session {
                Some(link) => Some(
                    LinkModel { id: link.id@, run_id: link.run_id@, log: link.requests.model() },
                ),
                None => None,
            },
        }
    }

    /// The highest admitted request number of this connection's session.
    pub closed spec fn highest(&self) -> RequestId {
        self.session->0.requests.highest()
    }

    pub closed spec fn wf(&self) -> bool {
        self.session matches Some(link) ==> link.requests.wf()
    }

    /// A new connection: no handshake yet and no session.
    pub fn new() -> (c: Connection)
        ensures
            c.wf(),
            c.model() == (ConnectionModel { handshake_done: false, session: None }),
    {
        Connection { handshake_done: false, session: None }
    }

    /// Whether the connection has a session.
    pub fn has_session(&self) -> (has: bool)
        ensures
            has == self.model().session is Some,
    {
        self.session.is_some()
    }

    /// The connection's session ID, if it has a session.
    pub fn session_id(&self) -> (id: Option<&SessionId>)
        ensures
            id is Some == self.model().session is Some,
            id matches Some(id) ==> id@ == self.model().session->0.id,
    {
        match &self.session {
            Some(link) => Some(&link.id),
            None => None,
        }
    }

    /// The run of the connection's session, if it has a session.
    pub fn run_id(&self) -> (id: Option<&RunId>)
        ensures
            id is Some == self.model().session is Some,
            id matches Some(id) ==> id@ == self.model().session->0.run_id,
    {
        match &self.session {
            Some(link) => Some(&link.run_id),
            None => None,
        }
    }

    /// Answer a `hello` for version `requested`.
    fn hello(&mut self, requested: ProtocolVersion) -> (r: Reply)
        requires
            old(self).wf(),
        ensures
            final(self).wf(),
            hello_reply_is(r, old(self).model().handshake_done, requested),
            final(self).model() == (ConnectionModel {
                handshake_done: old(self).model().handshake_done || requested
                    == spec_protocol_version(),
                ..old(self).model()
            }),
    {
        if self.handshake_done {
            return Reply::error(
                wire::malformed(None, owned("hello was already received on this connection")),
            );
        }
        let supported = protocol_version();
        if !supported.is_compatible_with(requested) {
            let mut message = owned("protocol version ");
            let text = requested.to_version_string();
            push_str(&mut message, text.as_str());
            push_str(&mut message, " is not supported");
            return Reply {
                message: ServerMessage::Error(
                    wire::with_details(
                        wire::error(None, ErrorCode::UnsupportedProtocolVersion, message),
                        ErrorDetails::Versions { requested, supported },
                    ),
                ),
                close: true,
            };
        }
        self.handshake_done = true;
        Reply::send(ServerMessage::Welcome { protocol_version: supported })
    }

    /// Handle a request on a connection without a session.
    fn establish(&mut self, id: RequestId, request: ClientMessage) -> (step: Step)
        requires
            old(self).wf(),
            !(request is Hello),
        ensures
            *final(self) == *old(self),
            match request {
                ClientMessage::CreateRun { catalog_entry, .. } => match catalog(catalog_entry@) {
                    Some(entry) => step == (Step::CreateRun {
                        request_id: id,
                        request,
                        catalog_entry,
                        entry,
                    }),
                    None => step matches Step::Reply(r) && establish_reply_is(r, id, request),
                },
                ClientMessage::JoinRun { run_id, .. } => step == (Step::JoinRun {
                    request_id: id,
                    request,
                    run_id,
                }),
                _ => step matches Step::Reply(r) && establish_reply_is(r, id, request),
            },
    {
        match request {
            ClientMessage::CreateRun { request_id, catalog_entry } => {
                match lookup(&catalog_entry) {
                    Some(entry) => Step::CreateRun {
                        request_id: id,
                        request: ClientMessage::CreateRun { request_id, catalog_entry: catalog_entry.clone() },
                        catalog_entry,
                        entry,
                    },
                    None => {
                        let mut message = owned("no catalog entry CatalogEntryId(");
                        let quoted = debug_text(catalog_entry.as_str());
                        push_str(&mut message, quoted.as_str());
                        push_str(&mut message, ")");
                        Step::Reply(
                            Reply::error(
                                wire::with_details(
                                    wire::error(Some(id), ErrorCode::UnknownCatalogEntry, message),
                                    ErrorDetails::CatalogEntry { catalog_entry },
                                ),
                            ),
                        )
                    },
                }
            },
            ClientMessage::JoinRun { request_id, run_id } => Step::JoinRun {
                request_id: id,
                request: ClientMessage::JoinRun { request_id, run_id: run_id.clone() },
                run_id,
            },
            _ => Step::Reply(
                Reply::error(
                    wire::error(Some(id), ErrorCode::NoSession, owned("create or join a run first")),
                ),
            ),
        }
    }

    /// Decide what to do with one received frame: `message` is the parsed client message, or
    /// the error that parsing produced.
    pub fn receive(&mut self, message: Result<ClientMessage, ErrorResponse>) -> (step: Step)
        requires
            old(self).wf(),
        ensures
            final(self).wf(),
            match message {
                Err(e) => step == Step::Reply(Reply::send_spec(ServerMessage::Error(e)))
                    && final(self).model() == old(self).model(),
                Ok(ClientMessage::Hello { protocol_version }) => (step matches Step::Reply(r)
                    && hello_reply_is(r, old(self).model().handshake_done, protocol_version))
                    && final(self).model() == (ConnectionModel {
                    handshake_done: old(self).model().handshake_done || protocol_version
                        == spec_protocol_version(),
                    ..old(self).model()
                }),
                Ok(request) => if !old(self).model().handshake_done {
                    (step matches Step::Reply(r) && !r.close && (r.message matches ServerMessage::Error(
                        e,
                    ) && error_is(
                        e,
                        spec_request_id(request),
                        ErrorCode::HandshakeRequired,
                        "send hello before any request"@,
                        None,
                    ))) && final(self).model() == old(self).model()
                } else {
                    request_step(&*old(self), request, step, &*final(self))
                },
            },
    {
        let message = match message {
            Ok(message) => message,
            Err(error) => {
                return Step::Reply(Reply::error(error));
            },
        };
        match message {
            ClientMessage::Hello { protocol_version } => Step::Reply(self.hello(protocol_version)),
            request => {
                if !self.handshake_done {
                    let id = request.request_id();
                    Step::Reply(
                        Reply::error(
                            wire::error(
                                id,
                                ErrorCode::HandshakeRequired,
                                owned("send hello before any request"),
                            ),
                        ),
                    )
                } else {
                    self.request(request)
                }
            },
        }
    }

    /// Handle a request after the handshake.
    fn request(&mut self, request: ClientMessage) -> (step: Step)
        requires
            old(self).wf(),
            old(self).model().handshake_done,
            !(request is Hello),
        ensures
            final(self).wf(),
            request_step(&*old(self), request, step, &*final(self)),
    {
        let id = request.request_id().unwrap();
        if self.session.is_none() {
            return self.establish(id, request);
        }
        let mut link = self.session.take().unwrap();
        let ghost log = link.requests.model();
        let step = match link.requests.admission(id, &request) {
            Admission::Replay(response) => Step::Reply(Reply::send(response.clone())),
            Admission::Rejected(error) => Step::Reply(Reply::error(error)),
            Admission::New => match request {
                ClientMessage::CreateRun { .. } | ClientMessage::JoinRun { .. } => {
                    let response = ServerMessage::Error(
                        wire::error(
                            Some(id),
                            ErrorCode::SessionAlreadyEstablished,
                            owned("this connection already has a session"),
                        ),
                    );
                    link.requests.record(id, request, response.clone());
                    Step::Reply(Reply::send(response))
                },
                ClientMessage::Spawn { request_id, placement } => Step::Spawn {
                    request_id: id,
                    request: ClientMessage::Spawn { request_id, placement },
                    placement: to_sim_placement(placement),
                },
                ClientMessage::Start { request_id } => Step::Start {
                    request_id: id,
                    request: ClientMessage::Start { request_id },
                },
                ClientMessage::Hello { .. } => {
                    proof {
                        assert(false);
                    }
                    Step::Reply(Reply::error(wire::malformed(None, owned("hello is not a request"))))
                },
            },
        };
        self.session = Some(link);
        step
    }
}


/// Whether `m` is the `run_created` or `run_joined` response (as `joined` says) to request
/// `id` for run `run_id` and the new session `info`.
pub open spec fn established_is(
    m: ServerMessage,
    joined: bool,
    id: RequestId,
    run_id: RunId,
    info: SessionInfo,
) -> bool {
    if joined {
        m == (ServerMessage::RunJoined {
            request_id: id,
            run_id,
            session_id: info.session_id,
            catalog_entry: info.catalog_entry,
            state_id: info.state_id,
            phase: info.phase,
        })
    } else {
        m == (ServerMessage::RunCreated {
            request_id: id,
            run_id,
            session_id: info.session_id,
            catalog_entry: info.catalog_entry,
            state_id: info.state_id,
            phase: info.phase,
        })
    }
}

impl Connection {
    fn establish_session(
        &mut self,
        id: RequestId,
        request: ClientMessage,
        run_id: RunId,
        info: SessionInfo,
        joined: bool,
    ) -> (r: Reply)
        requires
            old(self).wf(),
            old(self).model().session is None,
        ensures
            final(self).wf(),
            !r.close,
            established_is(r.message, joined, id, run_id, info),
            final(self).model() == (ConnectionModel {
                handshake_done: old(self).model().handshake_done,
                session: Some(
                    LinkModel {
                        id: info.session_id@,
                        run_id: run_id@,
                        log: recorded(
                            LogModel { highest: id@, retained: Seq::empty() },
                            id@,
                            request@,
                            r.message,
                        ),
                    },
                ),
            }),
    {
        let response = if joined {
            ServerMessage::RunJoined {
                request_id: id,
                run_id: run_id.clone(),
                session_id: info.session_id.clone(),
                catalog_entry: info.catalog_entry.clone(),
                state_id: info.state_id,
                phase: info.phase,
            }
        } else {
            ServerMessage::RunCreated {
                request_id: id,
                run_id: run_id.clone(),
                session_id: info.session_id.clone(),
                catalog_entry: info.catalog_entry.clone(),
                state_id: info.state_id,
                phase: info.phase,
            }
        };
        let requests = RequestLog::new(id, request, response.clone());
        self.session = Some(SessionLink { id: info.session_id, run_id, requests });
        Reply::send(response)
    }

    /// Finish a [`Step::CreateRun`]: the run `run_id` was created with creator session `info`.
    pub fn created(&mut self, id: RequestId, request: ClientMessage, run_id: RunId, info: SessionInfo) -> (r: Reply)
        requires
            old(self).wf(),
            old(self).model().session is None,
        ensures
            final(self).wf(),
            !r.close,
            established_is(r.message, false, id, run_id, info),
            final(self).model() == (ConnectionModel {
                handshake_done: old(self).model().handshake_done,
                session: Some(
                    LinkModel {
                        id: info.session_id@,
                        run_id: run_id@,
                        log: recorded(
                            LogModel { highest: id@, retained: Seq::empty() },
                            id@,
                            request@,
                            r.message,
                        ),
                    },
                ),
            }),
    {
        self.establish_session(id, request, run_id, info, false)
    }

    /// Finish a [`Step::JoinRun`]: `joined` is the new session, or `None` when no run
    /// `run_id` exists or it was released before the join.
    pub fn joined(
        &mut self,
        id: RequestId,
        request: ClientMessage,
        run_id: RunId,
        joined: Option<SessionInfo>,
    ) -> (r: Reply)
        requires
            old(self).wf(),
            old(self).model().session is None,
        ensures
            final(self).wf(),
            !r.close,
            match joined {
                Some(info) => established_is(r.message, true, id, run_id, info)
                    && final(self).model() == (ConnectionModel {
                    handshake_done: old(self).model().handshake_done,
                    session: Some(
                        LinkModel {
                            id: info.session_id@,
                            run_id: run_id@,
                            log: recorded(
                                LogModel { highest: id@, retained: Seq::empty() },
                                id@,
                                request@,
                                r.message,
                            ),
                        },
                    ),
                }),
                None => unknown_run_is(r.message, id, run_id) && final(self).model() == old(
                    self,
                ).model(),
            },
    {
        match joined {
            Some(info) => self.establish_session(id, request, run_id, info, true),
            None => Reply::send(unknown_run(id, &run_id)),
        }
    }

    /// Finish a [`Step::Spawn`] or [`Step::Start`]: record `response` as the result of
    /// request `id` and send it.
    pub fn executed(&mut self, id: RequestId, request: ClientMessage, response: ServerMessage) -> (r: Reply)
        requires
            old(self).wf(),
            old(self).model().session is Some,
        ensures
            final(self).wf(),
            r == Reply::send_spec(response),
            final(self).model() == (ConnectionModel {
                handshake_done: old(self).model().handshake_done,
                session: Some(
                    LinkModel {
                        log: recorded(old(self).model().session->0.log, id@, request@, response),
                        ..old(self).model().session->0
                    },
                ),
            }),
    {
        let mut link = self.session.take().unwrap();
        link.requests.record(id, request, response.clone());
        self.session = Some(link);
        Reply::send(response)
    }
}

/// A connection carries at most one session: once it has one, a `create_run` or `join_run`
/// is answered directly, never sent to the runs, and the session stays the same.
pub proof fn lemma_at_most_one_session(
    before: &Connection,
    request: ClientMessage,
    step: Step,
    after: &Connection,
)
    requires
        before.model().session is Some,
        request is CreateRun || request is JoinRun,
        request_step(before, request, step, after),
    ensures
        step is Reply,
        after.model().session is Some,
        after.model().session->0.id == before.model().session->0.id,
        after.model().session->0.run_id == before.model().session->0.run_id,
{
}

/// A connection's session log is well-formed.
pub proof fn lemma_session_log_is_well_formed(c: &Connection)
    requires
        c.wf(),
        c.model().session is Some,
    ensures
        log_wf(c.model().session->0.log),
{
    lemma_log_is_well_formed(&c.session->0.requests);
}

/// A retry on a connection is answered with the recorded response, without a run call and
/// without changing the connection: request `id` was recorded with `response`, then the
/// newer requests `later`, fewer than `RETAINED_RESULTS` of them; the same request again
/// gets `response`.
pub proof fn lemma_connection_replays_retries(
    before: &Connection,
    log: LogModel,
    id: RequestId,
    request: ClientMessage,
    response: ServerMessage,
    later: Seq<RetainedResult>,
    step: Step,
    after: &Connection,
)
    requires
        before.model().session matches Some(link) && link.log == record_all(
            recorded(log, id@, request@, response),
            later,
        ),
        log_wf(log),
        id@ > log.highest,
        rising_ids(later, id@),
        later.len() < RETAINED_RESULTS,
        spec_request_id(request) == Some(id),
        request_step(before, request, step, after),
    ensures
        step == Step::Reply(Reply::send_spec(response)),
        after.model() == before.model(),
{
    lemma_retry_replays_until_expired(log, id@, request@, response, later, request@);
}

/// A refused `create_run` or `join_run` on a connection with a session is still an admitted
/// request: its `session_already_established` answer is recorded in the session's log under
/// its request number, which becomes the highest admitted, so a retry replays it and a
/// different request with that number conflicts.
pub proof fn lemma_refused_session_request_is_recorded(
    before: &Connection,
    request: ClientMessage,
    step: Step,
    after: &Connection,
)
    requires
        before.model().session is Some,
        request is CreateRun || request is JoinRun,
        verdict(before.model().session->0.log, spec_request_id(request)->0@, request@) is New,
        request_step(before, request, step, after),
    ensures
        ({
            let id = spec_request_id(request)->0;
            let link = before.model().session->0;
            step matches Step::Reply(r) && already_established_is(r.message, id)
                && after.model().handshake_done == before.model().handshake_done
                && after.model().session == Some(
                LinkModel { log: recorded(link.log, id@, request@, r.message), ..link },
            ) && recorded(link.log, id@, request@, r.message).highest == id@
                && recorded(link.log, id@, request@, r.message).retained.last() == (RetainedResult {
                id: id@,
                request: request@,
                response: r.message,
            })
        }),
{
}

/// How a `hello` is answered: a second `hello` is malformed and keeps the connection open; a
/// first `hello` for this server's version is welcomed with that version; a first `hello`
/// for any other version is refused, naming both versions, and closes the connection.
pub proof fn lemma_hello_answers(r: Reply, done: bool, requested: ProtocolVersion)
    requires
        hello_reply_is(r, done, requested),
    ensures
        done ==> !r.close && (r.message matches ServerMessage::Error(e) && e.code
            == ErrorCode::MalformedMessage && e.request_id is None),
        !done && requested == spec_protocol_version() ==> !r.close && r.message
            == (ServerMessage::Welcome { protocol_version: spec_protocol_version() }),
        !done && requested != spec_protocol_version() ==> r.close && (r.message matches ServerMessage::Error(
            e,
        ) && e.code == ErrorCode::UnsupportedProtocolVersion && e.request_id is None && e.details
            == Some((ErrorDetails::Versions { requested, supported: spec_protocol_version() }))),
{
}

/// What a request does on a connection without a session: nothing about the connection
/// changes; `create_run` goes to the runs only for a catalog entry that exists and is
/// otherwise answered `unknown_catalog_entry` with the entry; `join_run` goes to the runs;
/// `spawn` and `start` are answered `no_session`. Every answer echoes the request number.
pub proof fn lemma_requests_without_session(
    before: &Connection,
    request: ClientMessage,
    step: Step,
    after: &Connection,
)
    requires
        before.model().session is None,
        spec_request_id(request) is Some,
        request_step(before, request, step, after),
    ensures
        after.model() == before.model(),
        request is CreateRun ==> (catalog(request->catalog_entry@) is Some <==> (step is CreateRun)),
        request is CreateRun && catalog(request->catalog_entry@) is None ==> (step matches Step::Reply(
            r,
        ) && !r.close && (r.message matches ServerMessage::Error(e) && e.code
            == ErrorCode::UnknownCatalogEntry && e.request_id == spec_request_id(request) && e.details
            == Some((ErrorDetails::CatalogEntry { catalog_entry: request->catalog_entry })))),
        request is JoinRun ==> (step is JoinRun),
        request is Spawn || request is Start ==> (step matches Step::Reply(r) && !r.close && (
        r.message matches ServerMessage::Error(e) && e.code == ErrorCode::NoSession
            && e.request_id == spec_request_id(request))),
{
}

} // verus!
