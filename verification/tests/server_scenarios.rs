//! The server's client-protocol and run-lifetime scenarios, driven without a network. A small
//! in-process server plays the application's part: it performs the run calls that each
//! connection step asks for, keeps the runs, and advances a clock in milliseconds, waking
//! each run at its deadlines as the run tasks do.

use std::collections::HashSet;

use agora::protocol::{
    protocol_version, AgentId, CatalogEntryId, ClientMessage, ErrorCode, ErrorDetails,
    ErrorResponse, Placement, ProtocolVersion, RequestId, RunId, RunPhase, ServerMessage, StateId,
};
use agora::server::connection::{spawn_response, start_response};
use agora::server::wire;
use agora::server::{
    create, Connection, Run, RunGone, ServerConfig, Step, EMPTY_GRID_10X10, RETAINED_RESULTS,
};

/// A timeout short enough for tests to wait out.
const SHORT: u64 = 20;
/// A timeout no test waits out.
const LONG: u64 = 60_000;
/// Long enough for every short timeout to fire.
const SETTLE: u64 = 400;

struct Server {
    runs: Vec<Run>,
    config: ServerConfig,
    now: u64,
}

impl Server {
    fn start(config: ServerConfig) -> Self {
        Server {
            runs: Vec::new(),
            config,
            now: 0,
        }
    }

    fn start_default() -> Self {
        Server::start(ServerConfig::default())
    }

    fn find(&self, run_id: &RunId) -> Option<usize> {
        self.runs.iter().position(|run| run.id().same_as(run_id))
    }

    /// Handle one received frame and return the reply and whether the connection closes.
    fn handle(
        &mut self,
        connection: &mut Connection,
        message: Result<ClientMessage, ErrorResponse>,
    ) -> (ServerMessage, bool) {
        let reply = match connection.receive(message) {
            Step::Reply(reply) => reply,
            Step::CreateRun {
                request_id,
                request,
                catalog_entry,
                entry,
            } => {
                let (run_id, run, session) = create(catalog_entry, entry, self.config);
                self.runs.push(run);
                connection.created(request_id, request, run_id, session)
            }
            Step::JoinRun {
                request_id,
                request,
                run_id,
            } => {
                let joined = self.find(&run_id).map(|k| self.runs[k].join());
                connection.joined(request_id, request, run_id, joined)
            }
            Step::Spawn {
                request_id,
                request,
                placement,
            } => {
                let run_id = connection.run_id().unwrap().clone();
                let session = connection.session_id().unwrap().clone();
                let outcome = match self.find(&run_id) {
                    Some(k) => Ok(self.runs[k].spawn(&session, placement)),
                    None => Err(RunGone),
                };
                let response = spawn_response(request_id, outcome, &run_id);
                connection.executed(request_id, request, response)
            }
            Step::Start {
                request_id,
                request,
            } => {
                let run_id = connection.run_id().unwrap().clone();
                let session = connection.session_id().unwrap().clone();
                let outcome = match self.find(&run_id) {
                    Some(k) => Ok(self.runs[k].start(&session)),
                    None => Err(RunGone),
                };
                let response = start_response(request_id, outcome, &run_id);
                connection.executed(request_id, request, response)
            }
        };
        (reply.message, reply.close)
    }

    /// Let `ms` milliseconds pass, waking each run at every deadline on the way.
    fn sleep(&mut self, ms: u64) {
        let until = self.now + ms;
        loop {
            let next = self
                .runs
                .iter()
                .enumerate()
                .filter_map(|(k, run)| run.next_deadline().map(|at| (at, k)))
                .filter(|&(at, _)| at <= until)
                .min();
            let Some((at, k)) = next else {
                break;
            };
            self.now = self.now.max(at);
            if self.runs[k].expire(self.now) {
                self.runs.remove(k);
            }
        }
        self.now = until;
    }
}

struct Client {
    connection: Connection,
    next_request: u64,
    closed: bool,
}

impl Client {
    /// Connect without a handshake.
    fn connect() -> Self {
        Client {
            connection: Connection::new(),
            next_request: 1,
            closed: false,
        }
    }

    /// Connect and complete the version handshake.
    fn connect_with_hello(server: &mut Server) -> Self {
        let mut client = Client::connect();
        let reply = client.exchange(
            server,
            ClientMessage::Hello {
                protocol_version: protocol_version(),
            },
        );
        assert_eq!(
            reply,
            ServerMessage::Welcome {
                protocol_version: protocol_version()
            }
        );
        client
    }

    /// Connect, complete the handshake, and create a run on the bundled catalog entry.
    fn with_new_run(server: &mut Server) -> (Self, RunId) {
        let mut client = Client::connect_with_hello(server);
        let run_id = client.create_run(server);
        (client, run_id)
    }

    /// Connect, complete the handshake, and join `run_id`.
    fn joined(server: &mut Server, run_id: &RunId) -> Self {
        let mut client = Client::connect_with_hello(server);
        let reply = client.join_run(server, run_id);
        assert!(
            matches!(reply, ServerMessage::RunJoined { .. }),
            "{reply:?}"
        );
        client
    }

    /// The next unused request ID.
    fn next_id(&mut self) -> RequestId {
        let id = request_id(self.next_request);
        self.next_request += 1;
        id
    }

    /// Send a message and receive the reply.
    fn exchange(&mut self, server: &mut Server, message: ClientMessage) -> ServerMessage {
        self.receive_reply(server, Ok(message))
    }

    /// Send a text frame and receive the reply. `decoded` is what the application's JSON
    /// decode makes of the frame as a client message.
    fn exchange_text(
        &mut self,
        server: &mut Server,
        text: &str,
        decoded: Result<ClientMessage, String>,
    ) -> ServerMessage {
        self.receive_reply(server, wire::parse(text, decoded))
    }

    /// Send a binary frame and receive the reply.
    fn exchange_binary(&mut self, server: &mut Server) -> ServerMessage {
        self.receive_reply(server, Err(wire::binary_frame()))
    }

    fn receive_reply(
        &mut self,
        server: &mut Server,
        message: Result<ClientMessage, ErrorResponse>,
    ) -> ServerMessage {
        assert!(!self.closed, "the connection is closed");
        let (reply, close) = server.handle(&mut self.connection, message);
        self.closed = close;
        reply
    }

    fn create_run(&mut self, server: &mut Server) -> RunId {
        let request_id = self.next_id();
        let reply = self.exchange(
            server,
            ClientMessage::CreateRun {
                request_id,
                catalog_entry: empty_grid(),
            },
        );
        match reply {
            ServerMessage::RunCreated { run_id, .. } => run_id,
            other => panic!("expected run_created, got {other:?}"),
        }
    }

    fn join_run(&mut self, server: &mut Server, run_id: &RunId) -> ServerMessage {
        let request_id = self.next_id();
        self.exchange(
            server,
            ClientMessage::JoinRun {
                request_id,
                run_id: run_id.clone(),
            },
        )
    }

    fn spawn(&mut self, server: &mut Server, placement: Placement) -> ServerMessage {
        let request_id = self.next_id();
        self.exchange(
            server,
            ClientMessage::Spawn {
                request_id,
                placement,
            },
        )
    }

    fn start(&mut self, server: &mut Server) -> ServerMessage {
        let request_id = self.next_id();
        self.exchange(server, ClientMessage::Start { request_id })
    }

    /// Close the connection from the client side: its session loses its connection.
    fn close(self, server: &mut Server) {
        if let (Some(run_id), Some(session)) =
            (self.connection.run_id(), self.connection.session_id())
        {
            if let Some(k) = server.find(run_id) {
                let now = server.now;
                server.runs[k].disconnect(session, now);
            }
        }
    }
}

fn request_id(n: u64) -> RequestId {
    RequestId::new(n).unwrap()
}

fn agent(n: u64) -> AgentId {
    AgentId::new(n).unwrap()
}

fn empty_grid() -> CatalogEntryId {
    CatalogEntryId::new(EMPTY_GRID_10X10.to_string()).unwrap()
}

fn cell(x: u32, y: u32) -> Placement {
    Placement::Cell { x, y }
}

/// Unwrap an error response, failing the test on any other message.
fn expect_error(message: ServerMessage) -> ErrorResponse {
    match message {
        ServerMessage::Error(error) => error,
        other => panic!("expected an error, got {other:?}"),
    }
}

fn expect_code(message: ServerMessage, code: ErrorCode) -> ErrorResponse {
    let error = expect_error(message);
    assert_eq!(error.code, code, "{error:?}");
    error
}

// Client protocol.

#[test]
fn r01_unknown_message_types_are_rejected_with_their_type() {
    let mut server = Server::start_default();
    let mut client = Client::connect_with_hello(&mut server);

    let reply = client.exchange_text(
        &mut server,
        r#"{ "type": "dance", "request_id": 3 }"#,
        Err("unknown variant `dance`".to_string()),
    );

    let error = expect_code(reply, ErrorCode::UnknownMessageType);
    assert_eq!(error.request_id, Some(request_id(3)));
    assert_eq!(
        error.details,
        Some(ErrorDetails::MessageType {
            kind: "dance".to_string()
        })
    );
}

#[test]
fn r01_invalid_frames_are_malformed_and_echo_a_readable_request_id() {
    let mut server = Server::start_default();
    let mut client = Client::connect_with_hello(&mut server);

    for text in ["not json", "[1, 2]", r#"{ "request_id": 4 }"#] {
        let error = expect_code(
            client.exchange_text(&mut server, text, Err("not a message".to_string())),
            ErrorCode::MalformedMessage,
        );
        let expected = text.contains("request_id").then(|| request_id(4));
        assert_eq!(error.request_id, expected, "{text}");
    }

    // A known type with a missing field still echoes its request ID.
    let reply = client.exchange_text(
        &mut server,
        r#"{ "type": "spawn", "request_id": 2 }"#,
        Err("missing field `placement`".to_string()),
    );
    let error = expect_code(reply, ErrorCode::MalformedMessage);
    assert_eq!(error.request_id, Some(request_id(2)));

    let error = expect_code(client.exchange_binary(&mut server), ErrorCode::MalformedMessage);
    assert_eq!(error.request_id, None);
}

#[test]
fn r04_hello_is_answered_with_the_server_version() {
    let mut server = Server::start_default();
    let mut client = Client::connect();

    let reply = client.exchange(
        &mut server,
        ClientMessage::Hello {
            protocol_version: protocol_version(),
        },
    );

    assert_eq!(
        reply,
        ServerMessage::Welcome {
            protocol_version: protocol_version()
        }
    );
}

#[test]
fn r04_r06_an_unsupported_version_is_rejected_and_the_connection_closed() {
    let mut server = Server::start_default();
    let mut client = Client::connect();

    let reply = client.exchange(
        &mut server,
        ClientMessage::Hello {
            protocol_version: ProtocolVersion::new(0, 2, 0),
        },
    );

    let error = expect_code(reply, ErrorCode::UnsupportedProtocolVersion);
    assert_eq!(error.request_id, None);
    assert_eq!(
        error.details,
        Some(ErrorDetails::Versions {
            requested: ProtocolVersion::new(0, 2, 0),
            supported: protocol_version(),
        })
    );
    assert!(client.closed);
}

#[test]
fn r04_requests_before_hello_are_rejected() {
    let mut server = Server::start_default();
    let mut client = Client::connect();

    let reply = client.exchange(
        &mut server,
        ClientMessage::CreateRun {
            request_id: request_id(1),
            catalog_entry: empty_grid(),
        },
    );
    let error = expect_code(reply, ErrorCode::HandshakeRequired);
    assert_eq!(error.request_id, Some(request_id(1)));

    // The connection stays open, and the handshake can still complete.
    let reply = client.exchange(
        &mut server,
        ClientMessage::Hello {
            protocol_version: protocol_version(),
        },
    );
    assert!(matches!(reply, ServerMessage::Welcome { .. }), "{reply:?}");
}

#[test]
fn r04_a_second_hello_is_malformed() {
    let mut server = Server::start_default();
    let mut client = Client::connect_with_hello(&mut server);

    let reply = client.exchange(
        &mut server,
        ClientMessage::Hello {
            protocol_version: protocol_version(),
        },
    );

    let error = expect_code(reply, ErrorCode::MalformedMessage);
    assert_eq!(error.request_id, None);
}

#[test]
fn r07_a_retry_returns_the_original_result_without_executing_again() {
    let mut server = Server::start_default();
    let (mut client, _) = Client::with_new_run(&mut server);
    let spawn = ClientMessage::Spawn {
        request_id: request_id(2),
        placement: Placement::Random,
    };

    let first = client.exchange(&mut server, spawn.clone());
    let retry = client.exchange(&mut server, spawn);

    assert_eq!(
        first,
        ServerMessage::Spawned {
            request_id: request_id(2),
            agent_id: agent(1)
        }
    );
    assert_eq!(retry, first);
    // The retry spawned nothing: the next agent is 2.
    client.next_id();
    let reply = client.spawn(&mut server, Placement::Random);
    assert!(
        matches!(reply, ServerMessage::Spawned { agent_id, .. } if agent_id == agent(2)),
        "{reply:?}"
    );
}

#[test]
fn r07_a_retried_create_run_returns_the_same_run() {
    let mut server = Server::start_default();
    let mut client = Client::connect_with_hello(&mut server);
    let create = ClientMessage::CreateRun {
        request_id: request_id(1),
        catalog_entry: empty_grid(),
    };

    let first = client.exchange(&mut server, create.clone());
    let retry = client.exchange(&mut server, create);

    assert!(
        matches!(first, ServerMessage::RunCreated { .. }),
        "{first:?}"
    );
    assert_eq!(retry, first);
    assert_eq!(server.runs.len(), 1);
}

#[test]
fn r07_error_results_are_retained_too() {
    let mut server = Server::start_default();
    let (mut client, _) = Client::with_new_run(&mut server);
    let spawn = ClientMessage::Spawn {
        request_id: request_id(2),
        placement: cell(10, 0),
    };

    let first = client.exchange(&mut server, spawn.clone());
    let retry = client.exchange(&mut server, spawn);

    expect_code(first.clone(), ErrorCode::CellOutOfBounds);
    assert_eq!(retry, first);
}

#[test]
fn r07_reusing_an_id_for_a_different_request_conflicts() {
    let mut server = Server::start_default();
    let (mut client, _) = Client::with_new_run(&mut server);
    client.exchange(
        &mut server,
        ClientMessage::Spawn {
            request_id: request_id(2),
            placement: cell(0, 0),
        },
    );

    let reply = client.exchange(
        &mut server,
        ClientMessage::Spawn {
            request_id: request_id(2),
            placement: cell(1, 1),
        },
    );

    let error = expect_code(reply, ErrorCode::RequestIdConflict);
    assert_eq!(error.request_id, Some(request_id(2)));
}

#[test]
fn r07_a_skipped_id_within_the_retained_results_is_stale() {
    let mut server = Server::start_default();
    let (mut client, _) = Client::with_new_run(&mut server);
    client.exchange(
        &mut server,
        ClientMessage::Spawn {
            request_id: request_id(3),
            placement: Placement::Random,
        },
    );

    let reply = client.exchange(
        &mut server,
        ClientMessage::Spawn {
            request_id: request_id(2),
            placement: Placement::Random,
        },
    );

    let error = expect_code(reply, ErrorCode::StaleRequestId);
    assert_eq!(
        error.details,
        Some(ErrorDetails::HighestAdmitted {
            highest_admitted: request_id(3)
        })
    );
}

#[test]
fn r07_ids_older_than_the_retained_results_have_expired() {
    let mut server = Server::start_default();
    let mut client = Client::connect_with_hello(&mut server);
    let create = ClientMessage::CreateRun {
        request_id: client.next_id(),
        catalog_entry: empty_grid(),
    };
    client.exchange(&mut server, create.clone());
    let spawns: Vec<ClientMessage> = (0..RETAINED_RESULTS)
        .map(|_| ClientMessage::Spawn {
            request_id: client.next_id(),
            placement: Placement::Random,
        })
        .collect();
    for spawn in &spawns {
        client.exchange(&mut server, spawn.clone());
    }

    // The create_run result was the oldest of RETAINED_RESULTS + 1 results.
    let error = expect_code(client.exchange(&mut server, create), ErrorCode::ResultExpired);
    assert_eq!(error.request_id, Some(request_id(1)));
    // The last RETAINED_RESULTS results are still replayed.
    let reply = client.exchange(&mut server, spawns[0].clone());
    assert!(
        matches!(reply, ServerMessage::Spawned { agent_id, .. } if agent_id == agent(1)),
        "{reply:?}"
    );
}

#[test]
fn r07_different_sessions_use_request_ids_independently() {
    let mut server = Server::start_default();
    let (mut creator, run_id) = Client::with_new_run(&mut server);
    let mut joiner = Client::joined(&mut server, &run_id);

    // Both sessions have used request 1; each now uses request 2 for a different spawn.
    let first = creator.spawn(&mut server, cell(0, 0));
    let second = joiner.spawn(&mut server, cell(1, 0));

    assert!(matches!(first, ServerMessage::Spawned { .. }), "{first:?}");
    assert!(
        matches!(second, ServerMessage::Spawned { .. }),
        "{second:?}"
    );
}

#[test]
fn r08_create_run_returns_a_new_run_in_setup_at_state_0() {
    let mut server = Server::start_default();
    let mut client = Client::connect_with_hello(&mut server);

    let reply = client.exchange(
        &mut server,
        ClientMessage::CreateRun {
            request_id: request_id(1),
            catalog_entry: empty_grid(),
        },
    );

    let ServerMessage::RunCreated {
        request_id: echoed,
        catalog_entry,
        state_id,
        phase,
        ..
    } = reply
    else {
        panic!("expected run_created, got {reply:?}");
    };
    assert_eq!(echoed, request_id(1));
    assert_eq!(catalog_entry, empty_grid());
    assert_eq!(state_id, StateId::new(0).unwrap());
    assert_eq!(phase, RunPhase::Setup);
}

#[test]
fn r08_join_run_establishes_a_new_session_and_reports_the_phase() {
    let mut server = Server::start_default();
    let mut creator = Client::connect_with_hello(&mut server);
    let request_id = creator.next_id();
    let ServerMessage::RunCreated {
        run_id, session_id, ..
    } = creator.exchange(
        &mut server,
        ClientMessage::CreateRun {
            request_id,
            catalog_entry: empty_grid(),
        },
    )
    else {
        panic!("expected run_created");
    };

    let mut early = Client::connect_with_hello(&mut server);
    let reply = early.join_run(&mut server, &run_id);
    let ServerMessage::RunJoined {
        run_id: joined_run,
        session_id: joined_session,
        catalog_entry,
        state_id,
        phase,
        ..
    } = reply
    else {
        panic!("expected run_joined, got {reply:?}");
    };
    assert_eq!(joined_run, run_id);
    assert_ne!(joined_session, session_id);
    assert_eq!(catalog_entry, empty_grid());
    assert_eq!(state_id, StateId::new(0).unwrap());
    assert_eq!(phase, RunPhase::Setup);

    creator.spawn(&mut server, Placement::Random);
    creator.start(&mut server);
    let mut late = Client::connect_with_hello(&mut server);
    let reply = late.join_run(&mut server, &run_id);
    assert!(
        matches!(
            reply,
            ServerMessage::RunJoined {
                phase: RunPhase::Started,
                ..
            }
        ),
        "{reply:?}"
    );
}

#[test]
fn r08_spawn_assigns_agent_ids_across_sessions() {
    let mut server = Server::start_default();
    let (mut creator, run_id) = Client::with_new_run(&mut server);
    let mut joiner = Client::joined(&mut server, &run_id);

    let first = creator.spawn(&mut server, cell(0, 0));
    let second = joiner.spawn(&mut server, cell(9, 9));

    assert_eq!(
        first,
        ServerMessage::Spawned {
            request_id: request_id(2),
            agent_id: agent(1)
        }
    );
    assert_eq!(
        second,
        ServerMessage::Spawned {
            request_id: request_id(2),
            agent_id: agent(2)
        }
    );
}

#[test]
fn r08_start_confirms_the_run_started() {
    let mut server = Server::start_default();
    let (mut client, _) = Client::with_new_run(&mut server);
    client.spawn(&mut server, Placement::Random);

    let reply = client.start(&mut server);

    assert_eq!(
        reply,
        ServerMessage::Started {
            request_id: request_id(3)
        }
    );
}

#[test]
fn r08_a_connection_has_at_most_one_session() {
    let mut server = Server::start_default();
    let (mut client, run_id) = Client::with_new_run(&mut server);

    let request_id = client.next_id();
    let create = client.exchange(
        &mut server,
        ClientMessage::CreateRun {
            request_id,
            catalog_entry: empty_grid(),
        },
    );
    let join = client.join_run(&mut server, &run_id);

    expect_code(create, ErrorCode::SessionAlreadyEstablished);
    expect_code(join, ErrorCode::SessionAlreadyEstablished);
}

#[test]
fn r08_run_scoped_requests_need_a_session() {
    let mut server = Server::start_default();
    let mut client = Client::connect_with_hello(&mut server);

    let spawn = client.spawn(&mut server, Placement::Random);
    let start = client.start(&mut server);

    let error = expect_code(spawn, ErrorCode::NoSession);
    assert_eq!(error.request_id, Some(request_id(1)));
    expect_code(start, ErrorCode::NoSession);
}

#[test]
fn r09_unknown_catalog_entries_and_runs_are_reported_with_details() {
    let mut server = Server::start_default();
    let mut client = Client::connect_with_hello(&mut server);

    let maze = CatalogEntryId::new("maze".to_string()).unwrap();
    let reply = client.exchange(
        &mut server,
        ClientMessage::CreateRun {
            request_id: request_id(1),
            catalog_entry: maze.clone(),
        },
    );
    let error = expect_code(reply, ErrorCode::UnknownCatalogEntry);
    assert_eq!(
        error.details,
        Some(ErrorDetails::CatalogEntry {
            catalog_entry: maze
        })
    );

    let missing = RunId::new("no-such-run".to_string()).unwrap();
    let reply = client.join_run(&mut server, &missing);
    let error = expect_code(reply, ErrorCode::UnknownRun);
    assert_eq!(error.details, Some(ErrorDetails::Run { run_id: missing }));
}

#[test]
fn r09_spawn_failures_map_to_their_codes() {
    let mut server = Server::start_default();
    let (mut client, _) = Client::with_new_run(&mut server);

    let error = expect_code(client.spawn(&mut server, cell(3, 10)), ErrorCode::CellOutOfBounds);
    assert_eq!(error.details, Some(ErrorDetails::Cell { x: 3, y: 10 }));

    client.spawn(&mut server, cell(2, 2));
    let error = expect_code(client.spawn(&mut server, cell(2, 2)), ErrorCode::CellOccupied);
    assert_eq!(error.details, Some(ErrorDetails::Cell { x: 2, y: 2 }));

    for _ in 1..100 {
        let reply = client.spawn(&mut server, Placement::Random);
        assert!(matches!(reply, ServerMessage::Spawned { .. }), "{reply:?}");
    }
    expect_code(client.spawn(&mut server, Placement::Random), ErrorCode::NoFreeCell);
}

#[test]
fn r09_errors_carry_a_message_for_people() {
    let mut server = Server::start_default();
    let mut client = Client::connect_with_hello(&mut server);

    let error = expect_error(client.start(&mut server));

    assert!(!error.message.is_empty());
}

// Sessions and runs.

#[test]
fn r01_the_bundled_entry_is_an_empty_10_by_10_grid() {
    let mut server = Server::start_default();
    let (mut client, _) = Client::with_new_run(&mut server);

    for placement in [cell(0, 0), cell(9, 0), cell(0, 9), cell(9, 9)] {
        let reply = client.spawn(&mut server, placement);
        assert!(matches!(reply, ServerMessage::Spawned { .. }), "{reply:?}");
    }
    for placement in [cell(10, 0), cell(0, 10)] {
        expect_code(client.spawn(&mut server, placement), ErrorCode::CellOutOfBounds);
    }
}

#[test]
fn r02_run_and_session_ids_are_unique() {
    let mut server = Server::start_default();
    let mut runs = HashSet::new();
    let mut sessions = HashSet::new();

    for _ in 0..3 {
        let mut creator = Client::connect_with_hello(&mut server);
        let request_id = creator.next_id();
        let ServerMessage::RunCreated {
            run_id, session_id, ..
        } = creator.exchange(
            &mut server,
            ClientMessage::CreateRun {
                request_id,
                catalog_entry: empty_grid(),
            },
        )
        else {
            panic!("expected run_created");
        };
        let mut joiner = Client::connect_with_hello(&mut server);
        let ServerMessage::RunJoined {
            session_id: joined, ..
        } = joiner.join_run(&mut server, &run_id)
        else {
            panic!("expected run_joined");
        };
        assert!(runs.insert(run_id));
        assert!(sessions.insert(session_id));
        assert!(sessions.insert(joined));
    }
}

#[test]
fn r03_only_the_creator_can_start_the_run() {
    let mut server = Server::start_default();
    let (mut creator, run_id) = Client::with_new_run(&mut server);
    let mut joiner = Client::joined(&mut server, &run_id);
    joiner.spawn(&mut server, Placement::Random);

    expect_code(joiner.start(&mut server), ErrorCode::NotCreator);
    let reply = creator.start(&mut server);

    assert!(matches!(reply, ServerMessage::Started { .. }), "{reply:?}");
}

#[test]
fn r04_start_without_agents_is_rejected_and_the_run_stays_in_setup() {
    let mut server = Server::start_default();
    let (mut creator, run_id) = Client::with_new_run(&mut server);

    expect_code(creator.start(&mut server), ErrorCode::StartNotEligible);

    let mut observer = Client::connect_with_hello(&mut server);
    let reply = observer.join_run(&mut server, &run_id);
    assert!(
        matches!(
            reply,
            ServerMessage::RunJoined {
                phase: RunPhase::Setup,
                ..
            }
        ),
        "{reply:?}"
    );
    creator.spawn(&mut server, Placement::Random);
    let reply = creator.start(&mut server);
    assert!(matches!(reply, ServerMessage::Started { .. }), "{reply:?}");
}

#[test]
fn r04_a_run_starts_only_once() {
    let mut server = Server::start_default();
    let (mut creator, _) = Client::with_new_run(&mut server);
    creator.spawn(&mut server, Placement::Random);
    creator.start(&mut server);

    expect_code(creator.start(&mut server), ErrorCode::RunAlreadyStarted);
}

#[test]
fn r05_spawning_after_start_is_rejected() {
    let mut server = Server::start_default();
    let (mut creator, run_id) = Client::with_new_run(&mut server);
    creator.spawn(&mut server, Placement::Random);
    creator.start(&mut server);
    let mut joiner = Client::joined(&mut server, &run_id);

    expect_code(
        joiner.spawn(&mut server, Placement::Random),
        ErrorCode::RunAlreadyStarted,
    );
}

#[test]
fn r06_a_disconnected_session_keeps_its_run_until_it_expires() {
    let mut server = Server::start(ServerConfig {
        session_expiry: LONG,
        run_release: SHORT,
    });
    let (creator, run_id) = Client::with_new_run(&mut server);

    creator.close(&mut server);
    server.sleep(SETTLE);

    // The creator's session has not expired, so the run's release timer never started.
    let mut joiner = Client::connect_with_hello(&mut server);
    let reply = joiner.join_run(&mut server, &run_id);
    assert!(
        matches!(reply, ServerMessage::RunJoined { .. }),
        "{reply:?}"
    );
}

#[test]
fn r07_a_run_whose_sessions_have_all_expired_is_released() {
    let mut server = Server::start(ServerConfig {
        session_expiry: SHORT,
        run_release: SHORT,
    });
    let (creator, run_id) = Client::with_new_run(&mut server);

    creator.close(&mut server);
    server.sleep(SETTLE);

    let mut late = Client::connect_with_hello(&mut server);
    expect_code(late.join_run(&mut server, &run_id), ErrorCode::UnknownRun);
}

#[test]
fn r07_joining_before_release_keeps_the_run() {
    let mut server = Server::start(ServerConfig {
        session_expiry: SHORT,
        run_release: LONG,
    });
    let (mut creator, run_id) = Client::with_new_run(&mut server);
    creator.spawn(&mut server, cell(4, 4));

    creator.close(&mut server);
    server.sleep(SETTLE);

    // The creator's session has expired and the release timer is running.
    let mut rescuer = Client::connect_with_hello(&mut server);
    let reply = rescuer.join_run(&mut server, &run_id);
    assert!(
        matches!(reply, ServerMessage::RunJoined { .. }),
        "{reply:?}"
    );
    // The expired session's agent is still in the world.
    expect_code(rescuer.spawn(&mut server, cell(4, 4)), ErrorCode::CellOccupied);
}

#[test]
fn r07_a_connected_session_keeps_its_run() {
    let mut server = Server::start(ServerConfig {
        session_expiry: SHORT,
        run_release: SHORT,
    });
    let (_creator, run_id) = Client::with_new_run(&mut server);

    server.sleep(SETTLE);

    let mut joiner = Client::connect_with_hello(&mut server);
    let reply = joiner.join_run(&mut server, &run_id);
    assert!(
        matches!(reply, ServerMessage::RunJoined { .. }),
        "{reply:?}"
    );
}
