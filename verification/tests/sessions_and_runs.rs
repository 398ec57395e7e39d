//! Tests of the server's connection and run decisions, driven without a network: a small
//! harness plays the application's part, performing the run calls that each step asks for.

use agora::protocol::{
    protocol_version, CatalogEntryId, ClientMessage, ErrorCode, ErrorDetails, ErrorResponse,
    Placement, ProtocolVersion, RequestId, RunId, RunPhase, ServerMessage,
};
use agora::server::connection::{spawn_response, start_response};
use agora::server::random::random_id;
use agora::server::wire;
use agora::server::{
    create, lookup, Connection, Reply, Run, ServerConfig, Step, EMPTY_GRID_10X10,
};

struct Harness {
    runs: Vec<Run>,
    config: ServerConfig,
}

impl Harness {
    fn new() -> Self {
        Harness {
            runs: Vec::new(),
            config: ServerConfig::default(),
        }
    }

    fn run_index(&self, run_id: &RunId) -> Option<usize> {
        self.runs.iter().position(|run| run.id().same_as(run_id))
    }

    fn send(&mut self, connection: &mut Connection, message: ClientMessage) -> Reply {
        self.frame(connection, Ok(message))
    }

    fn frame(
        &mut self,
        connection: &mut Connection,
        message: Result<ClientMessage, ErrorResponse>,
    ) -> Reply {
        match connection.receive(message) {
            Step::Reply(reply) => reply,
            Step::CreateRun {
                request_id,
                request,
                catalog_entry,
                entry,
            } => {
                let (run_id, run, info) = create(catalog_entry, entry, self.config);
                self.runs.push(run);
                connection.created(request_id, request, run_id, info)
            }
            Step::JoinRun {
                request_id,
                request,
                run_id,
            } => {
                let joined = self.run_index(&run_id).map(|i| self.runs[i].join());
                connection.joined(request_id, request, run_id, joined)
            }
            Step::Spawn {
                request_id,
                request,
                placement,
            } => {
                let run_id = connection.run_id().unwrap().clone();
                let session = connection.session_id().unwrap().clone();
                let outcome = match self.run_index(&run_id) {
                    Some(i) => Ok(self.runs[i].spawn(&session, placement)),
                    None => Err(agora::server::RunGone),
                };
                let response = spawn_response(request_id, outcome, &run_id);
                connection.executed(request_id, request, response)
            }
            Step::Start {
                request_id,
                request,
            } => {
                let run_id = connection.run_id().unwrap().clone();
                let session = connection.session_id().unwrap().clone();
                let outcome = match self.run_index(&run_id) {
                    Some(i) => Ok(self.runs[i].start(&session)),
                    None => Err(agora::server::RunGone),
                };
                let response = start_response(request_id, outcome, &run_id);
                connection.executed(request_id, request, response)
            }
        }
    }

    fn hello(&mut self, connection: &mut Connection) {
        let reply = self.send(
            connection,
            ClientMessage::Hello {
                protocol_version: protocol_version(),
            },
        );
        assert!(matches!(reply.message, ServerMessage::Welcome { .. }));
    }
}

fn id(n: u64) -> RequestId {
    RequestId::new(n).unwrap()
}

fn empty_grid() -> CatalogEntryId {
    CatalogEntryId::new(EMPTY_GRID_10X10.to_string()).unwrap()
}

fn create_run(n: u64) -> ClientMessage {
    ClientMessage::CreateRun {
        request_id: id(n),
        catalog_entry: empty_grid(),
    }
}

fn spawn(n: u64, placement: Placement) -> ClientMessage {
    ClientMessage::Spawn {
        request_id: id(n),
        placement,
    }
}

fn error_of(reply: &Reply) -> &ErrorResponse {
    match &reply.message {
        ServerMessage::Error(error) => error,
        other => panic!("expected an error, got {other:?}"),
    }
}

fn run_id_of(reply: &Reply) -> RunId {
    match &reply.message {
        ServerMessage::RunCreated { run_id, .. } => run_id.clone(),
        other => panic!("expected run_created, got {other:?}"),
    }
}

#[test]
fn an_unsupported_version_is_rejected_and_the_connection_closed() {
    let mut harness = Harness::new();
    let mut connection = Connection::new();
    let reply = harness.send(
        &mut connection,
        ClientMessage::Hello {
            protocol_version: ProtocolVersion::new(0, 2, 0),
        },
    );
    assert!(reply.close);
    let error = error_of(&reply);
    assert_eq!(error.code, ErrorCode::UnsupportedProtocolVersion);
    assert_eq!(error.request_id, None);
    assert_eq!(error.message, "protocol version 0.2.0 is not supported");
    assert_eq!(
        error.details,
        Some(ErrorDetails::Versions {
            requested: ProtocolVersion::new(0, 2, 0),
            supported: protocol_version(),
        })
    );
}

#[test]
fn create_run_returns_a_new_run_in_setup_at_state_0() {
    let mut harness = Harness::new();
    let mut connection = Connection::new();
    harness.hello(&mut connection);
    let reply = harness.send(&mut connection, create_run(1));
    match reply.message {
        ServerMessage::RunCreated {
            request_id,
            catalog_entry,
            state_id,
            phase,
            run_id,
            session_id,
        } => {
            assert_eq!(request_id, id(1));
            assert_eq!(catalog_entry, empty_grid());
            assert_eq!(state_id.get(), 0);
            assert_eq!(phase, RunPhase::Setup);
            assert_eq!(run_id.as_str().len(), 32);
            assert_eq!(session_id.as_str().len(), 32);
        }
        other => panic!("expected run_created, got {other:?}"),
    }
}

#[test]
fn the_bundled_entry_is_an_empty_10_by_10_grid() {
    let entry = lookup(&empty_grid()).unwrap();
    assert_eq!((entry.width, entry.height), (10, 10));
    assert!(lookup(&CatalogEntryId::new("maze".to_string()).unwrap()).is_none());

    let mut harness = Harness::new();
    let mut connection = Connection::new();
    harness.hello(&mut connection);
    harness.send(&mut connection, create_run(1));
    for (n, (x, y)) in [(0, 0), (9, 0), (0, 9), (9, 9)].into_iter().enumerate() {
        let reply = harness.send(&mut connection, spawn(n as u64 + 2, Placement::Cell { x, y }));
        assert!(matches!(reply.message, ServerMessage::Spawned { .. }));
    }
    let reply = harness.send(&mut connection, spawn(6, Placement::Cell { x: 10, y: 0 }));
    let error = error_of(&reply);
    assert_eq!(error.code, ErrorCode::CellOutOfBounds);
    assert_eq!(error.details, Some(ErrorDetails::Cell { x: 10, y: 0 }));
    assert_eq!(error.message, "cell (10, 0) is outside the grid");
}

#[test]
fn spawn_assigns_agent_ids_across_sessions_and_only_the_creator_starts() {
    let mut harness = Harness::new();
    let mut creator = Connection::new();
    harness.hello(&mut creator);
    let run_id = run_id_of(&harness.send(&mut creator, create_run(1)));
    let mut other = Connection::new();
    harness.hello(&mut other);
    harness.send(
        &mut other,
        ClientMessage::JoinRun {
            request_id: id(1),
            run_id,
        },
    );

    let a = harness.send(&mut creator, spawn(2, Placement::Random));
    let b = harness.send(&mut other, spawn(2, Placement::Cell { x: 5, y: 5 }));
    let agent = |reply: &Reply| match &reply.message {
        ServerMessage::Spawned { agent_id, .. } => agent_id.get(),
        other => panic!("expected spawned, got {other:?}"),
    };
    assert_eq!((agent(&a), agent(&b)), (1, 2));

    let reply = harness.send(&mut other, ClientMessage::Start { request_id: id(3) });
    assert_eq!(error_of(&reply).code, ErrorCode::NotCreator);
    let reply = harness.send(&mut creator, ClientMessage::Start { request_id: id(3) });
    assert_eq!(
        reply.message,
        ServerMessage::Started {
            request_id: id(3)
        }
    );
    let reply = harness.send(&mut creator, ClientMessage::Start { request_id: id(4) });
    assert_eq!(error_of(&reply).code, ErrorCode::RunAlreadyStarted);
    let reply = harness.send(&mut other, spawn(5, Placement::Random));
    assert_eq!(error_of(&reply).code, ErrorCode::RunAlreadyStarted);
}

#[test]
fn start_without_agents_is_rejected_and_the_run_stays_in_setup() {
    let mut harness = Harness::new();
    let mut creator = Connection::new();
    harness.hello(&mut creator);
    harness.send(&mut creator, create_run(1));
    let reply = harness.send(&mut creator, ClientMessage::Start { request_id: id(2) });
    let error = error_of(&reply);
    assert_eq!(error.code, ErrorCode::StartNotEligible);
    assert_eq!(harness.runs[0].phase(), RunPhase::Setup);
    let reply = harness.send(&mut creator, spawn(3, Placement::Random));
    assert!(matches!(reply.message, ServerMessage::Spawned { .. }));
}

#[test]
fn error_results_are_retained_and_ids_are_checked() {
    let mut harness = Harness::new();
    let mut connection = Connection::new();
    harness.hello(&mut connection);
    harness.send(&mut connection, create_run(1));
    let first = harness.send(&mut connection, spawn(2, Placement::Cell { x: 10, y: 10 }));
    let again = harness.send(&mut connection, spawn(2, Placement::Cell { x: 10, y: 10 }));
    assert_eq!(first.message, again.message);
    let conflict = harness.send(&mut connection, spawn(2, Placement::Random));
    assert_eq!(error_of(&conflict).code, ErrorCode::RequestIdConflict);
    harness.send(&mut connection, spawn(5, Placement::Random));
    let stale = harness.send(&mut connection, spawn(4, Placement::Random));
    let error = error_of(&stale);
    assert_eq!(error.code, ErrorCode::StaleRequestId);
    assert_eq!(
        error.details,
        Some(ErrorDetails::HighestAdmitted {
            highest_admitted: id(5)
        })
    );
    for n in 6..=9 {
        harness.send(&mut connection, ClientMessage::Start { request_id: id(n) });
    }
    let expired = harness.send(&mut connection, create_run(1));
    assert_eq!(error_of(&expired).code, ErrorCode::ResultExpired);
}

#[test]
fn unknown_catalog_entries_and_runs_are_reported_with_details() {
    let mut harness = Harness::new();
    let mut connection = Connection::new();
    harness.hello(&mut connection);
    let maze = CatalogEntryId::new("maze".to_string()).unwrap();
    let reply = harness.send(
        &mut connection,
        ClientMessage::CreateRun {
            request_id: id(1),
            catalog_entry: maze.clone(),
        },
    );
    let error = error_of(&reply);
    assert_eq!(error.code, ErrorCode::UnknownCatalogEntry);
    assert_eq!(
        error.details,
        Some(ErrorDetails::CatalogEntry {
            catalog_entry: maze
        })
    );
    assert_eq!(error.message, "no catalog entry CatalogEntryId(\"maze\")");

    let missing = RunId::new("no-such-run".to_string()).unwrap();
    let reply = harness.send(
        &mut connection,
        ClientMessage::JoinRun {
            request_id: id(2),
            run_id: missing.clone(),
        },
    );
    let error = error_of(&reply);
    assert_eq!(error.code, ErrorCode::UnknownRun);
    assert_eq!(error.details, Some(ErrorDetails::Run { run_id: missing }));
    assert!(!connection.has_session());
}

#[test]
fn a_run_is_released_only_once_its_sessions_have_expired() {
    let config = ServerConfig {
        session_expiry: 20,
        run_release: 20,
    };
    let (_, mut run, creator) = create(empty_grid(), lookup(&empty_grid()).unwrap(), config);
    assert_eq!(run.next_deadline(), None);
    assert!(!run.expire(1_000));

    run.disconnect(&creator.session_id, 100);
    assert_eq!(run.next_deadline(), Some(120));
    assert!(!run.expire(110));
    assert!(run.has_session(&creator.session_id));

    // The session expires at 120; the release timer then runs until 140.
    assert!(!run.expire(120));
    assert!(!run.has_session(&creator.session_id));
    assert_eq!(run.next_deadline(), Some(140));
    assert!(!run.expire(130));
    assert!(run.expire(140));
}

#[test]
fn sessions_expire_on_time() {
    let config = ServerConfig {
        session_expiry: 20,
        run_release: 50,
    };
    let (_, mut run, creator) = create(empty_grid(), lookup(&empty_grid()).unwrap(), config);
    let viewer = run.join();
    run.disconnect(&viewer.session_id, 100);
    assert!(!run.expire(119));
    assert!(run.has_session(&viewer.session_id));
    assert!(!run.expire(120));
    assert!(!run.has_session(&viewer.session_id));
    // The connected creator never expires, so no release timer starts.
    assert!(run.has_session(&creator.session_id));
    assert_eq!(run.next_deadline(), None);
    assert!(!run.expire(u64::MAX - 50));
}

#[test]
fn joining_before_release_keeps_the_run() {
    let config = ServerConfig {
        session_expiry: 20,
        run_release: 20,
    };
    let (_, mut run, creator) = create(empty_grid(), lookup(&empty_grid()).unwrap(), config);
    run.disconnect(&creator.session_id, 0);
    assert!(!run.expire(20));
    let joined = run.join();
    assert_eq!(joined.phase, RunPhase::Setup);
    assert_eq!(run.next_deadline(), None);
    assert!(!run.expire(1_000_000));
    assert!(run.has_session(&joined.session_id));
}

#[test]
fn frames_are_classified_before_they_are_requests() {
    let unused = || Err("not read".to_string());
    let not_json = wire::parse("not json", unused()).unwrap_err();
    assert_eq!(not_json.code, ErrorCode::MalformedMessage);
    assert!(not_json.message.starts_with("frame is not valid JSON: "));
    assert!(not_json.message.len() > "frame is not valid JSON: ".len());
    assert_eq!(not_json.request_id, None);

    let not_object = wire::parse("[1, 2]", unused()).unwrap_err();
    assert_eq!(not_object.message, "frame is not a JSON object");
    assert_eq!(not_object.request_id, None);

    let untyped = wire::parse(r#"{ "request_id": 4 }"#, unused()).unwrap_err();
    assert_eq!(untyped.code, ErrorCode::MalformedMessage);
    assert_eq!(untyped.request_id, Some(id(4)));
    assert_eq!(untyped.message, "missing string field `type`");

    // A request ID outside the allowed range is not echoed.
    let out_of_range = wire::parse(r#"{ "request_id": 0, "type": 7 }"#, unused()).unwrap_err();
    assert_eq!(out_of_range.request_id, None);

    let unknown = wire::parse(r#"{ "type": "dance", "request_id": 3 }"#, unused()).unwrap_err();
    assert_eq!(unknown.code, ErrorCode::UnknownMessageType);
    assert_eq!(unknown.request_id, Some(id(3)));
    assert_eq!(unknown.message, "unknown message type \"dance\"");
    assert_eq!(
        unknown.details,
        Some(ErrorDetails::MessageType {
            kind: "dance".to_string()
        })
    );

    let missing_field = wire::parse(
        r#"{ "type": "spawn", "request_id": 2 }"#,
        Err("missing field `placement`".to_string()),
    )
    .unwrap_err();
    assert_eq!(missing_field.code, ErrorCode::MalformedMessage);
    assert_eq!(missing_field.request_id, Some(id(2)));
    assert_eq!(missing_field.message, "missing field `placement`");

    let start = wire::parse(
        r#"{ "type": "start", "request_id": 4 }"#,
        Ok(ClientMessage::Start { request_id: id(4) }),
    );
    assert_eq!(start, Ok(ClientMessage::Start { request_id: id(4) }));

    let binary = wire::binary_frame();
    assert_eq!(binary.code, ErrorCode::MalformedMessage);
    assert_eq!(binary.request_id, None);
}

#[test]
fn parse_errors_are_sent_back_unchanged() {
    let mut harness = Harness::new();
    let mut connection = Connection::new();
    let error = wire::malformed(None, "frame is not a JSON object".to_string());
    let reply = harness.frame(&mut connection, Err(error.clone()));
    assert_eq!(reply.message, ServerMessage::Error(error));
    assert!(!reply.close);
}

#[test]
fn run_and_session_ids_are_32_hexadecimal_digits() {
    let a = random_id();
    let b = random_id();
    for id in [&a, &b] {
        assert_eq!(id.len(), 32);
        assert!(id.chars().all(|c| c.is_ascii_hexdigit() && !c.is_ascii_uppercase()));
    }
    assert_ne!(a, b);
}
