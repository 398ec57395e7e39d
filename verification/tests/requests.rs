//! Tests of per-session request-ID admission and result retention.

use agora::protocol::{ClientMessage, ErrorCode, ErrorDetails, RequestId, ServerMessage};
use agora::server::{Admission, RequestLog, RETAINED_RESULTS};

fn id(n: u64) -> RequestId {
    RequestId::new(n).unwrap()
}

fn start(n: u64) -> ClientMessage {
    ClientMessage::Start { request_id: id(n) }
}

fn started(n: u64) -> ServerMessage {
    ServerMessage::Started { request_id: id(n) }
}

fn code(admission: Admission<'_>) -> Option<ErrorCode> {
    match admission {
        Admission::Rejected(error) => Some(error.code),
        _ => None,
    }
}

#[test]
fn only_the_most_recent_results_are_retained() {
    let mut log = RequestLog::new(id(1), start(1), started(1));
    for n in 2..=6 {
        log.record(id(n), start(n), started(n));
    }
    assert_eq!(
        code(log.admission(id(1), &start(1))),
        Some(ErrorCode::ResultExpired)
    );
    for n in 2..=6 {
        assert!(
            matches!(log.admission(id(n), &start(n)), Admission::Replay(_)),
            "{n}"
        );
    }
    assert!(matches!(log.admission(id(7), &start(7)), Admission::New));
}

#[test]
fn skipped_numbers_inside_the_retained_range_are_stale() {
    let mut log = RequestLog::new(id(1), start(1), started(1));
    log.record(id(3), start(3), started(3));
    assert_eq!(
        code(log.admission(id(2), &start(2))),
        Some(ErrorCode::StaleRequestId)
    );
}

#[test]
fn a_retry_replays_the_recorded_response() {
    let mut log = RequestLog::new(id(1), start(1), started(1));
    log.record(id(2), start(2), started(2));
    match log.admission(id(2), &start(2)) {
        Admission::Replay(response) => assert_eq!(*response, started(2)),
        _ => panic!("expected a replay"),
    }
}

#[test]
fn reusing_a_number_for_other_contents_conflicts() {
    let log = RequestLog::new(id(1), start(1), started(1));
    let other = ClientMessage::Start { request_id: id(1) };
    assert!(matches!(log.admission(id(1), &other), Admission::Replay(_)));
    let spawn = ClientMessage::Spawn {
        request_id: id(1),
        placement: agora::protocol::Placement::Random,
    };
    match log.admission(id(1), &spawn) {
        Admission::Rejected(error) => {
            assert_eq!(error.code, ErrorCode::RequestIdConflict);
            assert_eq!(error.request_id, Some(id(1)));
            assert_eq!(error.details, None);
        }
        _ => panic!("expected a conflict"),
    }
}

#[test]
fn stale_numbers_report_the_highest_admitted() {
    let mut log = RequestLog::new(id(4), start(4), started(4));
    log.record(id(9), start(9), started(9));
    match log.admission(id(6), &start(6)) {
        Admission::Rejected(error) => {
            assert_eq!(error.code, ErrorCode::StaleRequestId);
            assert_eq!(
                error.details,
                Some(ErrorDetails::HighestAdmitted {
                    highest_admitted: id(9)
                })
            );
            assert!(!error.message.is_empty());
        }
        _ => panic!("expected a stale rejection"),
    }
}

#[test]
fn numbers_older_than_the_retained_results_expire() {
    let mut log = RequestLog::new(id(3), start(3), started(3));
    assert_eq!(
        code(log.admission(id(2), &start(2))),
        Some(ErrorCode::ResultExpired)
    );
    for n in 4..(4 + RETAINED_RESULTS as u64) {
        log.record(id(n), start(n), started(n));
    }
    assert_eq!(
        code(log.admission(id(3), &start(3))),
        Some(ErrorCode::ResultExpired)
    );
    assert!(matches!(log.admission(id(4), &start(4)), Admission::Replay(_)));
}
