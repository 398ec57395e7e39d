//! The common error response.

use vstd::prelude::*;

use crate::protocol::ids::{CatalogEntryId, RequestId, RunId};
use crate::protocol::version::ProtocolVersion;
use crate::text::str_eq;

verus! {

/// Stable, programmatic error code.
#[derive(Debug, PartialEq, Eq, Hash)]
pub enum ErrorCode {
    /// Not valid JSON, not an object, or missing or invalid fields.
    MalformedMessage,
    /// The `type` field names no message this version knows.
    UnknownMessageType,
    /// A message other than `hello` arrived before the handshake completed.
    HandshakeRequired,
    /// The client's protocol version is not supported.
    UnsupportedProtocolVersion,
    /// `create_run` or `join_run` on a connection that already has a session.
    SessionAlreadyEstablished,
    /// A run-scoped request before `create_run` or `join_run` succeeded.
    NoSession,
    /// A request number at or below the highest admitted number with no retained record.
    StaleRequestId,
    /// A request number reused with different contents.
    RequestIdConflict,
    /// A retry of a request whose stored result has expired.
    ResultExpired,
    /// The catalog has no entry with the requested ID.
    UnknownCatalogEntry,
    /// No run exists with the requested ID.
    UnknownRun,
    /// The operation requires creator authority.
    NotCreator,
    /// The operation is only available before Start.
    RunAlreadyStarted,
    /// Start was requested with no agents and no connected viewers.
    StartNotEligible,
    /// The requested spawn cell is outside the grid.
    CellOutOfBounds,
    /// The requested spawn cell is occupied.
    CellOccupied,
    /// Random placement found no unoccupied cell.
    NoFreeCell,
    /// A code this version does not know, preserved as received.
    Unrecognized(String),
}

/// The stable wire string of a code.
pub open spec fn wire_name(code: ErrorCode) -> Seq<char> {
    match code {
        ErrorCode::MalformedMessage => "malformed_message"@,
        ErrorCode::UnknownMessageType => "unknown_message_type"@,
        ErrorCode::HandshakeRequired => "handshake_required"@,
        ErrorCode::UnsupportedProtocolVersion => "unsupported_protocol_version"@,
        ErrorCode::SessionAlreadyEstablished => "session_already_established"@,
        ErrorCode::NoSession => "no_session"@,
        ErrorCode::StaleRequestId => "stale_request_id"@,
        ErrorCode::RequestIdConflict => "request_id_conflict"@,
        ErrorCode::ResultExpired => "result_expired"@,
        ErrorCode::UnknownCatalogEntry => "unknown_catalog_entry"@,
        ErrorCode::UnknownRun => "unknown_run"@,
        ErrorCode::NotCreator => "not_creator"@,
        ErrorCode::RunAlreadyStarted => "run_already_started"@,
        ErrorCode::StartNotEligible => "start_not_eligible"@,
        ErrorCode::CellOutOfBounds => "cell_out_of_bounds"@,
        ErrorCode::CellOccupied => "cell_occupied"@,
        ErrorCode::NoFreeCell => "no_free_cell"@,
        ErrorCode::Unrecognized(s) => s@,
    }
}

/// The known code whose wire string is `s`, if any.
pub open spec fn known_code(s: Seq<char>) -> Option<ErrorCode> {
    if s == "malformed_message"@ {
        Some(ErrorCode::MalformedMessage)
    } else if s == "unknown_message_type"@ {
        Some(ErrorCode::UnknownMessageType)
    } else if s == "handshake_required"@ {
        Some(ErrorCode::HandshakeRequired)
    } else if s == "unsupported_protocol_version"@ {
        Some(ErrorCode::UnsupportedProtocolVersion)
    } else if s == "session_already_established"@ {
        Some(ErrorCode::SessionAlreadyEstablished)
    } else if s == "no_session"@ {
        Some(ErrorCode::NoSession)
    } else if s == "stale_request_id"@ {
        Some(ErrorCode::StaleRequestId)
    } else if s == "request_id_conflict"@ {
        Some(ErrorCode::RequestIdConflict)
    } else if s == "result_expired"@ {
        Some(ErrorCode::ResultExpired)
    } else if s == "unknown_catalog_entry"@ {
        Some(ErrorCode::UnknownCatalogEntry)
    } else if s == "unknown_run"@ {
        Some(ErrorCode::UnknownRun)
    } else if s == "not_creator"@ {
        Some(ErrorCode::NotCreator)
    } else if s == "run_already_started"@ {
        Some(ErrorCode::RunAlreadyStarted)
    } else if s == "start_not_eligible"@ {
        Some(ErrorCode::StartNotEligible)
    } else if s == "cell_out_of_bounds"@ {
        Some(ErrorCode::CellOutOfBounds)
    } else if s == "cell_occupied"@ {
        Some(ErrorCode::CellOccupied)
    } else if s == "no_free_cell"@ {
        Some(ErrorCode::NoFreeCell)
    } else {
        None
    }
}

impl ErrorCode {
    /// The stable wire string of this code.
    pub fn as_str(&self) -> (s: &str)
        ensures
            s@ == wire_name(*self),
    {
        match self {
            ErrorCode::MalformedMessage => "malformed_message",
            ErrorCode::UnknownMessageType => "unknown_message_type",
            ErrorCode::HandshakeRequired => "handshake_required",
            ErrorCode::UnsupportedProtocolVersion => "unsupported_protocol_version",
            ErrorCode::SessionAlreadyEstablished => "session_already_established",
            ErrorCode::NoSession => "no_session",
            ErrorCode::StaleRequestId => "stale_request_id",
            ErrorCode::RequestIdConflict => "request_id_conflict",
            ErrorCode::ResultExpired => "result_expired",
            ErrorCode::UnknownCatalogEntry => "unknown_catalog_entry",
            ErrorCode::UnknownRun => "unknown_run",
            ErrorCode::NotCreator => "not_creator",
            ErrorCode::RunAlreadyStarted => "run_already_started",
            ErrorCode::StartNotEligible => "start_not_eligible",
            ErrorCode::CellOutOfBounds => "cell_out_of_bounds",
            ErrorCode::CellOccupied => "cell_occupied",
            ErrorCode::NoFreeCell => "no_free_cell",
            ErrorCode::Unrecognized(code) => code.as_str(),
        }
    }

    /// The code with wire string `code`; a string no known code uses is kept as received.
    pub fn from_wire(code: String) -> (c: ErrorCode)
        ensures
            known_code(code@) matches Some(k) ==> c == k,
            known_code(code@) is None ==> c == ErrorCode::Unrecognized(code),
    {
        if str_eq(code.as_str(), "malformed_message") {
            ErrorCode::MalformedMessage
        } else if str_eq(code.as_str(), "unknown_message_type") {
            ErrorCode::UnknownMessageType
        } else if str_eq(code.as_str(), "handshake_required") {
            ErrorCode::HandshakeRequired
        } else if str_eq(code.as_str(), "unsupported_protocol_version") {
            ErrorCode::UnsupportedProtocolVersion
        } else if str_eq(code.as_str(), "session_already_established") {
            ErrorCode::SessionAlreadyEstablished
        } else if str_eq(code.as_str(), "no_session") {
            ErrorCode::NoSession
        } else if str_eq(code.as_str(), "stale_request_id") {
            ErrorCode::StaleRequestId
        } else if str_eq(code.as_str(), "request_id_conflict") {
            ErrorCode::RequestIdConflict
        } else if str_eq(code.as_str(), "result_expired") {
            ErrorCode::ResultExpired
        } else if str_eq(code.as_str(), "unknown_catalog_entry") {
            ErrorCode::UnknownCatalogEntry
        } else if str_eq(code.as_str(), "unknown_run") {
            ErrorCode::UnknownRun
        } else if str_eq(code.as_str(), "not_creator") {
            ErrorCode::NotCreator
        } else if str_eq(code.as_str(), "run_already_started") {
            ErrorCode::RunAlreadyStarted
        } else if str_eq(code.as_str(), "start_not_eligible") {
            ErrorCode::StartNotEligible
        } else if str_eq(code.as_str(), "cell_out_of_bounds") {
            ErrorCode::CellOutOfBounds
        } else if str_eq(code.as_str(), "cell_occupied") {
            ErrorCode::CellOccupied
        } else if str_eq(code.as_str(), "no_free_cell") {
            ErrorCode::NoFreeCell
        } else {
            ErrorCode::Unrecognized(code)
        }
    }
}

impl Clone for ErrorCode {
    fn clone(&self) -> (c: ErrorCode)
        ensures
            c == *self,
    {
        match self {
            ErrorCode::MalformedMessage => ErrorCode::MalformedMessage,
            ErrorCode::UnknownMessageType => ErrorCode::UnknownMessageType,
            ErrorCode::HandshakeRequired => ErrorCode::HandshakeRequired,
            ErrorCode::UnsupportedProtocolVersion => ErrorCode::UnsupportedProtocolVersion,
            ErrorCode::SessionAlreadyEstablished => ErrorCode::SessionAlreadyEstablished,
            ErrorCode::NoSession => ErrorCode::NoSession,
            ErrorCode::StaleRequestId => ErrorCode::StaleRequestId,
            ErrorCode::RequestIdConflict => ErrorCode::RequestIdConflict,
            ErrorCode::ResultExpired => ErrorCode::ResultExpired,
            ErrorCode::UnknownCatalogEntry => ErrorCode::UnknownCatalogEntry,
            ErrorCode::UnknownRun => ErrorCode::UnknownRun,
            ErrorCode::NotCreator => ErrorCode::NotCreator,
            ErrorCode::RunAlreadyStarted => ErrorCode::RunAlreadyStarted,
            ErrorCode::StartNotEligible => ErrorCode::StartNotEligible,
            ErrorCode::CellOutOfBounds => ErrorCode::CellOutOfBounds,
            ErrorCode::CellOccupied => ErrorCode::CellOccupied,
            ErrorCode::NoFreeCell => ErrorCode::NoFreeCell,
            ErrorCode::Unrecognized(code) => ErrorCode::Unrecognized(code.clone()),
        }
    }
}

/// Reading a wire string as a code and writing the code gives the string back, whether
/// or not this version knows the code.
pub proof fn lemma_wire_name_of_decoded(s: String)
    ensures
        wire_name(
            match known_code(s@) {
                Some(k) => k,
                None => ErrorCode::Unrecognized(s),
            },
        ) == s@,
{
}

/// Every known code reads back from its wire string: no two known codes share one.
pub proof fn lemma_known_codes_read_back(code: ErrorCode)
    requires
        !(code is Unrecognized),
    ensures
        known_code(wire_name(code)) == Some(code),
{
    match code {
        ErrorCode::MalformedMessage => {
            reveal_strlit("malformed_message");
        },
        ErrorCode::UnknownMessageType => {
            reveal_strlit("unknown_message_type");
            reveal_strlit("malformed_message");
            assert("malformed_message"@.len() != "unknown_message_type"@.len());
        },
        ErrorCode::HandshakeRequired => {
            reveal_strlit("handshake_required");
            reveal_strlit("malformed_message");
            assert("malformed_message"@.len() != "handshake_required"@.len());
            reveal_strlit("unknown_message_type");
            assert("unknown_message_type"@.len() != "handshake_required"@.len());
        },
        ErrorCode::UnsupportedProtocolVersion => {
            reveal_strlit("unsupported_protocol_version");
            reveal_strlit("malformed_message");
            assert("malformed_message"@.len() != "unsupported_protocol_version"@.len());
            reveal_strlit("unknown_message_type");
            assert("unknown_message_type"@.len() != "unsupported_protocol_version"@.len());
            reveal_strlit("handshake_required");
            assert("handshake_required"@.len() != "unsupported_protocol_version"@.len());
        },
        ErrorCode::SessionAlreadyEstablished => {
            reveal_strlit("session_already_established");
            reveal_strlit("malformed_message");
            assert("malformed_message"@.len() != "session_already_established"@.len());
            reveal_strlit("unknown_message_type");
            assert("unknown_message_type"@.len() != "session_already_established"@.len());
            reveal_strlit("handshake_required");
            assert("handshake_required"@.len() != "session_already_established"@.len());
            reveal_strlit("unsupported_protocol_version");
            assert("unsupported_protocol_version"@.len() != "session_already_established"@.len());
        },
        ErrorCode::NoSession => {
            reveal_strlit("no_session");
            reveal_strlit("malformed_message");
            assert("malformed_message"@.len() != "no_session"@.len());
            reveal_strlit("unknown_message_type");
            assert("unknown_message_type"@.len() != "no_session"@.len());
            reveal_strlit("handshake_required");
            assert("handshake_required"@.len() != "no_session"@.len());
            reveal_strlit("unsupported_protocol_version");
            assert("unsupported_protocol_version"@.len() != "no_session"@.len());
            reveal_strlit("session_already_established");
            assert("session_already_established"@.len() != "no_session"@.len());
        },
        ErrorCode::StaleRequestId => {
            reveal_strlit("stale_request_id");
            reveal_strlit("malformed_message");
            assert("malformed_message"@.len() != "stale_request_id"@.len());
            reveal_strlit("unknown_message_type");
            assert("unknown_message_type"@.len() != "stale_request_id"@.len());
            reveal_strlit("handshake_required");
            assert("handshake_required"@.len() != "stale_request_id"@.len());
            reveal_strlit("unsupported_protocol_version");
            assert("unsupported_protocol_version"@.len() != "stale_request_id"@.len());
            reveal_strlit("session_already_established");
            assert("session_already_established"@.len() != "stale_request_id"@.len());
            reveal_strlit("no_session");
            assert("no_session"@.len() != "stale_request_id"@.len());
        },
        ErrorCode::RequestIdConflict => {
            reveal_strlit("request_id_conflict");
            reveal_strlit("malformed_message");
            assert("malformed_message"@.len() != "request_id_conflict"@.len());
            reveal_strlit("unknown_message_type");
            assert("unknown_message_type"@.len() != "request_id_conflict"@.len());
            reveal_strlit("handshake_required");
            assert("handshake_required"@.len() != "request_id_conflict"@.len());
            reveal_strlit("unsupported_protocol_version");
            assert("unsupported_protocol_version"@.len() != "request_id_conflict"@.len());
            reveal_strlit("session_already_established");
            assert("session_already_established"@.len() != "request_id_conflict"@.len());
            reveal_strlit("no_session");
            assert("no_session"@.len() != "request_id_conflict"@.len());
            reveal_strlit("stale_request_id");
            assert("stale_request_id"@.len() != "request_id_conflict"@.len());
        },
        ErrorCode::ResultExpired => {
            reveal_strlit("result_expired");
            reveal_strlit("malformed_message");
            assert("malformed_message"@.len() != "result_expired"@.len());
            reveal_strlit("unknown_message_type");
            assert("unknown_message_type"@.len() != "result_expired"@.len());
            reveal_strlit("handshake_required");
            assert("handshake_required"@.len() != "result_expired"@.len());
            reveal_strlit("unsupported_protocol_version");
            assert("unsupported_protocol_version"@.len() != "result_expired"@.len());
            reveal_strlit("session_already_established");
            assert("session_already_established"@.len() != "result_expired"@.len());
            reveal_strlit("no_session");
            assert("no_session"@.len() != "result_expired"@.len());
            reveal_strlit("stale_request_id");
            assert("stale_request_id"@.len() != "result_expired"@.len());
            reveal_strlit("request_id_conflict");
            assert("request_id_conflict"@.len() != "result_expired"@.len());
        },
        ErrorCode::UnknownCatalogEntry => {
            reveal_strlit("unknown_catalog_entry");
            reveal_strlit("malformed_message");
            assert("malformed_message"@.len() != "unknown_catalog_entry"@.len());
            reveal_strlit("unknown_message_type");
            assert("unknown_message_type"@.len() != "unknown_catalog_entry"@.len());
            reveal_strlit("handshake_required");
            assert("handshake_required"@.len() != "unknown_catalog_entry"@.len());
            reveal_strlit("unsupported_protocol_version");
            assert("unsupported_protocol_version"@.len() != "unknown_catalog_entry"@.len());
            reveal_strlit("session_already_established");
            assert("session_already_established"@.len() != "unknown_catalog_entry"@.len());
            reveal_strlit("no_session");
            assert("no_session"@.len() != "unknown_catalog_entry"@.len());
            reveal_strlit("stale_request_id");
            assert("stale_request_id"@.len() != "unknown_catalog_entry"@.len());
            reveal_strlit("request_id_conflict");
            assert("request_id_conflict"@.len() != "unknown_catalog_entry"@.len());
            reveal_strlit("result_expired");
            assert("result_expired"@.len() != "unknown_catalog_entry"@.len());
        },
        ErrorCode::UnknownRun => {
            reveal_strlit("unknown_run");
            reveal_strlit("malformed_message");
            assert("malformed_message"@.len() != "unknown_run"@.len());
            reveal_strlit("unknown_message_type");
            assert("unknown_message_type"@.len() != "unknown_run"@.len());
            reveal_strlit("handshake_required");
            assert("handshake_required"@.len() != "unknown_run"@.len());
            reveal_strlit("unsupported_protocol_version");
            assert("unsupported_protocol_version"@.len() != "unknown_run"@.len());
            reveal_strlit("session_already_established");
            assert("session_already_established"@.len() != "unknown_run"@.len());
            reveal_strlit("no_session");
            assert("no_session"@.len() != "unknown_run"@.len());
            reveal_strlit("stale_request_id");
            assert("stale_request_id"@.len() != "unknown_run"@.len());
            reveal_strlit("request_id_conflict");
            assert("request_id_conflict"@.len() != "unknown_run"@.len());
            reveal_strlit("result_expired");
            assert("result_expired"@.len() != "unknown_run"@.len());
            reveal_strlit("unknown_catalog_entry");
            assert("unknown_catalog_entry"@.len() != "unknown_run"@.len());
        },
        ErrorCode::NotCreator => {
            reveal_strlit("not_creator");
            reveal_strlit("malformed_message");
            assert("malformed_message"@.len() != "not_creator"@.len());
            reveal_strlit("unknown_message_type");
            assert("unknown_message_type"@.len() != "not_creator"@.len());
            reveal_strlit("handshake_required");
            assert("handshake_required"@.len() != "not_creator"@.len());
            reveal_strlit("unsupported_protocol_version");
            assert("unsupported_protocol_version"@.len() != "not_creator"@.len());
            reveal_strlit("session_already_established");
            assert("session_already_established"@.len() != "not_creator"@.len());
            reveal_strlit("no_session");
            assert("no_session"@.len() != "not_creator"@.len());
            reveal_strlit("stale_request_id");
            assert("stale_request_id"@.len() != "not_creator"@.len());
            reveal_strlit("request_id_conflict");
            assert("request_id_conflict"@.len() != "not_creator"@.len());
            reveal_strlit("result_expired");
            assert("result_expired"@.len() != "not_creator"@.len());
            reveal_strlit("unknown_catalog_entry");
            assert("unknown_catalog_entry"@.len() != "not_creator"@.len());
            reveal_strlit("unknown_run");
            assert("unknown_run"@[0] != "not_creator"@[0]);
        },
        ErrorCode::RunAlreadyStarted => {
            reveal_strlit("run_already_started");
            reveal_strlit("malformed_message");
            assert("malformed_message"@.len() != "run_already_started"@.len());
            reveal_strlit("unknown_message_type");
            assert("unknown_message_type"@.len() != "run_already_started"@.len());
            reveal_strlit("handshake_required");
            assert("handshake_required"@.len() != "run_already_started"@.len());
            reveal_strlit("unsupported_protocol_version");
            assert("unsupported_protocol_version"@.len() != "run_already_started"@.len());
            reveal_strlit("session_already_established");
            assert("session_already_established"@.len() != "run_already_started"@.len());
            reveal_strlit("no_session");
            assert("no_session"@.len() != "run_already_started"@.len());
            reveal_strlit("stale_request_id");
            assert("stale_request_id"@.len() != "run_already_started"@.len());
            reveal_strlit("request_id_conflict");
            assert("request_id_conflict"@[1] != "run_already_started"@[1]);
            reveal_strlit("result_expired");
            assert("result_expired"@.len() != "run_already_started"@.len());
            reveal_strlit("unknown_catalog_entry");
            assert("unknown_catalog_entry"@.len() != "run_already_started"@.len());
            reveal_strlit("unknown_run");
            assert("unknown_run"@.len() != "run_already_started"@.len());
            reveal_strlit("not_creator");
            assert("not_creator"@.len() != "run_already_started"@.len());
        },
        ErrorCode::StartNotEligible => {
            reveal_strlit("start_not_eligible");
            reveal_strlit("malformed_message");
            assert("malformed_message"@.len() != "start_not_eligible"@.len());
            reveal_strlit("unknown_message_type");
            assert("unknown_message_type"@.len() != "start_not_eligible"@.len());
            reveal_strlit("handshake_required");
            assert("handshake_required"@[0] != "start_not_eligible"@[0]);
            reveal_strlit("unsupported_protocol_version");
            assert("unsupported_protocol_version"@.len() != "start_not_eligible"@.len());
            reveal_strlit("session_already_established");
            assert("session_already_established"@.len() != "start_not_eligible"@.len());
            reveal_strlit("no_session");
            assert("no_session"@.len() != "start_not_eligible"@.len());
            reveal_strlit("stale_request_id");
            assert("stale_request_id"@.len() != "start_not_eligible"@.len());
            reveal_strlit("request_id_conflict");
            assert("request_id_conflict"@.len() != "start_not_eligible"@.len());
            reveal_strlit("result_expired");
            assert("result_expired"@.len() != "start_not_eligible"@.len());
            reveal_strlit("unknown_catalog_entry");
            assert("unknown_catalog_entry"@.len() != "start_not_eligible"@.len());
            reveal_strlit("unknown_run");
            assert("unknown_run"@.len() != "start_not_eligible"@.len());
            reveal_strlit("not_creator");
            assert("not_creator"@.len() != "start_not_eligible"@.len());
            reveal_strlit("run_already_started");
            assert("run_already_started"@.len() != "start_not_eligible"@.len());
        },
        ErrorCode::CellOutOfBounds => {
            reveal_strlit("cell_out_of_bounds");
            reveal_strlit("malformed_message");
            assert("malformed_message"@.len() != "cell_out_of_bounds"@.len());
            reveal_strlit("unknown_message_type");
            assert("unknown_message_type"@.len() != "cell_out_of_bounds"@.len());
            reveal_strlit("handshake_required");
            assert("handshake_required"@[0] != "cell_out_of_bounds"@[0]);
            reveal_strlit("unsupported_protocol_version");
            assert("unsupported_protocol_version"@.len() != "cell_out_of_bounds"@.len());
            reveal_strlit("session_already_established");
            assert("session_already_established"@.len() != "cell_out_of_bounds"@.len());
            reveal_strlit("no_session");
            assert("no_session"@.len() != "cell_out_of_bounds"@.len());
            reveal_strlit("stale_request_id");
            assert("stale_request_id"@.len() != "cell_out_of_bounds"@.len());
            reveal_strlit("request_id_conflict");
            assert("request_id_conflict"@.len() != "cell_out_of_bounds"@.len());
            reveal_strlit("result_expired");
            assert("result_expired"@.len() != "cell_out_of_bounds"@.len());
            reveal_strlit("unknown_catalog_entry");
            assert("unknown_catalog_entry"@.len() != "cell_out_of_bounds"@.len());
            reveal_strlit("unknown_run");
            assert("unknown_run"@.len() != "cell_out_of_bounds"@.len());
            reveal_strlit("not_creator");
            assert("not_creator"@.len() != "cell_out_of_bounds"@.len());
            reveal_strlit("run_already_started");
            assert("run_already_started"@.len() != "cell_out_of_bounds"@.len());
            reveal_strlit("start_not_eligible");
            assert("start_not_eligible"@[0] != "cell_out_of_bounds"@[0]);
        },
        ErrorCode::CellOccupied => {
            reveal_strlit("cell_occupied");
            reveal_strlit("malformed_message");
            assert("malformed_message"@.len() != "cell_occupied"@.len());
            reveal_strlit("unknown_message_type");
            assert("unknown_message_type"@.len() != "cell_occupied"@.len());
            reveal_strlit("handshake_required");
            assert("handshake_required"@.len() != "cell_occupied"@.len());
            reveal_strlit("unsupported_protocol_version");
            assert("unsupported_protocol_version"@.len() != "cell_occupied"@.len());
            reveal_strlit("session_already_established");
            assert("session_already_established"@.len() != "cell_occupied"@.len());
            reveal_strlit("no_session");
            assert("no_session"@.len() != "cell_occupied"@.len());
            reveal_strlit("stale_request_id");
            assert("stale_request_id"@.len() != "cell_occupied"@.len());
            reveal_strlit("request_id_conflict");
            assert("request_id_conflict"@.len() != "cell_occupied"@.len());
            reveal_strlit("result_expired");
            assert("result_expired"@.len() != "cell_occupied"@.len());
            reveal_strlit("unknown_catalog_entry");
            assert("unknown_catalog_entry"@.len() != "cell_occupied"@.len());
            reveal_strlit("unknown_run");
            assert("unknown_run"@.len() != "cell_occupied"@.len());
            reveal_strlit("not_creator");
            assert("not_creator"@.len() != "cell_occupied"@.len());
            reveal_strlit("run_already_started");
            assert("run_already_started"@.len() != "cell_occupied"@.len());
            reveal_strlit("start_not_eligible");
            assert("start_not_eligible"@.len() != "cell_occupied"@.len());
            reveal_strlit("cell_out_of_bounds");
            assert("cell_out_of_bounds"@.len() != "cell_occupied"@.len());
        },
        ErrorCode::NoFreeCell => {
            reveal_strlit("no_free_cell");
            reveal_strlit("malformed_message");
            assert("malformed_message"@.len() != "no_free_cell"@.len());
            reveal_strlit("unknown_message_type");
            assert("unknown_message_type"@.len() != "no_free_cell"@.len());
            reveal_strlit("handshake_required");
            assert("handshake_required"@.len() != "no_free_cell"@.len());
            reveal_strlit("unsupported_protocol_version");
            assert("unsupported_protocol_version"@.len() != "no_free_cell"@.len());
            reveal_strlit("session_already_established");
            assert("session_already_established"@.len() != "no_free_cell"@.len());
            reveal_strlit("no_session");
            assert("no_session"@.len() != "no_free_cell"@.len());
            reveal_strlit("stale_request_id");
            assert("stale_request_id"@.len() != "no_free_cell"@.len());
            reveal_strlit("request_id_conflict");
            assert("request_id_conflict"@.len() != "no_free_cell"@.len());
            reveal_strlit("result_expired");
            assert("result_expired"@.len() != "no_free_cell"@.len());
            reveal_strlit("unknown_catalog_entry");
            assert("unknown_catalog_entry"@.len() != "no_free_cell"@.len());
            reveal_strlit("unknown_run");
            assert("unknown_run"@.len() != "no_free_cell"@.len());
            reveal_strlit("not_creator");
            assert("not_creator"@.len() != "no_free_cell"@.len());
            reveal_strlit("run_already_started");
            assert("run_already_started"@.len() != "no_free_cell"@.len());
            reveal_strlit("start_not_eligible");
            assert("start_not_eligible"@.len() != "no_free_cell"@.len());
            reveal_strlit("cell_out_of_bounds");
            assert("cell_out_of_bounds"@.len() != "no_free_cell"@.len());
            reveal_strlit("cell_occupied");
            assert("cell_occupied"@.len() != "no_free_cell"@.len());
        },
        ErrorCode::Unrecognized(_) => {},
    }
}

/// Code-specific structured details of an error, one variant per documented shape.
#[derive(Debug, PartialEq, Eq)]
pub enum ErrorDetails {
    /// `{"type": ...}` of an unknown message type.
    MessageType { kind: String },
    /// `{"requested": ..., "supported": [...]}` of an unsupported protocol version. This
    /// server supports exactly one version, so `supported` is a one-element list on the wire.
    Versions { requested: ProtocolVersion, supported: ProtocolVersion },
    /// `{"highest_admitted": ...}` of a stale request ID.
    HighestAdmitted { highest_admitted: RequestId },
    /// `{"catalog_entry": ...}` of an unknown catalog entry.
    CatalogEntry { catalog_entry: CatalogEntryId },
    /// `{"run_id": ...}` of an unknown run.
    Run { run_id: RunId },
    /// `{"x": ..., "y": ...}` of a spawn cell.
    Cell { x: u32, y: u32 },
    /// Details of a shape this version does not know, kept as JSON object text.
    Other { json: String },
}

impl Clone for ErrorDetails {
    fn clone(&self) -> (d: ErrorDetails)
        ensures
            d == *self,
    {
        match self {
            ErrorDetails::MessageType { kind } => ErrorDetails::MessageType { kind: kind.clone() },
            ErrorDetails::Versions { requested, supported } => ErrorDetails::Versions {
                requested: *requested,
                supported: *supported,
            },
            ErrorDetails::HighestAdmitted { highest_admitted } => ErrorDetails::HighestAdmitted {
                highest_admitted: *highest_admitted,
            },
            ErrorDetails::CatalogEntry { catalog_entry } => ErrorDetails::CatalogEntry {
                catalog_entry: catalog_entry.clone(),
            },
            ErrorDetails::Run { run_id } => ErrorDetails::Run { run_id: run_id.clone() },
            ErrorDetails::Cell { x, y } => ErrorDetails::Cell { x: *x, y: *y },
            ErrorDetails::Other { json } => ErrorDetails::Other { json: json.clone() },
        }
    }
}

/// A request error. `request_id` is `None` when the failing message had no usable request ID.
#[derive(Debug, PartialEq, Eq)]
pub struct ErrorResponse {
    pub request_id: Option<RequestId>,
    pub code: ErrorCode,
    /// Human-readable description. Clients must not parse it.
    pub message: String,
    /// Code-specific structured details, documented per code in the contract.
    pub details: Option<ErrorDetails>,
}

impl Clone for ErrorResponse {
    fn clone(&self) -> (e: ErrorResponse)
        ensures
            e == *self,
    {
        let details = match &self.details {
            Some(d) => Some(d.clone()),
            None => None,
        };
        ErrorResponse {
            request_id: self.request_id,
            code: self.code.clone(),
            message: self.message.clone(),
            details,
        }
    }
}

} // verus!
