//! Types of the Agora client protocol: identifiers, versions, error codes, and messages.

pub mod ids;
pub mod version;

pub use ids::{
    AgentId, CatalogEntryId, EmptyId, OutOfRange, RequestId, RunId, SessionId, StateId,
    MAX_SAFE_INTEGER,
};
pub use version::{protocol_version, InvalidVersion, ProtocolVersion};
pub mod error;

pub use error::{ErrorCode, ErrorDetails, ErrorResponse};
pub mod message;

pub use message::{ClientMessage, Placement, RunPhase, ServerMessage};
