//! The server's decisions: the catalog, request-ID admission, each run's sessions and
//! lifetimes, and each connection's handshake and requests. Networking, tasks, timers, and
//! JSON live in the application around the library.

pub mod wire;
pub mod requests;

pub use requests::{Admission, RequestLog, RETAINED_RESULTS};
pub mod catalog;
pub mod config;

pub use catalog::{lookup, CatalogEntry, EMPTY_GRID_10X10};
pub use config::ServerConfig;
pub mod random;
pub mod run;

pub use run::{create, Run, RunGone, SessionInfo, StartRejection};
pub mod connection;

pub use connection::{Connection, Reply, Step};
