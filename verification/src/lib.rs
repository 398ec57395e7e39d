//! Agora: the headless grid simulation, the client protocol types, and the server's
//! per-connection and per-run decision logic.

pub mod protocol;
pub mod server;
pub mod sim;
pub mod text;
