//! Headless simulation of one run: a bounded grid, agents, action collection, and steps.

pub mod types;

pub use types::{
    AgentId, AgentView, Direction, GridPos, Move, Observation, Observations, Placement,
    Readiness, StateId, Status, Submission, ViewState, MOVEMENT_BUDGET,
};
pub mod error;
pub mod rng;

pub use error::{AdvanceError, ConfigError, SpawnError, StartError, SubmitError};
pub mod simulation;
pub use simulation::{SimConfig, Simulation};
