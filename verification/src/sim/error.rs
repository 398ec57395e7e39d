//! Simulation operation errors. The server maps these to client-facing error codes.

use vstd::prelude::*;

use crate::sim::types::{agent_text, cell_text, state_text, AgentId, GridPos, StateId};
use crate::text::{append_decimal, decimal, owned, push_str};

verus! {

/// Why a simulation could not be created.
#[derive(Debug, Clone, Copy, PartialEq, Eq, Structural)]
pub enum ConfigError {
    EmptyGrid { width: u32, height: u32 },
    GridTooLarge { width: u32, height: u32 },
}

/// Why a spawn was refused.
#[derive(Debug, Clone, Copy, PartialEq, Eq, Structural)]
pub enum SpawnError {
    NotInSetup,
    OutOfBounds(GridPos),
    Occupied(GridPos),
    NoFreeCell,
}

/// Why Start was refused.
#[derive(Debug, Clone, Copy, PartialEq, Eq, Structural)]
pub enum StartError {
    AlreadyStarted,
}

/// Why a submission was refused. The first four are submission errors; the last is an
/// agent-limit error.
#[derive(Debug, Clone, Copy, PartialEq, Eq, Structural)]
pub enum SubmitError {
    NotStarted,
    UnknownAgent(AgentId),
    WrongTargetState { expected: StateId, supplied: StateId },
    AlreadySubmitted(AgentId),
    DistanceExceedsBudget { distance: u32, budget: u32 },
}

/// Why a step could not be advanced.
#[derive(Debug, Clone, PartialEq, Eq)]
pub enum AdvanceError {
    NotStarted,
    NoAgents,
    MissingActions { missing: Vec<AgentId> },
}

/// The human-readable description of a configuration error.
pub open spec fn config_error_text(e: ConfigError) -> Seq<char> {
    match e {
        ConfigError::EmptyGrid { width, height } => "grid dimensions must be non-zero, got "@
            + decimal(width as nat) + " x "@ + decimal(height as nat),
        ConfigError::GridTooLarge { width, height } => "grid dimensions "@ + decimal(width as nat)
            + " x "@ + decimal(height as nat) + " are too large"@,
    }
}

/// The human-readable description of a spawn error.
pub open spec fn spawn_error_text(e: SpawnError) -> Seq<char> {
    match e {
        SpawnError::NotInSetup => "spawning after Start is not supported yet"@,
        SpawnError::OutOfBounds(p) => "cell "@ + cell_text(p) + " is outside the grid"@,
        SpawnError::Occupied(p) => "cell "@ + cell_text(p) + " is occupied"@,
        SpawnError::NoFreeCell => "no unoccupied cell is available"@,
    }
}

/// The human-readable description of a refused Start.
pub open spec fn start_error_text(e: StartError) -> Seq<char> {
    match e {
        StartError::AlreadyStarted => "the run has already started"@,
    }
}

/// The human-readable description of a refused submission.
pub open spec fn submit_error_text(e: SubmitError) -> Seq<char> {
    match e {
        SubmitError::NotStarted => "the run has not started"@,
        SubmitError::UnknownAgent(a) => agent_text(a) + " does not exist"@,
        SubmitError::WrongTargetState { expected, supplied } => "submission targets "@
            + state_text(supplied) + ", but the current state is "@ + state_text(expected),
        SubmitError::AlreadySubmitted(a) => agent_text(a)
            + " already has an accepted action for this state"@,
        SubmitError::DistanceExceedsBudget { distance, budget } => "move distance "@ + decimal(
            distance as nat,
        ) + " exceeds the movement budget of "@ + decimal(budget as nat),
    }
}

/// The human-readable description of a refused advance.
pub open spec fn advance_error_text(e: AdvanceError) -> Seq<char> {
    match e {
        AdvanceError::NotStarted => "the run has not started"@,
        AdvanceError::NoAgents => "the run has no agents to advance"@,
        AdvanceError::MissingActions { missing } => "actions are missing for "@ + decimal(
            missing@.len(),
        ) + " agent(s)"@,
    }
}

impl ConfigError {
    /// The human-readable description of this error.
    pub fn message(&self) -> (text: String)
        ensures
            text@ == config_error_text(*self),
    {
        match self {
            ConfigError::EmptyGrid { width, height } => {
                let mut text = owned("grid dimensions must be non-zero, got ");
                append_decimal(&mut text, *width as u64);
                push_str(&mut text, " x ");
                append_decimal(&mut text, *height as u64);
                proof {
                    assert(text@ =~= config_error_text(*self));
                }
                text
            },
            ConfigError::GridTooLarge { width, height } => {
                let mut text = owned("grid dimensions ");
                append_decimal(&mut text, *width as u64);
                push_str(&mut text, " x ");
                append_decimal(&mut text, *height as u64);
                push_str(&mut text, " are too large");
                proof {
                    assert(text@ =~= config_error_text(*self));
                }
                text
            },
        }
    }
}

impl SpawnError {
    /// The human-readable description of this error.
    pub fn message(&self) -> (text: String)
        ensures
            text@ == spawn_error_text(*self),
    {
        match self {
            SpawnError::NotInSetup => owned("spawning after Start is not supported yet"),
            SpawnError::OutOfBounds(p) => {
                let mut text = owned("cell ");
                push_str(&mut text, p.to_text().as_str());
                push_str(&mut text, " is outside the grid");
                proof {
                    assert(text@ =~= spawn_error_text(*self));
                }
                text
            },
            SpawnError::Occupied(p) => {
                let mut text = owned("cell ");
                push_str(&mut text, p.to_text().as_str());
                push_str(&mut text, " is occupied");
                proof {
                    assert(text@ =~= spawn_error_text(*self));
                }
                text
            },
            SpawnError::NoFreeCell => owned("no unoccupied cell is available"),
        }
    }
}

impl StartError {
    /// The human-readable description of this error.
    pub fn message(&self) -> (text: String)
        ensures
            text@ == start_error_text(*self),
    {
        match self {
            StartError::AlreadyStarted => owned("the run has already started"),
        }
    }
}

impl SubmitError {
    /// The human-readable description of this error.
    pub fn message(&self) -> (text: String)
        ensures
            text@ == submit_error_text(*self),
    {
        match self {
            SubmitError::NotStarted => owned("the run has not started"),
            SubmitError::UnknownAgent(a) => {
                let mut text = a.to_text();
                push_str(&mut text, " does not exist");
                text
            },
            SubmitError::WrongTargetState { expected, supplied } => {
                let mut text = owned("submission targets ");
                push_str(&mut text, supplied.to_text().as_str());
                push_str(&mut text, ", but the current state is ");
                push_str(&mut text, expected.to_text().as_str());
                proof {
                    assert(text@ =~= submit_error_text(*self));
                }
                text
            },
            SubmitError::AlreadySubmitted(a) => {
                let mut text = a.to_text();
                push_str(&mut text, " already has an accepted action for this state");
                text
            },
            SubmitError::DistanceExceedsBudget { distance, budget } => {
                let mut text = owned("move distance ");
                append_decimal(&mut text, *distance as u64);
                push_str(&mut text, " exceeds the movement budget of ");
                append_decimal(&mut text, *budget as u64);
                proof {
                    assert(text@ =~= submit_error_text(*self));
                }
                text
            },
        }
    }
}

impl AdvanceError {
    /// The human-readable description of this error.
    pub fn message(&self) -> (text: String)
        ensures
            text@ == advance_error_text(*self),
    {
        match self {
            AdvanceError::NotStarted => owned("the run has not started"),
            AdvanceError::NoAgents => owned("the run has no agents to advance"),
            AdvanceError::MissingActions { missing } => {
                let mut text = owned("actions are missing for ");
                append_decimal(&mut text, missing.len() as u64);
                push_str(&mut text, " agent(s)");
                proof {
                    assert(text@ =~= advance_error_text(*self));
                }
                text
            },
        }
    }
}

} // verus!
