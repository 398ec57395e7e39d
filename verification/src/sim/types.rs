//! Value types exchanged with the simulation.

use vstd::prelude::*;

use crate::text::{append_decimal, decimal, owned, push_str};

verus! {

/// Maximum total movement distance an agent may request in one step.
pub const MOVEMENT_BUDGET: u32 = 1;

/// Run-unique agent identifier, assigned in spawn order starting at 1.
#[derive(Debug, Clone, Copy, PartialEq, Eq, PartialOrd, Ord, Hash, Structural)]
pub struct AgentId(pub u64);

/// World-state identifier. A new run starts at state 0; each real step increments it.
#[derive(Debug, Clone, Copy, PartialEq, Eq, PartialOrd, Ord, Hash, Default, Structural)]
pub struct StateId(pub u64);

/// Grid cell coordinates. `(0, 0)` is the south-west corner; `x` grows east and `y` grows north.
#[derive(Debug, Clone, Copy, PartialEq, Eq, PartialOrd, Ord, Hash, Structural)]
pub struct GridPos {
    pub x: u32,
    pub y: u32,
}

/// How an agent is written in messages: `agent N`.
pub open spec fn agent_text(a: AgentId) -> Seq<char> {
    "agent "@ + decimal(a.0 as nat)
}

/// How a state is written in messages: `state N`.
pub open spec fn state_text(s: StateId) -> Seq<char> {
    "state "@ + decimal(s.0 as nat)
}

/// How a cell is written in messages: `(x, y)`.
pub open spec fn cell_text(p: GridPos) -> Seq<char> {
    "("@ + decimal(p.x as nat) + ", "@ + decimal(p.y as nat) + ")"@
}

impl AgentId {
    /// The agent as written in messages.
    pub fn to_text(&self) -> (text: String)
        ensures
            text@ == agent_text(*self),
    {
        let mut text = owned("agent ");
        append_decimal(&mut text, self.0);
        text
    }
}

impl StateId {
    /// The state as written in messages.
    pub fn to_text(&self) -> (text: String)
        ensures
            text@ == state_text(*self),
    {
        let mut text = owned("state ");
        append_decimal(&mut text, self.0);
        text
    }
}

impl GridPos {
    /// The cell as written in messages.
    pub fn to_text(&self) -> (text: String)
        ensures
            text@ == cell_text(*self),
    {
        let mut text = owned("(");
        append_decimal(&mut text, self.x as u64);
        push_str(&mut text, ", ");
        append_decimal(&mut text, self.y as u64);
        push_str(&mut text, ")");
        proof {
            assert(text@ =~= cell_text(*self));
        }
        text
    }
}

/// Cardinal direction on the grid.
#[derive(Debug, Clone, Copy, PartialEq, Eq, Hash, Structural)]
pub enum Direction {
    North,
    East,
    South,
    West,
}

/// The adjacent cell of `p` in direction `d`, unless it leaves the unsigned coordinate range.
pub open spec fn spec_neighbor(p: GridPos, d: Direction) -> Option<GridPos> {
    match d {
        Direction::North => if p.y < u32::MAX { Some(GridPos { x: p.x, y: (p.y + 1) as u32 }) } else { None },
        Direction::East => if p.x < u32::MAX { Some(GridPos { x: (p.x + 1) as u32, y: p.y }) } else { None },
        Direction::South => if p.y > 0 { Some(GridPos { x: p.x, y: (p.y - 1) as u32 }) } else { None },
        Direction::West => if p.x > 0 { Some(GridPos { x: (p.x - 1) as u32, y: p.y }) } else { None },
    }
}

impl GridPos {
    pub fn new(x: u32, y: u32) -> (p: GridPos)
        ensures
            p == (GridPos { x, y }),
    {
        GridPos { x, y }
    }

    /// The adjacent cell in `direction`, or `None` if it would leave the unsigned coordinate range.
    pub fn neighbor(self, direction: Direction) -> (n: Option<GridPos>)
        ensures
            n == spec_neighbor(self, direction),
    {
        match direction {
            Direction::North => if self.y < u32::MAX { Some(GridPos { x: self.x, y: self.y + 1 }) } else { None },
            Direction::East => if self.x < u32::MAX { Some(GridPos { x: self.x + 1, y: self.y }) } else { None },
            Direction::South => if self.y > 0 { Some(GridPos { x: self.x, y: self.y - 1 }) } else { None },
            Direction::West => if self.x > 0 { Some(GridPos { x: self.x - 1, y: self.y }) } else { None },
        }
    }
}

/// The move action. Distance 0 stays still and ignores `direction`.
#[derive(Debug, Clone, Copy, PartialEq, Eq, Hash, Structural)]
pub struct Move {
    pub direction: Direction,
    pub distance: u32,
}

impl Move {
    /// Move one cell in `direction`.
    pub fn step(direction: Direction) -> (m: Move)
        ensures
            m == (Move { direction, distance: 1 }),
    {
        Move { direction, distance: 1 }
    }

    /// Stay in place (distance 0).
    pub fn stay() -> (m: Move)
        ensures
            m == (Move { direction: Direction::North, distance: 0 }),
    {
        Move { direction: Direction::North, distance: 0 }
    }
}

/// An action submission for one agent, targeting the current world state.
#[derive(Debug, Clone, Copy, PartialEq, Eq, Structural)]
pub struct Submission {
    pub agent: AgentId,
    pub target_state: StateId,
    pub action: Move,
}

/// Where a spawned agent is placed.
#[derive(Debug, Clone, Copy, PartialEq, Eq, Structural)]
pub enum Placement {
    /// A specific cell, which must be in bounds and unoccupied.
    Cell(GridPos),
    /// A cell chosen uniformly at random among all unoccupied cells.
    Random,
}

/// An agent observation. Empty for now; richer perception is later work.
#[derive(Debug, Clone, Copy, PartialEq, Eq, Default, Structural)]
pub struct Observation {}

/// Observations for a completed state: one entry per agent, in ascending agent ID order.
#[derive(Debug, Clone, PartialEq, Eq)]
pub struct Observations {
    pub state: StateId,
    pub by_agent: Vec<(AgentId, Observation)>,
}

/// Status reported by a readiness query.
#[derive(Debug, Clone, PartialEq, Eq)]
pub enum Status {
    /// Before Start. Not ready to advance.
    Setup,
    /// Started with participating agents. Ready to advance when `missing` is empty.
    Collecting { missing: Vec<AgentId> },
    /// Started with no agents. Not ready to advance.
    StartedEmpty,
}

/// Result of a readiness query.
#[derive(Debug, Clone, PartialEq, Eq)]
pub struct Readiness {
    pub state: StateId,
    pub status: Status,
}

impl Readiness {
    /// Whether an advance request would currently succeed.
    pub fn is_ready(&self) -> (ready: bool)
        ensures
            ready == (self.status matches Status::Collecting { missing } && missing@.len() == 0),
    {
        match &self.status {
            Status::Collecting { missing } => missing.len() == 0,
            _ => false,
        }
    }
}

/// One agent in a viewer state.
#[derive(Debug, Clone, Copy, PartialEq, Eq, Structural)]
pub struct AgentView {
    pub id: AgentId,
    pub position: GridPos,
}

/// Complete view of the current world, separate from agent observations.
#[derive(Debug, Clone, PartialEq, Eq)]
pub struct ViewState {
    pub state: StateId,
    pub width: u32,
    pub height: u32,
    /// Agents in ascending ID order.
    pub agents: Vec<AgentView>,
}

} // verus!
