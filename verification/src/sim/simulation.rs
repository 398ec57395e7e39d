//! A single run's simulation world and its operations.

use vstd::prelude::*;

use crate::sim::error::{AdvanceError, ConfigError, SpawnError, StartError, SubmitError};
use crate::sim::rng::{
    chacha_below, chacha_shuffle, id_numbers, random_below, shuffle_agents, stream, RngState,
};
use crate::sim::types::{
    spec_neighbor, AgentId, AgentView, GridPos, Move, Observation, Observations, Placement,
    Readiness, StateId, Status, Submission, ViewState, MOVEMENT_BUDGET,
};

verus! {

broadcast use vstd::seq_lib::group_to_multiset_ensures;

/// ChaCha stream reserved for future environment generation.
pub const GENERATION_STREAM: u64 = 0;

/// ChaCha stream that random spawns draw from.
pub const SPAWN_STREAM: u64 = 1;

/// ChaCha stream that execution orders are shuffled with.
pub const SHUFFLE_STREAM: u64 = 2;

/// Configuration for creating a simulation.
#[derive(Debug, Clone, Copy, PartialEq, Eq, Structural)]
pub struct SimConfig {
    /// Grid width in cells.
    pub width: u32,
    /// Grid height in cells.
    pub height: u32,
    /// Run seed from which all of the run's random streams are derived.
    pub seed: u64,
}

// ---------------------------------------------------------------------------------------
// The mathematical model
// ---------------------------------------------------------------------------------------

/// What a simulation is, seen from outside: its grid, phase, state ID, and agents. Agent
/// `i + 1` stands at `positions[i]` and has the accepted action `pending[i]`, if any.
pub struct SimView {
    pub width: u32,
    pub height: u32,
    pub started: bool,
    pub state: u64,
    pub positions: Seq<GridPos>,
    pub pending: Seq<Option<Move>>,
}

/// Whether `p` lies on a `width` by `height` grid.
pub open spec fn in_bounds(p: GridPos, width: u32, height: u32) -> bool {
    p.x < width && p.y < height
}

/// The row-major index of cell `p` on a grid of the given width.
pub open spec fn cell_of(p: GridPos, width: u32) -> int {
    p.y as int * width as int + p.x as int
}

/// The cell with row-major index `k` on a grid of the given width.
pub open spec fn cell_at(k: int, width: u32) -> GridPos {
    GridPos { x: (k % width as int) as u32, y: (k / width as int) as u32 }
}

/// Whether some agent stands on `p`.
pub open spec fn occupied(positions: Seq<GridPos>, p: GridPos) -> bool {
    exists|i: int| 0 <= i < positions.len() && positions[i] == p
}

/// No two agents share a cell.
pub open spec fn distinct_cells(positions: Seq<GridPos>) -> bool {
    forall|i: int, j: int|
        0 <= i < positions.len() && 0 <= j < positions.len() && i != j ==> positions[i]
            != positions[j]
}

/// The IDs `1..=n` in ascending order.
pub open spec fn agent_ids(n: nat) -> Seq<AgentId> {
    Seq::new(n, |i: int| AgentId((i + 1) as u64))
}

/// The agents still missing an accepted action, in ascending ID order.
pub open spec fn missing_ids(pending: Seq<Option<Move>>) -> Seq<AgentId>
    decreases pending.len(),
{
    if pending.len() == 0 {
        Seq::empty()
    } else {
        let rest = missing_ids(pending.drop_last());
        if pending.last() is None {
            rest.push(AgentId(pending.len() as u64))
        } else {
            rest
        }
    }
}

/// The positions after agent `i` tries move `m`: distance 0 stays, a step fails when its
/// target is off the grid or occupied, and a failed move leaves the agent in place.
pub open spec fn moved(positions: Seq<GridPos>, i: int, m: Move, width: u32, height: u32) -> Seq<
    GridPos,
> {
    if m.distance == 0 {
        positions
    } else {
        match spec_neighbor(positions[i], m.direction) {
            Some(to) => if in_bounds(to, width, height) && !occupied(positions, to) {
                positions.update(i, to)
            } else {
                positions
            },
            None => positions,
        }
    }
}

/// The positions after the agents of `order` execute their actions one at a time, each
/// against the world as the earlier moves left it.
pub open spec fn run_moves(
    positions: Seq<GridPos>,
    actions: Seq<Move>,
    order: Seq<AgentId>,
    width: u32,
    height: u32,
) -> Seq<GridPos>
    decreases order.len(),
{
    if order.len() == 0 {
        positions
    } else {
        let before = run_moves(positions, actions, order.drop_last(), width, height);
        let i = order.last().0 - 1;
        moved(before, i, actions[i], width, height)
    }
}

/// The accepted actions, all of which are present.
pub open spec fn accepted_moves(pending: Seq<Option<Move>>) -> Seq<Move> {
    Seq::new(pending.len(), |i: int| pending[i]->0)
}

/// No agent has an accepted action.
pub open spec fn all_cleared(pending: Seq<Option<Move>>) -> bool {
    forall|i: int| 0 <= i < pending.len() ==> pending[i] is None
}

impl SimView {
    /// Number of cells of the grid.
    pub open spec fn cells(self) -> int {
        self.width as int * self.height as int
    }

    /// This world with one more agent, standing on `p` with no action.
    pub open spec fn with_agent(self, p: GridPos) -> SimView {
        SimView {
            width: self.width,
            height: self.height,
            started: self.started,
            state: self.state,
            positions: self.positions.push(p),
            pending: self.pending.push(None),
        }
    }

    /// What a submission is answered, by the checks in their documented order.
    pub open spec fn submit_result(self, s: Submission) -> Result<(), SubmitError> {
        if !self.started {
            Err(SubmitError::NotStarted)
        } else if !(1 <= s.agent.0 <= self.positions.len()) {
            Err(SubmitError::UnknownAgent(s.agent))
        } else if s.target_state.0 != self.state {
            Err(
                SubmitError::WrongTargetState {
                    expected: StateId(self.state),
                    supplied: s.target_state,
                },
            )
        } else if self.pending[s.agent.0 - 1] is Some {
            Err(SubmitError::AlreadySubmitted(s.agent))
        } else if s.action.distance > MOVEMENT_BUDGET {
            Err(
                SubmitError::DistanceExceedsBudget {
                    distance: s.action.distance,
                    budget: MOVEMENT_BUDGET,
                },
            )
        } else {
            Ok(())
        }
    }

    /// The world after a submission: an accepted one fills the agent's action slot.
    pub open spec fn after_submit(self, s: Submission) -> SimView {
        if self.submit_result(s) is Ok {
            SimView {
                width: self.width,
                height: self.height,
                started: self.started,
                state: self.state,
                positions: self.positions,
                pending: self.pending.update(s.agent.0 - 1, Some(s.action)),
            }
        } else {
            self
        }
    }

    /// Whether an advance would succeed: started, with agents, none missing an action.
    pub open spec fn ready(self) -> bool {
        self.started && self.positions.len() > 0 && missing_ids(self.pending).len() == 0
    }

    /// The world after executing one step with the given execution order.
    pub open spec fn after_step(self, order: Seq<AgentId>) -> SimView {
        SimView {
            width: self.width,
            height: self.height,
            started: self.started,
            state: (self.state + 1) as u64,
            positions: run_moves(
                self.positions,
                accepted_moves(self.pending),
                order,
                self.width,
                self.height,
            ),
            pending: Seq::new(self.pending.len(), |i: int| None),
        }
    }
}

/// What a spawn answers and how it changes the world. During setup, an explicit cell must be
/// on the grid and free; a random spawn takes some free cell, and fails only when none is
/// left. A successful spawn gives the new agent the next ID. A failed spawn changes nothing.
pub open spec fn spawn_outcome(
    old: SimView,
    placement: Placement,
    result: Result<AgentId, SpawnError>,
    new: SimView,
) -> bool {
    if old.started {
        result == Err::<AgentId, SpawnError>(SpawnError::NotInSetup) && new == old
    } else {
        match placement {
            Placement::Cell(p) => if !in_bounds(p, old.width, old.height) {
                result == Err::<AgentId, SpawnError>(SpawnError::OutOfBounds(p)) && new == old
            } else if occupied(old.positions, p) {
                result == Err::<AgentId, SpawnError>(SpawnError::Occupied(p)) && new == old
            } else {
                result == Ok::<AgentId, SpawnError>(AgentId((old.positions.len() + 1) as u64))
                    && new == old.with_agent(p)
            },
            Placement::Random => if old.positions.len() == old.cells() {
                result == Err::<AgentId, SpawnError>(SpawnError::NoFreeCell) && new == old
            } else {
                result == Ok::<AgentId, SpawnError>(AgentId((old.positions.len() + 1) as u64))
                    && exists|p: GridPos|
                    in_bounds(p, old.width, old.height) && !occupied(old.positions, p) && new
                        == old.with_agent(p)
            },
        }
    }
}

/// The cells among the first `n` in row-major order that no agent occupies, in that order.
pub open spec fn free_cells_upto(v: SimView, n: nat) -> Seq<GridPos>
    decreases n,
{
    if n == 0 {
        Seq::empty()
    } else {
        let rest = free_cells_upto(v, (n - 1) as nat);
        let p = cell_at(n - 1, v.width);
        if occupied(v.positions, p) {
            rest
        } else {
            rest.push(p)
        }
    }
}

/// The free cells of a world in row-major order.
pub open spec fn free_cells_of(v: SimView) -> Seq<GridPos> {
    free_cells_upto(v, v.cells() as nat)
}

/// A random spawn as the spawn stream draws it: an index below the number of free cells is
/// drawn from the stream `s`, the new agent stands on the free cell at that index in
/// row-major order, and the stream moves on to `t`.
pub open spec fn random_spawn(old: SimView, s: RngState, new: SimView, t: RngState) -> bool {
    let free = free_cells_of(old);
    let draw = chacha_below(s.seed, s.stream, s.word_pos, free.len() as usize);
    &&& new == old.with_agent(free[draw.0 as int])
    &&& t == (RngState { word_pos: draw.1, ..s })
}

/// The execution order of a step with `n` agents: the agents in ascending ID order,
/// shuffled with the shuffle stream `s`.
pub open spec fn step_order(n: nat, s: RngState) -> Seq<AgentId> {
    chacha_shuffle(s.seed, s.stream, s.word_pos, id_numbers(agent_ids(n))).0.map_values(
        |x: u64| AgentId(x),
    )
}

/// The shuffle stream after drawing the execution order of a step with `n` agents.
pub open spec fn after_shuffle(n: nat, s: RngState) -> RngState {
    RngState {
        word_pos: chacha_shuffle(s.seed, s.stream, s.word_pos, id_numbers(agent_ids(n))).1,
        ..s
    }
}

/// The readiness status that a world reports.
pub open spec fn status_of(v: SimView, s: Status) -> bool {
    if !v.started {
        s is Setup
    } else if v.positions.len() == 0 {
        s is StartedEmpty
    } else {
        s matches Status::Collecting { missing } && missing@ == missing_ids(v.pending)
    }
}

/// Observations for the current state: one empty observation per agent, in ID order.
pub open spec fn observations_of(v: SimView, o: Observations) -> bool {
    &&& o.state == StateId(v.state)
    &&& o.by_agent@.len() == v.positions.len()
    &&& forall|i: int|
        0 <= i < o.by_agent@.len() ==> #[trigger] o.by_agent@[i] == (
            AgentId((i + 1) as u64),
            Observation {},
        )
}

/// The viewer state of a world: state, dimensions, and every agent in ID order.
pub open spec fn view_of(v: SimView, w: ViewState) -> bool {
    &&& w.state == StateId(v.state)
    &&& w.width == v.width
    &&& w.height == v.height
    &&& w.agents@.len() == v.positions.len()
    &&& forall|i: int|
        0 <= i < w.agents@.len() ==> #[trigger] w.agents@[i] == (AgentView {
            id: AgentId((i + 1) as u64),
            position: v.positions[i],
        })
}

// ---------------------------------------------------------------------------------------
// Free cells
// ---------------------------------------------------------------------------------------

/// The indices below `n` of free cells, ascending.
pub open spec fn free_prefix(occupancy: Seq<Option<u64>>, n: nat) -> Seq<usize>
    decreases n,
{
    if n == 0 {
        Seq::empty()
    } else {
        let rest = free_prefix(occupancy, (n - 1) as nat);
        if occupancy[n - 1] is None {
            rest.push((n - 1) as usize)
        } else {
            rest
        }
    }
}

/// The number of free cells.
pub open spec fn count_free(occupancy: Seq<Option<u64>>) -> nat {
    free_prefix(occupancy, occupancy.len()).len()
}

proof fn lemma_free_prefix_elements(occupancy: Seq<Option<u64>>, n: nat)
    requires
        n <= occupancy.len(),
        occupancy.len() <= usize::MAX + 1,
    ensures
        forall|j: int|
            0 <= j < free_prefix(occupancy, n).len() ==> #[trigger] free_prefix(occupancy, n)[j]
                < n && occupancy[free_prefix(occupancy, n)[j] as int] is None,
        free_prefix(occupancy, n).len() <= n,
    decreases n,
{
    if n > 0 {
        lemma_free_prefix_elements(occupancy, (n - 1) as nat);
    }
}

proof fn lemma_free_prefix_nonempty(occupancy: Seq<Option<u64>>, n: nat, k: int)
    requires
        n <= occupancy.len(),
        0 <= k < n,
        occupancy[k] is None,
    ensures
        free_prefix(occupancy, n).len() > 0,
    decreases n,
{
    if k < n - 1 {
        lemma_free_prefix_nonempty(occupancy, (n - 1) as nat, k);
    }
}

proof fn lemma_free_prefix_all_free(occupancy: Seq<Option<u64>>, n: nat)
    requires
        n <= occupancy.len(),
        forall|j: int| 0 <= j < n ==> occupancy[j] is None,
    ensures
        free_prefix(occupancy, n).len() == n,
    decreases n,
{
    if n > 0 {
        lemma_free_prefix_all_free(occupancy, (n - 1) as nat);
    }
}

proof fn lemma_free_prefix_update(occupancy: Seq<Option<u64>>, n: nat, k: int, v: Option<u64>)
    requires
        n <= occupancy.len(),
        0 <= k < occupancy.len(),
    ensures
        free_prefix(occupancy.update(k, v), n).len() as int == free_prefix(occupancy, n).len()
            + if k < n {
            (if v is None {
                1int
            } else {
                0int
            }) - (if occupancy[k] is None {
                1int
            } else {
                0int
            })
        } else {
            0int
        },
    decreases n,
{
    if n > 0 {
        lemma_free_prefix_update(occupancy, (n - 1) as nat, k, v);
    }
}

// ---------------------------------------------------------------------------------------
// Grid arithmetic
// ---------------------------------------------------------------------------------------

proof fn lemma_cell_in_range(p: GridPos, width: u32, height: u32)
    requires
        in_bounds(p, width, height),
    ensures
        0 <= p.y as int * width as int <= cell_of(p, width) < width as int * height as int,
{
    let x = p.x as int;
    let y = p.y as int;
    let w = width as int;
    let h = height as int;
    assert(0 <= y * w + x < w * h) by (nonlinear_arith)
        requires
            0 <= x < w,
            0 <= y < h,
    {
        assert(y * w + x < y * w + w);
        assert(y * w + w == (y + 1) * w);
        assert((y + 1) * w <= h * w);
    }
    assert(0 <= y * w) by (nonlinear_arith)
        requires
            0 <= y,
            0 <= w,
    ;
}

proof fn lemma_cell_injective(p: GridPos, q: GridPos, width: u32)
    requires
        p.x < width,
        q.x < width,
        cell_of(p, width) == cell_of(q, width),
    ensures
        p == q,
{
    let w = width as int;
    let (x1, y1, x2, y2) = (p.x as int, p.y as int, q.x as int, q.y as int);
    assert(y1 == y2) by (nonlinear_arith)
        requires
            0 <= x1 < w,
            0 <= x2 < w,
            0 <= y1,
            0 <= y2,
            y1 * w + x1 == y2 * w + x2,
    {
        if y1 < y2 {
            assert(y1 * w + w <= y2 * w);
        } else if y2 < y1 {
            assert(y2 * w + w <= y1 * w);
        }
    }
}

proof fn lemma_cell_at(k: int, width: u32, height: u32)
    requires
        width > 0,
        0 <= k < width as int * height as int,
    ensures
        in_bounds(cell_at(k, width), width, height),
        cell_of(cell_at(k, width), width) == k,
{
    let w = width as int;
    let h = height as int;
    let q = k / w;
    let r = k % w;
    vstd::arithmetic::div_mod::lemma_fundamental_div_mod(k, w);
    assert(0 <= r < w);
    assert(0 <= q < h) by (nonlinear_arith)
        requires
            k == w * q + r,
            0 <= r < w,
            0 <= k < w * h,
            w > 0,
    {
        if q < 0 {
            assert(w * q <= -w);
        }
        if q >= h {
            assert(w * q >= w * h);
        }
    }
    assert(q * w == w * q) by (nonlinear_arith);
}

// ---------------------------------------------------------------------------------------
// The simulation
// ---------------------------------------------------------------------------------------

#[derive(Debug, Clone, Copy, PartialEq, Eq, Structural)]
enum Phase {
    Setup,
    Started,
}

/// The simulation of one run: world state, action collection, and step execution.
///
/// Networking, authority, pacing, and deadlines belong to the server.
///
/// The result of every operation, and the world and random streams it leaves, are fixed by
/// the world and streams before it and by its arguments, and `new` fixes them from the
/// configuration: equal configurations given the same operations in the same order have
/// equal histories.
pub struct Simulation {
    width: u32,
    height: u32,
    /// Which agent, if any, occupies each cell, in row-major order (`y * width + x`). It
    /// mirrors `positions` and is updated alongside it on every spawn and move.
    occupancy: Vec<Option<u64>>,
    phase: Phase,
    state: u64,
    /// `positions[i]` is where agent `i + 1` stands. Agent IDs are assigned in spawn order.
    positions: Vec<GridPos>,
    /// `pending[i]` is the accepted action of agent `i + 1` for the current state.
    pending: Vec<Option<Move>>,
    spawn_rng: RngState,
    shuffle_rng: RngState,
}

impl Simulation {
    /// The world this simulation holds.
    pub closed spec fn model(&self) -> SimView {
        SimView {
            width: self.width,
            height: self.height,
            started: self.phase == Phase::Started,
            state: self.state,
            positions: self.positions@,
            pending: self.pending@,
        }
    }
}

impl Simulation {
    /// The run's spawn stream: the generator that random spawns draw from.
    pub closed spec fn spawn_stream(&self) -> RngState {
        self.spawn_rng
    }

    /// The run's shuffle stream: the generator that execution orders are drawn from.
    pub closed spec fn shuffle_stream(&self) -> RngState {
        self.shuffle_rng
    }

    /// The simulation's internal consistency: the occupancy index mirrors the agents'
    /// positions exactly, and every agent stands inside the grid.
    pub closed spec fn wf(&self) -> bool {
        let w = self.width;
        let h = self.height;
        let ps = self.positions@;
        let occ = self.occupancy@;
        &&& w > 0 && h > 0
        &&& occ.len() == w as int * h as int
        &&& occ.len() <= usize::MAX
        &&& ps.len() == self.pending@.len()
        &&& ps.len() + count_free(occ) == occ.len()
        &&& forall|i: int|
            0 <= i < ps.len() ==> in_bounds(#[trigger] ps[i], w, h) && occ[cell_of(ps[i], w)]
                == Some((i + 1) as u64)
        &&& forall|k: int|
            0 <= k < occ.len() && (#[trigger] occ[k]) is Some ==> {
                let a = occ[k]->0 as int;
                &&& 1 <= a <= ps.len()
                &&& cell_of(ps[a - 1], w) == k
            }
        &&& self.phase == Phase::Setup ==> all_cleared(self.pending@)
    }

    proof fn lemma_occupied_iff(&self, p: GridPos)
        requires
            self.wf(),
            in_bounds(p, self.width, self.height),
        ensures
            occupied(self.positions@, p) <==> self.occupancy@[cell_of(p, self.width)] is Some,
            0 <= cell_of(p, self.width) < self.occupancy@.len(),
    {
        lemma_cell_in_range(p, self.width, self.height);
        let k = cell_of(p, self.width);
        if self.occupancy@[k] is Some {
            let a = self.occupancy@[k]->0 as int;
            let q = self.positions@[a - 1];
            assert(in_bounds(q, self.width, self.height));
            lemma_cell_injective(p, q, self.width);
        }
        if occupied(self.positions@, p) {
            let i = choose|i: int| 0 <= i < self.positions@.len() && self.positions@[i] == p;
            assert(in_bounds(self.positions@[i], self.width, self.height));
        }
    }

    proof fn lemma_distinct(&self)
        requires
            self.wf(),
        ensures
            distinct_cells(self.positions@),
            self.positions@.len() <= self.occupancy@.len(),
    {
        assert forall|i: int, j: int|
            0 <= i < self.positions@.len() && 0 <= j < self.positions@.len() && i
                != j implies self.positions@[i] != self.positions@[j] by {
            let occ = self.occupancy@;
            assert(occ[cell_of(self.positions@[i], self.width)] == Some((i + 1) as u64));
            assert(occ[cell_of(self.positions@[j], self.width)] == Some((j + 1) as u64));
        }
    }

    proof fn lemma_free_cells(&self, n: nat)
        requires
            self.wf(),
            n <= self.occupancy@.len(),
        ensures
            free_cells_upto(self.model(), n) == free_prefix(self.occupancy@, n).map_values(
                |k: usize| cell_at(k as int, self.width),
            ),
        decreases n,
    {
        if n > 0 {
            self.lemma_free_cells((n - 1) as nat);
            let k = n - 1;
            lemma_cell_at(k, self.width, self.height);
            self.lemma_occupied_iff(cell_at(k, self.width));
            let rest = free_prefix(self.occupancy@, (n - 1) as nat);
            if self.occupancy@[k] is None {
                assert(rest.push(k as usize).map_values(|k: usize| cell_at(k as int, self.width))
                    =~= rest.map_values(|k: usize| cell_at(k as int, self.width)).push(
                    cell_at(k, self.width),
                ));
            }
        }
    }

    /// Create a simulation in setup at state 0.
    pub fn new(config: SimConfig) -> (result: Result<Simulation, ConfigError>)
        ensures
            config.width == 0 || config.height == 0 ==> result == Err::<Simulation, ConfigError>(
                ConfigError::EmptyGrid { width: config.width, height: config.height },
            ),
            config.width > 0 && config.height > 0 && config.width as int * config.height as int
                > usize::MAX ==> result == Err::<Simulation, ConfigError>(
                ConfigError::GridTooLarge { width: config.width, height: config.height },
            ),
            config.width > 0 && config.height > 0 && config.width as int * config.height as int
                <= usize::MAX ==> (result matches Ok(sim) && sim.wf() && sim.model() == (SimView {
                width: config.width,
                height: config.height,
                started: false,
                state: 0,
                positions: Seq::empty(),
                pending: Seq::empty(),
            }) && sim.spawn_stream() == (RngState {
                seed: config.seed,
                stream: SPAWN_STREAM,
                word_pos: 0,
            }) && sim.shuffle_stream() == (RngState {
                seed: config.seed,
                stream: SHUFFLE_STREAM,
                word_pos: 0,
            })),
    {
        let width = config.width;
        let height = config.height;
        if width == 0 || height == 0 {
            return Err(ConfigError::EmptyGrid { width, height });
        }
        let cells = match (width as usize).checked_mul(height as usize) {
            Some(cells) => cells,
            None => {
                return Err(ConfigError::GridTooLarge { width, height });
            },
        };
        let mut occupancy: Vec<Option<u64>> = Vec::new();
        let mut k: usize = 0;
        while k < cells
            invariant
                k <= cells,
                occupancy@.len() == k,
                forall|j: int| 0 <= j < k ==> occupancy@[j] is None,
            decreases cells - k,
        {
            occupancy.push(None);
            k = k + 1;
        }
        proof {
            lemma_free_prefix_all_free(occupancy@, occupancy@.len());
        }
        let sim = Simulation {
            width,
            height,
            occupancy,
            phase: Phase::Setup,
            state: 0,
            positions: Vec::new(),
            pending: Vec::new(),
            spawn_rng: stream(config.seed, SPAWN_STREAM),
            shuffle_rng: stream(config.seed, SHUFFLE_STREAM),
        };
        Ok(sim)
    }
}


impl Simulation {
    /// The row-major index of `pos`, if it is on the grid.
    fn index(&self, pos: GridPos) -> (r: Option<usize>)
        requires
            self.wf(),
        ensures
            in_bounds(pos, self.width, self.height) ==> r == Some(cell_of(pos, self.width) as usize),
            !in_bounds(pos, self.width, self.height) ==> r is None,
            r matches Some(k) ==> k < self.occupancy@.len(),
    {
        if pos.x < self.width && pos.y < self.height {
            proof {
                lemma_cell_in_range(pos, self.width, self.height);
            }
            Some(pos.y as usize * self.width as usize + pos.x as usize)
        } else {
            None
        }
    }

    /// The cell with row-major index `index`.
    fn position(&self, index: usize) -> (p: GridPos)
        requires
            self.wf(),
            index < self.occupancy@.len(),
        ensures
            p == cell_at(index as int, self.width),
            in_bounds(p, self.width, self.height),
            cell_of(p, self.width) == index,
    {
        proof {
            lemma_cell_at(index as int, self.width, self.height);
        }
        let width = self.width as usize;
        GridPos::new((index % width) as u32, (index / width) as u32)
    }

    /// The indices of all free cells, ascending.
    fn free_cells(&self) -> (free: Vec<usize>)
        requires
            self.wf(),
        ensures
            free@ == free_prefix(self.occupancy@, self.occupancy@.len()),
    {
        let mut free: Vec<usize> = Vec::new();
        let mut k: usize = 0;
        while k < self.occupancy.len()
            invariant
                self.wf(),
                k <= self.occupancy@.len(),
                free@ == free_prefix(self.occupancy@, k as nat),
            decreases self.occupancy@.len() - k,
        {
            if self.occupancy[k].is_none() {
                free.push(k);
            }
            k = k + 1;
        }
        free
    }

    /// Spawn an agent during setup and return its assigned ID.
    pub fn spawn(&mut self, placement: Placement) -> (result: Result<AgentId, SpawnError>)
        requires
            old(self).wf(),
        ensures
            final(self).wf(),
            spawn_outcome(old(self).model(), placement, result, final(self).model()),
            result is Err ==> *final(self) == *old(self),
            final(self).shuffle_stream() == old(self).shuffle_stream(),
            placement is Cell ==> final(self).spawn_stream() == old(self).spawn_stream(),
            placement is Random && result is Ok ==> random_spawn(
                old(self).model(),
                old(self).spawn_stream(),
                final(self).model(),
                final(self).spawn_stream(),
            ),
            placement is Random && result is Ok ==> final(self).spawn_stream().word_pos
                == chacha_below(
                old(self).spawn_stream().seed,
                old(self).spawn_stream().stream,
                old(self).spawn_stream().word_pos,
                (old(self).model().cells() - old(self).model().positions.len()) as usize,
            ).1,
    {
        if self.phase != Phase::Setup {
            return Err(SpawnError::NotInSetup);
        }
        let ghost old_occ = self.occupancy@;
        let ghost old_ps = self.positions@;
        let index = match placement {
            Placement::Cell(pos) => {
                let index = match self.index(pos) {
                    Some(index) => index,
                    None => {
                        return Err(SpawnError::OutOfBounds(pos));
                    },
                };
                proof {
                    self.lemma_occupied_iff(pos);
                }
                if self.occupancy[index].is_some() {
                    return Err(SpawnError::Occupied(pos));
                }
                assert(old_occ[index as int] is None);
                index
            },
            Placement::Random => {
                let free = self.free_cells();
                proof {
                    lemma_free_prefix_elements(self.occupancy@, self.occupancy@.len());
                }
                if free.len() == 0 {
                    return Err(SpawnError::NoFreeCell);
                }
                proof {
                    self.lemma_free_cells(self.occupancy@.len());
                    assert(self.model().cells() == self.occupancy@.len());
                }
                let pick = random_below(&mut self.spawn_rng, free.len());
                proof {
                    assert(free_cells_of(old(self).model())[pick as int] == cell_at(
                        free@[pick as int] as int,
                        self.width,
                    ));
                }
                assert(old_occ[free@[pick as int] as int] is None);
                free[pick]
            },
        };
        let pos = self.position(index);
        proof {
            self.lemma_occupied_iff(pos);
            self.lemma_distinct();
            lemma_free_prefix_update(old_occ, old_occ.len(), index as int, Some((old_ps.len() + 1) as u64));
        }
        let id = (self.positions.len() as u64) + 1;
        self.occupancy.set(index, Some(id));
        self.positions.push(pos);
        self.pending.push(None);
        proof {
            let w = self.width;
            let ps = self.positions@;
            let occ = self.occupancy@;
            assert forall|i: int| 0 <= i < ps.len() implies in_bounds(#[trigger] ps[i], w, self.height)
                && occ[cell_of(ps[i], w)] == Some((i + 1) as u64) by {
                if i < old_ps.len() {
                    assert(old_ps[i] == ps[i]);
                    assert(in_bounds(old_ps[i], w, self.height));
                    lemma_cell_in_range(old_ps[i], w, self.height);
                    assert(old_occ[cell_of(old_ps[i], w)] == Some((i + 1) as u64));
                    assert(cell_of(ps[i], w) != index);
                    assert(occ[cell_of(ps[i], w)] == old_occ[cell_of(ps[i], w)]);
                } else {
                    assert(ps[i] == pos);
                }
            }
            assert forall|k: int| 0 <= k < occ.len() && (#[trigger] occ[k]) is Some implies {
                let a = occ[k]->0 as int;
                &&& 1 <= a <= ps.len()
                &&& cell_of(ps[a - 1], w) == k
            } by {
                if k != index {
                    assert(old_occ[k] is Some);
                }
            }
            assert(self.model().pending =~= old(self).model().pending.push(None));
            if let Placement::Cell(p) = placement {
                lemma_cell_injective(p, pos, w);
            }
            assert(!occupied(old_ps, pos));
            assert(self.model().positions =~= old(self).model().positions.push(pos));
            assert(self.model() == old(self).model().with_agent(pos));
            assert(in_bounds(pos, old(self).model().width, old(self).model().height));
        }
        Ok(AgentId(id))
    }
}


proof fn lemma_missing_ids_step(pending: Seq<Option<Move>>, i: int)
    requires
        0 <= i < pending.len(),
    ensures
        pending.take(i + 1).drop_last() == pending.take(i),
        missing_ids(pending.take(i + 1)) == if pending[i] is None {
            missing_ids(pending.take(i)).push(AgentId((i + 1) as u64))
        } else {
            missing_ids(pending.take(i))
        },
{
    assert(pending.take(i + 1).drop_last() =~= pending.take(i));
}

proof fn lemma_missing_ids_empty(pending: Seq<Option<Move>>)
    requires
        missing_ids(pending).len() == 0,
    ensures
        forall|i: int| 0 <= i < pending.len() ==> #[trigger] pending[i] is Some,
    decreases pending.len(),
{
    if pending.len() > 0 {
        let rest = missing_ids(pending.drop_last());
        assert(pending.last() is Some);
        lemma_missing_ids_empty(pending.drop_last());
        assert forall|i: int| 0 <= i < pending.len() implies #[trigger] pending[i] is Some by {
            if i < pending.len() - 1 {
                assert(pending.drop_last()[i] == pending[i]);
            }
        }
    }
}

proof fn lemma_missing_ids_full(pending: Seq<Option<Move>>)
    requires
        forall|i: int| 0 <= i < pending.len() ==> #[trigger] pending[i] is Some,
    ensures
        missing_ids(pending).len() == 0,
    decreases pending.len(),
{
    if pending.len() > 0 {
        assert forall|i: int| 0 <= i < pending.drop_last().len() implies #[trigger] pending.drop_last()[i] is Some by {
            assert(pending[i] is Some);
        }
        lemma_missing_ids_full(pending.drop_last());
    }
}

proof fn lemma_run_moves_step(
    positions: Seq<GridPos>,
    actions: Seq<Move>,
    order: Seq<AgentId>,
    k: int,
    width: u32,
    height: u32,
)
    requires
        0 <= k < order.len(),
    ensures
        run_moves(positions, actions, order.take(k + 1), width, height) == moved(
            run_moves(positions, actions, order.take(k), width, height),
            order[k].0 - 1,
            actions[order[k].0 - 1],
            width,
            height,
        ),
{
    assert(order.take(k + 1).drop_last() =~= order.take(k));
}

impl Simulation {
    fn observations(&self) -> (o: Observations)
        requires
            self.wf(),
        ensures
            observations_of(self.model(), o),
    {
        proof {
            self.lemma_distinct();
        }
        let n = self.positions.len();
        let mut by_agent: Vec<(AgentId, Observation)> = Vec::new();
        let mut i: usize = 0;
        while i < n
            invariant
                n == self.positions@.len(),
                n <= usize::MAX,
                i <= n,
                by_agent@.len() == i,
                forall|j: int|
                    0 <= j < i ==> #[trigger] by_agent@[j] == (
                        AgentId((j + 1) as u64),
                        Observation {},
                    ),
            decreases n - i,
        {
            by_agent.push((AgentId(i as u64 + 1), Observation {}));
            i = i + 1;
        }
        Observations { state: StateId(self.state), by_agent }
    }

    /// Close setup, open action collection, and return initial observations for state 0.
    ///
    /// The server enforces creator authority and the no-agents-and-no-viewers rejection.
    pub fn start(&mut self) -> (result: Result<Observations, StartError>)
        requires
            old(self).wf(),
        ensures
            final(self).wf(),
            old(self).model().started ==> result == Err::<Observations, StartError>(
                StartError::AlreadyStarted,
            ) && *final(self) == *old(self),
            !old(self).model().started ==> (result matches Ok(o) && observations_of(final(self).model(), o)
                && final(self).model() == (SimView { started: true, ..old(self).model() })),
            final(self).spawn_stream() == old(self).spawn_stream(),
            final(self).shuffle_stream() == old(self).shuffle_stream(),
    {
        if self.phase != Phase::Setup {
            return Err(StartError::AlreadyStarted);
        }
        self.phase = Phase::Started;
        Ok(self.observations())
    }

    /// Submit one agent's action for the current state.
    ///
    /// The first accepted submission for an agent and state is fixed.
    pub fn submit(&mut self, submission: Submission) -> (result: Result<(), SubmitError>)
        requires
            old(self).wf(),
        ensures
            final(self).wf(),
            result == old(self).model().submit_result(submission),
            final(self).model() == old(self).model().after_submit(submission),
            result is Err ==> *final(self) == *old(self),
            final(self).spawn_stream() == old(self).spawn_stream(),
            final(self).shuffle_stream() == old(self).shuffle_stream(),
    {
        let agent = submission.agent;
        let target_state = submission.target_state;
        let action = submission.action;
        if self.phase != Phase::Started {
            return Err(SubmitError::NotStarted);
        }
        let current = self.state;
        if !(1 <= agent.0 && agent.0 <= self.positions.len() as u64) {
            return Err(SubmitError::UnknownAgent(agent));
        }
        let slot = (agent.0 - 1) as usize;
        if target_state.0 != current {
            return Err(
                SubmitError::WrongTargetState { expected: StateId(current), supplied: target_state },
            );
        }
        if self.pending[slot].is_some() {
            return Err(SubmitError::AlreadySubmitted(agent));
        }
        if action.distance > MOVEMENT_BUDGET {
            return Err(
                SubmitError::DistanceExceedsBudget {
                    distance: action.distance,
                    budget: MOVEMENT_BUDGET,
                },
            );
        }
        self.pending.set(slot, Some(action));
        Ok(())
    }

    /// Report the run's phase/status and current state ID.
    pub fn readiness(&self) -> (r: Readiness)
        requires
            self.wf(),
        ensures
            r.state == StateId(self.model().state),
            status_of(self.model(), r.status),
    {
        let status = if self.phase == Phase::Setup {
            Status::Setup
        } else if self.positions.len() == 0 {
            Status::StartedEmpty
        } else {
            proof {
                self.lemma_distinct();
            }
            let n = self.pending.len();
            let mut missing: Vec<AgentId> = Vec::new();
            let mut i: usize = 0;
            while i < n
                invariant
                    n == self.pending@.len(),
                    n <= usize::MAX,
                    self.wf(),
                    i <= n,
                    missing@ == missing_ids(self.pending@.take(i as int)),
                decreases n - i,
            {
                proof {
                    lemma_missing_ids_step(self.pending@, i as int);
                    self.lemma_distinct();
                }
                if self.pending[i].is_none() {
                    missing.push(AgentId(i as u64 + 1));
                }
                i = i + 1;
            }
            assert(self.pending@.take(n as int) =~= self.pending@);
            Status::Collecting { missing }
        };
        Readiness { state: StateId(self.state), status }
    }

    /// Complete view of the current world for viewers.
    pub fn view(&self) -> (v: ViewState)
        requires
            self.wf(),
        ensures
            view_of(self.model(), v),
    {
        proof {
            self.lemma_distinct();
        }
        let n = self.positions.len();
        let mut agents: Vec<AgentView> = Vec::new();
        let mut i: usize = 0;
        while i < n
            invariant
                n == self.positions@.len(),
                n <= usize::MAX,
                i <= n,
                agents@.len() == i,
                forall|j: int|
                    0 <= j < i ==> #[trigger] agents@[j] == (AgentView {
                        id: AgentId((j + 1) as u64),
                        position: self.positions@[j],
                    }),
            decreases n - i,
        {
            agents.push(AgentView { id: AgentId(i as u64 + 1), position: self.positions[i] });
            i = i + 1;
        }
        ViewState { state: StateId(self.state), width: self.width, height: self.height, agents }
    }

    /// Number of agents currently in the world.
    pub fn agent_count(&self) -> (n: usize)
        requires
            self.wf(),
        ensures
            n == self.model().positions.len(),
    {
        self.positions.len()
    }

    /// Execute one move of agent `i + 1` against the current world. Failed moves leave the
    /// agent in place.
    fn execute_move(&mut self, i: usize, action: Move)
        requires
            old(self).wf(),
            i < old(self).model().positions.len(),
            old(self).phase == Phase::Started,
        ensures
            final(self).wf(),
            final(self).phase == Phase::Started,
            final(self).spawn_rng == old(self).spawn_rng,
            final(self).shuffle_rng == old(self).shuffle_rng,
            final(self).model() == (SimView {
                positions: moved(
                    old(self).model().positions,
                    i as int,
                    action,
                    old(self).model().width,
                    old(self).model().height,
                ),
                ..old(self).model()
            }),
    {
        if action.distance == 0 {
            return;
        }
        let from = self.positions[i];
        let to = match from.neighbor(action.direction) {
            Some(to) => to,
            None => {
                return;
            },
        };
        let to_index = match self.index(to) {
            Some(to_index) => to_index,
            None => {
                return;
            },
        };
        proof {
            self.lemma_occupied_iff(to);
        }
        if self.occupancy[to_index].is_some() {
            return;
        }
        let ghost old_occ = self.occupancy@;
        let ghost old_ps = self.positions@;
        let ghost w = self.width;
        let ghost h = self.height;
        proof {
            assert(in_bounds(from, w, h));
            lemma_cell_in_range(from, w, h);
            self.lemma_distinct();
        }
        let from_index = self.index(from).unwrap();
        proof {
            lemma_free_prefix_update(old_occ, old_occ.len(), from_index as int, None);
            lemma_free_prefix_update(
                old_occ.update(from_index as int, None),
                old_occ.len(),
                to_index as int,
                Some((i + 1) as u64),
            );
        }
        self.occupancy.set(from_index, None);
        self.occupancy.set(to_index, Some(i as u64 + 1));
        self.positions.set(i, to);
        proof {
            let ps = self.positions@;
            let occ = self.occupancy@;
            assert forall|j: int| 0 <= j < ps.len() implies in_bounds(#[trigger] ps[j], w, h)
                && occ[cell_of(ps[j], w)] == Some((j + 1) as u64) by {
                if j != i {
                    assert(old_ps[j] == ps[j]);
                    assert(in_bounds(old_ps[j], w, h));
                    lemma_cell_in_range(old_ps[j], w, h);
                    assert(old_occ[cell_of(old_ps[j], w)] == Some((j + 1) as u64));
                    assert(cell_of(ps[j], w) != to_index);
                    assert(cell_of(ps[j], w) != from_index);
                }
            }
            assert forall|k: int| 0 <= k < occ.len() && (#[trigger] occ[k]) is Some implies {
                let a = occ[k]->0 as int;
                &&& 1 <= a <= ps.len()
                &&& cell_of(ps[a - 1], w) == k
            } by {
                if k != to_index && k != from_index {
                    assert(old_occ[k] is Some);
                    assert(occ[k] == old_occ[k]);
                    let a = old_occ[k]->0 as int;
                    assert(a - 1 != i);
                }
            }
            assert(ps =~= moved(old_ps, i as int, action, w, h));
        }
    }

    /// Execute one ready step and return observations for the resulting state.
    ///
    /// Fails without changing the world or pending actions if the step is not ready.
    /// The server checks its pacing gate before calling this.
    pub fn advance(&mut self) -> (result: Result<Observations, AdvanceError>)
        requires
            old(self).wf(),
            old(self).model().ready() ==> old(self).model().state < u64::MAX,
        ensures
            final(self).wf(),
            !old(self).model().started ==> result == Err::<Observations, AdvanceError>(
                AdvanceError::NotStarted,
            ) && *final(self) == *old(self),
            old(self).model().started && old(self).model().positions.len() == 0 ==> result == Err::<
                Observations,
                AdvanceError,
            >(AdvanceError::NoAgents) && *final(self) == *old(self),
            old(self).model().started && old(self).model().positions.len() > 0 && missing_ids(
                old(self).model().pending,
            ).len() > 0 ==> (result matches Err(AdvanceError::MissingActions { missing })
                && missing@ == missing_ids(old(self).model().pending) && *final(self) == *old(self)),
            old(self).model().ready() ==> (result matches Ok(o) && observations_of(final(self).model(), o)
                && final(self).model() == old(self).model().after_step(
                step_order(old(self).model().positions.len(), old(self).shuffle_stream()),
            ) && final(self).shuffle_stream() == after_shuffle(
                old(self).model().positions.len(),
                old(self).shuffle_stream(),
            ) && step_order(old(self).model().positions.len(), old(self).shuffle_stream()).to_multiset()
                == agent_ids(old(self).model().positions.len()).to_multiset()),
            result is Ok <==> old(self).model().ready(),
            old(self).model().ready() ==> final(self).shuffle_stream().word_pos == chacha_shuffle(
                old(self).shuffle_stream().seed,
                old(self).shuffle_stream().stream,
                old(self).shuffle_stream().word_pos,
                id_numbers(agent_ids(old(self).model().positions.len())),
            ).1,
            final(self).spawn_stream() == old(self).spawn_stream(),
    {
        let readiness = self.readiness();
        match readiness.status {
            Status::Setup => {
                return Err(AdvanceError::NotStarted);
            },
            Status::StartedEmpty => {
                return Err(AdvanceError::NoAgents);
            },
            Status::Collecting { missing } => {
                if missing.len() > 0 {
                    return Err(AdvanceError::MissingActions { missing });
                }
            },
        }
        proof {
            lemma_missing_ids_empty(self.pending@);
            self.lemma_distinct();
        }
        let ghost old_view = self.model();
        let n = self.positions.len();
        let mut actions: Vec<Move> = Vec::new();
        let mut order: Vec<AgentId> = Vec::new();
        let mut i: usize = 0;
        while i < n
            invariant
                self.wf(),
                self.phase == Phase::Started,
                n == self.positions@.len(),
                n <= usize::MAX,
                i <= n,
                self.model().positions == old_view.positions,
                self.model().width == old_view.width,
                self.model().height == old_view.height,
                self.model().state == old_view.state,
                self.model().started,
                self.spawn_rng == old(self).spawn_rng,
                self.shuffle_rng == old(self).shuffle_rng,
                self.pending@.len() == n,
                old_view.pending.len() == n,
                forall|j: int| 0 <= j < i ==> #[trigger] self.pending@[j] is None,
                forall|j: int| i <= j < n ==> #[trigger] self.pending@[j] == old_view.pending[j],
                forall|j: int| 0 <= j < n ==> #[trigger] old_view.pending[j] is Some,
                actions@ == accepted_moves(old_view.pending).take(i as int),
                order@ == agent_ids(n as nat).take(i as int),
            decreases n - i,
        {
            assert(self.pending@[i as int] == old_view.pending[i as int]);
            assert(old_view.pending[i as int] is Some);
            let m = self.pending[i].unwrap();
            assert(m == accepted_moves(old_view.pending)[i as int]);
            actions.push(m);
            order.push(AgentId(i as u64 + 1));
            self.pending.set(i, None);
            proof {
                assert(actions@ =~= accepted_moves(old_view.pending).take(i + 1));
                assert(order@ =~= agent_ids(n as nat).take(i + 1));
            }
            i = i + 1;
        }
        proof {
            assert(actions@ =~= accepted_moves(old_view.pending));
            assert(order@ =~= agent_ids(n as nat));
        }
        let ghost ids = order@;
        shuffle_agents(&mut order, &mut self.shuffle_rng);
        let ghost shuffled = order@;
        let ghost drawn = self.shuffle_rng;
        proof {
            assert(shuffled.to_multiset().len() == ids.to_multiset().len());
            assert(shuffled.len() == n);
            assert(shuffled =~= id_numbers(shuffled).map_values(|x: u64| AgentId(x)));
            assert(shuffled == step_order(n as nat, old(self).shuffle_rng));
            assert(drawn == after_shuffle(n as nat, old(self).shuffle_rng));
        }
        let mut k: usize = 0;
        while k < n
            invariant
                self.wf(),
                self.phase == Phase::Started,
                n == self.positions@.len(),
                n == order@.len(),
                k <= n,
                order@ == shuffled,
                shuffled.to_multiset() == agent_ids(n as nat).to_multiset(),
                actions@ == accepted_moves(old_view.pending),
                actions@.len() == n,
                self.model().positions == run_moves(
                    old_view.positions,
                    actions@,
                    shuffled.take(k as int),
                    old_view.width,
                    old_view.height,
                ),
                self.model().width == old_view.width,
                self.model().height == old_view.height,
                self.model().state == old_view.state,
                self.model().started,
                self.spawn_rng == old(self).spawn_rng,
                self.shuffle_rng == drawn,
                all_cleared(self.pending@),
                self.pending@.len() == n,
            decreases n - k,
        {
            let agent = order[k];
            proof {
                assert(shuffled.contains(agent));
                assert(agent_ids(n as nat).to_multiset().count(agent) > 0);
                let j = choose|j: int| 0 <= j < n && agent_ids(n as nat)[j] == agent;
                assert(agent.0 == j + 1);
                lemma_run_moves_step(old_view.positions, actions@, shuffled, k as int, old_view.width, old_view.height);
            }
            let slot = (agent.0 - 1) as usize;
            self.execute_move(slot, actions[slot]);
            k = k + 1;
        }
        proof {
            assert(shuffled.take(n as int) =~= shuffled);
            assert(self.pending@ =~= Seq::new(n as nat, |i: int| None));
        }
        self.state = self.state + 1;
        let observations = self.observations();
        proof {
            assert(self.model() == old_view.after_step(shuffled));
        }
        Ok(observations)
    }
}


// ---------------------------------------------------------------------------------------
// Laws
// ---------------------------------------------------------------------------------------

/// At most one agent occupies any cell, and every agent stands inside the grid, in every
/// state a simulation can reach.
pub proof fn lemma_cells_never_shared(sim: &Simulation)
    requires
        sim.wf(),
    ensures
        distinct_cells(sim.model().positions),
        forall|i: int|
            0 <= i < sim.model().positions.len() ==> in_bounds(
                #[trigger] sim.model().positions[i],
                sim.model().width,
                sim.model().height,
            ),
        sim.model().positions.len() <= sim.model().cells(),
{
    sim.lemma_distinct();
}

/// A step keeps agents on the grid and apart: whatever the execution order, moves that
/// start from distinct in-bounds cells end on distinct in-bounds cells.
pub proof fn lemma_moves_keep_agents_apart(
    positions: Seq<GridPos>,
    actions: Seq<Move>,
    order: Seq<AgentId>,
    width: u32,
    height: u32,
)
    requires
        distinct_cells(positions),
        forall|i: int| 0 <= i < positions.len() ==> in_bounds(#[trigger] positions[i], width, height),
        forall|k: int| 0 <= k < order.len() ==> 1 <= (#[trigger] order[k]).0 <= positions.len(),
    ensures
        run_moves(positions, actions, order, width, height).len() == positions.len(),
        distinct_cells(run_moves(positions, actions, order, width, height)),
        forall|i: int|
            0 <= i < positions.len() ==> in_bounds(
                #[trigger] run_moves(positions, actions, order, width, height)[i],
                width,
                height,
            ),
    decreases order.len(),
{
    if order.len() > 0 {
        let prefix = order.drop_last();
        assert forall|k: int| 0 <= k < prefix.len() implies 1 <= (#[trigger] prefix[k]).0
            <= positions.len() by {
            assert(prefix[k] == order[k]);
        }
        lemma_moves_keep_agents_apart(positions, actions, prefix, width, height);
        let before = run_moves(positions, actions, prefix, width, height);
        let i = order.last().0 - 1;
        assert(order.last() == order[order.len() - 1]);
        let after = moved(before, i, actions[i], width, height);
        assert forall|a: int, b: int|
            0 <= a < after.len() && 0 <= b < after.len() && a != b implies after[a]
            != after[b] by {
            if after != before {
                if a == i {
                    assert(!occupied(before, after[a]));
                    assert(before[b] == after[b]);
                } else if b == i {
                    assert(!occupied(before, after[b]));
                    assert(before[a] == after[a]);
                }
            }
        }
    }
}

/// The first accepted submission for an agent in a state is fixed: a later submission for
/// the same agent and state is rejected as already submitted and changes nothing.
pub proof fn lemma_first_submission_is_fixed(v: SimView, first: Submission, later: Submission)
    requires
        v.pending.len() == v.positions.len(),
        v.submit_result(first) is Ok,
        later.agent == first.agent,
        later.target_state == first.target_state,
    ensures
        v.after_submit(first).submit_result(later) == Err::<(), SubmitError>(
            SubmitError::AlreadySubmitted(later.agent),
        ),
        v.after_submit(first).after_submit(later) == v.after_submit(first),
        v.after_submit(first).pending[first.agent.0 - 1] == Some(first.action),
{
}

/// A run is ready to advance exactly when it has started, has agents, and every agent has
/// an accepted action.
pub proof fn lemma_ready_iff_all_submitted(v: SimView)
    ensures
        v.ready() <==> (v.started && v.positions.len() > 0 && forall|i: int|
            0 <= i < v.pending.len() ==> #[trigger] v.pending[i] is Some),
{
    if missing_ids(v.pending).len() == 0 {
        lemma_missing_ids_empty(v.pending);
    }
    if forall|i: int| 0 <= i < v.pending.len() ==> #[trigger] v.pending[i] is Some {
        lemma_missing_ids_full(v.pending);
    }
}

/// A rejected submission leaves the agent's action slot open: after any rejection other
/// than for an already accepted action, a valid submission is still accepted.
pub proof fn lemma_rejection_keeps_slot_open(v: SimView, rejected: Submission, valid: Submission)
    requires
        v.submit_result(rejected) is Err,
        v.submit_result(valid) is Ok,
    ensures
        v.after_submit(rejected).submit_result(valid) is Ok,
{
}

/// The order in which submissions arrive does not matter: two accepted submissions for
/// different agents leave the same world whichever comes first, and each is still accepted
/// after the other.
pub proof fn lemma_submission_order_is_irrelevant(v: SimView, a: Submission, b: Submission)
    requires
        v.pending.len() == v.positions.len(),
        v.submit_result(a) is Ok,
        v.submit_result(b) is Ok,
        a.agent != b.agent,
    ensures
        v.after_submit(a).submit_result(b) is Ok,
        v.after_submit(b).submit_result(a) is Ok,
        v.after_submit(a).after_submit(b) == v.after_submit(b).after_submit(a),
{
    let ia = a.agent.0 - 1;
    let ib = b.agent.0 - 1;
    assert(ia != ib);
    assert(v.pending.update(ia, Some(a.action)).update(ib, Some(b.action)) =~= v.pending.update(
        ib,
        Some(b.action),
    ).update(ia, Some(a.action)));
}

/// A simulation's world is consistent: the grid is not empty, every agent has exactly one
/// action slot, there are no more agents than cells, and no action is pending before Start.
pub proof fn lemma_world_is_consistent(sim: &Simulation)
    requires
        sim.wf(),
    ensures
        sim.model().width > 0,
        sim.model().height > 0,
        sim.model().pending.len() == sim.model().positions.len(),
        sim.model().positions.len() <= sim.model().cells(),
        !sim.model().started ==> all_cleared(sim.model().pending),
{
    sim.lemma_distinct();
}

/// An action of distance 0 keeps its agent where it is, whatever its direction.
pub proof fn lemma_staying_keeps_place(
    positions: Seq<GridPos>,
    i: int,
    m: Move,
    width: u32,
    height: u32,
)
    requires
        m.distance == 0,
    ensures
        moved(positions, i, m, width, height) == positions,
{
}

/// Readiness reports a run as ready exactly when an advance would succeed: when it is
/// collecting and no agent is missing an action.
pub proof fn lemma_ready_status_iff_advance(v: SimView, status: Status)
    requires
        status_of(v, status),
    ensures
        (status matches Status::Collecting { missing } && missing@.len() == 0) <==> v.ready(),
{
}

/// The order in which actions were submitted does not affect the step: with two accepted
/// submissions for different agents, the world after the step is the same whichever came
/// first. Submissions leave the shuffle stream as it was, so the execution order is the same.
pub proof fn lemma_step_ignores_submission_order(v: SimView, s: RngState, a: Submission, b: Submission)
    requires
        v.pending.len() == v.positions.len(),
        v.submit_result(a) is Ok,
        v.submit_result(b) is Ok,
        a.agent != b.agent,
    ensures
        ({
            let ab = v.after_submit(a).after_submit(b);
            let ba = v.after_submit(b).after_submit(a);
            ab.after_step(step_order(ab.positions.len(), s)) == ba.after_step(
                step_order(ba.positions.len(), s),
            )
        }),
{
    lemma_submission_order_is_irrelevant(v, a, b);
}

/// Random spawns are reproducible: from the same world and spawn stream, a random spawn
/// places its agent on the same cell and leaves the stream in the same state.
pub proof fn lemma_random_spawn_is_reproducible(
    v: SimView,
    s: RngState,
    first: SimView,
    first_stream: RngState,
    second: SimView,
    second_stream: RngState,
)
    requires
        random_spawn(v, s, first, first_stream),
        random_spawn(v, s, second, second_stream),
    ensures
        first == second,
        first_stream == second_stream,
{
}

/// The cell that agent `i + 1` moves to when its action takes it one step onto a cell of the
/// grid that no other agent stands on or moves to.
pub open spec fn free_target(
    positions: Seq<GridPos>,
    actions: Seq<Move>,
    i: int,
    width: u32,
    height: u32,
) -> Option<GridPos> {
    if actions[i].distance > 0 {
        match spec_neighbor(positions[i], actions[i].direction) {
            Some(t) => if in_bounds(t, width, height) && forall|k: int|
                0 <= k < positions.len() && k != i ==> positions[k] != t && !(
                actions[k].distance > 0 && spec_neighbor(positions[k], actions[k].direction)
                    == Some(t)) {
                Some(t)
            } else {
                None
            },
            None => None,
        }
    } else {
        None
    }
}

/// What a run of moves in an order without repeats does to each agent: an agent not yet in
/// the order stands where it stood, every agent stands on its old cell or one step in its
/// direction, and an agent in the order with a free target stands on it.
proof fn lemma_moves_in_order(
    positions: Seq<GridPos>,
    actions: Seq<Move>,
    order: Seq<AgentId>,
    width: u32,
    height: u32,
)
    requires
        order.no_duplicates(),
        forall|k: int| 0 <= k < order.len() ==> 1 <= (#[trigger] order[k]).0 <= positions.len(),
        actions.len() == positions.len(),
        positions.len() <= usize::MAX,
    ensures
        run_moves(positions, actions, order, width, height).len() == positions.len(),
        forall|i: int|
            #![trigger run_moves(positions, actions, order, width, height)[i]]
            0 <= i < positions.len() ==> {
                let after = run_moves(positions, actions, order, width, height)[i];
                &&& !order.contains(AgentId((i + 1) as u64)) ==> after == positions[i]
                &&& after == positions[i] || (actions[i].distance > 0 && spec_neighbor(
                    positions[i],
                    actions[i].direction,
                ) == Some(after))
                &&& order.contains(AgentId((i + 1) as u64)) && free_target(
                    positions,
                    actions,
                    i,
                    width,
                    height,
                ) is Some ==> Some(after) == free_target(positions, actions, i, width, height)
            },
    decreases order.len(),
{
    if order.len() > 0 {
        let p = order.drop_last();
        let last = order.last();
        assert(last == order[order.len() - 1]);
        assert forall|k: int| 0 <= k < p.len() implies 1 <= (#[trigger] p[k]).0 <= positions.len() by {
            assert(p[k] == order[k]);
        }
        assert(p.no_duplicates()) by {
            assert forall|a: int, b: int| 0 <= a < p.len() && 0 <= b < p.len() && a != b implies p[a]
                != p[b] by {
                assert(p[a] == order[a] && p[b] == order[b]);
            }
        }
        assert(!p.contains(last)) by {
            if p.contains(last) {
                let k = choose|k: int| 0 <= k < p.len() && p[k] == last;
                assert(order[k] == last);
            }
        }
        lemma_moves_in_order(positions, actions, p, width, height);
        let before = run_moves(positions, actions, p, width, height);
        let j = last.0 - 1;
        assert(AgentId((j + 1) as u64) == last);
        assert(before[j] == positions[j]);
        let after = run_moves(positions, actions, order, width, height);
        assert(after == moved(before, j, actions[j], width, height));
        assert forall|i: int| #![trigger after[i]] 0 <= i < positions.len() implies {
            let a = after[i];
            &&& !order.contains(AgentId((i + 1) as u64)) ==> a == positions[i]
            &&& a == positions[i] || (actions[i].distance > 0 && spec_neighbor(
                positions[i],
                actions[i].direction,
            ) == Some(a))
            &&& order.contains(AgentId((i + 1) as u64)) && free_target(
                positions,
                actions,
                i,
                width,
                height,
            ) is Some ==> Some(a) == free_target(positions, actions, i, width, height)
        } by {
            let id = AgentId((i + 1) as u64);
            assert(before[i] == run_moves(positions, actions, p, width, height)[i]);
            if i != j {
                assert(after[i] == before[i]);
                assert(id != last);
                if order.contains(id) {
                    let k = choose|k: int| 0 <= k < order.len() && order[k] == id;
                    assert(k != order.len() - 1);
                    assert(p[k] == id);
                }
                if p.contains(id) {
                    let k = choose|k: int| 0 <= k < p.len() && p[k] == id;
                    assert(order[k] == id);
                }
            } else {
                assert(order.contains(id)) by {
                    assert(order[order.len() - 1] == id);
                }
                if let Some(t) = free_target(positions, actions, i, width, height) {
                    assert forall|k: int| 0 <= k < before.len() implies before[k] != t by {
                        assert(before[k] == run_moves(positions, actions, p, width, height)[k]);
                        if k == i {
                            assert(before[k] == positions[k]);
                        }
                    }
                    assert(!occupied(before, t));
                    assert(after[i] == t);
                }
            }
        }
    }
}

/// A step moves each agent once: when the execution order lists every agent once, each
/// agent ends on its old cell or, with an action of distance 1 or more, on the adjacent
/// cell in its direction; an agent with a distance-0 action keeps its cell; and an agent
/// whose target cell is on the grid, with no other agent standing on it or moving to it,
/// ends on it.
pub proof fn lemma_each_agent_moves_once(
    positions: Seq<GridPos>,
    actions: Seq<Move>,
    order: Seq<AgentId>,
    width: u32,
    height: u32,
)
    requires
        order.to_multiset() == agent_ids(positions.len()).to_multiset(),
        actions.len() == positions.len(),
        positions.len() <= usize::MAX,
    ensures
        run_moves(positions, actions, order, width, height).len() == positions.len(),
        forall|i: int|
            #![trigger run_moves(positions, actions, order, width, height)[i]]
            0 <= i < positions.len() ==> {
                let after = run_moves(positions, actions, order, width, height)[i];
                &&& after == positions[i] || (actions[i].distance > 0 && spec_neighbor(
                    positions[i],
                    actions[i].direction,
                ) == Some(after))
                &&& actions[i].distance == 0 ==> after == positions[i]
                &&& free_target(positions, actions, i, width, height) is Some ==> Some(after)
                    == free_target(positions, actions, i, width, height)
            },
{
    let n = positions.len();
    let ids = agent_ids(n);
    assert(ids.no_duplicates()) by {
        assert forall|a: int, b: int| 0 <= a < ids.len() && 0 <= b < ids.len() && a != b implies ids[a]
            != ids[b] by {
            assert(ids[a].0 == a + 1 && ids[b].0 == b + 1);
        }
    }
    ids.lemma_multiset_has_no_duplicates();
    order.lemma_multiset_has_no_duplicates_conv();
    assert forall|k: int| 0 <= k < order.len() implies 1 <= (#[trigger] order[k]).0 <= n by {
        assert(order.to_multiset().count(order[k]) > 0);
        assert(ids.contains(order[k]));
        let j = choose|j: int| 0 <= j < ids.len() && ids[j] == order[k];
        assert(ids[j].0 == j + 1);
    }
    lemma_moves_in_order(positions, actions, order, width, height);
    assert forall|i: int| 0 <= i < n implies #[trigger] order.contains(AgentId((i + 1) as u64)) by {
        assert(ids[i] == AgentId((i + 1) as u64));
        assert(ids.to_multiset().count(ids[i]) > 0);
    }
}

/// A step draws its order from the shuffle stream and moves the stream on: the order is the
/// ChaCha8 shuffle of the agents in ID order at the stream's position, and the stream then
/// stands at the position that shuffle leaves, with the same seed and stream number.
pub proof fn lemma_step_draws_from_the_shuffle_stream(n: nat, s: RngState)
    ensures
        id_numbers(step_order(n, s)) == chacha_shuffle(
            s.seed,
            s.stream,
            s.word_pos,
            id_numbers(agent_ids(n)),
        ).0,
        after_shuffle(n, s).word_pos == chacha_shuffle(
            s.seed,
            s.stream,
            s.word_pos,
            id_numbers(agent_ids(n)),
        ).1,
        after_shuffle(n, s).seed == s.seed,
        after_shuffle(n, s).stream == s.stream,
{
    let drawn = chacha_shuffle(s.seed, s.stream, s.word_pos, id_numbers(agent_ids(n))).0;
    assert(id_numbers(step_order(n, s)) =~= drawn);
}

/// A random spawn draws from the spawn stream and moves it on: it draws an index below the
/// number of free cells at the stream's position, the new agent (the next ID) stands on the
/// free cell at that index, and the stream then stands at the position that draw leaves,
/// with the same seed and stream number. Nothing else in the world changes.
pub proof fn lemma_random_spawn_draws_from_the_stream(
    old: SimView,
    s: RngState,
    new: SimView,
    t: RngState,
)
    requires
        random_spawn(old, s, new, t),
    ensures
        ({
            let free = free_cells_of(old);
            let draw = chacha_below(s.seed, s.stream, s.word_pos, free.len() as usize);
            &&& t.word_pos == draw.1
            &&& t.seed == s.seed
            &&& t.stream == s.stream
            &&& new.positions.len() == old.positions.len() + 1
            &&& new.positions.last() == free[draw.0 as int]
            &&& new.positions.drop_last() == old.positions
            &&& new.pending == old.pending.push(None)
            &&& new.width == old.width && new.height == old.height
            &&& new.started == old.started && new.state == old.state
        }),
{
    assert(new.positions.drop_last() =~= old.positions);
}

/// The free-cell list that random spawns pick from holds exactly the free cells of the grid,
/// each once, in row-major order: every entry is on the grid and unoccupied, every
/// unoccupied cell of the grid is an entry, and the entries' row-major indices increase.
pub proof fn lemma_free_cells_are_the_free_cells(v: SimView)
    requires
        v.width > 0,
    ensures
        forall|k: int|
            0 <= k < free_cells_of(v).len() ==> in_bounds(#[trigger] free_cells_of(v)[k], v.width, v.height)
                && !occupied(v.positions, free_cells_of(v)[k]),
        forall|j: int, k: int|
            0 <= j < k < free_cells_of(v).len() ==> cell_of(#[trigger] free_cells_of(v)[j], v.width)
                < cell_of(#[trigger] free_cells_of(v)[k], v.width),
        forall|p: GridPos|
            in_bounds(p, v.width, v.height) && !occupied(v.positions, p) ==> #[trigger] free_cells_of(
                v,
            ).contains(p),
{
    lemma_free_cells_upto(v, v.cells() as nat);
    assert forall|p: GridPos| in_bounds(p, v.width, v.height) && !occupied(v.positions, p) implies #[trigger] free_cells_of(
        v,
    ).contains(p) by {
        lemma_cell_in_range(p, v.width, v.height);
        let k = cell_of(p, v.width);
        lemma_cell_at(k, v.width, v.height);
        lemma_cell_injective(p, cell_at(k, v.width), v.width);
    }
}

proof fn lemma_free_cells_upto(v: SimView, n: nat)
    requires
        v.width > 0,
        n <= v.cells(),
    ensures
        forall|k: int|
            0 <= k < free_cells_upto(v, n).len() ==> in_bounds(#[trigger] free_cells_upto(v, n)[k], v.width, v.height)
                && !occupied(v.positions, free_cells_upto(v, n)[k]) && cell_of(
                free_cells_upto(v, n)[k],
                v.width,
            ) < n,
        forall|j: int, k: int|
            0 <= j < k < free_cells_upto(v, n).len() ==> cell_of(#[trigger] free_cells_upto(v, n)[j], v.width)
                < cell_of(#[trigger] free_cells_upto(v, n)[k], v.width),
        forall|k: int|
            0 <= k < n && !occupied(v.positions, cell_at(k, v.width)) ==> #[trigger] free_cells_upto(
                v,
                n,
            ).contains(cell_at(k, v.width)),
    decreases n,
{
    if n > 0 {
        let m = (n - 1) as nat;
        lemma_free_cells_upto(v, m);
        lemma_cell_at(m as int, v.width, v.height);
        let rest = free_cells_upto(v, m);
        let list = free_cells_upto(v, n);
        let p = cell_at(m as int, v.width);
        assert forall|k: int|
            0 <= k < list.len() implies in_bounds(#[trigger] list[k], v.width, v.height) && !occupied(
                v.positions,
                list[k],
            ) && cell_of(list[k], v.width) < n by {
            if k < rest.len() {
                assert(list[k] == rest[k]);
            }
        }
        assert forall|j: int, k: int| 0 <= j < k < list.len() implies cell_of(
            #[trigger] list[j],
            v.width,
        ) < cell_of(#[trigger] list[k], v.width) by {
            assert(list[j] == rest[j]);
            if k < rest.len() {
                assert(list[k] == rest[k]);
            }
        }
        assert forall|k: int| 0 <= k < n && !occupied(v.positions, cell_at(k, v.width)) implies #[trigger] list.contains(
            cell_at(k, v.width),
        ) by {
            if k < m {
                assert(rest.contains(cell_at(k, v.width)));
                let i = choose|i: int| 0 <= i < rest.len() && rest[i] == cell_at(k, v.width);
                assert(list[i] == rest[i]);
            } else {
                assert(list[list.len() - 1] == p);
            }
        }
    }
}

/// Submissions are checked in the documented order, and the first failing check answers:
/// the run must have started, the agent must exist, the target must be the current state
/// (reported with both), the agent must not already have an action, and the action must be
/// within the movement budget. An accepted submission fills exactly the agent's slot with its
/// action; a rejected one changes nothing.
pub proof fn lemma_submission_checks_in_order(v: SimView, s: Submission)
    ensures
        !v.started ==> v.submit_result(s) == Err::<(), SubmitError>(SubmitError::NotStarted),
        v.started && !(1 <= s.agent.0 <= v.positions.len()) ==> v.submit_result(s) == Err::<
            (),
            SubmitError,
        >(SubmitError::UnknownAgent(s.agent)),
        v.started && 1 <= s.agent.0 <= v.positions.len() && s.target_state.0 != v.state
            ==> v.submit_result(s) == Err::<(), SubmitError>(
            SubmitError::WrongTargetState { expected: StateId(v.state), supplied: s.target_state },
        ),
        v.started && 1 <= s.agent.0 <= v.positions.len() && s.target_state.0 == v.state
            && v.pending[s.agent.0 - 1] is Some ==> v.submit_result(s) == Err::<(), SubmitError>(
            SubmitError::AlreadySubmitted(s.agent),
        ),
        v.started && 1 <= s.agent.0 <= v.positions.len() && s.target_state.0 == v.state
            && v.pending[s.agent.0 - 1] is None && s.action.distance > MOVEMENT_BUDGET
            ==> v.submit_result(s) == Err::<(), SubmitError>(
            SubmitError::DistanceExceedsBudget {
                distance: s.action.distance,
                budget: MOVEMENT_BUDGET,
            },
        ),
        v.started && 1 <= s.agent.0 <= v.positions.len() && s.target_state.0 == v.state
            && v.pending[s.agent.0 - 1] is None && s.action.distance <= MOVEMENT_BUDGET
            ==> v.submit_result(s) is Ok,
        v.submit_result(s) is Ok ==> v.after_submit(s).pending == v.pending.update(
            s.agent.0 - 1,
            Some(s.action),
        ) && v.after_submit(s).positions == v.positions && v.after_submit(s).state == v.state
            && v.after_submit(s).started == v.started,
        v.submit_result(s) is Err ==> v.after_submit(s) == v,
{
}

/// What a spawn is answered, in the documented order: after Start every spawn is refused as
/// not in setup; an explicit cell off the grid is out of bounds and an occupied one is
/// occupied; a random spawn on a full grid finds no free cell. A successful spawn gives the
/// next agent ID, puts the agent on its cell with no action, and changes nothing else; a
/// failed one changes nothing.
pub proof fn lemma_spawn_answers_in_order(
    old: SimView,
    placement: Placement,
    result: Result<AgentId, SpawnError>,
    new: SimView,
)
    requires
        spawn_outcome(old, placement, result, new),
    ensures
        old.started ==> result == Err::<AgentId, SpawnError>(SpawnError::NotInSetup),
        !old.started && (placement matches Placement::Cell(p) && !in_bounds(p, old.width, old.height))
            ==> result == Err::<AgentId, SpawnError>(SpawnError::OutOfBounds(placement->0)),
        !old.started && (placement matches Placement::Cell(p) && in_bounds(p, old.width, old.height)
            && occupied(old.positions, p)) ==> result == Err::<AgentId, SpawnError>(
            SpawnError::Occupied(placement->0),
        ),
        !old.started && placement is Random && old.positions.len() == old.cells() ==> result
            == Err::<AgentId, SpawnError>(SpawnError::NoFreeCell),
        result is Err ==> new == old,
        result matches Ok(a) ==> {
            &&& a == AgentId((old.positions.len() + 1) as u64)
            &&& !old.started
            &&& new.positions.len() == old.positions.len() + 1
            &&& new.positions.drop_last() == old.positions
            &&& in_bounds(new.positions.last(), old.width, old.height)
            &&& !occupied(old.positions, new.positions.last())
            &&& new.pending == old.pending.push(None)
            &&& new.width == old.width && new.height == old.height
            &&& new.started == old.started && new.state == old.state
        },
        result matches Ok(_) && placement is Cell ==> new.positions.last() == placement->0,
{
    if result is Ok {
        let p = match placement {
            Placement::Cell(p) => p,
            Placement::Random => choose|p: GridPos|
                in_bounds(p, old.width, old.height) && !occupied(old.positions, p) && new
                    == old.with_agent(p),
        };
        assert(new == old.with_agent(p));
        assert(new.positions.last() == p);
        assert(new.positions.drop_last() =~= old.positions);
    }
}

/// The agents missing an action are exactly those without one, in ascending ID order, each
/// once.
pub proof fn lemma_missing_agents_are_those_without_actions(pending: Seq<Option<Move>>)
    requires
        pending.len() <= usize::MAX,
    ensures
        forall|i: int|
            0 <= i < pending.len() ==> (#[trigger] missing_ids(pending).contains(AgentId((i + 1) as u64))
                <==> pending[i] is None),
        forall|k: int|
            0 <= k < missing_ids(pending).len() ==> 1 <= (#[trigger] missing_ids(pending)[k]).0
                <= pending.len(),
        forall|j: int, k: int|
            0 <= j < k < missing_ids(pending).len() ==> (#[trigger] missing_ids(pending)[j]).0
                < (#[trigger] missing_ids(pending)[k]).0,
    decreases pending.len(),
{
    if pending.len() > 0 {
        let init = pending.drop_last();
        lemma_missing_agents_are_those_without_actions(init);
        let rest = missing_ids(init);
        let all = missing_ids(pending);
        let n = pending.len();
        assert forall|k: int| 0 <= k < all.len() implies 1 <= (#[trigger] all[k]).0 <= n by {
            if k < rest.len() {
                assert(all[k] == rest[k]);
            }
        }
        assert forall|j: int, k: int| 0 <= j < k < all.len() implies (#[trigger] all[j]).0
            < (#[trigger] all[k]).0 by {
            assert(all[j] == rest[j]);
            if k < rest.len() {
                assert(all[k] == rest[k]);
            }
        }
        assert forall|i: int| 0 <= i < n implies (#[trigger] all.contains(AgentId((i + 1) as u64))
            <==> pending[i] is None) by {
            let id = AgentId((i + 1) as u64);
            if i < n - 1 {
                assert(init[i] == pending[i]);
                if rest.contains(id) {
                    let k = choose|k: int| 0 <= k < rest.len() && rest[k] == id;
                    assert(all[k] == rest[k]);
                }
                if all.contains(id) {
                    let k = choose|k: int| 0 <= k < all.len() && all[k] == id;
                    if k < rest.len() {
                        assert(all[k] == rest[k]);
                    } else {
                        assert(all[k] == AgentId(n as u64));
                    }
                }
            } else {
                if pending[i] is None {
                    assert(all[all.len() - 1] == id);
                } else {
                    if all.contains(id) {
                        let k = choose|k: int| 0 <= k < all.len() && all[k] == id;
                        assert(all[k] == rest[k]);
                    }
                }
            }
        }
    }
}

/// A step moves the world on by one state: the state number rises by one, every agent's
/// action is cleared, the agents stand where their moves in the given order leave them, and
/// the grid and phase stay.
pub proof fn lemma_step_moves_the_world_on(v: SimView, order: Seq<AgentId>)
    requires
        v.state < u64::MAX,
    ensures
        v.after_step(order).state == v.state + 1,
        v.after_step(order).pending.len() == v.pending.len(),
        forall|i: int| 0 <= i < v.pending.len() ==> #[trigger] v.after_step(order).pending[i] is None,
        v.after_step(order).positions == run_moves(
            v.positions,
            accepted_moves(v.pending),
            order,
            v.width,
            v.height,
        ),
        v.after_step(order).width == v.width,
        v.after_step(order).height == v.height,
        v.after_step(order).started == v.started,
{
}

} // verus!
