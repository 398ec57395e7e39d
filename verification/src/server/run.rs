//! One run: its simulation, its sessions, and their timers. The application runs each run
//! as a task that hands commands here one at a time, which serializes all calls into the
//! simulation; times are milliseconds on the task's clock.

use vstd::prelude::*;

use crate::protocol::ids::{CatalogEntryId, RunId, SessionId, StateId};
use crate::protocol::message::RunPhase;
use crate::server::catalog::CatalogEntry;
use crate::server::config::ServerConfig;
use crate::server::random::{random_id, random_seed};
use crate::text::hex_digits;
use crate::sim::error::SpawnError;
use crate::sim::rng::RngState;
use crate::sim::simulation::{
    random_spawn, spawn_outcome, SimConfig, SimView, Simulation, SHUFFLE_STREAM, SPAWN_STREAM,
};
use crate::sim::types::{AgentId, Placement};

verus! {

/// The run's task has ended because the run was released.
#[derive(Debug, Clone, Copy, PartialEq, Eq, Structural)]
pub struct RunGone;

/// A session established by creating or joining a run.
#[derive(Debug)]
pub struct SessionInfo {
    pub session_id: SessionId,
    pub catalog_entry: CatalogEntryId,
    pub state_id: StateId,
    pub phase: RunPhase,
}

/// Why the run refused a Start.
#[derive(Debug, Clone, Copy, PartialEq, Eq, Structural)]
pub enum StartRejection {
    NotCreator,
    AlreadyStarted,
    NotEligible,
}

/// A session of the run, seen from outside.
pub struct SessionModel {
    pub id: Seq<char>,
    pub creator: bool,
    /// Agents this session owns, in spawn order.
    pub agents: Seq<AgentId>,
    /// When the session expires. Set only while it has no connection.
    pub expires_at: Option<u64>,
}

/// A run, seen from outside.
pub struct RunModel {
    pub id: Seq<char>,
    pub catalog_entry: Seq<char>,
    pub sim: SimView,
    pub sessions: Seq<SessionModel>,
    /// When the run is released. Set only while the run has no sessions.
    pub release_at: Option<u64>,
    pub config: ServerConfig,
}

/// Whether the run has a session with this ID.
pub open spec fn has_session(sessions: Seq<SessionModel>, id: Seq<char>) -> bool {
    exists|k: int| 0 <= k < sessions.len() && sessions[k].id == id
}

/// The position of the session with this ID.
pub open spec fn session_index(sessions: Seq<SessionModel>, id: Seq<char>) -> int {
    choose|k: int| 0 <= k < sessions.len() && sessions[k].id == id
}

/// No two sessions share an ID.
pub open spec fn distinct_sessions(sessions: Seq<SessionModel>) -> bool {
    forall|j: int, k: int|
        0 <= j < sessions.len() && 0 <= k < sessions.len() && j != k ==> sessions[j].id
            != sessions[k].id
}

/// The sessions with `s` added, replacing any session with the same ID.
pub open spec fn with_session(sessions: Seq<SessionModel>, s: SessionModel) -> Seq<SessionModel> {
    if has_session(sessions, s.id) {
        sessions.update(session_index(sessions, s.id), s)
    } else {
        sessions.push(s)
    }
}

/// Whether a session is still alive at `now`: connected, or disconnected with its expiry
/// still ahead.
pub open spec fn alive(s: SessionModel, now: u64) -> bool {
    match s.expires_at {
        Some(at) => now < at,
        None => true,
    }
}

/// The sessions alive at `now`, in order.
pub open spec fn alive_sessions(sessions: Seq<SessionModel>, now: u64) -> Seq<SessionModel>
    decreases sessions.len(),
{
    if sessions.len() == 0 {
        Seq::empty()
    } else {
        let rest = alive_sessions(sessions.drop_last(), now);
        if alive(sessions.last(), now) {
            rest.push(sessions.last())
        } else {
            rest
        }
    }
}

/// The release timer after expiring sessions at `now`: it starts when no session is left.
pub open spec fn release_after_expiry(m: RunModel, now: u64) -> Option<u64> {
    if alive_sessions(m.sessions, now).len() == 0 && m.release_at is None {
        Some((now + m.config.run_release) as u64)
    } else {
        m.release_at
    }
}

/// Whether expiring sessions at `now` releases the run: its release time has come.
pub open spec fn released_at(m: RunModel, now: u64) -> bool {
    release_after_expiry(m, now) matches Some(at) && at <= now
}

/// The earlier of two optional instants.
pub open spec fn earlier(a: Option<u64>, b: Option<u64>) -> Option<u64> {
    match (a, b) {
        (Some(x), Some(y)) => Some(if x <= y { x } else { y }),
        (Some(x), None) => Some(x),
        (None, y) => y,
    }
}

/// The earliest session expiry or, if earlier, `release`.
pub open spec fn earliest_deadline(sessions: Seq<SessionModel>, release: Option<u64>) -> Option<u64>
    decreases sessions.len(),
{
    if sessions.len() == 0 {
        release
    } else {
        earlier(earliest_deadline(sessions.drop_last(), release), sessions.last().expires_at)
    }
}

/// What a Start from session `id` is answered: creator authority first, then setup, then
/// eligibility (a run needs agents, as viewers do not exist yet).
pub open spec fn start_result(m: RunModel, id: Seq<char>) -> Result<(), StartRejection> {
    if !m.sessions[session_index(m.sessions, id)].creator {
        Err(StartRejection::NotCreator)
    } else if m.sim.started {
        Err(StartRejection::AlreadyStarted)
    } else if m.sim.positions.len() == 0 {
        Err(StartRejection::NotEligible)
    } else {
        Ok(())
    }
}

/// The phase a world is in.
pub open spec fn phase_of(sim: SimView) -> RunPhase {
    if sim.started {
        RunPhase::Started
    } else {
        RunPhase::Setup
    }
}

struct Session {
    id: SessionId,
    creator: bool,
    agents: Vec<AgentId>,
    expires_at: Option<u64>,
}

impl Session {
    spec fn model(&self) -> SessionModel {
        SessionModel {
            id: self.id@,
            creator: self.creator,
            agents: self.agents@,
            expires_at: self.expires_at,
        }
    }
}

/// One run: its simulation, its sessions, and its release timer.
pub struct Run {
    id: RunId,
    catalog_entry: CatalogEntryId,
    sim: Simulation,
    sessions: Vec<Session>,
    release_at: Option<u64>,
    config: ServerConfig,
    /// The seed the simulation was created with, kept for the server log.
    seed: u64,
}

impl Run {
    /// The run's state.
    pub closed spec fn model(&self) -> RunModel {
        RunModel {
            id: self.id@,
            catalog_entry: self.catalog_entry@,
            sim: self.sim.model(),
            sessions: Seq::new(self.sessions@.len(), |k: int| self.sessions@[k].model()),
            release_at: self.release_at,
            config: self.config,
        }
    }

    /// The catalog entry the run was created from.
    pub closed spec fn spec_catalog_entry(&self) -> CatalogEntryId {
        self.catalog_entry
    }

    /// The run's consistency: a well-formed simulation that has not stepped (runs do not
    /// advance yet), distinct session IDs, and a release timer only while no session is left.
    pub closed spec fn wf(&self) -> bool {
        &&& self.sim.wf()
        &&& self.sim.model().state == 0
        &&& distinct_sessions(self.model().sessions)
        &&& self.release_at is Some ==> self.sessions@.len() == 0
    }

    /// The run's ID.
    pub fn id(&self) -> (id: &RunId)
        ensures
            id@ == self.model().id,
    {
        &self.id
    }

    /// The simulation's spawn stream and shuffle stream.
    pub closed spec fn streams(&self) -> (RngState, RngState) {
        (self.sim.spawn_stream(), self.sim.shuffle_stream())
    }

    /// The seed the run's simulation was created with.
    pub closed spec fn spec_seed(&self) -> u64 {
        self.seed
    }

    /// The seed the run's simulation was created with.
    pub fn seed(&self) -> (seed: u64)
        ensures
            seed == self.spec_seed(),
    {
        self.seed
    }

    /// The run's timing configuration.
    pub fn config(&self) -> (config: ServerConfig)
        ensures
            config == self.model().config,
    {
        self.config
    }

    /// The run's phase.
    pub fn phase(&self) -> (phase: RunPhase)
        requires
            self.wf(),
        ensures
            phase == phase_of(self.model().sim),
    {
        if self.sim_started() {
            RunPhase::Started
        } else {
            RunPhase::Setup
        }
    }

    fn sim_started(&self) -> (started: bool)
        requires
            self.sim.wf(),
        ensures
            started == self.sim.model().started,
    {
        let readiness = self.sim.readiness();
        match readiness.status {
            crate::sim::types::Status::Setup => false,
            _ => true,
        }
    }

    /// The position of the session with ID `id`, if any.
    fn find(&self, id: &SessionId) -> (k: Option<usize>)
        requires
            distinct_sessions(self.model().sessions),
        ensures
            k matches Some(k) ==> k < self.sessions@.len() && self.model().sessions[k as int].id
                == id@ && session_index(self.model().sessions, id@) == k,
            k is None ==> !has_session(self.model().sessions, id@),
    {
        let n = self.sessions.len();
        let mut k: usize = 0;
        while k < n
            invariant
                n == self.sessions@.len(),
                k <= n,
                distinct_sessions(self.model().sessions),
                forall|j: int| 0 <= j < k ==> #[trigger] self.model().sessions[j].id != id@,
            decreases n - k,
        {
            if self.sessions[k].id.same_as(id) {
                proof {
                    let ss = self.model().sessions;
                    assert(ss[k as int].id == id@);
                    let c = session_index(ss, id@);
                    assert(ss[c].id == id@);
                    if c != k {
                        assert(ss[c].id != ss[k as int].id);
                    }
                }
                return Some(k);
            }
            k = k + 1;
        }
        None
    }

    /// Whether the run has a session with ID `id`.
    pub fn has_session(&self, id: &SessionId) -> (found: bool)
        requires
            self.wf(),
        ensures
            found == has_session(self.model().sessions, id@),
    {
        self.find(id).is_some()
    }

    /// Add a session with a fresh random ID and report it.
    fn add_session(&mut self, creator: bool) -> (info: SessionInfo)
        requires
            old(self).wf(),
            old(self).model().release_at is None,
        ensures
            final(self).wf(),
            final(self).model().sim == old(self).model().sim,
            final(self).model().release_at == old(self).model().release_at,
            final(self).model().sessions == with_session(
                old(self).model().sessions,
                SessionModel {
                    id: info.session_id@,
                    creator,
                    agents: Seq::empty(),
                    expires_at: None,
                },
            ),
            final(self).model().id == old(self).model().id,
            final(self).model().catalog_entry == old(self).model().catalog_entry,
            final(self).model().config == old(self).model().config,
            final(self).spec_catalog_entry() == old(self).spec_catalog_entry(),
            final(self).streams() == old(self).streams(),
            final(self).spec_seed() == old(self).spec_seed(),
            info.catalog_entry == old(self).spec_catalog_entry(),
            info.state_id@ == 0,
            info.phase == phase_of(old(self).model().sim),
            info.session_id@.len() == 32,
            exists|v: u128| info.session_id@ == hex_digits(v as nat, 32),
    {
        let session_id = SessionId::new(random_id()).unwrap();
        let phase = self.phase();
        let state_id = StateId::new(0).unwrap();
        let ghost old_ss = self.model().sessions;
        let session = Session {
            id: session_id.clone(),
            creator,
            agents: Vec::new(),
            expires_at: None,
        };
        match self.find(&session_id) {
            Some(k) => {
                let mut replaced = session;
                self.sessions.set_and_swap(k, &mut replaced);
                proof {
                    assert(self.model().sessions =~= old_ss.update(k as int, replaced_model(session_id@, creator)));
                }
            },
            None => {
                self.sessions.push(session);
                proof {
                    assert(self.model().sessions =~= old_ss.push(replaced_model(session_id@, creator)));
                }
            },
        }
        proof {
            let ss = self.model().sessions;
            assert(distinct_sessions(ss)) by {
                assert forall|j: int, k: int|
                    0 <= j < ss.len() && 0 <= k < ss.len() && j != k implies ss[j].id
                    != ss[k].id by {
                    if has_session(old_ss, session_id@) {
                        let c = session_index(old_ss, session_id@);
                        assert(ss[j].id == old_ss[j].id);
                        assert(ss[k].id == old_ss[k].id);
                    } else {
                        if j < old_ss.len() && k < old_ss.len() {
                            assert(ss[j] == old_ss[j]);
                            assert(ss[k] == old_ss[k]);
                        } else if j < old_ss.len() {
                            assert(ss[j] == old_ss[j]);
                        } else {
                            assert(ss[k] == old_ss[k]);
                        }
                    }
                }
            }
        }
        SessionInfo { session_id, catalog_entry: self.catalog_entry.clone(), state_id, phase }
    }
}

spec fn models(v: Seq<Session>) -> Seq<SessionModel> {
    Seq::new(v.len(), |k: int| v[k].model())
}

proof fn lemma_alive_sessions_sub(ss: Seq<SessionModel>, now: u64)
    ensures
        forall|i: int|
            0 <= i < alive_sessions(ss, now).len() ==> exists|j: int|
                0 <= j < ss.len() && #[trigger] alive_sessions(ss, now)[i] == ss[j],
        distinct_sessions(ss) ==> distinct_sessions(alive_sessions(ss, now)),
        alive_sessions(ss, now).len() <= ss.len(),
    decreases ss.len(),
{
    if ss.len() > 0 {
        let init = ss.drop_last();
        lemma_alive_sessions_sub(init, now);
        let a = alive_sessions(ss, now);
        let a0 = alive_sessions(init, now);
        assert forall|i: int| 0 <= i < a.len() implies exists|j: int|
            0 <= j < ss.len() && #[trigger] a[i] == ss[j] by {
            if i < a0.len() {
                assert(a[i] == a0[i]);
                let j = choose|j: int| 0 <= j < init.len() && a0[i] == init[j];
                assert(init[j] == ss[j]);
            } else {
                assert(a[i] == ss[ss.len() - 1]);
            }
        }
        if distinct_sessions(ss) {
            assert(distinct_sessions(init)) by {
                assert forall|j: int, k: int|
                    0 <= j < init.len() && 0 <= k < init.len() && j != k implies init[j].id
                    != init[k].id by {
                    assert(init[j] == ss[j] && init[k] == ss[k]);
                }
            }
            assert forall|j: int, k: int|
                0 <= j < a.len() && 0 <= k < a.len() && j != k implies a[j].id != a[k].id by {
                if j < a0.len() && k < a0.len() {
                    assert(a[j] == a0[j] && a[k] == a0[k]);
                } else if j < a0.len() {
                    assert(a[j] == a0[j]);
                    let jj = choose|jj: int| 0 <= jj < init.len() && a0[j] == init[jj];
                    assert(a[k] == ss[ss.len() - 1]);
                    assert(init[jj] == ss[jj]);
                } else {
                    assert(a[k] == a0[k]);
                    let kk = choose|kk: int| 0 <= kk < init.len() && a0[k] == init[kk];
                    assert(a[j] == ss[ss.len() - 1]);
                    assert(init[kk] == ss[kk]);
                }
            }
        }
    }
}

spec fn replaced_model(id: Seq<char>, creator: bool) -> SessionModel {
    SessionModel { id, creator, agents: Seq::empty(), expires_at: None }
}


/// Create a run from a catalog entry with a fresh random ID and a random seed, and establish
/// its creator's session. Returns the new run's ID, the run, and the creator's session.
pub fn create(catalog_entry: CatalogEntryId, entry: CatalogEntry, config: ServerConfig) -> (created: (
    RunId,
    Run,
    SessionInfo,
))
    requires
        entry.width > 0,
        entry.height > 0,
        entry.width as int * entry.height as int <= usize::MAX,
    ensures
        created.1.wf(),
        created.0@ == created.1.model().id,
        created.0@.len() == 32,
        exists|v: u128| created.0@ == hex_digits(v as nat, 32),
        exists|v: u128| created.2.session_id@ == hex_digits(v as nat, 32),
        created.1.model().catalog_entry == catalog_entry@,
        created.1.model().sim == (SimView {
            width: entry.width,
            height: entry.height,
            started: false,
            state: 0,
            positions: Seq::empty(),
            pending: Seq::empty(),
        }),
        created.1.model().sessions == seq![
            SessionModel {
                id: created.2.session_id@,
                creator: true,
                agents: Seq::empty(),
                expires_at: None,
            },
        ],
        created.1.model().release_at is None,
        created.1.model().config == config,
        created.1.streams() == (
            RngState { seed: created.1.spec_seed(), stream: SPAWN_STREAM, word_pos: 0 },
            RngState { seed: created.1.spec_seed(), stream: SHUFFLE_STREAM, word_pos: 0 },
        ),
        created.2.catalog_entry == catalog_entry,
        created.2.state_id@ == 0,
        created.2.phase == RunPhase::Setup,
{
    let id = RunId::new(random_id()).unwrap();
    let seed = random_seed();
    let sim = Simulation::new(SimConfig { width: entry.width, height: entry.height, seed }).unwrap();
    let mut run = Run {
        id: id.clone(),
        catalog_entry,
        sim,
        sessions: Vec::new(),
        release_at: None,
        config,
        seed,
    };
    proof {
        assert(run.model().sessions =~= Seq::<SessionModel>::empty());
    }
    let creator = run.add_session(true);
    proof {
        assert(!has_session(Seq::<SessionModel>::empty(), creator.session_id@));
        assert(run.model().sessions =~= seq![
            SessionModel {
                id: creator.session_id@,
                creator: true,
                agents: Seq::empty(),
                expires_at: None,
            },
        ]);
    }
    (id, run, creator)
}

impl Run {
    /// Establish a new non-creator session. A join cancels the release timer.
    pub fn join(&mut self) -> (info: SessionInfo)
        requires
            old(self).wf(),
        ensures
            final(self).wf(),
            final(self).model().release_at is None,
            final(self).model().sessions == with_session(
                old(self).model().sessions,
                SessionModel {
                    id: info.session_id@,
                    creator: false,
                    agents: Seq::empty(),
                    expires_at: None,
                },
            ),
            final(self).model().sim == old(self).model().sim,
            final(self).model().id == old(self).model().id,
            final(self).model().catalog_entry == old(self).model().catalog_entry,
            final(self).model().config == old(self).model().config,
            final(self).streams() == old(self).streams(),
            info.catalog_entry == old(self).spec_catalog_entry(),
            info.state_id@ == 0,
            info.phase == phase_of(old(self).model().sim),
    {
        self.release_at = None;
        self.add_session(false)
    }

    /// Spawn an agent owned by `session`.
    pub fn spawn(&mut self, session: &SessionId, placement: Placement) -> (result: Result<
        AgentId,
        SpawnError,
    >)
        requires
            old(self).wf(),
            has_session(old(self).model().sessions, session@),
        ensures
            final(self).wf(),
            spawn_outcome(old(self).model().sim, placement, result, final(self).model().sim),
            final(self).model().sessions == match result {
                Ok(agent) => {
                    let k = session_index(old(self).model().sessions, session@);
                    let s = old(self).model().sessions[k];
                    old(self).model().sessions.update(
                        k,
                        SessionModel { agents: s.agents.push(agent), ..s },
                    )
                },
                Err(_) => old(self).model().sessions,
            },
            final(self).model().release_at == old(self).model().release_at,
            final(self).model().id == old(self).model().id,
            final(self).model().catalog_entry == old(self).model().catalog_entry,
            final(self).model().config == old(self).model().config,
            final(self).spec_catalog_entry() == old(self).spec_catalog_entry(),
            final(self).streams().1 == old(self).streams().1,
            placement is Cell || result is Err ==> final(self).streams() == old(self).streams(),
            placement is Random && result is Ok ==> random_spawn(
                old(self).model().sim,
                old(self).streams().0,
                final(self).model().sim,
                final(self).streams().0,
            ),
    {
        let result = self.sim.spawn(placement);
        if let Ok(agent) = result {
            let k = self.find(session).unwrap();
            let ghost old_ss = self.model().sessions;
            let mut s = self.sessions.remove(k);
            s.agents.push(agent);
            self.sessions.insert(k, s);
            proof {
                let t = old_ss[k as int];
                assert(self.model().sessions =~= old_ss.update(
                    k as int,
                    SessionModel { agents: t.agents.push(agent), ..t },
                ));
                let ss = self.model().sessions;
                assert forall|j: int, i: int|
                    0 <= j < ss.len() && 0 <= i < ss.len() && j != i implies ss[j].id
                    != ss[i].id by {
                    assert(ss[j].id == old_ss[j].id && ss[i].id == old_ss[i].id);
                }
            }
        }
        result
    }

    /// Start the run on behalf of `session`.
    pub fn start(&mut self, session: &SessionId) -> (result: Result<(), StartRejection>)
        requires
            old(self).wf(),
            has_session(old(self).model().sessions, session@),
        ensures
            final(self).wf(),
            result == start_result(old(self).model(), session@),
            result is Ok ==> final(self).model().sim == (SimView {
                started: true,
                ..old(self).model().sim
            }),
            result is Err ==> final(self).model().sim == old(self).model().sim,
            final(self).model().sessions == old(self).model().sessions,
            final(self).model().release_at == old(self).model().release_at,
            final(self).model().id == old(self).model().id,
            final(self).model().catalog_entry == old(self).model().catalog_entry,
            final(self).model().config == old(self).model().config,
            final(self).spec_catalog_entry() == old(self).spec_catalog_entry(),
            final(self).streams() == old(self).streams(),
    {
        let k = self.find(session).unwrap();
        if !self.sessions[k].creator {
            return Err(StartRejection::NotCreator);
        }
        if self.sim_started() {
            return Err(StartRejection::AlreadyStarted);
        }
        // A run needs agents or connected viewers to start. Viewers do not exist yet, so a run
        // without agents is not eligible.
        if self.sim.agent_count() == 0 {
            return Err(StartRejection::NotEligible);
        }
        // Initial observations are delivered once observation messages exist.
        match self.sim.start() {
            Ok(_) => Ok(()),
            Err(_) => Err(StartRejection::AlreadyStarted),
        }
    }

    /// Report that `session` lost its connection at `now`: its expiry timer starts.
    pub fn disconnect(&mut self, session: &SessionId, now: u64)
        requires
            old(self).wf(),
            has_session(old(self).model().sessions, session@),
            now as int + old(self).model().config.session_expiry as int <= u64::MAX,
        ensures
            final(self).wf(),
            final(self).model().sessions == {
                let k = session_index(old(self).model().sessions, session@);
                let s = old(self).model().sessions[k];
                old(self).model().sessions.update(
                    k,
                    SessionModel {
                        expires_at: Some((now + old(self).model().config.session_expiry) as u64),
                        ..s
                    },
                )
            },
            final(self).model().sim == old(self).model().sim,
            final(self).model().release_at == old(self).model().release_at,
            final(self).model().id == old(self).model().id,
            final(self).model().catalog_entry == old(self).model().catalog_entry,
            final(self).model().config == old(self).model().config,
            final(self).spec_catalog_entry() == old(self).spec_catalog_entry(),
            final(self).streams() == old(self).streams(),
    {
        let k = self.find(session).unwrap();
        let ghost old_ss = self.model().sessions;
        let mut s = self.sessions.remove(k);
        s.expires_at = Some(now + self.config.session_expiry);
        self.sessions.insert(k, s);
        proof {
            let t = old_ss[k as int];
            assert(self.model().sessions =~= old_ss.update(
                k as int,
                SessionModel {
                    expires_at: Some((now + self.config.session_expiry) as u64),
                    ..t
                },
            ));
            let ss = self.model().sessions;
            assert forall|j: int, i: int|
                0 <= j < ss.len() && 0 <= i < ss.len() && j != i implies ss[j].id != ss[i].id by {
                assert(ss[j].id == old_ss[j].id && ss[i].id == old_ss[i].id);
            }
        }
    }

    /// Expire sessions and start the release timer as of `now`. Returns whether the run should
    /// be released.
    pub fn expire(&mut self, now: u64) -> (released: bool)
        requires
            old(self).wf(),
            now as int + old(self).model().config.run_release as int <= u64::MAX,
        ensures
            final(self).wf(),
            final(self).model().sessions == alive_sessions(old(self).model().sessions, now),
            final(self).model().release_at == release_after_expiry(old(self).model(), now),
            released == released_at(old(self).model(), now),
            final(self).model().sim == old(self).model().sim,
            final(self).model().id == old(self).model().id,
            final(self).model().catalog_entry == old(self).model().catalog_entry,
            final(self).model().config == old(self).model().config,
            final(self).spec_catalog_entry() == old(self).spec_catalog_entry(),
            final(self).streams() == old(self).streams(),
    {
        let ghost old_ss = self.model().sessions;
        let mut rest: Vec<Session> = Vec::new();
        std::mem::swap(&mut rest, &mut self.sessions);
        let n = rest.len();
        let mut k: usize = 0;
        proof {
            assert(models(rest@) =~= old_ss);
            assert(old_ss.take(0) =~= Seq::<SessionModel>::empty());
            assert(models(self.sessions@) =~= Seq::<SessionModel>::empty());
        }
        while rest.len() > 0
            invariant
                k + rest@.len() == n,
                n == old_ss.len(),
                self.config == old(self).config,
                self.release_at == old(self).release_at,
                self.sim == old(self).sim,
                self.id == old(self).id,
                self.catalog_entry == old(self).catalog_entry,
                models(rest@) == old_ss.skip(k as int),
                models(self.sessions@) == alive_sessions(old_ss.take(k as int), now),
            decreases rest@.len(),
        {
            let ghost before = rest@;
            let s = rest.remove(0);
            proof {
                assert(s.model() == old_ss[k as int]) by {
                    assert(models(before)[0] == old_ss.skip(k as int)[0]);
                }
                assert(old_ss.take(k + 1).drop_last() =~= old_ss.take(k as int));
                assert(models(rest@) =~= old_ss.skip(k + 1)) by {
                    assert forall|i: int| 0 <= i < rest@.len() implies models(rest@)[i]
                        == old_ss.skip(k + 1)[i] by {
                        assert(rest@[i] == before[i + 1]);
                        assert(models(before)[i + 1] == old_ss.skip(k as int)[i + 1]);
                    }
                }
            }
            let keep = match s.expires_at {
                Some(at) => now < at,
                None => true,
            };
            if keep {
                let ghost kept = self.sessions@;
                self.sessions.push(s);
                proof {
                    assert(models(self.sessions@) =~= models(kept).push(s.model()));
                }
            }
            k = k + 1;
        }
        proof {
            assert(old_ss.take(n as int) =~= old_ss);
            assert(self.model().sessions =~= models(self.sessions@));
            lemma_alive_sessions_sub(old_ss, now);
        }
        if self.sessions.len() == 0 && self.release_at.is_none() {
            self.release_at = Some(now + self.config.run_release);
        }
        match self.release_at {
            Some(at) => at <= now,
            None => false,
        }
    }

    /// The next instant at which a session expires or the run is released, if any.
    pub fn next_deadline(&self) -> (deadline: Option<u64>)
        requires
            self.wf(),
        ensures
            deadline == earliest_deadline(self.model().sessions, self.model().release_at),
    {
        let ghost ss = self.model().sessions;
        let n = self.sessions.len();
        let mut deadline = self.release_at;
        let mut k: usize = 0;
        proof {
            assert(ss.take(0) =~= Seq::<SessionModel>::empty());
        }
        while k < n
            invariant
                n == ss.len(),
                ss == self.model().sessions,
                k <= n,
                deadline == earliest_deadline(ss.take(k as int), self.model().release_at),
            decreases n - k,
        {
            proof {
                assert(ss.take(k + 1).drop_last() =~= ss.take(k as int));
            }
            let expires_at = self.sessions[k].expires_at;
            deadline = match (deadline, expires_at) {
                (Some(x), Some(y)) => Some(if x <= y { x } else { y }),
                (Some(x), None) => Some(x),
                (None, y) => y,
            };
            k = k + 1;
        }
        proof {
            assert(ss.take(n as int) =~= ss);
        }
        deadline
    }
}

/// Only the creator's session can start a run, and Start never succeeds twice or on a run
/// without agents.
pub proof fn lemma_only_the_creator_starts(m: RunModel, id: Seq<char>)
    requires
        start_result(m, id) is Ok,
    ensures
        m.sessions[session_index(m.sessions, id)].creator,
        !m.sim.started,
        m.sim.positions.len() > 0,
{
}

/// A run with a session that is still alive (connected, or disconnected and not yet
/// expired) is never released.
pub proof fn lemma_alive_session_keeps_run(m: RunModel, now: u64, k: int)
    requires
        m.release_at is Some ==> m.sessions.len() == 0,
        0 <= k < m.sessions.len(),
        alive(m.sessions[k], now),
    ensures
        !released_at(m, now),
        release_after_expiry(m, now) is None,
{
    lemma_alive_session_survives(m.sessions, now, k);
}

proof fn lemma_alive_session_survives(ss: Seq<SessionModel>, now: u64, k: int)
    requires
        0 <= k < ss.len(),
        alive(ss[k], now),
    ensures
        alive_sessions(ss, now).len() > 0,
    decreases ss.len(),
{
    if k < ss.len() - 1 {
        lemma_alive_session_survives(ss.drop_last(), now, k);
    }
}

proof fn lemma_alive_sessions_are_alive(ss: Seq<SessionModel>, now: u64)
    ensures
        forall|i: int|
            0 <= i < alive_sessions(ss, now).len() ==> alive(#[trigger] alive_sessions(ss, now)[i], now),
    decreases ss.len(),
{
    if ss.len() > 0 {
        lemma_alive_sessions_are_alive(ss.drop_last(), now);
        let a = alive_sessions(ss, now);
        let a0 = alive_sessions(ss.drop_last(), now);
        assert forall|i: int| 0 <= i < a.len() implies alive(#[trigger] a[i], now) by {
            if i < a0.len() {
                assert(a[i] == a0[i]);
            }
        }
    }
}

proof fn lemma_alive_session_kept(ss: Seq<SessionModel>, now: u64, k: int)
    requires
        0 <= k < ss.len(),
        alive(ss[k], now),
    ensures
        exists|i: int| 0 <= i < alive_sessions(ss, now).len() && #[trigger] alive_sessions(ss, now)[i] == ss[k],
    decreases ss.len(),
{
    let a = alive_sessions(ss, now);
    if k == ss.len() - 1 {
        assert(a[a.len() - 1] == ss[k]);
    } else {
        let init = ss.drop_last();
        lemma_alive_session_kept(init, now, k);
        let a0 = alive_sessions(init, now);
        let i = choose|i: int| 0 <= i < a0.len() && #[trigger] a0[i] == init[k];
        assert(a[i] == a0[i]);
    }
}

/// Sessions expire on time: a session that disconnected at `t` is still in the run at any
/// expiry check before `t` plus the session expiry timeout, and is removed by any check at
/// or after it.
pub proof fn lemma_sessions_expire_on_time(
    sessions: Seq<SessionModel>,
    id: Seq<char>,
    t: u64,
    expiry: u64,
    now: u64,
)
    requires
        distinct_sessions(sessions),
        has_session(sessions, id),
        t + expiry <= u64::MAX,
    ensures
        ({
            let k = session_index(sessions, id);
            let after = sessions.update(
                k,
                SessionModel { expires_at: Some((t + expiry) as u64), ..sessions[k] },
            );
            has_session(alive_sessions(after, now), id) <==> now < t + expiry
        }),
{
    let k = session_index(sessions, id);
    let after = sessions.update(
        k,
        SessionModel { expires_at: Some((t + expiry) as u64), ..sessions[k] },
    );
    assert(distinct_sessions(after)) by {
        assert forall|j: int, i: int|
            0 <= j < after.len() && 0 <= i < after.len() && j != i implies after[j].id
            != after[i].id by {
            assert(after[j].id == sessions[j].id && after[i].id == sessions[i].id);
        }
    }
    let a = alive_sessions(after, now);
    if now < t + expiry {
        lemma_alive_session_kept(after, now, k);
        let i = choose|i: int| 0 <= i < a.len() && #[trigger] a[i] == after[k];
        assert(a[i].id == id);
    }
    if has_session(a, id) {
        let i = choose|i: int| 0 <= i < a.len() && a[i].id == id;
        lemma_alive_sessions_sub(after, now);
        lemma_alive_sessions_are_alive(after, now);
        let j = choose|j: int| 0 <= j < after.len() && #[trigger] a[i] == after[j];
        assert(j == k) by {
            if j != k {
                assert(after[j].id != after[k].id);
            }
        }
        assert(alive(a[i], now));
    }
}

/// A well-formed run is consistent: its catalog entry is the one its model reports, its
/// world has not stepped, its session IDs are distinct, and its release timer runs only
/// while no session is left.
pub proof fn lemma_run_is_consistent(run: &Run)
    requires
        run.wf(),
    ensures
        run.spec_catalog_entry()@ == run.model().catalog_entry,
        run.model().sim.state == 0,
        distinct_sessions(run.model().sessions),
        run.model().release_at is Some ==> run.model().sessions.len() == 0,
{
}

/// What a Start is answered, in the documented order: creator authority comes first, so a
/// session that is not the creator gets `NotCreator` whatever the phase and the agents; the
/// creator gets `AlreadyStarted` once the run has started, `NotEligible` in setup without
/// agents, and success in setup with agents.
pub proof fn lemma_start_answers_in_order(m: RunModel, id: Seq<char>)
    requires
        has_session(m.sessions, id),
    ensures
        ({
            let s = m.sessions[session_index(m.sessions, id)];
            &&& s.id == id
            &&& !s.creator ==> start_result(m, id) == Err::<(), StartRejection>(
                StartRejection::NotCreator,
            )
            &&& s.creator && m.sim.started ==> start_result(m, id) == Err::<(), StartRejection>(
                StartRejection::AlreadyStarted,
            )
            &&& s.creator && !m.sim.started && m.sim.positions.len() == 0 ==> start_result(m, id)
                == Err::<(), StartRejection>(StartRejection::NotEligible)
            &&& s.creator && !m.sim.started && m.sim.positions.len() > 0 ==> start_result(m, id)
                is Ok
        }),
{
}

/// An expiry check keeps exactly the sessions that are still alive: every session left is
/// alive and was there before, and every session that is alive is kept.
pub proof fn lemma_expiry_keeps_exactly_the_alive_sessions(sessions: Seq<SessionModel>, now: u64)
    ensures
        forall|i: int|
            0 <= i < alive_sessions(sessions, now).len() ==> alive(
                #[trigger] alive_sessions(sessions, now)[i],
                now,
            ) && sessions.contains(alive_sessions(sessions, now)[i]),
        forall|k: int|
            0 <= k < sessions.len() && alive(#[trigger] sessions[k], now) ==> alive_sessions(
                sessions,
                now,
            ).contains(sessions[k]),
        alive_sessions(sessions, now).len() <= sessions.len(),
{
    lemma_alive_sessions_are_alive(sessions, now);
    lemma_alive_sessions_sub(sessions, now);
    let a = alive_sessions(sessions, now);
    assert forall|i: int| 0 <= i < a.len() implies alive(#[trigger] a[i], now) && sessions.contains(
        a[i],
    ) by {
        let j = choose|j: int| 0 <= j < sessions.len() && #[trigger] a[i] == sessions[j];
    }
    assert forall|k: int| 0 <= k < sessions.len() && alive(#[trigger] sessions[k], now) implies a.contains(
        sessions[k],
    ) by {
        lemma_alive_session_kept(sessions, now, k);
    }
}

/// The release timer: an expiry check that leaves no session, with no timer running, starts
/// one that ends the run release timeout after the check; a running timer is kept; while a
/// session is left no timer starts. The run is released once its timer's time has come, so
/// with a positive timeout it is never released by the check that starts the timer.
pub proof fn lemma_release_timer(m: RunModel, now: u64)
    requires
        now + m.config.run_release <= u64::MAX,
    ensures
        m.release_at is Some ==> release_after_expiry(m, now) == m.release_at,
        m.release_at is None && alive_sessions(m.sessions, now).len() > 0 ==> release_after_expiry(
            m,
            now,
        ) is None,
        m.release_at is None && alive_sessions(m.sessions, now).len() == 0 ==> release_after_expiry(
            m,
            now,
        ) == Some((now + m.config.run_release) as u64),
        released_at(m, now) <==> (release_after_expiry(m, now) matches Some(at) && at <= now),
        m.release_at is None && m.config.run_release > 0 ==> !released_at(m, now),
{
}

/// The next deadline is the earliest pending instant: no deadline exactly when no session
/// has an expiry and no release timer runs; otherwise it is one of those instants and none
/// of them is earlier.
pub proof fn lemma_next_deadline_is_the_earliest(sessions: Seq<SessionModel>, release: Option<u64>)
    ensures
        earliest_deadline(sessions, release) is None <==> (release is None && forall|k: int|
            0 <= k < sessions.len() ==> (#[trigger] sessions[k]).expires_at is None),
        earliest_deadline(sessions, release) matches Some(d) ==> {
            &&& release matches Some(r) ==> d <= r
            &&& forall|k: int|
                0 <= k < sessions.len() ==> ((#[trigger] sessions[k]).expires_at matches Some(e)
                    ==> d <= e)
            &&& release == Some(d) || exists|k: int|
                0 <= k < sessions.len() && (#[trigger] sessions[k]).expires_at == Some(d)
        },
    decreases sessions.len(),
{
    if sessions.len() > 0 {
        let init = sessions.drop_last();
        lemma_next_deadline_is_the_earliest(init, release);
        let n = sessions.len() - 1;
        let last = sessions[n];
        assert(sessions.last() == last);
        assert forall|k: int| 0 <= k < init.len() implies #[trigger] init[k] == sessions[k] by {}
        let d0 = earliest_deadline(init, release);
        let d = earliest_deadline(sessions, release);
        assert(d == earlier(d0, last.expires_at));
        if d is None {
            assert forall|k: int| 0 <= k < sessions.len() implies (#[trigger] sessions[k]).expires_at
                is None by {
                if k < n {
                    assert(init[k].expires_at is None);
                }
            }
        } else {
            if release is None && forall|k: int|
                0 <= k < sessions.len() ==> (#[trigger] sessions[k]).expires_at is None {
                assert(last.expires_at is None);
                assert forall|k: int| 0 <= k < init.len() implies (#[trigger] init[k]).expires_at
                    is None by {
                    assert(sessions[k].expires_at is None);
                }
                assert(false);
            }
            let dd = d->0;
            assert forall|k: int|
                0 <= k < sessions.len() implies ((#[trigger] sessions[k]).expires_at matches Some(e)
                ==> dd <= e) by {
                if k < n {
                    assert(init[k] == sessions[k]);
                }
            }
            if release != Some(dd) {
                if last.expires_at == Some(dd) {
                    assert(sessions[n].expires_at == Some(dd));
                } else {
                    assert(d0 == Some(dd));
                    let k = choose|k: int| 0 <= k < init.len() && (#[trigger] init[k]).expires_at == Some(dd);
                    assert(sessions[k].expires_at == Some(dd));
                }
            }
        }
    }
}

} // verus!
