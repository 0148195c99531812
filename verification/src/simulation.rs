//! A running simulation: one configuration, one flock, and the place in the
//! random stream from which the next flock will be drawn.
//!
//! A tick clears the accumulators, sweeps the pairs, resolves the velocities
//! and moves the agents, in this order and without interruption: the
//! configuration and the flock change only between ticks.

use crate::accumulate::{
    alignment_sum, calculate_alignment, calculate_cohesion, calculate_separation, clear_alignment,
    clear_cohesion, clear_separation, cohesion_sum, neighbor_count, separation_sum, Alignment,
    Cohesion, Separation,
};
use crate::config::{ConfigError, SimulationConfig};
use crate::fixed::MAX_AGENTS;
use crate::integrate::{integrated_positions, move_boids};
use crate::resolve::{
    influence_of, resolved_velocity, speeds_in_range, target_view, update_boid_velocity,
    Influence,
};
use crate::spawn::{spawn_boids, spawned_flock, stream_words, Generator, WORDS_PER_AGENT};
use crate::store::{AgentStore, FlockState};
use crate::vector::{IntVector, Vector2};
use vstd::prelude::*;

verus! {

/// What the other agents of a flock contribute to the steering of agent `k`.
pub open spec fn flock_influence(s: FlockState, cfg: SimulationConfig, k: int) -> Influence {
    let sr = cfg.separation_radius as int;
    let vr = cfg.visible_radius as int;
    Influence {
        separation: separation_sum(s, sr, k),
        velocity_sum: alignment_sum(s, sr, vr, k),
        velocity_count: neighbor_count(s, sr, vr, k),
        position_sum: cohesion_sum(s, sr, vr, k),
        position_count: neighbor_count(s, sr, vr, k),
    }
}

/// The velocities of a flock after one tick.
pub open spec fn tick_velocities(
    s: FlockState,
    target: Option<IntVector>,
    cfg: SimulationConfig,
) -> Seq<IntVector> {
    Seq::new(
        s.len(),
        |k: int|
            resolved_velocity(
                s.velocities[k],
                s.positions[k],
                flock_influence(s, cfg, k),
                target,
                cfg,
            ),
    )
}

/// The flock after one tick: the new velocities come from the state before
/// the tick, the new positions from the old positions and the new velocities.
pub open spec fn tick_flock(
    s: FlockState,
    target: Option<IntVector>,
    cfg: SimulationConfig,
) -> FlockState {
    let velocities = tick_velocities(s, target, cfg);
    FlockState {
        positions: integrated_positions(FlockState { positions: s.positions, velocities }, cfg),
        velocities,
    }
}

/// The flock after `ticks` ticks toward the same target.
pub open spec fn run_flock(
    s: FlockState,
    ticks: nat,
    target: Option<IntVector>,
    cfg: SimulationConfig,
) -> FlockState
    decreases ticks,
{
    if ticks == 0 {
        s
    } else {
        tick_flock(run_flock(s, (ticks - 1) as nat, target, cfg), target, cfg)
    }
}

/// The model of a simulation.
pub struct SimulationState {
    pub config: SimulationConfig,
    pub flock: FlockState,
    /// The seed of the random stream.
    pub seed: u64,
    /// The number of words of the stream drawn so far.
    pub consumed: nat,
}

impl SimulationState {
    pub open spec fn wf(self) -> bool {
        &&& self.config.valid()
        &&& self.flock.wf()
    }
}

/// The state of a simulation that was started with `seed` and `n` agents.
pub open spec fn initial_state(seed: u64, n: nat, cfg: SimulationConfig) -> SimulationState {
    SimulationState {
        config: cfg,
        flock: spawned_flock(stream_words(seed, 0, WORDS_PER_AGENT as nat * n), n, cfg),
        seed,
        consumed: WORDS_PER_AGENT as nat * n,
    }
}

/// The seed and the place in its stream from which a restart draws: the
/// start of the stream of the seed given, or else where the current stream
/// was left.
pub open spec fn restart_origin(s: SimulationState, seed: Option<u64>) -> (u64, nat) {
    match seed {
        Some(fresh) => (fresh, 0nat),
        None => (s.seed, s.consumed),
    }
}

/// The state after a restart: as many agents as before, drawn anew under the
/// current configuration.
pub open spec fn restarted_state(s: SimulationState, seed: Option<u64>) -> SimulationState {
    let origin = restart_origin(s, seed);
    let count = WORDS_PER_AGENT as nat * s.flock.len();
    SimulationState {
        config: s.config,
        flock: spawned_flock(stream_words(origin.0, origin.1, count), s.flock.len(), s.config),
        seed: origin.0,
        consumed: origin.1 + count,
    }
}

/// Why a simulation was not started.
#[derive(Clone, Copy, Debug, PartialEq, Eq, Structural)]
pub enum SimulationError {
    /// The configuration is rejected.
    Config(ConfigError),
    /// There are more than [`MAX_AGENTS`] agents.
    TooManyAgents,
}

/// Whether the accumulators hold, for every agent, what a sweep over the
/// flock `s` under `cfg` leaves.
pub open spec fn accumulators_hold(
    separation: Seq<Separation>,
    alignment: Seq<Alignment>,
    cohesion: Seq<Cohesion>,
    s: FlockState,
    cfg: SimulationConfig,
) -> bool {
    &&& separation.len() == s.len()
    &&& alignment.len() == s.len()
    &&& cohesion.len() == s.len()
    &&& forall|k: int|
        0 <= k < s.len() ==> influence_of(#[trigger] separation[k], alignment[k], cohesion[k])
            == flock_influence(s, cfg, k)
}

/// Whether nothing has been added to any of the accumulators.
pub open spec fn accumulators_clear(
    separation: Seq<Separation>,
    alignment: Seq<Alignment>,
    cohesion: Seq<Cohesion>,
) -> bool {
    &&& forall|k: int| 0 <= k < separation.len() ==> (#[trigger] separation[k]).is_clear()
    &&& forall|k: int| 0 <= k < alignment.len() ==> (#[trigger] alignment[k]).is_clear()
    &&& forall|k: int| 0 <= k < cohesion.len() ==> (#[trigger] cohesion[k]).is_clear()
}

/// A simulation between two ticks.
pub struct Simulation {
    config: SimulationConfig,
    store: AgentStore,
    separation: Vec<Separation>,
    alignment: Vec<Alignment>,
    cohesion: Vec<Cohesion>,
    generator: Generator,
}

impl View for Simulation {
    type V = SimulationState;

    closed spec fn view(&self) -> SimulationState {
        SimulationState {
            config: self.config,
            flock: self.store@,
            seed: self.generator@.seed,
            consumed: self.generator@.consumed,
        }
    }
}

fn fresh_separation(n: usize) -> (acc: Vec<Separation>)
    ensures
        acc@.len() == n,
        forall|k: int| 0 <= k < acc@.len() ==> (#[trigger] acc@[k]).is_clear(),
{
    let mut acc: Vec<Separation> = Vec::new();
    let mut k: usize = 0;
    while k < n
        invariant
            k <= n,
            acc@.len() == k,
            forall|m: int| 0 <= m < acc@.len() ==> (#[trigger] acc@[m]).is_clear(),
        decreases n - k,
    {
        acc.push(Separation::new());
        k += 1;
    }
    acc
}

fn fresh_alignment(n: usize) -> (acc: Vec<Alignment>)
    ensures
        acc@.len() == n,
        forall|k: int| 0 <= k < acc@.len() ==> (#[trigger] acc@[k]).is_clear(),
{
    let mut acc: Vec<Alignment> = Vec::new();
    let mut k: usize = 0;
    while k < n
        invariant
            k <= n,
            acc@.len() == k,
            forall|m: int| 0 <= m < acc@.len() ==> (#[trigger] acc@[m]).is_clear(),
        decreases n - k,
    {
        acc.push(Alignment::new());
        k += 1;
    }
    acc
}

fn fresh_cohesion(n: usize) -> (acc: Vec<Cohesion>)
    ensures
        acc@.len() == n,
        forall|k: int| 0 <= k < acc@.len() ==> (#[trigger] acc@[k]).is_clear(),
{
    let mut acc: Vec<Cohesion> = Vec::new();
    let mut k: usize = 0;
    while k < n
        invariant
            k <= n,
            acc@.len() == k,
            forall|m: int| 0 <= m < acc@.len() ==> (#[trigger] acc@[m]).is_clear(),
        decreases n - k,
    {
        acc.push(Cohesion::new());
        k += 1;
    }
    acc
}

/// The state after one tick toward `target`.
pub open spec fn tick_state(s: SimulationState, target: Option<IntVector>) -> SimulationState {
    SimulationState {
        config: s.config,
        flock: tick_flock(s.flock, target, s.config),
        seed: s.seed,
        consumed: s.consumed,
    }
}

/// The state after `ticks` ticks toward `target`.
pub open spec fn run_state(
    s: SimulationState,
    ticks: nat,
    target: Option<IntVector>,
) -> SimulationState {
    SimulationState {
        config: s.config,
        flock: run_flock(s.flock, ticks, target, s.config),
        seed: s.seed,
        consumed: s.consumed,
    }
}

/// Position and velocity of one agent, as a reader of the state sees them.
#[derive(Clone, Copy, Debug, PartialEq, Eq, Structural)]
pub struct AgentState {
    pub position: Vector2,
    pub velocity: Vector2,
}

impl Simulation {
    /// Whether the simulation is in a state between two ticks.
    pub closed spec fn wf(&self) -> bool {
        &&& self@.wf()
        &&& self.generator.wf()
        &&& self.separation@.len() == self.store@.len()
        &&& self.alignment@.len() == self.store@.len()
        &&& self.cohesion@.len() == self.store@.len()
    }

    /// The separation accumulators, by agent, as the last sweep left them.
    pub closed spec fn separations(&self) -> Seq<Separation> {
        self.separation@
    }

    /// The alignment accumulators, by agent, as the last sweep left them.
    pub closed spec fn alignments(&self) -> Seq<Alignment> {
        self.alignment@
    }

    /// The cohesion accumulators, by agent, as the last sweep left them.
    pub closed spec fn cohesions(&self) -> Seq<Cohesion> {
        self.cohesion@
    }

    /// A well-formed simulation has a well-formed model, and one accumulator
    /// of each kind for every agent.
    pub proof fn lemma_wf(&self)
        requires
            self.wf(),
        ensures
            self@.wf(),
            self.separations().len() == self@.flock.len(),
            self.alignments().len() == self@.flock.len(),
            self.cohesions().len() == self@.flock.len(),
    {
    }

    /// A simulation of `n` agents drawn from the stream of `seed`, or the
    /// reason why it cannot start: a rejected configuration first, else too
    /// many agents.
    pub fn new(seed: u64, n: usize, cfg: SimulationConfig) -> (r: Result<
        Simulation,
        SimulationError,
    >)
        ensures
            match r {
                Ok(sim) => {
                    &&& cfg.valid()
                    &&& n <= MAX_AGENTS
                    &&& sim.wf()
                    &&& sim@ == initial_state(seed, n as nat, cfg)
                    &&& speeds_in_range(sim@.flock.velocities, cfg)
                    &&& accumulators_clear(sim.separations(), sim.alignments(), sim.cohesions())
                },
                Err(SimulationError::Config(e)) => cfg.rejection() == Some(e),
                Err(SimulationError::TooManyAgents) => cfg.valid() && n > MAX_AGENTS,
            },
    {
        match cfg.validate() {
            Err(e) => {
                return Err(SimulationError::Config(e));
            },
            Ok(_) => {},
        }
        if n > MAX_AGENTS {
            return Err(SimulationError::TooManyAgents);
        }
        let mut generator = Generator::new(seed);
        let store = spawn_boids(&mut generator, n, &cfg);
        Ok(
            Simulation {
                config: cfg,
                store,
                separation: fresh_separation(n),
                alignment: fresh_alignment(n),
                cohesion: fresh_cohesion(n),
                generator,
            },
        )
    }

    /// A simulation of the agents given, whose restarts will draw from the
    /// stream of `seed`; or the reason why the configuration is rejected.
    pub fn with_agents(store: AgentStore, seed: u64, cfg: SimulationConfig) -> (r: Result<
        Simulation,
        ConfigError,
    >)
        requires
            store.wf(),
        ensures
            match r {
                Ok(sim) => {
                    &&& cfg.valid()
                    &&& sim.wf()
                    &&& sim@ == (SimulationState { config: cfg, flock: store@, seed, consumed: 0 })
                    &&& accumulators_clear(sim.separations(), sim.alignments(), sim.cohesions())
                },
                Err(e) => cfg.rejection() == Some(e),
            },
    {
        match cfg.validate() {
            Err(e) => {
                return Err(e);
            },
            Ok(_) => {},
        }
        let n = store.len();
        Ok(
            Simulation {
                config: cfg,
                store,
                separation: fresh_separation(n),
                alignment: fresh_alignment(n),
                cohesion: fresh_cohesion(n),
                generator: Generator::new(seed),
            },
        )
    }

    /// The configuration under which the next tick will run.
    pub fn config(&self) -> (cfg: SimulationConfig)
        ensures
            cfg == self@.config,
    {
        self.config
    }

    /// The number of agents.
    pub fn len(&self) -> (n: usize)
        ensures
            n == self@.flock.len(),
    {
        self.store.len()
    }

    /// The seed of the random stream.
    pub fn seed(&self) -> (seed: u64)
        ensures
            seed == self@.seed,
    {
        self.generator.seed()
    }

    /// What the last sweep left in the separation accumulator of agent `i`.
    pub fn separation(&self, i: usize) -> (acc: Separation)
        requires
            self.wf(),
            i < self@.flock.len(),
        ensures
            acc == self.separations()[i as int],
    {
        self.separation[i]
    }

    /// What the last sweep left in the alignment accumulator of agent `i`.
    pub fn alignment(&self, i: usize) -> (acc: Alignment)
        requires
            self.wf(),
            i < self@.flock.len(),
        ensures
            acc == self.alignments()[i as int],
    {
        self.alignment[i]
    }

    /// What the last sweep left in the cohesion accumulator of agent `i`.
    pub fn cohesion(&self, i: usize) -> (acc: Cohesion)
        requires
            self.wf(),
            i < self@.flock.len(),
        ensures
            acc == self.cohesions()[i as int],
    {
        self.cohesion[i]
    }

    /// The position of agent `i`.
    pub fn position(&self, i: usize) -> (p: Vector2)
        requires
            self.wf(),
            i < self@.flock.len(),
        ensures
            p@ == self@.flock.positions[i as int],
    {
        self.store.position(i)
    }

    /// The velocity of agent `i`.
    pub fn velocity(&self, i: usize) -> (v: Vector2)
        requires
            self.wf(),
            i < self@.flock.len(),
        ensures
            v@ == self@.flock.velocities[i as int],
    {
        self.store.velocity(i)
    }

    /// Position and velocity of every agent, by index.
    pub fn snapshot(&self) -> (agents: Vec<AgentState>)
        requires
            self.wf(),
        ensures
            agents@.len() == self@.flock.len(),
            forall|k: int|
                0 <= k < agents@.len() ==> (#[trigger] agents@[k]).position@
                    == self@.flock.positions[k] && agents@[k].velocity@
                    == self@.flock.velocities[k],
    {
        let n = self.store.len();
        let mut agents: Vec<AgentState> = Vec::new();
        let mut k: usize = 0;
        while k < n
            invariant
                k <= n,
                self.wf(),
                n == self@.flock.len(),
                agents@.len() == k,
                forall|m: int|
                    0 <= m < k ==> (#[trigger] agents@[m]).position@ == self@.flock.positions[m]
                        && agents@[m].velocity@ == self@.flock.velocities[m],
            decreases n - k,
        {
            agents.push(
                AgentState { position: self.store.position(k), velocity: self.store.velocity(k) },
            );
            k += 1;
        }
        agents
    }

    /// Replaces the configuration, or rejects it and changes nothing.
    pub fn apply_config(&mut self, cfg: SimulationConfig) -> (r: Result<(), ConfigError>)
        requires
            old(self).wf(),
        ensures
            final(self).wf(),
            match r {
                Ok(_) => cfg.valid() && final(self)@ == (SimulationState {
                    config: cfg,
                    flock: old(self)@.flock,
                    seed: old(self)@.seed,
                    consumed: old(self)@.consumed,
                }),
                Err(e) => cfg.rejection() == Some(e) && final(self)@ == old(self)@,
            },
            final(self).separations() == old(self).separations(),
            final(self).alignments() == old(self).alignments(),
            final(self).cohesions() == old(self).cohesions(),
    {
        match cfg.validate() {
            Err(e) => Err(e),
            Ok(_) => {
                self.config = cfg;
                Ok(())
            },
        }
    }
}

impl Simulation {
    /// Runs one tick: clears the accumulators, sweeps the pairs, resolves the
    /// velocities toward `target` and moves the agents. The accumulators keep
    /// what the sweep over the flock before the tick left in them.
    pub fn tick(&mut self, target: Option<Vector2>)
        requires
            old(self).wf(),
        ensures
            final(self).wf(),
            final(self)@ == tick_state(old(self)@, target_view(target)),
            speeds_in_range(final(self)@.flock.velocities, final(self)@.config),
            accumulators_hold(
                final(self).separations(),
                final(self).alignments(),
                final(self).cohesions(),
                old(self)@.flock,
                old(self)@.config,
            ),
    {
        let ghost s0 = self.store@;
        let ghost cfg = self.config;
        let ghost t = target_view(target);
        clear_separation(&mut self.separation);
        clear_alignment(&mut self.alignment);
        clear_cohesion(&mut self.cohesion);
        calculate_separation(&self.store, self.config.separation_radius, &mut self.separation);
        calculate_alignment(
            &self.store,
            self.config.separation_radius,
            self.config.visible_radius,
            &mut self.alignment,
        );
        calculate_cohesion(
            &self.store,
            self.config.separation_radius,
            self.config.visible_radius,
            &mut self.cohesion,
        );
        update_boid_velocity(
            &mut self.store,
            &self.separation,
            &self.alignment,
            &self.cohesion,
            target,
            &self.config,
        );
        assert(self.store@.velocities =~= tick_velocities(s0, t, cfg));
        move_boids(&mut self.store, &self.config);
        assert(self.store@.positions =~= tick_flock(s0, t, cfg).positions);
    }

    /// Runs `ticks` ticks toward the same target. After at least one tick the
    /// accumulators keep what the sweep of the last tick left in them; without
    /// a tick nothing changes.
    pub fn run(&mut self, ticks: usize, target: Option<Vector2>)
        requires
            old(self).wf(),
        ensures
            final(self).wf(),
            final(self)@ == run_state(old(self)@, ticks as nat, target_view(target)),
            ticks > 0 ==> speeds_in_range(final(self)@.flock.velocities, final(self)@.config),
            ticks > 0 ==> accumulators_hold(
                final(self).separations(),
                final(self).alignments(),
                final(self).cohesions(),
                run_state(old(self)@, (ticks - 1) as nat, target_view(target)).flock,
                old(self)@.config,
            ),
            ticks == 0 ==> final(self).separations() == old(self).separations(),
            ticks == 0 ==> final(self).alignments() == old(self).alignments(),
            ticks == 0 ==> final(self).cohesions() == old(self).cohesions(),
    {
        let mut done: usize = 0;
        while done < ticks
            invariant
                done <= ticks,
                self.wf(),
                self@ == run_state(old(self)@, done as nat, target_view(target)),
                done > 0 ==> speeds_in_range(self@.flock.velocities, self@.config),
                done > 0 ==> accumulators_hold(
                    self.separations(),
                    self.alignments(),
                    self.cohesions(),
                    run_state(old(self)@, (done - 1) as nat, target_view(target)).flock,
                    old(self)@.config,
                ),
                done == 0 ==> self.separations() == old(self).separations(),
                done == 0 ==> self.alignments() == old(self).alignments(),
                done == 0 ==> self.cohesions() == old(self).cohesions(),
            decreases ticks - done,
        {
            self.tick(target);
            done += 1;
        }
    }

    /// Draws every agent anew, from the start of the stream of `seed` or, where
    /// none is given, from where the current stream was left. The number of
    /// agents, the configuration and the accumulators stay.
    pub fn restart(&mut self, seed: Option<u64>)
        requires
            old(self).wf(),
        ensures
            final(self).wf(),
            final(self)@ == restarted_state(old(self)@, seed),
            speeds_in_range(final(self)@.flock.velocities, final(self)@.config),
            final(self).separations() == old(self).separations(),
            final(self).alignments() == old(self).alignments(),
            final(self).cohesions() == old(self).cohesions(),
    {
        let n = self.store.len();
        match seed {
            Some(fresh) => {
                self.generator = Generator::new(fresh);
            },
            None => {},
        }
        self.store = spawn_boids(&mut self.generator, n, &self.config);
    }
}

} // verus!
