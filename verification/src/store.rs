//! The agents of a flock, as parallel arrays indexed by agent.

use crate::fixed::{MAX_AGENTS, MAX_COORDINATE, MAX_MAGNITUDE};
use crate::vector::{IntVector, Vector2};
use vstd::prelude::*;

verus! {

/// The model of a flock: position and velocity of each agent, by index.
pub struct FlockState {
    pub positions: Seq<IntVector>,
    pub velocities: Seq<IntVector>,
}

impl FlockState {
    /// The number of agents.
    pub open spec fn len(self) -> nat {
        self.positions.len()
    }

    /// Whether the flock fits the store: as many velocities as positions, no
    /// more than [`MAX_AGENTS`] of them, every position inside the world and
    /// every velocity component within [`MAX_MAGNITUDE`].
    pub open spec fn wf(self) -> bool {
        &&& self.positions.len() == self.velocities.len()
        &&& self.positions.len() <= MAX_AGENTS
        &&& forall|i: int|
            0 <= i < self.positions.len() ==> (#[trigger] self.positions[i]).within(
                MAX_COORDINATE as int,
            )
        &&& forall|i: int|
            0 <= i < self.velocities.len() ==> (#[trigger] self.velocities[i]).within(
                MAX_MAGNITUDE as int,
            )
    }
}

/// The models of a sequence of machine vectors.
pub open spec fn views(s: Seq<Vector2>) -> Seq<IntVector> {
    s.map_values(|v: Vector2| v@)
}

/// Why a flock was not accepted into a store.
#[derive(Clone, Copy, Debug, PartialEq, Eq, Structural)]
pub enum StoreError {
    /// There are not as many velocities as positions.
    LengthMismatch,
    /// There are more than [`MAX_AGENTS`] agents.
    TooManyAgents,
    /// A position lies outside the world.
    PositionOutOfRange,
    /// A velocity component exceeds [`MAX_MAGNITUDE`].
    VelocityOutOfRange,
}

/// The first reason, if any, not to accept a flock.
pub open spec fn store_rejection(positions: Seq<Vector2>, velocities: Seq<Vector2>) -> Option<
    StoreError,
> {
    if positions.len() != velocities.len() {
        Some(StoreError::LengthMismatch)
    } else if positions.len() > MAX_AGENTS {
        Some(StoreError::TooManyAgents)
    } else if exists|i: int|
        0 <= i < positions.len() && !(#[trigger] positions[i])@.within(MAX_COORDINATE as int) {
        Some(StoreError::PositionOutOfRange)
    } else if exists|i: int|
        0 <= i < velocities.len() && !(#[trigger] velocities[i])@.within(MAX_MAGNITUDE as int) {
        Some(StoreError::VelocityOutOfRange)
    } else {
        None
    }
}

/// Whether every vector of `s` has both components within `bound`.
fn all_within(s: &Vec<Vector2>, bound: i64) -> (r: bool)
    requires
        bound >= 0,
    ensures
        r <==> forall|i: int| 0 <= i < s.len() ==> (#[trigger] s[i])@.within(bound as int),
{
    let mut i: usize = 0;
    while i < s.len()
        invariant
            i <= s.len(),
            bound >= 0,
            forall|k: int| 0 <= k < i ==> (#[trigger] s[k])@.within(bound as int),
        decreases s.len() - i,
    {
        let v = s[i];
        if v.x < -bound || v.x > bound || v.y < -bound || v.y > bound {
            return false;
        }
        i += 1;
    }
    true
}

/// Position and velocity of each agent. The index of an agent never changes.
#[derive(Clone, Debug)]
pub struct AgentStore {
    positions: Vec<Vector2>,
    velocities: Vec<Vector2>,
}

impl View for AgentStore {
    type V = FlockState;

    closed spec fn view(&self) -> FlockState {
        FlockState { positions: views(self.positions@), velocities: views(self.velocities@) }
    }
}

impl AgentStore {
    /// Whether the store holds a well-formed flock.
    pub open spec fn wf(&self) -> bool {
        self@.wf()
    }

    /// A store without agents.
    pub fn new() -> (s: AgentStore)
        ensures
            s@.positions == Seq::<IntVector>::empty(),
            s@.velocities == Seq::<IntVector>::empty(),
            s.wf(),
    {
        AgentStore { positions: Vec::new(), velocities: Vec::new() }
    }

    /// A store of the agents given, or the reason why they do not fit.
    pub fn from_agents(positions: Vec<Vector2>, velocities: Vec<Vector2>) -> (r: Result<
        AgentStore,
        StoreError,
    >)
        ensures
            match r {
                Ok(s) => {
                    &&& store_rejection(positions@, velocities@) is None
                    &&& s@.positions == views(positions@)
                    &&& s@.velocities == views(velocities@)
                    &&& s.wf()
                },
                Err(e) => store_rejection(positions@, velocities@) == Some(e),
            },
    {
        if positions.len() != velocities.len() {
            return Err(StoreError::LengthMismatch);
        }
        if positions.len() > MAX_AGENTS {
            return Err(StoreError::TooManyAgents);
        }
        if !all_within(&positions, MAX_COORDINATE) {
            return Err(StoreError::PositionOutOfRange);
        }
        if !all_within(&velocities, MAX_MAGNITUDE) {
            return Err(StoreError::VelocityOutOfRange);
        }
        Ok(AgentStore { positions, velocities })
    }

    /// The number of agents.
    pub fn len(&self) -> (n: usize)
        ensures
            n == self@.positions.len(),
    {
        self.positions.len()
    }

    /// The position of agent `i`.
    pub fn position(&self, i: usize) -> (p: Vector2)
        requires
            i < self@.positions.len(),
        ensures
            p@ == self@.positions[i as int],
    {
        self.positions[i]
    }

    /// The velocity of agent `i`.
    pub fn velocity(&self, i: usize) -> (v: Vector2)
        requires
            i < self@.velocities.len(),
        ensures
            v@ == self@.velocities[i as int],
    {
        self.velocities[i]
    }

    /// Replaces the position of agent `i`.
    pub fn set_position(&mut self, i: usize, p: Vector2)
        requires
            old(self).wf(),
            i < old(self)@.positions.len(),
            p@.within(MAX_COORDINATE as int),
        ensures
            final(self)@.positions == old(self)@.positions.update(i as int, p@),
            final(self)@.velocities == old(self)@.velocities,
            final(self).wf(),
    {
        self.positions[i] = p;
        assert(views(self.positions@) =~= views(old(self).positions@).update(i as int, p@));
    }

    /// Replaces the velocity of agent `i`.
    pub fn set_velocity(&mut self, i: usize, v: Vector2)
        requires
            old(self).wf(),
            i < old(self)@.velocities.len(),
            v@.within(MAX_MAGNITUDE as int),
        ensures
            final(self)@.velocities == old(self)@.velocities.update(i as int, v@),
            final(self)@.positions == old(self)@.positions,
            final(self).wf(),
    {
        self.velocities[i] = v;
        assert(views(self.velocities@) =~= views(old(self).velocities@).update(i as int, v@));
    }

    /// Adds an agent behind the last one.
    pub fn push(&mut self, p: Vector2, v: Vector2)
        requires
            old(self).wf(),
            old(self)@.positions.len() < MAX_AGENTS,
            p@.within(MAX_COORDINATE as int),
            v@.within(MAX_MAGNITUDE as int),
        ensures
            final(self)@.positions == old(self)@.positions.push(p@),
            final(self)@.velocities == old(self)@.velocities.push(v@),
            final(self).wf(),
    {
        self.positions.push(p);
        self.velocities.push(v);
        assert(views(self.positions@) =~= views(old(self).positions@).push(p@));
        assert(views(self.velocities@) =~= views(old(self).velocities@).push(v@));
    }
}

} // verus!
