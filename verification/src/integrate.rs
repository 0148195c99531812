//! Moving every agent along its velocity for one tick.

use crate::config::{BoundaryPolicy, SimulationConfig};
use crate::fixed::{div_toward_zero, MAX_COORDINATE, MAX_MAGNITUDE, TICKS_PER_SECOND};
use crate::store::{AgentStore, FlockState};
use crate::vector::{IntVector, Vector2};
use vstd::prelude::*;

verus! {

/// The coordinate `c`, held back at the edge of the world.
pub open spec fn clamp_coordinate(c: int) -> int {
    if c > MAX_COORDINATE {
        MAX_COORDINATE as int
    } else if c < -MAX_COORDINATE {
        -MAX_COORDINATE
    } else {
        c
    }
}

/// The coordinate `c` brought into a box of side `size` around the origin by
/// whole multiples of `size`; unchanged where the box has no extent.
pub open spec fn wrap_coordinate(c: int, size: int) -> int {
    if size > 0 {
        (c + size / 2) % size - size / 2
    } else {
        c
    }
}

/// The position of an agent after moving from `p` with velocity `v` for one
/// tick, under the boundary policy of `cfg`.
pub open spec fn integrated_position(
    p: IntVector,
    v: IntVector,
    cfg: SimulationConfig,
) -> IntVector {
    let moved = IntVector {
        x: clamp_coordinate(p.x + div_toward_zero(v.x, TICKS_PER_SECOND as int)),
        y: clamp_coordinate(p.y + div_toward_zero(v.y, TICKS_PER_SECOND as int)),
    };
    match cfg.boundary {
        BoundaryPolicy::SoftMargin => moved,
        BoundaryPolicy::PeriodicWrap => IntVector {
            x: wrap_coordinate(moved.x, cfg.box_size as int),
            y: wrap_coordinate(moved.y, cfg.box_size as int),
        },
    }
}

/// The remainder of a negative number, from that of its magnitude.
proof fn lemma_negative_remainder(a: int, b: int)
    requires
        a < 0,
        b > 0,
    ensures
        a % b == if (-a) % b == 0 {
            0
        } else {
            b - (-a) % b
        },
{
    let q = (-a) / b;
    let r = (-a) % b;
    vstd::arithmetic::div_mod::lemma_fundamental_div_mod(-a, b);
    if r == 0 {
        assert(a == (-q) * b + 0) by (nonlinear_arith)
            requires
                -a == b * q + r,
                r == 0,
        ;
        vstd::arithmetic::div_mod::lemma_fundamental_div_mod_converse(a, b, -q, 0);
    } else {
        assert(a == (-q - 1) * b + (b - r)) by (nonlinear_arith)
            requires
                -a == b * q + r,
        ;
        vstd::arithmetic::div_mod::lemma_fundamental_div_mod_converse(a, b, -q - 1, b - r);
    }
}

fn move_axis(c: i64, v: i64) -> (r: i64)
    requires
        -MAX_COORDINATE <= c <= MAX_COORDINATE,
        -MAX_MAGNITUDE <= v <= MAX_MAGNITUDE,
    ensures
        r == clamp_coordinate(c + div_toward_zero(v as int, TICKS_PER_SECOND as int)),
        -MAX_COORDINATE <= r <= MAX_COORDINATE,
{
    let moved = c + v / TICKS_PER_SECOND;
    if moved > MAX_COORDINATE {
        MAX_COORDINATE
    } else if moved < -MAX_COORDINATE {
        -MAX_COORDINATE
    } else {
        moved
    }
}

fn wrap_axis(c: i64, size: i64) -> (r: i64)
    requires
        -MAX_COORDINATE <= c <= MAX_COORDINATE,
        0 <= size <= MAX_MAGNITUDE,
    ensures
        r == wrap_coordinate(c as int, size as int),
        -MAX_COORDINATE <= r <= MAX_COORDINATE,
{
    if size > 0 {
        let half = size / 2;
        let shifted = c + half;
        let rest = shifted % size;
        proof {
            if shifted < 0 {
                lemma_negative_remainder(shifted as int, size as int);
            }
        }
        let wrapped = if rest < 0 {
            rest + size
        } else {
            rest
        };
        wrapped - half
    } else {
        c
    }
}

/// The position of one agent after moving for one tick.
pub fn integrate_position(p: Vector2, v: Vector2, cfg: &SimulationConfig) -> (r: Vector2)
    requires
        p@.within(MAX_COORDINATE as int),
        v@.within(MAX_MAGNITUDE as int),
        cfg.valid(),
    ensures
        r@ == integrated_position(p@, v@, *cfg),
        r@.within(MAX_COORDINATE as int),
{
    let x = move_axis(p.x, v.x);
    let y = move_axis(p.y, v.y);
    match cfg.boundary {
        BoundaryPolicy::SoftMargin => Vector2 { x, y },
        BoundaryPolicy::PeriodicWrap => Vector2 {
            x: wrap_axis(x, cfg.box_size),
            y: wrap_axis(y, cfg.box_size),
        },
    }
}

/// The positions of a flock after every agent moved for one tick.
pub open spec fn integrated_positions(s: FlockState, cfg: SimulationConfig) -> Seq<IntVector> {
    Seq::new(s.len(), |k: int| integrated_position(s.positions[k], s.velocities[k], cfg))
}

/// Moves every agent along its velocity for one tick; velocities stay.
pub fn move_boids(store: &mut AgentStore, cfg: &SimulationConfig)
    requires
        old(store).wf(),
        cfg.valid(),
    ensures
        final(store).wf(),
        final(store)@.velocities == old(store)@.velocities,
        final(store)@.positions == integrated_positions(old(store)@, *cfg),
{
    let n = store.len();
    let ghost before = store@;
    let ghost goal = integrated_positions(before, *cfg);
    let mut k: usize = 0;
    while k < n
        invariant
            k <= n,
            n == before.len(),
            before.wf(),
            store.wf(),
            cfg.valid(),
            store@.velocities == before.velocities,
            store@.positions.len() == n,
            goal == integrated_positions(before, *cfg),
            forall|m: int| 0 <= m < k ==> #[trigger] store@.positions[m] == goal[m],
            forall|m: int| k <= m < n ==> #[trigger] store@.positions[m] == before.positions[m],
        decreases n - k,
    {
        let p = store.position(k);
        let v = store.velocity(k);
        proof {
            assert(before.velocities[k as int].within(MAX_MAGNITUDE as int));
            assert(before.positions[k as int].within(MAX_COORDINATE as int));
        }
        let r = integrate_position(p, v, cfg);
        store.set_position(k, r);
        k += 1;
    }
    assert(store@.positions =~= goal);
}

} // verus!
