//! The velocity of one agent after a tick: its old velocity, steered by its
//! neighbours, the attractor, the boundary and the agents too close, then
//! clamped to the speed range.

use crate::accumulate::{Alignment, Cohesion, Separation};
use crate::config::{BoundaryPolicy, SimulationConfig};
use crate::fixed::{
    lemma_div_toward_zero_bound, lemma_product_bound, scaled_product, MAX_COORDINATE,
    MAX_MAGNITUDE, MAX_SEPARATION_SUM, MAX_UNCLAMPED, ONE,
};
use crate::store::{AgentStore, FlockState};
use crate::vector::{dist_sq, lemma_scaled_to_length, IntVector, Vector2};
use vstd::prelude::*;

verus! {

/// What the other agents contribute to the steering of one agent.
pub struct Influence {
    /// The sum of the displacements away from the agents too close.
    pub separation: IntVector,
    /// The sum of the velocities of the neighbours, and their number.
    pub velocity_sum: IntVector,
    pub velocity_count: int,
    /// The sum of the positions of the neighbours, and their number.
    pub position_sum: IntVector,
    pub position_count: int,
}

/// The influence that three accumulators hold.
pub open spec fn influence_of(sep: Separation, align: Alignment, coh: Cohesion) -> Influence {
    Influence {
        separation: sep.displacement_sum@,
        velocity_sum: align.velocity_sum@,
        velocity_count: align.neighbor_count as int,
        position_sum: coh.position_sum@,
        position_count: coh.neighbor_count as int,
    }
}

/// The model of an optional target point.
pub open spec fn target_view(target: Option<Vector2>) -> Option<IntVector> {
    match target {
        Some(t) => Some(t@),
        None => None,
    }
}

/// Steers toward the mean velocity of the neighbours; without neighbours the
/// velocity stays.
pub open spec fn alignment_step(v: IntVector, inf: Influence, cfg: SimulationConfig) -> IntVector {
    if inf.velocity_count > 0 {
        v.plus(
            inf.velocity_sum.divided(inf.velocity_count).minus(v).scaled(
                cfg.coeff_alignment as int,
            ),
        )
    } else {
        v
    }
}

/// Steers toward the centroid of the neighbours; without neighbours the
/// velocity stays.
pub open spec fn cohesion_step(
    v: IntVector,
    p: IntVector,
    inf: Influence,
    cfg: SimulationConfig,
) -> IntVector {
    if inf.position_count > 0 {
        v.plus(
            inf.position_sum.divided(inf.position_count).minus(p).scaled(cfg.coeff_cohesion as int),
        )
    } else {
        v
    }
}

/// Whether a target at `t` attracts an agent at `p`: closer than the
/// attractor radius, and not at the very same point.
pub open spec fn attracts(t: IntVector, p: IntVector, cfg: SimulationConfig) -> bool {
    0 < dist_sq(t, p) < cfg.attractor_radius * cfg.attractor_radius
}

/// Steers toward the target, where there is one that attracts the agent.
pub open spec fn attractor_step(
    v: IntVector,
    p: IntVector,
    target: Option<IntVector>,
    cfg: SimulationConfig,
) -> IntVector {
    match target {
        Some(t) => if attracts(t, p, cfg) {
            v.plus(t.minus(p).scaled_to(ONE as int).scaled(cfg.coeff_attractor as int))
        } else {
            v
        },
        None => v,
    }
}

/// The push back toward the box along one axis, for a coordinate `c`.
pub open spec fn axis_bias(c: int, half: int, coeff: int) -> int {
    (if c < -half {
        coeff
    } else {
        0
    }) + (if c > half {
        -coeff
    } else {
        0
    })
}

/// Nudges the velocity of an agent outside the margins back toward the box,
/// under the soft-margin policy.
pub open spec fn boundary_step(v: IntVector, p: IntVector, cfg: SimulationConfig) -> IntVector {
    match cfg.boundary {
        BoundaryPolicy::SoftMargin => IntVector {
            x: v.x + axis_bias(p.x, cfg.half_extent(), cfg.coeff_boundary as int),
            y: v.y + axis_bias(p.y, cfg.half_extent(), cfg.coeff_boundary as int),
        },
        BoundaryPolicy::PeriodicWrap => v,
    }
}

/// Pushes away from the agents too close.
pub open spec fn separation_step(v: IntVector, inf: Influence, cfg: SimulationConfig) -> IntVector {
    v.plus(inf.separation.scaled(cfg.coeff_separation as int))
}

/// The velocity before its length is clamped.
pub open spec fn steered_velocity(
    v: IntVector,
    p: IntVector,
    inf: Influence,
    target: Option<IntVector>,
    cfg: SimulationConfig,
) -> IntVector {
    separation_step(
        boundary_step(
            attractor_step(cohesion_step(alignment_step(v, inf, cfg), p, inf, cfg), p, target, cfg),
            p,
            cfg,
        ),
        inf,
        cfg,
    )
}

/// The velocity of an agent after a tick.
pub open spec fn resolved_velocity(
    v: IntVector,
    p: IntVector,
    inf: Influence,
    target: Option<IntVector>,
    cfg: SimulationConfig,
) -> IntVector {
    steered_velocity(v, p, inf, target, cfg).clamped(cfg.min_speed as int, cfg.max_speed as int)
}

/// A fixed-point product is at most 1024 times its second factor, because no
/// first factor exceeds 1024.0.
pub proof fn lemma_scaled_product_bound(c: int, x: int, bound: int)
    requires
        -MAX_MAGNITUDE <= c <= MAX_MAGNITUDE,
        -bound <= x <= bound,
    ensures
        -(1024 * bound) <= scaled_product(c, x) <= 1024 * bound,
{
    lemma_product_bound(c, x, MAX_MAGNITUDE as int, bound);
    assert(MAX_MAGNITUDE * bound == (1024 * bound) * ONE) by (nonlinear_arith);
    lemma_div_toward_zero_bound(c * x, ONE as int, 1024 * bound);
}

/// The fixed-point product of a coefficient and a value.
fn scale(c: i64, x: i64) -> (r: i64)
    requires
        -MAX_MAGNITUDE <= c <= MAX_MAGNITUDE,
        -MAX_SEPARATION_SUM <= x <= MAX_SEPARATION_SUM,
    ensures
        r == scaled_product(c as int, x as int),
        -1024 * MAX_SEPARATION_SUM <= r <= 1024 * MAX_SEPARATION_SUM,
{
    proof {
        lemma_product_bound(c as int, x as int, MAX_MAGNITUDE as int, MAX_SEPARATION_SUM as int);
        lemma_scaled_product_bound(c as int, x as int, MAX_SEPARATION_SUM as int);
    }
    (((c as i128) * (x as i128)) / (ONE as i128)) as i64
}

/// A point whose offset along one axis is at least the radius is not closer
/// than the radius.
proof fn lemma_far_along_axis(dx: int, dy: int, r: int)
    by (nonlinear_arith)
    requires
        r >= 0,
        dx <= -r || dx >= r || dy <= -r || dy >= r,
    ensures
        dx * dx + dy * dy >= r * r,
{
}

/// The most that one steering step adds to a velocity component.
pub const MAX_STEP: i64 = 72_057_594_037_927_936;

fn steer_alignment(
    v: Vector2,
    align: &Alignment,
    cfg: &SimulationConfig,
    inf: Ghost<Influence>,
) -> (r: Vector2)
    requires
        v@.within(MAX_MAGNITUDE as int),
        align.wf(),
        cfg.valid(),
        inf@.velocity_sum == align.velocity_sum@,
        inf@.velocity_count == align.neighbor_count,
    ensures
        r@ == alignment_step(v@, inf@, *cfg),
        r@.within(MAX_MAGNITUDE + MAX_STEP),
{
    if align.neighbor_count > 0 {
        let count = align.neighbor_count as i64;
        proof {
            lemma_div_toward_zero_bound(
                align.velocity_sum.x as int,
                count as int,
                MAX_MAGNITUDE as int,
            );
            lemma_div_toward_zero_bound(
                align.velocity_sum.y as int,
                count as int,
                MAX_MAGNITUDE as int,
            );
        }
        let mean_x = align.velocity_sum.x / count;
        let mean_y = align.velocity_sum.y / count;
        Vector2 {
            x: v.x + scale(cfg.coeff_alignment, mean_x - v.x),
            y: v.y + scale(cfg.coeff_alignment, mean_y - v.y),
        }
    } else {
        v
    }
}

fn steer_cohesion(
    v: Vector2,
    p: Vector2,
    coh: &Cohesion,
    cfg: &SimulationConfig,
    inf: Ghost<Influence>,
) -> (r: Vector2)
    requires
        v@.within(MAX_MAGNITUDE + MAX_STEP),
        p@.within(MAX_COORDINATE as int),
        coh.wf(),
        cfg.valid(),
        inf@.position_sum == coh.position_sum@,
        inf@.position_count == coh.neighbor_count,
    ensures
        r@ == cohesion_step(v@, p@, inf@, *cfg),
        r@.within(MAX_MAGNITUDE + 2 * MAX_STEP),
{
    if coh.neighbor_count > 0 {
        let count = coh.neighbor_count as i64;
        proof {
            lemma_div_toward_zero_bound(
                coh.position_sum.x as int,
                count as int,
                MAX_COORDINATE as int,
            );
            lemma_div_toward_zero_bound(
                coh.position_sum.y as int,
                count as int,
                MAX_COORDINATE as int,
            );
        }
        let centre_x = coh.position_sum.x / count;
        let centre_y = coh.position_sum.y / count;
        Vector2 {
            x: v.x + scale(cfg.coeff_cohesion, centre_x - p.x),
            y: v.y + scale(cfg.coeff_cohesion, centre_y - p.y),
        }
    } else {
        v
    }
}

fn steer_attractor(
    v: Vector2,
    p: Vector2,
    target: Option<Vector2>,
    cfg: &SimulationConfig,
) -> (r: Vector2)
    requires
        v@.within(MAX_MAGNITUDE + 2 * MAX_STEP),
        p@.within(MAX_COORDINATE as int),
        cfg.valid(),
    ensures
        r@ == attractor_step(v@, p@, target_view(target), *cfg),
        r@.within(MAX_MAGNITUDE + 3 * MAX_STEP),
{
    match target {
        Some(t) => {
            let dx = (t.x as i128) - (p.x as i128);
            let dy = (t.y as i128) - (p.y as i128);
            let radius = cfg.attractor_radius as i128;
            if -radius < dx && dx < radius && -radius < dy && dy < radius {
                proof {
                    lemma_product_bound(
                        dx as int,
                        dx as int,
                        MAX_MAGNITUDE as int,
                        MAX_MAGNITUDE as int,
                    );
                    lemma_product_bound(
                        dy as int,
                        dy as int,
                        MAX_MAGNITUDE as int,
                        MAX_MAGNITUDE as int,
                    );
                    lemma_product_bound(
                        radius as int,
                        radius as int,
                        MAX_MAGNITUDE as int,
                        MAX_MAGNITUDE as int,
                    );
                }
                let d2 = dx * dx + dy * dy;
                if d2 > 0 && d2 < radius * radius {
                    let offset = Vector2 { x: dx as i64, y: dy as i64 };
                    proof {
                        lemma_scaled_to_length(offset@, ONE as int);
                    }
                    let toward = offset.with_length(ONE);
                    Vector2 {
                        x: v.x + scale(cfg.coeff_attractor, toward.x),
                        y: v.y + scale(cfg.coeff_attractor, toward.y),
                    }
                } else {
                    v
                }
            } else {
                proof {
                    lemma_far_along_axis(dx as int, dy as int, radius as int);
                }
                v
            }
        },
        None => v,
    }
}

fn steer_boundary(v: Vector2, p: Vector2, cfg: &SimulationConfig) -> (r: Vector2)
    requires
        v@.within(MAX_MAGNITUDE + 3 * MAX_STEP),
        cfg.valid(),
    ensures
        r@ == boundary_step(v@, p@, *cfg),
        r@.within(2 * MAX_MAGNITUDE + 3 * MAX_STEP),
{
    match cfg.boundary {
        BoundaryPolicy::SoftMargin => {
            let half = cfg.box_size / 2;
            let mut vx = v.x;
            let mut vy = v.y;
            if p.x < -half {
                vx = vx + cfg.coeff_boundary;
            }
            if p.x > half {
                vx = vx - cfg.coeff_boundary;
            }
            if p.y < -half {
                vy = vy + cfg.coeff_boundary;
            }
            if p.y > half {
                vy = vy - cfg.coeff_boundary;
            }
            Vector2 { x: vx, y: vy }
        },
        BoundaryPolicy::PeriodicWrap => v,
    }
}

fn steer_separation(
    v: Vector2,
    sep: &Separation,
    cfg: &SimulationConfig,
    inf: Ghost<Influence>,
) -> (r: Vector2)
    requires
        v@.within(2 * MAX_MAGNITUDE + 3 * MAX_STEP),
        sep.wf(),
        cfg.valid(),
        inf@.separation == sep.displacement_sum@,
    ensures
        r@ == separation_step(v@, inf@, *cfg),
        r@.within(MAX_UNCLAMPED as int),
{
    Vector2 {
        x: v.x + scale(cfg.coeff_separation, sep.displacement_sum.x),
        y: v.y + scale(cfg.coeff_separation, sep.displacement_sum.y),
    }
}

/// The velocity of one agent after a tick, from its old velocity `v`, its
/// position `p`, its three accumulators and the target.
pub fn resolve_velocity(
    v: Vector2,
    p: Vector2,
    sep: &Separation,
    align: &Alignment,
    coh: &Cohesion,
    target: Option<Vector2>,
    cfg: &SimulationConfig,
) -> (r: Vector2)
    requires
        v@.within(MAX_MAGNITUDE as int),
        p@.within(MAX_COORDINATE as int),
        sep.wf(),
        align.wf(),
        coh.wf(),
        cfg.valid(),
    ensures
        r@ == resolved_velocity(
            v@,
            p@,
            influence_of(*sep, *align, *coh),
            target_view(target),
            *cfg,
        ),
        r@.length_in(cfg.min_speed as int, cfg.max_speed as int),
        r@.within(MAX_MAGNITUDE as int),
{
    let inf = Ghost(influence_of(*sep, *align, *coh));
    let v1 = steer_alignment(v, align, cfg, inf);
    let v2 = steer_cohesion(v1, p, coh, cfg, inf);
    let v3 = steer_attractor(v2, p, target, cfg);
    let v4 = steer_boundary(v3, p, cfg);
    let v5 = steer_separation(v4, sep, cfg, inf);
    v5.clamp_length(cfg.min_speed, cfg.max_speed)
}

/// The velocities of a flock after a tick, from its state before the tick and
/// the accumulators of its agents.
pub open spec fn resolved_velocities(
    s: FlockState,
    separation: Seq<Separation>,
    alignment: Seq<Alignment>,
    cohesion: Seq<Cohesion>,
    target: Option<IntVector>,
    cfg: SimulationConfig,
) -> Seq<IntVector> {
    Seq::new(
        s.len(),
        |k: int|
            resolved_velocity(
                s.velocities[k],
                s.positions[k],
                influence_of(separation[k], alignment[k], cohesion[k]),
                target,
                cfg,
            ),
    )
}

/// Whether every velocity has its length within the speed range of `cfg`.
pub open spec fn speeds_in_range(velocities: Seq<IntVector>, cfg: SimulationConfig) -> bool {
    forall|k: int|
        0 <= k < velocities.len() ==> (#[trigger] velocities[k]).length_in(
            cfg.min_speed as int,
            cfg.max_speed as int,
        )
}

/// Gives every agent its velocity after the tick; positions stay.
pub fn update_boid_velocity(
    store: &mut AgentStore,
    separation: &Vec<Separation>,
    alignment: &Vec<Alignment>,
    cohesion: &Vec<Cohesion>,
    target: Option<Vector2>,
    cfg: &SimulationConfig,
)
    requires
        old(store).wf(),
        cfg.valid(),
        separation@.len() == old(store)@.len(),
        alignment@.len() == old(store)@.len(),
        cohesion@.len() == old(store)@.len(),
        forall|k: int| 0 <= k < separation@.len() ==> (#[trigger] separation@[k]).wf(),
        forall|k: int| 0 <= k < alignment@.len() ==> (#[trigger] alignment@[k]).wf(),
        forall|k: int| 0 <= k < cohesion@.len() ==> (#[trigger] cohesion@[k]).wf(),
    ensures
        final(store).wf(),
        final(store)@.positions == old(store)@.positions,
        final(store)@.velocities == resolved_velocities(
            old(store)@,
            separation@,
            alignment@,
            cohesion@,
            target_view(target),
            *cfg,
        ),
        speeds_in_range(final(store)@.velocities, *cfg),
{
    let n = store.len();
    let ghost before = store@;
    let ghost goal = resolved_velocities(
        before,
        separation@,
        alignment@,
        cohesion@,
        target_view(target),
        *cfg,
    );
    let mut k: usize = 0;
    while k < n
        invariant
            k <= n,
            n == before.len(),
            before.wf(),
            store.wf(),
            cfg.valid(),
            store@.positions == before.positions,
            store@.velocities.len() == n,
            separation@.len() == n,
            alignment@.len() == n,
            cohesion@.len() == n,
            forall|m: int| 0 <= m < separation@.len() ==> (#[trigger] separation@[m]).wf(),
            forall|m: int| 0 <= m < alignment@.len() ==> (#[trigger] alignment@[m]).wf(),
            forall|m: int| 0 <= m < cohesion@.len() ==> (#[trigger] cohesion@[m]).wf(),
            goal == resolved_velocities(
                before,
                separation@,
                alignment@,
                cohesion@,
                target_view(target),
                *cfg,
            ),
            forall|m: int| 0 <= m < k ==> #[trigger] store@.velocities[m] == goal[m],
            forall|m: int| k <= m < n ==> #[trigger] store@.velocities[m] == before.velocities[m],
            forall|m: int|
                0 <= m < k ==> (#[trigger] store@.velocities[m]).length_in(
                    cfg.min_speed as int,
                    cfg.max_speed as int,
                ),
        decreases n - k,
    {
        let v = store.velocity(k);
        let p = store.position(k);
        proof {
            assert(before.velocities[k as int].within(MAX_MAGNITUDE as int));
            assert(before.positions[k as int].within(MAX_COORDINATE as int));
            assert(separation@[k as int].wf());
            assert(alignment@[k as int].wf());
            assert(cohesion@[k as int].wf());
        }
        let r = resolve_velocity(v, p, &separation[k], &alignment[k], &cohesion[k], target, cfg);
        store.set_velocity(k, r);
        k += 1;
    }
    assert(store@.velocities =~= goal);
}

} // verus!
