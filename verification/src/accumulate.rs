//! The three per-agent accumulators and the sweeps that fill them.
//!
//! Each sweep visits every unordered pair of agents once. A pair closer than
//! the separation radius pushes its two agents apart; a pair farther apart than
//! that, but closer than the visible radius, makes each a neighbour of the
//! other. A pair exactly one of the radii apart does neither.

use crate::fixed::{
    lemma_components_below, lemma_product_bound, MAX_AGENTS, MAX_COORDINATE, MAX_MAGNITUDE,
    MAX_SEPARATION_SUM,
};
use crate::pairs::{
    lemma_partial_all, lemma_partial_count, lemma_partial_dominated, lemma_partial_none,
    lemma_partial_row_end, lemma_partial_step, pair_sum, partial_sum, unit_term, Term,
};
use crate::store::{AgentStore, FlockState};
use crate::vector::{closer_than, dist_sq, farther_than, IntVector, Vector2};
use vstd::prelude::*;

verus! {

/// Whether agents `k` and `m` are close enough to push each other away.
pub open spec fn in_separation_band(s: FlockState, radius: int, k: int, m: int) -> bool {
    closer_than(s.positions[k], s.positions[m], radius)
}

/// Whether agents `k` and `m` see each other as neighbours: farther apart
/// than the separation radius and closer than the visible radius.
pub open spec fn in_neighbor_band(
    s: FlockState,
    separation_radius: int,
    visible_radius: int,
    k: int,
    m: int,
) -> bool {
    &&& farther_than(s.positions[k], s.positions[m], separation_radius)
    &&& closer_than(s.positions[k], s.positions[m], visible_radius)
}

/// The displacement by which agent `m` pushes agent `k` away.
pub open spec fn separation_term(s: FlockState, radius: int, k: int, m: int) -> IntVector {
    if in_separation_band(s, radius, k, m) {
        s.positions[k].minus(s.positions[m])
    } else {
        IntVector::zero()
    }
}

/// The x component of what `m` contributes to the separation sum of `k`.
pub open spec fn separation_x(s: FlockState, radius: int) -> Term {
    |k: int, m: int| separation_term(s, radius, k, m).x
}

/// The y component of what `m` contributes to the separation sum of `k`.
pub open spec fn separation_y(s: FlockState, radius: int) -> Term {
    |k: int, m: int| separation_term(s, radius, k, m).y
}

/// The sum of the displacements by which the others push agent `k` away.
pub open spec fn separation_sum(s: FlockState, radius: int, k: int) -> IntVector {
    IntVector {
        x: pair_sum(separation_x(s, radius), k, s.len() as int),
        y: pair_sum(separation_y(s, radius), k, s.len() as int),
    }
}

/// The sum of displacements that pushes one agent away from those too close.
#[derive(Clone, Copy, Debug, PartialEq, Eq, Structural)]
pub struct Separation {
    pub displacement_sum: Vector2,
}

impl Separation {
    /// Whether the sum is one that a sweep can have left.
    pub open spec fn wf(&self) -> bool {
        self.displacement_sum@.within(MAX_SEPARATION_SUM as int)
    }

    /// Whether nothing has been added.
    pub open spec fn is_clear(&self) -> bool {
        self.displacement_sum@ == IntVector::zero()
    }

    pub fn new() -> (a: Separation)
        ensures
            a.is_clear(),
            a.wf(),
    {
        Separation { displacement_sum: Vector2 { x: 0, y: 0 } }
    }
}

/// Whether a separation sweep that is about to visit `(i, j)` has left `acc`.
pub open spec fn separation_progress(
    acc: Seq<Separation>,
    s: FlockState,
    radius: int,
    i: int,
    j: int,
) -> bool {
    &&& acc.len() == s.len()
    &&& forall|k: int|
        0 <= k < acc.len() ==> (#[trigger] acc[k]).displacement_sum@ == (IntVector {
            x: partial_sum(separation_x(s, radius), i, j, k, s.len() as int),
            y: partial_sum(separation_y(s, radius), i, j, k, s.len() as int),
        })
}

/// The separation band is symmetric, and the two displacements of a pair are
/// opposite.
pub proof fn lemma_separation_symmetric(s: FlockState, radius: int, k: int, m: int)
    ensures
        in_separation_band(s, radius, k, m) == in_separation_band(s, radius, m, k),
        separation_term(s, radius, m, k) == separation_term(s, radius, k, m).negated(),
{
    lemma_dist_sq_symmetric(s.positions[k], s.positions[m]);
}

/// Distance does not depend on the order of the two points.
pub proof fn lemma_dist_sq_symmetric(a: IntVector, b: IntVector)
    ensures
        dist_sq(a, b) == dist_sq(b, a),
{
    assert((a.x - b.x) * (a.x - b.x) == (b.x - a.x) * (b.x - a.x)) by (nonlinear_arith);
    assert((a.y - b.y) * (a.y - b.y) == (b.y - a.y) * (b.y - a.y)) by (nonlinear_arith);
}

/// Every partial separation sum is within [`MAX_SEPARATION_SUM`].
proof fn lemma_separation_bound(s: FlockState, radius: int, i: int, j: int, k: int)
    requires
        s.wf(),
        0 <= radius <= MAX_MAGNITUDE,
        0 <= k < s.len(),
    ensures
        -MAX_SEPARATION_SUM <= partial_sum(separation_x(s, radius), i, j, k, s.len() as int)
            <= MAX_SEPARATION_SUM,
        -MAX_SEPARATION_SUM <= partial_sum(separation_y(s, radius), i, j, k, s.len() as int)
            <= MAX_SEPARATION_SUM,
{
    let n = s.len() as int;
    let tx = separation_x(s, radius);
    let ty = separation_y(s, radius);
    let w = unit_term();
    assert forall|m: int| 0 <= m < n implies 0 <= #[trigger] w(k, m) && -radius * w(k, m) <= tx(
        k,
        m,
    ) <= radius * w(k, m) && -radius * w(k, m) <= ty(k, m) <= radius * w(k, m) by {
        if in_separation_band(s, radius, k, m) {
            let d = s.positions[k].minus(s.positions[m]);
            lemma_components_below(d.x, d.y, radius);
        }
    }
    lemma_partial_dominated(tx, w, radius, i, j, k, n);
    lemma_partial_dominated(ty, w, radius, i, j, k, n);
    lemma_partial_count(w, i, j, k, n);
    let count = partial_sum(w, i, j, k, n);
    lemma_product_bound(radius, count, MAX_MAGNITUDE as int, MAX_AGENTS as int);
    assert(-radius * count == -(radius * count)) by (nonlinear_arith);
    assert(MAX_MAGNITUDE * MAX_AGENTS == MAX_SEPARATION_SUM);
}

/// Resets every separation accumulator.
pub fn clear_separation(acc: &mut Vec<Separation>)
    ensures
        final(acc)@.len() == old(acc)@.len(),
        forall|k: int| 0 <= k < final(acc)@.len() ==> (#[trigger] final(acc)@[k]).is_clear(),
{
    let n = acc.len();
    let mut k: usize = 0;
    while k < n
        invariant
            k <= n,
            acc@.len() == n,
            forall|m: int| 0 <= m < k ==> (#[trigger] acc@[m]).is_clear(),
        decreases n - k,
    {
        acc[k] = Separation::new();
        k += 1;
    }
}

/// Adds to each cleared accumulator the displacements from every other agent
/// that is closer than `radius`.
pub fn calculate_separation(store: &AgentStore, radius: i64, acc: &mut Vec<Separation>)
    requires
        store.wf(),
        0 <= radius <= MAX_MAGNITUDE,
        old(acc)@.len() == store@.len(),
        forall|k: int| 0 <= k < old(acc)@.len() ==> (#[trigger] old(acc)@[k]).is_clear(),
    ensures
        final(acc)@.len() == store@.len(),
        forall|k: int|
            0 <= k < final(acc)@.len() ==> (#[trigger] final(acc)@[k]).displacement_sum@
                == separation_sum(store@, radius as int, k),
        forall|k: int| 0 <= k < final(acc)@.len() ==> (#[trigger] final(acc)@[k]).wf(),
{
    let n = store.len();
    let ghost s = store@;
    let ghost r = radius as int;
    proof {
        lemma_product_bound(r, r, MAX_MAGNITUDE as int, MAX_MAGNITUDE as int);
    }
    let limit = (radius as i128) * (radius as i128);
    proof {
        assert forall|k: int| 0 <= k < acc@.len() implies (#[trigger] acc@[k]).displacement_sum@
            == (IntVector {
            x: partial_sum(separation_x(s, r), 0, 1, k, s.len() as int),
            y: partial_sum(separation_y(s, r), 0, 1, k, s.len() as int),
        }) by {
            assert(acc@[k].is_clear());
            lemma_partial_none(separation_x(s, r), k, s.len() as int);
            lemma_partial_none(separation_y(s, r), k, s.len() as int);
        }
    }
    let mut i: usize = 0;
    while i < n
        invariant
            i <= n,
            n == s.len(),
            s == store@,
            s.wf(),
            r == radius as int,
            0 <= r <= MAX_MAGNITUDE,
            limit == r * r,
            separation_progress(acc@, s, r, i as int, i + 1),
        decreases n - i,
    {
        let pi = store.position(i);
        let mut j: usize = i + 1;
        while j < n
            invariant
                i < j <= n,
                n == s.len(),
                s == store@,
                s.wf(),
                r == radius as int,
                0 <= r <= MAX_MAGNITUDE,
                limit == r * r,
                pi@ == s.positions[i as int],
                separation_progress(acc@, s, r, i as int, j as int),
            decreases n - j,
        {
            let pj = store.position(j);
            proof {
                assert(s.positions[i as int].within(MAX_COORDINATE as int));
                assert(s.positions[j as int].within(MAX_COORDINATE as int));
            }
            let dx = pi.x - pj.x;
            let dy = pi.y - pj.y;
            proof {
                lemma_product_bound(dx as int, dx as int, 2 * MAX_COORDINATE, 2 * MAX_COORDINATE);
                lemma_product_bound(dy as int, dy as int, 2 * MAX_COORDINATE, 2 * MAX_COORDINATE);
                assert(dx * dx >= 0 && dy * dy >= 0) by (nonlinear_arith);
            }
            let d2 = (dx as i128) * (dx as i128) + (dy as i128) * (dy as i128);
            proof {
                lemma_separation_symmetric(s, r, i as int, j as int);
                lemma_separation_bound(s, r, i as int, j + 1, i as int);
                lemma_separation_bound(s, r, i as int, j + 1, j as int);
                lemma_partial_step(separation_x(s, r), i as int, j as int, i as int, n as int);
                lemma_partial_step(separation_y(s, r), i as int, j as int, i as int, n as int);
                lemma_partial_step(separation_x(s, r), i as int, j as int, j as int, n as int);
                lemma_partial_step(separation_y(s, r), i as int, j as int, j as int, n as int);
            }
            if d2 < limit {
                let ai = acc[i].displacement_sum;
                acc[i] = Separation { displacement_sum: Vector2 { x: ai.x + dx, y: ai.y + dy } };
                let aj = acc[j].displacement_sum;
                acc[j] = Separation { displacement_sum: Vector2 { x: aj.x - dx, y: aj.y - dy } };
            }
            proof {
                assert forall|k: int|
                    0 <= k < acc@.len() implies (#[trigger] acc@[k]).displacement_sum@
                    == (IntVector {
                    x: partial_sum(separation_x(s, r), i as int, j + 1, k, s.len() as int),
                    y: partial_sum(separation_y(s, r), i as int, j + 1, k, s.len() as int),
                }) by {
                    lemma_partial_step(separation_x(s, r), i as int, j as int, k, n as int);
                    lemma_partial_step(separation_y(s, r), i as int, j as int, k, n as int);
                }
            }
            j += 1;
        }
        proof {
            assert forall|k: int| 0 <= k < acc@.len() implies (#[trigger] acc@[k]).displacement_sum@
                == (IntVector {
                x: partial_sum(separation_x(s, r), i + 1, i + 2, k, s.len() as int),
                y: partial_sum(separation_y(s, r), i + 1, i + 2, k, s.len() as int),
            }) by {
                lemma_partial_row_end(separation_x(s, r), i as int, n as int, k, n as int);
                lemma_partial_row_end(separation_y(s, r), i as int, n as int, k, n as int);
            }
        }
        i += 1;
    }
    proof {
        assert forall|k: int| 0 <= k < acc@.len() implies (#[trigger] acc@[k]).displacement_sum@
            == separation_sum(s, r, k) && acc@[k].wf() by {
            lemma_partial_all(separation_x(s, r), n as int, k, n as int);
            lemma_partial_all(separation_y(s, r), n as int, k, n as int);
            lemma_separation_bound(s, r, n as int, n + 1, k);
        }
    }
}

/// 1 where `m` is a neighbour of `k`, else 0.
pub open spec fn neighbor_unit(s: FlockState, separation_radius: int, visible_radius: int) -> Term {
    |k: int, m: int|
        if in_neighbor_band(s, separation_radius, visible_radius, k, m) {
            1int
        } else {
            0int
        }
}

/// The x component of `values[m]` where `m` is a neighbour of `k`, else 0.
pub open spec fn neighbor_x(
    s: FlockState,
    separation_radius: int,
    visible_radius: int,
    values: Seq<IntVector>,
) -> Term {
    |k: int, m: int|
        if in_neighbor_band(s, separation_radius, visible_radius, k, m) {
            values[m].x
        } else {
            0int
        }
}

/// The y component of `values[m]` where `m` is a neighbour of `k`, else 0.
pub open spec fn neighbor_y(
    s: FlockState,
    separation_radius: int,
    visible_radius: int,
    values: Seq<IntVector>,
) -> Term {
    |k: int, m: int|
        if in_neighbor_band(s, separation_radius, visible_radius, k, m) {
            values[m].y
        } else {
            0int
        }
}

/// The number of neighbours of agent `k`.
pub open spec fn neighbor_count(
    s: FlockState,
    separation_radius: int,
    visible_radius: int,
    k: int,
) -> int {
    pair_sum(neighbor_unit(s, separation_radius, visible_radius), k, s.len() as int)
}

/// The sum of `values[m]` over the neighbours `m` of agent `k`.
pub open spec fn neighbor_sum(
    s: FlockState,
    separation_radius: int,
    visible_radius: int,
    values: Seq<IntVector>,
    k: int,
) -> IntVector {
    IntVector {
        x: pair_sum(neighbor_x(s, separation_radius, visible_radius, values), k, s.len() as int),
        y: pair_sum(neighbor_y(s, separation_radius, visible_radius, values), k, s.len() as int),
    }
}

/// The sum of the velocities of the neighbours of agent `k`.
pub open spec fn alignment_sum(
    s: FlockState,
    separation_radius: int,
    visible_radius: int,
    k: int,
) -> IntVector {
    neighbor_sum(s, separation_radius, visible_radius, s.velocities, k)
}

/// The sum of the positions of the neighbours of agent `k`.
pub open spec fn cohesion_sum(
    s: FlockState,
    separation_radius: int,
    visible_radius: int,
    k: int,
) -> IntVector {
    neighbor_sum(s, separation_radius, visible_radius, s.positions, k)
}

/// The neighbour band is symmetric.
pub proof fn lemma_neighbor_symmetric(
    s: FlockState,
    separation_radius: int,
    visible_radius: int,
    k: int,
    m: int,
)
    ensures
        in_neighbor_band(s, separation_radius, visible_radius, k, m) == in_neighbor_band(
            s,
            separation_radius,
            visible_radius,
            m,
            k,
        ),
{
    lemma_dist_sq_symmetric(s.positions[k], s.positions[m]);
}

/// A partial neighbour count is at most the number of other agents, and a
/// partial neighbour sum is within `bound` times the count.
proof fn lemma_neighbor_bound(
    s: FlockState,
    sr: int,
    vr: int,
    values: Seq<IntVector>,
    bound: int,
    i: int,
    j: int,
    k: int,
)
    requires
        0 <= k < s.len(),
        values.len() == s.len(),
        bound >= 0,
        forall|m: int| 0 <= m < values.len() ==> (#[trigger] values[m]).within(bound),
    ensures
        ({
            let n = s.len() as int;
            let count = partial_sum(neighbor_unit(s, sr, vr), i, j, k, n);
            &&& 0 <= count <= n - 1
            &&& -(bound * count) <= partial_sum(neighbor_x(s, sr, vr, values), i, j, k, n) <= bound
                * count
            &&& -(bound * count) <= partial_sum(neighbor_y(s, sr, vr, values), i, j, k, n) <= bound
                * count
        }),
{
    let n = s.len() as int;
    let tx = neighbor_x(s, sr, vr, values);
    let ty = neighbor_y(s, sr, vr, values);
    let w = neighbor_unit(s, sr, vr);
    assert forall|m: int| 0 <= m < n implies 0 <= #[trigger] w(k, m) <= 1 && -bound * w(k, m)
        <= tx(k, m) <= bound * w(k, m) && -bound * w(k, m) <= ty(k, m) <= bound * w(k, m) by {
        assert(values[m].within(bound));
        let unit = w(k, m);
        assert(unit == 0 || unit == 1);
        assert(bound * unit == if unit == 1 {
            bound
        } else {
            0
        }) by (nonlinear_arith)
            requires
                unit == 0 || unit == 1,
        ;
        assert(-bound * unit == -(bound * unit)) by (nonlinear_arith);
    }
    lemma_partial_dominated(tx, w, bound, i, j, k, n);
    lemma_partial_dominated(ty, w, bound, i, j, k, n);
    lemma_partial_count(w, i, j, k, n);
    let count = partial_sum(w, i, j, k, n);
    assert(-bound * count == -(bound * count)) by (nonlinear_arith);
}

/// The sum of the velocities of the neighbours of one agent, and their number.
#[derive(Clone, Copy, Debug, PartialEq, Eq, Structural)]
pub struct Alignment {
    pub velocity_sum: Vector2,
    pub neighbor_count: u32,
}

impl Alignment {
    /// Whether the sum is one that a sweep can have left.
    pub open spec fn wf(&self) -> bool {
        &&& self.neighbor_count <= MAX_AGENTS
        &&& self.velocity_sum@.within(self.neighbor_count * MAX_MAGNITUDE)
    }

    /// Whether nothing has been added.
    pub open spec fn is_clear(&self) -> bool {
        self.velocity_sum@ == IntVector::zero() && self.neighbor_count == 0
    }

    pub fn new() -> (a: Alignment)
        ensures
            a.is_clear(),
            a.wf(),
    {
        Alignment { velocity_sum: Vector2 { x: 0, y: 0 }, neighbor_count: 0 }
    }
}

/// The sum of the positions of the neighbours of one agent, and their number.
#[derive(Clone, Copy, Debug, PartialEq, Eq, Structural)]
pub struct Cohesion {
    pub position_sum: Vector2,
    pub neighbor_count: u32,
}

impl Cohesion {
    /// Whether the sum is one that a sweep can have left.
    pub open spec fn wf(&self) -> bool {
        &&& self.neighbor_count <= MAX_AGENTS
        &&& self.position_sum@.within(self.neighbor_count * MAX_COORDINATE)
    }

    /// Whether nothing has been added.
    pub open spec fn is_clear(&self) -> bool {
        self.position_sum@ == IntVector::zero() && self.neighbor_count == 0
    }

    pub fn new() -> (a: Cohesion)
        ensures
            a.is_clear(),
            a.wf(),
    {
        Cohesion { position_sum: Vector2 { x: 0, y: 0 }, neighbor_count: 0 }
    }
}

/// Resets every alignment accumulator.
pub fn clear_alignment(acc: &mut Vec<Alignment>)
    ensures
        final(acc)@.len() == old(acc)@.len(),
        forall|k: int| 0 <= k < final(acc)@.len() ==> (#[trigger] final(acc)@[k]).is_clear(),
{
    let n = acc.len();
    let mut k: usize = 0;
    while k < n
        invariant
            k <= n,
            acc@.len() == n,
            forall|m: int| 0 <= m < k ==> (#[trigger] acc@[m]).is_clear(),
        decreases n - k,
    {
        acc[k] = Alignment::new();
        k += 1;
    }
}

/// Resets every cohesion accumulator.
pub fn clear_cohesion(acc: &mut Vec<Cohesion>)
    ensures
        final(acc)@.len() == old(acc)@.len(),
        forall|k: int| 0 <= k < final(acc)@.len() ==> (#[trigger] final(acc)@[k]).is_clear(),
{
    let n = acc.len();
    let mut k: usize = 0;
    while k < n
        invariant
            k <= n,
            acc@.len() == n,
            forall|m: int| 0 <= m < k ==> (#[trigger] acc@[m]).is_clear(),
        decreases n - k,
    {
        acc[k] = Cohesion::new();
        k += 1;
    }
}

/// Whether an alignment sweep that is about to visit `(i, j)` has left `acc`.
pub open spec fn alignment_progress(
    acc: Seq<Alignment>,
    s: FlockState,
    sr: int,
    vr: int,
    i: int,
    j: int,
) -> bool {
    &&& acc.len() == s.len()
    &&& forall|k: int|
        0 <= k < acc.len() ==> (#[trigger] acc[k]).velocity_sum@ == (IntVector {
            x: partial_sum(neighbor_x(s, sr, vr, s.velocities), i, j, k, s.len() as int),
            y: partial_sum(neighbor_y(s, sr, vr, s.velocities), i, j, k, s.len() as int),
        }) && acc[k].neighbor_count == partial_sum(
            neighbor_unit(s, sr, vr),
            i,
            j,
            k,
            s.len() as int,
        )
}

/// Adds to each cleared accumulator the velocity of every other agent that is
/// farther away than `separation_radius` and closer than `visible_radius`,
/// and counts those agents.
pub fn calculate_alignment(
    store: &AgentStore,
    separation_radius: i64,
    visible_radius: i64,
    acc: &mut Vec<Alignment>,
)
    requires
        store.wf(),
        0 <= separation_radius <= visible_radius <= MAX_MAGNITUDE,
        old(acc)@.len() == store@.len(),
        forall|k: int| 0 <= k < old(acc)@.len() ==> (#[trigger] old(acc)@[k]).is_clear(),
    ensures
        final(acc)@.len() == store@.len(),
        forall|k: int|
            0 <= k < final(acc)@.len() ==> (#[trigger] final(acc)@[k]).velocity_sum@
                == alignment_sum(
                store@,
                separation_radius as int,
                visible_radius as int,
                k,
            ) && final(acc)@[k].neighbor_count == neighbor_count(
                store@,
                separation_radius as int,
                visible_radius as int,
                k,
            ),
        forall|k: int| 0 <= k < final(acc)@.len() ==> (#[trigger] final(acc)@[k]).wf(),
{
    let n = store.len();
    let ghost s = store@;
    let ghost sr = separation_radius as int;
    let ghost vr = visible_radius as int;
    let ghost tx = neighbor_x(s, sr, vr, s.velocities);
    let ghost ty = neighbor_y(s, sr, vr, s.velocities);
    let ghost tc = neighbor_unit(s, sr, vr);
    proof {
        lemma_product_bound(sr, sr, MAX_MAGNITUDE as int, MAX_MAGNITUDE as int);
        lemma_product_bound(vr, vr, MAX_MAGNITUDE as int, MAX_MAGNITUDE as int);
    }
    let inner = (separation_radius as i128) * (separation_radius as i128);
    let outer = (visible_radius as i128) * (visible_radius as i128);
    proof {
        assert forall|k: int| 0 <= k < acc@.len() implies (#[trigger] acc@[k]).velocity_sum@
            == (IntVector {
            x: partial_sum(tx, 0, 1, k, s.len() as int),
            y: partial_sum(ty, 0, 1, k, s.len() as int),
        }) && acc@[k].neighbor_count == partial_sum(tc, 0, 1, k, s.len() as int) by {
            assert(acc@[k].is_clear());
            lemma_partial_none(tx, k, s.len() as int);
            lemma_partial_none(ty, k, s.len() as int);
            lemma_partial_none(tc, k, s.len() as int);
        }
    }
    let mut i: usize = 0;
    while i < n
        invariant
            i <= n,
            n == s.len(),
            s == store@,
            s.wf(),
            sr == separation_radius as int,
            vr == visible_radius as int,
            inner == sr * sr,
            outer == vr * vr,
            tx == neighbor_x(s, sr, vr, s.velocities),
            ty == neighbor_y(s, sr, vr, s.velocities),
            tc == neighbor_unit(s, sr, vr),
            alignment_progress(acc@, s, sr, vr, i as int, i + 1),
        decreases n - i,
    {
        let pi = store.position(i);
        let vi = store.velocity(i);
        let mut j: usize = i + 1;
        while j < n
            invariant
                i < j <= n,
                n == s.len(),
                s == store@,
                s.wf(),
                sr == separation_radius as int,
                vr == visible_radius as int,
                inner == sr * sr,
                outer == vr * vr,
                tx == neighbor_x(s, sr, vr, s.velocities),
                ty == neighbor_y(s, sr, vr, s.velocities),
                tc == neighbor_unit(s, sr, vr),
                pi@ == s.positions[i as int],
                vi@ == s.velocities[i as int],
                alignment_progress(acc@, s, sr, vr, i as int, j as int),
            decreases n - j,
        {
            let pj = store.position(j);
            let vj = store.velocity(j);
            proof {
                assert(s.positions[i as int].within(MAX_COORDINATE as int));
                assert(s.positions[j as int].within(MAX_COORDINATE as int));
            }
            let dx = pi.x - pj.x;
            let dy = pi.y - pj.y;
            proof {
                lemma_product_bound(dx as int, dx as int, 2 * MAX_COORDINATE, 2 * MAX_COORDINATE);
                lemma_product_bound(dy as int, dy as int, 2 * MAX_COORDINATE, 2 * MAX_COORDINATE);
                assert(dx * dx >= 0 && dy * dy >= 0) by (nonlinear_arith);
            }
            let d2 = (dx as i128) * (dx as i128) + (dy as i128) * (dy as i128);
            proof {
                lemma_neighbor_symmetric(s, sr, vr, i as int, j as int);
                let bound = MAX_MAGNITUDE as int;
                lemma_neighbor_bound(s, sr, vr, s.velocities, bound, i as int, j + 1, i as int);
                lemma_neighbor_bound(s, sr, vr, s.velocities, bound, i as int, j + 1, j as int);
                lemma_product_bound(
                    MAX_MAGNITUDE as int,
                    partial_sum(tc, i as int, j + 1, i as int, n as int),
                    MAX_MAGNITUDE as int,
                    MAX_AGENTS as int,
                );
                lemma_product_bound(
                    MAX_MAGNITUDE as int,
                    partial_sum(tc, i as int, j + 1, j as int, n as int),
                    MAX_MAGNITUDE as int,
                    MAX_AGENTS as int,
                );
                lemma_partial_step(tx, i as int, j as int, i as int, n as int);
                lemma_partial_step(ty, i as int, j as int, i as int, n as int);
                lemma_partial_step(tc, i as int, j as int, i as int, n as int);
                lemma_partial_step(tx, i as int, j as int, j as int, n as int);
                lemma_partial_step(ty, i as int, j as int, j as int, n as int);
                lemma_partial_step(tc, i as int, j as int, j as int, n as int);
            }
            if d2 > inner && d2 < outer {
                let ai = acc[i];
                acc[i] = Alignment {
                    velocity_sum: Vector2 {
                        x: ai.velocity_sum.x + vj.x,
                        y: ai.velocity_sum.y + vj.y,
                    },
                    neighbor_count: ai.neighbor_count + 1,
                };
                let aj = acc[j];
                acc[j] = Alignment {
                    velocity_sum: Vector2 {
                        x: aj.velocity_sum.x + vi.x,
                        y: aj.velocity_sum.y + vi.y,
                    },
                    neighbor_count: aj.neighbor_count + 1,
                };
            }
            proof {
                assert forall|k: int| 0 <= k < acc@.len() implies (#[trigger] acc@[k]).velocity_sum@
                    == (IntVector {
                    x: partial_sum(tx, i as int, j + 1, k, s.len() as int),
                    y: partial_sum(ty, i as int, j + 1, k, s.len() as int),
                }) && acc@[k].neighbor_count == partial_sum(tc, i as int, j + 1, k, n as int) by {
                    lemma_partial_step(tx, i as int, j as int, k, n as int);
                    lemma_partial_step(ty, i as int, j as int, k, n as int);
                    lemma_partial_step(tc, i as int, j as int, k, n as int);
                }
            }
            j += 1;
        }
        proof {
            assert forall|k: int| 0 <= k < acc@.len() implies (#[trigger] acc@[k]).velocity_sum@
                == (IntVector {
                x: partial_sum(tx, i + 1, i + 2, k, s.len() as int),
                y: partial_sum(ty, i + 1, i + 2, k, s.len() as int),
            }) && acc@[k].neighbor_count == partial_sum(tc, i + 1, i + 2, k, s.len() as int) by {
                lemma_partial_row_end(tx, i as int, n as int, k, n as int);
                lemma_partial_row_end(ty, i as int, n as int, k, n as int);
                lemma_partial_row_end(tc, i as int, n as int, k, n as int);
            }
        }
        i += 1;
    }
    proof {
        assert forall|k: int| 0 <= k < acc@.len() implies (#[trigger] acc@[k]).velocity_sum@
            == alignment_sum(s, sr, vr, k) && acc@[k].neighbor_count == neighbor_count(s, sr, vr, k)
            && acc@[k].wf() by {
            lemma_partial_all(tx, n as int, k, n as int);
            lemma_partial_all(ty, n as int, k, n as int);
            lemma_partial_all(tc, n as int, k, n as int);
            lemma_neighbor_bound(s, sr, vr, s.velocities, MAX_MAGNITUDE as int, n as int, n + 1, k);
            let count = acc@[k].neighbor_count;
            assert(count * MAX_MAGNITUDE == MAX_MAGNITUDE * count) by (nonlinear_arith);
        }
    }
}

/// Whether a cohesion sweep that is about to visit `(i, j)` has left `acc`.
pub open spec fn cohesion_progress(
    acc: Seq<Cohesion>,
    s: FlockState,
    sr: int,
    vr: int,
    i: int,
    j: int,
) -> bool {
    &&& acc.len() == s.len()
    &&& forall|k: int|
        0 <= k < acc.len() ==> (#[trigger] acc[k]).position_sum@ == (IntVector {
            x: partial_sum(neighbor_x(s, sr, vr, s.positions), i, j, k, s.len() as int),
            y: partial_sum(neighbor_y(s, sr, vr, s.positions), i, j, k, s.len() as int),
        }) && acc[k].neighbor_count == partial_sum(
            neighbor_unit(s, sr, vr),
            i,
            j,
            k,
            s.len() as int,
        )
}

/// Adds to each cleared accumulator the position of every other agent that is
/// farther away than `separation_radius` and closer than `visible_radius`,
/// and counts those agents.
pub fn calculate_cohesion(
    store: &AgentStore,
    separation_radius: i64,
    visible_radius: i64,
    acc: &mut Vec<Cohesion>,
)
    requires
        store.wf(),
        0 <= separation_radius <= visible_radius <= MAX_MAGNITUDE,
        old(acc)@.len() == store@.len(),
        forall|k: int| 0 <= k < old(acc)@.len() ==> (#[trigger] old(acc)@[k]).is_clear(),
    ensures
        final(acc)@.len() == store@.len(),
        forall|k: int|
            0 <= k < final(acc)@.len() ==> (#[trigger] final(acc)@[k]).position_sum@
                == cohesion_sum(
                store@,
                separation_radius as int,
                visible_radius as int,
                k,
            ) && final(acc)@[k].neighbor_count == neighbor_count(
                store@,
                separation_radius as int,
                visible_radius as int,
                k,
            ),
        forall|k: int| 0 <= k < final(acc)@.len() ==> (#[trigger] final(acc)@[k]).wf(),
{
    let n = store.len();
    let ghost s = store@;
    let ghost sr = separation_radius as int;
    let ghost vr = visible_radius as int;
    let ghost tx = neighbor_x(s, sr, vr, s.positions);
    let ghost ty = neighbor_y(s, sr, vr, s.positions);
    let ghost tc = neighbor_unit(s, sr, vr);
    proof {
        lemma_product_bound(sr, sr, MAX_MAGNITUDE as int, MAX_MAGNITUDE as int);
        lemma_product_bound(vr, vr, MAX_MAGNITUDE as int, MAX_MAGNITUDE as int);
    }
    let inner = (separation_radius as i128) * (separation_radius as i128);
    let outer = (visible_radius as i128) * (visible_radius as i128);
    proof {
        assert forall|k: int| 0 <= k < acc@.len() implies (#[trigger] acc@[k]).position_sum@
            == (IntVector {
            x: partial_sum(tx, 0, 1, k, s.len() as int),
            y: partial_sum(ty, 0, 1, k, s.len() as int),
        }) && acc@[k].neighbor_count == partial_sum(tc, 0, 1, k, s.len() as int) by {
            assert(acc@[k].is_clear());
            lemma_partial_none(tx, k, s.len() as int);
            lemma_partial_none(ty, k, s.len() as int);
            lemma_partial_none(tc, k, s.len() as int);
        }
    }
    let mut i: usize = 0;
    while i < n
        invariant
            i <= n,
            n == s.len(),
            s == store@,
            s.wf(),
            sr == separation_radius as int,
            vr == visible_radius as int,
            inner == sr * sr,
            outer == vr * vr,
            tx == neighbor_x(s, sr, vr, s.positions),
            ty == neighbor_y(s, sr, vr, s.positions),
            tc == neighbor_unit(s, sr, vr),
            cohesion_progress(acc@, s, sr, vr, i as int, i + 1),
        decreases n - i,
    {
        let pi = store.position(i);
        let vi = store.position(i);
        let mut j: usize = i + 1;
        while j < n
            invariant
                i < j <= n,
                n == s.len(),
                s == store@,
                s.wf(),
                sr == separation_radius as int,
                vr == visible_radius as int,
                inner == sr * sr,
                outer == vr * vr,
                tx == neighbor_x(s, sr, vr, s.positions),
                ty == neighbor_y(s, sr, vr, s.positions),
                tc == neighbor_unit(s, sr, vr),
                pi@ == s.positions[i as int],
                vi@ == s.positions[i as int],
                cohesion_progress(acc@, s, sr, vr, i as int, j as int),
            decreases n - j,
        {
            let pj = store.position(j);
            let vj = store.position(j);
            proof {
                assert(s.positions[i as int].within(MAX_COORDINATE as int));
                assert(s.positions[j as int].within(MAX_COORDINATE as int));
            }
            let dx = pi.x - pj.x;
            let dy = pi.y - pj.y;
            proof {
                lemma_product_bound(dx as int, dx as int, 2 * MAX_COORDINATE, 2 * MAX_COORDINATE);
                lemma_product_bound(dy as int, dy as int, 2 * MAX_COORDINATE, 2 * MAX_COORDINATE);
                assert(dx * dx >= 0 && dy * dy >= 0) by (nonlinear_arith);
            }
            let d2 = (dx as i128) * (dx as i128) + (dy as i128) * (dy as i128);
            proof {
                lemma_neighbor_symmetric(s, sr, vr, i as int, j as int);
                let bound = MAX_COORDINATE as int;
                lemma_neighbor_bound(s, sr, vr, s.positions, bound, i as int, j + 1, i as int);
                lemma_neighbor_bound(s, sr, vr, s.positions, bound, i as int, j + 1, j as int);
                lemma_product_bound(
                    MAX_COORDINATE as int,
                    partial_sum(tc, i as int, j + 1, i as int, n as int),
                    MAX_COORDINATE as int,
                    MAX_AGENTS as int,
                );
                lemma_product_bound(
                    MAX_COORDINATE as int,
                    partial_sum(tc, i as int, j + 1, j as int, n as int),
                    MAX_COORDINATE as int,
                    MAX_AGENTS as int,
                );
                lemma_partial_step(tx, i as int, j as int, i as int, n as int);
                lemma_partial_step(ty, i as int, j as int, i as int, n as int);
                lemma_partial_step(tc, i as int, j as int, i as int, n as int);
                lemma_partial_step(tx, i as int, j as int, j as int, n as int);
                lemma_partial_step(ty, i as int, j as int, j as int, n as int);
                lemma_partial_step(tc, i as int, j as int, j as int, n as int);
            }
            if d2 > inner && d2 < outer {
                let ai = acc[i];
                acc[i] = Cohesion {
                    position_sum: Vector2 {
                        x: ai.position_sum.x + vj.x,
                        y: ai.position_sum.y + vj.y,
                    },
                    neighbor_count: ai.neighbor_count + 1,
                };
                let aj = acc[j];
                acc[j] = Cohesion {
                    position_sum: Vector2 {
                        x: aj.position_sum.x + vi.x,
                        y: aj.position_sum.y + vi.y,
                    },
                    neighbor_count: aj.neighbor_count + 1,
                };
            }
            proof {
                assert forall|k: int| 0 <= k < acc@.len() implies (#[trigger] acc@[k]).position_sum@
                    == (IntVector {
                    x: partial_sum(tx, i as int, j + 1, k, s.len() as int),
                    y: partial_sum(ty, i as int, j + 1, k, s.len() as int),
                }) && acc@[k].neighbor_count == partial_sum(tc, i as int, j + 1, k, n as int) by {
                    lemma_partial_step(tx, i as int, j as int, k, n as int);
                    lemma_partial_step(ty, i as int, j as int, k, n as int);
                    lemma_partial_step(tc, i as int, j as int, k, n as int);
                }
            }
            j += 1;
        }
        proof {
            assert forall|k: int| 0 <= k < acc@.len() implies (#[trigger] acc@[k]).position_sum@
                == (IntVector {
                x: partial_sum(tx, i + 1, i + 2, k, s.len() as int),
                y: partial_sum(ty, i + 1, i + 2, k, s.len() as int),
            }) && acc@[k].neighbor_count == partial_sum(tc, i + 1, i + 2, k, s.len() as int) by {
                lemma_partial_row_end(tx, i as int, n as int, k, n as int);
                lemma_partial_row_end(ty, i as int, n as int, k, n as int);
                lemma_partial_row_end(tc, i as int, n as int, k, n as int);
            }
        }
        i += 1;
    }
    proof {
        assert forall|k: int| 0 <= k < acc@.len() implies (#[trigger] acc@[k]).position_sum@
            == cohesion_sum(s, sr, vr, k) && acc@[k].neighbor_count == neighbor_count(s, sr, vr, k)
            && acc@[k].wf() by {
            lemma_partial_all(tx, n as int, k, n as int);
            lemma_partial_all(ty, n as int, k, n as int);
            lemma_partial_all(tc, n as int, k, n as int);
            lemma_neighbor_bound(s, sr, vr, s.positions, MAX_COORDINATE as int, n as int, n + 1, k);
            let count = acc@[k].neighbor_count;
            assert(count * MAX_COORDINATE == MAX_COORDINATE * count) by (nonlinear_arith);
        }
    }
}

} // verus!
