//! What holds of every flock and every run, stated over the models.

use crate::accumulate::{
    in_neighbor_band, in_separation_band, lemma_dist_sq_symmetric, neighbor_unit, neighbor_x,
    neighbor_y, separation_term,
};
use crate::config::SimulationConfig;
use crate::fixed::{lemma_square_monotone, lemma_square_weakly_monotone};
use crate::resolve::{speeds_in_range, steered_velocity};
use crate::simulation::{
    flock_influence, initial_state, restart_origin, restarted_state, run_flock, run_state,
    tick_flock, tick_state, tick_velocities, SimulationState,
};
use crate::spawn::{
    sample_of, spawned_flock, spawned_speed, stream_words, SAMPLE_RANGE, WORDS_PER_AGENT,
};
use crate::store::FlockState;
use crate::vector::{dist_sq, lemma_clamped_length, lemma_scaled_to_length, IntVector};
use vstd::prelude::*;

verus! {

/// After a tick, the speed of every agent lies between the minimum and the
/// maximum speed: never above the maximum, and below the minimum by no more
/// than the rounding of one rescaling.
pub proof fn lemma_tick_keeps_speeds_in_range(
    s: FlockState,
    target: Option<IntVector>,
    cfg: SimulationConfig,
)
    requires
        cfg.valid(),
    ensures
        speeds_in_range(tick_flock(s, target, cfg).velocities, cfg),
{
    let velocities = tick_velocities(s, target, cfg);
    assert forall|k: int| 0 <= k < velocities.len() implies (#[trigger] velocities[k]).length_in(
        cfg.min_speed as int,
        cfg.max_speed as int,
    ) by {
        lemma_clamped_length(
            steered_velocity(
                s.velocities[k],
                s.positions[k],
                flock_influence(s, cfg, k),
                target,
                cfg,
            ),
            cfg.min_speed as int,
            cfg.max_speed as int,
        );
    }
}

/// After any positive number of ticks, the speed of every agent lies between
/// the minimum and the maximum speed.
pub proof fn lemma_run_keeps_speeds_in_range(
    s: SimulationState,
    ticks: nat,
    target: Option<IntVector>,
)
    requires
        s.config.valid(),
        ticks > 0,
    ensures
        speeds_in_range(run_state(s, ticks, target).flock.velocities, s.config),
{
    lemma_tick_keeps_speeds_in_range(
        run_flock(s.flock, (ticks - 1) as nat, target, s.config),
        target,
        s.config,
    );
}

/// The speed of every freshly drawn agent lies between the minimum and the
/// maximum speed.
pub proof fn lemma_spawn_speeds_in_range(words: Seq<u32>, n: nat, cfg: SimulationConfig)
    requires
        cfg.valid(),
    ensures
        speeds_in_range(spawned_flock(words, n, cfg).velocities, cfg),
{
    let velocities = spawned_flock(words, n, cfg).velocities;
    assert forall|k: int| 0 <= k < velocities.len() implies (#[trigger] velocities[k]).length_in(
        cfg.min_speed as int,
        cfg.max_speed as int,
    ) by {
        let sx = sample_of(words[5 * k + 2]);
        let sy = sample_of(words[5 * k + 3]);
        let sm = sample_of(words[5 * k + 4]);
        let speed = spawned_speed(sm, cfg);
        let span = cfg.max_speed - cfg.min_speed;
        assert(0 <= sm <= SAMPLE_RANGE);
        assert(0 <= sm * span <= span * SAMPLE_RANGE) by (nonlinear_arith)
            requires
                0 <= sm <= SAMPLE_RANGE,
                0 <= span,
        ;
        crate::fixed::lemma_div_toward_zero_bound(sm * span, SAMPLE_RANGE as int, span as int);
        let direction = IntVector { x: sx - SAMPLE_RANGE / 2, y: sy - SAMPLE_RANGE / 2 };
        lemma_scaled_to_length(direction, speed);
        lemma_square_weakly_monotone(speed, cfg.max_speed as int);
        if cfg.min_speed > 3 {
            lemma_square_weakly_monotone(cfg.min_speed - 3, speed - 3);
        }
    }
}

/// What two agents of a pair contribute to each other's separation sum is
/// opposite: the two contributions add up to the zero vector.
pub proof fn lemma_separation_antisymmetric(s: FlockState, radius: int, i: int, j: int)
    ensures
        separation_term(s, radius, i, j).plus(separation_term(s, radius, j, i))
            == IntVector::zero(),
        in_separation_band(s, radius, i, j) ==> separation_term(s, radius, i, j)
            == s.positions[i].minus(s.positions[j]) && separation_term(s, radius, j, i)
            == s.positions[i].minus(s.positions[j]).negated(),
{
    lemma_dist_sq_symmetric(s.positions[i], s.positions[j]);
}

/// Two agents exactly the separation radius apart do not push each other
/// away, and do not count as neighbours either.
pub proof fn lemma_separation_radius_excluded(s: FlockState, sr: int, vr: int, i: int, j: int)
    requires
        dist_sq(s.positions[i], s.positions[j]) == sr * sr,
    ensures
        !in_separation_band(s, sr, i, j),
        !in_neighbor_band(s, sr, vr, i, j),
        separation_term(s, sr, i, j) == IntVector::zero(),
        neighbor_unit(s, sr, vr)(i, j) == 0,
        neighbor_x(s, sr, vr, s.velocities)(i, j) == 0,
        neighbor_y(s, sr, vr, s.velocities)(i, j) == 0,
        neighbor_x(s, sr, vr, s.positions)(i, j) == 0,
        neighbor_y(s, sr, vr, s.positions)(i, j) == 0,
{
}

/// Two agents exactly the visible radius apart do not count as neighbours:
/// neither adds to the alignment or the cohesion sum of the other. Under a
/// valid pair of radii they do not push each other away either.
pub proof fn lemma_visible_radius_excluded(s: FlockState, sr: int, vr: int, i: int, j: int)
    requires
        dist_sq(s.positions[i], s.positions[j]) == vr * vr,
    ensures
        !in_neighbor_band(s, sr, vr, i, j),
        neighbor_unit(s, sr, vr)(i, j) == 0,
        neighbor_x(s, sr, vr, s.velocities)(i, j) == 0,
        neighbor_y(s, sr, vr, s.velocities)(i, j) == 0,
        neighbor_x(s, sr, vr, s.positions)(i, j) == 0,
        neighbor_y(s, sr, vr, s.positions)(i, j) == 0,
        0 <= sr <= vr ==> !in_separation_band(s, sr, i, j) && separation_term(s, sr, i, j)
            == IntVector::zero(),
{
    if 0 <= sr < vr {
        lemma_square_monotone(sr, vr);
    }
}

/// Two runs that start from the same seed with the same number of agents
/// under the same configuration, and tick equally often toward the same
/// target, end in the same state.
pub proof fn lemma_runs_agree(
    seed_a: u64,
    seed_b: u64,
    n_a: nat,
    n_b: nat,
    cfg_a: SimulationConfig,
    cfg_b: SimulationConfig,
    ticks_a: nat,
    ticks_b: nat,
    target_a: Option<IntVector>,
    target_b: Option<IntVector>,
)
    requires
        seed_a == seed_b,
        n_a == n_b,
        cfg_a == cfg_b,
        ticks_a == ticks_b,
        target_a == target_b,
    ensures
        run_state(initial_state(seed_a, n_a, cfg_a), ticks_a, target_a) == run_state(
            initial_state(seed_b, n_b, cfg_b),
            ticks_b,
            target_b,
        ),
{
}

/// Running `a + b` ticks is running `a` ticks and then `b` more.
pub proof fn lemma_run_splits(s: SimulationState, a: nat, b: nat, target: Option<IntVector>)
    ensures
        run_state(s, a + b, target) == run_state(run_state(s, a, target), b, target),
        run_state(s, 1, target) == tick_state(s, target),
    decreases b,
{
    reveal_with_fuel(run_flock, 2);
    if b > 0 {
        lemma_run_splits(s, a, (b - 1) as nat, target);
        assert(run_flock(s.flock, a + b, target, s.config) == tick_flock(
            run_flock(s.flock, (a + b - 1) as nat, target, s.config),
            target,
            s.config,
        ));
    }
}

/// A restart with a seed leaves the very state in which a simulation with
/// that seed, as many agents and the current configuration starts, whatever
/// happened before.
pub proof fn lemma_restart_reproduces_start(s: SimulationState, seed: u64)
    ensures
        restarted_state(s, Some(seed)) == initial_state(seed, s.flock.len(), s.config),
{
}

/// A restart, with or without a seed, draws every agent anew: the flock has
/// as many agents as before, the configuration stays, exactly five words of
/// the stream are taken for each agent, and every speed lies between the
/// minimum and the maximum speed.
pub proof fn lemma_restart_resamples(s: SimulationState, seed: Option<u64>)
    requires
        s.config.valid(),
    ensures
        restarted_state(s, seed).flock.len() == s.flock.len(),
        restarted_state(s, seed).flock.positions.len() == s.flock.len(),
        restarted_state(s, seed).flock.velocities.len() == s.flock.len(),
        restarted_state(s, seed).config == s.config,
        restarted_state(s, seed).seed == restart_origin(s, seed).0,
        restarted_state(s, seed).consumed == restart_origin(s, seed).1 + WORDS_PER_AGENT
            * s.flock.len(),
        speeds_in_range(restarted_state(s, seed).flock.velocities, s.config),
{
    let origin = restart_origin(s, seed);
    let count = WORDS_PER_AGENT as nat * s.flock.len();
    lemma_spawn_speeds_in_range(stream_words(origin.0, origin.1, count), s.flock.len(), s.config);
}

} // verus!
