//! The initial state of a flock, drawn from a seeded generator.
//!
//! Every agent takes five 32-bit words of the stream, in this order: position
//! x, position y, direction x, direction y, speed. The upper 24 bits of a word
//! are a sample in `[0, 1)`, in units of 1 / [`SAMPLE_RANGE`].

use crate::config::SimulationConfig;
use crate::fixed::{
    div_toward_zero, lemma_div_toward_zero_bound, lemma_product_bound,
    lemma_square_weakly_monotone, MAX_AGENTS, MAX_COORDINATE, MAX_MAGNITUDE,
};
use crate::resolve::speeds_in_range;
use crate::store::{AgentStore, FlockState};
use crate::vector::{lemma_scaled_to_length, IntVector, Vector2};
use rand::distributions::Standard;
use rand::rngs::StdRng;
use rand::{Rng, SeedableRng};
use vstd::prelude::*;

verus! {

/// The number of samples between 0 and 1.
pub const SAMPLE_RANGE: i64 = 16_777_216;

/// The number of words of the stream that one agent takes.
pub const WORDS_PER_AGENT: usize = 5;

/// The standard generator of the `rand` crate: a value that Verus carries
/// through without looking inside.
#[verifier::external_type_specification]
#[verifier::external_body]
pub struct ExStdRng(rand::rngs::StdRng);

/// The word at `index` of the stream that the standard generator of the
/// `rand` crate produces after being seeded with `seed`.
pub uninterp spec fn std_rng_word(seed: u64, index: nat) -> u32;

/// The word that a generator will hand out after `index` others: what the
/// generator still holds, word by word.
pub uninterp spec fn upcoming_word(rng: StdRng, index: nat) -> u32;

/// The `count` words of the stream of `seed` from `start` on.
pub open spec fn stream_words(seed: u64, start: nat, count: nat) -> Seq<u32> {
    Seq::new(count, |i: int| std_rng_word(seed, (start + i) as nat))
}

/// Calls `StdRng::seed_from_u64`. The contract claims that seeding is
/// deterministic: what the new generator will hand out is the stream of the
/// seed, from its start.
#[verifier::external_body]
fn seeded_rng(seed: u64) -> (rng: StdRng)
    ensures
        forall|i: nat| #[trigger] upcoming_word(rng, i) == std_rng_word(seed, i),
{
    StdRng::seed_from_u64(seed)
}

/// Calls `Rng::sample_iter` with the `Standard` distribution of `u32`, which
/// hands out `next_u32` of the generator again and again, and takes `count`
/// words of it. The contract claims that the generator hands out its words in
/// order and goes on behind the last one taken. `count` is bounded because the
/// words are collected into one allocation.
#[verifier::external_body]
fn next_words(rng: &mut StdRng, count: usize) -> (words: Vec<u32>)
    requires
        count <= WORDS_PER_AGENT * MAX_AGENTS,
    ensures
        words@.len() == count,
        forall|i: int|
            0 <= i < count ==> #[trigger] words@[i] == upcoming_word(*old(rng), i as nat),
        forall|i: nat|
            #[trigger] upcoming_word(*final(rng), i) == upcoming_word(*old(rng), count as nat + i),
{
    (&mut *rng).sample_iter::<u32, Standard>(Standard).take(count).collect()
}

/// Where a generator stands: the seed of its stream and the number of words
/// drawn from it so far.
pub struct StreamPosition {
    pub seed: u64,
    pub consumed: nat,
}

/// A seeded generator of 32-bit words. What it hands out is the stream of its
/// seed, word by word, without end.
pub struct Generator {
    rng: StdRng,
    seed: u64,
    consumed: Ghost<nat>,
}

impl View for Generator {
    type V = StreamPosition;

    closed spec fn view(&self) -> StreamPosition {
        StreamPosition { seed: self.seed, consumed: self.consumed@ }
    }
}

impl Generator {
    /// Whether the generator stands in the stream of its seed where its
    /// position says.
    pub closed spec fn wf(&self) -> bool {
        forall|i: nat| #[trigger]
            upcoming_word(self.rng, i) == std_rng_word(self.seed, self.consumed@ + i)
    }

    /// A generator at the start of the stream of `seed`.
    pub fn new(seed: u64) -> (g: Generator)
        ensures
            g.wf(),
            g@ == (StreamPosition { seed, consumed: 0 }),
    {
        Generator { rng: seeded_rng(seed), seed, consumed: Ghost(0) }
    }

    /// The seed of the stream.
    pub fn seed(&self) -> (seed: u64)
        ensures
            seed == self@.seed,
    {
        self.seed
    }

    /// The next `count` words of the stream.
    pub fn draw(&mut self, count: usize) -> (words: Vec<u32>)
        requires
            old(self).wf(),
            count <= WORDS_PER_AGENT * MAX_AGENTS,
        ensures
            final(self).wf(),
            words@ == stream_words(old(self)@.seed, old(self)@.consumed, count as nat),
            final(self)@ == (StreamPosition {
                seed: old(self)@.seed,
                consumed: old(self)@.consumed + count as nat,
            }),
    {
        let ghost before = self.consumed@;
        let words = next_words(&mut self.rng, count);
        self.consumed = Ghost(before + count as nat);
        assert(words@ =~= stream_words(self.seed, before, count as nat));
        words
    }
}

/// The sample that a word of the stream stands for.
pub open spec fn sample_of(word: u32) -> int {
    word as int / 256
}

/// The coordinate of a sample `s`: `(s - 0.5)` times the box size.
pub open spec fn spawned_coordinate(s: int, cfg: SimulationConfig) -> int {
    div_toward_zero((s - SAMPLE_RANGE / 2) * cfg.box_size, SAMPLE_RANGE as int)
}

/// The speed of a sample `s`: as far between the minimum and the maximum
/// speed as `s` is between 0 and 1.
pub open spec fn spawned_speed(s: int, cfg: SimulationConfig) -> int {
    cfg.min_speed + div_toward_zero(s * (cfg.max_speed - cfg.min_speed), SAMPLE_RANGE as int)
}

/// The velocity of three samples: the direction `(sx - 0.5, sy - 0.5)` at
/// the speed of `smag`. Where the direction is the zero vector, the velocity
/// points along the positive y axis.
pub open spec fn spawned_velocity(sx: int, sy: int, smag: int, cfg: SimulationConfig) -> IntVector {
    (IntVector { x: sx - SAMPLE_RANGE / 2, y: sy - SAMPLE_RANGE / 2 }).scaled_to(
        spawned_speed(smag, cfg),
    )
}

/// The flock of `n` agents that the first `5 n` of `words` give.
pub open spec fn spawned_flock(words: Seq<u32>, n: nat, cfg: SimulationConfig) -> FlockState {
    FlockState {
        positions: Seq::new(
            n,
            |k: int|
                IntVector {
                    x: spawned_coordinate(sample_of(words[5 * k]), cfg),
                    y: spawned_coordinate(sample_of(words[5 * k + 1]), cfg),
                },
        ),
        velocities: Seq::new(
            n,
            |k: int|
                spawned_velocity(
                    sample_of(words[5 * k + 2]),
                    sample_of(words[5 * k + 3]),
                    sample_of(words[5 * k + 4]),
                    cfg,
                ),
        ),
    }
}

fn coordinate_of(word: u32, cfg: &SimulationConfig) -> (c: i64)
    requires
        cfg.valid(),
    ensures
        c == spawned_coordinate(sample_of(word), *cfg),
        -MAX_COORDINATE <= c <= MAX_COORDINATE,
{
    let s = (word / 256) as i64;
    proof {
        lemma_product_bound(
            s - SAMPLE_RANGE / 2,
            cfg.box_size as int,
            SAMPLE_RANGE / 2,
            MAX_MAGNITUDE as int,
        );
        lemma_div_toward_zero_bound(
            (s - SAMPLE_RANGE / 2) * cfg.box_size,
            SAMPLE_RANGE as int,
            MAX_MAGNITUDE as int,
        );
    }
    ((s - SAMPLE_RANGE / 2) * cfg.box_size) / SAMPLE_RANGE
}

fn speed_of(word: u32, cfg: &SimulationConfig) -> (t: i64)
    requires
        cfg.valid(),
    ensures
        t == spawned_speed(sample_of(word), *cfg),
        cfg.min_speed <= t <= cfg.max_speed,
{
    let s = (word / 256) as i64;
    let span = cfg.max_speed - cfg.min_speed;
    proof {
        assert(0 <= s * span <= SAMPLE_RANGE * span) by (nonlinear_arith)
            requires
                0 <= s <= SAMPLE_RANGE,
                0 <= span,
        ;
        assert(SAMPLE_RANGE * span == span * SAMPLE_RANGE) by (nonlinear_arith);
        lemma_product_bound(s as int, span as int, SAMPLE_RANGE as int, MAX_MAGNITUDE as int);
        lemma_div_toward_zero_bound(s * span, SAMPLE_RANGE as int, span as int);
    }
    cfg.min_speed + (s * span) / SAMPLE_RANGE
}

/// The position and the velocity of one agent, from its five words.
pub fn spawn_agent(
    word_x: u32,
    word_y: u32,
    word_vx: u32,
    word_vy: u32,
    word_speed: u32,
    cfg: &SimulationConfig,
) -> (agent: (Vector2, Vector2))
    requires
        cfg.valid(),
    ensures
        agent.0@ == (IntVector {
            x: spawned_coordinate(sample_of(word_x), *cfg),
            y: spawned_coordinate(sample_of(word_y), *cfg),
        }),
        agent.1@ == spawned_velocity(
            sample_of(word_vx),
            sample_of(word_vy),
            sample_of(word_speed),
            *cfg,
        ),
        agent.0@.within(MAX_COORDINATE as int),
        agent.1@.within(MAX_MAGNITUDE as int),
        agent.1@.length_in(cfg.min_speed as int, cfg.max_speed as int),
{
    let position = Vector2 { x: coordinate_of(word_x, cfg), y: coordinate_of(word_y, cfg) };
    let direction = Vector2 {
        x: (word_vx / 256) as i64 - SAMPLE_RANGE / 2,
        y: (word_vy / 256) as i64 - SAMPLE_RANGE / 2,
    };
    let speed = speed_of(word_speed, cfg);
    proof {
        lemma_scaled_to_length(direction@, speed as int);
        lemma_square_weakly_monotone(speed as int, cfg.max_speed as int);
        if cfg.min_speed > 3 {
            lemma_square_weakly_monotone(cfg.min_speed - 3, speed - 3);
        }
    }
    let velocity = direction.with_length(speed);
    (position, velocity)
}

/// The flock of `n` agents that the first `5 n` of `words` give.
pub fn spawn_from_words(words: &Vec<u32>, n: usize, cfg: &SimulationConfig) -> (store: AgentStore)
    requires
        n <= MAX_AGENTS,
        words@.len() >= WORDS_PER_AGENT * n,
        cfg.valid(),
    ensures
        store@ == spawned_flock(words@, n as nat, *cfg),
        store.wf(),
        speeds_in_range(store@.velocities, *cfg),
{
    let ghost goal = spawned_flock(words@, n as nat, *cfg);
    let mut store = AgentStore::new();
    let mut k: usize = 0;
    while k < n
        invariant
            k <= n <= MAX_AGENTS,
            words@.len() >= WORDS_PER_AGENT * n,
            cfg.valid(),
            store.wf(),
            goal == spawned_flock(words@, n as nat, *cfg),
            store@.positions.len() == k,
            store@.velocities.len() == k,
            forall|m: int| 0 <= m < k ==> #[trigger] store@.positions[m] == goal.positions[m],
            forall|m: int| 0 <= m < k ==> #[trigger] store@.velocities[m] == goal.velocities[m],
            forall|m: int|
                0 <= m < k ==> (#[trigger] store@.velocities[m]).length_in(
                    cfg.min_speed as int,
                    cfg.max_speed as int,
                ),
        decreases n - k,
    {
        let base = WORDS_PER_AGENT * k;
        let agent = spawn_agent(
            words[base],
            words[base + 1],
            words[base + 2],
            words[base + 3],
            words[base + 4],
            cfg,
        );
        store.push(agent.0, agent.1);
        k += 1;
    }
    assert(store@.positions =~= goal.positions);
    assert(store@.velocities =~= goal.velocities);
    store
}

/// The flock of `n` agents that the next `5 n` words of the generator give.
pub fn spawn_boids(generator: &mut Generator, n: usize, cfg: &SimulationConfig) -> (store:
    AgentStore)
    requires
        old(generator).wf(),
        n <= MAX_AGENTS,
        cfg.valid(),
    ensures
        final(generator).wf(),
        final(generator)@ == (StreamPosition {
            seed: old(generator)@.seed,
            consumed: old(generator)@.consumed + WORDS_PER_AGENT as nat * n as nat,
        }),
        store@ == spawned_flock(
            stream_words(
                old(generator)@.seed,
                old(generator)@.consumed,
                WORDS_PER_AGENT as nat * n as nat,
            ),
            n as nat,
            *cfg,
        ),
        store.wf(),
        speeds_in_range(store@.velocities, *cfg),
{
    let words = generator.draw(WORDS_PER_AGENT * n);
    spawn_from_words(&words, n, cfg)
}

} // verus!
