//! Sums over the neighbours of one agent, and over the part of them that a
//! sweep of all unordered pairs has reached so far.
//!
//! A sweep visits the pairs `(a, b)` with `a < b` in lexicographic order. Its
//! progress is the pair `(i, j)` that comes next: every pair before it has been
//! visited, no other has.

use vstd::prelude::*;

verus! {

/// What agent `m` contributes to agent `k`.
pub type Term = spec_fn(int, int) -> int;

/// The sum of what the agents below `upto`, other than `k`, contribute to `k`.
pub open spec fn pair_sum(term: Term, k: int, upto: int) -> int
    decreases upto,
{
    if upto <= 0 {
        0
    } else {
        pair_sum(term, k, upto - 1) + if upto - 1 != k {
            term(k, upto - 1)
        } else {
            0
        }
    }
}

/// Whether the pair of `k` and `m` comes before the pair `(i, j)`.
pub open spec fn visited(i: int, j: int, k: int, m: int) -> bool {
    if k < m {
        k < i || (k == i && m < j)
    } else {
        m < i || (m == i && k < j)
    }
}

/// The part of `pair_sum` that a sweep has added when `(i, j)` comes next.
pub open spec fn partial_sum(term: Term, i: int, j: int, k: int, upto: int) -> int
    decreases upto,
{
    if upto <= 0 {
        0
    } else {
        partial_sum(term, i, j, k, upto - 1) + if upto - 1 != k && visited(i, j, k, upto - 1) {
            term(k, upto - 1)
        } else {
            0
        }
    }
}

/// The term that makes a sum count its summands.
pub open spec fn unit_term() -> Term {
    |k: int, m: int| 1int
}

/// Before the first pair nothing has been added.
pub proof fn lemma_partial_none(term: Term, k: int, upto: int)
    requires
        0 <= k,
    ensures
        partial_sum(term, 0, 1, k, upto) == 0,
    decreases upto,
{
    if upto > 0 {
        lemma_partial_none(term, k, upto - 1);
    }
}

/// Visiting the pair `(i, j)` adds to `i` what `j` contributes, to `j` what
/// `i` contributes, and nothing to anyone else.
pub proof fn lemma_partial_step(term: Term, i: int, j: int, k: int, upto: int)
    requires
        0 <= i < j,
        0 <= k,
    ensures
        partial_sum(term, i, j + 1, k, upto) == partial_sum(term, i, j, k, upto) + if k == i && j
            < upto {
            term(i, j)
        } else if k == j && i < upto {
            term(j, i)
        } else {
            0
        },
    decreases upto,
{
    if upto > 0 {
        lemma_partial_step(term, i, j, k, upto - 1);
    }
}

/// The end of row `i` is the start of row `i + 1`.
pub proof fn lemma_partial_row_end(term: Term, i: int, n: int, k: int, upto: int)
    requires
        0 <= i,
        0 <= k < n,
        upto <= n,
    ensures
        partial_sum(term, i, n, k, upto) == partial_sum(term, i + 1, i + 2, k, upto),
    decreases upto,
{
    if upto > 0 {
        lemma_partial_row_end(term, i, n, k, upto - 1);
    }
}

/// After the last row every pair has been visited.
pub proof fn lemma_partial_all(term: Term, n: int, k: int, upto: int)
    requires
        0 <= k < n,
        upto <= n,
    ensures
        partial_sum(term, n, n + 1, k, upto) == pair_sum(term, k, upto),
    decreases upto,
{
    if upto > 0 {
        lemma_partial_all(term, n, k, upto - 1);
    }
}

/// A sum whose every summand is bounded by `bound` times that of a second sum
/// is bounded by `bound` times the second sum.
pub proof fn lemma_partial_dominated(
    term: Term,
    weight: Term,
    bound: int,
    i: int,
    j: int,
    k: int,
    upto: int,
)
    requires
        bound >= 0,
        forall|m: int|
            0 <= m < upto ==> 0 <= #[trigger] weight(k, m) && -bound * weight(k, m) <= term(k, m)
                <= bound * weight(k, m),
    ensures
        0 <= partial_sum(weight, i, j, k, upto),
        -bound * partial_sum(weight, i, j, k, upto) <= partial_sum(term, i, j, k, upto) <= bound
            * partial_sum(weight, i, j, k, upto),
    decreases upto,
{
    if upto > 0 {
        lemma_partial_dominated(term, weight, bound, i, j, k, upto - 1);
        let w0 = partial_sum(weight, i, j, k, upto - 1);
        let w = weight(k, upto - 1);
        assert(bound * (w0 + w) == bound * w0 + bound * w) by (nonlinear_arith);
        assert(-bound * (w0 + w) == -bound * w0 + -bound * w) by (nonlinear_arith);
    }
}

/// A sum of summands that are 0 or 1 counts at most the agents below `upto`.
pub proof fn lemma_partial_count(weight: Term, i: int, j: int, k: int, upto: int)
    requires
        forall|m: int| 0 <= m < upto ==> 0 <= #[trigger] weight(k, m) <= 1,
        0 <= k,
    ensures
        0 <= partial_sum(weight, i, j, k, upto),
        upto >= 0 ==> partial_sum(weight, i, j, k, upto) <= upto,
        0 <= k < upto ==> partial_sum(weight, i, j, k, upto) <= upto - 1,
    decreases upto,
{
    if upto > 0 {
        lemma_partial_count(weight, i, j, k, upto - 1);
    }
}

} // verus!
