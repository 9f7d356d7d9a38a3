//! Objective (cost) functions minimised by the swarm.
//!
//! A cost is an exact integer: for a vector of fixed-point coordinates `p`, where
//! `p[j]` stands for `p[j] / SCALE`, the returned cost is the real-valued cost
//! multiplied by `SCALE^4`. Comparisons between costs are therefore exact.
use vstd::prelude::*;

use crate::particle::{Particle, SCALE};

verus! {

/// Largest dimension an objective is evaluated on.
pub const MAX_DIM: usize = 1024;

/// Largest magnitude of a coordinate an objective is evaluated on (1024.0 in real units).
pub const COORD_LIMIT: i64 = 67108864;

/// Every component of `p` lies in `[-COORD_LIMIT, COORD_LIMIT]`.
pub open spec fn within_limit(p: Seq<int>) -> bool {
    forall|j: int| 0 <= j < p.len() ==> -COORD_LIMIT <= #[trigger] p[j] <= COORD_LIMIT
}

/// What an objective must satisfy to be evaluated on `p`.
pub open spec fn evaluable(p: Seq<int>, dim: nat) -> bool {
    &&& p.len() == dim
    &&& dim <= MAX_DIM
    &&& within_limit(p)
}

/// A cost function over vectors of a fixed dimension; lower is better.
pub trait ObjectiveFunction {
    /// The dimension the function is defined on.
    spec fn dim_spec(&self) -> nat;

    /// The cost of `p`, scaled by `SCALE^4`.
    spec fn cost_spec(&self, p: Seq<int>) -> int;

    /// The dimension the function is defined on.
    fn dimension(&self) -> (r: usize)
        ensures
            r == self.dim_spec(),
    ;

    /// The cost of `p`; `p` must have the function's dimension.
    fn cost(&self, p: &Particle) -> (r: i128)
        requires
            evaluable(p@, self.dim_spec()),
        ensures
            r == self.cost_spec(p@),
    ;
}

/// One summand of the Rosenbrock function: `100 (x[i+1] - x[i]^2)^2 + (1 - x[i])^2`,
/// scaled by `SCALE^4`.
pub open spec fn rosenbrock_term(p: Seq<int>, i: int) -> int {
    let s = SCALE as int;
    let a = p[i + 1] * s - p[i] * p[i];
    let b = s - p[i];
    100 * (a * a) + s * s * (b * b)
}

/// The sum of the first `k` summands of the Rosenbrock function.
pub open spec fn rosenbrock_sum(p: Seq<int>, k: nat) -> int
    decreases k,
{
    if k == 0 {
        0
    } else {
        rosenbrock_sum(p, (k - 1) as nat) + rosenbrock_term(p, k - 1)
    }
}

/// The Rosenbrock function `sum_{i < n-1} 100 (x[i+1] - x[i]^2)^2 + (1 - x[i])^2`,
/// scaled by `SCALE^4`.
pub open spec fn rosenbrock_cost(p: Seq<int>) -> int {
    if p.len() == 0 {
        0
    } else {
        rosenbrock_sum(p, (p.len() - 1) as nat)
    }
}

/// The Himmelblau function `(x0^2 + x1 - 11)^2 + (x0 + x1^2 - 7)^2`, scaled by `SCALE^4`.
pub open spec fn himmelblau_cost(p: Seq<int>) -> int {
    let s = SCALE as int;
    let a = p[0] * p[0] + p[1] * s - 11 * s * s;
    let b = p[0] * s + p[1] * p[1] - 7 * s * s;
    a * a + b * b
}

proof fn lemma_mul_bound(a: int, b: int, ba: int, bb: int)
    requires
        -ba <= a <= ba,
        -bb <= b <= bb,
    ensures
        -(ba * bb) <= a * b <= ba * bb,
        0 <= a * a <= ba * ba,
{
    assert(-(ba * bb) <= a * b <= ba * bb) by (nonlinear_arith)
        requires
            -ba <= a <= ba,
            -bb <= b <= bb,
    ;
    assert(0 <= a * a <= ba * ba) by (nonlinear_arith)
        requires
            -ba <= a <= ba,
    ;
}

/// Bounds on one Rosenbrock summand over coordinates within the limit.
proof fn lemma_rosenbrock_term_bound(p: Seq<int>, i: int)
    requires
        0 <= i,
        i + 1 < p.len(),
        within_limit(p),
    ensures
        0 <= rosenbrock_term(p, i) <= 0x4_0000_0000_0000_0000_0000_0000_0000,
{
    let s = SCALE as int;
    let l = COORD_LIMIT as int;
    let x0 = p[i];
    let x1 = p[i + 1];
    lemma_mul_bound(x0, x0, l, l);
    lemma_mul_bound(x1, s, l, s);
    let a = x1 * s - x0 * x0;
    let b = s - x0;
    let ba: int = 0x20_0000_0000_0000;
    lemma_mul_bound(a, a, ba, ba);
    lemma_mul_bound(b, b, 0x800_0000, 0x800_0000);
    assert(0 <= s * s * (b * b) <= 0x1_0000_0000 * (0x800_0000 * 0x800_0000)) by (nonlinear_arith)
        requires
            0 <= b * b <= 0x800_0000 * 0x800_0000,
            s == 65536,
    ;
    assert(0 <= 100 * (a * a) <= 100 * (ba * ba)) by (nonlinear_arith)
        requires
            0 <= a * a <= ba * ba,
    ;
    assert(rosenbrock_term(p, i) == 100 * (a * a) + s * s * (b * b));
}

/// A sum of `k` Rosenbrock summands is non-negative and at most `k` times the bound of one.
proof fn lemma_rosenbrock_sum_bound(p: Seq<int>, k: nat)
    requires
        k + 1 <= p.len(),
        within_limit(p),
    ensures
        0 <= rosenbrock_sum(p, k) <= k * 0x4_0000_0000_0000_0000_0000_0000_0000,
    decreases k,
{
    if k > 0 {
        lemma_rosenbrock_sum_bound(p, (k - 1) as nat);
        lemma_rosenbrock_term_bound(p, k - 1);
    }
}

/// The N-dimensional Rosenbrock function.
pub struct Rosenbrock<const N: usize> {}

impl<const N: usize> Rosenbrock<N> {
    /// The Rosenbrock function on `N` dimensions.
    pub fn new() -> (r: Self) {
        Rosenbrock {  }
    }
}

impl<const N: usize> ObjectiveFunction for Rosenbrock<N> {
    open spec fn dim_spec(&self) -> nat {
        N as nat
    }

    open spec fn cost_spec(&self, p: Seq<int>) -> int {
        rosenbrock_cost(p)
    }

    fn dimension(&self) -> (r: usize) {
        N
    }

    fn cost(&self, p: &Particle) -> (r: i128) {
        let n = p.dim();
        if n == 0 {
            return 0;
        }
        let s: i128 = SCALE as i128;
        assert(s == 65536);
        let mut acc: i128 = 0;
        let mut i: usize = 0;
        while i + 1 < n
            invariant
                n == p@.len(),
                1 <= n <= MAX_DIM,
                s == 65536,
                within_limit(p@),
                i + 1 <= n,
                acc == rosenbrock_sum(p@, i as nat),
            decreases n - i,
        {
            proof {
                lemma_rosenbrock_sum_bound(p@, (i + 1) as nat);
                lemma_mul_bound(p@[i as int], p@[i as int], COORD_LIMIT as int, COORD_LIMIT as int);
                lemma_mul_bound(p@[i + 1], s as int, COORD_LIMIT as int, s as int);
            }
            let x0 = p.get(i) as i128;
            let x1 = p.get(i + 1) as i128;
            let a = x1 * s - x0 * x0;
            let b = s - x0;
            proof {
                lemma_mul_bound(a as int, a as int, 0x20_0000_0000_0000, 0x20_0000_0000_0000);
                lemma_mul_bound(b as int, b as int, 0x800_0000, 0x800_0000);
                lemma_mul_bound(s * s, b * b, 0x1_0000_0000, 0x40_0000_0000_0000);
                lemma_rosenbrock_term_bound(p@, i as int);
                assert(0 <= 100 * (a * a) <= 100 * (0x20_0000_0000_0000int * 0x20_0000_0000_0000int))
                    by (nonlinear_arith)
                    requires
                        0 <= a * a <= 0x20_0000_0000_0000int * 0x20_0000_0000_0000int,
                ;
                assert((i + 1) * 0x4_0000_0000_0000_0000_0000_0000_0000int
                    <= 1024 * 0x4_0000_0000_0000_0000_0000_0000_0000int) by (nonlinear_arith)
                    requires
                        i + 1 <= 1024,
                ;
            }
            acc = acc + (100 * (a * a) + s * s * (b * b));
            i = i + 1;
        }
        acc
    }
}

/// The two-dimensional Himmelblau function.
pub struct Himmelblau {}

impl Himmelblau {
    /// The Himmelblau function.
    pub fn new() -> (r: Self) {
        Himmelblau {  }
    }
}

impl ObjectiveFunction for Himmelblau {
    open spec fn dim_spec(&self) -> nat {
        2
    }

    open spec fn cost_spec(&self, p: Seq<int>) -> int {
        himmelblau_cost(p)
    }

    fn dimension(&self) -> (r: usize) {
        2
    }

    fn cost(&self, p: &Particle) -> (r: i128) {
        let s: i128 = SCALE as i128;
        let ghost l = COORD_LIMIT as int;
        assert(s == 65536);
        let x0 = p.get(0) as i128;
        let x1 = p.get(1) as i128;
        proof {
            lemma_mul_bound(x0 as int, x0 as int, l, l);
            lemma_mul_bound(x1 as int, x1 as int, l, l);
            lemma_mul_bound(x0 as int, s as int, l, s as int);
            lemma_mul_bound(x1 as int, s as int, l, s as int);
        }
        let a = x0 * x0 + x1 * s - 11 * s * s;
        let b = x0 * s + x1 * x1 - 7 * s * s;
        proof {
            lemma_mul_bound(a as int, a as int, 0x20_0000_0000_0000, 0x20_0000_0000_0000);
            lemma_mul_bound(b as int, b as int, 0x20_0000_0000_0000, 0x20_0000_0000_0000);
        }
        a * a + b * b
    }
}

} // verus!
