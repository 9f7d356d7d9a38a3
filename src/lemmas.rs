//! Proofs about the update rule: bounds on every intermediate vector, and
//! preservation of the swarm invariant.
use vstd::prelude::*;

use crate::model::{
    bounded, coef_ok, config_error, first_min, initial_model, is_run, is_step, before_step,
    next_position, next_velocity, positions_ok, run_end, step_prefix, swarm_inv,
    update_particle, valid_draws, ConfigModel, SwarmModel, COEF_LIMIT,
};
use crate::objective_functions::{within_limit, ObjectiveFunction, COORD_LIMIT, MAX_DIM};
use crate::particle::{in_box, seq_add, seq_clamp, seq_scale, seq_sub, valid_box, SCALE};

verus! {

pub proof fn lemma_fx_mul_bound(x: int, k: int, bx: int, bk: int, b: int)
    requires
        -bx <= x <= bx,
        -bk <= k <= bk,
        0 <= b,
        bx * bk <= b * 65536,
    ensures
        -b <= crate::particle::fx_mul(x, k) <= b,
{
    let p = x * k;
    assert(-(bx * bk) <= p <= bx * bk) by (nonlinear_arith)
        requires
            -bx <= x <= bx,
            -bk <= k <= bk,
            p == x * k,
    ;
    if p >= 0 {
        assert(p / 65536 <= b) by (nonlinear_arith)
            requires
                0 <= p <= b * 65536,
        ;
        assert(p / 65536 >= 0) by (nonlinear_arith)
            requires
                0 <= p,
        ;
    } else {
        let q = -p;
        assert(q / 65536 <= b) by (nonlinear_arith)
            requires
                0 <= q <= b * 65536,
        ;
        assert(q / 65536 >= 0) by (nonlinear_arith)
            requires
                0 <= q,
        ;
    }
}

pub proof fn lemma_scale_bounded(a: Seq<int>, k: int, ba: int, bk: int, b: int)
    requires
        bounded(a, ba),
        -bk <= k <= bk,
        0 <= b,
        ba * bk <= b * 65536,
    ensures
        bounded(seq_scale(a, k), b),
{
    assert forall|j: int| 0 <= j < a.len() implies -b <= #[trigger] seq_scale(a, k)[j] <= b by {
        lemma_fx_mul_bound(a[j], k, ba, bk, b);
    }
}

pub proof fn lemma_clamp_in_box(a: Seq<int>, lo: Seq<int>, hi: Seq<int>)
    requires
        valid_box(lo, hi),
        a.len() == lo.len(),
    ensures
        in_box(seq_clamp(a, lo, hi), lo, hi),
{
    assert forall|j: int| 0 <= j < a.len() implies lo[j] <= #[trigger] seq_clamp(a, lo, hi)[j]
        <= hi[j] by {
        assert(lo[j] <= hi[j]);
    }
}

pub proof fn lemma_box_bounded(a: Seq<int>, lo: Seq<int>, hi: Seq<int>)
    requires
        in_box(a, lo, hi),
        within_limit(lo),
        within_limit(hi),
    ensures
        bounded(a, COORD_LIMIT as int),
        within_limit(a),
{
    assert forall|j: int| 0 <= j < a.len() implies -COORD_LIMIT <= #[trigger] a[j]
        <= COORD_LIMIT by {
        assert(lo[j] <= a[j] <= hi[j]);
        assert(-COORD_LIMIT <= lo[j] <= COORD_LIMIT);
        assert(-COORD_LIMIT <= hi[j] <= COORD_LIMIT);
    }
}

/// The bounds that keep every intermediate vector of a velocity update within `i64`.
pub proof fn lemma_velocity_terms(
    c: ConfigModel,
    x: Seq<int>,
    v: Seq<int>,
    pb: Seq<int>,
    g: Seq<int>,
    r1: int,
    r2: int,
)
    requires
        c.dim <= MAX_DIM,
        valid_box(c.lower, c.upper),
        valid_box(c.v_min, c.v_max),
        c.lower.len() == c.dim,
        c.v_min.len() == c.dim,
        within_limit(c.lower),
        within_limit(c.upper),
        within_limit(c.v_min),
        within_limit(c.v_max),
        coef_ok(c.c1),
        coef_ok(c.c2),
        coef_ok(c.w),
        in_box(x, c.lower, c.upper),
        in_box(pb, c.lower, c.upper),
        in_box(g, c.lower, c.upper),
        v.len() == c.dim,
        bounded(v, COORD_LIMIT as int),
        0 <= r1 <= SCALE,
        0 <= r2 <= SCALE,
    ensures
        bounded(seq_sub(pb, x), 0x800_0000),
        bounded(seq_sub(g, x), 0x800_0000),
        bounded(seq_scale(v, c.w), 0x8_0000_0000),
        bounded(seq_scale(seq_sub(pb, x), c.c1), 0x8_0000_0000),
        bounded(seq_scale(seq_sub(g, x), c.c2), 0x8_0000_0000),
        bounded(seq_scale(seq_scale(seq_sub(pb, x), c.c1), r1), 0x8_0000_0000),
        bounded(seq_scale(seq_scale(seq_sub(g, x), c.c2), r2), 0x8_0000_0000),
        bounded(
            seq_add(seq_scale(v, c.w), seq_scale(seq_scale(seq_sub(pb, x), c.c1), r1)),
            0x10_0000_0000,
        ),
        bounded(
            seq_add(
                seq_add(seq_scale(v, c.w), seq_scale(seq_scale(seq_sub(pb, x), c.c1), r1)),
                seq_scale(seq_scale(seq_sub(g, x), c.c2), r2),
            ),
            0x18_0000_0000,
        ),
        in_box(next_velocity(c, x, v, pb, g, r1, r2), c.v_min, c.v_max),
        bounded(next_velocity(c, x, v, pb, g, r1, r2), COORD_LIMIT as int),
        bounded(seq_add(x, next_velocity(c, x, v, pb, g, r1, r2)), 0x800_0000),
        in_box(next_position(c, x, next_velocity(c, x, v, pb, g, r1, r2)), c.lower, c.upper),
{
    lemma_box_bounded(x, c.lower, c.upper);
    lemma_box_bounded(pb, c.lower, c.upper);
    lemma_box_bounded(g, c.lower, c.upper);
    let dp = seq_sub(pb, x);
    let dg = seq_sub(g, x);
    assert(bounded(dp, 0x800_0000));
    assert(bounded(dg, 0x800_0000));
    lemma_scale_bounded(v, c.w, COORD_LIMIT as int, COEF_LIMIT as int, 0x8_0000_0000);
    lemma_scale_bounded(dp, c.c1, 0x800_0000, COEF_LIMIT as int, 0x8_0000_0000);
    lemma_scale_bounded(dg, c.c2, 0x800_0000, COEF_LIMIT as int, 0x8_0000_0000);
    lemma_scale_bounded(seq_scale(dp, c.c1), r1, 0x8_0000_0000, SCALE as int, 0x8_0000_0000);
    lemma_scale_bounded(seq_scale(dg, c.c2), r2, 0x8_0000_0000, SCALE as int, 0x8_0000_0000);
    let s1 = seq_add(seq_scale(v, c.w), seq_scale(seq_scale(dp, c.c1), r1));
    assert(bounded(s1, 0x10_0000_0000));
    let s2 = seq_add(s1, seq_scale(seq_scale(dg, c.c2), r2));
    assert(bounded(s2, 0x18_0000_0000));
    let nv = next_velocity(c, x, v, pb, g, r1, r2);
    lemma_clamp_in_box(s2, c.v_min, c.v_max);
    lemma_box_bounded(nv, c.v_min, c.v_max);
    lemma_box_bounded(nv, c.v_min, c.v_max);
    assert(bounded(seq_add(x, nv), 0x800_0000));
    lemma_clamp_in_box(seq_add(x, nv), c.lower, c.upper);
}

/// The moved particle of `update_particle` has a velocity in the velocity box and a
/// position in the position box.
pub proof fn lemma_moved_particle<O: ObjectiveFunction>(
    o: O,
    c: ConfigModel,
    m: SwarmModel,
    g: Seq<int>,
    i: int,
    r: (i64, i64),
)
    requires
        swarm_inv(o, c, m),
        in_box(g, c.lower, c.upper),
        0 <= i < c.swarm_size,
        0 <= r.0 <= SCALE,
        0 <= r.1 <= SCALE,
    ensures
        ({
            let v = next_velocity(
                c,
                m.particles[i],
                m.velocities[i],
                m.best_positions[i],
                g,
                r.0 as int,
                r.1 as int,
            );
            &&& v.len() == c.dim
            &&& bounded(v, COORD_LIMIT as int)
            &&& in_box(v, c.v_min, c.v_max)
            &&& in_box(next_position(c, m.particles[i], v), c.lower, c.upper)
        }),
{
    assert(in_box(m.particles[i], c.lower, c.upper));
    lemma_velocity_terms(
        c,
        m.particles[i],
        m.velocities[i],
        m.best_positions[i],
        g,
        r.0 as int,
        r.1 as int,
    );
}

/// Updating one particle keeps the invariant, and lowers no best.
#[verifier::rlimit(40)]
pub proof fn lemma_update_inv<O: ObjectiveFunction>(
    o: O,
    c: ConfigModel,
    m: SwarmModel,
    g: Seq<int>,
    i: int,
    r: (i64, i64),
)
    requires
        swarm_inv(o, c, m),
        in_box(g, c.lower, c.upper),
        0 <= i < c.swarm_size,
        0 <= r.0 <= SCALE,
        0 <= r.1 <= SCALE,
    ensures
        swarm_inv(o, c, update_particle(o, c, m, g, i, r)),
        update_particle(o, c, m, g, i, r).global_value <= m.global_value,
        forall|j: int|
            0 <= j < c.swarm_size ==> #[trigger] update_particle(o, c, m, g, i, r).best_values[j]
                <= m.best_values[j],
        in_box(update_particle(o, c, m, g, i, r).velocities[i], c.v_min, c.v_max),
        forall|j: int|
            0 <= j < c.swarm_size && j != i ==> #[trigger] update_particle(
                o,
                c,
                m,
                g,
                i,
                r,
            ).velocities[j] == m.velocities[j],
{
    reveal(update_particle);
    let m2 = update_particle(o, c, m, g, i, r);
    assert(in_box(m.particles[i], c.lower, c.upper));
    lemma_moved_particle(o, c, m, g, i, r);
    let v = next_velocity(
        c,
        m.particles[i],
        m.velocities[i],
        m.best_positions[i],
        g,
        r.0 as int,
        r.1 as int,
    );
    let x = next_position(c, m.particles[i], v);
    let cost = o.cost_spec(x);
    assert(v.len() == c.dim);
    assert(bounded(v, COORD_LIMIT as int));
    assert(in_box(x, c.lower, c.upper));
    assert forall|j: int| 0 <= j < c.swarm_size implies {
        &&& in_box(#[trigger] m2.particles[j], c.lower, c.upper)
        &&& m2.velocities[j].len() == c.dim
        &&& bounded(m2.velocities[j], COORD_LIMIT as int)
        &&& in_box(m2.best_positions[j], c.lower, c.upper)
        &&& m2.best_values[j] == o.cost_spec(m2.best_positions[j])
    } by {
        assert(in_box(m.particles[j], c.lower, c.upper));
    }
    assert forall|j: int| 0 <= j < c.swarm_size implies m2.global_value
        <= #[trigger] m2.best_values[j] by {
        assert(m.global_value <= m.best_values[j]);
    }
    let w = choose|w: int| 0 <= w < c.swarm_size && m.global_value == #[trigger] m.best_values[w];
    if cost < m.global_value {
        assert(m.global_value <= m.best_values[i]);
        assert(m2.global_value == m2.best_values[i]);
    } else {
        assert(m.global_value <= m.best_values[i]);
        assert(m2.global_value == m2.best_values[w]);
    }
    assert(config_error(c, o.dim_spec()) is None);
    assert(m2.particles.len() == c.swarm_size);
    assert(m2.velocities.len() == c.swarm_size);
    assert(m2.best_positions.len() == c.swarm_size);
    assert(m2.best_values.len() == c.swarm_size);
    assert(in_box(m2.global_position, c.lower, c.upper));
    assert(m2.global_value == o.cost_spec(m2.global_position));
    assert(exists|j: int| 0 <= j < c.swarm_size && m2.global_value == #[trigger] m2.best_values[j]);
}

/// Updating the first `k` particles keeps the invariant, and lowers no best.
pub proof fn lemma_step_prefix<O: ObjectiveFunction>(
    o: O,
    c: ConfigModel,
    m: SwarmModel,
    d: Seq<(i64, i64)>,
    k: nat,
)
    requires
        swarm_inv(o, c, m),
        d.len() == m.particles.len(),
        valid_draws(d),
        k <= m.particles.len(),
    ensures
        swarm_inv(o, c, step_prefix(o, c, m, d, k)),
        step_prefix(o, c, m, d, k).global_value <= m.global_value,
        forall|j: int|
            0 <= j < c.swarm_size ==> #[trigger] step_prefix(o, c, m, d, k).best_values[j]
                <= m.best_values[j],
        forall|j: int|
            0 <= j < k ==> in_box(
                #[trigger] step_prefix(o, c, m, d, k).velocities[j],
                c.v_min,
                c.v_max,
            ),
    decreases k,
{
    if k > 0 {
        let k1 = (k - 1) as nat;
        lemma_step_prefix(o, c, m, d, k1);
        let p = step_prefix(o, c, m, d, k1);
        assert(0 <= d[k - 1].0 <= SCALE && 0 <= d[k - 1].1 <= SCALE);
        lemma_update_inv(o, c, p, m.global_position, k - 1, d[k - 1]);
        assert forall|j: int| 0 <= j < c.swarm_size implies #[trigger] step_prefix(
            o,
            c,
            m,
            d,
            k,
        ).best_values[j] <= m.best_values[j] by {
            assert(p.best_values[j] <= m.best_values[j]);
        }
        assert forall|j: int| 0 <= j < k implies in_box(
            #[trigger] step_prefix(o, c, m, d, k).velocities[j],
            c.v_min,
            c.v_max,
        ) by {
            if j < k - 1 {
                assert(in_box(p.velocities[j], c.v_min, c.v_max));
            }
        }
    }
}

/// The first particle of least value is found among the first `k`.
pub proof fn lemma_first_min(vals: Seq<int>, k: nat)
    requires
        1 <= k <= vals.len(),
    ensures
        0 <= first_min(vals, k) < k,
        forall|i: int| 0 <= i < k ==> vals[first_min(vals, k)] <= #[trigger] vals[i],
    decreases k,
{
    if k > 1 {
        lemma_first_min(vals, (k - 1) as nat);
    }
}

/// The seeded model satisfies the swarm invariant.
pub proof fn lemma_initial_inv<O: ObjectiveFunction>(o: O, c: ConfigModel, positions: Seq<Seq<int>>)
    requires
        config_error(c, o.dim_spec()) is None,
        positions_ok(c, positions),
    ensures
        swarm_inv(o, c, initial_model(o, positions)),
{
    let m = initial_model(o, positions);
    let vals = Seq::new(positions.len(), |i: int| o.cost_spec(positions[i]));
    lemma_first_min(vals, positions.len());
    let g = first_min(vals, positions.len());
    assert forall|i: int| 0 <= i < c.swarm_size implies {
        &&& in_box(#[trigger] m.particles[i], c.lower, c.upper)
        &&& m.velocities[i].len() == c.dim
        &&& bounded(m.velocities[i], COORD_LIMIT as int)
        &&& in_box(m.best_positions[i], c.lower, c.upper)
        &&& m.best_values[i] == o.cost_spec(m.best_positions[i])
    } by {
        assert(in_box(positions[i], c.lower, c.upper));
    }
    assert(in_box(positions[g], c.lower, c.upper));
    assert forall|i: int| 0 <= i < c.swarm_size implies m.global_value
        <= #[trigger] m.best_values[i] by {
        assert(vals[g] <= vals[i]);
    }
    assert(m.global_value == m.best_values[g]);
}

/// A run extended by one step is a run, ending in the new state.
pub proof fn lemma_run_push<O: ObjectiveFunction>(
    o: O,
    c: ConfigModel,
    m: SwarmModel,
    trace: Seq<SwarmModel>,
    next: SwarmModel,
)
    requires
        is_run(o, c, m, trace),
        is_step(o, c, run_end(m, trace), next),
    ensures
        is_run(o, c, m, trace.push(next)),
        run_end(m, trace.push(next)) == next,
{
    let t2 = trace.push(next);
    assert forall|k: int| 0 <= k < t2.len() implies is_step(
        o,
        c,
        before_step(m, t2, k),
        #[trigger] t2[k],
    ) by {
        if k < trace.len() {
            assert(t2[k] == trace[k]);
            assert(before_step(m, t2, k) == before_step(m, trace, k));
        } else {
            assert(before_step(m, t2, k) == run_end(m, trace));
        }
    }
}

} // verus!
