//! Properties of the swarm that hold across steps and runs.
use vstd::prelude::*;

use crate::objective_functions::ObjectiveFunction;
use crate::particle::in_box;
use crate::lemmas::lemma_step_prefix;
use crate::model::{
    before_step, initial_model, is_run, is_step, step_model, swarm_inv, valid_draws, ConfigModel,
    SwarmModel,
};

verus! {

/// A step keeps the swarm invariant: every vector keeps the swarm's dimension,
/// every particle stays in the position box, and every velocity lies in the
/// velocity box afterwards.
pub proof fn lemma_step_keeps_invariant<O: ObjectiveFunction>(
    o: O,
    c: ConfigModel,
    m: SwarmModel,
    d: Seq<(i64, i64)>,
)
    requires
        swarm_inv(o, c, m),
        d.len() == m.particles.len(),
        valid_draws(d),
    ensures
        swarm_inv(o, c, step_model(o, c, m, d)),
        forall|i: int|
            0 <= i < c.swarm_size ==> in_box(
                #[trigger] step_model(o, c, m, d).particles[i],
                c.lower,
                c.upper,
            ) && in_box(step_model(o, c, m, d).velocities[i], c.v_min, c.v_max),
{
    lemma_step_prefix(o, c, m, d, m.particles.len());
}

/// A step never raises the global best value.
pub proof fn lemma_global_best_never_increases<O: ObjectiveFunction>(
    o: O,
    c: ConfigModel,
    m: SwarmModel,
    d: Seq<(i64, i64)>,
)
    requires
        swarm_inv(o, c, m),
        d.len() == m.particles.len(),
        valid_draws(d),
    ensures
        step_model(o, c, m, d).global_value <= m.global_value,
{
    lemma_step_prefix(o, c, m, d, m.particles.len());
}

/// A step never raises any particle's personal best value.
pub proof fn lemma_personal_bests_never_increase<O: ObjectiveFunction>(
    o: O,
    c: ConfigModel,
    m: SwarmModel,
    d: Seq<(i64, i64)>,
)
    requires
        swarm_inv(o, c, m),
        d.len() == m.particles.len(),
        valid_draws(d),
    ensures
        forall|i: int|
            0 <= i < c.swarm_size ==> #[trigger] step_model(o, c, m, d).best_values[i]
                <= m.best_values[i],
{
    lemma_step_prefix(o, c, m, d, m.particles.len());
}

/// Along a run, every state keeps the invariant, and from each iteration to the next
/// neither the global best value nor any personal best value increases.
pub proof fn lemma_run_bests_never_increase<O: ObjectiveFunction>(
    o: O,
    c: ConfigModel,
    m: SwarmModel,
    trace: Seq<SwarmModel>,
)
    requires
        swarm_inv(o, c, m),
        is_run(o, c, m, trace),
    ensures
        forall|t: int|
            0 <= t < trace.len() ==> {
                &&& swarm_inv(o, c, #[trigger] trace[t])
                &&& trace[t].global_value <= before_step(m, trace, t).global_value
                &&& forall|i: int|
                    0 <= i < c.swarm_size ==> trace[t].best_values[i] <= before_step(
                        m,
                        trace,
                        t,
                    ).best_values[i]
            },
    decreases trace.len(),
{
    if trace.len() > 0 {
        let n = trace.len() - 1;
        let prefix = trace.subrange(0, n);
        assert forall|t: int| 0 <= t < prefix.len() implies is_step(
            o,
            c,
            before_step(m, prefix, t),
            #[trigger] prefix[t],
        ) by {
            assert(prefix[t] == trace[t]);
            assert(before_step(m, prefix, t) == before_step(m, trace, t));
            assert(is_step(o, c, before_step(m, trace, t), trace[t]));
        }
        lemma_run_bests_never_increase(o, c, m, prefix);
        let b = before_step(m, trace, n);
        assert(swarm_inv(o, c, b)) by {
            if n > 0 {
                assert(prefix[n - 1] == trace[n - 1]);
            }
        }
        assert(is_step(o, c, b, trace[n]));
        reveal(is_step);
        let d = choose|d: Seq<(i64, i64)>|
            d.len() == b.particles.len() && valid_draws(d) && trace[n] == step_model(o, c, b, d);
        lemma_step_prefix(o, c, b, d, b.particles.len());
        assert forall|t: int| 0 <= t < trace.len() implies {
            &&& swarm_inv(o, c, #[trigger] trace[t])
            &&& trace[t].global_value <= before_step(m, trace, t).global_value
            &&& forall|i: int|
                0 <= i < c.swarm_size ==> trace[t].best_values[i] <= before_step(
                    m,
                    trace,
                    t,
                ).best_values[i]
        } by {
            if t < n {
                assert(prefix[t] == trace[t]);
                assert(before_step(m, prefix, t) == before_step(m, trace, t));
            }
        }
    }
}

/// The same seeding positions and the same draws give the same swarm: a step is a
/// function of the state, the configuration, the objective and the draws alone.
pub proof fn lemma_replay_is_deterministic<O: ObjectiveFunction>(
    o: O,
    c: ConfigModel,
    p1: Seq<Seq<int>>,
    p2: Seq<Seq<int>>,
    d1: Seq<(i64, i64)>,
    d2: Seq<(i64, i64)>,
)
    requires
        p1 == p2,
        d1 == d2,
    ensures
        initial_model(o, p1) == initial_model(o, p2),
        step_model(o, c, initial_model(o, p1), d1) == step_model(o, c, initial_model(o, p2), d2),
{
}

} // verus!
