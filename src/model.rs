//! The mathematical model of a swarm: its configuration, its state, the update
//! rule as spec functions, and the invariant every reachable state satisfies.
use vstd::prelude::*;

use crate::objective_functions::{within_limit, ObjectiveFunction, COORD_LIMIT, MAX_DIM};
use crate::particle::{in_box, seq_add, seq_clamp, seq_scale, seq_sub, valid_box, Particle, SCALE};
use crate::swarm::{SolverState, SwarmConfig, SwarmError};

verus! {

/// Largest magnitude of the cognitive, social and inertia factors (256.0 in real units).
pub const COEF_LIMIT: i64 = 16777216;

/// The mathematical content of a `SwarmConfig`.
pub ghost struct ConfigModel {
    pub dim: nat,
    pub swarm_size: nat,
    pub c1: int,
    pub c2: int,
    pub w: int,
    pub v_min: Seq<int>,
    pub v_max: Seq<int>,
    pub lower: Seq<int>,
    pub upper: Seq<int>,
    pub max_iterations: nat,
    pub keep_history: bool,
}

impl View for SwarmConfig {
    type V = ConfigModel;

    open spec fn view(&self) -> ConfigModel {
        ConfigModel {
            dim: self.dim as nat,
            swarm_size: self.swarm_size as nat,
            c1: self.cognitive_factor as int,
            c2: self.social_factor as int,
            w: self.inertia as int,
            v_min: self.v_min@,
            v_max: self.v_max@,
            lower: self.lower_bound@,
            upper: self.upper_bound@,
            max_iterations: self.max_iterations as nat,
            keep_history: self.keep_history,
        }
    }
}

pub open spec fn coef_ok(k: int) -> bool {
    -COEF_LIMIT <= k <= COEF_LIMIT
}

/// The first rule a configuration breaks, for an objective of dimension `odim`.
pub open spec fn config_error(c: ConfigModel, odim: nat) -> Option<SwarmError> {
    if c.dim != odim || c.v_min.len() != c.dim || c.v_max.len() != c.dim || c.lower.len()
        != c.dim || c.upper.len() != c.dim {
        Some(SwarmError::DimensionMismatch)
    } else if !valid_box(c.lower, c.upper) || !valid_box(c.v_min, c.v_max) {
        Some(SwarmError::InvalidBounds)
    } else if c.swarm_size == 0 {
        Some(SwarmError::EmptySwarm)
    } else if c.dim > MAX_DIM || !within_limit(c.lower) || !within_limit(c.upper) || !within_limit(
        c.v_min,
    ) || !within_limit(c.v_max) || !coef_ok(c.c1) || !coef_ok(c.c2) || !coef_ok(c.w) {
        Some(SwarmError::OutOfRange)
    } else {
        None
    }
}

/// The mathematical content of a `SolverState`.
pub ghost struct SwarmModel {
    pub particles: Seq<Seq<int>>,
    pub velocities: Seq<Seq<int>>,
    pub best_positions: Seq<Seq<int>>,
    pub best_values: Seq<int>,
    pub global_position: Seq<int>,
    pub global_value: int,
}

impl View for SolverState {
    type V = SwarmModel;

    open spec fn view(&self) -> SwarmModel {
        SwarmModel {
            particles: self.particles@.map_values(|p: Particle| p@),
            velocities: self.velocities@.map_values(|p: Particle| p@),
            best_positions: self.particle_bests@.map_values(|b: (Particle, i128)| b.0@),
            best_values: self.particle_bests@.map_values(|b: (Particle, i128)| b.1 as int),
            global_position: self.global_best_x@,
            global_value: self.global_best_value as int,
        }
    }
}

/// The invariant of a swarm: every vector has the swarm's dimension, positions lie in
/// the position box, velocities within the coordinate limit, each personal best holds the cost of its position, and the global best is
/// the least personal best.
pub open spec fn swarm_inv<O: ObjectiveFunction>(o: O, c: ConfigModel, m: SwarmModel) -> bool {
    &&& config_error(c, o.dim_spec()) is None
    &&& m.particles.len() == c.swarm_size
    &&& m.velocities.len() == c.swarm_size
    &&& m.best_positions.len() == c.swarm_size
    &&& m.best_values.len() == c.swarm_size
    &&& forall|i: int|
        0 <= i < c.swarm_size ==> {
            &&& in_box(#[trigger] m.particles[i], c.lower, c.upper)
            &&& m.velocities[i].len() == c.dim
            &&& bounded(m.velocities[i], COORD_LIMIT as int)
            &&& in_box(m.best_positions[i], c.lower, c.upper)
            &&& m.best_values[i] == o.cost_spec(m.best_positions[i])
        }
    &&& in_box(m.global_position, c.lower, c.upper)
    &&& m.global_value == o.cost_spec(m.global_position)
    &&& forall|i: int| 0 <= i < c.swarm_size ==> m.global_value <= #[trigger] m.best_values[i]
    &&& exists|i: int| 0 <= i < c.swarm_size && m.global_value == #[trigger] m.best_values[i]
}

/// Index of the first least value among `vals[0..k]`.
pub open spec fn first_min(vals: Seq<int>, k: nat) -> int
    decreases k,
{
    if k <= 1 {
        0
    } else {
        let j = first_min(vals, (k - 1) as nat);
        if vals[k - 1] < vals[j] {
            k - 1
        } else {
            j
        }
    }
}

/// The swarm seeded with `positions`: zero velocities, each particle its own best,
/// and the first particle of least cost as the global best.
pub open spec fn initial_model<O: ObjectiveFunction>(o: O, positions: Seq<Seq<int>>) -> SwarmModel {
    let vals = Seq::new(positions.len(), |i: int| o.cost_spec(positions[i]));
    let g = first_min(vals, positions.len());
    SwarmModel {
        particles: positions,
        velocities: Seq::new(positions.len(), |i: int| Seq::new(positions[i].len(), |j: int| 0int)),
        best_positions: positions,
        best_values: vals,
        global_position: positions[g],
        global_value: vals[g],
    }
}

/// Every draw of a step is a fixed-point number of the unit interval.
pub open spec fn valid_draws(d: Seq<(i64, i64)>) -> bool {
    forall|i: int|
        0 <= i < d.len() ==> 0 <= (#[trigger] d[i]).0 <= SCALE && 0 <= d[i].1 <= SCALE
}

/// The new velocity of a particle: inertia, plus the pull toward its own best, plus
/// the pull toward `g`, clamped into the velocity box.
pub open spec fn next_velocity(
    c: ConfigModel,
    x: Seq<int>,
    v: Seq<int>,
    pb: Seq<int>,
    g: Seq<int>,
    r1: int,
    r2: int,
) -> Seq<int> {
    let inertia = seq_scale(v, c.w);
    let cognitive = seq_scale(seq_scale(seq_sub(pb, x), c.c1), r1);
    let social = seq_scale(seq_scale(seq_sub(g, x), c.c2), r2);
    seq_clamp(seq_add(seq_add(inertia, cognitive), social), c.v_min, c.v_max)
}

/// The new position of a particle, clamped into the position box.
pub open spec fn next_position(c: ConfigModel, x: Seq<int>, v: Seq<int>) -> Seq<int> {
    seq_clamp(seq_add(x, v), c.lower, c.upper)
}

/// Particle `i` moved with draws `r`, pulled toward `g`, and the bests updated
/// when its new cost is strictly lower.
#[verifier::opaque]
pub open spec fn update_particle<O: ObjectiveFunction>(
    o: O,
    c: ConfigModel,
    m: SwarmModel,
    g: Seq<int>,
    i: int,
    r: (i64, i64),
) -> SwarmModel {
    let v = next_velocity(
        c,
        m.particles[i],
        m.velocities[i],
        m.best_positions[i],
        g,
        r.0 as int,
        r.1 as int,
    );
    let x = next_position(c, m.particles[i], v);
    let cost = o.cost_spec(x);
    SwarmModel {
        particles: m.particles.update(i, x),
        velocities: m.velocities.update(i, v),
        best_positions: if cost < m.best_values[i] {
            m.best_positions.update(i, x)
        } else {
            m.best_positions
        },
        best_values: if cost < m.best_values[i] {
            m.best_values.update(i, cost)
        } else {
            m.best_values
        },
        global_position: if cost < m.global_value {
            x
        } else {
            m.global_position
        },
        global_value: if cost < m.global_value {
            cost
        } else {
            m.global_value
        },
    }
}

/// The first `k` particles of `m` updated in index order, all pulled toward the
/// global best position that `m` holds.
pub open spec fn step_prefix<O: ObjectiveFunction>(
    o: O,
    c: ConfigModel,
    m: SwarmModel,
    d: Seq<(i64, i64)>,
    k: nat,
) -> SwarmModel
    decreases k,
{
    if k == 0 {
        m
    } else {
        update_particle(
            o,
            c,
            step_prefix(o, c, m, d, (k - 1) as nat),
            m.global_position,
            k - 1,
            d[k - 1],
        )
    }
}

/// One step of the swarm with draws `d`, one pair per particle.
pub open spec fn step_model<O: ObjectiveFunction>(
    o: O,
    c: ConfigModel,
    m: SwarmModel,
    d: Seq<(i64, i64)>,
) -> SwarmModel {
    step_prefix(o, c, m, d, m.particles.len())
}

/// `m2` follows from `m` by one step with some valid draws.
#[verifier::opaque]
pub open spec fn is_step<O: ObjectiveFunction>(
    o: O,
    c: ConfigModel,
    m: SwarmModel,
    m2: SwarmModel,
) -> bool {
    exists|d: Seq<(i64, i64)>|
        d.len() == m.particles.len() && valid_draws(d) && m2 == step_model(o, c, m, d)
}

/// Every component of `a` lies in `[-b, b]`.
pub open spec fn bounded(a: Seq<int>, b: int) -> bool {
    forall|j: int| 0 <= j < a.len() ==> -b <= #[trigger] a[j] <= b
}

/// Each of `positions` has the swarm's dimension and lies in the position box, one per particle.
pub open spec fn positions_ok(c: ConfigModel, positions: Seq<Seq<int>>) -> bool {
    &&& positions.len() == c.swarm_size
    &&& forall|i: int|
        0 <= i < positions.len() ==> in_box(#[trigger] positions[i], c.lower, c.upper)
}

/// Why a swarm with configuration `c`, an objective of dimension `odim` and initial
/// `positions` cannot be built, if it cannot.
pub open spec fn seeding_error(c: ConfigModel, odim: nat, positions: Seq<Seq<int>>) -> Option<
    SwarmError,
> {
    if config_error(c, odim) is Some {
        config_error(c, odim)
    } else if !positions_ok(c, positions) {
        Some(SwarmError::InvalidPositions)
    } else {
        None
    }
}

/// The model of a list of vectors.
pub open spec fn views(ps: Seq<Particle>) -> Seq<Seq<int>> {
    ps.map_values(|p: Particle| p@)
}

/// The models of a list of snapshots.
pub open spec fn snapshots(h: Seq<SolverState>) -> Seq<SwarmModel> {
    h.map_values(|s: SolverState| s@)
}

/// The state a run starting at `m` had before its step `t`.
pub open spec fn before_step(m: SwarmModel, trace: Seq<SwarmModel>, t: int) -> SwarmModel {
    if t == 0 {
        m
    } else {
        trace[t - 1]
    }
}

/// The state a run starting at `m` ends in.
pub open spec fn run_end(m: SwarmModel, trace: Seq<SwarmModel>) -> SwarmModel {
    if trace.len() == 0 {
        m
    } else {
        trace.last()
    }
}

/// `trace[t]` is the state right after step `t` of a run starting at `m`.
pub open spec fn is_run<O: ObjectiveFunction>(
    o: O,
    c: ConfigModel,
    m: SwarmModel,
    trace: Seq<SwarmModel>,
) -> bool {
    forall|t: int| 0 <= t < trace.len() ==> is_step(o, c, before_step(m, trace, t), #[trigger] trace[t])
}

/// The configuration model of the constructor's arguments.
pub open spec fn config_model(
    dim: usize,
    swarm_size: usize,
    cognitive_factor: i64,
    social_factor: i64,
    inertia: i64,
    v_min: Seq<int>,
    v_max: Seq<int>,
    lower_bound: Seq<int>,
    upper_bound: Seq<int>,
    max_iterations: usize,
    keep_history: bool,
) -> ConfigModel {
    ConfigModel {
        dim: dim as nat,
        swarm_size: swarm_size as nat,
        c1: cognitive_factor as int,
        c2: social_factor as int,
        w: inertia as int,
        v_min,
        v_max,
        lower: lower_bound,
        upper: upper_bound,
        max_iterations: max_iterations as nat,
        keep_history,
    }
}

} // verus!
