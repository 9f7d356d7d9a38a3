//! The swarm engine: initialisation, the synchronous update step and the run loop.
use vstd::prelude::*;

use crate::lemmas::{
    lemma_box_bounded, lemma_initial_inv, lemma_run_push, lemma_step_prefix, lemma_update_inv,
    lemma_velocity_terms,
};
use crate::model::{
    coef_ok, config_error, config_model, first_min, initial_model, is_run, is_step, positions_ok, run_end,
    seeding_error, snapshots, step_model, step_prefix, swarm_inv, update_particle, valid_draws,
    views, ConfigModel, SwarmModel, COEF_LIMIT,
};
use crate::objective_functions::{within_limit, ObjectiveFunction, COORD_LIMIT, MAX_DIM};
use crate::particle::{in_box, valid_box, Particle, Velocity, SCALE};
use crate::random::RandomSource;

verus! {

/// Why a swarm could not be built.
#[derive(Debug, Clone, Copy, PartialEq, Eq, Structural)]
pub enum SwarmError {
    /// The objective or a bound vector does not have the swarm's dimension.
    DimensionMismatch,
    /// A lower bound exceeds its upper bound, for positions or for velocities.
    InvalidBounds,
    /// The swarm has no particle.
    EmptySwarm,
    /// The dimension, a bound or a factor is beyond what the engine represents.
    OutOfRange,
    /// The initial positions are not one per particle, each inside the position box.
    InvalidPositions,
}

/// The parameters of a swarm.
pub struct SwarmConfig {
    pub dim: usize,
    pub swarm_size: usize,
    pub cognitive_factor: i64,
    pub social_factor: i64,
    pub inertia: i64,
    pub v_min: Velocity,
    pub v_max: Velocity,
    pub lower_bound: Particle,
    pub upper_bound: Particle,
    pub max_iterations: usize,
    pub keep_history: bool,
}

/// A copy of the swarm's population and bests at one iteration boundary.
pub struct SolverState {
    pub particles: Vec<Particle>,
    pub velocities: Vec<Velocity>,
    pub particle_bests: Vec<(Particle, i128)>,
    pub global_best_x: Particle,
    pub global_best_value: i128,
}

fn check_box(lo: &Particle, hi: &Particle) -> (r: bool)
    requires
        lo@.len() == hi@.len(),
    ensures
        r == valid_box(lo@, hi@),
{
    let n = lo.dim();
    let mut j: usize = 0;
    while j < n
        invariant
            n == lo@.len(),
            n == hi@.len(),
            j <= n,
            forall|k: int| 0 <= k < j ==> #[trigger] lo@[k] <= hi@[k],
        decreases n - j,
    {
        if lo.get(j) > hi.get(j) {
            return false;
        }
        j = j + 1;
    }
    true
}

fn check_limit(p: &Particle) -> (r: bool)
    ensures
        r == within_limit(p@),
{
    let n = p.dim();
    let mut j: usize = 0;
    while j < n
        invariant
            n == p@.len(),
            j <= n,
            forall|k: int| 0 <= k < j ==> -COORD_LIMIT <= #[trigger] p@[k] <= COORD_LIMIT,
        decreases n - j,
    {
        let x = p.get(j);
        if x < -COORD_LIMIT || x > COORD_LIMIT {
            return false;
        }
        j = j + 1;
    }
    true
}

fn check_in_box(p: &Particle, lo: &Particle, hi: &Particle) -> (r: bool)
    ensures
        r == in_box(p@, lo@, hi@),
{
    let n = p.dim();
    if lo.dim() != n || hi.dim() != n {
        return false;
    }
    let mut j: usize = 0;
    while j < n
        invariant
            n == p@.len(),
            n == lo@.len(),
            n == hi@.len(),
            j <= n,
            forall|k: int| 0 <= k < j ==> lo@[k] <= #[trigger] p@[k] <= hi@[k],
        decreases n - j,
    {
        let x = p.get(j);
        if x < lo.get(j) || x > hi.get(j) {
            return false;
        }
        j = j + 1;
    }
    true
}

fn coef_in_range(k: i64) -> (r: bool)
    ensures
        r == coef_ok(k as int),
{
    -COEF_LIMIT <= k && k <= COEF_LIMIT
}

/// Checks a configuration against an objective of dimension `objective_dim`.
pub fn check_config(config: &SwarmConfig, objective_dim: usize) -> (r: Result<(), SwarmError>)
    ensures
        match r {
            Ok(_) => config_error(config@, objective_dim as nat) is None,
            Err(e) => config_error(config@, objective_dim as nat) == Some(e),
        },
{
    let dim = config.dim;
    if dim != objective_dim || config.v_min.dim() != dim || config.v_max.dim() != dim
        || config.lower_bound.dim() != dim || config.upper_bound.dim() != dim {
        return Err(SwarmError::DimensionMismatch);
    }
    if !check_box(&config.lower_bound, &config.upper_bound) || !check_box(
        &config.v_min,
        &config.v_max,
    ) {
        return Err(SwarmError::InvalidBounds);
    }
    if config.swarm_size == 0 {
        return Err(SwarmError::EmptySwarm);
    }
    if dim > MAX_DIM || !check_limit(&config.lower_bound) || !check_limit(&config.upper_bound)
        || !check_limit(&config.v_min) || !check_limit(&config.v_max) || !coef_in_range(
        config.cognitive_factor,
    ) || !coef_in_range(config.social_factor) || !coef_in_range(config.inertia) {
        return Err(SwarmError::OutOfRange);
    }
    Ok(())
}

fn copy_all(ps: &Vec<Particle>) -> (r: Vec<Particle>)
    ensures
        views(r@) == views(ps@),
{
    let mut out: Vec<Particle> = Vec::with_capacity(ps.len());
    let mut i: usize = 0;
    while i < ps.len()
        invariant
            i <= ps@.len(),
            out@.len() == i,
            forall|k: int| 0 <= k < i ==> (#[trigger] out@[k])@ == ps@[k]@,
        decreases ps@.len() - i,
    {
        out.push(ps[i].copy());
        i = i + 1;
    }
    assert(views(out@) =~= views(ps@));
    out
}

impl SolverState {
    /// A copy of this snapshot, sharing nothing with it.
    pub fn copy(&self) -> (r: SolverState)
        ensures
            r@ == self@,
    {
        let mut bests: Vec<(Particle, i128)> = Vec::with_capacity(self.particle_bests.len());
        let mut i: usize = 0;
        while i < self.particle_bests.len()
            invariant
                i <= self.particle_bests@.len(),
                bests@.len() == i,
                forall|k: int|
                    0 <= k < i ==> (#[trigger] bests@[k]).0@ == self.particle_bests@[k].0@
                        && bests@[k].1 == self.particle_bests@[k].1,
            decreases self.particle_bests@.len() - i,
        {
            let b = &self.particle_bests[i];
            bests.push((b.0.copy(), b.1));
            i = i + 1;
        }
        let r = SolverState {
            particles: copy_all(&self.particles),
            velocities: copy_all(&self.velocities),
            particle_bests: bests,
            global_best_x: self.global_best_x.copy(),
            global_best_value: self.global_best_value,
        };
        assert(r@.best_positions =~= self@.best_positions);
        assert(r@.best_values =~= self@.best_values);
        r
    }
}

/// The outcome of a run: the best pair found, the parameters used and, when history
/// was kept, one snapshot per step.
pub struct SolverResult {
    pub solution: (Particle, i128),
    pub swarm_size: usize,
    pub cognitive_factor: i64,
    pub social_factor: i64,
    pub bounds: (Particle, Particle),
    pub max_iterations: usize,
    pub history: Vec<SolverState>,
}

/// A particle-swarm optimiser: the configuration, the objective and the live swarm.
pub struct ParticleSwarm<O> {
    config: SwarmConfig,
    objective: O,
    state: SolverState,
}

impl<O: ObjectiveFunction> ParticleSwarm<O> {
    pub closed spec fn config_view(&self) -> ConfigModel {
        self.config@
    }

    pub closed spec fn objective_view(&self) -> O {
        self.objective
    }

    pub closed spec fn state_view(&self) -> SwarmModel {
        self.state@
    }

    /// The swarm invariant holds of this engine.
    pub open spec fn wf(&self) -> bool {
        swarm_inv(self.objective_view(), self.config_view(), self.state_view())
    }

    /// The configuration.
    pub fn config(&self) -> (r: &SwarmConfig)
        ensures
            r@ == self.config_view(),
    {
        &self.config
    }

    /// The objective.
    pub fn objective(&self) -> (r: &O)
        ensures
            *r == self.objective_view(),
    {
        &self.objective
    }

    /// The live swarm.
    pub fn state(&self) -> (r: &SolverState)
        ensures
            r@ == self.state_view(),
    {
        &self.state
    }

    /// A swarm of `swarm_size` particles, each component `k` of each particle drawn
    /// uniformly from `[lower_bound[k], upper_bound[k]]`, with zero velocities.
    pub fn new(
        dim: usize,
        objective: O,
        swarm_size: usize,
        cognitive_factor: i64,
        social_factor: i64,
        inertia: i64,
        v_min: Velocity,
        v_max: Velocity,
        lower_bound: Particle,
        upper_bound: Particle,
        max_iterations: usize,
        keep_history: bool,
        rng: &mut RandomSource,
    ) -> (r: Result<Self, SwarmError>)
        ensures
            ({
                let cm = config_model(
                    dim,
                    swarm_size,
                    cognitive_factor,
                    social_factor,
                    inertia,
                    v_min@,
                    v_max@,
                    lower_bound@,
                    upper_bound@,
                    max_iterations,
                    keep_history,
                );
                match r {
                    Ok(s) => {
                        &&& config_error(cm, objective.dim_spec()) is None
                        &&& s.wf()
                        &&& s.config_view() == cm
                        &&& s.objective_view() == objective
                        &&& s.state_view() == initial_model(objective, s.state_view().particles)
                    },
                    Err(e) => config_error(cm, objective.dim_spec()) == Some(e),
                }
            }),
    {
        let config = SwarmConfig {
            dim,
            swarm_size,
            cognitive_factor,
            social_factor,
            inertia,
            v_min,
            v_max,
            lower_bound,
            upper_bound,
            max_iterations,
            keep_history,
        };
        match check_config(&config, objective.dimension()) {
            Ok(_) => {},
            Err(e) => {
                return Err(e);
            },
        }
        let ghost c = config@;
        let mut positions: Vec<Particle> = Vec::with_capacity(swarm_size);
        let mut i: usize = 0;
        while i < swarm_size
            invariant
                c == config@,
                config_error(c, objective.dim_spec()) is None,
                i <= swarm_size,
                swarm_size == c.swarm_size,
                dim == c.dim,
                positions@.len() == i,
                forall|k: int|
                    0 <= k < i ==> in_box(#[trigger] positions@[k]@, c.lower, c.upper),
            decreases swarm_size - i,
        {
            let mut coords: Vec<i64> = Vec::with_capacity(dim);
            let mut j: usize = 0;
            while j < dim
                invariant
                    c == config@,
                    config_error(c, objective.dim_spec()) is None,
                    dim == c.dim,
                    j <= dim,
                    coords@.len() == j,
                    forall|k: int|
                        0 <= k < j ==> c.lower[k] <= #[trigger] coords@[k] <= c.upper[k],
                decreases dim - j,
            {
                let lo = config.lower_bound.get(j);
                let hi = config.upper_bound.get(j);
                let x = rng.between(lo, hi);
                coords.push(x);
                j = j + 1;
            }
            let p = Particle::new(coords);
            assert(in_box(p@, c.lower, c.upper));
            positions.push(p);
            i = i + 1;
        }
        assert(positions_ok(c, views(positions@)));
        match Self::from_positions(config, objective, positions) {
            Ok(s) => Ok(s),
            Err(e) => Err(e),
        }
    }

    /// A swarm seeded with `positions`, one per particle.
    pub fn from_positions(config: SwarmConfig, objective: O, positions: Vec<Particle>) -> (r:
        Result<Self, SwarmError>)
        ensures
            match r {
                Ok(s) => {
                    &&& seeding_error(config@, objective.dim_spec(), views(positions@)) is None
                    &&& s.wf()
                    &&& s.config_view() == config@
                    &&& s.objective_view() == objective
                    &&& s.state_view() == initial_model(objective, views(positions@))
                },
                Err(e) => seeding_error(config@, objective.dim_spec(), views(positions@)) == Some(
                    e,
                ),
            },
    {
        match check_config(&config, objective.dimension()) {
            Ok(_) => {},
            Err(e) => {
                return Err(e);
            },
        }
        let ghost c = config@;
        let ghost ps = views(positions@);
        let n = positions.len();
        assert(ps.len() == n);
        if n != config.swarm_size {
            return Err(SwarmError::InvalidPositions);
        }
        let mut i: usize = 0;
        while i < n
            invariant
                n == positions@.len(),
                ps == views(positions@),
                c == config@,
                config_error(c, objective.dim_spec()) is None,
                i <= n,
                forall|k: int| 0 <= k < i ==> in_box(#[trigger] ps[k], c.lower, c.upper),
            decreases n - i,
        {
            assert(ps[i as int] == positions@[i as int]@);
            if !check_in_box(&positions[i], &config.lower_bound, &config.upper_bound) {
                assert(!in_box(ps[i as int], c.lower, c.upper));
                assert(!positions_ok(c, ps));
                return Err(SwarmError::InvalidPositions);
            }
            i = i + 1;
        }
        assert(positions_ok(c, ps));
        let ghost vals = Seq::new(n as nat, |k: int| objective.cost_spec(ps[k]));
        let mut velocities: Vec<Velocity> = Vec::with_capacity(n);
        let mut bests: Vec<(Particle, i128)> = Vec::with_capacity(n);
        let mut gi: usize = 0;
        let mut gv: i128 = 0;
        let mut i: usize = 0;
        while i < n
            invariant
                n == positions@.len(),
                ps == views(positions@),
                c == config@,
                config_error(c, objective.dim_spec()) is None,
                positions_ok(c, ps),
                vals == Seq::new(n as nat, |k: int| objective.cost_spec(ps[k])),
                i <= n,
                velocities@.len() == i,
                bests@.len() == i,
                forall|k: int|
                    0 <= k < i ==> (#[trigger] velocities@[k])@ == Seq::new(
                        c.dim,
                        |j: int| 0int,
                    ),
                forall|k: int|
                    0 <= k < i ==> (#[trigger] bests@[k]).0@ == ps[k] && bests@[k].1 == vals[k],
                i >= 1 ==> gi == first_min(vals, i as nat),
                i >= 1 ==> gi < i && gv == vals[gi as int],
            decreases n - i,
        {
            let p = &positions[i];
            proof {
                assert(in_box(ps[i as int], c.lower, c.upper));
                lemma_box_bounded(ps[i as int], c.lower, c.upper);
            }
            let cost = objective.cost(p);
            velocities.push(Particle::zeros(config.dim));
            bests.push((p.copy(), cost));
            if i == 0 || cost < gv {
                gi = i;
                gv = cost;
            }
            i = i + 1;
        }
        let gx = positions[gi].copy();
        let state = SolverState {
            particles: positions,
            velocities,
            particle_bests: bests,
            global_best_x: gx,
            global_best_value: gv,
        };
        let ghost m = initial_model(objective, ps);
        assert(state@.particles =~= m.particles);
        assert(state@.velocities =~= m.velocities);
        assert(state@.best_positions =~= m.best_positions);
        assert(state@.best_values =~= m.best_values);
        proof {
            lemma_initial_inv(objective, c, ps);
        }
        Ok(ParticleSwarm { config, objective, state })
    }

    /// One synchronous update of every particle, in index order, with the draws
    /// `draws[i]` for particle `i`. Every particle is pulled toward the global best
    /// as it stood when the step began.
    pub fn step_with_draws(&mut self, draws: &Vec<(i64, i64)>)
        requires
            old(self).wf(),
            draws@.len() == old(self).state_view().particles.len(),
            valid_draws(draws@),
        ensures
            final(self).wf(),
            final(self).config_view() == old(self).config_view(),
            final(self).objective_view() == old(self).objective_view(),
            final(self).state_view() == step_model(
                old(self).objective_view(),
                old(self).config_view(),
                old(self).state_view(),
                draws@,
            ),
    {
        let ghost o = self.objective;
        let ghost c = self.config@;
        let ghost m0 = self.state@;
        let ghost d = draws@;
        let g = self.state.global_best_x.copy();
        let n = self.state.particles.len();
        let mut i: usize = 0;
        while i < n
            invariant
                o == self.objective,
                c == self.config@,
                d == draws@,
                swarm_inv(o, c, m0),
                d.len() == m0.particles.len(),
                valid_draws(d),
                n == m0.particles.len(),
                g@ == m0.global_position,
                i <= n,
                self.state@ == step_prefix(o, c, m0, d, i as nat),
            decreases n - i,
        {
            let ghost prev = self.state@;
            proof {
                lemma_step_prefix(o, c, m0, d, i as nat);
                assert(0 <= d[i as int].0 <= SCALE && 0 <= d[i as int].1 <= SCALE);
                assert(in_box(prev.particles[i as int], c.lower, c.upper));
                lemma_velocity_terms(
                    c,
                    prev.particles[i as int],
                    prev.velocities[i as int],
                    prev.best_positions[i as int],
                    g@,
                    d[i as int].0 as int,
                    d[i as int].1 as int,
                );
                lemma_update_inv(o, c, prev, g@, i as int, d[i as int]);
            }
            let (r1, r2) = draws[i];
            let nv;
            let nx;
            {
                let x = &self.state.particles[i];
                let v = &self.state.velocities[i];
                let pb = &self.state.particle_bests[i].0;
                assert(x@ == prev.particles[i as int]);
                assert(v@ == prev.velocities[i as int]);
                assert(pb@ == prev.best_positions[i as int]);
                let inertia = v.mul(self.config.inertia);
                let cognitive = pb.sub(x).mul(self.config.cognitive_factor).mul(r1);
                let social = g.sub(x).mul(self.config.social_factor).mul(r2);
                nv = inertia.add(&cognitive).add(&social).restrict(
                    &self.config.v_min,
                    &self.config.v_max,
                );
                nx = x.add(&nv).restrict(&self.config.lower_bound, &self.config.upper_bound);
            }
            proof {
                lemma_box_bounded(nx@, c.lower, c.upper);
            }
            let cost = self.objective.cost(&nx);
            if cost < self.state.particle_bests[i].1 {
                self.state.particle_bests.set(i, (nx.copy(), cost));
            }
            if cost < self.state.global_best_value {
                self.state.global_best_x = nx.copy();
                self.state.global_best_value = cost;
            }
            self.state.particles.set(i, nx);
            self.state.velocities.set(i, nv);
            proof {
                reveal(update_particle);
                let next = update_particle(o, c, prev, g@, i as int, d[i as int]);
                assert(self.state@.particles =~= next.particles);
                assert(self.state@.velocities =~= next.velocities);
                assert(self.state@.best_positions =~= next.best_positions);
                assert(self.state@.best_values =~= next.best_values);
            }
            i = i + 1;
        }
        proof {
            lemma_step_prefix(o, c, m0, d, n as nat);
        }
    }

    /// One step with a fresh pair of unit draws per particle.
    pub fn step(&mut self, rng: &mut RandomSource)
        requires
            old(self).wf(),
        ensures
            final(self).wf(),
            final(self).config_view() == old(self).config_view(),
            final(self).objective_view() == old(self).objective_view(),
            is_step(
                old(self).objective_view(),
                old(self).config_view(),
                old(self).state_view(),
                final(self).state_view(),
            ),
    {
        let n = self.state.particles.len();
        let mut draws: Vec<(i64, i64)> = Vec::with_capacity(n);
        let mut i: usize = 0;
        while i < n
            invariant
                i <= n,
                draws@.len() == i,
                valid_draws(draws@),
            decreases n - i,
        {
            let r1 = rng.unit();
            let r2 = rng.unit();
            draws.push((r1, r2));
            i = i + 1;
        }
        let ghost before = self.state_view();
        self.step_with_draws(&draws);
        reveal(is_step);
        assert(draws@.len() == before.particles.len() && valid_draws(draws@) && self.state_view()
            == step_model(self.objective_view(), self.config_view(), before, draws@));
    }

    /// Runs `max_iterations` steps and reports the global best, the parameters and,
    /// when history is kept, a snapshot of the swarm after each step.
    pub fn solve(&mut self, rng: &mut RandomSource) -> (r: SolverResult)
        requires
            old(self).wf(),
        ensures
            final(self).wf(),
            final(self).config_view() == old(self).config_view(),
            final(self).objective_view() == old(self).objective_view(),
            exists|trace: Seq<SwarmModel>|
                {
                    &&& #[trigger] is_run(
                        old(self).objective_view(),
                        old(self).config_view(),
                        old(self).state_view(),
                        trace,
                    )
                    &&& trace.len() == old(self).config_view().max_iterations
                    &&& final(self).state_view() == run_end(old(self).state_view(), trace)
                    &&& old(self).config_view().keep_history ==> snapshots(r.history@) == trace
                },
            !old(self).config_view().keep_history ==> r.history@.len() == 0,
            r.solution.0@ == final(self).state_view().global_position,
            r.solution.1 == final(self).state_view().global_value,
            r.swarm_size == old(self).config_view().swarm_size,
            r.cognitive_factor == old(self).config_view().c1,
            r.social_factor == old(self).config_view().c2,
            r.bounds.0@ == old(self).config_view().lower,
            r.bounds.1@ == old(self).config_view().upper,
            r.max_iterations == old(self).config_view().max_iterations,
    {
        let ghost o = self.objective;
        let ghost c = self.config@;
        let ghost m0 = self.state@;
        let mut history: Vec<SolverState> = Vec::new();
        let ghost mut trace: Seq<SwarmModel> = Seq::empty();
        let mut t: usize = 0;
        while t < self.config.max_iterations
            invariant
                self.wf(),
                o == self.objective,
                c == self.config@,
                t <= c.max_iterations,
                trace.len() == t,
                is_run(o, c, m0, trace),
                self.state@ == run_end(m0, trace),
                c.keep_history ==> snapshots(history@) == trace,
                !c.keep_history ==> history@.len() == 0,
            decreases c.max_iterations - t,
        {
            self.step(rng);
            proof {
                lemma_run_push(o, c, m0, trace, self.state@);
                trace = trace.push(self.state@);
            }
            if self.config.keep_history {
                history.push(self.state.copy());
                assert(snapshots(history@) =~= trace);
            }
            t = t + 1;
        }
        SolverResult {
            solution: (self.state.global_best_x.copy(), self.state.global_best_value),
            swarm_size: self.config.swarm_size,
            cognitive_factor: self.config.cognitive_factor,
            social_factor: self.config.social_factor,
            bounds: (self.config.lower_bound.copy(), self.config.upper_bound.copy()),
            max_iterations: self.config.max_iterations,
            history,
        }
    }
}

} // verus!
