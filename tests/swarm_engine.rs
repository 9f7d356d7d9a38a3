use swarmin::objective_functions::{Himmelblau, Rosenbrock};
use swarmin::particle::{Particle, SCALE};
use swarmin::random::RandomSource;
use swarmin::swarm::{check_config, ParticleSwarm, SolverState, SwarmConfig, SwarmError};

fn fixed(x: f64) -> i64 {
    (x * SCALE as f64) as i64
}

fn filled(dim: usize, x: f64) -> Particle {
    Particle::new(vec![fixed(x); dim])
}

fn coords(x: &Particle) -> Vec<i64> {
    (0..x.dim()).map(|i| x.get(i)).collect()
}

fn rosenbrock_swarm(
    swarm_size: usize,
    iterations: usize,
    keep_history: bool,
    seed: u64,
) -> ParticleSwarm<Rosenbrock<2>> {
    let mut rng = RandomSource::from_seed(seed);
    ParticleSwarm::new(
        2,
        Rosenbrock::<2>::new(),
        swarm_size,
        fixed(1.49445),
        fixed(1.49445),
        fixed(0.729),
        filled(2, -10.0),
        filled(2, 10.0),
        filled(2, -5.0),
        filled(2, 5.0),
        iterations,
        keep_history,
        &mut rng,
    )
    .unwrap()
}

fn config(dim: usize, swarm_size: usize, lo: f64, hi: f64) -> SwarmConfig {
    SwarmConfig {
        dim,
        swarm_size,
        cognitive_factor: fixed(2.0),
        social_factor: fixed(2.0),
        inertia: fixed(0.5),
        v_min: filled(dim, -1.0),
        v_max: filled(dim, 1.0),
        lower_bound: filled(dim, lo),
        upper_bound: filled(dim, hi),
        max_iterations: 3,
        keep_history: false,
    }
}

fn assert_in_box(state: &SolverState, lo: i64, hi: i64, vlo: i64, vhi: i64, dim: usize) {
    for x in &state.particles {
        assert_eq!(x.dim(), dim);
        for v in coords(x) {
            assert!(lo <= v && v <= hi);
        }
    }
    for x in &state.velocities {
        assert_eq!(x.dim(), dim);
        for v in coords(x) {
            assert!(vlo <= v && v <= vhi);
        }
    }
}

fn min_best(state: &SolverState) -> i128 {
    state.particle_bests.iter().map(|b| b.1).min().unwrap()
}

#[test]
fn new_seeds_particles_in_the_box_with_zero_velocities() {
    let swarm = rosenbrock_swarm(30, 5, false, 7);
    let st = swarm.state();
    assert_eq!(st.particles.len(), 30);
    assert_in_box(st, fixed(-5.0), fixed(5.0), 0, 0, 2);
    for (i, b) in st.particle_bests.iter().enumerate() {
        assert!(b.0 == st.particles[i]);
    }
    assert_eq!(st.global_best_value, min_best(st));
}

#[test]
fn global_best_is_the_first_least_initial_cost() {
    let positions = vec![
        Particle::new(vec![0, 0]),
        Particle::new(vec![SCALE, SCALE]),
        Particle::new(vec![SCALE, SCALE]),
    ];
    let swarm = ParticleSwarm::from_positions(config(2, 3, -5.0, 5.0), Rosenbrock::<2>::new(), positions)
        .unwrap();
    let st = swarm.state();
    assert_eq!(st.global_best_value, 0);
    assert!(st.global_best_x == Particle::new(vec![SCALE, SCALE]));
    let s = SCALE as i128;
    assert_eq!(st.particle_bests[0].1, s * s * s * s);
}

#[test]
fn rejects_each_kind_of_bad_configuration() {
    let good = config(2, 4, -5.0, 5.0);
    assert_eq!(check_config(&good, 2), Ok(()));
    assert_eq!(check_config(&good, 3), Err(SwarmError::DimensionMismatch));
    let mut short = config(2, 4, -5.0, 5.0);
    short.v_max = filled(1, 1.0);
    assert_eq!(check_config(&short, 2), Err(SwarmError::DimensionMismatch));
    assert_eq!(check_config(&config(2, 4, 5.0, -5.0), 2), Err(SwarmError::InvalidBounds));
    let mut vel = config(2, 4, -5.0, 5.0);
    vel.v_min = filled(2, 2.0);
    assert_eq!(check_config(&vel, 2), Err(SwarmError::InvalidBounds));
    assert_eq!(check_config(&config(2, 0, -5.0, 5.0), 2), Err(SwarmError::EmptySwarm));
    assert_eq!(check_config(&config(2, 4, -5000.0, 5.0), 2), Err(SwarmError::OutOfRange));
    let mut coef = config(2, 4, -5.0, 5.0);
    coef.inertia = fixed(300.0);
    assert_eq!(check_config(&coef, 2), Err(SwarmError::OutOfRange));
}

#[test]
fn new_reports_the_configuration_error() {
    let mut rng = RandomSource::from_seed(1);
    let r = ParticleSwarm::new(
        2,
        Himmelblau::new(),
        0,
        fixed(2.0),
        fixed(2.0),
        fixed(0.5),
        filled(2, -1.0),
        filled(2, 1.0),
        filled(2, -5.0),
        filled(2, 5.0),
        10,
        false,
        &mut rng,
    );
    assert!(matches!(r, Err(SwarmError::EmptySwarm)));
    let r = ParticleSwarm::new(
        3,
        Himmelblau::new(),
        5,
        fixed(2.0),
        fixed(2.0),
        fixed(0.5),
        filled(3, -1.0),
        filled(3, 1.0),
        filled(3, -5.0),
        filled(3, 5.0),
        10,
        false,
        &mut rng,
    );
    assert!(matches!(r, Err(SwarmError::DimensionMismatch)));
}

#[test]
fn from_positions_rejects_positions_outside_the_box() {
    let positions = vec![Particle::new(vec![0, 0]), Particle::new(vec![fixed(6.0), 0])];
    let r = ParticleSwarm::from_positions(config(2, 2, -5.0, 5.0), Rosenbrock::<2>::new(), positions);
    assert!(matches!(r, Err(SwarmError::InvalidPositions)));
    let positions = vec![Particle::new(vec![0, 0])];
    let r = ParticleSwarm::from_positions(config(2, 2, -5.0, 5.0), Rosenbrock::<2>::new(), positions);
    assert!(matches!(r, Err(SwarmError::InvalidPositions)));
}

#[test]
fn steps_keep_the_box_and_never_raise_the_bests() {
    let mut swarm = rosenbrock_swarm(40, 0, false, 11);
    let mut rng = RandomSource::from_seed(12);
    for _ in 0..25 {
        let before_global = swarm.state().global_best_value;
        let before: Vec<i128> = swarm.state().particle_bests.iter().map(|b| b.1).collect();
        swarm.step(&mut rng);
        let st = swarm.state();
        assert_in_box(st, fixed(-5.0), fixed(5.0), fixed(-10.0), fixed(10.0), 2);
        assert!(st.global_best_value <= before_global);
        for (i, b) in st.particle_bests.iter().enumerate() {
            assert!(b.1 <= before[i]);
        }
        assert_eq!(st.global_best_value, min_best(st));
    }
}

#[test]
fn step_with_draws_follows_the_update_rule() {
    // one particle at 0 with personal best 0 and global best 0: pulls vanish and
    // the velocity is the inertia term only
    let mut cfg = config(1, 1, -5.0, 5.0);
    cfg.dim = 1;
    let positions = vec![Particle::new(vec![fixed(0.5)])];
    let mut swarm = ParticleSwarm::from_positions(cfg, Rosenbrock::<1>::new(), positions).unwrap();
    swarm.step_with_draws(&vec![(SCALE, SCALE)]);
    let st = swarm.state();
    assert_eq!(coords(&st.velocities[0]), vec![0]);
    assert_eq!(coords(&st.particles[0]), vec![fixed(0.5)]);
}

#[test]
fn step_with_draws_moves_toward_the_global_best() {
    // particle 1 at 0 is pulled toward particle 0 at 1 (the global best)
    let cfg = SwarmConfig {
        dim: 2,
        swarm_size: 2,
        cognitive_factor: fixed(2.0),
        social_factor: fixed(2.0),
        inertia: fixed(0.5),
        v_min: filled(2, -10.0),
        v_max: filled(2, 10.0),
        lower_bound: filled(2, -5.0),
        upper_bound: filled(2, 5.0),
        max_iterations: 1,
        keep_history: false,
    };
    let positions = vec![filled(2, 1.0), filled(2, 0.0)];
    let mut swarm = ParticleSwarm::from_positions(cfg, Rosenbrock::<2>::new(), positions).unwrap();
    // r2 = 0.25: social term (1 - 0) * 2 * 0.25 = 0.5 per component
    swarm.step_with_draws(&vec![(0, 0), (0, SCALE / 4)]);
    let st = swarm.state();
    assert_eq!(coords(&st.velocities[1]), vec![fixed(0.5), fixed(0.5)]);
    assert_eq!(coords(&st.particles[1]), vec![fixed(0.5), fixed(0.5)]);
    assert_eq!(coords(&st.particles[0]), vec![fixed(1.0), fixed(1.0)]);
    assert_eq!(st.global_best_value, 0);
}

#[test]
fn same_positions_and_draws_replay_identically() {
    let positions = || vec![filled(2, 1.5), filled(2, -2.0), filled(2, 0.25)];
    let mut a = ParticleSwarm::from_positions(config(2, 3, -5.0, 5.0), Rosenbrock::<2>::new(), positions())
        .unwrap();
    let mut b = ParticleSwarm::from_positions(config(2, 3, -5.0, 5.0), Rosenbrock::<2>::new(), positions())
        .unwrap();
    let draws = vec![(100, 2000), (SCALE, 0), (SCALE / 3, SCALE / 7)];
    for _ in 0..5 {
        a.step_with_draws(&draws);
        b.step_with_draws(&draws);
    }
    let (sa, sb) = (a.state(), b.state());
    for i in 0..3 {
        assert!(sa.particles[i] == sb.particles[i]);
        assert!(sa.velocities[i] == sb.velocities[i]);
        assert!(sa.particle_bests[i].0 == sb.particle_bests[i].0);
    }
    assert_eq!(sa.global_best_value, sb.global_best_value);
}

#[test]
fn same_seed_gives_the_same_result() {
    let ra = rosenbrock_swarm(20, 15, false, 99).solve(&mut RandomSource::from_seed(5));
    let rb = rosenbrock_swarm(20, 15, false, 99).solve(&mut RandomSource::from_seed(5));
    assert!(ra.solution.0 == rb.solution.0);
    assert_eq!(ra.solution.1, rb.solution.1);
}

#[test]
fn history_has_one_snapshot_per_step() {
    let mut swarm = rosenbrock_swarm(10, 12, true, 3);
    let result = swarm.solve(&mut RandomSource::from_seed(4));
    assert_eq!(result.history.len(), 12);
    assert_eq!(result.max_iterations, 12);
    assert_eq!(result.swarm_size, 10);
    let last = result.history.last().unwrap();
    let st = swarm.state();
    for i in 0..10 {
        assert!(last.particles[i] == st.particles[i]);
        assert!(last.velocities[i] == st.velocities[i]);
    }
    assert_eq!(last.global_best_value, result.solution.1);
    for w in result.history.windows(2) {
        assert!(w[1].global_best_value <= w[0].global_best_value);
    }
}

#[test]
fn history_is_empty_when_not_kept() {
    let mut swarm = rosenbrock_swarm(10, 12, false, 3);
    let result = swarm.solve(&mut RandomSource::from_seed(4));
    assert_eq!(result.history.len(), 0);
    assert_eq!(result.cognitive_factor, fixed(1.49445));
    assert!(result.bounds.0 == filled(2, -5.0));
    assert!(result.bounds.1 == filled(2, 5.0));
}

#[test]
fn zero_iterations_leave_the_swarm_unchanged() {
    let mut swarm = rosenbrock_swarm(10, 0, true, 8);
    let before = swarm.state().copy();
    let result = swarm.solve(&mut RandomSource::from_seed(9));
    assert_eq!(result.history.len(), 0);
    assert_eq!(result.solution.1, before.global_best_value);
    assert!(result.solution.0 == before.global_best_x);
}

#[test]
fn rosenbrock_converges_in_most_runs() {
    let s = SCALE as i128;
    let one = s * s * s * s;
    let mut converged = 0;
    for seed in 0..10u64 {
        let mut rng = RandomSource::from_seed(seed);
        let mut swarm = ParticleSwarm::new(
            2,
            Rosenbrock::<2>::new(),
            100,
            fixed(2.0),
            fixed(2.0),
            fixed(0.729),
            filled(2, -10.0),
            filled(2, 10.0),
            filled(2, -5.0),
            filled(2, 5.0),
            200,
            false,
            &mut rng,
        )
        .unwrap();
        let result = swarm.solve(&mut rng);
        if result.solution.1 < one {
            converged += 1;
        }
    }
    assert!(converged >= 8, "converged in {} of 10 runs", converged);
}

#[test]
fn random_draws_stay_in_range_and_vary() {
    let mut rng = RandomSource::from_seed(42);
    let mut seen_other = false;
    for _ in 0..200 {
        let x = rng.between(-5, 5);
        assert!((-5..=5).contains(&x));
        if x != -5 {
            seen_other = true;
        }
        let u = rng.unit();
        assert!((0..=SCALE).contains(&u));
    }
    assert!(seen_other);
}
