use swarmin::objective_functions::{Himmelblau, ObjectiveFunction, Rosenbrock};
use swarmin::particle::{Particle, SCALE};

fn fx(v: &[f64]) -> Particle {
    Particle::new(v.iter().map(|x| (x * SCALE as f64) as i64).collect())
}

fn scale4() -> i128 {
    let s = SCALE as i128;
    s * s * s * s
}

#[test]
fn rosenbrock_is_zero_at_its_minimum() {
    let f = Rosenbrock::<2>::new();
    assert_eq!(f.dimension(), 2);
    assert_eq!(f.cost(&fx(&[1.0, 1.0])), 0);
}

#[test]
fn rosenbrock_is_one_at_the_origin() {
    let f = Rosenbrock::<2>::new();
    assert_eq!(f.cost(&fx(&[0.0, 0.0])), scale4());
}

#[test]
fn rosenbrock_sums_over_consecutive_pairs() {
    // at (0, 0, 0) each of the two summands is 1
    let f = Rosenbrock::<3>::new();
    assert_eq!(f.cost(&fx(&[0.0, 0.0, 0.0])), 2 * scale4());
    // at (2, 1): 100 * (1 - 4)^2 + (1 - 2)^2 = 901
    let g = Rosenbrock::<2>::new();
    assert_eq!(g.cost(&fx(&[2.0, 1.0])), 901 * scale4());
}

#[test]
fn himmelblau_is_zero_at_three_two() {
    let f = Himmelblau::new();
    assert_eq!(f.dimension(), 2);
    assert_eq!(f.cost(&fx(&[3.0, 2.0])), 0);
}

#[test]
fn himmelblau_at_the_origin() {
    // (0 + 0 - 11)^2 + (0 + 0 - 7)^2 = 170
    let f = Himmelblau::new();
    assert_eq!(f.cost(&fx(&[0.0, 0.0])), 170 * scale4());
}
