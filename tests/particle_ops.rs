use std::cmp::Ordering;
use swarmin::particle::{Particle, SCALE};

fn p(v: &[i64]) -> Particle {
    Particle::new(v.to_vec())
}

fn coords(x: &Particle) -> Vec<i64> {
    (0..x.dim()).map(|i| x.get(i)).collect()
}

#[test]
fn zeros_has_requested_length() {
    let z = Particle::zeros(4);
    assert_eq!(coords(&z), vec![0, 0, 0, 0]);
    assert_eq!(Particle::zeros(0).dim(), 0);
}

#[test]
fn add_and_sub_are_pointwise() {
    let a = p(&[1, -2, 3]);
    let b = p(&[10, 20, -30]);
    assert_eq!(coords(&a.add(&b)), vec![11, 18, -27]);
    assert_eq!(coords(&a.sub(&b)), vec![-9, -22, 33]);
    assert_eq!(coords(&a), vec![1, -2, 3]);
}

#[test]
fn assign_forms_change_the_receiver_only() {
    let mut a = p(&[1, 2]);
    let b = p(&[5, 7]);
    a.add_assign(&b);
    assert_eq!(coords(&a), vec![6, 9]);
    a.sub_assign(&b);
    assert_eq!(coords(&a), vec![1, 2]);
    assert_eq!(coords(&b), vec![5, 7]);
}

#[test]
fn mul_scales_by_a_fixed_point_factor() {
    let a = p(&[4 * SCALE, -3 * SCALE, 7]);
    // 0.5 in fixed point
    let half = SCALE / 2;
    assert_eq!(coords(&a.mul(half)), vec![2 * SCALE, -3 * SCALE / 2, 3]);
    // rounding is toward zero
    assert_eq!(coords(&p(&[-7]).mul(half)), vec![-3]);
    assert_eq!(coords(&a.mul(SCALE)), coords(&a));
}

#[test]
fn restrict_clamps_each_component() {
    let a = p(&[-10, 5, 100]);
    let lo = p(&[-1, -1, -1]);
    let hi = p(&[1, 10, 50]);
    assert_eq!(coords(&a.restrict(&lo, &hi)), vec![-1, 5, 50]);
}

#[test]
fn compare_is_lexicographic() {
    assert_eq!(p(&[1, 9]).compare(&p(&[2, 0])), Ordering::Less);
    assert_eq!(p(&[2, 0]).compare(&p(&[1, 9])), Ordering::Greater);
    assert_eq!(p(&[1, 2, 3]).compare(&p(&[1, 2, 4])), Ordering::Less);
    assert_eq!(p(&[1, 2, 3]).compare(&p(&[1, 2, 3])), Ordering::Equal);
}

#[test]
fn equality_is_elementwise() {
    assert!(p(&[1, 2]) == p(&[1, 2]));
    assert!(p(&[1, 2]) != p(&[1, 3]));
    assert!(p(&[1, 2]) != p(&[1, 2, 0]));
    assert!(p(&[3, 4]).copy() == p(&[3, 4]));
}

#[test]
fn partial_cmp_orders_vectors_of_one_dimension() {
    assert_eq!(p(&[1, 9]).partial_cmp(&p(&[2, 0])), Some(Ordering::Less));
    assert_eq!(p(&[1, 9]).partial_cmp(&p(&[1, 9])), Some(Ordering::Equal));
    assert_eq!(p(&[1, 9]).partial_cmp(&p(&[1, 9, 0])), None);
    assert!(p(&[0, 5]) < p(&[1, -5]));
    assert!(p(&[2, 5]) > p(&[2, 4]));
}
