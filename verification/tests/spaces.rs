use learn::spaces::{box_layout_matches, element_count, Discrete};
use rand::rngs::StdRng;
use rand::SeedableRng;

#[test]
fn discrete_shape_returns_n() {
    let d = Discrete::new(10);
    assert_eq!(d.shape(), vec![10]);
}

#[test]
fn discrete_sample_and_contains() {
    let d = Discrete::new(5);
    let mut rng = StdRng::seed_from_u64(42);
    let s = d.sample(&mut rng);
    assert!(s < d.n);
}

#[test]
fn discrete_samples_stay_in_range() {
    let d = Discrete::new(3);
    let mut rng = StdRng::seed_from_u64(7);
    for _ in 0..200 {
        assert!(d.sample(&mut rng) < 3);
    }
}

#[test]
fn discrete_element_from_draw_reduces_modulo_n() {
    let d = Discrete::new(5);
    assert_eq!(d.element_from_draw(0), 0);
    assert_eq!(d.element_from_draw(7), 2);
    assert_eq!(d.element_from_draw(u32::MAX), (u32::MAX % 5) as usize);
}

#[test]
fn discrete_new_keeps_n() {
    assert_eq!(Discrete::new(0).n, 0);
    assert_eq!(Discrete::new(4).n, 4);
}

#[test]
fn element_count_multiplies_dimensions() {
    assert_eq!(element_count(&[2]), Some(2));
    assert_eq!(element_count(&[2, 3, 4]), Some(24));
    assert_eq!(element_count(&[]), Some(1));
    assert_eq!(element_count(&[5, 0]), Some(0));
}

#[test]
fn element_count_reports_overflow() {
    assert_eq!(element_count(&[usize::MAX, 2]), None);
    assert_eq!(element_count(&[usize::MAX, 2, 0]), None);
    assert_eq!(element_count(&[usize::MAX, 1]), Some(usize::MAX));
}

#[test]
fn box_layout_checks_lengths_and_shape() {
    assert!(box_layout_matches(2, 2, &[2]));
    assert!(box_layout_matches(6, 6, &[2, 3]));
    assert!(!box_layout_matches(2, 3, &[2]));
    assert!(!box_layout_matches(2, 2, &[3]));
    assert!(!box_layout_matches(0, 0, &[usize::MAX, 2, 0]));
    assert!(box_layout_matches(0, 0, &[4, 0]));
}
