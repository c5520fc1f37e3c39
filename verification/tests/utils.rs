use learn::utils::one_hot;

#[test]
fn test_one_hot() {
    let v: Vec<f32> = one_hot(2, 4).iter().map(|&b| f32::from(b)).collect();
    assert_eq!(v, vec![0.0, 0.0, 1.0, 0.0]);
}

#[test]
fn test_one_hot_out_of_bounds() {
    let v: Vec<f32> = one_hot(10, 4).iter().map(|&b| f32::from(b)).collect();
    assert_eq!(v, vec![0.0, 0.0, 0.0, 0.0]);
}

#[test]
fn one_hot_edges() {
    assert_eq!(one_hot(0, 1), vec![1]);
    assert_eq!(one_hot(3, 4), vec![0, 0, 0, 1]);
    assert_eq!(one_hot(4, 4), vec![0, 0, 0, 0]);
    assert_eq!(one_hot(0, 0), Vec::<u8>::new());
}
