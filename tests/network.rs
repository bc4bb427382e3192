use scarecrow::layers::LayerKind;
use scarecrow::network::{chain_compatible, example_bounds, example_count};

fn xor_chain() -> Vec<LayerKind> {
    vec![
        LayerKind::Dense { inputs: 2, neurons: 6 },
        LayerKind::Hyperbolic { size: 6 },
        LayerKind::Dense { inputs: 6, neurons: 1 },
        LayerKind::Sigmoid { size: 1 },
    ]
}

#[test]
fn xor_chain_fits() {
    assert!(chain_compatible(&xor_chain()));
}

#[test]
fn mismatched_chain_is_refused() {
    let mut layers = xor_chain();
    layers[1] = LayerKind::Hyperbolic { size: 5 };
    assert!(!chain_compatible(&layers));
    let tail = vec![LayerKind::Rectified { size: 3 }, LayerKind::Dense { inputs: 4, neurons: 1 }];
    assert!(!chain_compatible(&tail));
}

#[test]
fn short_chains_fit() {
    assert!(chain_compatible(&[]));
    assert!(chain_compatible(&[LayerKind::Sigmoid { size: 9 }]));
}

#[test]
fn xor_data_has_four_examples() {
    assert_eq!(example_count(8, 4, 2, 1), Some(4));
    assert_eq!(example_count(0, 0, 2, 1), Some(0));
}

#[test]
fn ragged_data_is_refused() {
    assert_eq!(example_count(7, 4, 2, 1), None);
    assert_eq!(example_count(8, 5, 2, 2), None);
    assert_eq!(example_count(8, 3, 2, 1), None);
    assert_eq!(example_count(8, 4, 0, 1), None);
    assert_eq!(example_count(8, 4, 2, 0), None);
}

#[test]
fn example_ranges() {
    assert_eq!(example_bounds(0, 2, 8), (0, 2));
    assert_eq!(example_bounds(3, 2, 8), (6, 8));
    assert_eq!(example_bounds(2, 1, 4), (2, 3));
}
