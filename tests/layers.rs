use scarecrow::layers::{
    choose_delta, derivw_layout, filled, neuron_of_weight, DeltaForm, DenseLayer,
    HyperbolicLayer, LayerKind, LayerOut, LayerUpdates, RectifiedLayer, SigmoidLayer,
};
use scarecrow::loss::SquaredError;

#[test]
fn it_works() {}

#[test]
fn activation_widths() {
    let h = HyperbolicLayer { size: 6 };
    let s = SigmoidLayer { size: 1 };
    let r = RectifiedLayer { size: 5 };
    assert_eq!((h.input_count(), h.output_count()), (6, 6));
    assert_eq!((s.input_count(), s.output_count()), (1, 1));
    assert_eq!((r.input_count(), r.output_count()), (5, 5));
    assert_eq!((h.weight_count(), h.neuron_count()), (0, 0));
    assert_eq!((s.weight_count(), s.neuron_count()), (0, 0));
    assert_eq!((r.weight_count(), r.neuron_count()), (0, 0));
}

#[test]
fn dense_kind_counts() {
    let d = LayerKind::Dense { inputs: 2, neurons: 3 };
    assert_eq!(d.input_count(), 2);
    assert_eq!(d.output_count(), 3);
    assert_eq!(d.weight_count(), 6);
    assert_eq!(d.neuron_count(), 3);
    assert!(d.is_weighted());
    assert_eq!(d.delta_form(), DeltaForm::FromInputs);
}

#[test]
fn activation_kind_counts() {
    let kinds = [
        LayerKind::Hyperbolic { size: 4 },
        LayerKind::Sigmoid { size: 4 },
        LayerKind::Rectified { size: 4 },
    ];
    for k in kinds.iter() {
        assert_eq!(k.input_count(), 4);
        assert_eq!(k.output_count(), 4);
        assert_eq!(k.weight_count(), 0);
        assert_eq!(k.neuron_count(), 0);
        assert!(!k.is_weighted());
    }
    assert_eq!(kinds[0].delta_form(), DeltaForm::FromOutputs);
    assert_eq!(kinds[1].delta_form(), DeltaForm::FromOutputs);
    assert_eq!(kinds[2].delta_form(), DeltaForm::FromInputs);
}

#[test]
fn derivw_layout_repeats_inputs() {
    let x = vec![1.0f32, 2.0];
    assert_eq!(derivw_layout(&x, 3), vec![1.0, 2.0, 1.0, 2.0, 1.0, 2.0]);
}

#[test]
fn derivw_layout_edges() {
    let x = vec![7u8, 8, 9];
    assert_eq!(derivw_layout(&x, 1), vec![7, 8, 9]);
    assert_eq!(derivw_layout(&x, 0), Vec::<u8>::new());
    let empty: Vec<u8> = Vec::new();
    assert_eq!(derivw_layout(&empty, 4), Vec::<u8>::new());
}

#[test]
fn weight_indices_map_to_neurons() {
    let owners: Vec<usize> = (0..6).map(|i| neuron_of_weight(i, 2)).collect();
    assert_eq!(owners, vec![0, 0, 1, 1, 2, 2]);
    assert_eq!(neuron_of_weight(5, 6), 0);
    assert_eq!(neuron_of_weight(6, 6), 1);
}

#[test]
fn delta_prefers_outputs_form() {
    assert_eq!(choose_delta(Some(vec![1.0f32]), Some(vec![2.0])), Some(vec![1.0]));
    assert_eq!(choose_delta(None, Some(vec![2.0f32])), Some(vec![2.0]));
    assert_eq!(choose_delta(Some(vec![1.0f32]), None), Some(vec![1.0]));
    assert_eq!(choose_delta::<Vec<f32>>(None, None), None);
}

#[test]
fn squared_error_is_a_unit_value() {
    assert_eq!(SquaredError, SquaredError);
}

fn example_dense() -> DenseLayer<f32> {
    let w = vec![0.5, 2.0, -1.0, 0.5, 2.0, 3.0];
    let b = vec![0.1, 0.2, 0.3];
    DenseLayer { weights: w, bias: b, shape: (2, 3) }
}

#[test]
fn dense_derivw() {
    let l = example_dense();
    let x = vec![1.0, 2.0];
    assert_eq!(l.derivw(&x), Some(vec![1.0, 2.0, 1.0, 2.0, 1.0, 2.0]));
}

#[test]
fn dense_counts() {
    let l = example_dense();
    assert_eq!(l.input_count(), 2);
    assert_eq!(l.output_count(), 3);
    assert_eq!(l.weight_count(), 6);
    assert_eq!(l.neuron_count(), 3);
    assert_eq!(l.kind(), LayerKind::Dense { inputs: 2, neurons: 3 });
}

#[test]
fn dense_uniform_fills_buffers() {
    let l = DenseLayer::uniform(0.25f32, 3, 2);
    assert_eq!(l.shape, (3, 2));
    assert_eq!(l.weights, vec![0.25; 6]);
    assert_eq!(l.bias, vec![0.25; 2]);
    let empty = DenseLayer::uniform(1u8, 0, 4);
    assert!(empty.weights.is_empty());
    assert_eq!(empty.bias, vec![1, 1, 1, 1]);
}

#[test]
fn updates_start_filled() {
    let u = LayerUpdates::filled(0.0f32, 6, 3);
    assert_eq!(u.ws, vec![0.0; 6]);
    assert_eq!(u.bs, vec![0.0; 3]);
    let none = LayerUpdates::filled(0.0f32, 0, 0);
    assert!(none.ws.is_empty() && none.bs.is_empty());
}

#[test]
fn filled_vectors() {
    assert_eq!(filled(7i32, 3), vec![7, 7, 7]);
    assert_eq!(filled(7i32, 0), Vec::<i32>::new());
}

#[test]
fn layer_out_holds_a_pass() {
    let lo = LayerOut { inputs: vec![1.0f32, -1.0], output: vec![-1.4f32] };
    assert_eq!(lo.inputs.len(), 2);
    assert_eq!(lo.output, vec![-1.4]);
}

#[test]
fn activation_kinds() {
    assert_eq!(HyperbolicLayer { size: 6 }.kind(), LayerKind::Hyperbolic { size: 6 });
    assert_eq!(SigmoidLayer { size: 1 }.kind(), LayerKind::Sigmoid { size: 1 });
    assert_eq!(RectifiedLayer { size: 5 }.kind(), LayerKind::Rectified { size: 5 });
}

#[test]
fn dense_rows_are_weight_blocks() {
    let l = example_dense();
    assert_eq!(l.row(0), &[0.5, 2.0][..]);
    assert_eq!(l.row(1), &[-1.0, 0.5][..]);
    assert_eq!(l.row(2), &[2.0, 3.0][..]);
}
