use autoencoder::convolutional_layer::ConvolutionalLayer;
use autoencoder::fully_connected_layer::FullyConnectedLayer;
use autoencoder::max_pooling_layer::MaxPoolingLayer;
use autoencoder::unmax_pooling_layer::UnMaxPoolingLayer;
use autoencoder::scalar;
use autoencoder::tensor;

fn b(x: f32) -> u32 {
    x.to_bits()
}

fn t3(vals: Vec<Vec<Vec<f32>>>) -> Vec<Vec<Vec<u32>>> {
    vals.into_iter()
        .map(|ch| ch.into_iter().map(|row| row.into_iter().map(b).collect()).collect())
        .collect()
}

fn fold_cell(bias: u32, terms: &[(u32, u32)]) -> u32 {
    let mut acc = f32::from_bits(bias);
    for &(k, v) in terms {
        acc += f32::from_bits(k) * f32::from_bits(v);
    }
    acc.to_bits()
}

fn sigmoid(x: f32) -> f32 {
    1.0 / (1.0 + (-x).exp())
}

fn run_conv(l: &mut ConvolutionalLayer, input: Vec<Vec<Vec<u32>>>) -> Vec<Vec<Vec<u32>>> {
    let plan = l.forward_terms(input);
    let mut acc: Vec<Vec<Vec<u32>>> = Vec::new();
    for f in 0..plan.len() {
        let mut ch = Vec::new();
        for y in 0..plan[f].len() {
            let mut row = Vec::new();
            for x in 0..plan[f][y].len() {
                let mut v = fold_cell(l.biases[f], &plan[f][y][x]);
                if l.sigmoid {
                    v = sigmoid(f32::from_bits(v)).to_bits();
                }
                row.push(v);
            }
            ch.push(row);
        }
        acc.push(ch);
    }
    l.finish_forward(acc)
}

fn run_fcl(l: &mut FullyConnectedLayer, input: Vec<u32>) -> Vec<Vec<Vec<u32>>> {
    let plan = l.forward_terms(input);
    let mut acc: Vec<u32> = Vec::new();
    for j in 0..plan.len() {
        acc.push(fold_cell(l.biases[j], &plan[j]));
    }
    l.finish_forward(acc)
}

#[test]
fn gt_orders_by_value() {
    assert!(scalar::gt(b(2.0), b(1.0)));
    assert!(!scalar::gt(b(1.0), b(2.0)));
    assert!(!scalar::gt(b(1.0), b(1.0)));
    assert!(scalar::gt(b(-1.0), b(-2.0)));
    assert!(scalar::gt(b(1.0), b(-2.0)));
    assert!(!scalar::gt(b(-0.0), b(0.0)));
    assert!(!scalar::gt(b(0.0), b(-0.0)));
    assert!(!scalar::gt(b(f32::NAN), b(1.0)));
    assert!(!scalar::gt(b(1.0), b(f32::NAN)));
}

#[test]
fn relu_clamps_below_zero() {
    assert_eq!(scalar::relu(b(3.5)), b(3.5));
    assert_eq!(scalar::relu(b(-3.5)), b(0.0));
    assert_eq!(scalar::relu(b(0.0)), b(0.0));
    assert_eq!(scalar::relu(b(-0.0)), b(0.0));
    assert_eq!(scalar::relu(b(f32::NAN)), b(0.0));
}

#[test]
fn flatten_is_channel_row_column() {
    let t = t3(vec![
        vec![vec![1.0, 2.0], vec![3.0, 4.0]],
        vec![vec![5.0, 6.0], vec![7.0, 8.0]],
    ]);
    let flat = tensor::flatten(&t, 2, 2, 2);
    let expect: Vec<u32> = [1.0f32, 2.0, 3.0, 4.0, 5.0, 6.0, 7.0, 8.0]
        .iter()
        .map(|&x| b(x))
        .collect();
    assert_eq!(flat, expect);
}

#[test]
fn unflatten_reverses_flatten() {
    let t = t3(vec![
        vec![vec![1.5, -2.0], vec![0.25, 4.0]],
        vec![vec![-5.0, 6.5], vec![7.0, 0.125]],
    ]);
    let flat = tensor::flatten(&t, 2, 2, 2);
    let back = tensor::unflatten(&flat, 2, 2, 2);
    assert_eq!(back, t);
}

#[test]
fn conv_output_shape_follows_formula() {
    // (5 + 2 * 1 - 3) / 2 + 1 = 3
    let kernels = vec![vec![vec![vec![b(0.5); 3]; 3]; 1]; 2];
    let mut l = ConvolutionalLayer::new(5, 1, 2, 3, 3, 2, 1, vec![b(0.0); 2], kernels, false)
        .unwrap();
    let input = vec![vec![vec![b(1.0); 5]; 5]; 1];
    let out = run_conv(&mut l, input);
    assert_eq!(out.len(), 2);
    for ch in &out {
        assert_eq!(ch.len(), 3);
        for row in ch {
            assert_eq!(row.len(), 3);
        }
    }
}

#[test]
fn conv_rejects_wrong_output_size() {
    let kernels = vec![vec![vec![vec![b(0.5); 3]; 3]; 1]; 2];
    let r = ConvolutionalLayer::new(5, 1, 2, 3, 4, 2, 1, vec![b(0.0); 2], kernels, false);
    assert!(r.is_err());
}

#[test]
fn unit_kernel_conv_is_identity() {
    // One filter, one channel, kernel of one, stride one, no padding, weight
    // one and bias zero: the convolution copies its input.
    let kernels = vec![vec![vec![vec![b(1.0)]]]];
    let mut l = ConvolutionalLayer::new(3, 1, 1, 1, 3, 1, 0, vec![b(0.0)], kernels, false)
        .unwrap();
    let input = t3(vec![vec![
        vec![0.5, 1.25, 2.0],
        vec![3.0, 0.75, 4.5],
        vec![5.0, 6.25, 7.0],
    ]]);
    let out = run_conv(&mut l, input.clone());
    assert_eq!(out, input);
}

#[test]
fn conv_padding_and_bias() {
    // A 2x2 input, kernel of one, stride one, padding one: a 4x4 output whose
    // border cells hold only the bias.
    let kernels = vec![vec![vec![vec![b(1.0)]]]];
    let mut l = ConvolutionalLayer::new(2, 1, 1, 1, 4, 1, 1, vec![b(10.0)], kernels, false)
        .unwrap();
    let input = t3(vec![vec![vec![1.0, 2.0], vec![3.0, 4.0]]]);
    let out = run_conv(&mut l, input);
    assert_eq!(out[0][0][0], b(10.0));
    assert_eq!(out[0][0][3], b(10.0));
    assert_eq!(out[0][3][3], b(10.0));
    assert_eq!(out[0][1][1], b(11.0));
    assert_eq!(out[0][1][2], b(12.0));
    assert_eq!(out[0][2][1], b(13.0));
    assert_eq!(out[0][2][2], b(14.0));
}

#[test]
fn conv_relu_clamps_negative_accumulation() {
    let kernels = vec![vec![vec![vec![b(-1.0)]]]];
    let mut l = ConvolutionalLayer::new(1, 1, 1, 1, 1, 1, 0, vec![b(0.0)], kernels, false)
        .unwrap();
    let out = run_conv(&mut l, t3(vec![vec![vec![2.0]]]));
    assert_eq!(out[0][0][0], b(0.0));
}

#[test]
fn conv_sigmoid_applies_to_accumulation() {
    let kernels = vec![vec![vec![vec![b(1.0)]]]];
    let mut l = ConvolutionalLayer::new(1, 1, 1, 1, 1, 1, 0, vec![b(0.0)], kernels, true)
        .unwrap();
    let out = run_conv(&mut l, t3(vec![vec![vec![2.0]]]));
    assert_eq!(out[0][0][0], sigmoid(2.0).to_bits());
}

#[test]
fn max_pool_two_by_two() {
    let mut l = MaxPoolingLayer::new(2, 1, 2, 1, 2).unwrap();
    let input = t3(vec![vec![vec![1.0, 2.0], vec![3.0, 4.0]]]);
    let out = l.forward_propagate(input);
    assert_eq!(out.len(), 1);
    assert_eq!(out[0].len(), 1);
    assert_eq!(out[0][0].len(), 1);
    assert_eq!(out[0][0][0], b(4.0));
    assert_eq!(l.highest_index[0][0][0], (1, 1));
    assert_eq!(l.output[0][0][0], b(4.0));
}

#[test]
fn max_pool_first_maximum_wins_ties() {
    let mut l = MaxPoolingLayer::new(2, 1, 2, 1, 2).unwrap();
    let input = t3(vec![vec![vec![4.0, 4.0], vec![4.0, 4.0]]]);
    let out = l.forward_propagate(input);
    assert_eq!(out[0][0][0], b(4.0));
    assert_eq!(l.highest_index[0][0][0], (0, 0));
}

#[test]
fn max_pool_keeps_seed_when_nothing_exceeds_it() {
    // Every window value sits at or below the seed of negative one, so the
    // strict comparison never fires: the output is the seed and the stored
    // coordinate stays what it was (the fresh layer holds (0, 0)).
    let mut l = MaxPoolingLayer::new(1, 1, 1, 1, 1).unwrap();
    let out = l.forward_propagate(t3(vec![vec![vec![-2.0]]]));
    assert_eq!(out[0][0][0], b(-1.0));
    assert_eq!(l.highest_index[0][0][0], (0, 0));
}

#[test]
fn max_pool_rejects_window_past_input() {
    assert!(MaxPoolingLayer::new(2, 1, 2, 2, 2).is_err());
}

#[test]
fn unmax_pool_replicates_each_cell() {
    let mut l = UnMaxPoolingLayer::new(1, 1, 2).unwrap();
    let out = l.forward_propagate(t3(vec![vec![vec![5.0]]]));
    assert_eq!(out, t3(vec![vec![vec![5.0, 5.0], vec![5.0, 5.0]]]));
}

#[test]
fn unmax_pool_maps_blocks_back() {
    let mut l = UnMaxPoolingLayer::new(2, 1, 4).unwrap();
    let out = l.forward_propagate(t3(vec![vec![vec![1.0, 2.0], vec![3.0, 4.0]]]));
    assert_eq!(out[0][0], vec![b(1.0), b(1.0), b(2.0), b(2.0)]);
    assert_eq!(out[0][1], vec![b(1.0), b(1.0), b(2.0), b(2.0)]);
    assert_eq!(out[0][2], vec![b(3.0), b(3.0), b(4.0), b(4.0)]);
    assert_eq!(out[0][3], vec![b(3.0), b(3.0), b(4.0), b(4.0)]);
}

#[test]
fn unmax_pool_rejects_wrong_factor() {
    assert!(UnMaxPoolingLayer::new(2, 1, 3).is_err());
}

#[test]
fn dense_reshape_is_row_major() {
    // output_depth = 1, output_width = 2: a flat [a, b, c, d] reshapes to
    // [[a, b], [c, d]].
    let weights = vec![
        vec![b(1.0), b(0.0), b(0.0), b(0.0)],
        vec![b(0.0), b(1.0), b(0.0), b(0.0)],
        vec![b(0.0), b(0.0), b(1.0), b(0.0)],
        vec![b(0.0), b(0.0), b(0.0), b(1.0)],
    ];
    let mut l = FullyConnectedLayer::new(4, 2, 1, 2, 1, 4, weights, vec![b(0.0); 4]).unwrap();
    let out = run_fcl(&mut l, vec![b(1.5), b(2.5), b(3.5), b(4.5)]);
    assert_eq!(out, t3(vec![vec![vec![1.5, 2.5], vec![3.5, 4.5]]]));
}

#[test]
fn dense_applies_weights_bias_and_rectifier() {
    // Two inputs, one output unit: 2 * 1 + 3 * 2 + bias -10 = -2, rectified
    // to zero.
    let weights = vec![vec![b(1.0)], vec![b(2.0)]];
    let mut l = FullyConnectedLayer::new(2, 1, 1, 1, 1, 1, weights, vec![b(-10.0)]).unwrap();
    let out = run_fcl(&mut l, vec![b(2.0), b(3.0)]);
    assert_eq!(out[0][0][0], b(0.0));
    assert_eq!(l.output, vec![b(0.0)]);
}

#[test]
fn dense_rejects_mismatched_weights() {
    let weights = vec![vec![b(0.0); 3]; 2];
    assert!(FullyConnectedLayer::new(2, 1, 1, 2, 1, 4, weights, vec![b(0.0); 4]).is_err());
}

#[test]
fn scalar_ordering_matches_native_comparison() {
    // A sweep of interesting encodings: zeroes of both signs, ordinary
    // values, subnormals, infinities and not-a-number payloads. The
    // library's ordering and rectifier must agree with native
    // single-precision semantics on every pair.
    let samples: Vec<u32> = vec![
        0x0000_0000, // +0
        0x8000_0000, // -0
        0x0000_0001, // least subnormal
        0x8000_0001,
        0x3F80_0000, // 1
        0xBF80_0000, // -1
        0x4080_0000, // 4
        0xC080_0000,
        0x7F7F_FFFF, // largest finite
        0xFF7F_FFFF,
        0x7F80_0000, // +inf
        0xFF80_0000, // -inf
        0x7FC0_0000, // quiet NaN
        0xFFC0_0000,
        0x7F80_0001, // signalling NaN payload
        0x3EAA_AAAB,
    ];
    for &a in &samples {
        for &bb in &samples {
            let native = f32::from_bits(a) > f32::from_bits(bb);
            assert_eq!(scalar::gt(a, bb), native, "gt({:#x}, {:#x})", a, bb);
        }
        let rect = f32::from_bits(scalar::relu(a));
        let native = f32::from_bits(a).max(0.0);
        assert!(
            rect == native || (native.is_nan() && rect == 0.0),
            "relu({:#x})",
            a
        );
    }
}
