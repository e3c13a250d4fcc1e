use autoencoder::cnn::{CNN, LayerRecord};
use autoencoder::convolutional_layer::ConvolutionalLayer;
use autoencoder::fully_connected_layer::FullyConnectedLayer;
use autoencoder::layer::Layer;
use autoencoder::tensor;
use autoencoder::ModelError;

fn b(x: f32) -> u32 {
    x.to_bits()
}

fn fold_cell(bias: u32, terms: &[(u32, u32)]) -> u32 {
    let mut acc = f32::from_bits(bias);
    for &(k, v) in terms {
        acc += f32::from_bits(k) * f32::from_bits(v);
    }
    acc.to_bits()
}

fn sigmoid(x: f32) -> f32 {
    1.0 / (1.0 + (-x).exp())
}

fn run_conv(l: &mut ConvolutionalLayer, input: Vec<Vec<Vec<u32>>>) -> Vec<Vec<Vec<u32>>> {
    let plan = l.forward_terms(input);
    let mut acc: Vec<Vec<Vec<u32>>> = Vec::new();
    for f in 0..plan.len() {
        let mut ch = Vec::new();
        for y in 0..plan[f].len() {
            let mut row = Vec::new();
            for x in 0..plan[f][y].len() {
                let mut v = fold_cell(l.biases[f], &plan[f][y][x]);
                if l.sigmoid {
                    v = sigmoid(f32::from_bits(v)).to_bits();
                }
                row.push(v);
            }
            ch.push(row);
        }
        acc.push(ch);
    }
    l.finish_forward(acc)
}

fn run_fcl(l: &mut FullyConnectedLayer, input: Vec<u32>) -> Vec<Vec<Vec<u32>>> {
    let plan = l.forward_terms(input);
    let mut acc: Vec<u32> = Vec::new();
    for j in 0..plan.len() {
        acc.push(fold_cell(l.biases[j], &plan[j]));
    }
    l.finish_forward(acc)
}

/// Steps a tensor through the whole pipeline, folding the scalar work of the
/// convolutional and dense layers outside the library.
fn run_pipeline(net: &mut CNN, input: Vec<Vec<Vec<u32>>>) -> Vec<Vec<Vec<u32>>> {
    let mut cur = input;
    for layer in net.layers.iter_mut() {
        cur = match layer {
            Layer::Conv(c) => run_conv(c, cur),
            Layer::Mxpl(m) => m.forward_propagate(cur),
            Layer::Fcl(f) => {
                let d = cur.len();
                let h = cur[0].len();
                let w = cur[0][0].len();
                let flat = tensor::flatten(&cur, d, h, w);
                run_fcl(f, flat)
            },
            Layer::Unmxpl(u) => u.forward_propagate(cur),
        };
    }
    cur
}

fn good_conv_record() -> LayerRecord {
    LayerRecord::Conv {
        input_size: 4,
        input_depth: 1,
        num_filters: 2,
        kernel_size: 3,
        output_size: 4,
        stride: 1,
        padding: 1,
        biases: vec![b(0.5), b(-0.25)],
        kernels: vec![
            vec![vec![
                vec![b(0.1), b(-0.2), b(0.3)],
                vec![b(0.4), b(0.5), b(-0.6)],
                vec![b(0.7), b(-0.8), b(0.9)],
            ]],
            vec![vec![
                vec![b(-1.0), b(0.25), b(0.5)],
                vec![b(0.75), b(-0.5), b(0.125)],
                vec![b(0.0), b(1.5), b(-0.375)],
            ]],
        ],
        sigmoid: true,
    }
}

fn good_records() -> Vec<LayerRecord> {
    let mut weights: Vec<Vec<u32>> = Vec::new();
    for i in 0..8u32 {
        let mut row = Vec::new();
        for j in 0..4u32 {
            row.push(b(((i + j) as f32) * 0.125 - 0.4));
        }
        weights.push(row);
    }
    vec![
        good_conv_record(),
        LayerRecord::Mxpl {
            input_size: 4,
            input_depth: 2,
            kernel_size: 2,
            output_size: 2,
            stride: 2,
        },
        LayerRecord::Fcl {
            input_size: 8,
            input_width: 2,
            input_depth: 2,
            output_width: 2,
            output_depth: 1,
            output_size: 4,
            weights,
            biases: vec![b(0.1), b(-0.1), b(0.2), b(-0.2)],
        },
    ]
}

fn fixed_input() -> Vec<Vec<Vec<u32>>> {
    let mut t = Vec::new();
    let mut ch = Vec::new();
    for y in 0..4u32 {
        let mut row = Vec::new();
        for x in 0..4u32 {
            row.push(b(((y * 4 + x) as f32) * 0.3 - 1.7));
        }
        ch.push(row);
    }
    t.push(ch);
    t
}

#[test]
fn load_builds_every_layer_in_order() {
    let net = CNN::from_records(good_records()).unwrap();
    assert_eq!(net.layers.len(), 3);
    assert!(matches!(net.layers[0], Layer::Conv(_)));
    assert!(matches!(net.layers[1], Layer::Mxpl(_)));
    assert!(matches!(net.layers[2], Layer::Fcl(_)));
}

#[test]
fn load_of_no_records_is_an_empty_network() {
    let net = CNN::from_records(Vec::new()).unwrap();
    assert_eq!(net.layers.len(), 0);
}

#[test]
fn corrupt_convolutional_record_fails_the_whole_load() {
    let mut records = good_records();
    records[0] = LayerRecord::Conv {
        input_size: 4,
        input_depth: 1,
        num_filters: 2,
        kernel_size: 3,
        output_size: 7,
        stride: 1,
        padding: 1,
        biases: vec![b(0.5), b(-0.25)],
        kernels: vec![vec![vec![vec![b(0.0); 3]; 3]; 1]; 2],
        sigmoid: true,
    };
    assert!(matches!(CNN::from_records(records), Err(ModelError::BadConvolutionalShape)));
}

#[test]
fn truncated_kernel_record_fails_the_whole_load() {
    let mut records = good_records();
    if let LayerRecord::Conv { kernels, .. } = &mut records[0] {
        kernels[1][0][2].pop();
    } else {
        unreachable!();
    }
    assert!(matches!(CNN::from_records(records), Err(ModelError::BadConvolutionalShape)));
}

#[test]
fn corrupt_pooling_record_fails_the_whole_load() {
    let mut records = good_records();
    records[1] = LayerRecord::Mxpl {
        input_size: 4,
        input_depth: 2,
        kernel_size: 2,
        output_size: 3,
        stride: 2,
    };
    assert!(matches!(CNN::from_records(records), Err(ModelError::BadMaxPoolingShape)));
}

#[test]
fn corrupt_dense_record_fails_the_whole_load() {
    let mut records = good_records();
    if let LayerRecord::Fcl { biases, .. } = &mut records[2] {
        biases.pop();
    } else {
        unreachable!();
    }
    assert!(matches!(CNN::from_records(records), Err(ModelError::BadFullyConnectedShape)));
}

#[test]
fn corrupt_upsampling_record_fails_the_whole_load() {
    let records = vec![LayerRecord::Unmxpl { input_size: 4, input_depth: 2, output_size: 9 }];
    assert!(matches!(CNN::from_records(records), Err(ModelError::BadUnMaxPoolingShape)));
}

#[test]
fn first_corrupt_record_reports_its_error() {
    let mut records = good_records();
    records[1] = LayerRecord::Mxpl {
        input_size: 4,
        input_depth: 2,
        kernel_size: 2,
        output_size: 3,
        stride: 2,
    };
    if let LayerRecord::Fcl { biases, .. } = &mut records[2] {
        biases.pop();
    } else {
        unreachable!();
    }
    assert!(matches!(CNN::from_records(records), Err(ModelError::BadMaxPoolingShape)));
}

#[test]
fn cost_of_identical_reference_is_exactly_zero() {
    // A terminal convolution that copies each of the three channels: with the
    // reference equal to the output, every squared difference is zero and the
    // mean is exactly zero.
    let mut kernels = Vec::new();
    for f in 0..3usize {
        let mut ks = Vec::new();
        for ci in 0..3usize {
            ks.push(vec![vec![if f == ci { b(1.0) } else { b(0.0) }]]);
        }
        kernels.push(ks);
    }
    let records = vec![LayerRecord::Conv {
        input_size: 32,
        input_depth: 3,
        num_filters: 3,
        kernel_size: 1,
        output_size: 32,
        stride: 1,
        padding: 0,
        biases: vec![b(0.0); 3],
        kernels,
        sigmoid: false,
    }];
    let mut net = CNN::from_records(records).unwrap();
    let mut image = Vec::new();
    for z in 0..3u32 {
        let mut ch = Vec::new();
        for y in 0..32u32 {
            let mut row = Vec::new();
            for x in 0..32u32 {
                row.push(b(((z * 1024 + y * 32 + x) % 97) as f32 * 0.5));
            }
            ch.push(row);
        }
        image.push(ch);
    }
    let out = run_pipeline(&mut net, image.clone());
    assert_eq!(out, image);
    let pairs = net.cost_pairs(&image);
    assert_eq!(pairs.len(), 3 * 32 * 32);
    let mut cost: f32 = 0.0;
    for &(a, r) in &pairs {
        cost += (f32::from_bits(a) - f32::from_bits(r)).powi(2) / (32.0 * 32.0 * 3.0);
    }
    assert_eq!(cost, 0.0);
}

#[test]
fn terminal_layer_output_is_readable() {
    let records = good_records();
    let mut net = CNN::from_records(records).unwrap();
    let out = run_pipeline(&mut net, fixed_input());
    if let Layer::Conv(_) = net.layers[0] {
        // The terminal layer of this pipeline is dense, so the readable
        // output lives on the first (convolutional) layer instead.
        let v = net.layers[0].get_output((0, 1, 2));
        if let Layer::Conv(c) = &net.layers[0] {
            assert_eq!(v, c.output[0][1][2]);
        }
    } else {
        unreachable!();
    }
    assert_eq!(out.len(), 1);
}

#[test]
fn repeated_runs_are_bit_identical() {
    // The same records and the same input tensor, evaluated twice through
    // fresh networks: every output bit agrees.
    let mut net1 = CNN::from_records(good_records()).unwrap();
    let mut net2 = CNN::from_records(good_records()).unwrap();
    let out1 = run_pipeline(&mut net1, fixed_input());
    let out2 = run_pipeline(&mut net2, fixed_input());
    assert_eq!(out1, out2);
    let again = run_pipeline(&mut net1, fixed_input());
    assert_eq!(out1, again);
}
