use std::collections::HashMap;

use inspector::blocks::{compare_block_keys, parse_block_info};
use inspector::file::LoRAFile;
use inspector::keys::LoRAFormat;
use inspector::network::{parse_usize, NetworkType};
use inspector::reconstruct::kron;
use inspector::statistic::partition;
use inspector::weight::BufferedLoRAWeight;
use inspector::InspectorError;

fn bytes_of(values: &[f32]) -> Vec<u8> {
    values.iter().flat_map(|v| v.to_le_bytes()).collect()
}

fn file_bytes(tensors: &[(&str, Vec<usize>, Vec<f32>)], meta: &[(&str, &str)]) -> Vec<u8> {
    let data: Vec<(String, Vec<usize>, Vec<u8>)> = tensors
        .iter()
        .map(|(n, s, v)| (n.to_string(), s.clone(), bytes_of(v)))
        .collect();
    let views: Vec<(String, safetensors::tensor::TensorView)> = data
        .iter()
        .map(|(n, s, b)| {
            (n.clone(), safetensors::tensor::TensorView::new(safetensors::Dtype::F32, s.clone(), b).unwrap())
        })
        .collect();
    let info = if meta.is_empty() {
        None
    } else {
        Some(meta.iter().map(|(k, v)| (k.to_string(), v.to_string())).collect::<HashMap<_, _>>())
    };
    safetensors::tensor::serialize(views, &info).unwrap()
}

fn matrix(a: &inspector::tensor::Array) -> Vec<Vec<f32>> {
    a.tensor().to_dtype(candle_core::DType::F32).unwrap().to_vec2::<f32>().unwrap()
}

fn conventional() -> Vec<u8> {
    file_bytes(
        &[
            ("lora_unet_a.lora_up.weight", vec![2, 1], vec![1.0, 2.0]),
            ("lora_unet_a.lora_down.weight", vec![1, 3], vec![1.0, 2.0, 3.0]),
            ("lora_unet_a.alpha", vec![], vec![2.0]),
        ],
        &[],
    )
}

#[test]
fn standard_weight_is_scaled_product() {
    let w = BufferedLoRAWeight::new(conventional()).unwrap();
    assert_eq!(w.format(), LoRAFormat::Kohya);
    let t = w.scale_lora_weight("lora_unet_a").unwrap();
    assert_eq!(t.dims(), &vec![2, 3]);
    assert_eq!(matrix(&t), vec![vec![2.0, 4.0, 6.0], vec![4.0, 8.0, 12.0]]);
    assert_eq!(w.rank("lora_unet_a").unwrap(), 1);
    assert_eq!(w.dims(), vec![1]);
    assert_eq!(w.base_names(), vec!["lora_unet_a".to_string()]);
}

#[test]
fn standard_weight_is_deterministic() {
    let file = LoRAFile::new_from_buffer(&conventional(), "a.safetensors");
    let first = matrix(&file.scale_weight("lora_unet_a").unwrap());
    let second = matrix(&file.scale_weight("lora_unet_a").unwrap());
    let bits = |m: &Vec<Vec<f32>>| m.iter().flatten().map(|v| v.to_bits()).collect::<Vec<_>>();
    assert_eq!(bits(&first), bits(&second));
}

#[test]
fn missing_component_is_not_found() {
    let w = BufferedLoRAWeight::new(conventional()).unwrap();
    assert!(matches!(w.scale_lora_weight("lora_unet_b"), Err(InspectorError::NotFound)));
    let no_alpha = file_bytes(
        &[
            ("x.lora_up.weight", vec![2, 1], vec![1.0, 2.0]),
            ("x.lora_down.weight", vec![1, 2], vec![1.0, 2.0]),
        ],
        &[],
    );
    let w = BufferedLoRAWeight::new(no_alpha).unwrap();
    assert!(matches!(w.scale_lora_weight("x"), Err(InspectorError::NotFound)));
    assert!(matches!(w.get("x.alpha"), Err(InspectorError::NotFound)));
}

#[test]
fn pointwise_convolution_keeps_unit_dimensions() {
    let buf = file_bytes(
        &[
            ("c.lora_up.weight", vec![2, 1, 1, 1], vec![1.0, 2.0]),
            ("c.lora_down.weight", vec![1, 2, 1, 1], vec![3.0, 4.0]),
            ("c.alpha", vec![], vec![1.0]),
        ],
        &[],
    );
    let w = BufferedLoRAWeight::new(buf).unwrap();
    let t = w.scale_lora_weight("c").unwrap();
    assert_eq!(t.dims(), &vec![2, 2, 1, 1]);
    let v = t.tensor().flatten_all().unwrap().to_vec1::<f32>().unwrap();
    assert_eq!(v, vec![3.0, 4.0, 6.0, 8.0]);
}

#[test]
fn spatial_convolution_shape() {
    let buf = file_bytes(
        &[
            ("c.lora_up.weight", vec![4, 2, 1, 1], vec![1.0; 8]),
            ("c.lora_down.weight", vec![2, 3, 3, 3], vec![0.5; 54]),
            ("c.alpha", vec![], vec![2.0]),
        ],
        &[],
    );
    let w = BufferedLoRAWeight::new(buf).unwrap();
    let t = w.scale_lora_weight("c").unwrap();
    assert_eq!(t.dims(), &vec![4, 3, 3, 3]);
    let v = t.tensor().flatten_all().unwrap().to_vec1::<f32>().unwrap();
    assert!(v.iter().all(|x| (*x - 1.0).abs() < 1e-6));
}

#[test]
fn parameter_efficient_uses_rank_as_alpha() {
    let n = 3072;
    let r = 16;
    let buf = file_bytes(
        &[
            ("transformer.transformer_blocks.8.attn.to_q.lora_B.weight", vec![n, r], vec![0.25; n * r]),
            ("transformer.transformer_blocks.8.attn.to_q.lora_A.weight", vec![r, n], vec![0.25; r * n]),
        ],
        &[],
    );
    let w = BufferedLoRAWeight::new(buf).unwrap();
    assert_eq!(w.format(), LoRAFormat::Peft);
    assert_eq!(w.dims(), vec![16]);
    assert_eq!(w.rank("transformer.transformer_blocks.8.attn.to_q").unwrap(), 16);
    let t = w.scale_lora_weight("transformer.transformer_blocks.8.attn.to_q").unwrap();
    assert_eq!(t.dims(), &vec![3072, 3072]);
    let v = t.tensor().flatten_all().unwrap().to_vec1::<f32>().unwrap();
    assert!(v.iter().all(|x| *x >= 0.0 && *x <= 2.0));
    assert!((v[0] - 1.0).abs() < 1e-6);
}

#[test]
fn shared_alpha_and_rank() {
    let buf = file_bytes(
        &[
            ("a.lora_up.weight", vec![3, 4], vec![0.1; 12]),
            ("a.lora_down.weight", vec![4, 3], vec![0.1; 12]),
            ("a.alpha", vec![], vec![4.0]),
            ("b.lora_up.weight", vec![5, 4], vec![0.1; 20]),
            ("b.lora_down.weight", vec![4, 5], vec![0.1; 20]),
            ("b.alpha", vec![], vec![4.0]),
        ],
        &[],
    );
    let w = BufferedLoRAWeight::new(buf).unwrap();
    assert_eq!(w.dims(), vec![4]);
    let mut alphas: Vec<f32> = Vec::new();
    for k in w.alpha_keys() {
        let a = w.get(&k).unwrap();
        alphas.push(a.tensor().to_scalar::<f32>().unwrap());
    }
    alphas.dedup();
    assert_eq!(alphas, vec![4.0]);
}

#[test]
fn hadamard_weight_is_elementwise_product() {
    let buf = file_bytes(
        &[
            ("h.hada_w1_a", vec![2, 1], vec![1.0, 2.0]),
            ("h.hada_w1_b", vec![1, 2], vec![3.0, 4.0]),
            ("h.hada_w2_a", vec![2, 1], vec![1.0, 1.0]),
            ("h.hada_w2_b", vec![1, 2], vec![2.0, 0.5]),
            ("h.alpha", vec![], vec![1.0]),
        ],
        &[],
    );
    let w = BufferedLoRAWeight::new(buf).unwrap();
    let t = w.scale_hada_weight("h").unwrap();
    assert_eq!(matrix(&t), vec![vec![6.0, 2.0], vec![12.0, 4.0]]);
    assert!(matches!(w.scale_hada_weight("g"), Err(InspectorError::NotFound)));
}

#[test]
fn hadamard_with_tucker_cores() {
    // rebuild(t, wa, wb) = wb^T @ (t @ wa), and the two rebuilds multiply as matrices
    let buf = file_bytes(
        &[
            ("h.hada_w1_a", vec![1, 2], vec![1.0, 2.0]),
            ("h.hada_w1_b", vec![1, 2], vec![3.0, 4.0]),
            ("h.hada_w2_a", vec![1, 2], vec![1.0, 1.0]),
            ("h.hada_w2_b", vec![1, 2], vec![2.0, 0.5]),
            ("h.hada_t1", vec![1, 1], vec![1.0]),
            ("h.hada_t2", vec![1, 1], vec![1.0]),
            ("h.alpha", vec![], vec![1.0]),
        ],
        &[],
    );
    let w = BufferedLoRAWeight::new(buf).unwrap();
    let t = w.scale_hada_weight("h").unwrap();
    assert_eq!(matrix(&t), vec![vec![9.0, 9.0], vec![12.0, 12.0]]);
}

#[test]
fn hadamard_with_one_core_uses_plain_products() {
    let buf = file_bytes(
        &[
            ("h.hada_w1_a", vec![2, 1], vec![1.0, 2.0]),
            ("h.hada_w1_b", vec![1, 2], vec![3.0, 4.0]),
            ("h.hada_w2_a", vec![2, 1], vec![1.0, 1.0]),
            ("h.hada_w2_b", vec![1, 2], vec![2.0, 0.5]),
            ("h.hada_t1", vec![1, 1], vec![5.0]),
            ("h.alpha", vec![], vec![1.0]),
        ],
        &[],
    );
    let w = BufferedLoRAWeight::new(buf).unwrap();
    let t = w.scale_hada_weight("h").unwrap();
    assert_eq!(matrix(&t), vec![vec![6.0, 2.0], vec![12.0, 4.0]]);
}

#[test]
fn generalized_weight_is_sum_of_products() {
    let buf = file_bytes(
        &[
            ("g.a1.weight", vec![2, 2], vec![1.0, 2.0, 3.0, 4.0]),
            ("g.b1.weight", vec![1, 2], vec![1.0, 1.0]),
            ("g.a2.weight", vec![2, 2], vec![1.0, 0.0, 0.0, 1.0]),
            ("g.b2.weight", vec![2, 1], vec![2.0, 3.0]),
            ("g.alpha", vec![], vec![3.0]),
        ],
        &[],
    );
    let w = BufferedLoRAWeight::new(buf).unwrap();
    let t = w.scale_glora_weights("g").unwrap();
    assert_eq!(matrix(&t), vec![vec![9.0, 12.0], vec![18.0, 21.0]]);
}

#[test]
fn kronecker_weight_of_dense_sides() {
    let buf = file_bytes(
        &[
            ("k.lokr_w1", vec![2, 2], vec![1.0, 2.0, 3.0, 4.0]),
            ("k.lokr_w2", vec![2, 2], vec![0.0, 1.0, 1.0, 0.0]),
        ],
        &[],
    );
    let w = BufferedLoRAWeight::new(buf).unwrap();
    let t = w.scale_lokr_weight("k").unwrap();
    assert_eq!(
        matrix(&t),
        vec![
            vec![0.0, 1.0, 0.0, 2.0],
            vec![1.0, 0.0, 2.0, 0.0],
            vec![0.0, 3.0, 0.0, 4.0],
            vec![3.0, 0.0, 4.0, 0.0],
        ]
    );
}

#[test]
fn kronecker_weight_of_factored_side_is_scaled() {
    let buf = file_bytes(
        &[
            ("k.lokr_w1_a", vec![2, 1], vec![1.0, 2.0]),
            ("k.lokr_w1_b", vec![1, 1], vec![1.0]),
            ("k.lokr_w2", vec![1, 2], vec![1.0, 3.0]),
            ("k.alpha", vec![], vec![2.0]),
        ],
        &[],
    );
    let w = BufferedLoRAWeight::new(buf).unwrap();
    let t = w.scale_lokr_weight("k").unwrap();
    assert_eq!(matrix(&t), vec![vec![2.0, 6.0], vec![4.0, 12.0]]);
    let missing_alpha = file_bytes(
        &[
            ("k.lokr_w1_a", vec![2, 1], vec![1.0, 2.0]),
            ("k.lokr_w1_b", vec![1, 1], vec![1.0]),
            ("k.lokr_w2", vec![1, 2], vec![1.0, 3.0]),
        ],
        &[],
    );
    let w = BufferedLoRAWeight::new(missing_alpha).unwrap();
    assert!(matches!(w.scale_lokr_weight("k"), Err(InspectorError::NotFound)));
}

#[test]
fn kronecker_shape_law() {
    let pair = file_bytes(
        &[("p.a", vec![2, 3], vec![1.0; 6]), ("p.b", vec![4, 5], vec![1.0; 20])],
        &[],
    );
    let w = BufferedLoRAWeight::new(pair).unwrap();
    let a = w.get("p.a").unwrap();
    let b = w.get("p.b").unwrap();
    assert_eq!(kron(&a, &b).unwrap().dims(), &vec![8, 15]);
    let padded = file_bytes(
        &[("q.a", vec![2, 3], vec![1.0; 6]), ("q.b", vec![5, 7, 1, 1], vec![1.0; 35])],
        &[],
    );
    let w = BufferedLoRAWeight::new(padded).unwrap();
    let a = w.get("q.a").unwrap();
    let b = w.get("q.b").unwrap();
    assert_eq!(kron(&a, &b).unwrap().dims(), &vec![10, 21, 1, 1]);
    let buf = file_bytes(
        &[
            ("k.lokr_w1", vec![2, 3], vec![1.0; 6]),
            ("k.lokr_w2", vec![4, 5, 1, 1], vec![1.0; 20]),
        ],
        &[],
    );
    let w = BufferedLoRAWeight::new(buf).unwrap();
    assert_eq!(w.scale_lokr_weight("k").unwrap().dims(), &vec![8, 15, 1, 1]);
}

#[test]
fn orthogonal_weights_are_returned_unscaled() {
    let buf = file_bytes(&[("o.oft_diag", vec![2, 2], vec![1.0, 2.0, 3.0, 4.0])], &[]);
    let w = BufferedLoRAWeight::new(buf).unwrap();
    let t = w.scale_weight_by(Some(NetworkType::DiagOFT), "o").unwrap();
    assert_eq!(matrix(&t), vec![vec![1.0, 2.0], vec![3.0, 4.0]]);
    assert!(matches!(w.scale_weight_by(Some(NetworkType::BOFT), "o"), Err(InspectorError::NotFound)));
    assert!(matches!(
        w.scale_weight_by(Some(NetworkType::IA3), "o"),
        Err(InspectorError::UnsupportedNetworkType)
    ));
    assert_eq!(w.dims(), vec![2]);
}

#[test]
fn unload_makes_reconstruction_fail() {
    let mut file = LoRAFile::new_from_buffer(&conventional(), "a.safetensors");
    assert!(file.is_tensors_loaded());
    assert!(file.scale_weight("lora_unet_a").is_ok());
    file.unload();
    assert!(!file.is_tensors_loaded());
    assert!(matches!(file.scale_weight("lora_unet_a"), Err(InspectorError::NotLoaded)));
    assert!(file.keys().is_empty());
    assert_eq!(file.filename(), "a.safetensors");
}

#[test]
fn file_load_from_invalid_buffer() {
    let filename = "boo.safetensors";
    let lora_file = LoRAFile::new_from_buffer(&[1_u8], filename);
    let base_name = "l1_error_weight";

    let result = lora_file.scale_weight(base_name);

    assert!(result.is_err());
}

#[test]
fn file_reads_network_type_and_keys() {
    let buf = file_bytes(
        &[
            ("lora_unet_x.hada_w1_a", vec![2, 1], vec![1.0, 2.0]),
            ("lora_unet_x.hada_w1_b", vec![1, 2], vec![3.0, 4.0]),
            ("lora_unet_x.hada_w2_a", vec![2, 1], vec![1.0, 1.0]),
            ("lora_unet_x.hada_w2_b", vec![1, 2], vec![2.0, 0.5]),
            ("lora_unet_x.alpha", vec![], vec![1.0]),
        ],
        &[("ss_network_module", "lycoris.kohya"), ("ss_network_args", r#"{"algo": "loha"}"#)],
    );
    let file = LoRAFile::new_from_buffer(&buf, "h.safetensors");
    assert_eq!(file.network_type().unwrap(), Some(NetworkType::LoHA));
    assert_eq!(file.base_names(), vec!["lora_unet_x".to_string()]);
    assert_eq!(file.unet_keys().len(), 5);
    assert_eq!(file.text_encoder_keys().len(), 0);
    assert_eq!(file.alpha_keys().len(), 1);
    assert_eq!(file.precision(), "fp32");
    let t = file.scale_weight("lora_unet_x").unwrap();
    assert_eq!(matrix(&t), vec![vec![6.0, 2.0], vec![12.0, 4.0]]);
    let all = file.scale_weights();
    assert_eq!(all.len(), 1);
    assert_eq!(all[0].0, "lora_unet_x");
    assert!(all[0].1.is_ok());
}

#[test]
fn decimal_counts() {
    assert_eq!(parse_usize("8"), Some(8));
    assert_eq!(parse_usize("+12"), Some(12));
    assert_eq!(parse_usize(""), None);
    assert_eq!(parse_usize("+"), None);
    assert_eq!(parse_usize("-1"), None);
    assert_eq!(parse_usize("1a"), None);
    assert_eq!(parse_usize("18446744073709551616"), None);
    assert_eq!(parse_usize("18446744073709551615"), Some(usize::MAX));
}

#[test]
fn block_info() {
    assert_eq!(
        parse_block_info("lora_unet_single_blocks_12_attn"),
        Some(("single_12".to_string(), "lora_unet_single_blocks_12_attn".to_string()))
    );
    assert_eq!(
        parse_block_info("double_blocks_3_img_mlp"),
        Some(("double_3".to_string(), "double_blocks_3_img_mlp".to_string()))
    );
    assert_eq!(
        parse_block_info("lora_unet_down_blocks_0_x"),
        Some(("unknown_0".to_string(), "lora_unet_down_blocks_0_x".to_string()))
    );
    assert_eq!(parse_block_info("lora_te_text_model"), None);
    assert_eq!(parse_block_info("blocks_12"), None);
}

#[test]
fn partition_around_first() {
    assert_eq!(partition(&[5, 1, 7, 3, 9, 5]), Some((vec![1, 3], 5, vec![7, 9, 5])));
    assert_eq!(partition(&[]), None);
}

#[test]
fn preloaded_store_rebuilds_the_same() {
    let lazy = BufferedLoRAWeight::new(conventional()).unwrap();
    let eager = BufferedLoRAWeight::new_loaded(conventional()).unwrap();
    assert_eq!(
        matrix(&lazy.scale_lora_weight("lora_unet_a").unwrap()),
        matrix(&eager.scale_lora_weight("lora_unet_a").unwrap())
    );
    assert!(matches!(eager.get("missing"), Err(InspectorError::NotFound)));
    assert_eq!(eager.get("lora_unet_a.lora_down.weight").unwrap().dims(), &vec![1, 3]);
}

#[test]
fn brain_float_factors_are_widened() {
    let bf16 = |v: f32| (v.to_bits() >> 16) as u16;
    let up: Vec<u8> = [1.0f32, 2.0].iter().flat_map(|v| bf16(*v).to_le_bytes()).collect();
    let down: Vec<u8> = [1.0f32, 2.0].iter().flat_map(|v| bf16(*v).to_le_bytes()).collect();
    let alpha = bytes_of(&[2.0]);
    let views = vec![
        ("b.lora_up.weight".to_string(), safetensors::tensor::TensorView::new(safetensors::Dtype::BF16, vec![2, 1], &up).unwrap()),
        ("b.lora_down.weight".to_string(), safetensors::tensor::TensorView::new(safetensors::Dtype::BF16, vec![1, 2], &down).unwrap()),
        ("b.alpha".to_string(), safetensors::tensor::TensorView::new(safetensors::Dtype::F32, vec![], &alpha).unwrap()),
    ];
    let buf = safetensors::tensor::serialize(views, &None).unwrap();
    let file = LoRAFile::new_from_buffer(&buf, "b.safetensors");
    assert_eq!(file.precision(), "bf16");
    let t = file.scale_weight("b").unwrap();
    assert_eq!(t.tensor().dtype(), candle_core::DType::F32);
    assert_eq!(matrix(&t), vec![vec![2.0, 4.0], vec![4.0, 8.0]]);
}

#[test]
fn scale_divides_by_rank() {
    let buf = file_bytes(
        &[
            ("r.lora_up.weight", vec![2, 2], vec![1.0, 0.0, 0.0, 1.0]),
            ("r.lora_down.weight", vec![2, 2], vec![2.0, 4.0, 6.0, 8.0]),
            ("r.alpha", vec![], vec![1.0]),
        ],
        &[],
    );
    let w = BufferedLoRAWeight::new(buf).unwrap();
    let t = w.scale_lora_weight("r").unwrap();
    assert_eq!(matrix(&t), vec![vec![1.0, 2.0], vec![3.0, 4.0]]);
}

#[test]
fn block_keys_order_by_kind_then_number() {
    assert_eq!(compare_block_keys("double_3", "single_1"), -1);
    assert_eq!(compare_block_keys("single_10", "single_9"), 1);
    assert_eq!(compare_block_keys("single_2", "single_2"), 0);
    assert_eq!(compare_block_keys("unknown_0", "double_12"), 1);
    let mut keys = vec!["single_10", "double_2", "single_9", "double_10"];
    keys.sort_by(|a, b| compare_block_keys(a, b).cmp(&0));
    assert_eq!(keys, vec!["double_2", "double_10", "single_9", "single_10"]);
}

#[test]
fn first_dimensions_of_matching_tensors() {
    let buf = file_bytes(
        &[
            ("transformer.a.lora_A.weight", vec![16, 4], vec![0.0; 64]),
            ("transformer.b.lora_A.weight", vec![16, 4], vec![0.0; 64]),
            ("transformer.a.lora_B.weight", vec![4, 16], vec![0.0; 64]),
        ],
        &[],
    );
    let file = LoRAFile::new_from_buffer(&buf, "p.safetensors");
    assert_eq!(file.first_dims("lora_A"), vec![16]);
    assert_eq!(file.first_dims("nothing"), Vec::<usize>::new());
}
