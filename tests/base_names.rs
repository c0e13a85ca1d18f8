use inspector::keys::{base_names, detect_format, get_base_name, is_peft, weight_keys, LoRAFormat};

#[test]
fn lib_get_base_name_test() {
    let base_name = get_base_name("lora_unet_up_blocks_1_attentions_1_proj_out.lora_up.weight");
    assert_eq!(base_name, "lora_unet_up_blocks_1_attentions_1_proj_out");

    let base_name = get_base_name("lora_unet_up_blocks_1_attentions_1_proj_out.lora_down.weight");
    assert_eq!(base_name, "lora_unet_up_blocks_1_attentions_1_proj_out");

    let base_name = get_base_name("lora_te1_text_model_encoder_layers_5_self_attn_q_proj.hada_w1_a");
    assert_eq!(base_name, "lora_te1_text_model_encoder_layers_5_self_attn_q_proj");

    let base_name = get_base_name("lora_te1_text_model_encoder_layers_5_self_attn_q_proj.lokr_w1");
    assert_eq!(base_name, "lora_te1_text_model_encoder_layers_5_self_attn_q_proj");

    let base_name = get_base_name("lora_te1_text_model_encoder_layers_5_self_attn_q_proj.oft_diag");
    assert_eq!(base_name, "lora_te1_text_model_encoder_layers_5_self_attn_q_proj");

    let base_name = get_base_name("lora_unet_up_blocks_1_attentions_1_proj_out.alpha");
    assert_eq!(base_name, "lora_unet_up_blocks_1_attentions_1_proj_out");
}

#[test]
fn weight_get_base_name_test() {
    let base_name = get_base_name("lora_unet_up_blocks_1_attentions_1_proj_out.lora_up.weight");
    assert_eq!(base_name, "lora_unet_up_blocks_1_attentions_1_proj_out");

    let base_name = get_base_name("lora_unet_up_blocks_1_attentions_1_proj_out.lora_down.weight");
    assert_eq!(base_name, "lora_unet_up_blocks_1_attentions_1_proj_out");

    let base_name = get_base_name("lora_te1_text_model_encoder_layers_5_self_attn_q_proj.hada_w1_a");
    assert_eq!(base_name, "lora_te1_text_model_encoder_layers_5_self_attn_q_proj");

    let base_name = get_base_name("lora_te1_text_model_encoder_layers_5_self_attn_q_proj.lokr_w1");
    assert_eq!(base_name, "lora_te1_text_model_encoder_layers_5_self_attn_q_proj");

    let base_name = get_base_name("lora_te1_text_model_encoder_layers_5_self_attn_q_proj.oft_diag");
    assert_eq!(base_name, "lora_te1_text_model_encoder_layers_5_self_attn_q_proj");

    let base_name = get_base_name("lora_unet_up_blocks_1_attentions_1_proj_out.alpha");
    assert_eq!(base_name, "lora_unet_up_blocks_1_attentions_1_proj_out");
}

#[test]
fn base_name_keeps_inner_dots_and_parameter_efficient_parts() {
    assert_eq!(
        get_base_name("transformer.transformer_blocks.8.attn.to_q.lora_A.weight"),
        "transformer.transformer_blocks.8.attn.to_q"
    );
    assert_eq!(get_base_name("x.lora_B.weight"), "x");
    // no leading dot when the first kept piece is empty
    assert_eq!(get_base_name(".a.weight"), "a");
    assert_eq!(get_base_name(""), "");
    assert_eq!(get_base_name("weight"), "");
}

#[test]
fn base_name_round_trip_on_examples() {
    for base in ["proj_out", "lora_te_x", "", "attn"] {
        assert_eq!(get_base_name(&format!("{base}.lora_up.weight")), base);
        assert_eq!(get_base_name(&format!("{base}.lora_down.weight")), base);
        assert_eq!(get_base_name(&format!("{base}.alpha")), base);
    }
}

fn strings(v: &[&str]) -> Vec<String> {
    v.iter().map(|s| s.to_string()).collect()
}

#[test]
fn base_name_strips_every_component_word() {
    let base = "lora_unet_mid_block_attentions_0_proj";
    for sfx in [
        ".lora_A.weight",
        ".lora_B.weight",
        ".hada_w2_b",
        ".hada_t1",
        ".lokr_w2",
        ".lokr_w1_a",
        ".lokr_t2",
        ".a1.weight",
        ".b1.weight",
        ".a2.weight",
        ".b2.weight",
        ".oft_blocks",
        ".oft_diag",
    ] {
        assert_eq!(get_base_name(&format!("{base}{sfx}")), base);
    }
}

#[test]
fn format_detection_reads_the_first_ten_names() {
    let peft = strings(&["transformer.blocks.0.lora_A.weight", "transformer.blocks.0.lora_B.weight"]);
    assert!(is_peft(&peft));
    assert_eq!(detect_format(&peft), LoRAFormat::Peft);
    // the same names give the same answer every time
    assert_eq!(detect_format(&peft), detect_format(&peft.clone()));

    let kohya = strings(&["lora_unet_a.lora_up.weight", "lora_unet_a.lora_down.weight", "lora_unet_a.alpha"]);
    assert_eq!(detect_format(&kohya), LoRAFormat::Kohya);

    let mut late: Vec<String> = (0..10).map(|i| format!("lora_unet_{i}.alpha")).collect();
    late.push("transformer.late.lora_A.weight".to_string());
    assert_eq!(detect_format(&late), LoRAFormat::Kohya);

    let comfy = strings(&["diffusion_model.input.lora_A.weight"]);
    assert_eq!(detect_format(&comfy), LoRAFormat::Peft);

    assert_eq!(detect_format(&Vec::new()), LoRAFormat::Kohya);
}

#[test]
fn weight_keys_gather_pattern_by_pattern() {
    let keys = strings(&[
        "a.lora_up.weight",
        "a.alpha",
        "b.hada_w1_a",
        "b.hada_w2_a",
        "c.oft_blocks",
    ]);
    let w = weight_keys(&keys);
    assert_eq!(w, strings(&["a.lora_up.weight", "b.hada_w1_a", "c.oft_blocks"]));
}

#[test]
fn base_names_are_distinct() {
    let keys = strings(&[
        "a.lora_up.weight",
        "a.lora_down.weight",
        "a.alpha",
        "b.hada_w1_a",
        "b.hada_w1_b",
        "c.alpha",
    ]);
    let names = base_names(&keys);
    assert_eq!(names, strings(&["a", "b"]));
}
