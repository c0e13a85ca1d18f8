use inspector::metadata::{compare_metadata, KeyedList, Metadata};
use inspector::network::{
    parse_network_args, BlockUsizeSeq, NetworkModule, NetworkType, WeightDecomposition,
};
use inspector::InspectorError;

fn map(pairs: &[(&str, &str)]) -> KeyedList<String> {
    KeyedList::from_pairs(pairs.iter().map(|(k, v)| (k.to_string(), v.to_string())).collect()).unwrap()
}

#[test]
fn keyed_list_refuses_repeated_names() {
    let pairs = vec![("a".to_string(), "1".to_string()), ("a".to_string(), "2".to_string())];
    assert!(KeyedList::from_pairs(pairs).is_none());
    let m = Metadata { metadata: Some(map(&[("key1", "value1"), ("key2", "value2")])) };
    let diff = compare_metadata(&m, &m);
    assert!(diff.added.is_empty() && diff.removed.is_empty() && diff.changed.is_empty());
}

#[test]
fn test_compare_metadata_no_changes() {
    let m1 = Metadata { metadata: Some(map(&[("key1", "value1"), ("key2", "value2")])) };
    let m2 = Metadata { metadata: Some(map(&[("key1", "value1"), ("key2", "value2")])) };

    let diff = compare_metadata(&m1, &m2);
    assert!(diff.added.is_empty());
    assert!(diff.removed.is_empty());
    assert!(diff.changed.is_empty());
}

#[test]
fn test_compare_metadata_added() {
    let m1 = Metadata { metadata: Some(map(&[("key1", "value1")])) };
    let m2 = Metadata { metadata: Some(map(&[("key1", "value1"), ("key2", "value2")])) };

    let diff = compare_metadata(&m1, &m2);
    assert_eq!(diff.added.len(), 1);
    assert_eq!(diff.added.get("key2"), Some(&"value2".to_string()));
    assert!(diff.removed.is_empty());
    assert!(diff.changed.is_empty());
}

#[test]
fn test_compare_metadata_removed() {
    let m1 = Metadata { metadata: Some(map(&[("key1", "value1"), ("key2", "value2")])) };
    let m2 = Metadata { metadata: Some(map(&[("key1", "value1")])) };

    let diff = compare_metadata(&m1, &m2);
    assert!(diff.added.is_empty());
    assert_eq!(diff.removed.len(), 1);
    assert_eq!(diff.removed.get("key2"), Some(&"value2".to_string()));
    assert!(diff.changed.is_empty());
}

#[test]
fn test_compare_metadata_changed() {
    let m1 = Metadata { metadata: Some(map(&[("key1", "value1")])) };
    let m2 = Metadata { metadata: Some(map(&[("key1", "new_value1")])) };

    let diff = compare_metadata(&m1, &m2);
    assert!(diff.added.is_empty());
    assert!(diff.removed.is_empty());
    assert_eq!(diff.changed.len(), 1);
    let changed = diff.changed.get("key1").unwrap();
    assert_eq!(changed.old, "value1");
    assert_eq!(changed.new, "new_value1");
}

#[test]
fn test_compare_metadata_multiple_changes() {
    let m1 = Metadata { metadata: Some(map(&[("key1", "value1"), ("key2", "value2")])) };
    let m2 = Metadata { metadata: Some(map(&[("key1", "new_value1"), ("key3", "value3")])) };

    let diff = compare_metadata(&m1, &m2);
    assert_eq!(diff.added.len(), 1);
    assert_eq!(diff.added.get("key3"), Some(&"value3".to_string()));
    assert_eq!(diff.removed.len(), 1);
    assert_eq!(diff.removed.get("key2"), Some(&"value2".to_string()));
    assert_eq!(diff.changed.len(), 1);
    let changed = diff.changed.get("key1").unwrap();
    assert_eq!(changed.old, "value1");
    assert_eq!(changed.new, "new_value1");
}

#[test]
fn test_compare_metadata_none() {
    let m1 = Metadata { metadata: None };
    let m2 = Metadata { metadata: None };

    let diff = compare_metadata(&m1, &m2);
    assert!(diff.added.is_empty());
    assert!(diff.removed.is_empty());
    assert!(diff.changed.is_empty());
}

#[test]
fn test_compare_metadata_some_none() {
    let m1 = Metadata { metadata: Some(map(&[("key1", "value1")])) };
    let m2 = Metadata { metadata: None };

    let diff = compare_metadata(&m1, &m2);
    assert!(diff.added.is_empty());
    println!("{:?}", diff);
    assert_eq!(diff.removed.len(), 1);
    assert_eq!(diff.removed.get("key1"), Some(&"value1".to_string()));
    assert!(diff.changed.is_empty());
}

#[test]
fn test_compare_metadata_empty() {
    let m1 = Metadata { metadata: Some(map(&[])) };
    let m2 = Metadata { metadata: Some(map(&[])) };

    let diff = compare_metadata(&m1, &m2);
    assert!(diff.added.is_empty());
    assert!(diff.removed.is_empty());
    assert!(diff.changed.is_empty());
}

#[test]
fn metadata_load_from_invalid_buffer() {
    let metadata = Metadata::new_from_buffer(&[1_u8]);
    assert!(metadata.is_err());
    assert!(matches!(metadata, Err(_)));
}

#[test]
fn network_network_args() {
    let json = r#"{
  "dropout": "0.5",
  "rank_dropout": "0.4",
  "module_dropout": "0.1",
  "block_dims": "2,2,2,2,4,4,4,4,8,8,8,8,8,8,8,8,8,4,4,4,4,2,2,2,2",
  "block_alphas": "8,8,8,8,8,8,8,8,16,16,16,16,16,16,16,16,16,16,16,16,16,16,16,16,16",
  "drop_keys": "to_v",
  "conv_block_dims": "1,1,1,1,1,1,1,1,1,1,1,1,1,2,2,2,2,2,2,2,2,2,2,2,2",
  "conv_block_alphas": "4,4,4,4,4,4,4,4,4,4,4,4,4,8,8,8,8,8,8,8,8,8,8,8,8",
  "down_lr_weight": "0,0,0,0,0,0,0,1,1,1,1,1",
  "up_lr_weight": "1,1,1,1,0,0,0,0,0,0,0,0",
  "mid_lr_weight": "1",
    "conv_dim": "8", "conv_alpha": "4", "use_cp": "True", "algo": "loha"
}"#;

    let network_args = parse_network_args(json);
    assert!(network_args.is_ok());
    let args = network_args.unwrap();
    assert_eq!(args.algo.as_deref(), Some("loha"));
    assert_eq!(args.conv_dim, Some(8));
    assert_eq!(args.use_cp, Some(true));
    assert_eq!(args.rescale, None);
    let dims = args.block_dims.unwrap().0;
    assert_eq!(dims.len(), 25);
    assert_eq!(&dims[..5], &[2, 2, 2, 2, 4]);
    assert_eq!(args.block_alphas.unwrap().0[8], 16);
}

#[test]
fn block_count_lists() {
    assert_eq!(BlockUsizeSeq::parse("2,2,4").unwrap().0, vec![2, 2, 4]);
    assert_eq!(BlockUsizeSeq::parse("7").unwrap().0, vec![7]);
    assert!(BlockUsizeSeq::parse("2,,4").is_err());
    assert!(BlockUsizeSeq::parse("").is_err());
    assert!(BlockUsizeSeq::parse("1,x").is_err());
    match parse_network_args(r#"{"block_dims": "1,a"}"#) {
        Err(InspectorError::InvalidNetworkArg(n)) => assert_eq!(n, "block_dims"),
        other => panic!("unexpected {:?}", other),
    }
}

#[test]
fn network_args_errors() {
    assert!(matches!(parse_network_args("{"), Err(InspectorError::Metadata(_))));
    assert!(matches!(parse_network_args("[1]"), Err(InspectorError::InvalidNetworkArg(_))));
    match parse_network_args(r#"{"use_cp": "yes"}"#) {
        Err(InspectorError::InvalidNetworkArg(n)) => assert_eq!(n, "use_cp"),
        other => panic!("unexpected {:?}", other),
    }
    match parse_network_args(r#"{"conv_dim": "8x"}"#) {
        Err(InspectorError::InvalidNetworkArg(n)) => assert_eq!(n, "conv_dim"),
        other => panic!("unexpected {:?}", other),
    }
    match parse_network_args(r#"{"algo": 3}"#) {
        Err(InspectorError::InvalidNetworkArg(n)) => assert_eq!(n, "algo"),
        other => panic!("unexpected {:?}", other),
    }
    let a = parse_network_args(r#"{"algo": null, "dora_wd": "True", "rs_lora": "False"}"#).unwrap();
    assert_eq!(a.algo, None);
    assert_eq!(a.weight_decomposition(), WeightDecomposition::DoRA);
    assert!(!a.rank_stabilized());
}

#[test]
fn network_type_from_metadata() {
    let plain = Metadata { metadata: Some(map(&[("ss_network_module", "networks.lora")])) };
    assert_eq!(plain.network_module(), Some(NetworkModule::KohyaSSLoRA));
    assert_eq!(plain.network_type().unwrap(), Some(NetworkType::LoRA));

    let fa = Metadata { metadata: Some(map(&[("ss_network_module", "networks.lora_fa")])) };
    assert_eq!(fa.network_type().unwrap(), Some(NetworkType::LoRAFA));

    let loha = Metadata {
        metadata: Some(map(&[("ss_network_module", "lycoris.kohya"), ("ss_network_args", r#"{"algo": "loha"}"#)])),
    };
    assert_eq!(loha.network_type().unwrap(), Some(NetworkType::LoHA));

    let no_algo = Metadata {
        metadata: Some(map(&[("ss_network_module", "lycoris.kohya"), ("ss_network_args", "{}")])),
    };
    assert_eq!(no_algo.network_type().unwrap(), Some(NetworkType::LoRA));

    let unknown = Metadata {
        metadata: Some(map(&[("ss_network_module", "lycoris.kohya"), ("ss_network_args", r#"{"algo": "x"}"#)])),
    };
    match unknown.network_type() {
        Err(InspectorError::UnrecognizedAlgorithm(a)) => assert_eq!(a, "x"),
        other => panic!("unexpected {:?}", other),
    }

    let none = Metadata { metadata: None };
    assert_eq!(none.network_type().unwrap(), None);
    assert_eq!(none.metadata_size(), 0);
    assert_eq!(loha.metadata_size(), 2);
    assert_eq!(none.weight_decomposition().unwrap(), None);
    assert_eq!(none.rank_stabilized().unwrap(), None);

    let other = Metadata { metadata: Some(map(&[("ss_network_module", "something.else")])) };
    assert_eq!(other.network_type().unwrap(), None);
}

fn header_only(json: &str) -> Vec<u8> {
    let mut buf = (json.len() as u64).to_le_bytes().to_vec();
    buf.extend_from_slice(json.as_bytes());
    buf
}

#[test]
fn header_with_ranges_past_the_buffer_is_refused() {
    let json = r#"{"a":{"dtype":"U8","shape":[9223372036854775808],"data_offsets":[0,9223372036854775808]},"b":{"dtype":"U8","shape":[9223372036854775807],"data_offsets":[9223372036854775808,18446744073709551615]}}"#;
    let buf = header_only(json);
    assert!(matches!(Metadata::new_from_buffer(&buf), Err(InspectorError::MalformedHeader)));
    assert!(matches!(
        inspector::weight::BufferedLoRAWeight::new(buf.clone()),
        Err(InspectorError::MalformedHeader)
    ));
    let file = inspector::file::LoRAFile::new_from_buffer(&buf, "bad.safetensors");
    assert!(!file.is_tensors_loaded());
}
