use zkbench::harness::system_key;

#[test]
fn test_system_key_no_feat() {
    assert_eq!(system_key("binius64", &None), "binius64");
}

#[test]
fn test_system_key_empty_feat() {
    assert_eq!(system_key("binius64", &Some(String::new())), "binius64");
}

#[test]
fn test_system_key_with_feat() {
    assert_eq!(
        system_key("circom", &Some("groth16".to_string())),
        "circom_groth16"
    );
}
