use pinentry_keepassxc::config::{generate, generate_idkey, load, read, store, Identity};

#[test]
fn a_paired_identity_reads_back_as_written() {
    let identity = Identity {
        id: Some("0123abcd \"quoted\" \\ \n é".to_string()),
        id_key: "bm9uY2Utbm9uY2Utbm9uY2Utbm9uY2U=".to_string(),
    };
    let text = store(&identity).expect("a paired identity is written");
    assert_eq!(read(&text), Some(identity));
}

#[test]
fn the_written_form_names_the_secret_first() {
    let identity = Identity { id: Some("pairing".to_string()), id_key: "c2VjcmV0".to_string() };
    assert_eq!(store(&identity), Some(r#"{"idKey":"c2VjcmV0","id":"pairing"}"#.to_string()));
}

#[test]
fn an_identity_that_is_not_paired_is_not_written() {
    let identity = Identity { id: None, id_key: "c2VjcmV0".to_string() };
    assert_eq!(store(&identity), None);
}

#[test]
fn a_file_without_a_pairing_id_loads_as_not_paired() {
    assert_eq!(
        read(r#"{"idKey":"c2VjcmV0"}"#),
        Some(Identity { id: None, id_key: "c2VjcmV0".to_string() })
    );
    assert_eq!(
        read(r#"{"id":null,"idKey":"c2VjcmV0"}"#),
        Some(Identity { id: None, id_key: "c2VjcmV0".to_string() })
    );
}

#[test]
fn a_file_that_cannot_be_read_holds_no_identity() {
    assert_eq!(read(""), None);
    assert_eq!(read("not json"), None);
    assert_eq!(read(r#"{"id":"pairing"}"#), None);
    assert_eq!(read(r#"{"id":"pairing","idKey":7}"#), None);
    assert_eq!(read(r#"["idKey","c2VjcmV0"]"#), None);
}

#[test]
fn a_generated_identity_is_not_paired() {
    let identity = generate();
    assert_eq!(identity.id, None);
    assert_eq!(base64::decode(&identity.id_key).map(|b| b.len()), Ok(24));
}

#[test]
fn pairing_secrets_are_nonces_in_base64() {
    let a = generate_idkey();
    let b = generate_idkey();
    assert_eq!(base64::decode(&a).map(|b| b.len()), Ok(24));
    assert_eq!(a.len(), 32);
    assert_ne!(a, b);
}

#[test]
fn a_run_starts_with_the_identity_of_the_file() {
    let identity = Identity { id: Some("pairing".to_string()), id_key: "c2VjcmV0".to_string() };
    let text = store(&identity).expect("a paired identity is written");
    assert_eq!(load(Some(&text)), identity);
}

#[test]
fn a_run_without_a_readable_file_starts_with_a_new_identity() {
    for contents in [None, Some(""), Some("{"), Some(r#"{"id":"pairing"}"#)] {
        let identity = load(contents);
        assert_eq!(identity.id, None);
        assert_eq!(base64::decode(&identity.id_key).map(|b| b.len()), Ok(24));
    }
}

#[test]
fn a_file_beyond_the_limit_holds_no_identity() {
    let padded = format!(r#"{{"idKey":"c2VjcmV0","pad":"{}"}}"#, "x".repeat(40000));
    assert_eq!(read(&padded), None);
    assert_eq!(load(Some(&padded)).id, None);
}
