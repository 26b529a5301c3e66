use did_indexer::envelope::parse_molecule;
use did_indexer::error::AppError;
use did_indexer::util::{
    calculate_web5_did, check_did_doc, check_did_str, check_signing_key_str, extract_core_did,
    transfer_time, Web5DocumentData,
};

fn envelope(tag: u32, doc: &[u8]) -> Vec<u8> {
    let n = (doc.len() + 16) as u32;
    let mut b = Vec::new();
    b.extend_from_slice(&tag.to_le_bytes());
    b.extend_from_slice(&(n - 4).to_le_bytes());
    b.extend_from_slice(&8u32.to_le_bytes());
    b.extend_from_slice(&(doc.len() as u32).to_le_bytes());
    b.extend_from_slice(doc);
    b
}

fn doc(aka: &[&str], services: usize, methods: &[(&str, &str)]) -> Web5DocumentData {
    Web5DocumentData {
        also_known_as: aka.iter().map(|s| s.to_string()).collect(),
        services: (0..services).map(|i| format!("{{\"s\":{i}}}")).collect(),
        verification_methods: methods.iter().map(|(k, v)| (k.to_string(), v.to_string())).collect(),
    }
}

#[test]
fn envelope_v1_yields_document() {
    assert_eq!(parse_molecule(&envelope(0, b"\xa1abc")).unwrap(), b"\xa1abc".to_vec());
    assert_eq!(parse_molecule(&envelope(0, b"")).unwrap(), Vec::<u8>::new());
}

#[test]
fn envelope_unknown_variant_fails() {
    assert!(matches!(parse_molecule(&envelope(1, b"x")), Err(AppError::MoleculeError(_))));
}

#[test]
fn envelope_malformed_fails() {
    assert!(matches!(parse_molecule(&[0, 0, 0]), Err(AppError::MoleculeError(_))));
    let mut b = envelope(0, b"xyz");
    b.push(0);
    assert!(matches!(parse_molecule(&b), Err(AppError::MoleculeError(_))));
    let mut c = envelope(0, b"xyz");
    c[12] = 2;
    assert!(matches!(parse_molecule(&c), Err(AppError::MoleculeError(_))));
}

#[test]
fn valid_document_gives_handle_and_key() {
    let d = doc(&["at://alice.example", "x"], 1, &[("other", "k"), ("atproto", "did:key:z6Mk1")]);
    let (h, k) = check_did_doc(&d).unwrap();
    assert_eq!(h, "alice.example");
    assert_eq!(k, "did:key:z6Mk1");
    let u = doc(&["at://ünï"], 1, &[("atproto", "did:key:z")]);
    assert_eq!(check_did_doc(&u).unwrap().0, "ünï");
}

#[test]
fn document_rule_errors() {
    let no_alias = doc(&[], 1, &[("atproto", "did:key:z")]);
    assert!(matches!(check_did_doc(&no_alias), Err(AppError::IncompatibleDidDoc(_))));
    let bad_alias = doc(&["https://x"], 1, &[("atproto", "did:key:z")]);
    assert!(matches!(check_did_doc(&bad_alias), Err(AppError::IncompatibleDidDoc(_))));
    let no_service = doc(&["at://x"], 0, &[("atproto", "did:key:z")]);
    assert!(matches!(check_did_doc(&no_service), Err(AppError::IncompatibleDidDoc(_))));
    let no_method = doc(&["at://x"], 1, &[("other", "did:key:z")]);
    assert!(matches!(check_did_doc(&no_method), Err(AppError::IncompatibleDidDoc(_))));
    let bad_key = doc(&["at://x"], 1, &[("atproto", "did:plc:z")]);
    match check_did_doc(&bad_key) {
        Err(AppError::IncompatibleDidDoc(m)) => assert!(m.ends_with("did:plc:z")),
        _ => panic!("expected a key format error"),
    }
}

#[test]
fn signing_key_and_did_strings() {
    assert!(check_signing_key_str("did:key:z6Mk"));
    assert!(!check_signing_key_str("did:ke"));
    assert!(check_did_str("anything"));
    assert_eq!(extract_core_did("did:web5:abc"), "abc");
    assert_eq!(extract_core_did("did:plc"), "plc");
    assert_eq!(extract_core_did("abc:def"), "abc:def");
    assert_eq!(extract_core_did("did:"), "");
}

#[test]
fn did_uses_first_twenty_bytes() {
    let a: Vec<u8> = (1u8..=20).collect();
    let mut b = a.clone();
    b.extend_from_slice(&[0xff, 0xee]);
    assert_eq!(calculate_web5_did(&a), "aebagbafaydqqcikbmga2dqpcaireeyu");
    assert_eq!(calculate_web5_did(&a), calculate_web5_did(&b));
}

#[test]
fn timestamps_render_to_the_millisecond() {
    assert_eq!(transfer_time(0).unwrap(), "1970-01-01T00:00:00.000Z");
    assert_eq!(transfer_time(947638923004).unwrap(), "2000-01-12T01:02:03.004Z");
    assert!(matches!(transfer_time(u64::MAX), Err(AppError::RunTimeError(_))));
}

#[test]
fn error_status_codes() {
    assert_eq!(AppError::DidDocNotFound("x".into()).status_code(), 404);
    assert_eq!(AppError::HandleNotFound("x".into()).status_code(), 404);
    assert_eq!(AppError::CkbAddrNotFound("x".into()).status_code(), 404);
    assert_eq!(AppError::IncompatibleDid("x".into()).status_code(), 400);
    assert_eq!(AppError::DidDocNotValid("x".into()).status_code(), 400);
    assert_eq!(AppError::DbExecuteFailed("x".into()).status_code(), 500);
    assert_eq!(AppError::CountNotFound.status_code(), 500);
    assert!(AppError::MoleculeError("x".into()).is_data_error());
    assert!(!AppError::CkbRpcError("x".into()).is_data_error());
}


#[test]
fn rule_messages_follow_rule_order() {
    let e = |d: &Web5DocumentData| match check_did_doc(d) {
        Err(AppError::IncompatibleDidDoc(m)) => m,
        other => panic!("unexpected {other:?}"),
    };
    assert_eq!(e(&doc(&[], 0, &[])), "alsoKnownAs not correct");
    assert_eq!(e(&doc(&["at://x"], 0, &[])), "services not provide");
    assert_eq!(e(&doc(&["at://x"], 1, &[("other", "did:key:z")])), "verificationMethods not provide");
    assert_eq!(
        e(&doc(&["at://x"], 1, &[("atproto", "zQ3s")])),
        "verificationMethods provided signing key format error: zQ3s"
    );
}

#[test]
fn envelope_error_carries_hint() {
    match parse_molecule(&[9, 9]) {
        Err(AppError::MoleculeError(m)) => assert_eq!(m, "DidWeb5Data convert failed, please update cell."),
        _ => panic!("expected a molecule error"),
    }
}

#[test]
fn timestamps_through_year_9999_render() {
    assert_eq!(transfer_time(253_402_300_799_999).unwrap(), "9999-12-31T23:59:59.999Z");
}
