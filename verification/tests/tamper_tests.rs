use lms_hss::create_lms_tree;
use lms_hss::lms_sign_message;
use lms_hss::parse_signature_contents;
use lms_hss::serialize_signature;
use lms_hss::verify_lms_signature;
use lms_hss::LmotsAlgorithmType;
use lms_hss::LmsAlgorithmType;
use lms_hss::LmsError;

fn signed_example() -> (lms_hss::LmsPublicKey, lms_hss::LmsSignature, &'static [u8]) {
    let message: &'static [u8] = b"tamper detection message";
    let (pk, tree) = create_lms_tree(
        &LmsAlgorithmType::LmsSha256N32H5,
        &LmotsAlgorithmType::LmotsSha256N32W4,
    )
    .unwrap();
    let sig = lms_sign_message(
        &LmotsAlgorithmType::LmotsSha256N32W4,
        &LmsAlgorithmType::LmsSha256N32H5,
        message,
        &tree.private_keys[3],
        3,
        &tree,
    )
    .unwrap();
    assert!(verify_lms_signature(message, &pk, &sig).unwrap());
    (pk, sig, message)
}

#[test]
fn tamper_with_q() {
    let (pk, mut sig, message) = signed_example();
    sig.q += 1;
    assert!(!verify_lms_signature(message, &pk, &sig).unwrap());
}

#[test]
fn tamper_with_nonce() {
    let (pk, mut sig, message) = signed_example();
    sig.lmots_signature.nonce[0] ^= 1;
    assert!(!verify_lms_signature(message, &pk, &sig).unwrap());
}

#[test]
fn tamper_with_message() {
    let (pk, sig, _message) = signed_example();
    assert!(!verify_lms_signature(b"a different message", &pk, &sig).unwrap());
}

#[test]
fn tamper_with_chain_value() {
    let (pk, mut sig, message) = signed_example();
    sig.lmots_signature.y[10].value[5] ^= 0x80;
    assert!(!verify_lms_signature(message, &pk, &sig).unwrap());
}

#[test]
fn tamper_with_path() {
    let (pk, mut sig, message) = signed_example();
    sig.lms_path[2].value[0] ^= 1;
    assert!(!verify_lms_signature(message, &pk, &sig).unwrap());
}

#[test]
fn tamper_with_root() {
    let (mut pk, sig, message) = signed_example();
    pk.root.value[0] ^= 1;
    assert!(!verify_lms_signature(message, &pk, &sig).unwrap());
}

#[test]
fn tamper_with_serialized_bit() {
    let (pk, sig, message) = signed_example();
    let bytes = serialize_signature(&sig);
    // Flip one bit inside the first chain value.
    let mut bad = bytes.clone();
    bad[45] ^= 0x40;
    let parsed = parse_signature_contents(&bad).unwrap();
    assert!(!verify_lms_signature(message, &pk, &parsed).unwrap());
}

#[test]
fn tamper_with_algorithm_id() {
    let (pk, mut sig, message) = signed_example();
    sig.sig_type = LmsAlgorithmType::LmsSha256N32H10;
    assert_eq!(
        verify_lms_signature(message, &pk, &sig).unwrap_err(),
        LmsError::AlgMismatch
    );
}
