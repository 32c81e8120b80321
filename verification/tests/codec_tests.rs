use lms_hss::create_lms_tree;
use lms_hss::get_lmots_parameters;
use lms_hss::lms_sign_message;
use lms_hss::parse_public_contents;
use lms_hss::parse_signature_contents;
use lms_hss::serialize_public_key;
use lms_hss::serialize_signature;
use lms_hss::verify_lms_signature;
use lms_hss::LmotsAlgorithmType;
use lms_hss::LmsAlgorithmType;
use lms_hss::LmsError;

fn small_keypair() -> (lms_hss::LmsPublicKey, lms_hss::LmsTree) {
    create_lms_tree(
        &LmsAlgorithmType::LmsSha256N32H5,
        &LmotsAlgorithmType::LmotsSha256N32W8,
    )
    .unwrap()
}

#[test]
fn public_key_round_trip() {
    let (pk, _tree) = small_keypair();
    let bytes = serialize_public_key(&pk);
    assert_eq!(bytes.len(), 24 + 32);
    let parsed = parse_public_contents(&bytes).unwrap();
    assert_eq!(parsed, pk);
    let reserialized = serialize_public_key(&parsed);
    assert_eq!(reserialized, bytes);
}

#[test]
fn public_key_round_trip_24() {
    let (pk, _tree) = create_lms_tree(
        &LmsAlgorithmType::LmsSha256N24H5,
        &LmotsAlgorithmType::LmotsSha256N24W8,
    )
    .unwrap();
    let bytes = serialize_public_key(&pk);
    assert_eq!(bytes.len(), 24 + 24);
    let parsed = parse_public_contents(&bytes).unwrap();
    assert_eq!(parsed, pk);
    assert_eq!(serialize_public_key(&parsed), bytes);
}

#[test]
fn signature_round_trip() {
    let message = b"codec round trip message";
    let (pk, tree) = small_keypair();
    let sig = lms_sign_message(
        &LmotsAlgorithmType::LmotsSha256N32W8,
        &LmsAlgorithmType::LmsSha256N32H5,
        message,
        &tree.private_keys[0],
        0,
        &tree,
    )
    .unwrap();
    let param = get_lmots_parameters(&LmotsAlgorithmType::LmotsSha256N32W8).unwrap();
    let bytes = serialize_signature(&sig);
    // 12 bytes of identifiers and q, the 32-byte randomizer, p chain values
    // and h path digests of n bytes each.
    assert_eq!(
        bytes.len(),
        12 + 32 + (param.p as usize) * 32 + 5 * 32
    );
    let parsed = parse_signature_contents(&bytes).unwrap();
    assert_eq!(parsed, sig);
    assert_eq!(serialize_signature(&parsed), bytes);
    assert!(verify_lms_signature(message, &pk, &parsed).unwrap());
}

#[test]
fn parse_public_key_errors() {
    let (pk, _tree) = small_keypair();
    let bytes = serialize_public_key(&pk);
    // Too short for even the two identifiers.
    assert_eq!(parse_public_contents(&bytes[..7]).unwrap_err(), LmsError::Truncated);
    // Shorter than 24 + n.
    assert_eq!(parse_public_contents(&bytes[..40]).unwrap_err(), LmsError::Truncated);
    // A spare byte at the end.
    let mut longer = bytes.clone();
    longer.push(0);
    assert_eq!(parse_public_contents(&longer).unwrap_err(), LmsError::TrailingBytes);
    // An unknown LMS code.
    let mut unknown = bytes.clone();
    unknown[3] = 99;
    assert_eq!(parse_public_contents(&unknown).unwrap_err(), LmsError::UnknownAlgId);
    // An unknown LM-OTS code.
    let mut unknown = bytes.clone();
    unknown[7] = 0;
    assert_eq!(parse_public_contents(&unknown).unwrap_err(), LmsError::UnknownAlgId);
    // Codes whose widths disagree: LMS n=32 with LM-OTS n=24.
    let mut mixed = bytes.clone();
    mixed[7] = 7;
    assert_eq!(parse_public_contents(&mixed).unwrap_err(), LmsError::LengthMismatch);
}

#[test]
fn parse_signature_errors() {
    let message = b"error cases";
    let (_pk, tree) = small_keypair();
    let sig = lms_sign_message(
        &LmotsAlgorithmType::LmotsSha256N32W8,
        &LmsAlgorithmType::LmsSha256N32H5,
        message,
        &tree.private_keys[1],
        1,
        &tree,
    )
    .unwrap();
    let bytes = serialize_signature(&sig);
    assert_eq!(parse_signature_contents(&bytes[..6]).unwrap_err(), LmsError::Truncated);
    assert_eq!(
        parse_signature_contents(&bytes[..bytes.len() - 1]).unwrap_err(),
        LmsError::Truncated
    );
    let mut longer = bytes.clone();
    longer.push(0);
    assert_eq!(parse_signature_contents(&longer).unwrap_err(), LmsError::TrailingBytes);
    let mut unknown = bytes.clone();
    unknown[7] = 0;
    assert_eq!(parse_signature_contents(&unknown).unwrap_err(), LmsError::UnknownAlgId);
}

#[test]
fn sign_rejects_out_of_range_q() {
    let (_pk, tree) = small_keypair();
    let err = lms_sign_message(
        &LmotsAlgorithmType::LmotsSha256N32W8,
        &LmsAlgorithmType::LmsSha256N32H5,
        b"m",
        &tree.private_keys[0],
        32,
        &tree,
    )
    .unwrap_err();
    assert_eq!(err, LmsError::QOutOfRange);
}

#[test]
fn sign_rejects_short_private_key() {
    let (_pk, tree) = small_keypair();
    let mut short_key = tree.private_keys[0].clone();
    short_key.pop();
    let err = lms_sign_message(
        &LmotsAlgorithmType::LmotsSha256N32W8,
        &LmsAlgorithmType::LmsSha256N32H5,
        b"m",
        &short_key,
        0,
        &tree,
    )
    .unwrap_err();
    assert_eq!(err, LmsError::BadLength);
}

#[test]
fn create_tree_rejects_mismatched_widths() {
    let err = create_lms_tree(
        &LmsAlgorithmType::LmsSha256N32H5,
        &LmotsAlgorithmType::LmotsSha256N24W4,
    )
    .unwrap_err();
    assert_eq!(err, LmsError::AlgMismatch);
    assert_eq!(
        create_lms_tree(
            &LmsAlgorithmType::LmsReserved,
            &LmotsAlgorithmType::LmotsSha256N32W4,
        )
        .unwrap_err(),
        LmsError::InvalidLms
    );
    assert_eq!(
        create_lms_tree(
            &LmsAlgorithmType::LmsSha256N32H5,
            &LmotsAlgorithmType::LmotsReserved,
        )
        .unwrap_err(),
        LmsError::InvalidOts
    );
}
