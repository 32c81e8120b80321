use lms_hss::create_lms_tree;
use lms_hss::get_lms_parameters;
use lms_hss::lms_sign_message;
use lms_hss::verify_lms_signature;
use lms_hss::LmotsAlgorithmType;
use lms_hss::LmsAlgorithmType;

#[test]
fn test_many_24() {
    let message = "this is the message I want signed".as_bytes();
    let the_lms_type = &LmsAlgorithmType::LmsSha256N24H10;
    let the_ots_type = &LmotsAlgorithmType::LmotsSha256N24W4;
    let (_, tree_height) = get_lms_parameters(the_lms_type).unwrap();
    let (lms_public_key, lms_tree) = create_lms_tree(the_lms_type, the_ots_type).unwrap();

    let num_keys = 1u32 << tree_height;
    let mut passed = 0;
    for offset_q in 0..num_keys {
        let the_q_to_use = lms_tree.q + offset_q;
        let lms_sig = lms_sign_message(
            the_ots_type,
            the_lms_type,
            message,
            &lms_tree.private_keys[the_q_to_use as usize],
            the_q_to_use,
            &lms_tree,
        )
        .unwrap();

        let valid = verify_lms_signature(message, &lms_public_key, &lms_sig).unwrap();
        if valid {
            passed += 1;
        }
        assert!(valid);
    }
    assert_eq!(passed, num_keys);
}

#[test]
fn test_many_32() {
    let message = "this is the message I want signed".as_bytes();
    let the_lms_type = &LmsAlgorithmType::LmsSha256N32H10;
    let the_ots_type = &LmotsAlgorithmType::LmotsSha256N32W4;
    let (_, tree_height) = get_lms_parameters(the_lms_type).unwrap();
    let (lms_public_key, lms_tree) = create_lms_tree(the_lms_type, the_ots_type).unwrap();

    let num_keys = 1u32 << tree_height;
    let mut passed = 0;
    for offset_q in 0..num_keys {
        let the_q_to_use = lms_tree.q + offset_q;
        let lms_sig = lms_sign_message(
            the_ots_type,
            the_lms_type,
            message,
            &lms_tree.private_keys[the_q_to_use as usize].clone(),
            the_q_to_use,
            &lms_tree,
        )
        .unwrap();

        let valid = verify_lms_signature(message, &lms_public_key, &lms_sig).unwrap();
        if valid {
            passed += 1;
        }
        assert!(valid);
    }
    assert_eq!(passed, num_keys);
}
