use lms_hss::create_lms_tree;
use lms_hss::lms_sign_message;
use lms_hss::verify_lms_signature;
use lms_hss::LmotsAlgorithmType;
use lms_hss::LmsAlgorithmType;

#[test]
fn test_combinations_32() {
    let message = "this is the message I want signed".as_bytes();
    let lms_types = [
        LmsAlgorithmType::LmsSha256N32H5,
        LmsAlgorithmType::LmsSha256N32H10,
    ];
    let ots_types = [
        LmotsAlgorithmType::LmotsSha256N32W1,
        LmotsAlgorithmType::LmotsSha256N32W2,
        LmotsAlgorithmType::LmotsSha256N32W4,
        LmotsAlgorithmType::LmotsSha256N32W8,
    ];
    for lms_type in lms_types.iter() {
        for ots_type in ots_types.iter() {
            let (lms_public_key, lms_tree) = create_lms_tree(lms_type, ots_type).unwrap();

            let num_keys = 10;
            let mut passed = 0;
            for offset_q in 0..num_keys {
                let the_q_to_use = lms_tree.q + offset_q;
                let lms_sig = lms_sign_message(
                    ots_type,
                    lms_type,
                    message,
                    &lms_tree.private_keys[the_q_to_use as usize].clone(),
                    the_q_to_use,
                    &lms_tree,
                )
                .unwrap();

                let valid = verify_lms_signature(message, &lms_public_key, &lms_sig).unwrap();
                if valid {
                    passed += 1;
                }
                assert!(valid);
            }
            assert_eq!(passed, num_keys);
        }
    }
}

#[test]
fn test_combinations_24() {
    let message = "this is the message I want signed".as_bytes();
    let lms_types = [
        LmsAlgorithmType::LmsSha256N24H5,
        LmsAlgorithmType::LmsSha256N24H10,
    ];
    let ots_types = [
        LmotsAlgorithmType::LmotsSha256N24W1,
        LmotsAlgorithmType::LmotsSha256N24W2,
        LmotsAlgorithmType::LmotsSha256N24W4,
        LmotsAlgorithmType::LmotsSha256N24W8,
    ];
    for lms_type in lms_types.iter() {
        for ots_type in ots_types.iter() {
            let (lms_public_key, lms_tree) = create_lms_tree(lms_type, ots_type).unwrap();

            let num_keys = 10;
            let mut passed = 0;
            for offset_q in 0..num_keys {
                let the_q_to_use = lms_tree.q + offset_q;
                let lms_sig = lms_sign_message(
                    ots_type,
                    lms_type,
                    message,
                    &lms_tree.private_keys[the_q_to_use as usize].clone(),
                    the_q_to_use,
                    &lms_tree,
                )
                .unwrap();

                let valid = verify_lms_signature(message, &lms_public_key, &lms_sig).unwrap();
                if valid {
                    passed += 1;
                }
                assert!(valid);
            }
            assert_eq!(passed, num_keys);
        }
    }
}
