use lms_hss::get_lmots_parameters;
use lms_hss::get_lms_parameters;
use lms_hss::lookup_lmots_algorithm_type;
use lms_hss::lookup_lms_algorithm_type;
use lms_hss::LmotsAlgorithmType;
use lms_hss::LmsAlgorithmType;
use lms_hss::LmsError;

#[test]
fn lmots_params_test() {
    let result = get_lmots_parameters(&LmotsAlgorithmType::LmotsSha256N32W4).unwrap();
    assert_eq!(result.n, 32);
}

#[test]
fn lmots_params_full_table() {
    let rows = [
        (LmotsAlgorithmType::LmotsSha256N32W1, 32u8, 1u8, 265u16, 7u8, 8516u16),
        (LmotsAlgorithmType::LmotsSha256N32W2, 32, 2, 133, 6, 4292),
        (LmotsAlgorithmType::LmotsSha256N32W4, 32, 4, 67, 4, 2180),
        (LmotsAlgorithmType::LmotsSha256N32W8, 32, 8, 34, 0, 1124),
        (LmotsAlgorithmType::LmotsSha256N24W1, 24, 1, 200, 8, 4828),
        (LmotsAlgorithmType::LmotsSha256N24W2, 24, 2, 101, 6, 2452),
        (LmotsAlgorithmType::LmotsSha256N24W4, 24, 4, 51, 4, 1252),
        (LmotsAlgorithmType::LmotsSha256N24W8, 24, 8, 26, 0, 652),
    ];
    for (t, n, w, p, ls, sig_len) in rows {
        let param = get_lmots_parameters(&t).unwrap();
        assert_eq!(param.n, n);
        assert_eq!(param.w, w);
        assert_eq!(param.p, p);
        assert_eq!(param.ls, ls);
        assert_eq!(param.sig_len, sig_len);
    }
}

#[test]
fn lmots_params_reserved_is_invalid() {
    assert_eq!(
        get_lmots_parameters(&LmotsAlgorithmType::LmotsReserved).unwrap_err(),
        LmsError::InvalidOts
    );
}

#[test]
fn lms_params_table() {
    assert_eq!(get_lms_parameters(&LmsAlgorithmType::LmsSha256N32H5).unwrap(), (32, 5));
    assert_eq!(get_lms_parameters(&LmsAlgorithmType::LmsSha256N32H10).unwrap(), (32, 10));
    assert_eq!(get_lms_parameters(&LmsAlgorithmType::LmsSha256N24H25).unwrap(), (24, 25));
    assert_eq!(
        get_lms_parameters(&LmsAlgorithmType::LmsReserved).unwrap_err(),
        LmsError::InvalidLms
    );
}

#[test]
fn lookup_known_codes() {
    for value in 1u32..=8 {
        let t = lookup_lmots_algorithm_type(value).unwrap();
        assert_eq!(lms_hss::lmots_code(&t), value);
    }
    for value in 5u32..=14 {
        let t = lookup_lms_algorithm_type(value).unwrap();
        assert_eq!(lms_hss::lms_code(&t), value);
    }
}

#[test]
fn lookup_unknown_codes() {
    for value in [0u32, 9, 100, u32::MAX] {
        assert_eq!(lookup_lmots_algorithm_type(value).unwrap_err(), LmsError::UnknownAlgId);
    }
    for value in [0u32, 1, 2, 3, 4, 15, 100, u32::MAX] {
        assert_eq!(lookup_lms_algorithm_type(value).unwrap_err(), LmsError::UnknownAlgId);
    }
}
