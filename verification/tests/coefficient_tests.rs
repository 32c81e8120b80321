use lms_hss::checksum;
use lms_hss::coefficient;
use lms_hss::LmotsAlgorithmType;

// test case from RFC 8554 section 3.1.3
#[test]
fn test_coefficient() {
    let input_value = [0x12u8, 0x34u8];
    let result = coefficient(&input_value, 7, 1);
    assert_eq!(result, 0);

    let result = coefficient(&input_value, 0, 4);
    assert_eq!(result, 1);
}

#[test]
fn coefficient_all_windows() {
    let input_value = [0x12u8, 0x34u8];
    // w = 1 walks the bits most significant first: 0x1234 = 0001001000110100.
    let bits = [0u8, 0, 0, 1, 0, 0, 1, 0, 0, 0, 1, 1, 0, 1, 0, 0];
    for (i, expected) in bits.iter().enumerate() {
        assert_eq!(coefficient(&input_value, i, 1), *expected);
    }
    // w = 4 walks the nibbles.
    for (i, expected) in [1u8, 2, 3, 4].iter().enumerate() {
        assert_eq!(coefficient(&input_value, i, 4), *expected);
    }
    // w = 8 walks the bytes.
    assert_eq!(coefficient(&input_value, 0, 8), 0x12);
    assert_eq!(coefficient(&input_value, 1, 8), 0x34);
}

#[test]
fn coefficient_stays_below_two_to_w() {
    let data = [0xffu8, 0x00, 0xa5, 0x5a, 0x12, 0x34, 0xde, 0xad];
    for w in [1usize, 2, 4, 8] {
        let count = data.len() * 8 / w;
        for i in 0..count {
            let c = coefficient(&data, i, w);
            assert!((c as u16) < (1u16 << w));
        }
    }
}

#[test]
fn checksum_of_zeros() {
    // All coefficients are zero, so each of the 8n/w terms is 2^w - 1.
    let zeros32 = [0u8; 32];
    // n=32, w=4: 64 windows of 15, shifted by ls=4.
    assert_eq!(checksum(&LmotsAlgorithmType::LmotsSha256N32W4, &zeros32), (64 * 15) << 4);
    // n=32, w=8: 32 windows of 255, no shift.
    assert_eq!(checksum(&LmotsAlgorithmType::LmotsSha256N32W8, &zeros32), 32 * 255);
    let zeros24 = [0u8; 24];
    // n=24, w=1: 192 windows of 1, shifted by ls=8.
    assert_eq!(checksum(&LmotsAlgorithmType::LmotsSha256N24W1, &zeros24), 192u16 << 8);
}

#[test]
fn checksum_of_ones() {
    // 0xff bytes make every coefficient maximal, so every term is zero.
    let ones = [0xffu8; 32];
    assert_eq!(checksum(&LmotsAlgorithmType::LmotsSha256N32W4, &ones), 0);
    assert_eq!(checksum(&LmotsAlgorithmType::LmotsSha256N32W1, &ones), 0);
}
