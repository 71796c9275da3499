use rotp::code::totp_code;
use rotp::digest::{counter_bytes, generate, totp, TotpError};

const RFC_SECRET: &str = "GEZDGNBVGY3TQOJQGEZDGNBVGY3TQOJQ";

#[test]
fn rfc6238_vector_at_59_six_digits() {
    assert_eq!(generate(RFC_SECRET, 30, 6, 59), Ok("287082".to_string()));
}

#[test]
fn rfc6238_vectors_eight_digits() {
    let cases: [(u64, &str); 6] = [
        (59, "94287082"),
        (1111111109, "07081804"),
        (1111111111, "14050471"),
        (1234567890, "89005924"),
        (2000000000, "69279037"),
        (20000000000, "65353130"),
    ];
    for (now, expected) in cases {
        assert_eq!(generate(RFC_SECRET, 30, 8, now), Ok(expected.to_string()));
    }
}

#[test]
fn rfc4226_truncation_example() {
    let digest: Vec<u8> = vec![
        0x1f, 0x86, 0x98, 0x69, 0x0e, 0x02, 0xca, 0x16, 0x61, 0x85, 0x50, 0xef, 0x7f, 0x19, 0xda,
        0x8e, 0x94, 0x5b, 0x55, 0x5a,
    ];
    assert_eq!(totp_code(&digest, 6), "872921");
    assert_eq!(totp_code(&digest, 9), "357872921");
}

#[test]
fn truncation_clears_top_bit() {
    let mut digest = vec![0u8; 20];
    digest[0] = 0xff;
    digest[1] = 0xff;
    digest[2] = 0xff;
    digest[3] = 0xff;
    // window at offset 0: 0x7fffffff = 2147483647
    assert_eq!(totp_code(&digest, 9), "147483647");
}

#[test]
fn zero_value_is_all_zeros() {
    let digest = vec![0u8; 20];
    assert_eq!(totp_code(&digest, 6), "000000");
}

#[test]
fn small_value_is_left_padded() {
    let mut digest = vec![0u8; 20];
    digest[19] = 0x0c;
    digest[15] = 7;
    assert_eq!(totp_code(&digest, 6), "000007");
}

#[test]
fn every_width_has_its_length() {
    let digest: Vec<u8> = (0u8..20).map(|b| b.wrapping_mul(37)).collect();
    for digits in 0usize..=9 {
        let code = totp_code(&digest, digits);
        assert_eq!(code.len(), digits);
        assert!(code.chars().all(|c| c.is_ascii_digit()));
    }
}

#[test]
fn six_digit_codes_for_valid_secrets() {
    for now in [0u64, 1, 29, 30, 1_700_000_000, u64::MAX] {
        let code = generate("JBSWY3DPEHPK3PXP", 30, 6, now).unwrap();
        assert_eq!(code.len(), 6);
        assert!(code.chars().all(|c| c.is_ascii_digit()));
    }
}

#[test]
fn same_step_gives_same_digest_and_code() {
    assert_eq!(totp(RFC_SECRET, 30, 30), totp(RFC_SECRET, 30, 59));
    assert_eq!(generate(RFC_SECRET, 30, 6, 30), generate(RFC_SECRET, 30, 6, 59));
    assert_ne!(totp(RFC_SECRET, 30, 59), totp(RFC_SECRET, 30, 60));
}

#[test]
fn digest_is_twenty_bytes() {
    let d = totp(RFC_SECRET, 30, 59).unwrap();
    assert_eq!(d.len(), 20);
    assert_ne!(d, counter_bytes(1));
}

#[test]
fn counter_is_big_endian() {
    assert_eq!(counter_bytes(1), vec![0, 0, 0, 0, 0, 0, 0, 1]);
    assert_eq!(
        counter_bytes(0x0102030405060708),
        vec![1, 2, 3, 4, 5, 6, 7, 8]
    );
    assert_eq!(counter_bytes(u64::MAX), vec![0xff; 8]);
}

#[test]
fn invalid_base32_is_rejected() {
    assert_eq!(generate("JBSWY3DPEHPK3PX1", 30, 6, 59), Err(TotpError::InvalidBase32));
    assert_eq!(generate("JBSWY3DPEHPK3PX8", 30, 6, 59), Err(TotpError::InvalidBase32));
    assert_eq!(totp("jbswy3dpehpk3pxp", 30, 59), Err(TotpError::InvalidBase32));
    assert_eq!(totp("JBSWY3DPEHPK3PXP====", 30, 59), Err(TotpError::InvalidBase32));
}

#[test]
fn empty_secret_still_gives_a_code() {
    let code = generate("", 30, 6, 59).unwrap();
    assert_eq!(code.len(), 6);
}
