use turto::utils::i32_to_emoji;
use turto::utils::misc::{le_bytes_of, sha256_now, timestamp_digest, ToEmoji};

#[test]
fn test_test_to_emoji() {
    assert_eq!(42.to_emoji(), "4️⃣2️⃣");
    assert_eq!(123.to_emoji(), "1️⃣2️⃣3️⃣");
    assert_eq!(56789.to_emoji(), "5️⃣6️⃣7️⃣8️⃣9️⃣");
}

#[test]
fn misc_test_to_emoji() {
    assert_eq!(42.to_emoji(), "4️⃣2️⃣");
    assert_eq!(123.to_emoji(), "1️⃣2️⃣3️⃣");
    assert_eq!(56789.to_emoji(), "5️⃣6️⃣7️⃣8️⃣9️⃣");
}

#[test]
fn zero_is_one_keycap() {
    assert_eq!(0usize.to_emoji(), "0️⃣");
    assert_eq!(usize::MAX.to_emoji().chars().count(), usize::MAX.to_string().len() * 3);
}

#[test]
fn negative_numbers_get_a_minus_sign() {
    assert_eq!(i32_to_emoji(-42), "➖4️⃣2️⃣");
    assert_eq!(i32_to_emoji(0), "0️⃣");
    assert_eq!(i32_to_emoji(7), "7️⃣");
    assert_eq!(i32_to_emoji(i32::MIN), "➖2️⃣1️⃣4️⃣7️⃣4️⃣8️⃣3️⃣6️⃣4️⃣8️⃣");
}

#[test]
fn little_endian_bytes_match_std() {
    for x in [0i64, 1, -1, 255, 256, 1_700_000_000, i64::MIN, i64::MAX] {
        assert_eq!(le_bytes_of(x), x.to_le_bytes().to_vec());
    }
}

#[test]
fn a_timestamp_digest_is_the_sha256_of_its_bytes() {
    assert_eq!(
        timestamp_digest(0),
        "af5570f5a1810b7af78caf4bc70a660f0df51e42baf91d4de5b2328de0e83dfc"
    );
    assert_eq!(
        timestamp_digest(1_700_000_000),
        "4861a8bbf7cfb1b0847cfacc6b8bdedbe45644dc7d487cb68793de389b90d6b7"
    );
}

#[test]
fn the_current_digest_is_hex() {
    let d = sha256_now();
    assert_eq!(d.len(), 64);
    assert!(d.chars().all(|c| c.is_ascii_hexdigit() && !c.is_ascii_uppercase()));
}
