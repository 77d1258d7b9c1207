use srs_worker::discord::check_interaction_signature;
use srs_worker::signature::parse_public_key;

const KEY_1: &str = "d75a980182b10ab7d54bfed3c964073a0ee172f3daa62325af021a68f707511a";
const SIG_1: &str = "e5564300c360ac729086e2cc806e828a84877f1eb8e5d974d873e065224901555fb8821590a33bacc61e39701cf9b46bd25bf5f0595bbe24655141438e7a100b";
const KEY_2: &str = "3d4017c3e843895a92b70aa74d1b7ebc9c982ccf2ec4968cc0cd55f12af4660c";
const SIG_2: &str = "92a009a9f0d4cab8720e820b5f642540a2b27b5416503f8fb3762223ebdb69da085ac1e43e15996e458f3613d0f11d8c387b2eaeb4302aeeb00d291612bb0c00";

fn key_2_bytes() -> [u8; 32] {
    [
        0x3d, 0x40, 0x17, 0xc3, 0xe8, 0x43, 0x89, 0x5a, 0x92, 0xb7, 0x0a, 0xa7, 0x4d, 0x1b, 0x7e, 0xbc,
        0x9c, 0x98, 0x2c, 0xcf, 0x2e, 0xc4, 0x96, 0x8c, 0xc0, 0xcd, 0x55, 0xf1, 0x2a, 0xf4, 0x66, 0x0c,
    ]
}

#[test]
fn public_key_decodes_hex() {
    assert_eq!(parse_public_key(KEY_2), Some(key_2_bytes()));
    assert_eq!(parse_public_key(&KEY_2.to_uppercase()), Some(key_2_bytes()));
}

#[test]
fn public_key_pair_may_carry_plus_sign() {
    // "0a" (byte 10) written "+a", as `u8::from_str_radix` accepts.
    let text = KEY_2.replacen("0aa7", "+aa7", 1);
    assert_eq!(text.len(), 64);
    assert_eq!(parse_public_key(&text), Some(key_2_bytes()));
}

#[test]
fn public_key_rejects_bad_text() {
    assert_eq!(parse_public_key(&KEY_2[..62]), None);
    assert_eq!(parse_public_key(&format!("{}00", KEY_2)), None);
    assert_eq!(parse_public_key(&KEY_2.replacen("3d", "3g", 1)), None);
    assert_eq!(parse_public_key(&KEY_2.replacen("3d", "-3", 1)), None);
    assert_eq!(parse_public_key(""), None);
}

#[test]
fn signature_text_is_hex_of_one_case() {
    assert_eq!(check_interaction_signature(Some(&SIG_2.to_uppercase()), Some("r"), Some(KEY_2), b""), Ok(()));
    // Mixed case is refused.
    let mixed = SIG_2.replacen("a", "A", 1);
    assert_eq!(check_interaction_signature(Some(&mixed), Some("r"), Some(KEY_2), b""), Err(401));
    assert_eq!(check_interaction_signature(Some(&SIG_2[..126]), Some("r"), Some(KEY_2), b""), Err(401));
    let plus = SIG_2.replacen("92", "+2", 1);
    assert_eq!(check_interaction_signature(Some(&plus), Some("r"), Some(KEY_2), b""), Err(401));
}

#[test]
fn valid_signature_over_timestamp_and_body_is_accepted() {
    // The signed message of RFC 8032 test 2 is the single byte 0x72 ('r').
    assert_eq!(check_interaction_signature(Some(SIG_2), Some("r"), Some(KEY_2), b""), Ok(()));
    assert_eq!(check_interaction_signature(Some(SIG_2), Some(""), Some(KEY_2), b"r"), Ok(()));
    assert_eq!(check_interaction_signature(Some(SIG_1), Some(""), Some(KEY_1), b""), Ok(()));
}

#[test]
fn wrong_message_or_key_is_unauthorized() {
    assert_eq!(check_interaction_signature(Some(SIG_2), Some("r"), Some(KEY_2), b"x"), Err(401));
    assert_eq!(check_interaction_signature(Some(SIG_2), Some("r"), Some(KEY_1), b""), Err(401));
}

#[test]
fn missing_headers_are_unauthorized() {
    assert_eq!(check_interaction_signature(None, Some("r"), Some(KEY_2), b""), Err(401));
    assert_eq!(check_interaction_signature(Some(SIG_2), None, Some(KEY_2), b""), Err(401));
    assert_eq!(check_interaction_signature(Some("zz"), Some("r"), Some(KEY_2), b""), Err(401));
    // A missing timestamp is reported before anything about the key.
    assert_eq!(check_interaction_signature(Some(SIG_2), None, None, b""), Err(401));
}

#[test]
fn missing_or_bad_key_is_a_server_error() {
    assert_eq!(check_interaction_signature(Some(SIG_2), Some("r"), None, b""), Err(500));
    assert_eq!(check_interaction_signature(Some(SIG_2), Some("r"), Some("abc"), b""), Err(500));
}

#[test]
fn key_off_the_curve_is_refused() {
    // y = 2 is not the y-coordinate of an Edwards point; y = 3 is.
    let off_curve = format!("02{}", "00".repeat(31));
    let on_curve = format!("03{}", "00".repeat(31));
    assert_eq!(parse_public_key(&off_curve), None);
    let mut three = [0u8; 32];
    three[0] = 3;
    assert_eq!(parse_public_key(&on_curve), Some(three));
    assert_eq!(check_interaction_signature(Some(SIG_2), Some("r"), Some(&off_curve), b""), Err(500));
    assert_eq!(check_interaction_signature(Some(SIG_2), Some("r"), Some(&on_curve), b""), Err(401));
}
