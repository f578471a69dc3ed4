use hmac::{Hmac, Mac};
use crabcrop::utils::sign::{build_base_string, generate_signature, verify_signature};

const SECRET: &str = "test-secret-key-123";

#[test]
fn roundtrip_sign_verify() {
    let sig = generate_signature(SECRET, "https://example.com/img.jpg", Some(300), Some(200), Some("webp"), Some(85), Some("cover"), 9999999999);
    assert!(verify_signature(SECRET, "https://example.com/img.jpg", Some(300), Some(200), Some("webp"), Some(85), Some("cover"), 9999999999, &sig));
}

#[test]
fn tampered_url_fails() {
    let sig = generate_signature(SECRET, "https://example.com/img.jpg", Some(300), Some(200), Some("webp"), Some(85), Some("cover"), 9999999999);
    assert!(!verify_signature(SECRET, "https://evil.com/img.jpg", Some(300), Some(200), Some("webp"), Some(85), Some("cover"), 9999999999, &sig));
}

#[test]
fn tampered_dimensions_fails() {
    let sig = generate_signature(SECRET, "https://example.com/img.jpg", Some(300), Some(200), Some("webp"), Some(85), Some("cover"), 9999999999);
    assert!(!verify_signature(SECRET, "https://example.com/img.jpg", Some(999), Some(200), Some("webp"), Some(85), Some("cover"), 9999999999, &sig));
}

#[test]
fn different_secret_fails() {
    let sig = generate_signature(SECRET, "https://example.com/img.jpg", Some(300), None, None, None, None, 9999999999);
    assert!(!verify_signature("wrong-secret", "https://example.com/img.jpg", Some(300), None, None, None, None, 9999999999, &sig));
}

#[test]
fn none_params_produce_valid_sig() {
    let sig = generate_signature(SECRET, "https://example.com/img.jpg", None, None, None, None, None, 9999999999);
    assert!(verify_signature(SECRET, "https://example.com/img.jpg", None, None, None, None, None, 9999999999, &sig));
}

#[test]
fn invalid_hex_sig_fails() {
    assert!(!verify_signature(SECRET, "https://example.com/img.jpg", None, None, None, None, None, 9999999999, "not-valid-hex!!!"));
}

#[test]
fn signature_is_64_hex_chars() {
    let sig = generate_signature(SECRET, "https://example.com/img.jpg", Some(300), Some(200), Some("webp"), Some(85), Some("cover"), 9999999999);
    assert_eq!(sig.len(), 64);
    assert!(sig.chars().all(|c| c.is_ascii_hexdigit()));
}

#[test]
fn base_string_lists_fields_in_order() {
    let b = build_base_string("https://a/b.png", Some(300), None, Some("webp"), Some(85), None, 42);
    assert_eq!(b, "https://a/b.png|300||webp|85||42");
    let b = build_base_string("", None, None, None, None, None, 0);
    assert_eq!(b, "||||||0");
}

#[test]
fn signature_is_hmac_sha256_of_base_string() {
    let sig = generate_signature(SECRET, "https://a/b.png", Some(1), Some(2), Some("png"), Some(3), Some("fill"), 77);
    let mut mac = <Hmac<sha2::Sha256> as Mac>::new_from_slice(SECRET.as_bytes()).unwrap();
    mac.update(b"https://a/b.png|1|2|png|3|fill|77");
    assert_eq!(sig, hex::encode(mac.finalize().into_bytes()));
}

#[test]
fn uppercase_signature_is_accepted() {
    let sig = generate_signature(SECRET, "https://a/b.png", None, None, None, None, None, 5);
    assert!(verify_signature(SECRET, "https://a/b.png", None, None, None, None, None, 5, &sig.to_uppercase()));
}

#[test]
fn truncated_or_odd_signature_fails() {
    let sig = generate_signature(SECRET, "https://a/b.png", None, None, None, None, None, 5);
    assert!(!verify_signature(SECRET, "https://a/b.png", None, None, None, None, None, 5, &sig[..62]));
    assert!(!verify_signature(SECRET, "https://a/b.png", None, None, None, None, None, 5, &sig[..63]));
    assert!(!verify_signature(SECRET, "https://a/b.png", None, None, None, None, None, 6, &sig));
}
