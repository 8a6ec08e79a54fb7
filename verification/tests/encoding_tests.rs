use pixlab::encoding::{
    generate_pkce_codes, hex_encode_lower, pkce_from_verifier, random_hex, random_urlsafe,
    PkceCodes,
};
use pixlab::oauth::build_auth_url;

#[test]
fn hex_encoding_is_lowercase_two_digits_per_byte() {
    assert_eq!(hex_encode_lower(&[0xde, 0xad, 0x00, 0x0f]), "dead000f");
    assert_eq!(hex_encode_lower(&[]), "");
}

#[test]
fn random_hex_has_two_hex_digits_per_byte() {
    let s = random_hex(16);
    assert_eq!(s.len(), 32);
    assert!(s.chars().all(|c| c.is_ascii_digit() || ('a'..='f').contains(&c)));
    assert_eq!(random_hex(0), "");
}

#[test]
fn random_urlsafe_of_96_bytes_is_128_symbols() {
    let s = random_urlsafe(96);
    assert_eq!(s.len(), 128);
    assert!(s
        .chars()
        .all(|c| c.is_ascii_alphanumeric() || c == '-' || c == '_'));
    assert_ne!(random_urlsafe(96), s);
    assert_eq!(random_urlsafe(1).len(), 2);
    assert_eq!(random_urlsafe(2).len(), 3);
}

#[test]
fn pkce_challenge_matches_rfc_7636_example() {
    let codes = pkce_from_verifier("dBjftJeZ4CVP-mB92K27uhbUJU1p1r_wW1gFWFOEjXk".to_string());
    assert_eq!(codes.code_verifier, "dBjftJeZ4CVP-mB92K27uhbUJU1p1r_wW1gFWFOEjXk");
    assert_eq!(codes.code_challenge, "E9Melhoa2OwvFrEMTJguCHaoeK1t8URWbuGJSstw-cM");
}

#[test]
fn pkce_challenge_of_abc_is_its_sha256_in_url_safe_base64() {
    // SHA-256("abc") = ba7816bf...f20015ad
    let codes = pkce_from_verifier("abc".to_string());
    assert_eq!(codes.code_challenge, "ungWv48Bz-pBQUDeXa4iI7ADYaOWF3qctBD_YfIAFa0");
}

#[test]
fn generated_pkce_pair_is_consistent() {
    let codes = generate_pkce_codes();
    assert_eq!(codes.code_verifier.len(), 128);
    let again = pkce_from_verifier(codes.code_verifier.clone());
    assert_eq!(again.code_challenge, codes.code_challenge);
    assert_eq!(codes.code_challenge.len(), 43);
    assert!(codes
        .code_verifier
        .chars()
        .chain(codes.code_challenge.chars())
        .all(|c| c.is_ascii_alphanumeric() || c == '-' || c == '_'));
}

fn state_param(state: &str) -> String {
    let pkce = PkceCodes { code_verifier: String::new(), code_challenge: "c".to_string() };
    let url = build_auth_url(state, &pkce);
    let start = url.find("&state=").expect("state") + "&state=".len();
    let rest = &url[start..];
    rest[..rest.find('&').expect("next")].to_string()
}

#[test]
fn url_encoding_escapes_all_but_unreserved_bytes() {
    assert_eq!(state_param("a b&c=d"), "a%20b%26c%3Dd");
    assert_eq!(state_param("AZaz09-._~"), "AZaz09-._~");
    assert_eq!(state_param("é/+"), "%C3%A9%2F%2B");
}
