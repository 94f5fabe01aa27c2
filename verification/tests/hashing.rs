use smoltasks::hashing::{
    generate_and_hash_auth_token, generate_token, hash_password, hash_token, password_round_trip,
    verify_password,
};

#[test]
fn password_round_trip_holds() {
    let p = "secret1";
    let h = hash_password(p);
    assert!(verify_password(p, &h));
    assert!(password_round_trip("another password"));
}

#[test]
fn wrong_password_fails() {
    let h = hash_password("secret1");
    assert!(!verify_password("secret2", &h));
    assert!(!verify_password("", &h));
}

#[test]
fn malformed_hash_never_matches() {
    assert!(!verify_password("secret1", "not a phc string"));
    assert!(!verify_password("secret1", ""));
}

#[test]
fn password_hash_is_self_describing() {
    let h = hash_password("secret1");
    assert!(h.starts_with("$scrypt$"));
    assert!(h.contains("$"));
}

#[test]
fn hash_token_known_vectors() {
    // SHA-256 of the empty input and of "abc", hex-encoded.
    assert_eq!(
        hash_token(""),
        "e3b0c44298fc1c149afbf4c8996fb92427ae41e4649b934ca495991b7852b855"
    );
    assert_eq!(
        hash_token("abc"),
        "ba7816bf8f01cfea414140de5dae2223b00361a396177a9cb410ff61f20015ad"
    );
}

#[test]
fn hash_token_is_deterministic_and_opaque() {
    let t = "0123456789abcdef0123456789abcdef";
    let h1 = hash_token(t);
    let h2 = hash_token(t);
    assert_eq!(h1, h2);
    assert_eq!(h1.len(), 64);
    // The digest is not the token itself.
    assert_ne!(h1, t);
}

#[test]
fn generated_tokens_are_hex_and_fresh() {
    let t1 = generate_token();
    let t2 = generate_token();
    assert_eq!(t1.len(), 32);
    assert_eq!(t2.len(), 32);
    assert!(t1.chars().all(|c| c.is_ascii_hexdigit()));
    assert!(t1.chars().all(|c| !c.is_ascii_uppercase()));
    // 128 bits of entropy: two draws never collide in practice.
    assert_ne!(t1, t2);
}

#[test]
fn generated_pair_is_token_and_its_digest() {
    let (token, digest) = generate_and_hash_auth_token();
    assert_eq!(token.len(), 32);
    assert_eq!(digest.len(), 64);
    assert_eq!(hash_token(&token), digest);
    assert_ne!(token, digest);
}
