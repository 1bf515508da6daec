use onlinerpg::google_keys::{
    decoding_key_step, google_issuers, key_from_cache, may_refetch_jwks, token_key_id, verify_google_token, Jwk, KeyStep,
    JWKS_MIN_REFRESH_MS, JWKS_TTL_MS,
};

const HEADER_WITH_KID: &str = "eyJhbGciOiJSUzI1NiIsImtpZCI6ImFiYyJ9";
const HEADER_WITHOUT_KID: &str = "eyJhbGciOiJSUzI1NiJ9";
const CLAIMS: &str = "eyJzdWIiOiIxIn0";

#[test]
fn key_id_comes_from_the_token_header() {
    let token = format!("{HEADER_WITH_KID}.{CLAIMS}.sig");
    assert_eq!(token_key_id(&token), Ok("abc".to_string()));
    let token = format!("{HEADER_WITHOUT_KID}.{CLAIMS}.sig");
    assert_eq!(token_key_id(&token), Err("token has no key id".to_string()));
    let err = token_key_id("not-a-token").unwrap_err();
    assert!(err.starts_with("bad token header: "), "{err}");
}

fn keys() -> Vec<Jwk> {
    vec![
        Jwk { kid: "old".to_string(), n: "!!".to_string(), e: "AQAB".to_string() },
        Jwk { kid: "abc".to_string(), n: "xjlCRBqkOZ6c".to_string(), e: "AQAB".to_string() },
    ]
}

#[test]
fn cached_keys_expire_and_must_be_well_formed() {
    assert!(key_from_cache(&keys(), "abc", 10, JWKS_TTL_MS).is_some());
    assert!(key_from_cache(&keys(), "abc", JWKS_TTL_MS + 1, JWKS_TTL_MS).is_none());
    assert!(key_from_cache(&keys(), "nope", 10, JWKS_TTL_MS).is_none());
    assert!(key_from_cache(&keys(), "old", 10, JWKS_TTL_MS).is_none());
}

#[test]
fn refetch_is_rate_limited() {
    assert!(may_refetch_jwks(None));
    assert!(!may_refetch_jwks(Some(JWKS_MIN_REFRESH_MS - 1)));
    assert!(may_refetch_jwks(Some(JWKS_MIN_REFRESH_MS)));
    let ks = keys();
    assert!(matches!(decoding_key_step(None, "abc"), KeyStep::Fetch));
    assert!(matches!(decoding_key_step(Some((&ks, 5)), "abc"), KeyStep::Key(_)));
    assert!(matches!(decoding_key_step(Some((&ks, 5)), "nope"), KeyStep::Unknown));
    assert!(matches!(decoding_key_step(Some((&ks, JWKS_MIN_REFRESH_MS)), "nope"), KeyStep::Fetch));
    assert!(matches!(decoding_key_step(Some((&ks, JWKS_TTL_MS + 1)), "abc"), KeyStep::Fetch));
}

#[test]
fn key_components_must_be_canonical_unpadded_base64() {
    let with = |n: &str, e: &str| vec![Jwk { kid: "k".to_string(), n: n.to_string(), e: e.to_string() }];
    // Two symbols whose unused low bits are zero, and full groups.
    assert!(key_from_cache(&with("AQ", "AQAB"), "k", 0, JWKS_TTL_MS).is_some());
    // Padding is refused.
    assert!(key_from_cache(&with("AQ==", "AQAB"), "k", 0, JWKS_TTL_MS).is_none());
    // A length of the form 4k+1 is refused.
    assert!(key_from_cache(&with("AQABA", "AQAB"), "k", 0, JWKS_TTL_MS).is_none());
    // Set trailing bits are refused.
    assert!(key_from_cache(&with("AR", "AQAB"), "k", 0, JWKS_TTL_MS).is_none());
    assert!(key_from_cache(&with("AQB", "AQAB"), "k", 0, JWKS_TTL_MS).is_none());
    // The standard alphabet's `+` is not URL-safe.
    assert!(key_from_cache(&with("A+AB", "AQAB"), "k", 0, JWKS_TTL_MS).is_none());
    assert!(key_from_cache(&with("A-_B", "AQAB"), "k", 0, JWKS_TTL_MS).is_some());
    // The key keeps the components it was built from.
    let k = key_from_cache(&with("A-_B", "AQAB"), "k", 0, JWKS_TTL_MS).unwrap();
    assert_eq!(k.n, "A-_B");
    assert_eq!(k.e, "AQAB");
}

#[test]
fn token_check_refuses_bad_tokens_with_its_prefix() {
    let key = key_from_cache(&keys(), "abc", 0, JWKS_TTL_MS).unwrap();
    let err = verify_google_token("not-a-token", &key, "client").unwrap_err();
    assert!(err.starts_with("token verification failed: "), "{err}");
    // A well-formed token whose signature does not match the key.
    let token = format!("{HEADER_WITH_KID}.{CLAIMS}.c2ln");
    let err = verify_google_token(&token, &key, "client").unwrap_err();
    assert!(err.starts_with("token verification failed: "), "{err}");
}

#[test]
fn google_signs_as_two_issuers() {
    assert_eq!(google_issuers(), vec!["https://accounts.google.com".to_string(), "accounts.google.com".to_string()]);
}
