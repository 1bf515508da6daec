//! Google ID-token signing keys: which key a token names, and the rules of
//! the JWKS cache (how long a fetched key set is trusted, and how often it
//! may be fetched again when a token names an unknown key).
use jsonwebtoken::DecodingKey;
use vstd::prelude::*;

use crate::text::{chars_eq, chars_of, extend_str, string_of};

verus! {

/// `jsonwebtoken`'s verification key, carried through unopened.
#[verifier::external_type_specification]
#[verifier::external_body]
pub struct ExDecodingKey(jsonwebtoken::DecodingKey);

/// How long a fetched key set is trusted, in milliseconds.
pub const JWKS_TTL_MS: u64 = 3_600_000;
/// Least time between two fetches of the key set, in milliseconds, so that
/// tokens naming unknown keys cannot make the server hammer Google.
pub const JWKS_MIN_REFRESH_MS: u64 = 300_000;

/// What `jsonwebtoken::decode_header` finds as the key id of a token:
/// `None` when the header cannot be decoded, `Some(None)` when it names no
/// key.
pub uninterp spec fn jwt_header_kid(token: Seq<char>) -> Option<Option<Seq<char>>>;

/// The value of a URL-safe base64 symbol, or -1 for any other character.
pub open spec fn b64_symbol(c: char) -> int {
    if 'A' <= c && c <= 'Z' {
        c as int - 'A' as int
    } else if 'a' <= c && c <= 'z' {
        c as int - 'a' as int + 26
    } else if '0' <= c && c <= '9' {
        c as int - '0' as int + 52
    } else if c == '-' {
        62
    } else if c == '_' {
        63
    } else {
        -1
    }
}

/// Whether `s` is canonical unpadded URL-safe base64: every character a
/// symbol (so no `=`), no length of the form 4k+1, and the unused low bits
/// of a final partial group zero.
pub open spec fn b64_url_nopad_ok(s: Seq<char>) -> bool {
    &&& forall|i: int| 0 <= i < s.len() ==> b64_symbol(#[trigger] s[i]) >= 0
    &&& s.len() % 4 != 1
    &&& s.len() % 4 == 2 ==> b64_symbol(s.last()) % 16 == 0
    &&& s.len() % 4 == 3 ==> b64_symbol(s.last()) % 4 == 0
}

/// Whether `jsonwebtoken::DecodingKey::from_rsa_components` accepts an RSA
/// modulus and exponent: both must decode as unpadded URL-safe base64.
pub open spec fn rsa_components_ok(n: Seq<char>, e: Seq<char>) -> bool {
    b64_url_nopad_ok(n) && b64_url_nopad_ok(e)
}

/// `jsonwebtoken::decode_header`, reduced to the header's key id. Claimed:
/// the result is `jwt_header_kid` of the token. The text of a decoding
/// error is not described.
#[verifier::external_body]
fn decode_header_kid(token: &str) -> (r: Result<Option<String>, String>)
    ensures
        match r {
            Ok(Some(k)) => jwt_header_kid(token@) == Some(Some(k@)),
            Ok(None) => jwt_header_kid(token@) == Some(None::<Seq<char>>),
            Err(_) => jwt_header_kid(token@) is None,
        },
{
    match jsonwebtoken::decode_header(token) {
        Ok(header) => Ok(header.kid),
        Err(e) => Err(e.to_string()),
    }
}

/// An RSA verification key, with the modulus and exponent (unpadded
/// URL-safe base64) it was built from.
pub struct RsaKey {
    pub n: String,
    pub e: String,
    pub key: DecodingKey,
}

/// `jsonwebtoken::DecodingKey::from_rsa_components`, its error dropped and
/// its key kept with the components it was given. Claimed: a key comes
/// back exactly when `rsa_components_ok` holds (the source decodes both
/// parts with `base64`'s `URL_SAFE_NO_PAD` engine, which rejects any other
/// character, padding, a length of the form 4k+1 and set trailing bits),
/// and it carries `n` and `e`. What
/// the opaque key holds inside is not described.
#[verifier::external_body]
fn rsa_decoding_key(n: &str, e: &str) -> (r: Option<RsaKey>)
    ensures
        r is Some <==> rsa_components_ok(n@, e@),
        r matches Some(k) ==> k.n@ == n@ && k.e@ == e@,
{
    match DecodingKey::from_rsa_components(n, e) {
        Ok(key) => Some(RsaKey { n: n.to_string(), e: e.to_string(), key }),
        Err(_) => None,
    }
}

/// One key of Google's JWKS document.
#[derive(Debug, Clone)]
pub struct Jwk {
    pub kid: String,
    pub n: String,
    pub e: String,
}

/// The key id a token names, or the reason it names none.
pub fn token_key_id(id_token: &str) -> (r: Result<String, String>)
    ensures
        match jwt_header_kid(id_token@) {
            Some(Some(k)) => (r matches Ok(s) && s@ == k),
            Some(None) => (r matches Err(m) && m@ == "token has no key id"@),
            None => (r matches Err(m) && m@.len() >= 18 && m@.subrange(0, 18) == "bad token header: "@),
        },
{
    match decode_header_kid(id_token) {
        Ok(Some(k)) => Ok(k),
        Ok(None) => Err(String::from_str("token has no key id")),
        Err(e) => {
            let mut v: Vec<char> = chars_of("bad token header: ");
            proof {
                reveal_strlit("bad token header: ");
            }
            let ghost head = v@;
            assert(head.len() == 18);
            extend_str(&mut v, e.as_str());
            proof {
                assert(v@.subrange(0, 18) =~= head);
            }
            Err(string_of(&v))
        },
    }
}

/// Index of the first key at or after `i` with id `kid`.
pub open spec fn first_jwk(keys: Seq<Jwk>, kid: Seq<char>, i: int) -> Option<int>
    decreases keys.len() - i,
{
    if i < 0 || i >= keys.len() {
        None
    } else if keys[i].kid@ == kid {
        Some(i)
    } else {
        first_jwk(keys, kid, i + 1)
    }
}

/// Whether a cached key set yields a key for `kid`: it is at most
/// `max_age_ms` old, holds a key with that id, and the first such key's
/// components are well formed.
pub open spec fn cached_key_found(keys: Seq<Jwk>, kid: Seq<char>, age_ms: u64, max_age_ms: u64) -> bool {
    age_ms <= max_age_ms && match first_jwk(keys, kid, 0) {
        Some(i) => rsa_components_ok(keys[i].n@, keys[i].e@),
        None => false,
    }
}

/// Whether `k` is the key of the first JWK with id `kid`.
pub open spec fn is_key_of(k: RsaKey, keys: Seq<Jwk>, kid: Seq<char>) -> bool {
    match first_jwk(keys, kid, 0) {
        Some(i) => k.n@ == keys[i].n@ && k.e@ == keys[i].e@,
        None => false,
    }
}

/// The verification key for `kid` from a key set fetched `age_ms` ago:
/// built from the first key with that id.
pub fn key_from_cache(keys: &Vec<Jwk>, kid: &str, age_ms: u64, max_age_ms: u64) -> (r: Option<RsaKey>)
    ensures
        r is Some <==> cached_key_found(keys@, kid@, age_ms, max_age_ms),
        r matches Some(k) ==> is_key_of(k, keys@, kid@),
{
    if age_ms > max_age_ms {
        return None;
    }
    let want = chars_of(kid);
    let mut i: usize = 0;
    while i < keys.len()
        invariant
            i <= keys@.len(),
            age_ms <= max_age_ms,
            want@ == kid@,
            first_jwk(keys@, kid@, 0) == first_jwk(keys@, kid@, i as int),
        decreases keys.len() - i,
    {
        if chars_eq(&chars_of(keys[i].kid.as_str()), &want) {
            proof {
                assert(keys@[i as int].kid@ == kid@);
                assert(first_jwk(keys@, kid@, i as int) == Some(i as int));
            }
            let k = &keys[i];
            return rsa_decoding_key(k.n.as_str(), k.e.as_str());
        }
        i = i + 1;
    }
    None
}

/// After a cache miss, whether the key set may be fetched again: it never
/// was, or the last fetch is at least `JWKS_MIN_REFRESH_MS` old.
pub fn may_refetch_jwks(last_fetch_age_ms: Option<u64>) -> (r: bool)
    ensures
        r == match last_fetch_age_ms {
            Some(a) => a >= JWKS_MIN_REFRESH_MS,
            None => true,
        },
{
    match last_fetch_age_ms {
        Some(a) => a >= JWKS_MIN_REFRESH_MS,
        None => true,
    }
}

/// The next step of finding a token's verification key.
pub enum KeyStep {
    /// The cached key set has it.
    Key(RsaKey),
    /// Fetch the key set, then look again in the fresh set.
    Fetch,
    /// Give up: `unknown signing key`.
    Unknown,
}

/// Look for `kid` in the cache (`cache` is the key set and its age, if
/// one was fetched); on a miss, fetch unless the last fetch is too recent.
pub fn decoding_key_step(cache: Option<(&Vec<Jwk>, u64)>, kid: &str) -> (r: KeyStep)
    ensures
        match cache {
            Some((keys, age)) => if cached_key_found(keys@, kid@, age, JWKS_TTL_MS) {
                r matches KeyStep::Key(k) && is_key_of(k, keys@, kid@)
            } else if age < JWKS_MIN_REFRESH_MS {
                r is Unknown
            } else {
                r is Fetch
            },
            None => r is Fetch,
        },
{
    match cache {
        None => KeyStep::Fetch,
        Some((keys, age)) => match key_from_cache(keys, kid, age, JWKS_TTL_MS) {
            Some(k) => KeyStep::Key(k),
            None => if may_refetch_jwks(Some(age)) { KeyStep::Fetch } else { KeyStep::Unknown },
        },
    }
}

/// The claims of a token that passed `jsonwebtoken`'s checks, as the JSON
/// text of its payload, with the audience and issuers it was checked
/// against.
#[derive(Debug)]
pub struct ValidatedClaims {
    pub claims_json: String,
    pub audience: String,
    pub issuers: Vec<String>,
}

/// `jsonwebtoken::decode` with an RS256 `Validation` for `audience` and
/// `issuers`, the claims kept as JSON text. The call checks the signature
/// against `key`, the expiry against the clock, the audience and the
/// issuer. Claimed: a success comes only for a token whose header decodes
/// (the call splits and decodes the header as `decode_header` does), and it
/// records the audience and issuers the token was checked against. Which
/// tokens pass depends on the clock and is not stated; nor is the text of
/// an error.
#[verifier::external_body]
fn decode_rs256(token: &str, key: &RsaKey, audience: &str, issuers: &Vec<String>) -> (r: Result<ValidatedClaims, String>)
    ensures
        r is Ok ==> jwt_header_kid(token@) is Some,
        r matches Ok(c) ==> c.audience@ == audience@
            && c.issuers@.map_values(|s: String| s@) == issuers@.map_values(|s: String| s@),
{
    let mut validation = jsonwebtoken::Validation::new(jsonwebtoken::Algorithm::RS256);
    validation.set_audience(&[audience]);
    validation.set_issuer(issuers);
    match jsonwebtoken::decode::<serde_json::Value>(token, &key.key, &validation) {
        Ok(data) => Ok(ValidatedClaims { claims_json: data.claims.to_string(), audience: audience.to_string(), issuers: issuers.clone() }),
        Err(e) => Err(e.to_string()),
    }
}

/// The issuers Google signs ID tokens as.
pub open spec fn google_issuers_spec() -> Seq<Seq<char>> {
    seq!["https://accounts.google.com"@, "accounts.google.com"@]
}

/// The issuers Google signs ID tokens as.
pub fn google_issuers() -> (r: Vec<String>)
    ensures
        r@.map_values(|s: String| s@) == google_issuers_spec(),
{
    let mut v: Vec<String> = Vec::new();
    v.push(String::from_str("https://accounts.google.com"));
    v.push(String::from_str("accounts.google.com"));
    proof {
        assert(v@.map_values(|s: String| s@) =~= google_issuers_spec());
    }
    v
}

/// Check a Google ID token against its signing key: RS256, audience
/// `client_id`, issuer one of Google's, not expired. A failure reads
/// `token verification failed: ` and the reason.
pub fn verify_google_token(id_token: &str, key: &RsaKey, client_id: &str) -> (r: Result<ValidatedClaims, String>)
    ensures
        r is Ok ==> jwt_header_kid(id_token@) is Some,
        r matches Ok(c) ==> c.audience@ == client_id@ && c.issuers@.map_values(|s: String| s@) == google_issuers_spec(),
        r matches Err(m) ==> m@.len() >= 27 && m@.subrange(0, 27) == "token verification failed: "@,
{
    let issuers = google_issuers();
    match decode_rs256(id_token, key, client_id, &issuers) {
        Ok(c) => Ok(c),
        Err(e) => {
            let mut v: Vec<char> = chars_of("token verification failed: ");
            proof {
                reveal_strlit("token verification failed: ");
            }
            let ghost head = v@;
            assert(head.len() == 27);
            extend_str(&mut v, e.as_str());
            proof {
                assert(v@.subrange(0, 27) =~= head);
            }
            Err(string_of(&v))
        },
    }
}

} // verus!
