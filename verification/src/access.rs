//! Credential checks shared by game connections and the REST API: the
//! constant-time NPC token comparison and the rule deciding who may call
//! REST write endpoints.
use vstd::prelude::*;

use crate::text::{ascii_lower_code, chars_of, slice_chars, string_of};

verus! {

/// The claims of a verified Google ID token that the server reads: the
/// account id, and the email used to match the admin allowlist.
#[derive(Debug, Clone)]
pub struct GoogleClaims {
    pub sub: String,
    pub email: Option<String>,
    pub email_verified: Option<bool>,
}

proof fn lemma_or_xor_zero(acc: u8, a: u8, b: u8)
    ensures
        (acc | (a ^ b)) == 0u8 <==> (acc == 0u8 && a == b),
{
    assert((acc | (a ^ b)) == 0u8 <==> (acc == 0u8 && a == b)) by (bit_vector);
}

/// Constant-time equality, so the NPC token cannot be probed byte by byte:
/// true exactly when both strings have the same bytes.
pub fn token_matches(provided: &str, expected: &str) -> (r: bool)
    ensures
        r == (provided@ == expected@),
{
    let p = provided.as_bytes();
    let e = expected.as_bytes();
    proof {
        vstd::utf8::encode_utf8_decode_utf8(provided@);
        vstd::utf8::encode_utf8_decode_utf8(expected@);
    }
    if p.len() != e.len() {
        proof {
            if provided@ == expected@ {
                assert(p@ == e@);
            }
        }
        return false;
    }
    let mut acc: u8 = 0;
    let mut i: usize = 0;
    while i < p.len()
        invariant
            i <= p@.len(),
            p@.len() == e@.len(),
            acc == 0u8 <==> forall|j: int| 0 <= j < i ==> p@[j] == e@[j],
        decreases p.len() - i,
    {
        proof {
            lemma_or_xor_zero(acc, p@[i as int], e@[i as int]);
        }
        acc = acc | (p[i] ^ e[i]);
        i = i + 1;
    }
    proof {
        if acc == 0u8 {
            assert(p@ =~= e@);
        }
        if provided@ == expected@ {
            assert(p@ == e@);
        }
    }
    acc == 0
}

/// The characters of an optional string.
pub open spec fn opt_string_view(s: Option<String>) -> Option<Seq<char>> {
    match s {
        Some(v) => Some(v@),
        None => None,
    }
}

/// `str::eq_ignore_ascii_case`: equal after lowercasing ASCII letters.
pub open spec fn eq_ignore_ascii_case_spec(a: Seq<char>, b: Seq<char>) -> bool {
    a.len() == b.len() && forall|i: int| 0 <= i < a.len() ==> ascii_lower_code(a[i]) == ascii_lower_code(b[i])
}

fn ascii_lower_char(c: char) -> (r: u32)
    ensures
        r as int == ascii_lower_code(c),
{
    if 'A' <= c && c <= 'Z' {
        c as u32 + 32
    } else {
        c as u32
    }
}

/// Case-insensitive (ASCII) comparison of two strings.
pub fn eq_ignore_ascii_case(a: &str, b: &str) -> (r: bool)
    ensures
        r == eq_ignore_ascii_case_spec(a@, b@),
{
    let x = chars_of(a);
    let y = chars_of(b);
    if x.len() != y.len() {
        return false;
    }
    let mut i: usize = 0;
    while i < x.len()
        invariant
            i <= x@.len(),
            x@.len() == y@.len(),
            x@ == a@,
            y@ == b@,
            forall|j: int| 0 <= j < i ==> ascii_lower_code(x@[j]) == ascii_lower_code(y@[j]),
        decreases x.len() - i,
    {
        if ascii_lower_char(x[i]) != ascii_lower_char(y[i]) {
            return false;
        }
        i = i + 1;
    }
    true
}

/// The token of an `Authorization: Bearer <token>` header.
pub open spec fn bearer_token_spec(header: Option<Seq<char>>) -> Option<Seq<char>> {
    let prefix = "Bearer "@;
    match header {
        Some(h) => if h.len() >= prefix.len() && h.subrange(0, prefix.len() as int) == prefix {
            Some(h.subrange(prefix.len() as int, h.len() as int))
        } else {
            None
        },
        None => None,
    }
}

/// The token of an `Authorization` header value that starts with
/// `Bearer `.
pub fn bearer_token(header: Option<&str>) -> (r: Option<String>)
    ensures
        match r {
            Some(t) => bearer_token_spec(match header { Some(h) => Some(h@), None => None }) == Some(t@),
            None => bearer_token_spec(match header { Some(h) => Some(h@), None => None }).is_none(),
        },
{
    let h = match header {
        Some(h) => h,
        None => return None,
    };
    let v = chars_of(h);
    let prefix = chars_of("Bearer ");
    proof {
        reveal_strlit("Bearer ");
    }
    if crate::text::occurs_at_exec(&v, &prefix, 0) {
        let rest = slice_chars(&v, prefix.len(), v.len());
        Some(string_of(&rest))
    } else {
        None
    }
}

/// Whether verified claims belong to an allowlisted admin: the email must
/// be verified and equal, ignoring ASCII case, to an allowlisted address.
pub open spec fn is_admin_spec(email_verified: Option<bool>, email: Option<Seq<char>>, admins: Seq<Seq<char>>) -> bool {
    email_verified == Some(true) && match email {
        Some(e) => exists|i: int| 0 <= i < admins.len() && eq_ignore_ascii_case_spec(admins[i], e),
        None => false,
    }
}

/// The decision on a REST request.
#[derive(Debug, PartialEq, Eq)]
pub enum WriteAccess {
    /// Let the request through.
    Allow,
    /// Refuse with 401.
    Unauthorized,
    /// Refuse with 403 ("not an admin").
    Forbidden,
    /// The bearer token must be verified as a Google ID token first.
    VerifyGoogleToken(String),
}

/// Reads stay public; a write needs a bearer token that is the NPC token,
/// or else a Google ID token (checked next) when Google sign-in is set up.
pub fn require_admin_for_writes(is_read_method: bool, authorization: Option<&str>, npc_token: &str, google_configured: bool) -> (r: WriteAccess)
    ensures
        is_read_method ==> r == WriteAccess::Allow,
        !is_read_method ==> match bearer_token_spec(match authorization { Some(h) => Some(h@), None => None }) {
            None => r == WriteAccess::Unauthorized,
            Some(t) => if t == npc_token@ {
                r == WriteAccess::Allow
            } else if !google_configured {
                r == WriteAccess::Unauthorized
            } else {
                r matches WriteAccess::VerifyGoogleToken(s) && s@ == t
            },
        },
{
    if is_read_method {
        return WriteAccess::Allow;
    }
    let token = match bearer_token(authorization) {
        Some(t) => t,
        None => return WriteAccess::Unauthorized,
    };
    if token_matches(token.as_str(), npc_token) {
        return WriteAccess::Allow;
    }
    if !google_configured {
        return WriteAccess::Unauthorized;
    }
    WriteAccess::VerifyGoogleToken(token)
}

/// Whether verified Google claims belong to an allowlisted admin.
pub fn is_admin(claims: &GoogleClaims, admin_emails: &Vec<String>) -> (r: bool)
    ensures
        r == is_admin_spec(
            claims.email_verified,
            opt_string_view(claims.email),
            admin_emails@.map_values(|a: String| a@),
        ),
{
    let verified = match claims.email_verified {
        Some(v) => v,
        None => false,
    };
    if !verified {
        return false;
    }
    let email = match &claims.email {
        Some(e) => e,
        None => return false,
    };
    let ghost admins = admin_emails@.map_values(|a: String| a@);
    assert(opt_string_view(claims.email) == Some(email@));
    let mut i: usize = 0;
    while i < admin_emails.len()
        invariant
            i <= admin_emails@.len(),
            admins == admin_emails@.map_values(|a: String| a@),
            opt_string_view(claims.email) == Some(email@),
            claims.email_verified == Some(true),
            forall|j: int| 0 <= j < i ==> !eq_ignore_ascii_case_spec(#[trigger] admins[j], email@),
        decreases admin_emails.len() - i,
    {
        if eq_ignore_ascii_case(admin_emails[i].as_str(), email.as_str()) {
            proof {
                assert(admins[i as int] == admin_emails@[i as int]@);
                assert(0 <= i < admins.len() && eq_ignore_ascii_case_spec(admins[i as int], email@));
            }
            return true;
        }
        proof {
            assert(admins[i as int] == admin_emails@[i as int]@);
        }
        i = i + 1;
    }
    false
}

/// The decision on a write once the Google token was checked: allowed for
/// an allowlisted admin, forbidden for any other valid token, unauthorized
/// when verification failed.
pub fn google_write_access(verified: Option<&GoogleClaims>, admin_emails: &Vec<String>) -> (r: WriteAccess)
    ensures
        verified.is_none() ==> r == WriteAccess::Unauthorized,
        verified.is_some() ==> {
            let c = verified.unwrap();
            if is_admin_spec(c.email_verified, opt_string_view(c.email),
                admin_emails@.map_values(|a: String| a@)) {
                r == WriteAccess::Allow
            } else {
                r == WriteAccess::Forbidden
            }
        },
{
    match verified {
        None => WriteAccess::Unauthorized,
        Some(c) => if is_admin(c, admin_emails) { WriteAccess::Allow } else { WriteAccess::Forbidden },
    }
}

} // verus!
