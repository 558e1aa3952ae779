use vstd::prelude::*;
use crate::error::TokenError;
use crate::model::{JwtClaims, Timestamp};
use jsonwebtoken::{crypto, Algorithm, DecodingKey, EncodingKey};

verus! {

/// How long a session token stays valid, in seconds.
pub const TOKEN_LIFETIME_SECS: i64 = 86400;

/// Microseconds in one second.
pub const MICROS_PER_SEC: i64 = 1000000;

/// Relies on `chrono::Utc::now().timestamp_micros()`: the clock, so nothing is promised
/// of the value.
#[verifier::external_body]
fn now_micros() -> (r: Timestamp) {
    chrono::Utc::now().timestamp_micros()
}

/// The claims of a token issued at `now` (seconds), expiring one lifetime later.
pub open spec fn spec_claims_at(user_id: i32, email: Seq<char>, role: Seq<char>, now: int) -> (
    i32,
    Seq<char>,
    Seq<char>,
    int,
) {
    (user_id, email, role, now + TOKEN_LIFETIME_SECS)
}

/// Builds the claims for a token issued at `now` seconds; `None` where the expiry
/// would not fit in an `i64`.
pub fn claims_at(user_id: i32, email: String, role: String, now: i64) -> (r: Option<JwtClaims>)
    ensures
        now + TOKEN_LIFETIME_SECS <= i64::MAX <==> r is Some,
        r matches Some(c) ==> (c.sub, c.email@, c.role@, c.exp as int) == spec_claims_at(
            user_id,
            email@,
            role@,
            now as int,
        ),
{
    if now > i64::MAX - TOKEN_LIFETIME_SECS {
        None
    } else {
        Some(JwtClaims { sub: user_id, email, role, exp: now + TOKEN_LIFETIME_SECS })
    }
}

/// Whole seconds of a microsecond clock reading, rounded down.
pub fn seconds_of(t: Timestamp) -> (r: i64)
    ensures
        r as int == (t as int) / (MICROS_PER_SEC as int),
{
    if t >= 0 {
        t / MICROS_PER_SEC
    } else {
        let m = 0 - (t + 1);
        let q = m / MICROS_PER_SEC;
        proof {
            let d = MICROS_PER_SEC as int;
            let rem = (m as int) % d;
            vstd::arithmetic::div_mod::lemma_fundamental_div_mod(m as int, d);
            assert(0 <= rem < d);
            assert(t as int == (-(q as int) - 1) * d + (d - 1 - rem)) by (nonlinear_arith)
                requires
                    m as int == d * (q as int) + rem,
                    m as int == -(t as int) - 1,
            ;
            vstd::arithmetic::div_mod::lemma_fundamental_div_mod_converse(
                t as int,
                d,
                -(q as int) - 1,
                d - 1 - rem,
            );
            assert(0 <= q) by (nonlinear_arith)
                requires
                    0 <= m,
                    q == m / 1000000,
            ;
        }
        0 - q - 1
    }
}

/// Builds the claims for a token issued at clock reading `t`, in microseconds: it
/// expires one lifetime after the whole second of `t`.
pub fn claims_at_micros(user_id: i32, email: String, role: String, t: Timestamp) -> (r: JwtClaims)
    ensures
        (r.sub, r.email@, r.role@, r.exp as int) == spec_claims_at(
            user_id,
            email@,
            role@,
            (t as int) / (MICROS_PER_SEC as int),
        ),
{
    let now = seconds_of(t);
    assert(now <= 10000000000000) by (nonlinear_arith)
        requires
            now as int == (t as int) / 1000000,
            t <= i64::MAX,
    ;
    match claims_at(user_id, email, role, now) {
        Some(c) => c,
        None => JwtClaims { sub: 0, email: String::new(), role: String::new(), exp: 0 },
    }
}

/// Builds the claims for a token issued now, by the system clock.
pub fn issue_claims(user_id: i32, email: String, role: String) -> (r: JwtClaims)
    ensures
        r.sub == user_id,
        r.email@ == email@,
        r.role@ == role@,
{
    claims_at_micros(user_id, email, role, now_micros())
}

/// What validating decoded claims at `now` seconds yields.
pub open spec fn spec_check(decoded: Option<JwtClaims>, now: int) -> Result<JwtClaims, TokenError> {
    match decoded {
        None => Err(TokenError::Invalid),
        Some(c) => if (c.exp as int) <= now {
            Err(TokenError::Expired)
        } else {
            Ok(c)
        },
    }
}

/// Validates claims whose signature was checked by the decoder (`None` where the token
/// was malformed or its signature wrong) against the time `now`, in seconds.
pub fn check_claims(decoded: Option<JwtClaims>, now: i64) -> (r: Result<JwtClaims, TokenError>)
    ensures
        r == spec_check(decoded, now as int),
{
    match decoded {
        None => Err(TokenError::Invalid),
        Some(c) => if c.exp <= now {
            Err(TokenError::Expired)
        } else {
            Ok(c)
        },
    }
}

/// Claims built at `issued` and checked at any `now` within the lifetime come back
/// unchanged; checked from the expiry second on, they are refused as expired.
pub proof fn lemma_issue_then_check(
    user_id: i32,
    email: String,
    role: String,
    issued: i64,
    c: JwtClaims,
    now: i64,
)
    requires
        (c.sub, c.email@, c.role@, c.exp as int) == spec_claims_at(
            user_id,
            email@,
            role@,
            issued as int,
        ),
    ensures
        now < issued + TOKEN_LIFETIME_SECS ==> spec_check(Some(c), now as int) == Ok::<
            JwtClaims,
            TokenError,
        >(c) && c.sub == user_id && c.email@ == email@ && c.role@ == role@,
        now >= issued + TOKEN_LIFETIME_SECS ==> spec_check(Some(c), now as int) == Err::<
            JwtClaims,
            TokenError,
        >(TokenError::Expired),
{
}

/// The byte `.` that separates the parts of a token.
pub const DOT: u8 = 46;

/// The HMAC-SHA256 of `message` under `secret`, as unpadded URL-safe base64 text.
pub uninterp spec fn hs256_signature(message: Seq<u8>, secret: Seq<u8>) -> Seq<u8>;

/// Relies on `jsonwebtoken::crypto::sign` with `Algorithm::HS256`: for HMAC it always
/// succeeds and returns the digest encoded with the URL-safe, unpadded base64 alphabet,
/// which has no `.`.
#[verifier::external_body]
fn hs256_sign(message: &[u8], secret: &[u8]) -> (r: Vec<u8>)
    ensures
        r@ == hs256_signature(message@, secret@),
        forall|i: int| 0 <= i < r@.len() ==> r@[i] != DOT,
{
    match crypto::sign(message, &EncodingKey::from_secret(secret), Algorithm::HS256) {
        Ok(sig) => sig.into_bytes(),
        Err(_) => Vec::new(),
    }
}

/// Relies on `jsonwebtoken::crypto::verify` with `Algorithm::HS256`: for HMAC it re-signs
/// the message and compares in constant time with the given signature text; a signature
/// that is not text cannot equal the base64 text of a signature.
#[verifier::external_body]
fn hs256_verify(signature: &[u8], message: &[u8], secret: &[u8]) -> (r: bool)
    ensures
        r == (signature@ == hs256_signature(message@, secret@)),
{
    match std::str::from_utf8(signature) {
        Ok(sig) => crypto::verify(sig, message, &DecodingKey::from_secret(secret), Algorithm::HS256)
            .unwrap_or(false),
        Err(_) => false,
    }
}

/// The position of the last `.` in `t`, or -1.
pub open spec fn last_dot(t: Seq<u8>) -> int
    decreases t.len(),
{
    if t.len() == 0 {
        -1
    } else if t.last() == DOT {
        t.len() - 1
    } else {
        last_dot(t.drop_last())
    }
}

/// The signed part of a token (all before its last `.`), where what follows that `.` is
/// the signature of that part under `secret`; `None` otherwise.
pub open spec fn signed_input(t: Seq<u8>, secret: Seq<u8>) -> Option<Seq<u8>> {
    let d = last_dot(t);
    if d >= 0 && t.subrange(d + 1, t.len() as int) == hs256_signature(t.subrange(0, d), secret) {
        Some(t.subrange(0, d))
    } else {
        None
    }
}

/// The token that signs `m`: `m`, a `.`, and the signature.
pub open spec fn signed_token(m: Seq<u8>, secret: Seq<u8>) -> Seq<u8> {
    m.push(DOT) + hs256_signature(m, secret)
}

proof fn lemma_last_dot(t: Seq<u8>, k: int)
    requires
        0 <= k <= t.len(),
        forall|j: int| k <= j < t.len() ==> t[j] != DOT,
        k == 0 || t[k - 1] == DOT,
    ensures
        last_dot(t) == k - 1,
    decreases t.len(),
{
    if t.len() > 0 && t.len() != k {
        assert(t.last() == t[t.len() - 1]);
        let u = t.drop_last();
        assert forall|j: int| k <= j < u.len() implies u[j] != DOT by {
            assert(u[j] == t[j]);
        }
        if k > 0 {
            assert(u[k - 1] == t[k - 1]);
        }
        lemma_last_dot(u, k);
    }
}

/// A token whose signature part holds no `.` splits at the `.` before that part.
proof fn lemma_split_signed(m: Seq<u8>, sig: Seq<u8>)
    requires
        forall|i: int| 0 <= i < sig.len() ==> sig[i] != DOT,
    ensures
        last_dot(m.push(DOT) + sig) == m.len(),
        (m.push(DOT) + sig).subrange(0, m.len() as int) == m,
        (m.push(DOT) + sig).subrange((m.len() + 1) as int, (m.push(DOT) + sig).len() as int) == sig,
{
    let t = m.push(DOT) + sig;
    assert forall|j: int| m.len() + 1 <= j < t.len() implies t[j] != DOT by {
        assert(t[j] == sig[j - m.len() - 1]);
    }
    assert(t[m.len() as int] == DOT);
    lemma_last_dot(t, (m.len() + 1) as int);
    assert(t.subrange(0, m.len() as int) =~= m);
    assert(t.subrange((m.len() + 1) as int, t.len() as int) =~= sig);
}

/// A token signed with a different signature (one with no `.`) than the one that
/// `secret` gives is refused: a corrupted signature never verifies.
pub proof fn lemma_wrong_signature_rejected(m: Seq<u8>, secret: Seq<u8>, sig: Seq<u8>)
    requires
        sig != hs256_signature(m, secret),
        forall|i: int| 0 <= i < sig.len() ==> sig[i] != DOT,
    ensures
        signed_input(m.push(DOT) + sig, secret) is None,
{
    lemma_split_signed(m, sig);
}

/// Signs `signing_input`; the token that comes back verifies under the same secret and
/// yields `signing_input` again.
pub fn sign_token(signing_input: &[u8], secret: &[u8]) -> (r: Vec<u8>)
    ensures
        r@ == signed_token(signing_input@, secret@),
        signed_input(r@, secret@) == Some(signing_input@),
{
    let sig = hs256_sign(signing_input, secret);
    let mut r: Vec<u8> = Vec::new();
    let mut i: usize = 0;
    while i < signing_input.len()
        invariant
            i <= signing_input@.len(),
            r@ == signing_input@.subrange(0, i as int),
        decreases signing_input@.len() - i,
    {
        r.push(signing_input[i]);
        i = i + 1;
        assert(r@ =~= signing_input@.subrange(0, i as int));
    }
    assert(r@ =~= signing_input@);
    r.push(DOT);
    let mut j: usize = 0;
    while j < sig.len()
        invariant
            j <= sig@.len(),
            r@ == signing_input@.push(DOT) + sig@.subrange(0, j as int),
        decreases sig@.len() - j,
    {
        r.push(sig[j]);
        j = j + 1;
        assert(r@ =~= signing_input@.push(DOT) + sig@.subrange(0, j as int));
    }
    assert(sig@.subrange(0, sig@.len() as int) =~= sig@);
    proof {
        lemma_split_signed(signing_input@, sig@);
    }
    r
}

fn copy_range(s: &[u8], lo: usize, hi: usize) -> (r: Vec<u8>)
    requires
        lo <= hi <= s@.len(),
    ensures
        r@ == s@.subrange(lo as int, hi as int),
{
    let mut r: Vec<u8> = Vec::new();
    let mut i: usize = lo;
    while i < hi
        invariant
            lo <= i <= hi,
            hi <= s@.len(),
            r@ == s@.subrange(lo as int, i as int),
        decreases hi - i,
    {
        r.push(s[i]);
        i = i + 1;
        assert(r@ =~= s@.subrange(lo as int, i as int));
    }
    r
}

/// Checks the signature of a token; returns its signed part where it holds.
pub fn verify_signature(token: &[u8], secret: &[u8]) -> (r: Option<Vec<u8>>)
    ensures
        r matches Some(v) ==> signed_input(token@, secret@) == Some(v@),
        r is None ==> signed_input(token@, secret@) is None,
{
    let mut k: usize = token.len();
    while k > 0 && token[k - 1] != DOT
        invariant
            k <= token@.len(),
            forall|j: int| k <= j < token@.len() ==> token@[j] != DOT,
        decreases k,
    {
        k = k - 1;
    }
    proof {
        lemma_last_dot(token@, k as int);
    }
    if k == 0 {
        return None;
    }
    let message = copy_range(token, 0, k - 1);
    let given = copy_range(token, k, token.len());
    if hs256_verify(given.as_slice(), message.as_slice(), secret) {
        Some(message)
    } else {
        None
    }
}

/// What validating a token yields: `Invalid` where its signature does not hold or its
/// claims could not be decoded, `Expired` from the expiry time on, else the claims.
pub open spec fn spec_validate(
    token: Seq<u8>,
    secret: Seq<u8>,
    decoded: Option<JwtClaims>,
    now: int,
) -> Result<JwtClaims, TokenError> {
    if signed_input(token, secret) is None {
        Err(TokenError::Invalid)
    } else {
        spec_check(decoded, now)
    }
}

/// Validates a token: its signature under `secret`, then the claims decoded from its
/// payload (`None` where they could not be decoded) against the time `now`, in seconds.
pub fn validate_token(token: &[u8], secret: &[u8], decoded: Option<JwtClaims>, now: i64) -> (r:
    Result<JwtClaims, TokenError>)
    ensures
        r == spec_validate(token@, secret@, decoded, now as int),
{
    match verify_signature(token, secret) {
        None => Err(TokenError::Invalid),
        Some(_) => check_claims(decoded, now),
    }
}

/// A token whose signature holds under `secret`, carrying claims issued at `issued`,
/// validates at any `now` within the lifetime to those same claims (subject, email and
/// role included), and to `Expired` from its expiry second on.
pub proof fn lemma_token_round_trip(
    token: Seq<u8>,
    secret: Seq<u8>,
    user_id: i32,
    email: String,
    role: String,
    issued: i64,
    c: JwtClaims,
    now: i64,
)
    requires
        signed_input(token, secret) is Some,
        (c.sub, c.email@, c.role@, c.exp as int) == spec_claims_at(
            user_id,
            email@,
            role@,
            issued as int,
        ),
    ensures
        now < issued + TOKEN_LIFETIME_SECS ==> spec_validate(token, secret, Some(c), now as int)
            == Ok::<JwtClaims, TokenError>(c) && c.sub == user_id && c.email@ == email@ && c.role@
            == role@,
        now >= issued + TOKEN_LIFETIME_SECS ==> spec_validate(token, secret, Some(c), now as int)
            == Err::<JwtClaims, TokenError>(TokenError::Expired),
{
    lemma_issue_then_check(user_id, email, role, issued, c, now);
}

} // verus!
