//! Authentication: registration checks, password hashing and verification,
//! access-token claims, opaque refresh tokens stored only as their SHA-256
//! hash, and the refresh rotation policy over the one session row per user.

use vstd::prelude::*;
use vstd::string::StringSliceAdditionalSpecFns;

use crate::error::ApiError;
use crate::ids::id_to_text;
use crate::ids::{hex_digit, uuid_text};

verus! {

/// Shortest password accepted at registration, in bytes.
pub const MIN_PASSWORD_LEN: usize = 6;

/// Number of random bytes in a refresh token, and in a password salt.
pub const RANDOM_BYTES: usize = 32;

/// Tokens handed to a client on login or refresh.
#[derive(Debug, Clone)]
pub struct Tokens {
    pub access_token: String,
    pub access_expires_in: i64,
    pub refresh_token: String,
    pub refresh_expires_in: i64,
}

/// The claims an access token carries.
#[derive(Debug, Clone)]
pub struct Claims {
    /// The username.
    pub sub: String,
    /// The user's identifier, as UUID text.
    pub uid: String,
    /// Expiry, in Unix seconds.
    pub exp: usize,
    /// Issue time, in Unix seconds.
    pub iat: usize,
}

/// Lifetimes of the tokens and the rotation threshold, in seconds.
#[derive(Debug, Clone, Copy, PartialEq, Eq, Structural)]
pub struct TokenPolicy {
    pub access_ttl_secs: i64,
    pub refresh_ttl_secs: i64,
    pub rotate_threshold_secs: i64,
}

/// The Unicode White_Space characters, which `char::is_whitespace` accepts.
pub open spec fn is_white_space(c: char) -> bool {
    let n = c as u32;
    (0x9 <= n <= 0xd) || n == 0x20 || n == 0x85 || n == 0xa0 || n == 0x1680 || (0x2000 <= n
        <= 0x200a) || n == 0x2028 || n == 0x2029 || n == 0x202f || n == 0x205f || n == 0x3000
}

/// `s` without its leading white space.
pub open spec fn trim_start(s: Seq<char>) -> Seq<char>
    decreases s.len(),
{
    if s.len() > 0 && is_white_space(s[0]) {
        trim_start(s.drop_first())
    } else {
        s
    }
}

/// `s` without its trailing white space.
pub open spec fn trim_end(s: Seq<char>) -> Seq<char>
    decreases s.len(),
{
    if s.len() > 0 && is_white_space(s.last()) {
        trim_end(s.drop_last())
    } else {
        s
    }
}

/// `s` without white space at either end.
pub open spec fn trimmed_text(s: Seq<char>) -> Seq<char> {
    trim_end(trim_start(s))
}

/// Relies on str::trim: leading and trailing characters with the Unicode
/// White_Space property removed.
#[verifier::external_body]
pub(crate) fn trim_text(s: &str) -> (r: &str)
    ensures
        r@ == trimmed_text(s@),
{
    s.trim()
}

/// Relies on std's SystemTime::now read through chrono's From<SystemTime>
/// for DateTime<Utc>, which takes times before the epoch as negative: the
/// current Unix time in seconds. Nothing is known of its value.
#[verifier::external_body]
fn clock_secs() -> (r: i64) {
    chrono::DateTime::<chrono::Utc>::from(std::time::SystemTime::now()).timestamp()
}

/// The current Unix time in seconds, zero before the epoch.
pub fn now_ts() -> (r: usize) {
    let s = clock_secs();
    if s < 0 {
        0
    } else {
        s as usize
    }
}

/// Checks a registration request: the username, once trimmed, must not be
/// empty, and the password must have at least six bytes.
pub fn validate_registration(username: &str, password: &str) -> (r: Result<(), ApiError>)
    ensures
        r.is_err() == (trimmed_text(username@).len() == 0 || password.spec_bytes().len()
            < MIN_PASSWORD_LEN),
        r.is_err() ==> r == Err::<(), ApiError>(ApiError::BadRequest),
{
    let name = trim_text(username);
    if name.is_empty() || password.as_bytes().len() < MIN_PASSWORD_LEN {
        Err(ApiError::BadRequest)
    } else {
        Ok(())
    }
}

/// The error for a failed insert of a user row: a uniqueness violation
/// (SQLSTATE 23505) means the username is taken; anything else is internal.
pub fn insert_user_error(sqlstate: Option<&str>) -> (r: ApiError)
    ensures
        r == (if sqlstate.is_some() && sqlstate.unwrap()@ == "23505"@ {
            ApiError::UsernameTaken
        } else {
            ApiError::Internal
        }),
{
    match sqlstate {
        Some(code) => {
            if code.to_owned() == "23505".to_owned() {
                ApiError::UsernameTaken
            } else {
                ApiError::Internal
            }
        },
        None => ApiError::Internal,
    }
}

/// What Argon2 verification of `password` against the PHC string `phc` says:
/// `None` when `phc` does not parse as a password hash.
pub uninterp spec fn argon2_verdict(password: Seq<char>, phc: Seq<char>) -> Option<bool>;

/// Relies on password_hash's SaltString::encode_b64, which writes the salt
/// bytes in B64, and argon2's PasswordHasher::hash_password: a PHC string
/// that verifies `password`.
#[verifier::external_body]
fn argon2_hash(password: &str, salt: &[u8]) -> (r: Option<String>)
    ensures
        r.is_some() ==> argon2_verdict(password@, r.unwrap()@) == Some(true),
{
    let salt = argon2::password_hash::SaltString::encode_b64(salt).ok()?;
    let hasher = argon2::Argon2::default();
    match argon2::PasswordHasher::hash_password(&hasher, password.as_bytes(), &salt) {
        Ok(hash) => Some(hash.to_string()),
        Err(_) => None,
    }
}

/// Relies on argon2's PasswordHash::new, which parses the PHC string, and
/// PasswordVerifier::verify_password, which hashes `password` with the
/// parameters and salt found there and compares.
#[verifier::external_body]
fn argon2_verify(password: &str, phc: &str) -> (r: Option<bool>)
    ensures
        r == argon2_verdict(password@, phc@),
{
    let verifier = argon2::Argon2::default();
    match argon2::PasswordHash::new(phc) {
        Ok(parsed) => Some(
            argon2::PasswordVerifier::verify_password(&verifier, password.as_bytes(), &parsed).is_ok(),
        ),
        Err(_) => None,
    }
}

/// Hashes a password with a fresh random salt.
pub fn hash_password(password: &str) -> (r: Result<String, ApiError>)
    ensures
        r.is_ok() ==> argon2_verdict(password@, r.unwrap()@) == Some(true),
        r.is_err() ==> r == Err::<String, ApiError>(ApiError::Internal),
{
    let salt = match os_random_bytes() {
        Some(bytes) => bytes,
        None => {
            return Err(ApiError::Internal);
        },
    };
    match argon2_hash(password, salt.as_slice()) {
        Some(h) => Ok(h),
        None => Err(ApiError::Internal),
    }
}

/// Whether `password` matches the stored hash; a hash that does not parse is
/// an internal error.
pub fn verify_password(password: &str, password_hash: &str) -> (r: Result<bool, ApiError>)
    ensures
        r == (match argon2_verdict(password@, password_hash@) {
            Some(b) => Ok::<bool, ApiError>(b),
            None => Err(ApiError::Internal),
        }),
{
    match argon2_verify(password, password_hash) {
        Some(b) => Ok(b),
        None => Err(ApiError::Internal),
    }
}

/// The credential check of a login: `stored_hash` is the password hash of the
/// user row found under the username, if any.
pub fn check_login(stored_hash: Option<&str>, password: &str) -> (r: Result<(), ApiError>)
    ensures
        stored_hash.is_none() ==> r == Err::<(), ApiError>(ApiError::InvalidCredentials),
        stored_hash.is_some() ==> r == (match argon2_verdict(password@, stored_hash.unwrap()@) {
            Some(true) => Ok::<(), ApiError>(()),
            Some(false) => Err(ApiError::InvalidCredentials),
            None => Err(ApiError::Internal),
        }),
{
    match stored_hash {
        None => Err(ApiError::InvalidCredentials),
        Some(h) => match verify_password(password, h) {
            Ok(true) => Ok(()),
            Ok(false) => Err(ApiError::InvalidCredentials),
            Err(e) => Err(e),
        },
    }
}

/// The URL-safe base64 text of `b`, without padding.
pub uninterp spec fn base64url_text(b: Seq<u8>) -> Seq<char>;

/// The SHA-256 digest of `b`.
pub uninterp spec fn sha256_of(b: Seq<u8>) -> Seq<u8>;

/// Relies on rand's OsRng::try_fill_bytes: 32 bytes from the operating
/// system's generator, or nothing when it fails. Nothing is known of their
/// values.
#[verifier::external_body]
fn os_random_bytes() -> (r: Option<Vec<u8>>)
    ensures
        r.is_some() ==> r.unwrap()@.len() == RANDOM_BYTES,
{
    let mut buf = [0u8; RANDOM_BYTES];
    match rand::RngCore::try_fill_bytes(&mut rand::rngs::OsRng, &mut buf) {
        Ok(()) => Some(buf.to_vec()),
        Err(_) => None,
    }
}

/// Relies on base64's URL_SAFE_NO_PAD engine: four characters for every
/// three bytes, the last group cut short instead of padded.
#[verifier::external_body]
fn encode_base64url(b: &[u8]) -> (r: String)
    ensures
        r@ == base64url_text(b@),
        r@.len() == (4 * b@.len() + 2) / 3,
{
    base64::Engine::encode(&base64::engine::general_purpose::URL_SAFE_NO_PAD, b)
}

/// Relies on sha2's Sha256::digest.
#[verifier::external_body]
fn sha256_digest(b: &[u8]) -> (r: Vec<u8>)
    ensures
        r@ == sha256_of(b@),
{
    <sha2::Sha256 as sha2::Digest>::digest(b).to_vec()
}

/// Two lower-case hexadecimal digits per byte, high digit first.
pub open spec fn hex_text(b: Seq<u8>) -> Seq<char>
    decreases b.len(),
{
    if b.len() == 0 {
        Seq::empty()
    } else {
        hex_text(b.drop_last()) + seq![hex_digit(b.last() / 16), hex_digit(b.last() % 16)]
    }
}

/// Relies on hex::encode: two lower-case digits per byte, in order.
#[verifier::external_body]
fn hex_encode(b: &[u8]) -> (r: String)
    ensures
        r@ == hex_text(b@),
{
    hex::encode(b)
}

/// A fresh refresh token: 32 random bytes in URL-safe base64 without padding.
pub fn gen_refresh_token() -> (r: Result<String, ApiError>)
    ensures
        r.is_ok() ==> exists|b: Seq<u8>|
            b.len() == RANDOM_BYTES && #[trigger] base64url_text(b) == r.unwrap()@,
        r.is_ok() ==> r.unwrap()@.len() == 43,
        r.is_err() ==> r == Err::<String, ApiError>(ApiError::Internal),
{
    match os_random_bytes() {
        Some(bytes) => Ok(encode_base64url(bytes.as_slice())),
        None => Err(ApiError::Internal),
    }
}

/// What the server stores of a refresh token: the hex SHA-256 of its bytes.
pub open spec fn token_hash_of(token: &str) -> Seq<char> {
    hex_text(sha256_of(token.spec_bytes()))
}

/// The stored form of a refresh token.
pub fn hash_refresh_token(token: &str) -> (r: String)
    ensures
        r@ == token_hash_of(token),
{
    let digest = sha256_digest(token.as_bytes());
    hex_encode(digest.as_slice())
}

/// The claims of an access token issued at `now` for `ttl` seconds.
pub fn access_claims(username: &str, uid: u128, now: usize, ttl: i64) -> (r: Claims)
    requires
        0 <= ttl,
        now + ttl <= usize::MAX,
    ensures
        r.sub@ == username@,
        r.uid@ == uuid_text(uid),
        r.iat == now,
        r.exp == now + ttl,
{
    Claims { sub: username.to_owned(), uid: id_to_text(uid), exp: now + ttl as usize, iat: now }
}

/// The HS256-signed token, under `secret`, of the claims `sub`, `uid`, `exp`
/// and `iat`.
pub uninterp spec fn hs256_token(sub: Seq<char>, uid: Seq<char>, exp: usize, iat: usize, secret: Seq<char>) -> Seq<char>;

/// Relies on jsonwebtoken::encode with an HS256 header and an HMAC key made
/// from the bytes of `secret`: the key and the algorithm are of one family,
/// and a map of JSON values always serializes, so it succeeds.
#[verifier::external_body]
fn sign_hs256(claims: &Claims, secret: &str) -> (r: Option<String>)
    ensures
        r.is_some(),
        r.is_some() ==> r.unwrap()@ == hs256_token(claims.sub@, claims.uid@, claims.exp, claims.iat, secret@),
{
    let body = std::collections::BTreeMap::from([
        ("sub", serde_json::Value::from(claims.sub.as_str())),
        ("uid", serde_json::Value::from(claims.uid.as_str())),
        ("exp", serde_json::Value::from(claims.exp)),
        ("iat", serde_json::Value::from(claims.iat)),
    ]);
    let header = jsonwebtoken::Header::new(jsonwebtoken::Algorithm::HS256);
    let key = jsonwebtoken::EncodingKey::from_secret(secret.as_bytes());
    jsonwebtoken::encode(&header, &body, &key).ok()
}

/// A signed access token for the user, issued now and valid for `ttl`
/// seconds.
pub fn mint_access_token(secret: &str, ttl: i64, username: &str, uid: u128) -> (r: Result<String, ApiError>)
    ensures
        r.is_ok() ==> 0 <= ttl && exists|now: usize|
            now + ttl <= usize::MAX && #[trigger] hs256_token(
                username@,
                uuid_text(uid),
                (now + ttl) as usize,
                now,
                secret@,
            ) == r.unwrap()@,
        r.is_err() ==> r == Err::<String, ApiError>(ApiError::Internal),
{
    let now = now_ts();
    if ttl < 0 || (now as u128) + (ttl as u128) > usize::MAX as u128 {
        return Err(ApiError::Internal);
    }
    let claims = access_claims(username, uid, now, ttl);
    match sign_hs256(&claims, secret) {
        Some(token) => {
            proof {
                assert(claims.exp == (now + ttl) as usize);
                assert(hs256_token(username@, uuid_text(uid), (now + ttl) as usize, now, secret@)
                    == token@);
            }
            Ok(token)
        },
        None => Err(ApiError::Internal),
    }
}

/// The error for an access token that failed validation: expiry is told
/// apart from every other failure.
pub fn token_error(expired: bool) -> (r: ApiError)
    ensures
        r == (if expired {
            ApiError::TokenExpired
        } else {
            ApiError::Unauthorized
        }),
{
    if expired {
        ApiError::TokenExpired
    } else {
        ApiError::Unauthorized
    }
}


/// What the refresh decision reads of a session row.
#[derive(Debug, Clone, Copy, PartialEq, Eq, Structural)]
pub struct SessionStatus {
    /// Expiry, in Unix seconds.
    pub expires_at: i64,
    /// The session was revoked by a logout.
    pub revoked: bool,
}

/// What a refresh does with the refresh token.
#[derive(Debug, Clone, Copy, PartialEq, Eq, Structural)]
pub enum RefreshPlan {
    /// Hand the same refresh token back, `refresh_expires_in` seconds from expiry.
    Keep { refresh_expires_in: i64 },
    /// Store a new refresh token in the user's session row.
    Rotate,
}

/// The rotation threshold clamped to `[0, ttl]`.
pub open spec fn clamped_threshold(threshold: int, ttl: int) -> int {
    if threshold < 0 {
        0
    } else if threshold > ttl {
        ttl
    } else {
        threshold
    }
}

/// The rotation threshold of the policy, clamped to `[0, refresh ttl]`.
pub fn rotate_threshold(policy: &TokenPolicy) -> (r: i64)
    requires
        0 <= policy.refresh_ttl_secs,
    ensures
        r == clamped_threshold(policy.rotate_threshold_secs as int, policy.refresh_ttl_secs as int),
{
    if policy.rotate_threshold_secs < 0 {
        0
    } else if policy.rotate_threshold_secs > policy.refresh_ttl_secs {
        policy.refresh_ttl_secs
    } else {
        policy.rotate_threshold_secs
    }
}

/// The outcome of refreshing with a token whose session row reads `status`
/// (none when no row holds the token's hash) at Unix time `now`.
pub open spec fn refresh_outcome(status: Option<SessionStatus>, now: int, policy: TokenPolicy) -> Result<RefreshPlan, ApiError> {
    match status {
        None => Err(ApiError::Unauthorized),
        Some(s) => if s.revoked {
            Err(ApiError::Unauthorized)
        } else if s.expires_at < now {
            Err(ApiError::TokenExpired)
        } else if s.expires_at - now <= clamped_threshold(
            policy.rotate_threshold_secs as int,
            policy.refresh_ttl_secs as int,
        ) {
            Ok(RefreshPlan::Rotate)
        } else {
            Ok(RefreshPlan::Keep { refresh_expires_in: (s.expires_at - now) as i64 })
        },
    }
}

/// Decides a refresh: a missing or revoked session is unauthorized, an
/// expired one has expired; otherwise the token is rotated when its remaining
/// lifetime is at most the clamped threshold, and kept when it is more.
pub fn plan_refresh(status: Option<SessionStatus>, now: i64, policy: &TokenPolicy) -> (r: Result<RefreshPlan, ApiError>)
    requires
        0 <= now,
        0 <= policy.refresh_ttl_secs,
    ensures
        r == refresh_outcome(status, now as int, *policy),
{
    match status {
        None => Err(ApiError::Unauthorized),
        Some(s) => {
            if s.revoked {
                return Err(ApiError::Unauthorized);
            }
            if s.expires_at < now {
                return Err(ApiError::TokenExpired);
            }
            let remaining = s.expires_at - now;
            if remaining <= rotate_threshold(policy) {
                Ok(RefreshPlan::Rotate)
            } else {
                Ok(RefreshPlan::Keep { refresh_expires_in: remaining })
            }
        },
    }
}

/// The tokens of a login: a new access token and a new refresh token, each
/// with its full lifetime.
pub fn login_tokens(access_token: String, refresh_token: String, policy: &TokenPolicy) -> (r: Tokens)
    ensures
        r.access_token == access_token,
        r.access_expires_in == policy.access_ttl_secs,
        r.refresh_token == refresh_token,
        r.refresh_expires_in == policy.refresh_ttl_secs,
{
    Tokens {
        access_token,
        access_expires_in: policy.access_ttl_secs,
        refresh_token,
        refresh_expires_in: policy.refresh_ttl_secs,
    }
}

/// The tokens a refresh answers with: the presented refresh token and its
/// remaining lifetime when kept, the fresh one with the full lifetime when
/// rotated.
pub fn refreshed_tokens(
    plan: RefreshPlan,
    access_token: String,
    presented: String,
    fresh: String,
    policy: &TokenPolicy,
) -> (r: Tokens)
    ensures
        r.access_token == access_token,
        r.access_expires_in == policy.access_ttl_secs,
        r.refresh_token == (match plan {
            RefreshPlan::Keep { .. } => presented,
            RefreshPlan::Rotate => fresh,
        }),
        r.refresh_expires_in == (match plan {
            RefreshPlan::Keep { refresh_expires_in } => refresh_expires_in,
            RefreshPlan::Rotate => policy.refresh_ttl_secs,
        }),
{
    match plan {
        RefreshPlan::Keep { refresh_expires_in } => Tokens {
            access_token,
            access_expires_in: policy.access_ttl_secs,
            refresh_token: presented,
            refresh_expires_in,
        },
        RefreshPlan::Rotate => Tokens {
            access_token,
            access_expires_in: policy.access_ttl_secs,
            refresh_token: fresh,
            refresh_expires_in: policy.refresh_ttl_secs,
        },
    }
}

/// The refresh-session table: for each user identifier, the stored token hash
/// and the status of the one session row of that user.
pub type SessionTable = Map<u128, (Seq<char>, SessionStatus)>;

/// Some row holds the token hash `h`.
pub open spec fn holds_hash(t: SessionTable, h: Seq<char>) -> bool {
    exists|u: u128| t.contains_key(u) && (#[trigger] t[u]).0 == h
}

/// The status of the row found by token hash, as a lookup by hash reads it.
pub open spec fn lookup_hash(t: SessionTable, h: Seq<char>) -> Option<SessionStatus> {
    if holds_hash(t, h) {
        let u = choose|u: u128| t.contains_key(u) && (#[trigger] t[u]).0 == h;
        Some(t[u].1)
    } else {
        None
    }
}

/// A login, or a rotation, writes the user's row in place: new hash, new
/// expiry, revocation cleared.
pub open spec fn upsert_session(t: SessionTable, user: u128, h: Seq<char>, expires_at: i64) -> SessionTable {
    t.insert(user, (h, SessionStatus { expires_at, revoked: false }))
}

/// A logout marks every row holding the hash revoked.
pub open spec fn revoke_hash(t: SessionTable, h: Seq<char>) -> SessionTable {
    Map::new(
        |u: u128| t.contains_key(u),
        |u: u128|
            if t[u].0 == h {
                (t[u].0, SessionStatus { expires_at: t[u].1.expires_at, revoked: true })
            } else {
                t[u]
            },
    )
}

/// After a login the user has exactly one session row, the new one, whatever
/// row the user had before; other users' rows are untouched.
pub proof fn lemma_login_single_session(t: SessionTable, user: u128, h: Seq<char>, expires_at: i64)
    ensures
        upsert_session(t, user, h, expires_at).contains_key(user),
        upsert_session(t, user, h, expires_at)[user] == (h, SessionStatus { expires_at, revoked: false }),
        upsert_session(t, user, h, expires_at).dom() == t.dom().insert(user),
        forall|v: u128| v != user && t.contains_key(v) ==> #[trigger] upsert_session(t, user, h, expires_at)[v] == t[v],
{
    assert(upsert_session(t, user, h, expires_at).dom() =~= t.dom().insert(user));
}

/// Logging out twice with the same token leaves the table as logging out
/// once, and a refresh with that token is then unauthorized.
pub proof fn lemma_logout_idempotent(t: SessionTable, h: Seq<char>, now: int, policy: TokenPolicy)
    ensures
        revoke_hash(revoke_hash(t, h), h) == revoke_hash(t, h),
        refresh_outcome(lookup_hash(revoke_hash(revoke_hash(t, h), h), h), now, policy) == Err::<RefreshPlan, ApiError>(ApiError::Unauthorized),
{
    let once = revoke_hash(t, h);
    assert(revoke_hash(once, h) =~= once);
    if holds_hash(once, h) {
        let u = choose|u: u128| once.contains_key(u) && (#[trigger] once[u]).0 == h;
        assert(once[u].1.revoked);
    }
}

/// Right after a login at `now`, a refresh with the new token whose remaining
/// lifetime exceeds the clamped threshold keeps the same refresh token.
pub proof fn lemma_fresh_login_keeps_token(
    t: SessionTable,
    user: u128,
    h: Seq<char>,
    now: i64,
    later: i64,
    policy: TokenPolicy,
)
    requires
        0 <= now <= later,
        0 <= policy.refresh_ttl_secs,
        now + policy.refresh_ttl_secs <= i64::MAX,
        forall|v: u128| v != user && t.contains_key(v) ==> (#[trigger] t[v]).0 != h,
        now + policy.refresh_ttl_secs - later > clamped_threshold(
            policy.rotate_threshold_secs as int,
            policy.refresh_ttl_secs as int,
        ),
    ensures
        refresh_outcome(
            lookup_hash(upsert_session(t, user, h, (now + policy.refresh_ttl_secs) as i64), h),
            later as int,
            policy,
        ) == Ok::<RefreshPlan, ApiError>(RefreshPlan::Keep {
            refresh_expires_in: (now + policy.refresh_ttl_secs - later) as i64,
        }),
{
    let e = (now + policy.refresh_ttl_secs) as i64;
    let t2 = upsert_session(t, user, h, e);
    assert(t2.contains_key(user) && t2[user].0 == h);
    assert(holds_hash(t2, h));
    let u = choose|u: u128| t2.contains_key(u) && (#[trigger] t2[u]).0 == h;
    assert(u == user);
}

/// Once the user's row is rotated to a different hash, the old refresh token
/// no longer finds a session and a refresh with it is unauthorized.
pub proof fn lemma_rotated_token_rejected(
    t: SessionTable,
    user: u128,
    old_hash: Seq<char>,
    new_hash: Seq<char>,
    expires_at: i64,
    now: int,
    policy: TokenPolicy,
)
    requires
        old_hash != new_hash,
        forall|v: u128| v != user && t.contains_key(v) ==> (#[trigger] t[v]).0 != old_hash,
    ensures
        lookup_hash(upsert_session(t, user, new_hash, expires_at), old_hash).is_none(),
        refresh_outcome(
            lookup_hash(upsert_session(t, user, new_hash, expires_at), old_hash),
            now,
            policy,
        ) == Err::<RefreshPlan, ApiError>(ApiError::Unauthorized),
{
    let t2 = upsert_session(t, user, new_hash, expires_at);
    if holds_hash(t2, old_hash) {
        let u = choose|u: u128| t2.contains_key(u) && (#[trigger] t2[u]).0 == old_hash;
        if u != user {
            assert(t[u].0 != old_hash);
        }
    }
}

} // verus!
