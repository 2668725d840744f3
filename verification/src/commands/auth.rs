//! Local-profile auth: there is no account server, just a username and an
//! Argon2 PHC string. Validation, the hashing and verification calls, and
//! what the router is told on boot.

use argon2::password_hash::rand_core::OsRng;
use argon2::password_hash::{PasswordHash, PasswordHasher, PasswordVerifier, SaltString};
use vstd::prelude::*;
use vstd::string::StringSliceAdditionalSpecFns;

use crate::error::AppError;
use crate::state::{LoginThrottle, LOCKOUT_MS};
use crate::store::Config;
use crate::text::{concat, eq_ignore_ascii_case, eq_ignore_case, owned, starts_with, trim, trimmed};

verus! {

/// Shortest accepted secret: low on purpose (a PIN is allowed on a LAN tool
/// on a machine the user already controls).
pub const MIN_SECRET_LEN: usize = 4;

/// A valid Argon2 hash of a value nobody can type, verified against on an
/// unknown-username login so both failures cost the same.
pub const DUMMY_HASH: &'static str = "$argon2id$v=19$m=19456,t=2,p=1$c29tZXNhbHRzb21lc2FsdA$dGhpc2lzbm90YXJlYWxoYXNodmFsdWVvaw";

/// What the frontend router needs on boot.
#[derive(Debug, Clone)]
pub struct AuthStateDto {
    /// A profile exists; otherwise the setup wizard runs.
    pub configured: bool,
    /// The login screen must be shown before the app is usable.
    pub requires_login: bool,
    /// False once the password was removed: configured, but no prompt.
    pub has_password: bool,
    pub username: Option<String>,
    /// Mirrors the "remember me" choice.
    pub remember_me: bool,
}

/// A username must not be blank, and the secret must be long enough.
pub fn validate(username: &str, secret: &str) -> (r: Result<(), AppError>)
    ensures
        trim(username@).len() == 0 ==> (r matches Err(AppError::InvalidInput(m)) && m@
            == "Please choose a username."@),
        trim(username@).len() > 0 && secret@.len() < 4 ==> (r matches Err(
            AppError::InvalidInput(m),
        ) && m@ == "Password or PIN must be at least 4 characters."@),
        trim(username@).len() > 0 && secret@.len() >= 4 ==> r is Ok,
{
    let t = trimmed(username);
    if t.as_str().unicode_len() == 0 {
        return Err(AppError::InvalidInput(owned("Please choose a username.")));
    }
    validate_secret(secret)
}

/// A secret of at least `MIN_SECRET_LEN` characters (not bytes).
pub fn validate_secret(secret: &str) -> (r: Result<(), AppError>)
    ensures
        secret@.len() < 4 ==> (r matches Err(AppError::InvalidInput(m)) && m@
            == "Password or PIN must be at least 4 characters."@),
        secret@.len() >= 4 ==> r is Ok,
{
    if secret.unicode_len() < MIN_SECRET_LEN {
        return Err(AppError::InvalidInput(owned("Password or PIN must be at least 4 characters.")));
    }
    Ok(())
}

/// Argon2 (default parameters: Argon2id, v19, m=19456, t=2, p=1) over a fresh
/// salt from the OS generator (`SaltString::generate(&mut OsRng)`, then
/// `PasswordHasher::hash_password`), as PHC text, or the library's error text.
/// The salt is random, so of the text only its PHC prefix is stated, and that
/// it verifies against the secret it was made from (`verify_password` reads
/// the algorithm, salt and parameters back out of the PHC text). With the
/// 16-byte generated salt and the default output length, the only input
/// Argon2 refuses is a password longer than `0xFFFF_FFFF` bytes
/// (`verify_inputs`), so below that the hash succeeds.
#[verifier::external_body]
fn argon2_hash_fresh_salt(secret: &str) -> (r: Result<String, String>)
    ensures
        r matches Ok(s) ==> starts_with(s@, "$argon2id$"@) && argon2_verifies(s@, secret@),
        secret.spec_bytes().len() <= 0xFFFF_FFFF ==> r is Ok,
{
    let salt = SaltString::generate(&mut OsRng);
    argon2::Argon2::default().hash_password(secret.as_bytes(), &salt).map(|h| h.to_string()).map_err(
        |e| e.to_string(),
    )
}

/// Whether `secret` verifies against the PHC text `hash`.
pub uninterp spec fn argon2_verifies(hash: Seq<char>, secret: Seq<char>) -> bool;

/// `PasswordHash::new(hash)` then `PasswordVerifier::verify_password` with
/// Argon2's defaults: true exactly when the text parses and the secret
/// matches. The verdict is a function of the two texts, so it is named.
#[verifier::external_body]
fn argon2_verify(hash: &str, secret: &str) -> (r: bool)
    ensures
        r == argon2_verifies(hash@, secret@),
{
    match PasswordHash::new(hash) {
        Ok(parsed) => argon2::Argon2::default().verify_password(secret.as_bytes(), &parsed).is_ok(),
        Err(_) => false,
    }
}

/// Hash a secret into a PHC string that verifies against it (CPU-bound: the
/// application runs it off the async runtime).
pub fn hash_secret(secret: &str) -> (r: Result<String, AppError>)
    ensures
        r matches Ok(s) ==> starts_with(s@, "$argon2id$"@) && argon2_verifies(s@, secret@),
        r matches Err(e) ==> e is Internal,
        secret.spec_bytes().len() <= 0xFFFF_FFFF ==> r is Ok,
{
    match argon2_hash_fresh_salt(secret) {
        Ok(h) => Ok(h),
        Err(e) => Err(AppError::Internal(concat("password hash failed: ", e.as_str()))),
    }
}

/// Verify a secret against a PHC string. A malformed stored hash verifies as
/// false rather than erroring: a corrupted config must not lock the app into
/// an unrecoverable state.
pub fn verify_secret(hash: &str, secret: &str) -> (r: bool)
    ensures
        r == argon2_verifies(hash@, secret@),
{
    argon2_verify(hash, secret)
}

/// The stored username matches the typed one (trimmed, ASCII case ignored).
pub fn username_matches(stored: &str, typed: &str) -> (r: bool)
    ensures
        r == eq_ignore_case(stored@, trim(typed@)),
{
    let t = trimmed(typed);
    eq_ignore_ascii_case(stored, t.as_str())
}

/// The boot answer for a configuration and session: whether the session is
/// opened now (a standing "remember me" grant, or a profile with no password
/// to check), and what the router is told.
pub fn auth_state_of(config: &Config, logged_in: bool) -> (r: (bool, AuthStateDto))
    ensures
        r.0 == (config.auth is Some && (config.remember_me || !(config.auth matches Some(a)
            && a.password_hash is Some))),
        r.1.configured == config.auth is Some,
        r.1.has_password == (config.auth matches Some(a) && a.password_hash is Some),
        r.1.requires_login == (r.1.has_password && !(logged_in || r.0)),
        r.1.remember_me == config.remember_me,
        match config.auth {
            Some(a) => r.1.username matches Some(u) && u@ == a.username@,
            None => r.1.username is None,
        },
{
    let configured = config.auth.is_some();
    let has_password = match &config.auth {
        Some(a) => a.password_hash.is_some(),
        None => false,
    };
    let opens = configured && (config.remember_me || !has_password);
    let username = match &config.auth {
        Some(a) => Some(a.username.clone()),
        None => None,
    };
    (
        opens,
        AuthStateDto {
            configured,
            requires_login: has_password && !(logged_in || opens),
            has_password,
            username,
            remember_me: config.remember_me,
        },
    )
}

/// The refusal while the login throttle is engaged: the remaining cool-down,
/// in whole seconds rounded up past the current one.
pub fn locked_out(remaining_ms: u64) -> (r: AppError)
    ensures
        r == (AppError::LockedOut { secs: (remaining_ms / 1000 + 1) as u64 }),
{
    AppError::LockedOut { secs: remaining_ms / 1000 + 1 }
}

/// The first half of a login: refused while the throttle is engaged or with
/// no profile; opened straight away when the profile has no password; else
/// the PHC text to verify the typed secret against.
#[derive(Debug)]
pub enum LoginStep {
    Refused(AppError),
    Open,
    /// Verify against `hash`. On a wrong username this is the dummy hash, so
    /// both failures cost one Argon2 verification.
    Verify { hash: String, username_ok: bool },
}

/// Decide the first half of a login at `now` (ms).
pub fn login_step(throttle: &LoginThrottle, config: &Config, username: &str, now: u64) -> (r: LoginStep)
    ensures
        match throttle.spec_remaining(now) {
            Some(ms) => r == LoginStep::Refused(AppError::LockedOut { secs: (ms / 1000 + 1) as u64 }),
            None => match config.auth {
                None => r matches LoginStep::Refused(AppError::Auth(m)) && m@ == "No profile is configured."@,
                Some(a) => match a.password_hash {
                    None => r is Open,
                    Some(h) => r matches LoginStep::Verify { hash, username_ok } && username_ok
                        == eq_ignore_case(a.username@, trim(username@)) && hash@ == (if username_ok {
                        h@
                    } else {
                        DUMMY_HASH@
                    }),
                },
            },
        },
{
    if let Some(ms) = throttle.remaining(now) {
        return LoginStep::Refused(locked_out(ms));
    }
    match &config.auth {
        None => LoginStep::Refused(AppError::Auth(owned("No profile is configured."))),
        Some(a) => match &a.password_hash {
            None => LoginStep::Open,
            Some(h) => {
                let username_ok = username_matches(a.username.as_str(), username);
                let hash = if username_ok {
                    h.clone()
                } else {
                    owned(DUMMY_HASH)
                };
                LoginStep::Verify { hash, username_ok }
            },
        },
    }
}

/// The second half: the login succeeds when the secret verified and the
/// username matched. Success clears the throttle's streak; a failure at `now`
/// counts towards the lockout.
pub fn login_finish(throttle: &mut LoginThrottle, verified: bool, username_ok: bool, now: u64) -> (ok: bool)
    requires
        old(throttle).failures < u32::MAX,
        now <= u64::MAX - LOCKOUT_MS,
    ensures
        ok == (verified && username_ok),
        ok ==> final(throttle).failures == 0 && final(throttle).locked_until is None,
        !ok ==> *final(throttle) == old(throttle).spec_record_failure(now),
{
    let ok = verified && username_ok;
    if ok {
        throttle.reset();
    } else {
        throttle.record_failure(now);
    }
    ok
}

} // verus!
