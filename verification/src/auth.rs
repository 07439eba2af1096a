//! Credentials: hashing and checking secrets, signing in, and the two ways to
//! recover an account.

use crate::codec::{new_uuid, random_uuid};
use crate::text::{lowercase, opt_view, to_lowercase, trim, trimmed};
use argon2::password_hash::{PasswordHash, PasswordHasher, PasswordVerifier, SaltString};
use argon2::Argon2;
use rand_core::OsRng;
use vstd::prelude::*;

verus! {

/// The hours for which a session lasts.
pub const SESSION_LIFETIME_HOURS: i64 = 12;

/// Why a credential is refused.
#[derive(Clone, Copy, PartialEq, Eq, Structural, Debug)]
pub enum AuthError {
    /// The user name or the password is wrong; which one is not said.
    InvalidLogin,
    /// No account has that user name.
    AccountNotFound,
    /// The account has no security questions.
    NoQuestions,
    /// An answer is wrong; which one is not said.
    WrongAnswers,
    /// The business has no recovery code.
    NoAdminCode,
    WrongAdminCode,
    /// The secret could not be hashed.
    HashingFailed,
}

/// The sentence for an error.
pub open spec fn auth_message(e: AuthError) -> Seq<char> {
    match e {
        AuthError::InvalidLogin => "invalid username or password"@,
        AuthError::AccountNotFound => "account not found"@,
        AuthError::NoQuestions => "security questions not set up for this account"@,
        AuthError::WrongAnswers => "security answers did not match"@,
        AuthError::NoAdminCode => "no admin recovery code has been set up for this business"@,
        AuthError::WrongAdminCode => "invalid admin recovery code"@,
        AuthError::HashingFailed => "hashing failed"@,
    }
}

/// The sentence for an error.
pub fn auth_error_text(e: AuthError) -> (s: String)
    ensures
        s@ == auth_message(e),
{
    match e {
        AuthError::InvalidLogin => "invalid username or password".to_owned(),
        AuthError::AccountNotFound => "account not found".to_owned(),
        AuthError::NoQuestions => "security questions not set up for this account".to_owned(),
        AuthError::WrongAnswers => "security answers did not match".to_owned(),
        AuthError::NoAdminCode => "no admin recovery code has been set up for this business".to_owned(),
        AuthError::WrongAdminCode => "invalid admin recovery code".to_owned(),
        AuthError::HashingFailed => "hashing failed".to_owned(),
    }
}

// ---------------------------------------------------------------------------
// Secrets
// ---------------------------------------------------------------------------

/// Whether Argon2 finds that a hash is one of a secret.
pub uninterp spec fn secret_matches(plain: Seq<char>, hash: Seq<char>) -> bool;

/// The characters that a secret has at most for its hashing to be sure to
/// succeed: each takes up to four bytes, and a secret of up to 4 GiB is hashed.
pub const MAX_SECRET: usize = 0x3fff_ffff;

/// `PasswordHasher::hash_password` of argon2 with its default parameters and a
/// random salt. Which text comes out rests on the salt; it is one that the
/// secret matches. Only a secret of over 0xFFFFFFFF bytes is refused.
#[verifier::external_body]
pub(crate) fn argon2_hash(plain: &str) -> (r: Option<String>)
    ensures
        r matches Some(h) ==> secret_matches(plain@, h@),
        plain@.len() <= MAX_SECRET ==> r is Some,
{
    let salt = SaltString::generate(&mut OsRng);
    Argon2::default().hash_password(plain.as_bytes(), &salt).ok().map(|hash| hash.to_string())
}

/// `PasswordVerifier::verify_password` of argon2 against a stored hash; a text
/// that is no hash matches nothing.
#[verifier::external_body]
pub(crate) fn argon2_verify(plain: &str, hash: &str) -> (b: bool)
    ensures
        b == secret_matches(plain@, hash@),
{
    match PasswordHash::new(hash) {
        Ok(parsed) => Argon2::default().verify_password(plain.as_bytes(), &parsed).is_ok(),
        Err(_) => false,
    }
}

/// Hashes a secret for storing.
pub fn hash_secret(plain: &str) -> (r: Result<String, AuthError>)
    ensures
        match r {
            Ok(h) => secret_matches(plain@, h@),
            Err(e) => e == AuthError::HashingFailed,
        },
        plain@.len() <= MAX_SECRET ==> r is Ok,
{
    match argon2_hash(plain) {
        Some(h) => Ok(h),
        None => Err(AuthError::HashingFailed),
    }
}

/// Whether a secret is the one of a stored hash.
pub fn verify_secret(plain: &str, hash: &str) -> (b: bool)
    ensures
        b == secret_matches(plain@, hash@),
{
    argon2_verify(plain, hash)
}

/// A security answer as it is hashed and compared: without white space around
/// it, in lower case.
pub open spec fn normalized(answer: Seq<char>) -> Seq<char> {
    lowercase(trimmed(answer))
}

/// A security answer as it is hashed and compared.
pub fn normalize_answer(answer: &str) -> (s: String)
    ensures
        s@ == normalized(answer@),
{
    to_lowercase(trim(answer).as_str())
}

/// Two answers that differ only in case and surrounding white space are both
/// accepted or both refused, whatever hash is stored.
pub proof fn law_answers_are_compared_loosely(a: Seq<char>, b: Seq<char>, hash: Seq<char>)
    requires
        lowercase(trimmed(a)) == lowercase(trimmed(b)),
    ensures
        secret_matches(normalized(a), hash) == secret_matches(normalized(b), hash),
{
}

// ---------------------------------------------------------------------------
// Signing in
// ---------------------------------------------------------------------------

/// An active user as stored.
#[derive(Debug)]
pub struct UserRow {
    pub id: String,
    pub password_hash: String,
}

/// A session to be stored.
#[derive(Debug)]
pub struct NewSession {
    pub token: String,
    pub user_id: String,
    pub lifetime_hours: i64,
}

/// Decides a sign-in: the user must be there and the password right. The error
/// is the same in both cases.
pub fn login_result(found: bool, matches: bool) -> (r: Result<(), AuthError>)
    ensures
        r == (if found && matches {
            Ok::<(), AuthError>(())
        } else {
            Err::<(), AuthError>(AuthError::InvalidLogin)
        }),
{
    if found && matches {
        Ok(())
    } else {
        Err(AuthError::InvalidLogin)
    }
}

/// Verifies a password and opens a session. `row` is the active user of that
/// name, where there is one.
pub fn login(row: Option<&UserRow>, password: &str) -> (r: Result<NewSession, AuthError>)
    ensures
        match r {
            Ok(s) => {
                &&& row is Some && secret_matches(password@, row->0.password_hash@)
                &&& s.user_id@ == row->0.id@
                &&& random_uuid(s.token@)
                &&& s.lifetime_hours == SESSION_LIFETIME_HOURS
            },
            Err(e) => {
                &&& row is None || !secret_matches(password@, row->0.password_hash@)
                &&& e == AuthError::InvalidLogin
            },
        },
{
    match row {
        None => Err(AuthError::InvalidLogin),
        Some(u) => match login_result(true, verify_secret(password, u.password_hash.as_str())) {
            Ok(()) => Ok(
                NewSession {
                    token: new_uuid(),
                    user_id: u.id.clone(),
                    lifetime_hours: SESSION_LIFETIME_HOURS,
                },
            ),
            Err(e) => Err(e),
        },
    }
}

// ---------------------------------------------------------------------------
// Recovery
// ---------------------------------------------------------------------------

/// The hashes of two security answers.
#[derive(Debug)]
pub struct AnswerHashes {
    pub answer1: String,
    pub answer2: String,
}

/// Hashes two security answers for storing.
pub fn set_security_questions(a1: &str, a2: &str) -> (r: Result<AnswerHashes, AuthError>)
    ensures
        match r {
            Ok(h) => secret_matches(normalized(a1@), h.answer1@) && secret_matches(normalized(a2@), h.answer2@),
            Err(e) => e == AuthError::HashingFailed,
        },
        normalized(a1@).len() <= MAX_SECRET && normalized(a2@).len() <= MAX_SECRET ==> r is Ok,
{
    let answer1 = match hash_secret(normalize_answer(a1).as_str()) {
        Ok(h) => h,
        Err(e) => {
            return Err(e);
        },
    };
    match hash_secret(normalize_answer(a2).as_str()) {
        Ok(answer2) => Ok(AnswerHashes { answer1, answer2 }),
        Err(e) => Err(e),
    }
}

/// What is stored of an account for its recovery.
#[derive(Debug)]
pub struct RecoveryRow {
    pub user_id: String,
    pub answer1_hash: Option<String>,
    pub answer2_hash: Option<String>,
}

/// A new password for an account, whose sessions all end with the old one.
#[derive(Debug)]
pub struct PasswordReset {
    pub user_id: String,
    pub password_hash: String,
}

/// Decides a recovery by security questions: both answers must be right.
pub fn questions_result(found: bool, set_up: bool, first: bool, second: bool) -> (r: Result<(), AuthError>)
    ensures
        r == (if !found {
            Err::<(), AuthError>(AuthError::AccountNotFound)
        } else if !set_up {
            Err::<(), AuthError>(AuthError::NoQuestions)
        } else if !first || !second {
            Err::<(), AuthError>(AuthError::WrongAnswers)
        } else {
            Ok::<(), AuthError>(())
        }),
{
    if !found {
        Err(AuthError::AccountNotFound)
    } else if !set_up {
        Err(AuthError::NoQuestions)
    } else if !first || !second {
        Err(AuthError::WrongAnswers)
    } else {
        Ok(())
    }
}

/// Why a recovery by security questions is refused, where it is.
pub open spec fn questions_refusal(row: Option<&RecoveryRow>, answer1: Seq<char>, answer2: Seq<char>) -> Option<AuthError> {
    match row {
        None => Some(AuthError::AccountNotFound),
        Some(x) => match (opt_view(x.answer1_hash), opt_view(x.answer2_hash)) {
            (Some(h1), Some(h2)) => if secret_matches(normalized(answer1), h1) && secret_matches(
                normalized(answer2),
                h2,
            ) {
                None
            } else {
                Some(AuthError::WrongAnswers)
            },
            _ => Some(AuthError::NoQuestions),
        },
    }
}

fn reset_password(user_id: &String, new_password: &str) -> (r: Result<PasswordReset, AuthError>)
    ensures
        match r {
            Ok(p) => p.user_id@ == user_id@ && secret_matches(new_password@, p.password_hash@),
            Err(e) => e == AuthError::HashingFailed,
        },
        new_password@.len() <= MAX_SECRET ==> r is Ok,
{
    match hash_secret(new_password) {
        Ok(password_hash) => Ok(PasswordReset { user_id: user_id.clone(), password_hash }),
        Err(e) => Err(e),
    }
}

/// Recovers an account by its two security questions.
pub fn recover_via_security_questions(
    row: Option<&RecoveryRow>,
    answer1: &str,
    answer2: &str,
    new_password: &str,
) -> (r: Result<PasswordReset, AuthError>)
    ensures
        match r {
            Ok(p) => {
                &&& questions_refusal(row, answer1@, answer2@) is None
                &&& p.user_id@ == row->0.user_id@
                &&& secret_matches(new_password@, p.password_hash@)
            },
            Err(e) => match questions_refusal(row, answer1@, answer2@) {
                Some(why) => e == why,
                None => e == AuthError::HashingFailed,
            },
        },
        questions_refusal(row, answer1@, answer2@) is None && new_password@.len() <= MAX_SECRET ==> r is Ok,
{
    let x = match row {
        None => {
            return Err(AuthError::AccountNotFound);
        },
        Some(x) => x,
    };
    let checked = match (&x.answer1_hash, &x.answer2_hash) {
        (Some(h1), Some(h2)) => {
            let first: bool = verify_secret(normalize_answer(answer1).as_str(), h1.as_str());
            let second: bool = first && verify_secret(normalize_answer(answer2).as_str(), h2.as_str());
            questions_result(true, true, first, second)
        },
        _ => questions_result(true, false, false, false),
    };
    match checked {
        Err(e) => Err(e),
        Ok(()) => reset_password(&x.user_id, new_password),
    }
}

/// Decides a recovery by the admin code: there must be one, it must be right,
/// and the account must be there.
pub fn admin_code_result(has_code: bool, matches: bool, found: bool) -> (r: Result<(), AuthError>)
    ensures
        r == (if !has_code {
            Err::<(), AuthError>(AuthError::NoAdminCode)
        } else if !matches {
            Err::<(), AuthError>(AuthError::WrongAdminCode)
        } else if !found {
            Err::<(), AuthError>(AuthError::AccountNotFound)
        } else {
            Ok::<(), AuthError>(())
        }),
{
    if !has_code {
        Err(AuthError::NoAdminCode)
    } else if !matches {
        Err(AuthError::WrongAdminCode)
    } else if !found {
        Err(AuthError::AccountNotFound)
    } else {
        Ok(())
    }
}

/// Why a recovery by the admin code is refused, where it is.
pub open spec fn admin_code_refusal(
    code_hash: Option<Seq<char>>,
    admin_code: Seq<char>,
    user_id: Option<Seq<char>>,
) -> Option<AuthError> {
    match code_hash {
        None => Some(AuthError::NoAdminCode),
        Some(h) => if !secret_matches(admin_code, h) {
            Some(AuthError::WrongAdminCode)
        } else if user_id is None {
            Some(AuthError::AccountNotFound)
        } else {
            None
        },
    }
}

/// Recovers an account by the admin code of its business.
pub fn recover_via_admin_code(
    code_hash: &Option<String>,
    admin_code: &str,
    user_id: &Option<String>,
    new_password: &str,
) -> (r: Result<PasswordReset, AuthError>)
    ensures
        match r {
            Ok(p) => {
                &&& admin_code_refusal(opt_view(*code_hash), admin_code@, opt_view(*user_id)) is None
                &&& opt_view(*user_id) == Some(p.user_id@)
                &&& secret_matches(new_password@, p.password_hash@)
            },
            Err(e) => match admin_code_refusal(opt_view(*code_hash), admin_code@, opt_view(*user_id)) {
                Some(why) => e == why,
                None => e == AuthError::HashingFailed,
            },
        },
        admin_code_refusal(opt_view(*code_hash), admin_code@, opt_view(*user_id)) is None && new_password@.len()
            <= MAX_SECRET ==> r is Ok,
{
    let matches: bool = match code_hash {
        None => false,
        Some(h) => verify_secret(admin_code, h.as_str()),
    };
    match admin_code_result(code_hash.is_some(), matches, user_id.is_some()) {
        Err(e) => Err(e),
        Ok(()) => match user_id {
            Some(id) => reset_password(id, new_password),
            None => Err(AuthError::AccountNotFound),
        },
    }
}

/// An account is recovered by its security questions where it is there, has both
/// answers set, and each answer is that of its own question; and in no other case.
pub proof fn law_recovery_takes_both_answers(row: Option<&RecoveryRow>, answer1: Seq<char>, answer2: Seq<char>)
    ensures
        questions_refusal(row, answer1, answer2) is None <==> {
            &&& row is Some
            &&& row->0.answer1_hash is Some && secret_matches(lowercase(trimmed(answer1)), row->0.answer1_hash->0@)
            &&& row->0.answer2_hash is Some && secret_matches(lowercase(trimmed(answer2)), row->0.answer2_hash->0@)
        },
{
}

/// An account is recovered by the admin code where the business has one, the code
/// is that one, and the account is there; and in no other case.
pub proof fn law_recovery_takes_the_admin_code(
    code_hash: Option<Seq<char>>,
    admin_code: Seq<char>,
    user_id: Option<Seq<char>>,
)
    ensures
        admin_code_refusal(code_hash, admin_code, user_id) is None <==> code_hash is Some && user_id is Some
            && secret_matches(admin_code, code_hash->0),
{
}

} // verus!
