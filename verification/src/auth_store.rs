//! Passwords: hashing them, and checking one against what is stored.

use vstd::prelude::*;
use vstd::utf8::*;

use crate::storage::StoredUser;
use crate::text::{byte_count, chars_of, is_digit, starts_with, str_eq};

verus! {

/// An error of the password hash library.
#[verifier::external_type_specification]
#[verifier::external_body]
pub struct ExPasswordHashError(argon2::password_hash::Error);

/// What `argon2`'s `PasswordHasher::hash_password` gives for a password and a salt, with the
/// default parameters.
pub uninterp spec fn argon2_hash(password: Seq<u8>, salt: Seq<char>) -> Option<Seq<char>>;

/// Whether `argon2`'s `PasswordVerifier::verify_password` accepts a password for a stored hash.
pub uninterp spec fn argon2_accepts(password: Seq<u8>, stored: Seq<char>) -> bool;

/// Whether a character is a digit of base 64.
pub open spec fn is_base64(c: char) -> bool {
    ('a' <= c && c <= 'z') || ('A' <= c && c <= 'Z') || ('0' <= c && c <= '9') || c == '+' || c
        == '/'
}

/// Whether a text is sixteen bytes in base 64, without padding.
pub open spec fn is_salt(s: Seq<char>) -> bool {
    &&& s.len() == 22
    &&& forall|i: int| 0 <= i < 22 ==> is_base64(#[trigger] s[i])
    &&& s[21] == 'A' || s[21] == 'Q' || s[21] == 'g' || s[21] == 'w'
}

/// Whether the parameter `p` of a hash is named at a position, behind a dollar sign or a comma.
pub open spec fn names_parallelism(s: Seq<char>, i: int) -> bool {
    &&& 0 < i && i + 1 < s.len()
    &&& s[i - 1] == '$' || s[i - 1] == ','
    &&& s[i] == 'p'
    &&& s[i + 1] == '='
}

/// Whether nine digits follow the name of a parameter at a position.
pub open spec fn nine_digits(s: Seq<char>, i: int) -> bool {
    i + 10 < s.len() && forall|k: int| i + 2 <= k <= i + 10 ==> is_digit(#[trigger] s[k])
}

/// Whether the parameter `p` of a hash has nine digits or more, where it is named last. No hash has:
/// the greatest value has eight.
pub open spec fn long_parallelism(s: Seq<char>) -> bool {
    exists|i: int| #[trigger]
        names_parallelism(s, i) && nine_digits(s, i) && forall|j: int|
            i < j ==> !#[trigger] names_parallelism(s, j)
}

/// Whether the parameter `p` of a hash has nine digits or more.
fn has_long_parallelism(stored: &str) -> (r: bool)
    ensures
        r == long_parallelism(stored@),
{
    let cs: Vec<char> = chars_of(stored);
    let n: usize = cs.len();
    let mut i: usize = n;
    while i > 1
        invariant
            cs@ == stored@,
            n == cs@.len(),
            i <= n,
            forall|j: int| i <= j ==> !#[trigger] names_parallelism(cs@, j),
        decreases i,
    {
        i -= 1;
        if i + 1 < n && (cs[i - 1] == '$' || cs[i - 1] == ',') && cs[i] == 'p' && cs[i + 1] == '=' {
            assert(names_parallelism(cs@, i as int));
            if n - i <= 10 {
                return false;
            }
            let mut k: usize = i + 2;
            while k <= i + 10
                invariant
                    cs@ == stored@,
                    n == cs@.len(),
                    i + 10 < n,
                    names_parallelism(cs@, i as int),
                    forall|j: int| i < j ==> !#[trigger] names_parallelism(cs@, j),
                    i + 2 <= k <= i + 11,
                    forall|m: int| i + 2 <= m < k ==> is_digit(#[trigger] cs@[m]),
                decreases i + 11 - k,
            {
                if !('0' <= cs[k] && cs[k] <= '9') {
                    assert(!nine_digits(cs@, i as int));
                    return false;
                }
                k += 1;
            }
            assert(nine_digits(cs@, i as int));
            return true;
        }
        assert(!names_parallelism(cs@, i as int));
    }
    false
}

/// The most bytes of a password that can be hashed.
pub const MAX_PASSWORD_BYTES: u64 = 0xFFFF_FFFF;

/// `argon2::password_hash::SaltString::generate`: sixteen random bytes in base 64. Which bytes they
/// are is random.
#[verifier::external_body]
pub(crate) fn random_salt() -> (r: String)
    ensures
        is_salt(r@),
{
    argon2::password_hash::SaltString::generate(&mut rand_core::OsRng).to_string()
}

/// `argon2::Argon2::hash_password` with the default parameters: where it gives a hash, that is a
/// text that starts with `$argon2` and names few threads, and the password it was made from is
/// accepted for it. It gives none for a password that is too long, and one for every other password
/// with a salt of sixteen bytes; which other salts it refuses is not stated.
#[verifier::external_body]
pub(crate) fn hash_with_salt(password: &[u8], salt: &str) -> (r: Result<
    String,
    argon2::password_hash::Error,
>)
    ensures
        match r {
            Ok(hash) => {
                &&& argon2_hash(password@, salt@) == Some(hash@)
                &&& "$argon2"@.is_prefix_of(hash@)
                &&& !long_parallelism(hash@)
                &&& argon2_accepts(password@, hash@)
                &&& password@.len() <= MAX_PASSWORD_BYTES
            },
            Err(_) => {
                &&& argon2_hash(password@, salt@) is None
                &&& is_salt(salt@) ==> password@.len() > MAX_PASSWORD_BYTES
            },
        },
{
    let salt = argon2::password_hash::SaltString::from_b64(salt)?;
    let hash = argon2::PasswordHasher::hash_password(&argon2::Argon2::default(), password, &salt)?;
    Ok(hash.to_string())
}

/// `argon2::password_hash::PasswordHash::new` and `argon2::Argon2::verify_password`: whether a
/// password is the one that a stored hash was made from. A text that is no hash accepts none. The
/// number of threads is multiplied before it is looked at, so that it must not be too long. The call
/// takes as much memory as the text asks for.
#[verifier::external_body]
pub(crate) fn argon2_verify(password: &[u8], stored: &str) -> (r: bool)
    requires
        !long_parallelism(stored@),
    ensures
        r == argon2_accepts(password@, stored@),
{
    match argon2::password_hash::PasswordHash::new(stored) {
        Ok(parsed) => argon2::PasswordVerifier::verify_password(
            &argon2::Argon2::default(),
            password,
            &parsed,
        ).is_ok(),
        Err(_) => false,
    }
}

/// A password that could not be hashed.
#[derive(Clone, Copy, Debug, PartialEq, Eq, Structural)]
pub struct HashError;

/// Whether a stored password is a hash.
pub open spec fn is_hashed(stored: Seq<char>) -> bool {
    "$argon2"@.is_prefix_of(stored)
}

/// Whether a password is the one that is stored: as a hash, or, from before hashing, as itself.
pub open spec fn password_matches(candidate: Seq<char>, stored: Seq<char>) -> bool {
    if is_hashed(stored) {
        !long_parallelism(stored) && argon2_accepts(encode_utf8(candidate), stored)
    } else {
        candidate == stored
    }
}

/// The hash of a password with a given salt. There is one for every password that is not too long
/// with a salt of sixteen bytes.
pub fn hash_password_with(password: &str, salt: &str) -> (r: Result<String, HashError>)
    ensures
        match r {
            Ok(hash) => {
                &&& argon2_hash(encode_utf8(password@), salt@) == Some(hash@)
                &&& is_hashed(hash@)
                &&& password_matches(password@, hash@)
                &&& byte_count(password@) <= MAX_PASSWORD_BYTES
            },
            Err(_) => {
                &&& argon2_hash(encode_utf8(password@), salt@) is None
                &&& is_salt(salt@) ==> byte_count(password@) > MAX_PASSWORD_BYTES
            },
        },
{
    match hash_with_salt(password.as_bytes(), salt) {
        Ok(hash) => Ok(hash),
        Err(_) => Err(HashError),
    }
}

/// The hash of a password with a random salt. There is one for every password that is not too
/// long, and the password matches it.
pub fn hash_password(password: &str) -> (r: Result<String, HashError>)
    ensures
        r is Ok <==> byte_count(password@) <= MAX_PASSWORD_BYTES,
        match r {
            Ok(hash) => is_hashed(hash@) && password_matches(password@, hash@) && exists|
                salt: Seq<char>,
            |
                is_salt(salt) && #[trigger] argon2_hash(encode_utf8(password@), salt) == Some(
                    hash@,
                ),
            Err(_) => true,
        },
{
    let salt: String = random_salt();
    hash_password_with(password, salt.as_str())
}

/// Whether a text is what is stored of a new password: a hash that the password matches, or the
/// password itself where it is too long to be hashed.
pub open spec fn is_stored_password(stored: Seq<char>, password: Seq<char>) -> bool {
    if byte_count(password) <= MAX_PASSWORD_BYTES {
        is_hashed(stored) && password_matches(password, stored)
    } else {
        stored == password
    }
}

/// What to store of a new password.
pub fn stored_password(password: &str) -> (r: String)
    ensures
        is_stored_password(r@, password@),
{
    match hash_password(password) {
        Ok(hash) => hash,
        Err(_) => password.to_owned(),
    }
}

/// Whether a password is the one that is stored.
pub fn verify_password(candidate: &str, stored: &str) -> (r: bool)
    ensures
        r == password_matches(candidate@, stored@),
{
    if starts_with(stored, "$argon2") {
        !has_long_parallelism(stored) && argon2_verify(candidate.as_bytes(), stored)
    } else {
        str_eq(candidate, stored)
    }
}

/// Whether a user name and a password are those of an account.
pub open spec fn credentials_match(
    user: Option<crate::storage::StoredUserModel>,
    username: Option<Seq<char>>,
    password: Option<Seq<char>>,
) -> bool {
    match (user, username, password) {
        (Some(u), Some(n), Some(p)) => n == u.username && password_matches(p, u.password),
        _ => false,
    }
}

/// Whether a user name and a password are those of an account.
pub fn check_credentials(
    user: &Option<StoredUser>,
    username: Option<&str>,
    password: Option<&str>,
) -> (r: bool)
    ensures
        r == credentials_match(
            crate::storage::opt_user(*user),
            match username {
                Some(n) => Some(n@),
                None => None,
            },
            match password {
                Some(p) => Some(p@),
                None => None,
            },
        ),
{
    match (user, username, password) {
        (Some(u), Some(n), Some(p)) => str_eq(n, u.username.as_str()) && verify_password(
            p,
            u.password.as_str(),
        ),
        _ => false,
    }
}

/// An account after a successful login: a password stored as itself has become a hash that the
/// password matches, unless it is too long to be hashed; nothing else changes.
pub open spec fn upgraded(
    before: crate::storage::StoredUserModel,
    after: crate::storage::StoredUserModel,
    password: Seq<char>,
) -> bool {
    &&& after == (crate::storage::StoredUserModel { password: after.password, ..before })
    &&& if is_hashed(before.password) || byte_count(password) > MAX_PASSWORD_BYTES {
        after.password == before.password
    } else {
        is_stored_password(after.password, password)
    }
}

/// Replaces a password that is stored as itself by its hash, after a successful login with it.
pub fn upgrade_password(user: &mut StoredUser, password: &str)
    ensures
        upgraded(old(user)@, final(user)@, password@),
{
    if !starts_with(user.password.as_str(), "$argon2") {
        match hash_password(password) {
            Ok(hash) => {
                user.password = hash;
            },
            Err(_) => {},
        }
    }
}

/// The account to use: the stored one, or else the one that onboarding kept from before accounts
/// were stored on their own. Says whether it still has to be stored.
pub fn user_with_legacy_fallback(
    stored: Option<StoredUser>,
    legacy: &Option<StoredUser>,
) -> (r: (Option<StoredUser>, bool))
    ensures
        r.0 == match stored {
            Some(u) => Some(u),
            None => *legacy,
        },
        r.1 == (stored is None && legacy is Some),
{
    match stored {
        Some(user) => (Some(user), false),
        None => match legacy {
            Some(user) => (Some(user.clone()), true),
            None => (None, false),
        },
    }
}

/// A password that is stored as itself is matched by itself only. What is stored of a new password
/// is matched by it, unless the password is too long and looks like a hash.
pub proof fn law_password(candidate: Seq<char>, stored: Seq<char>)
    ensures
        !is_hashed(stored) ==> password_matches(candidate, stored) == (candidate == stored),
        is_stored_password(stored, candidate) && (byte_count(candidate) <= MAX_PASSWORD_BYTES
            || !is_hashed(candidate)) ==> password_matches(candidate, stored),
{
}

} // verus!
