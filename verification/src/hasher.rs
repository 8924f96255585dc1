use argon2::password_hash::{PasswordHash, SaltString};
use argon2::Argon2;
use vstd::prelude::*;

verus! {

/// What checking a password against the hash that is kept of it came to.
#[derive(Clone, Copy, PartialEq, Eq, Debug, Structural)]
pub enum PasswordCheck {
    /// The password is the one that was hashed.
    Accepted,
    /// The password is another one.
    Rejected,
    /// The hash could not be read, or the check could not be made.
    Failed,
}

/// What Argon2, with the settings that `Argon2::default` gives, makes of
/// `password` and the salt that `salt` spells in base64: the hash as a text
/// in the PHC string format, or `None` where the salt or the password is not
/// one that the hasher takes.
pub uninterp spec fn argon2_hash(password: Seq<char>, salt: Seq<char>) -> Option<Seq<char>>;

/// What comes of checking `password` against the hash that `password_hash`
/// spells in the PHC string format, by Argon2 with the settings that
/// `Argon2::default` gives.
pub uninterp spec fn argon2_check(password: Seq<char>, password_hash: Seq<char>) -> PasswordCheck;

/// Draws a salt with `SaltString::generate` from `rand::thread_rng`, and
/// hands it out as the base64 text that the salt's `as_str` gives. The salt
/// is another one each time, so nothing is said of it.
#[verifier::external_body]
pub(crate) fn random_salt() -> String {
    SaltString::generate(rand::thread_rng()).as_str().to_owned()
}

/// Hashes a password with `PasswordHash::generate`: the salt is read with
/// `SaltString::from_b64`, and the hash is handed out as the text that its
/// `to_string` gives. Nothing is proved of it: the contract only gives the
/// outcome a name, which is the same for the same password and salt.
#[verifier::external_body]
pub(crate) fn hash_with_argon2(password: &str, salt: &str) -> (hash: Option<String>)
    ensures
        match hash {
            Some(text) => argon2_hash(password@, salt@) == Some(text@),
            None => argon2_hash(password@, salt@) is None,
        },
{
    let salt = match SaltString::from_b64(salt) {
        Ok(salt) => salt,
        Err(_) => return None,
    };
    match PasswordHash::generate(Argon2::default(), password, &salt) {
        Ok(hash) => Some(hash.to_string()),
        Err(_) => None,
    }
}

/// Checks a password with `PasswordHash::verify_password`: the hash is read
/// with `PasswordHash::new`, and of the errors of the `password-hash` crate
/// `Error::Password` says that the password does not fit. Nothing is proved
/// of it: the contract only gives the outcome a name, which is the same for
/// the same password and hash.
#[verifier::external_body]
pub(crate) fn check_with_argon2(password: &str, password_hash: &str) -> (check: PasswordCheck)
    ensures
        check == argon2_check(password@, password_hash@),
{
    let hash = match PasswordHash::new(password_hash) {
        Ok(hash) => hash,
        Err(_) => return PasswordCheck::Failed,
    };
    match hash.verify_password(&[&Argon2::default()], password) {
        Ok(()) => PasswordCheck::Accepted,
        Err(argon2::password_hash::Error::Password) => PasswordCheck::Rejected,
        Err(_) => PasswordCheck::Failed,
    }
}

} // verus!
