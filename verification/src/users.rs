use crate::error::Error;
use crate::hasher::{argon2_check, argon2_hash, check_with_argon2, hash_with_argon2};
use crate::hasher::{random_salt, PasswordCheck};
use crate::logic::group::{is_listed, list_members};
use crate::store::memory::Store;
use crate::store::model::lemma_members_of;
use base64::Engine;
use vstd::prelude::*;
use vstd::string::StringExecFns;

verus! {

/// Whether `user_id` belongs to `group_id`.
pub fn is_user_in_group(ctx: &mut Store, user_id: u128, group_id: u128) -> (result: Result<
    bool,
    Error,
>)
    requires
        old(ctx)@.valid(),
    ensures
        final(ctx)@ == old(ctx)@,
        result == Ok::<bool, Error>(old(ctx)@.is_member(group_id, user_id)),
{
    proof {
        lemma_members_of(ctx@.memberships, group_id, user_id);
    }
    match list_members(ctx, group_id, None) {
        Ok(users) => Ok(is_listed(&users, user_id)),
        Err(error) => Err(error),
    }
}

/// Whether a user who gave a password may go on: a wrong password makes the
/// user unauthorized, and a check that could not be made is nobody's fault
/// but the service's.
pub fn password_verdict(check: PasswordCheck) -> (verdict: Result<(), Error>)
    ensures
        verdict == verdict_of(check),
{
    match check {
        PasswordCheck::Accepted => Ok(()),
        PasswordCheck::Rejected => Err(Error::Unauthorized),
        PasswordCheck::Failed => Err(Error::Internal),
    }
}

/// What the service answers to a password that was checked.
pub open spec fn verdict_of(check: PasswordCheck) -> Result<(), Error> {
    match check {
        PasswordCheck::Accepted => Ok(()),
        PasswordCheck::Rejected => Err(Error::Unauthorized),
        PasswordCheck::Failed => Err(Error::Internal),
    }
}

/// What the service keeps of a password for which a hash was asked.
pub open spec fn kept_of(hash: Option<Seq<char>>, kept: Result<String, Error>) -> bool {
    match hash {
        Some(text) => kept matches Ok(given) && given@ == text,
        None => kept matches Err(error) && error == Error::Internal,
    }
}

/// The hash that is kept of `password`, made with `salt`.
pub fn hash_password_with(password: &str, salt: &str) -> (kept: Result<String, Error>)
    ensures
        kept_of(argon2_hash(password@, salt@), kept),
{
    match hash_with_argon2(password, salt) {
        Some(hash) => Ok(hash),
        None => Err(Error::Internal),
    }
}

/// The hash that is kept of `password`, made with a salt that is drawn for
/// it: which salt, and so which hash, is a matter of chance.
pub fn hash_password(password: &str) -> (kept: Result<String, Error>)
    ensures
        exists|salt: Seq<char>| kept_of(#[trigger] argon2_hash(password@, salt), kept),
{
    let salt = random_salt();
    hash_password_with(password, salt.as_str())
}

/// Whether `password` is the password of which `password_hash` is kept: a
/// password that does not fit makes the user unauthorized, and a hash that
/// cannot be read or checked is a failure of the service.
pub fn verify_password(password: &str, password_hash: &str) -> (verdict: Result<(), Error>)
    ensures
        verdict == verdict_of(argon2_check(password@, password_hash@)),
{
    password_verdict(check_with_argon2(password, password_hash))
}

/// Where the picture of the user with this address is fetched from.
pub fn profile_image_url(email: &str) -> (url: String)
    ensures
        url@ == "https://joesch.moe/api/v1/male/"@ + email@,
{
    String::from_str("https://joesch.moe/api/v1/male/").concat(email)
}

/// The text that the standard base64 alphabet with padding makes of
/// `bytes`, as `base64::engine::general_purpose::STANDARD` encodes them.
pub uninterp spec fn base64_standard(bytes: Seq<u8>) -> Seq<char>;

/// Whether the base64 text of this many bytes has a length that fits.
pub open spec fn encodable(len: nat) -> bool {
    len / 3 < usize::MAX / 4
}

/// Encodes `bytes` with `Engine::encode` of
/// `base64::engine::general_purpose::STANDARD`, which panics where the length
/// of the text would not fit in `usize`: such input is left out. Nothing is
/// proved of it: the contract only gives the text a name, which is the same
/// for the same bytes.
#[verifier::external_body]
fn encode_base64(bytes: &Vec<u8>) -> (text: String)
    requires
        encodable(bytes@.len()),
    ensures
        text@ == base64_standard(bytes@),
{
    base64::engine::general_purpose::STANDARD.encode(bytes)
}

/// Whether a response with this status carries what was asked for.
pub open spec fn is_success(status: u16) -> bool {
    200 <= status < 300
}

/// The picture that is kept of a user, from the response of the service that
/// draws it: the body in base64 where the response is a success.
pub fn encode_profile_image(status: u16, body: &Vec<u8>) -> (image: Result<String, Error>)
    ensures
        match image {
            Ok(text) => {
                &&& is_success(status)
                &&& encodable(body@.len())
                &&& text@ == base64_standard(body@)
            },
            Err(error) => error == Error::Internal && !(is_success(status) && encodable(
                body@.len(),
            )),
        },
{
    if status < 200 || status >= 300 {
        return Err(Error::Internal);
    }
    if body.len() / 3 >= usize::MAX / 4 {
        return Err(Error::Internal);
    }
    Ok(encode_base64(body))
}

} // verus!
