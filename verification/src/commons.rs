use std::str::FromStr;
use vstd::prelude::*;

verus! {

/// The id that a text spells, as `uuid::Uuid::from_str` reads it: `None`
/// where the text is not that of an id.
pub uninterp spec fn uuid_from_str(text: Seq<char>) -> Option<u128>;

/// Reads an id with `uuid::Uuid::from_str` and hands it out as the 128-bit
/// number that `Uuid::as_u128` gives. Nothing is proved of it: the contract
/// only gives the outcome a name, which is the same for the same text.
#[verifier::external_body]
pub(crate) fn parse_uuid(text: &str) -> (id: Option<u128>)
    ensures
        id == uuid_from_str(text@),
{
    match uuid::Uuid::from_str(text) {
        Ok(id) => Some(id.as_u128()),
        Err(_) => None,
    }
}

/// Whether `id` is the nil id, which stands for no id at all.
pub fn is_nil(id: u128) -> (nil: bool)
    ensures
        nil == (id == 0),
{
    id == 0
}

} // verus!
