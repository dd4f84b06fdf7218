//! Identifiers: opaque 128-bit values for graphs, pins, libraries, node
//! instances and actor addresses.
use vstd::prelude::*;

verus! {

/// A globally unique identifier, held as its 128-bit value.
pub type Id = u128;

/// The address of an actor (a node actor or the controller), held as the
/// 128-bit identifier the actor system gives it.
pub type ActorId = u128;

/// The identifier of the built-in library, whose graphs are provided by code.
pub const INTERNAL_LIBRARY_ID: Id = 0xb0fa443c_20d0_4c2a_acf9_76c63af3cbed;

/// What `uuid::Uuid::parse_str` yields for a text, as a 128-bit value.
pub uninterp spec fn uuid_from_text(text: Seq<char>) -> Option<u128>;

/// Relies on `uuid::Uuid::parse_str` (uuid 0.8) to read the hyphenated,
/// simple, or urn form of an identifier, and on `Uuid::as_u128` for its value.
#[verifier::external_body]
fn uuid_parse(text: &str) -> (r: Option<u128>)
    ensures
        r == uuid_from_text(text@),
{
    match uuid::Uuid::parse_str(text) {
        Ok(u) => Some(u.as_u128()),
        Err(_) => None,
    }
}

/// Reads an identifier written as text; `None` when the text is not one.
pub fn parse_id(text: &str) -> (r: Option<Id>)
    ensures
        r == uuid_from_text(text@),
{
    uuid_parse(text)
}

} // verus!
