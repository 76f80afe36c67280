//! Identifiers.
//!
//! Every task, subtask and group carries a 128-bit id drawn from a random
//! UUID. Ids are generated before any write, so retrying a failed save with
//! the same id is safe. They are persisted in the hyphenated text form,
//! which `uuid_text_of` names.

use vstd::prelude::*;

verus! {

/// The hyphenated text form of an id, a pure function of the 128-bit value.
pub uninterp spec fn uuid_text_of(id: u128) -> Seq<char>;

/// Relies on uuid::Uuid::new_v4 and as_u128: a fresh version-4 UUID. Its
/// version and variant bits are always set, so the value is never zero.
/// Like the library it is taken from, it aborts if the operating system's
/// random source fails.
#[verifier::external_body]
pub(crate) fn fresh_id() -> (r: u128)
    ensures
        r != 0,
{
    uuid::Uuid::new_v4().as_u128()
}

/// Relies on uuid::Uuid::from_u128 and its Display impl: the hyphenated
/// text form of the id, a pure function of the value alone.
#[verifier::external_body]
pub(crate) fn id_text(id: u128) -> (r: String)
    ensures
        r@ == uuid_text_of(id),
{
    uuid::Uuid::from_u128(id).to_string()
}

/// Relies on uuid::Uuid::parse_str and as_u128: parsing the hyphenated text
/// of an id yields that id back (from_u128 and as_u128 are inverses).
#[verifier::external_body]
pub(crate) fn parse_id(s: &str) -> (r: Option<u128>)
    ensures
        forall|id: u128| s@ == #[trigger] uuid_text_of(id) ==> r == Some(id),
{
    match uuid::Uuid::parse_str(s) {
        Ok(u) => Some(u.as_u128()),
        Err(_) => None,
    }
}

} // verus!
