//! The identity of a core: a token that no other core of the process has.
//! The router reads nothing from it but whether two of them are the same.

use snowflake::ProcessUniqueId;
use vstd::prelude::*;

verus! {

/// The identifiers of the `snowflake` crate. Nothing is known of what one
/// holds; two of them are the same value or they are not.
#[verifier::external_type_specification]
#[verifier::external_body]
pub struct ExProcessUniqueId(ProcessUniqueId);

/// Takes a new identifier from `ProcessUniqueId::new`.
///
/// That function hands out an identifier that it has not handed out before in
/// this process. Nothing of that is claimed here, since it speaks of all the
/// calls and not of one; the router does not rely on it. The call panics only
/// once the process has used up all identifiers.
#[verifier::external_body]
pub(crate) fn fresh_id() -> (id: ProcessUniqueId) {
    ProcessUniqueId::new()
}

/// Compares two identifiers with the `==` of `ProcessUniqueId`.
///
/// That `==` is derived: it holds when both fields of the two identifiers
/// are equal, which is when the two are the same value.
#[verifier::external_body]
pub(crate) fn same_id(a: &ProcessUniqueId, b: &ProcessUniqueId) -> (same: bool)
    ensures
        same == (*a == *b),
{
    a == b
}

} // verus!
