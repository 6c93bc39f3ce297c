//! Values the relay carries without reading them: unique identifiers and
//! JSON payloads produced or consumed by targets.

use vstd::prelude::*;

verus! {

/// Declares `uuid::Uuid` to Verus as an opaque type.
#[verifier::external_type_specification]
#[verifier::external_body]
pub struct ExUuid(uuid::Uuid);

/// Declares `serde_json::Value` to Verus as an opaque type.
#[verifier::external_type_specification]
#[verifier::external_body]
pub struct ExJsonValue(serde_json::Value);

/// `Uuid` is `Copy`; its clone is the same identifier. The derived clones
/// of the records that carry identifiers call it.
pub assume_specification [<uuid::Uuid as Clone>::clone](v: &uuid::Uuid) -> (r: uuid::Uuid)
    ensures
        r == *v,
;

/// The derived clone of a JSON value is an equal value.
pub assume_specification [<serde_json::Value as Clone>::clone](v: &serde_json::Value) -> (r: serde_json::Value)
    ensures
        r == *v,
;

/// Calls `uuid::Uuid::new_v4`; the identifier is random, so nothing is
/// claimed of it.
#[verifier::external_body]
pub(crate) fn new_uuid() -> uuid::Uuid {
    uuid::Uuid::new_v4()
}

} // verus!
