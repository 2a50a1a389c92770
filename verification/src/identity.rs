//! The stable identity of a document, derived from its path.

use vstd::prelude::*;
use vstd::string::StringSliceAdditionalSpecFns;
use crate::model::DocumentId;

verus! {

/// The namespace in which document identities are derived.
pub const DOCUMENT_NAMESPACE: u128 = 0x7b2c58f1_99c6_5a5c_a6ea_50f9e7f1cc20;

/// The name-based identifier, by SHA-1, that stands for `name` in
/// `namespace`; identifiers are taken as 128-bit numbers, first byte
/// highest.
pub uninterp spec fn name_based_id(namespace: u128, name: Seq<u8>) -> u128;

/// Calls `uuid::Uuid::new_v5`. The contract gives the identifier the
/// name `name_based_id`: it is a hash of the namespace and the name and
/// depends on nothing else.
#[verifier::external_body]
fn new_name_based_id(namespace: u128, name: &[u8]) -> (r: u128)
    ensures
        r == name_based_id(namespace, name@),
{
    uuid::Uuid::new_v5(&uuid::Uuid::from_u128(namespace), name).as_u128()
}

/// The identity of the document at `resolved`, which is the document's
/// path made absolute and written out.
pub fn document_id_for_path(resolved: &str) -> (r: DocumentId)
    ensures
        r == name_based_id(DOCUMENT_NAMESPACE, resolved.spec_bytes()),
{
    new_name_based_id(DOCUMENT_NAMESPACE, resolved.as_bytes())
}

} // verus!
