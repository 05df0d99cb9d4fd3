//! The values that cross the registry's interface.

use vstd::prelude::*;

verus! {

/// A registered document. Documents are never changed once created.
///
/// `owner` is the textual form of the principal that created it, and
/// `created_at` the registry's clock (nanoseconds) at creation.
#[derive(Clone, Debug, PartialEq, Eq)]
pub struct Document {
    pub id: u64,
    pub name: String,
    pub hash: String,
    pub created_at: u64,
    pub owner: String,
}

impl Document {
    /// The fields of the document, as plain values, are `id`, `name`, `hash`,
    /// `created_at` and `owner`.
    pub open spec fn has_fields(
        self,
        id: u64,
        name: Seq<char>,
        hash: Seq<char>,
        created_at: u64,
        owner: Seq<char>,
    ) -> bool {
        &&& self.id == id
        &&& self.name@ == name
        &&& self.hash@ == hash
        &&& self.created_at == created_at
        &&& self.owner@ == owner
    }

    /// A copy of the document, field for field.
    pub fn copy(&self) -> (r: Document)
        ensures
            r == *self,
    {
        Document {
            id: self.id,
            name: self.name.clone(),
            hash: self.hash.clone(),
            created_at: self.created_at,
            owner: self.owner.clone(),
        }
    }
}

/// What a caller sends to register a document.
#[derive(Clone, Debug, Default)]
pub struct AddDocumentPayload {
    pub doc_name: String,
    pub doc_hash: String,
}

/// What a caller sends to verify a document by its hash.
#[derive(Clone, Debug, Default)]
pub struct VerifyDocumentPayload {
    pub doc_hash: String,
}

/// What a caller sends to view one of its documents.
#[derive(Clone, Copy, Debug, Default)]
pub struct ViewDocumentPayload {
    pub doc_id: u64,
}

/// What a caller sends to delete one of its documents.
#[derive(Clone, Copy, Debug, Default)]
pub struct DeleteDocumentPayload {
    pub doc_id: u64,
}

/// A transfer that the registry asks the ledger to make: `amount` from the
/// caller to the principal whose text is `owner`.
#[derive(Clone, Debug)]
pub struct TransferPayload {
    pub owner: String,
    pub amount: u128,
}

/// The one-time configuration: the administrator who receives fees, and the fee.
#[derive(Clone, Debug)]
pub struct InitPayload {
    pub admin: String,
    pub fee: u128,
}

/// How a transfer to the ledger ended.
#[derive(Clone, Debug, PartialEq, Eq)]
pub enum TransferOutcome {
    /// The ledger made the transfer.
    Completed,
    /// The ledger could not be reached or its answer could not be read;
    /// the text describes the failure.
    CallFailed(String),
    /// The ledger answered with a transfer error, described by the text.
    Rejected(String),
}

/// The ways a registry operation fails.
#[derive(Clone, Debug, PartialEq, Eq)]
pub enum RegistryError {
    /// No document has the requested hash or id.
    NotFound,
    /// The caller does not own the requested document.
    AccessDenied,
    /// The payment could not be made: the ledger was not reached.
    PaymentCallFailed(String),
    /// The ledger refused the payment.
    PaymentRejected(String),
    /// The administrator's identity is malformed, or none was configured.
    InvalidConfiguration,
}

} // verus!
