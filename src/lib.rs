//! A content-addressed document registry: documents are registered by content
//! hash, verified by hash, and viewed or deleted by their owners, with
//! registration and verification gated behind a fee paid to an administrator.

mod laws;
mod payment;
mod principal;
mod storage;
mod types;

pub use storage::DocReg;
pub use payment::payment_error;
pub use principal::{check_principal_text, principal_text_valid};
pub use types::{
    AddDocumentPayload, DeleteDocumentPayload, Document, InitPayload, RegistryError,
    TransferOutcome, TransferPayload, VerifyDocumentPayload, ViewDocumentPayload,
};
pub use laws::{
    law_count_after_registrations, law_delete_removes, law_owner_views_added_document,
    law_verify_after_add, lemma_add_inserts_hash, lemma_count_is_distinct_hashes,
    lemma_indices_consistent,
};
