//! The payment-gated operations. Registering a document costs the fee and
//! verifying one costs half of it, paid by the caller to the administrator.
//!
//! Each gated operation runs in two steps around the ledger call: the
//! registry first says which transfer to request, and once the ledger's
//! outcome is known it settles the operation. The registry changes only when
//! the transfer was made.

use vstd::prelude::*;

use crate::storage::DocReg;
use crate::types::{Document, RegistryError, TransferOutcome, TransferPayload};

verus! {

/// The error that a failed transfer turns into; `None` when the transfer was made.
pub open spec fn payment_error(outcome: TransferOutcome) -> Option<RegistryError> {
    match outcome {
        TransferOutcome::Completed => None,
        TransferOutcome::CallFailed(m) => Some(RegistryError::PaymentCallFailed(m)),
        TransferOutcome::Rejected(m) => Some(RegistryError::PaymentRejected(m)),
    }
}

/// The error for a transfer that was not made, carrying the ledger's description.
fn payment_failure(outcome: TransferOutcome) -> (r: Option<RegistryError>)
    ensures
        r == payment_error(outcome),
{
    match outcome {
        TransferOutcome::Completed => None,
        TransferOutcome::CallFailed(m) => Some(RegistryError::PaymentCallFailed(m)),
        TransferOutcome::Rejected(m) => Some(RegistryError::PaymentRejected(m)),
    }
}

impl DocReg {
    /// The transfer of `amount` to the administrator, or `InvalidConfiguration`
    /// while no administrator is configured.
    pub open spec fn transfer_spec(self, amount: u128, r: Result<TransferPayload, RegistryError>) -> bool {
        if self.admin_text().len() == 0 {
            r == Err::<TransferPayload, RegistryError>(RegistryError::InvalidConfiguration)
        } else {
            &&& r is Ok
            &&& r->Ok_0.owner@ == self.admin_text()
            &&& r->Ok_0.amount == amount
        }
    }

    fn transfer_to_admin(&self, amount: u128) -> (r: Result<TransferPayload, RegistryError>)
        ensures
            self.transfer_spec(amount, r),
    {
        let (admin, _fee) = self.get_payment_info();
        if admin.as_str().is_empty() {
            Err(RegistryError::InvalidConfiguration)
        } else {
            Ok(TransferPayload { owner: admin, amount })
        }
    }

    /// The transfer that registering a document costs: the full fee, to the
    /// administrator.
    pub fn add_document_transfer(&self) -> (r: Result<TransferPayload, RegistryError>)
        ensures
            self.transfer_spec(self.fee_amount(), r),
    {
        let (_admin, fee) = self.get_payment_info();
        self.transfer_to_admin(fee)
    }

    /// The transfer that verifying a document costs: half the fee, rounded
    /// down, to the administrator.
    pub fn verify_document_transfer(&self) -> (r: Result<TransferPayload, RegistryError>)
        ensures
            self.transfer_spec(self.fee_amount() / 2, r),
    {
        let (_admin, fee) = self.get_payment_info();
        self.transfer_to_admin(fee / 2)
    }

    /// Finishes a paid registration once the ledger's `outcome` is known: the
    /// document is registered only if the transfer was made; otherwise the
    /// payment error is returned and the registry is left as it was.
    pub fn settle_add_document(
        &mut self,
        outcome: TransferOutcome,
        doc_hash: &str,
        doc_name: &str,
        caller: &str,
        created_at: u64,
    ) -> (r: Result<u64, RegistryError>)
        requires
            old(self).wf(),
            old(self).next_id() < u64::MAX,
        ensures
            final(self).wf(),
            outcome is Completed ==> r == Ok::<u64, RegistryError>(old(self).next_id()) && old(self).adds(
                *final(self),
                doc_hash@,
                doc_name@,
                caller@,
                created_at,
            ),
            !(outcome is Completed) ==> r == Err::<u64, RegistryError>(payment_error(outcome)->Some_0)
                && *final(self) == *old(self),
    {
        match payment_failure(outcome) {
            Some(e) => Err(e),
            None => self.add_document(doc_hash, doc_name, caller, created_at),
        }
    }

    /// Finishes a paid verification once the ledger's `outcome` is known: the
    /// lookup is made only if the transfer was made; otherwise the payment
    /// error is returned.
    pub fn settle_verify_document(&self, outcome: TransferOutcome, doc_hash: &str) -> (r: Result<
        Document,
        RegistryError,
    >)
        requires
            self.wf(),
        ensures
            outcome is Completed ==> r == self.verify_spec(doc_hash@),
            !(outcome is Completed) ==> r == Err::<Document, RegistryError>(payment_error(outcome)->Some_0),
    {
        match payment_failure(outcome) {
            Some(e) => Err(e),
            None => self.verify_document(doc_hash),
        }
    }
}

} // verus!
