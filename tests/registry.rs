use docregistry::{check_principal_text, DocReg, RegistryError, TransferOutcome};

const ADMIN: &str = "aaaaa-aa";
const LEDGER: &str = "mxzaz-hqaaa-aaaar-qaada-cai";

fn configured(fee: u128) -> DocReg {
    let mut reg = DocReg::new();
    reg.initialize(ADMIN, fee).unwrap();
    reg
}

#[test]
fn principal_text_is_checked() {
    assert!(check_principal_text(ADMIN));
    assert!(check_principal_text(LEDGER));
    assert!(check_principal_text("2vxsx-fae"));
    assert!(!check_principal_text(""));
    assert!(!check_principal_text("not a principal"));
    assert!(!check_principal_text("aaaaa-ab"));
}

#[test]
fn initialize_rejects_malformed_admin() {
    let mut reg = DocReg::new();
    assert_eq!(reg.initialize("garbage", 100), Err(RegistryError::InvalidConfiguration));
    let (admin, fee) = reg.get_payment_info();
    assert_eq!(admin, "");
    assert_eq!(fee, 0);
    assert_eq!(reg.initialize(LEDGER, 100), Ok(()));
    let (admin, fee) = reg.get_payment_info();
    assert_eq!(admin, LEDGER);
    assert_eq!(fee, 100);
}

#[test]
fn configure_follows_the_validity_given() {
    let mut reg = DocReg::new();
    assert_eq!(reg.configure("x", false, 7), Err(RegistryError::InvalidConfiguration));
    assert_eq!(reg.get_payment_info().0, "");
    assert_eq!(reg.configure(ADMIN, true, 7), Ok(()));
    assert_eq!(reg.get_payment_info(), (ADMIN.to_string(), 7));
}

#[test]
fn transfers_need_a_configured_admin() {
    let reg = DocReg::new();
    assert_eq!(reg.add_document_transfer().unwrap_err(), RegistryError::InvalidConfiguration);
    assert_eq!(reg.verify_document_transfer().unwrap_err(), RegistryError::InvalidConfiguration);
}

#[test]
fn verification_costs_half_the_fee() {
    let reg = configured(101);
    let add = reg.add_document_transfer().unwrap();
    assert_eq!(add.owner, ADMIN);
    assert_eq!(add.amount, 101);
    let verify = reg.verify_document_transfer().unwrap();
    assert_eq!(verify.owner, ADMIN);
    assert_eq!(verify.amount, 50);
}

#[test]
fn count_matches_distinct_hashes() {
    let mut reg = configured(0);
    assert_eq!(reg.get_no_of_docs(), 0);
    reg.add_document("h1", "a", "B", 1).unwrap();
    reg.add_document("h2", "b", "B", 2).unwrap();
    reg.add_document("h1", "c", "C", 3).unwrap();
    reg.add_document("h3", "d", "C", 4).unwrap();
    assert_eq!(reg.get_no_of_docs(), 3);
}

#[test]
fn duplicate_hash_replaces_the_document() {
    let mut reg = configured(0);
    let first = reg.add_document("h1", "a", "B", 1).unwrap();
    let second = reg.add_document("h1", "b", "C", 2).unwrap();
    assert_eq!(first, 0);
    assert_eq!(second, 1);
    assert_eq!(reg.get_user_docs("B"), Vec::<u64>::new());
    assert_eq!(reg.get_user_docs("C"), vec![1]);
    assert_eq!(reg.view_document(0, "B"), Err(RegistryError::AccessDenied));
    let doc = reg.verify_document("h1").unwrap();
    assert_eq!(doc.id, 1);
    assert_eq!(doc.name, "b");
    assert_eq!(doc.owner, "C");
}

#[test]
fn ids_are_not_reused_after_delete() {
    let mut reg = configured(0);
    assert_eq!(reg.add_document("h1", "a", "B", 1), Ok(0));
    assert_eq!(reg.add_document("h2", "b", "B", 1), Ok(1));
    reg.delete_document(1, "B").unwrap();
    assert_eq!(reg.add_document("h3", "c", "B", 1), Ok(2));
    assert_eq!(reg.get_user_docs("B"), vec![0, 2]);
}

#[test]
fn owner_views_added_document() {
    let mut reg = configured(0);
    let id = reg.add_document("h1", "n1", "O", 42).unwrap();
    let doc = reg.view_document(id, "O").unwrap();
    assert_eq!(doc.id, id);
    assert_eq!(doc.hash, "h1");
    assert_eq!(doc.name, "n1");
    assert_eq!(doc.owner, "O");
    assert_eq!(doc.created_at, 42);
    assert_eq!(reg.view_document(id, "P"), Err(RegistryError::AccessDenied));
}

#[test]
fn verify_needs_no_ownership() {
    let mut reg = configured(0);
    assert_eq!(reg.verify_document("h1"), Err(RegistryError::NotFound));
    assert!(!reg.check_document("h1"));
    reg.add_document("h1", "n1", "O", 5).unwrap();
    assert!(reg.check_document("h1"));
    assert_eq!(reg.verify_document("h1").unwrap().hash, "h1");
    let paid = reg.settle_verify_document(TransferOutcome::Completed, "h1").unwrap();
    assert_eq!(paid.owner, "O");
    reg.delete_document(0, "O").unwrap();
    assert_eq!(reg.verify_document("h1"), Err(RegistryError::NotFound));
    assert!(!reg.check_document("h1"));
}

#[test]
fn delete_by_owner_removes_everywhere() {
    let mut reg = configured(0);
    reg.add_document("h1", "n1", "O", 5).unwrap();
    reg.add_document("h2", "n2", "O", 6).unwrap();
    assert_eq!(reg.get_no_of_docs(), 2);
    let doc = reg.delete_document(0, "O").unwrap();
    assert_eq!(doc.hash, "h1");
    assert_eq!(reg.get_user_docs("O"), vec![1]);
    assert!(reg.view_document(0, "O").is_err());
    assert_eq!(reg.verify_document("h1"), Err(RegistryError::NotFound));
    assert_eq!(reg.get_no_of_docs(), 1);
}

#[test]
fn delete_by_other_is_denied() {
    let mut reg = configured(0);
    reg.add_document("h1", "n1", "O", 5).unwrap();
    assert_eq!(reg.delete_document(0, "P"), Err(RegistryError::AccessDenied));
    assert_eq!(reg.delete_document(9, "O"), Err(RegistryError::AccessDenied));
    assert_eq!(reg.get_no_of_docs(), 1);
    assert_eq!(reg.get_user_docs("O"), vec![0]);
}

#[test]
fn failed_payment_changes_nothing() {
    let mut reg = configured(100);
    reg.add_document("h0", "n0", "O", 1).unwrap();
    let r = reg.settle_add_document(TransferOutcome::CallFailed("down".to_string()), "h1", "n1", "O", 2);
    assert_eq!(r, Err(RegistryError::PaymentCallFailed("down".to_string())));
    let r = reg.settle_add_document(TransferOutcome::Rejected("funds".to_string()), "h1", "n1", "O", 2);
    assert_eq!(r, Err(RegistryError::PaymentRejected("funds".to_string())));
    assert_eq!(reg.get_no_of_docs(), 1);
    assert_eq!(reg.get_user_docs("O"), vec![0]);
    assert_eq!(reg.verify_document("h1"), Err(RegistryError::NotFound));
    let v = reg.settle_verify_document(TransferOutcome::Rejected("funds".to_string()), "h0");
    assert_eq!(v, Err(RegistryError::PaymentRejected("funds".to_string())));
    let v = reg.settle_verify_document(TransferOutcome::CallFailed("down".to_string()), "h0");
    assert_eq!(v, Err(RegistryError::PaymentCallFailed("down".to_string())));
    assert_eq!(reg.get_no_of_docs(), 1);
    assert_eq!(reg.add_document("h1", "n1", "O", 3), Ok(1));
}

#[test]
fn paid_registration_scenario() {
    let admin = "2vxsx-fae";
    let mut reg = DocReg::default();
    reg.initialize(admin, 100).unwrap();

    let transfer = reg.add_document_transfer().unwrap();
    assert_eq!(transfer.owner, admin);
    assert_eq!(transfer.amount, 100);
    let id = reg.settle_add_document(TransferOutcome::Completed, "h1", "doc1", "B", 10).unwrap();
    assert_eq!(id, 0);
    assert_eq!(reg.get_no_of_docs(), 1);
    assert_eq!(reg.get_user_docs("B"), vec![0]);

    let transfer = reg.verify_document_transfer().unwrap();
    assert_eq!(transfer.owner, admin);
    assert_eq!(transfer.amount, 50);
    let doc = reg.settle_verify_document(TransferOutcome::Completed, "h1").unwrap();
    assert_eq!(doc.id, 0);
    assert_eq!(doc.hash, "h1");
    assert_eq!(doc.name, "doc1");

    assert_eq!(reg.view_document(0, "C"), Err(RegistryError::AccessDenied));

    let deleted = reg.delete_document(0, "B").unwrap();
    assert_eq!(deleted, doc);
    assert_eq!(reg.get_no_of_docs(), 0);
}
