//! The registry store: the documents, indexed by id, by hash and by owner, and
//! the fee configuration.
//!
//! The documents are held in one list, in order of creation. The three
//! indices (id to hash, hash to document, owner to ids) are views of that list,
//! so they cannot drift apart; the list's invariant keeps ids and hashes unique.

use vstd::prelude::*;

use crate::principal::{check_principal_text, principal_text_valid};
use crate::types::{Document, RegistryError};

verus! {

/// The registry of documents and its fee configuration.
pub struct DocReg {
    admin: String,
    fee: u128,
    no_of_documents: u64,
    next_id: u64,
    documents: Vec<Document>,
}

impl DocReg {
    /// The live documents, in order of creation.
    pub closed spec fn docs(self) -> Seq<Document> {
        self.documents@
    }

    /// The administrator's principal text; empty until the registry is initialized.
    pub closed spec fn admin_text(self) -> Seq<char> {
        self.admin@
    }

    /// The fee charged for registering a document.
    pub closed spec fn fee_amount(self) -> u128 {
        self.fee
    }

    /// The running count of live documents.
    pub closed spec fn count(self) -> u64 {
        self.no_of_documents
    }

    /// The id that the next registered document receives.
    pub closed spec fn next_id(self) -> u64 {
        self.next_id
    }

    /// The registry's invariant: the count is the number of documents, ids
    /// increase strictly in order of creation and stay below the next id,
    /// hashes are unique, and a configured administrator is a principal.
    pub open spec fn wf(self) -> bool {
        &&& self.count() as int == self.docs().len()
        &&& self.count() <= self.next_id()
        &&& forall|i: int, j: int|
            0 <= i < j < self.docs().len() ==> #[trigger] self.docs()[i].id < #[trigger] self.docs()[j].id
        &&& forall|i: int, j: int|
            0 <= i < j < self.docs().len() ==> #[trigger] self.docs()[i].hash@ != #[trigger] self.docs()[j].hash@
        &&& forall|i: int| 0 <= i < self.docs().len() ==> #[trigger] self.docs()[i].id < self.next_id()
        &&& self.admin_text().len() == 0 || principal_text_valid(self.admin_text())
    }

    /// Some document has hash `h`.
    pub open spec fn has_hash(self, h: Seq<char>) -> bool {
        exists|i: int| 0 <= i < self.docs().len() && #[trigger] self.docs()[i].hash@ == h
    }

    /// The position of the document with hash `h`.
    pub open spec fn hash_index(self, h: Seq<char>) -> int {
        choose|i: int| 0 <= i < self.docs().len() && #[trigger] self.docs()[i].hash@ == h
    }

    /// Some document has id `id`.
    pub open spec fn has_id(self, id: u64) -> bool {
        exists|i: int| 0 <= i < self.docs().len() && #[trigger] self.docs()[i].id == id
    }

    /// The position of the document with id `id`.
    pub open spec fn id_index(self, id: u64) -> int {
        choose|i: int| 0 <= i < self.docs().len() && #[trigger] self.docs()[i].id == id
    }

    /// The document with id `id` exists and was created by `owner`.
    pub open spec fn owns(self, owner: Seq<char>, id: u64) -> bool {
        exists|i: int|
            0 <= i < self.docs().len() && #[trigger] self.docs()[i].id == id && self.docs()[i].owner@
                == owner
    }

    /// The set of hashes registered.
    pub open spec fn hashes(self) -> Set<Seq<char>> {
        Set::new(|h: Seq<char>| self.has_hash(h))
    }

    /// The id-to-hash index.
    pub open spec fn id_to_hash(self) -> Map<u64, Seq<char>> {
        Map::new(|id: u64| self.has_id(id), |id: u64| self.docs()[self.id_index(id)].hash@)
    }

    /// The hash-to-document index.
    pub open spec fn hash_to_document(self) -> Map<Seq<char>, Document> {
        Map::new(|h: Seq<char>| self.has_hash(h), |h: Seq<char>| self.docs()[self.hash_index(h)])
    }

    /// The owner-to-ids index: the ids of the documents that `owner` created.
    pub open spec fn owned_ids(self, owner: Seq<char>) -> Set<u64> {
        Set::new(|id: u64| self.owns(owner, id))
    }

    /// What verifying hash `h` gives: the document with that hash, or `NotFound`.
    pub open spec fn verify_spec(self, h: Seq<char>) -> Result<Document, RegistryError> {
        if self.has_hash(h) {
            Ok(self.docs()[self.hash_index(h)])
        } else {
            Err(RegistryError::NotFound)
        }
    }

    /// What viewing (or deleting) id `id` as `caller` gives. Ownership is
    /// checked first: a caller who does not own `id` is denied access.
    pub open spec fn view_spec(self, id: u64, caller: Seq<char>) -> Result<Document, RegistryError> {
        if self.owns(caller, id) {
            Ok(self.docs()[self.id_index(id)])
        } else {
            Err(RegistryError::AccessDenied)
        }
    }

    /// The documents with any document of hash `h` taken out.
    pub open spec fn without_hash(self, h: Seq<char>) -> Seq<Document> {
        if self.has_hash(h) {
            self.docs().remove(self.hash_index(h))
        } else {
            self.docs()
        }
    }

    /// `next` is this registry after registering a document with hash `h`,
    /// name `n`, owner `o` and creation time `t`: any document with hash `h`
    /// is taken out, the new one is appended under the next id, and the id
    /// counter advances.
    pub open spec fn adds(self, next: DocReg, h: Seq<char>, n: Seq<char>, o: Seq<char>, t: u64) -> bool {
        &&& next.docs().len() == self.without_hash(h).len() + 1
        &&& next.docs().drop_last() == self.without_hash(h)
        &&& next.docs().last().has_fields(self.next_id(), n, h, t, o)
        &&& next.next_id() == self.next_id() + 1
        &&& next.admin_text() == self.admin_text()
        &&& next.fee_amount() == self.fee_amount()
    }

    /// In a well-formed registry, the document at position `i` is the one
    /// that its hash and its id lead to.
    pub proof fn lemma_index_of(self, i: int)
        requires
            self.wf(),
            0 <= i < self.docs().len(),
        ensures
            self.has_hash(self.docs()[i].hash@),
            self.hash_index(self.docs()[i].hash@) == i,
            self.has_id(self.docs()[i].id),
            self.id_index(self.docs()[i].id) == i,
    {
        let h = self.docs()[i].hash@;
        let id = self.docs()[i].id;
        assert(self.has_hash(h));
        assert(self.has_id(id));
        let j = self.hash_index(h);
        let k = self.id_index(id);
        if j < i {
            assert(self.docs()[j].hash@ != self.docs()[i].hash@);
        } else if i < j {
            assert(self.docs()[i].hash@ != self.docs()[j].hash@);
        }
        if k < i {
            assert(self.docs()[k].id < self.docs()[i].id);
        } else if i < k {
            assert(self.docs()[i].id < self.docs()[k].id);
        }
    }

    /// An empty, unconfigured registry.
    pub fn new() -> (r: DocReg)
        ensures
            r.wf(),
            r.docs() == Seq::<Document>::empty(),
            r.admin_text() == Seq::<char>::empty(),
            r.fee_amount() == 0,
            r.count() == 0,
            r.next_id() == 0,
    {
        DocReg {
            admin: String::new(),
            fee: 0,
            no_of_documents: 0,
            next_id: 0,
            documents: Vec::new(),
        }
    }

    /// The position of the document with hash `h`, if any.
    fn find_hash(&self, h: &str) -> (r: Option<usize>)
        requires
            self.wf(),
        ensures
            match r {
                Some(i) => i < self.docs().len() && self.hash_index(h@) == i && self.has_hash(h@),
                None => !self.has_hash(h@),
            },
    {
        let hs = h.to_owned();
        let mut i: usize = 0;
        while i < self.documents.len()
            invariant
                self.wf(),
                hs@ == h@,
                i <= self.documents@.len(),
                forall|k: int| 0 <= k < i ==> #[trigger] self.documents@[k].hash@ != h@,
            decreases self.documents@.len() - i,
        {
            if self.documents[i].hash == hs {
                proof {
                    self.lemma_index_of(i as int);
                }
                return Some(i);
            }
            i = i + 1;
        }
        None
    }

    /// The position of the document with id `id`, if any.
    fn find_id(&self, id: u64) -> (r: Option<usize>)
        requires
            self.wf(),
        ensures
            match r {
                Some(i) => i < self.docs().len() && self.id_index(id) == i && self.has_id(id)
                    && self.docs()[i as int].id == id,
                None => !self.has_id(id),
            },
    {
        let mut i: usize = 0;
        while i < self.documents.len()
            invariant
                self.wf(),
                i <= self.documents@.len(),
                forall|k: int| 0 <= k < i ==> #[trigger] self.documents@[k].id != id,
            decreases self.documents@.len() - i,
        {
            if self.documents[i].id == id {
                proof {
                    self.lemma_index_of(i as int);
                }
                return Some(i);
            }
            i = i + 1;
        }
        None
    }

    /// Whether `caller` owns the document with id `id`; if so, its position.
    fn find_owned(&self, id: u64, caller: &str) -> (r: Option<usize>)
        requires
            self.wf(),
        ensures
            match r {
                Some(i) => i < self.docs().len() && self.id_index(id) == i && self.owns(caller@, id),
                None => !self.owns(caller@, id),
            },
    {
        match self.find_id(id) {
            Some(i) => {
                let cs = caller.to_owned();
                if self.documents[i].owner == cs {
                    Some(i)
                } else {
                    proof {
                        if self.owns(caller@, id) {
                            let k = choose|k: int|
                                0 <= k < self.docs().len() && #[trigger] self.docs()[k].id == id
                                    && self.docs()[k].owner@ == caller@;
                            self.lemma_index_of(k);
                        }
                    }
                    None
                }
            },
            None => None,
        }
    }

    /// The document with hash `doc_hash`, for any caller.
    pub fn verify_document(&self, doc_hash: &str) -> (r: Result<Document, RegistryError>)
        requires
            self.wf(),
        ensures
            r == self.verify_spec(doc_hash@),
    {
        match self.find_hash(doc_hash) {
            Some(i) => Ok(self.documents[i].copy()),
            None => Err(RegistryError::NotFound),
        }
    }

    /// Whether a document with hash `doc_hash` is registered.
    pub fn check_document(&self, doc_hash: &str) -> (r: bool)
        requires
            self.wf(),
        ensures
            r == self.has_hash(doc_hash@),
    {
        self.find_hash(doc_hash).is_some()
    }

    /// The document with id `doc_id`, for its owner `caller` only.
    pub fn view_document(&self, doc_id: u64, caller: &str) -> (r: Result<Document, RegistryError>)
        requires
            self.wf(),
        ensures
            r == self.view_spec(doc_id, caller@),
    {
        match self.find_owned(doc_id, caller) {
            Some(i) => Ok(self.documents[i].copy()),
            None => Err(RegistryError::AccessDenied),
        }
    }

    /// Registers a document with hash `doc_hash` and name `doc_name`, created
    /// by `owner` at time `created_at`, under the next id, which it returns.
    ///
    /// Hashes stay unique: a document already registered under `doc_hash` is
    /// replaced, and its id leaves every index with it.
    pub fn add_document(&mut self, doc_hash: &str, doc_name: &str, owner: &str, created_at: u64) -> (r:
        Result<u64, RegistryError>)
        requires
            old(self).wf(),
            old(self).next_id() < u64::MAX,
        ensures
            final(self).wf(),
            r == Ok::<u64, RegistryError>(old(self).next_id()),
            old(self).adds(*final(self), doc_hash@, doc_name@, owner@, created_at),
    {
        let id = self.next_id;
        let found = self.find_hash(doc_hash);
        match found {
            Some(i) => {
                self.documents.remove(i);
            },
            None => {
                self.no_of_documents = self.no_of_documents + 1;
            },
        }
        let ghost kept = self.documents@;
        proof {
            assert(kept == old(self).without_hash(doc_hash@));
            assert forall|k: int| 0 <= k < kept.len() implies #[trigger] kept[k].hash@ != doc_hash@ by {
                match found {
                    Some(i) => {
                        if k < i {
                            assert(kept[k] == old(self).docs()[k]);
                            assert(old(self).docs()[k].hash@ != old(self).docs()[i as int].hash@);
                        } else {
                            assert(kept[k] == old(self).docs()[k + 1]);
                            assert(old(self).docs()[i as int].hash@ != old(self).docs()[k + 1].hash@);
                        }
                    },
                    None => {
                        assert(old(self).docs()[k].hash@ == doc_hash@ ==> old(self).has_hash(doc_hash@));
                    },
                }
            }
            assert forall|a: int, b: int| 0 <= a < b < kept.len() implies #[trigger] kept[a].id
                < #[trigger] kept[b].id && kept[a].hash@ != kept[b].hash@ && kept[b].id < id by {
                match found {
                    Some(i) => {
                        let a0 = if a < i { a } else { a + 1 };
                        let b0 = if b < i { b } else { b + 1 };
                        assert(kept[a] == old(self).docs()[a0]);
                        assert(kept[b] == old(self).docs()[b0]);
                        assert(old(self).docs()[a0].id < old(self).docs()[b0].id);
                        assert(old(self).docs()[a0].hash@ != old(self).docs()[b0].hash@);
                        assert(old(self).docs()[b0].id < id);
                    },
                    None => {
                        assert(kept[b].id < id);
                    },
                }
            }
            assert forall|k: int| 0 <= k < kept.len() implies #[trigger] kept[k].id < id by {
                match found {
                    Some(i) => {
                        let k0 = if k < i { k } else { k + 1 };
                        assert(kept[k] == old(self).docs()[k0]);
                    },
                    None => {},
                }
            }
        }
        let document = Document {
            id,
            name: doc_name.to_owned(),
            hash: doc_hash.to_owned(),
            created_at,
            owner: owner.to_owned(),
        };
        self.documents.push(document);
        self.next_id = id + 1;
        proof {
            assert(self.documents@.drop_last() == kept);
            assert forall|a: int, b: int| 0 <= a < b < self.docs().len() implies #[trigger] self.docs()[a].id
                < #[trigger] self.docs()[b].id && self.docs()[a].hash@ != self.docs()[b].hash@ by {
                assert(self.docs()[a] == kept[a]);
                if b < kept.len() {
                    assert(self.docs()[b] == kept[b]);
                } else {
                    assert(kept[a].id < id);
                }
            }
            assert forall|k: int| 0 <= k < self.docs().len() implies #[trigger] self.docs()[k].id
                < self.next_id() by {
                if k < kept.len() {
                    assert(self.docs()[k] == kept[k]);
                }
            }
        }
        Ok(id)
    }

    /// Deletes the document with id `doc_id` for its owner `caller`, and
    /// returns it. A caller who does not own it is denied, and nothing changes.
    pub fn delete_document(&mut self, doc_id: u64, caller: &str) -> (r: Result<Document, RegistryError>)
        requires
            old(self).wf(),
        ensures
            final(self).wf(),
            r == old(self).view_spec(doc_id, caller@),
            old(self).owns(caller@, doc_id) ==> final(self).docs() == old(self).docs().remove(
                old(self).id_index(doc_id),
            ) && final(self).count() == old(self).count() - 1,
            !old(self).owns(caller@, doc_id) ==> *final(self) == *old(self),
            final(self).next_id() == old(self).next_id(),
            final(self).admin_text() == old(self).admin_text(),
            final(self).fee_amount() == old(self).fee_amount(),
    {
        match self.find_owned(doc_id, caller) {
            Some(i) => {
                let document = self.documents.remove(i);
                self.no_of_documents = self.no_of_documents - 1;
                proof {
                    let d = self.docs();
                    let o = old(self).docs();
                    assert forall|a: int, b: int| 0 <= a < b < d.len() implies #[trigger] d[a].id
                        < #[trigger] d[b].id && d[a].hash@ != d[b].hash@ by {
                        let a0 = if a < i { a } else { a + 1 };
                        let b0 = if b < i { b } else { b + 1 };
                        assert(d[a] == o[a0]);
                        assert(d[b] == o[b0]);
                        assert(o[a0].id < o[b0].id);
                        assert(o[a0].hash@ != o[b0].hash@);
                    }
                    assert forall|k: int| 0 <= k < d.len() implies #[trigger] d[k].id < self.next_id() by {
                        let k0 = if k < i { k } else { k + 1 };
                        assert(d[k] == o[k0]);
                    }
                }
                Ok(document)
            },
            None => Err(RegistryError::AccessDenied),
        }
    }

    /// The ids of the documents that `user` owns, in order of creation.
    pub fn get_user_docs(&self, user: &str) -> (r: Vec<u64>)
        requires
            self.wf(),
        ensures
            forall|id: u64| #[trigger] r@.contains(id) <==> self.owned_ids(user@).contains(id),
            r@.no_duplicates(),
    {
        let us = user.to_owned();
        let mut ids: Vec<u64> = Vec::new();
        let mut i: usize = 0;
        while i < self.documents.len()
            invariant
                self.wf(),
                us@ == user@,
                i <= self.documents@.len(),
                forall|id: u64|
                    #[trigger] ids@.contains(id) <==> exists|k: int|
                        0 <= k < i && #[trigger] self.documents@[k].id == id && self.documents@[k].owner@
                            == user@,
                forall|a: int, b: int| 0 <= a < b < ids@.len() ==> #[trigger] ids@[a] < #[trigger] ids@[b],
                forall|a: int|
                    0 <= a < ids@.len() && i < self.documents@.len() ==> #[trigger] ids@[a]
                        < self.documents@[i as int].id,
            decreases self.documents@.len() - i,
        {
            let ghost before = ids@;
            let id = self.documents[i].id;
            if self.documents[i].owner == us {
                ids.push(id);
                proof {
                    assert forall|x: u64| #[trigger] ids@.contains(x) <==> (before.contains(x) || x == id) by {
                        if ids@.contains(x) {
                            let j = choose|j: int| 0 <= j < ids@.len() && ids@[j] == x;
                            if j < before.len() {
                                assert(before[j] == x);
                            }
                        }
                        if before.contains(x) {
                            let j = choose|j: int| 0 <= j < before.len() && before[j] == x;
                            assert(ids@[j] == x);
                        }
                        if x == id {
                            assert(ids@[before.len() as int] == x);
                        }
                    }
                }
            }
            proof {
                assert forall|x: u64|
                    #[trigger] ids@.contains(x) <==> exists|k: int|
                        0 <= k < i + 1 && #[trigger] self.documents@[k].id == x && self.documents@[k].owner@
                            == user@ by {
                    if exists|k: int|
                        0 <= k < i + 1 && #[trigger] self.documents@[k].id == x && self.documents@[k].owner@
                            == user@ {
                        let k = choose|k: int|
                            0 <= k < i + 1 && #[trigger] self.documents@[k].id == x
                                && self.documents@[k].owner@ == user@;
                        if k < i {
                            assert(before.contains(x));
                        }
                    }
                    if before.contains(x) {
                        let k = choose|k: int|
                            0 <= k < i && #[trigger] self.documents@[k].id == x && self.documents@[k].owner@
                                == user@;
                        assert(0 <= k < i + 1);
                    }
                }
                if i + 1 < self.documents@.len() {
                    assert(self.documents@[i as int].id < self.documents@[i + 1].id);
                }
            }
            i = i + 1;
        }
        proof {
            assert forall|x: u64| #[trigger] ids@.contains(x) <==> self.owned_ids(user@).contains(x) by {
                if self.owns(user@, x) {
                    let k = choose|k: int|
                        0 <= k < self.docs().len() && #[trigger] self.docs()[k].id == x && self.docs()[k].owner@
                            == user@;
                    assert(self.documents@[k].id == x);
                }
            }
            assert forall|a: int, b: int| 0 <= a < ids@.len() && 0 <= b < ids@.len() && a != b implies ids@[a]
                != ids@[b] by {
                if a < b {
                    assert(ids@[a] < ids@[b]);
                } else {
                    assert(ids@[b] < ids@[a]);
                }
            }
        }
        ids
    }

    /// The number of live documents.
    pub fn get_no_of_docs(&self) -> (r: u64)
        requires
            self.wf(),
        ensures
            r == self.count(),
            r == self.docs().len(),
    {
        self.no_of_documents
    }

    /// The id that the next registered document will receive. Once it reaches
    /// `u64::MAX` no further document can be registered.
    pub fn get_next_id(&self) -> (r: u64)
        ensures
            r == self.next_id(),
    {
        self.next_id
    }

    /// The administrator's principal text and the registration fee.
    pub fn get_payment_info(&self) -> (r: (String, u128))
        ensures
            r.0@ == self.admin_text(),
            r.1 == self.fee_amount(),
    {
        (self.admin.clone(), self.fee)
    }

    /// Sets the administrator and the fee, given whether `admin` is a
    /// principal's text (`admin_valid`). A malformed administrator is refused
    /// and nothing changes.
    pub fn configure(&mut self, admin: &str, admin_valid: bool, fee: u128) -> (r: Result<(), RegistryError>)
        requires
            old(self).wf(),
            admin_valid ==> principal_text_valid(admin@),
        ensures
            final(self).wf(),
            admin_valid ==> r == Ok::<(), RegistryError>(()) && final(self).admin_text() == admin@
                && final(self).fee_amount() == fee && final(self).docs() == old(self).docs()
                && final(self).count() == old(self).count() && final(self).next_id() == old(self).next_id(),
            !admin_valid ==> r == Err::<(), RegistryError>(RegistryError::InvalidConfiguration) && *final(self)
                == *old(self),
    {
        if admin_valid {
            self.admin = admin.to_owned();
            self.fee = fee;
            Ok(())
        } else {
            Err(RegistryError::InvalidConfiguration)
        }
    }

    /// Sets the administrator, who receives the fees, and the registration
    /// fee. An administrator text that is not a principal is refused with
    /// `InvalidConfiguration`, and nothing changes.
    pub fn initialize(&mut self, admin: &str, fee: u128) -> (r: Result<(), RegistryError>)
        requires
            old(self).wf(),
        ensures
            final(self).wf(),
            r is Ok <==> principal_text_valid(admin@),
            r is Ok ==> final(self).admin_text() == admin@ && final(self).fee_amount() == fee
                && final(self).docs() == old(self).docs() && final(self).count() == old(self).count()
                && final(self).next_id() == old(self).next_id(),
            r is Err ==> r == Err::<(), RegistryError>(RegistryError::InvalidConfiguration) && *final(self)
                == *old(self),
    {
        let valid = check_principal_text(admin);
        self.configure(admin, valid, fee)
    }
}

impl Default for DocReg {
    fn default() -> (r: DocReg)
        ensures
            r.wf(),
            r.docs() == Seq::<Document>::empty(),
            r.admin_text() == Seq::<char>::empty(),
            r.fee_amount() == 0,
            r.next_id() == 0,
    {
        DocReg::new()
    }
}

} // verus!
