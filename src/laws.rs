//! Properties that relate several registry operations.

use vstd::prelude::*;

use crate::storage::DocReg;
use crate::types::{Document, RegistryError};

verus! {

/// The hashes of a list of documents, in order.
spec fn hash_seq(docs: Seq<Document>) -> Seq<Seq<char>> {
    docs.map_values(|d: Document| d.hash@)
}

/// In every well-formed registry, the document count equals the number of
/// distinct hashes registered.
pub proof fn lemma_count_is_distinct_hashes(reg: DocReg)
    requires
        reg.wf(),
    ensures
        reg.hashes().finite(),
        reg.count() == reg.hashes().len(),
{
    let hs = hash_seq(reg.docs());
    assert(hs.no_duplicates()) by {
        assert forall|i: int, j: int| 0 <= i < hs.len() && 0 <= j < hs.len() && i != j implies hs[i]
            != hs[j] by {
            if i < j {
                assert(reg.docs()[i].hash@ != reg.docs()[j].hash@);
            } else {
                assert(reg.docs()[j].hash@ != reg.docs()[i].hash@);
            }
        }
    }
    hs.unique_seq_to_set();
    assert(hs.to_set() =~= reg.hashes()) by {
        assert forall|h: Seq<char>| hs.to_set().contains(h) implies reg.has_hash(h) by {
            let i = choose|i: int| 0 <= i < hs.len() && hs[i] == h;
            assert(reg.docs()[i].hash@ == h);
        }
        assert forall|h: Seq<char>| reg.has_hash(h) implies hs.to_set().contains(h) by {
            let i = choose|i: int| 0 <= i < reg.docs().len() && #[trigger] reg.docs()[i].hash@ == h;
            assert(hs[i] == h);
        }
    }
}

/// In a well-formed registry the three indices agree: each registered hash
/// leads to a document with that hash whose id leads back to the hash, and
/// each id in an owner's set leads, through its hash, to a document with that
/// id and that owner.
pub proof fn lemma_indices_consistent(reg: DocReg)
    requires
        reg.wf(),
    ensures
        forall|h: Seq<char>|
            #[trigger] reg.hash_to_document().contains_key(h) ==> {
                let d = reg.hash_to_document()[h];
                &&& d.hash@ == h
                &&& reg.id_to_hash().contains_key(d.id)
                &&& reg.id_to_hash()[d.id] == h
            },
        forall|o: Seq<char>, id: u64|
            #[trigger] reg.owned_ids(o).contains(id) ==> {
                &&& reg.id_to_hash().contains_key(id)
                &&& reg.hash_to_document().contains_key(reg.id_to_hash()[id])
                &&& reg.hash_to_document()[reg.id_to_hash()[id]].id == id
                &&& reg.hash_to_document()[reg.id_to_hash()[id]].owner@ == o
            },
{
    assert forall|h: Seq<char>| #[trigger] reg.hash_to_document().contains_key(h) implies {
        let d = reg.hash_to_document()[h];
        &&& d.hash@ == h
        &&& reg.id_to_hash().contains_key(d.id)
        &&& reg.id_to_hash()[d.id] == h
    } by {
        reg.lemma_index_of(reg.hash_index(h));
    }
    assert forall|o: Seq<char>, id: u64| #[trigger] reg.owned_ids(o).contains(id) implies {
        &&& reg.id_to_hash().contains_key(id)
        &&& reg.hash_to_document().contains_key(reg.id_to_hash()[id])
        &&& reg.hash_to_document()[reg.id_to_hash()[id]].id == id
        &&& reg.hash_to_document()[reg.id_to_hash()[id]].owner@ == o
    } by {
        let k = choose|k: int|
            0 <= k < reg.docs().len() && #[trigger] reg.docs()[k].id == id && reg.docs()[k].owner@ == o;
        reg.lemma_index_of(k);
    }
}

/// Registering a document with hash `h` adds `h` to the registered hashes,
/// and no other hash comes or goes.
pub proof fn lemma_add_inserts_hash(
    before: DocReg,
    after: DocReg,
    h: Seq<char>,
    n: Seq<char>,
    o: Seq<char>,
    t: u64,
)
    requires
        before.wf(),
        before.adds(after, h, n, o, t),
    ensures
        after.hashes() == before.hashes().insert(h),
{
    let kept = before.without_hash(h);
    let last = after.docs().len() - 1;
    assert(after.docs()[last].hash@ == h);
    assert forall|x: Seq<char>| after.hashes().contains(x) <==> before.hashes().contains(x) || x == h by {
        if x == h {
            assert(after.has_hash(x));
        } else {
            if after.has_hash(x) {
                let k = choose|k: int| 0 <= k < after.docs().len() && #[trigger] after.docs()[k].hash@ == x;
                assert(k < last);
                assert(after.docs()[k] == kept[k]);
                if before.has_hash(h) {
                    let i = before.hash_index(h);
                    let k0 = if k < i { k } else { k + 1 };
                    assert(kept[k] == before.docs()[k0]);
                }
                assert(before.has_hash(x));
            }
            if before.has_hash(x) {
                let k = choose|k: int| 0 <= k < before.docs().len() && #[trigger] before.docs()[k].hash@ == x;
                if before.has_hash(h) {
                    let i = before.hash_index(h);
                    assert(k != i);
                    let k1 = if k < i { k } else { k - 1 };
                    assert(kept[k1] == before.docs()[k]);
                    assert(after.docs()[k1] == kept[k1]);
                } else {
                    assert(after.docs()[k] == kept[k]);
                }
                assert(after.has_hash(x));
            }
        }
    }
    assert(after.hashes() =~= before.hashes().insert(h));
}

/// For every sequence of registrations that starts from an empty registry,
/// the registered hashes are the distinct hashes that were added, and the
/// document count is their number.
pub proof fn law_count_after_registrations(
    regs: Seq<DocReg>,
    hashes: Seq<Seq<char>>,
    names: Seq<Seq<char>>,
    owners: Seq<Seq<char>>,
    times: Seq<u64>,
)
    requires
        regs.len() == hashes.len() + 1,
        names.len() == hashes.len(),
        owners.len() == hashes.len(),
        times.len() == hashes.len(),
        regs[0].docs().len() == 0,
        forall|k: int| 0 <= k < regs.len() ==> #[trigger] regs[k].wf(),
        forall|k: int|
            0 <= k < hashes.len() ==> #[trigger] regs[k].adds(
                regs[k + 1],
                hashes[k],
                names[k],
                owners[k],
                times[k],
            ),
    ensures
        regs.last().hashes() == hashes.to_set(),
        regs.last().count() == hashes.to_set().len(),
    decreases hashes.len(),
{
    let m = hashes.len();
    if m == 0 {
        assert(regs.last().hashes() =~= hashes.to_set());
    } else {
        let k = m - 1;
        law_count_after_registrations(
            regs.drop_last(),
            hashes.drop_last(),
            names.drop_last(),
            owners.drop_last(),
            times.drop_last(),
        );
        assert(regs.drop_last().last() == regs[k]);
        assert(regs[k].adds(regs[k + 1], hashes[k], names[k], owners[k], times[k]));
        lemma_add_inserts_hash(regs[k], regs[k + 1], hashes[k], names[k], owners[k], times[k]);
        assert(hashes =~= hashes.drop_last() + seq![hashes[k]]);
        Seq::lemma_to_set_insert_commutes(hashes.drop_last(), hashes[k]);
    }
    lemma_count_is_distinct_hashes(regs.last());
}

/// After `o` registers hash `h` under name `n`, `o` can view the new document,
/// which holds that hash, name and owner; any other caller is denied access.
pub proof fn law_owner_views_added_document(
    before: DocReg,
    after: DocReg,
    h: Seq<char>,
    n: Seq<char>,
    o: Seq<char>,
    t: u64,
    other: Seq<char>,
)
    requires
        before.wf(),
        after.wf(),
        before.adds(after, h, n, o, t),
        other != o,
    ensures
        after.view_spec(before.next_id(), o) is Ok,
        after.view_spec(before.next_id(), o)->Ok_0.has_fields(before.next_id(), n, h, t, o),
        after.view_spec(before.next_id(), other) == Err::<Document, RegistryError>(
            RegistryError::AccessDenied,
        ),
{
    let id = before.next_id();
    let last = after.docs().len() - 1;
    after.lemma_index_of(last);
    assert(after.owns(o, id));
    if after.owns(other, id) {
        let k = choose|k: int|
            0 <= k < after.docs().len() && #[trigger] after.docs()[k].id == id && after.docs()[k].owner@
                == other;
        if k < last {
            assert(after.docs()[k].id < after.docs()[last].id);
        }
    }
}

/// Once hash `h` is registered, verifying it succeeds, for any caller, with
/// the document just registered; before a hash is registered, verifying it
/// is `NotFound`.
pub proof fn law_verify_after_add(
    before: DocReg,
    after: DocReg,
    h: Seq<char>,
    n: Seq<char>,
    o: Seq<char>,
    t: u64,
)
    requires
        before.wf(),
        after.wf(),
        before.adds(after, h, n, o, t),
    ensures
        after.verify_spec(h) is Ok,
        after.verify_spec(h)->Ok_0.has_fields(before.next_id(), n, h, t, o),
        !before.has_hash(h) ==> before.verify_spec(h) == Err::<Document, RegistryError>(
            RegistryError::NotFound,
        ),
{
    after.lemma_index_of(after.docs().len() - 1);
}

/// Deleting document `id` by its owner takes `id` out of the owner's
/// documents and the document's hash out of the registry: verifying that
/// hash is then `NotFound`, viewing `id` is refused, and the count drops by one.
pub proof fn law_delete_removes(before: DocReg, after: DocReg, id: u64, owner: Seq<char>)
    requires
        before.wf(),
        after.wf(),
        before.owns(owner, id),
        after.docs() == before.docs().remove(before.id_index(id)),
    ensures
        !after.owned_ids(owner).contains(id),
        after.verify_spec(before.docs()[before.id_index(id)].hash@) == Err::<Document, RegistryError>(
            RegistryError::NotFound,
        ),
        after.view_spec(id, owner) == Err::<Document, RegistryError>(RegistryError::AccessDenied),
        after.count() == before.count() - 1,
{
    let j = before.id_index(id);
    let h = before.docs()[j].hash@;
    assert(before.has_id(id));
    assert forall|k: int| 0 <= k < after.docs().len() implies #[trigger] after.docs()[k].id != id
        && after.docs()[k].hash@ != h by {
        let k0 = if k < j { k } else { k + 1 };
        assert(after.docs()[k] == before.docs()[k0]);
        if k0 < j {
            assert(before.docs()[k0].id < before.docs()[j].id);
            assert(before.docs()[k0].hash@ != before.docs()[j].hash@);
        } else {
            assert(before.docs()[j].id < before.docs()[k0].id);
            assert(before.docs()[j].hash@ != before.docs()[k0].hash@);
        }
    }
}

} // verus!
