//! The blob store of a validator: content-addressed, written once, never
//! emptied.

use vstd::prelude::*;

use crate::chain::BlobId;

verus! {

/// The blobs that a validator holds, by identifier.
pub struct BlobStore {
    ids: Vec<BlobId>,
}

/// Whether `blob_id` is one of `ids`.
pub fn holds(ids: &Vec<BlobId>, blob_id: &BlobId) -> (held: bool)
    ensures
        held == ids@.contains(*blob_id),
{
    let mut i: usize = 0;
    while i < ids.len()
        invariant
            i <= ids@.len(),
            forall|j: int| 0 <= j < i ==> ids@[j] != *blob_id,
        decreases ids@.len() - i,
    {
        if ids[i].is(blob_id) {
            return true;
        }
        i += 1;
    }
    false
}

/// The blobs of `wanted` that are not in `held`, in their order.
pub open spec fn missing_from(held: Set<BlobId>, wanted: Seq<BlobId>) -> Seq<BlobId>
    decreases wanted.len(),
{
    if wanted.len() == 0 {
        Seq::empty()
    } else if held.contains(wanted.last()) {
        missing_from(held, wanted.drop_last())
    } else {
        missing_from(held, wanted.drop_last()).push(wanted.last())
    }
}

/// Nothing is missing exactly when everything wanted is held.
pub proof fn lemma_nothing_missing(held: Set<BlobId>, wanted: Seq<BlobId>)
    ensures
        missing_from(held, wanted).len() == 0 <==> forall|i: int|
            0 <= i < wanted.len() ==> held.contains(#[trigger] wanted[i]),
    decreases wanted.len(),
{
    if wanted.len() > 0 {
        lemma_nothing_missing(held, wanted.drop_last());
        assert(wanted.last() == wanted[wanted.len() - 1]);
        if missing_from(held, wanted).len() == 0 {
            assert forall|i: int| 0 <= i < wanted.len() implies held.contains(
                #[trigger] wanted[i],
            ) by {
                if i < wanted.len() - 1 {
                    assert(wanted.drop_last()[i] == wanted[i]);
                }
            }
        }
        if forall|i: int| 0 <= i < wanted.len() ==> held.contains(#[trigger] wanted[i]) {
            assert forall|i: int| 0 <= i < wanted.drop_last().len() implies held.contains(
                #[trigger] wanted.drop_last()[i],
            ) by {
                assert(wanted.drop_last()[i] == wanted[i]);
            }
        }
    }
}

impl BlobStore {
    /// The identifiers of the blobs held.
    pub closed spec fn view(&self) -> Set<BlobId> {
        self.ids@.to_set()
    }

    /// A store without blobs.
    pub fn new() -> (store: BlobStore)
        ensures
            store@ == Set::<BlobId>::empty(),
    {
        let store = BlobStore { ids: Vec::new() };
        assert(store.ids@.to_set() =~= Set::<BlobId>::empty());
        store
    }

    /// Whether the blob `blob_id` is held and can be read.
    pub fn read_blob(&self, blob_id: &BlobId) -> (held: bool)
        ensures
            held == self@.contains(*blob_id),
    {
        holds(&self.ids, blob_id)
    }

    /// Holds the blob `blob_id` from now on. Writing a blob again changes
    /// nothing.
    pub fn write_blob(&mut self, blob_id: BlobId)
        ensures
            final(self)@ == old(self)@.insert(blob_id),
    {
        if !holds(&self.ids, &blob_id) {
            self.ids.push(blob_id);
            assert(self.ids@.to_set() =~= old(self).ids@.to_set().insert(blob_id)) by {
                assert forall|id: BlobId|
                    self.ids@.to_set().contains(id) <==> old(self).ids@.to_set().insert(
                        blob_id,
                    ).contains(id) by {
                    if self.ids@.contains(id) {
                        let at = choose|at: int| 0 <= at < self.ids@.len() && self.ids@[at] == id;
                        if at < old(self).ids@.len() {
                            assert(old(self).ids@[at] == id);
                        }
                    }
                    if old(self).ids@.contains(id) {
                        let at = choose|at: int|
                            0 <= at < old(self).ids@.len() && old(self).ids@[at] == id;
                        assert(self.ids@[at] == id);
                    }
                    if id == blob_id {
                        assert(self.ids@[self.ids@.len() - 1] == id);
                    }
                }
            }
        } else {
            assert(self.ids@.to_set() =~= self.ids@.to_set().insert(blob_id));
        }
    }

    /// The blobs of `blob_ids` that are not held, in their order.
    pub fn missing_blobs(&self, blob_ids: &Vec<BlobId>) -> (missing: Vec<BlobId>)
        ensures
            missing@ == missing_from(self@, blob_ids@),
    {
        let mut missing: Vec<BlobId> = Vec::new();
        let mut i: usize = 0;
        assert(blob_ids@.take(0) =~= Seq::<BlobId>::empty());
        while i < blob_ids.len()
            invariant
                i <= blob_ids@.len(),
                missing@ == missing_from(self@, blob_ids@.take(i as int)),
            decreases blob_ids@.len() - i,
        {
            proof {
                assert(blob_ids@.take(i + 1).drop_last() =~= blob_ids@.take(i as int));
                assert(blob_ids@.take(i + 1).last() == blob_ids@[i as int]);
            }
            if !holds(&self.ids, &blob_ids[i]) {
                missing.push(blob_ids[i]);
            }
            i += 1;
        }
        assert(blob_ids@.take(i as int) =~= blob_ids@);
        missing
    }
}

} // verus!
