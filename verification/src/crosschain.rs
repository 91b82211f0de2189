//! Messages between chains: the outbox in which the sending chain keeps
//! them until they are known to have arrived, and the inbox in which the
//! receiving chain keeps them until a block takes them in.
//!
//! Delivery is at least once and in order. The receiver tells bundles
//! apart by the certificate of the block that sent them and their
//! position in it, and takes each one once.

use vstd::prelude::*;

use crate::chain::{Amount, BlockHeight, ChainId, CryptoHash};

verus! {

/// What tells one message bundle from every other: the certificate of the
/// block that sent it, and its position among the bundles of that block.
#[derive(Clone, Copy, Debug, PartialEq, Eq)]
pub struct BundleId {
    pub certificate_hash: CryptoHash,
    pub index: u64,
}

impl BundleId {
    /// Whether this is the bundle `other`.
    pub fn is(&self, other: &BundleId) -> (same: bool)
        ensures
            same == (*self == *other),
    {
        self.index == other.index && self.certificate_hash.is(&other.certificate_hash)
    }
}

/// A message that a confirmed block of one chain sends to another chain:
/// here, a credit of tokens.
#[derive(Clone, Copy, Debug, PartialEq, Eq)]
pub struct MessageBundle {
    /// The chain whose block sent the message.
    pub origin: ChainId,
    /// The chain that it is for.
    pub target: ChainId,
    /// The certificate of that block, and the position of the bundle
    /// among those that the block sent.
    pub id: BundleId,
    /// The height of that block.
    pub height: BlockHeight,
    /// The tokens credited to the target.
    pub amount: Amount,
}

impl MessageBundle {
    /// Whether this bundle is the same as `other` in every part.
    pub fn is(&self, other: &MessageBundle) -> (same: bool)
        ensures
            same == (*self == *other),
    {
        self.origin.is(&other.origin) && self.target.is(&other.target) && self.id.is(&other.id)
            && self.height == other.height && self.amount.0 == other.amount.0
    }
}

/// The identifiers of `bundles`, in order.
pub open spec fn ids_of(bundles: Seq<MessageBundle>) -> Seq<BundleId> {
    bundles.map_values(|bundle: MessageBundle| bundle.id)
}

/// What an inbox that has seen the bundles `seen` makes of the arriving
/// `bundles`: the bundles that it has seen afterwards, and those that it
/// takes in. It takes in, in order, every bundle that it has not seen
/// before.
pub open spec fn accept(seen: Seq<BundleId>, bundles: Seq<MessageBundle>) -> (
    Seq<BundleId>,
    Seq<MessageBundle>,
)
    decreases bundles.len(),
{
    if bundles.len() == 0 {
        (seen, Seq::empty())
    } else {
        let (seen_before, taken_before) = accept(seen, bundles.drop_last());
        if seen_before.contains(bundles.last().id) {
            (seen_before, taken_before)
        } else {
            (
                seen_before.push(bundles.last().id),
                taken_before.push(bundles.last()),
            )
        }
    }
}

/// The bundles of `queue` that are not among the `received` ones, in
/// order.
pub open spec fn still_pending(queue: Seq<MessageBundle>, received: Seq<BundleId>) -> Seq<
    MessageBundle,
>
    decreases queue.len(),
{
    if queue.len() == 0 {
        Seq::empty()
    } else if received.contains(queue.last().id) {
        still_pending(queue.drop_last(), received)
    } else {
        still_pending(queue.drop_last(), received).push(queue.last())
    }
}

/// No two of `bundles` are the same bundle, and none is in `seen`.
pub open spec fn all_new(seen: Seq<BundleId>, bundles: Seq<MessageBundle>) -> bool {
    &&& forall|i: int|
        0 <= i < bundles.len() ==> !seen.contains((#[trigger] bundles[i]).id)
    &&& forall|i: int, j: int|
        0 <= i < j < bundles.len() ==> (#[trigger] bundles[i]).id != (
        #[trigger] bundles[j]).id
}

/// The messages that a chain has sent to one other chain and that are not
/// yet known to have arrived, oldest first.
pub struct Outbox {
    pub queue: Vec<MessageBundle>,
}

/// The messages that a chain has received and that no block has taken in
/// yet, oldest first, and the bundles that it has received.
pub struct Inbox {
    pub queue: Vec<MessageBundle>,
    pub seen: Vec<BundleId>,
}

/// Whether the bundle `id` is one of `ids`.
pub fn has_id(ids: &Vec<BundleId>, id: &BundleId) -> (found: bool)
    ensures
        found == ids@.contains(*id),
{
    let mut i: usize = 0;
    while i < ids.len()
        invariant
            i <= ids@.len(),
            forall|j: int| 0 <= j < i ==> ids@[j] != *id,
        decreases ids@.len() - i,
    {
        if ids[i].is(id) {
            return true;
        }
        i += 1;
    }
    false
}

impl Outbox {
    /// An outbox without messages.
    pub fn new() -> (outbox: Outbox)
        ensures
            outbox.queue@ == Seq::<MessageBundle>::empty(),
    {
        Outbox { queue: Vec::new() }
    }

    /// Puts the bundle of a newly confirmed block at the end of the
    /// queue.
    pub fn schedule(&mut self, bundle: MessageBundle)
        ensures
            final(self).queue@ == old(self).queue@.push(bundle),
    {
        self.queue.push(bundle);
    }

    /// Takes out the bundles `received`, which the receiving chain has
    /// acknowledged.
    pub fn mark_received(&mut self, received: &Vec<BundleId>)
        ensures
            final(self).queue@ == still_pending(old(self).queue@, received@),
    {
        let mut kept: Vec<MessageBundle> = Vec::new();
        let mut i: usize = 0;
        assert(self.queue@.take(0) =~= Seq::<MessageBundle>::empty());
        while i < self.queue.len()
            invariant
                i <= self.queue@.len(),
                self.queue@ == old(self).queue@,
                kept@ == still_pending(self.queue@.take(i as int), received@),
            decreases self.queue@.len() - i,
        {
            proof {
                assert(self.queue@.take(i + 1).drop_last() =~= self.queue@.take(i as int));
                assert(self.queue@.take(i + 1).last() == self.queue@[i as int]);
            }
            if !has_id(received, &self.queue[i].id) {
                kept.push(self.queue[i]);
            }
            i += 1;
        }
        assert(self.queue@.take(i as int) =~= self.queue@);
        self.queue = kept;
    }
}

impl Inbox {
    /// An inbox that has received nothing.
    pub fn new() -> (inbox: Inbox)
        ensures
            inbox.queue@ == Seq::<MessageBundle>::empty(),
            inbox.seen@ == Seq::<BundleId>::empty(),
    {
        Inbox { queue: Vec::new(), seen: Vec::new() }
    }

    /// Receives `bundles`: puts those not seen before at the end of the
    /// queue, in order, and acknowledges all of them.
    pub fn receive(&mut self, bundles: &Vec<MessageBundle>) -> (acknowledged: Vec<BundleId>)
        ensures
            final(self).seen@ == accept(old(self).seen@, bundles@).0,
            final(self).queue@ == old(self).queue@ + accept(old(self).seen@, bundles@).1,
            acknowledged@ == ids_of(bundles@),
    {
        let mut acknowledged: Vec<BundleId> = Vec::new();
        let mut i: usize = 0;
        assert(bundles@.take(0) =~= Seq::<MessageBundle>::empty());
        assert(old(self).queue@ + Seq::<MessageBundle>::empty() =~= old(self).queue@);
        while i < bundles.len()
            invariant
                i <= bundles@.len(),
                self.seen@ == accept(old(self).seen@, bundles@.take(i as int)).0,
                self.queue@ == old(self).queue@ + accept(old(self).seen@, bundles@.take(i as int)).1,
                acknowledged@ == ids_of(bundles@.take(i as int)),
            decreases bundles@.len() - i,
        {
            let bundle = bundles[i];
            proof {
                assert(bundles@.take(i + 1).drop_last() =~= bundles@.take(i as int));
                assert(bundles@.take(i + 1).last() == bundle);
                let taken = accept(old(self).seen@, bundles@.take(i as int)).1;
                assert(old(self).queue@ + taken.push(bundle) =~= (old(self).queue@ + taken).push(
                    bundle,
                ));
                assert(ids_of(bundles@.take(i + 1)) =~= ids_of(bundles@.take(i as int)).push(
                    bundle.id,
                ));
            }
            if !has_id(&self.seen, &bundle.id) {
                self.seen.push(bundle.id);
                self.queue.push(bundle);
            }
            acknowledged.push(bundle.id);
            i += 1;
        }
        assert(bundles@.take(i as int) =~= bundles@);
        acknowledged
    }

    /// Takes the first `count` bundles out of the queue, for the block
    /// that takes them in.
    pub fn take_in(&mut self, count: usize) -> (taken: Vec<MessageBundle>)
        requires
            count <= old(self).queue@.len(),
        ensures
            taken@ == old(self).queue@.take(count as int),
            final(self).queue@ == old(self).queue@.skip(count as int),
            final(self).seen@ == old(self).seen@,
    {
        let mut taken: Vec<MessageBundle> = Vec::new();
        let mut rest: Vec<MessageBundle> = Vec::new();
        let mut i: usize = 0;
        while i < self.queue.len()
            invariant
                i <= self.queue@.len(),
                count <= self.queue@.len(),
                self.queue@ == old(self).queue@,
                self.seen@ == old(self).seen@,
                taken@ == self.queue@.take(if i < count {
                    i as int
                } else {
                    count as int
                }),
                rest@ == self.queue@.subrange(
                    count as int,
                    if i < count {
                        count as int
                    } else {
                        i as int
                    },
                ),
            decreases self.queue@.len() - i,
        {
            if i < count {
                taken.push(self.queue[i]);
                assert(self.queue@.take(i + 1) =~= self.queue@.take(i as int).push(
                    self.queue@[i as int],
                ));
            } else {
                rest.push(self.queue[i]);
                assert(self.queue@.subrange(count as int, i + 1) =~= self.queue@.subrange(
                    count as int,
                    i as int,
                ).push(self.queue@[i as int]));
            }
            i += 1;
        }
        assert(rest@ =~= self.queue@.skip(count as int));
        self.queue = rest;
        taken
    }
}

/// An inbox takes in all of bundles that are new to it, and has seen
/// them afterwards.
pub proof fn lemma_accept_all_new(seen: Seq<BundleId>, bundles: Seq<MessageBundle>)
    requires
        all_new(seen, bundles),
    ensures
        accept(seen, bundles) == (seen + ids_of(bundles), bundles),
    decreases bundles.len(),
{
    if bundles.len() == 0 {
        assert(seen + ids_of(bundles) =~= seen);
    } else {
        let before = bundles.drop_last();
        assert(all_new(seen, before)) by {
            assert forall|i: int| 0 <= i < before.len() implies !seen.contains(
                (#[trigger] before[i]).id,
            ) by {
                assert(before[i] == bundles[i]);
            }
            assert forall|i: int, j: int| 0 <= i < j < before.len() implies (
            #[trigger] before[i]).id != (#[trigger] before[j]).id by {
                assert(before[i] == bundles[i] && before[j] == bundles[j]);
            }
        }
        lemma_accept_all_new(seen, before);
        let last = bundles[bundles.len() - 1];
        let seen_before = seen + ids_of(before);
        assert(!seen_before.contains(last.id)) by {
            if seen_before.contains(last.id) {
                let at = choose|at: int|
                    0 <= at < seen_before.len() && seen_before[at] == last.id;
                if at < seen.len() {
                    assert(seen[at] == last.id);
                } else {
                    assert(bundles[at - seen.len()].id == last.id);
                }
            }
        }
        assert(seen_before.push(last.id) =~= seen + ids_of(bundles));
        assert(before.push(last) =~= bundles);
    }
}

/// An inbox takes in nothing of bundles that it has seen.
pub proof fn lemma_accept_again(seen: Seq<BundleId>, bundles: Seq<MessageBundle>)
    requires
        forall|i: int|
            0 <= i < bundles.len() ==> seen.contains((#[trigger] bundles[i]).id),
    ensures
        accept(seen, bundles) == (seen, Seq::<MessageBundle>::empty()),
    decreases bundles.len(),
{
    if bundles.len() > 0 {
        let before = bundles.drop_last();
        assert forall|i: int| 0 <= i < before.len() implies seen.contains(
            (#[trigger] before[i]).id,
        ) by {
            assert(before[i] == bundles[i]);
        }
        lemma_accept_again(seen, before);
        assert(seen.contains(bundles[bundles.len() - 1].id));
    }
}

/// Nothing stays pending of a queue whose bundles were all received.
pub proof fn lemma_all_received(queue: Seq<MessageBundle>, received: Seq<BundleId>)
    requires
        forall|i: int|
            0 <= i < queue.len() ==> received.contains((#[trigger] queue[i]).id),
    ensures
        still_pending(queue, received) == Seq::<MessageBundle>::empty(),
    decreases queue.len(),
{
    if queue.len() > 0 {
        let before = queue.drop_last();
        assert forall|i: int| 0 <= i < before.len() implies received.contains(
            (#[trigger] before[i]).id,
        ) by {
            assert(before[i] == queue[i]);
        }
        lemma_all_received(before, received);
        assert(received.contains(queue[queue.len() - 1].id));
    }
}

/// Delivery moves the messages from the outbox to the inbox: when the
/// bundles of an outbox, all new to the inbox, are received and the
/// acknowledgement is marked, the outbox is empty and the inbox holds
/// what it held before followed by exactly the bundles that the outbox
/// held, in order. When a block has then taken in the whole inbox, both
/// are empty. Delivering the same bundles once more changes nothing.
pub proof fn lemma_delivery_settles(
    outbox: Seq<MessageBundle>,
    inbox: Seq<MessageBundle>,
    seen: Seq<BundleId>,
)
    requires
        all_new(seen, outbox),
    ensures
        ({
            let (seen_after, taken) = accept(seen, outbox);
            let inbox_after = inbox + taken;
            let outbox_after = still_pending(outbox, ids_of(outbox));
            &&& outbox_after == Seq::<MessageBundle>::empty()
            &&& inbox_after == inbox + outbox
            &&& inbox_after.skip(inbox_after.len() as int) == Seq::<MessageBundle>::empty()
            &&& accept(seen_after, outbox) == (seen_after, Seq::<MessageBundle>::empty())
        }),
{
    lemma_accept_all_new(seen, outbox);
    assert forall|i: int| 0 <= i < outbox.len() implies ids_of(outbox).contains(
        (#[trigger] outbox[i]).id,
    ) by {
        assert(ids_of(outbox)[i] == outbox[i].id);
    }
    lemma_all_received(outbox, ids_of(outbox));
    let seen_after = seen + ids_of(outbox);
    assert forall|i: int| 0 <= i < outbox.len() implies seen_after.contains(
        (#[trigger] outbox[i]).id,
    ) by {
        assert(seen_after[seen.len() + i] == outbox[i].id);
    }
    lemma_accept_again(seen_after, outbox);
    assert((inbox + outbox).skip((inbox + outbox).len() as int) =~= Seq::<MessageBundle>::empty());
}

/// The bundles of `queue` that are for the chain `target`, in order.
pub open spec fn bundles_to(queue: Seq<MessageBundle>, target: ChainId) -> Seq<MessageBundle>
    decreases queue.len(),
{
    if queue.len() == 0 {
        Seq::empty()
    } else if queue.last().target == target {
        bundles_to(queue.drop_last(), target).push(queue.last())
    } else {
        bundles_to(queue.drop_last(), target)
    }
}

/// The first `limit` of `bundles`, or all of them if they are fewer.
pub open spec fn at_most(bundles: Seq<MessageBundle>, limit: usize) -> Seq<MessageBundle> {
    if bundles.len() <= limit {
        bundles
    } else {
        bundles.take(limit as int)
    }
}

/// Taking the first bundles of a list with one more bundle at its end is
/// taking them of the list, and the one more if the limit allows.
proof fn lemma_at_most_push(bundles: Seq<MessageBundle>, bundle: MessageBundle, limit: usize)
    ensures
        at_most(bundles.push(bundle), limit) == if bundles.len() < limit {
            at_most(bundles, limit).push(bundle)
        } else {
            at_most(bundles, limit)
        },
{
    if bundles.len() < limit {
        assert(at_most(bundles.push(bundle), limit) =~= at_most(bundles, limit).push(bundle));
    } else {
        assert(at_most(bundles.push(bundle), limit) =~= at_most(bundles, limit));
    }
}

impl Outbox {
    /// The next bundles to deliver to the chain `target`: the oldest
    /// `limit` of those that wait for it, in the order in which they were
    /// sent.
    pub fn next_batch(&self, target: &ChainId, limit: usize) -> (batch: Vec<MessageBundle>)
        ensures
            batch@ == at_most(bundles_to(self.queue@, *target), limit),
    {
        let mut batch: Vec<MessageBundle> = Vec::new();
        let mut i: usize = 0;
        assert(self.queue@.take(0) =~= Seq::<MessageBundle>::empty());
        while i < self.queue.len()
            invariant
                i <= self.queue@.len(),
                batch@ == at_most(bundles_to(self.queue@.take(i as int), *target), limit),
                batch@.len() == limit ==> bundles_to(self.queue@.take(i as int), *target).len()
                    >= limit,
                batch@.len() < limit ==> batch@ == bundles_to(self.queue@.take(i as int), *target),
            decreases self.queue@.len() - i,
        {
            proof {
                assert(self.queue@.take(i + 1).drop_last() =~= self.queue@.take(i as int));
                assert(self.queue@.take(i + 1).last() == self.queue@[i as int]);
                lemma_at_most_push(
                    bundles_to(self.queue@.take(i as int), *target),
                    self.queue@[i as int],
                    limit,
                );
            }
            if self.queue[i].target.is(target) && batch.len() < limit {
                batch.push(self.queue[i]);
            }
            i += 1;
        }
        assert(self.queue@.take(i as int) =~= self.queue@);
        batch
    }
}

} // verus!
