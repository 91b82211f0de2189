//! The worker of one chain on one validator: it stages proposed blocks and
//! votes on them, takes in certificates, and commits confirmed blocks to
//! the chain's state.

use vstd::prelude::*;

use crate::blobs::{missing_from, lemma_nothing_missing, BlobStore};
use crate::chain::{
    Amount, BlobId, BlockHeight, ChainId, CryptoHash, Round, ValidatorPublicKey,
};
use crate::committee::{
    certifies, is_refusal, lemma_refusal_is_final, signed_votes, CertificateError, Committee,
};
use crate::crosschain::{BundleId, Inbox, MessageBundle, Outbox};
use crate::execution::{execute, execute_spec, Block, Effects, ExecutionOutcome};
use crate::faults::ArithmeticError;
use crate::manager::{
    CertificateOutcome, ChainManager, ManagerError, Proposal, RoundBlock, Timestamp, Vote,
};

verus! {

/// A confirmed block as the worker remembers it.
#[derive(Clone, Debug, PartialEq, Eq)]
pub struct ConfirmedBlock {
    pub height: BlockHeight,
    pub hash: CryptoHash,
    pub blobs: Vec<BlobId>,
}

/// Why the worker turns a request down.
#[derive(Debug, PartialEq, Eq)]
pub enum WorkerError {
    /// The block is of another chain.
    WrongChain,
    /// The chain is closed.
    InactiveChain,
    /// The block is of another epoch than the chain is in.
    InvalidEpoch { chain_epoch: u32, epoch: u32 },
    /// The proposed block is not of the chain's next height.
    UnexpectedBlockHeight { expected: BlockHeight, found: BlockHeight },
    /// The confirmed block lies beyond the chain's next height: the blocks
    /// from that height on have to be handed in first.
    MissingEarlierBlocks { current_block_height: BlockHeight },
    /// The block does not follow the chain's last block.
    InvalidBlockChaining,
    /// The block refers to blobs that the validator lacks.
    BlobsNotFound(Vec<BlobId>),
    /// The block takes in other bundles than those that wait first in the
    /// inbox.
    UnexpectedIncomingBundles,
    /// The execution of the block failed.
    Execution(ArithmeticError),
    /// The chain has no next height.
    HeightOverflow,
    /// The chain manager turned the request down.
    Manager(ManagerError),
    /// The signatures certify nothing.
    Certificate(CertificateError),
}

/// An error of the worker as plain values.
pub ghost enum WorkerFault {
    WrongChain,
    InactiveChain,
    InvalidEpoch { chain_epoch: u32, epoch: u32 },
    UnexpectedBlockHeight { expected: BlockHeight, found: BlockHeight },
    MissingEarlierBlocks { current_block_height: BlockHeight },
    InvalidBlockChaining,
    BlobsNotFound(Seq<BlobId>),
    UnexpectedIncomingBundles,
    Execution(ArithmeticError),
    HeightOverflow,
    Manager(ManagerError),
    Certificate(CertificateError),
}

impl View for WorkerError {
    type V = WorkerFault;

    open spec fn view(&self) -> WorkerFault {
        match *self {
            WorkerError::WrongChain => WorkerFault::WrongChain,
            WorkerError::InactiveChain => WorkerFault::InactiveChain,
            WorkerError::InvalidEpoch { chain_epoch, epoch } => WorkerFault::InvalidEpoch {
                chain_epoch,
                epoch,
            },
            WorkerError::UnexpectedBlockHeight { expected, found } =>
                WorkerFault::UnexpectedBlockHeight { expected, found },
            WorkerError::MissingEarlierBlocks { current_block_height } =>
                WorkerFault::MissingEarlierBlocks { current_block_height },
            WorkerError::InvalidBlockChaining => WorkerFault::InvalidBlockChaining,
            WorkerError::BlobsNotFound(blob_ids) => WorkerFault::BlobsNotFound(blob_ids@),
            WorkerError::UnexpectedIncomingBundles => WorkerFault::UnexpectedIncomingBundles,
            WorkerError::Execution(error) => WorkerFault::Execution(error),
            WorkerError::HeightOverflow => WorkerFault::HeightOverflow,
            WorkerError::Manager(error) => WorkerFault::Manager(error),
            WorkerError::Certificate(error) => WorkerFault::Certificate(error),
        }
    }
}

/// A failure as it is shown to users: what failed, on which chain, at
/// which height and in which epoch.
#[derive(Debug, PartialEq, Eq)]
pub struct ChainFailure {
    pub chain_id: ChainId,
    pub height: BlockHeight,
    pub epoch: u32,
    pub error: WorkerError,
}

/// What became of a confirmed certificate.
#[derive(Debug, PartialEq, Eq)]
pub enum Confirmation {
    /// The block was committed before: nothing changed.
    AlreadyConfirmed,
    /// The block was committed, and these bundles are on their way to
    /// other chains.
    Committed(Vec<MessageBundle>),
}

/// `front` is what `queue` starts with.
pub open spec fn is_front_of(front: Seq<MessageBundle>, queue: Seq<MessageBundle>) -> bool {
    front.len() <= queue.len() && queue.take(front.len() as int) == front
}

/// The bundles that the block `certificate_hash` of chain `origin` at
/// `height` sends for the tokens `sent`, one bundle each, in order.
pub open spec fn bundles_for(
    origin: ChainId,
    certificate_hash: CryptoHash,
    height: BlockHeight,
    sent: Seq<(ChainId, Amount)>,
) -> Seq<MessageBundle> {
    Seq::new(
        sent.len(),
        |i: int|
            MessageBundle {
                origin,
                target: sent[i].0,
                id: BundleId { certificate_hash, index: i as u64 },
                height,
                amount: sent[i].1,
            },
    )
}

/// The state of one chain on one validator, and what the validator needs
/// to serve it.
pub struct WorkerState {
    /// The chain that is served.
    pub chain_id: ChainId,
    /// The epoch that the chain is in.
    pub epoch: u32,
    /// The committee of that epoch.
    pub committee: Committee,
    /// The height of the chain's next block.
    pub next_block_height: BlockHeight,
    /// The hash of the chain's last block; none before the first.
    pub block_hash: Option<CryptoHash>,
    /// The chain's balance.
    pub balance: Amount,
    /// Whether the chain is closed.
    pub closed: bool,
    /// The voting on the chain's next block.
    pub manager: ChainManager,
    /// The messages that wait to be taken in.
    pub inbox: Inbox,
    /// The messages that wait to be delivered.
    pub outbox: Outbox,
    /// The confirmed blocks of the chain, by height.
    pub confirmed: Vec<ConfirmedBlock>,
    /// The blobs that the validator holds.
    pub blobs: BlobStore,
    /// The blobs that were handed in for the next block only.
    pub pending_blobs: BlobStore,
    /// The round in which the voting on every block begins.
    pub first_round: Round,
    /// By how many microseconds the time stamp of a proposed block may
    /// lie in the future, and after how many a round may be timed out.
    pub grace_period: u64,
}

impl WorkerState {
    /// The chain's record is whole: the committee and the manager are
    /// well formed, the manager votes on the next height, the confirmed
    /// blocks are those of the heights from zero up to the next, the last
    /// of them is the chain's tip, and the validator holds every blob that
    /// a confirmed block refers to.
    pub open spec fn well_formed(&self) -> bool {
        &&& self.committee.well_formed()
        &&& self.manager.well_formed()
        &&& self.manager.height == self.next_block_height
        &&& self.confirmed@.len() == self.next_block_height.0
        &&& forall|i: int|
            0 <= i < self.confirmed@.len() ==> (#[trigger] self.confirmed@[i]).height.0 == i
        &&& self.block_hash == if self.confirmed@.len() == 0 {
            None
        } else {
            Some(self.confirmed@.last().hash)
        }
        &&& forall|i: int, k: int|
            0 <= i < self.confirmed@.len() && 0 <= k < self.confirmed@[i].blobs@.len()
                ==> self.blobs@.contains(#[trigger] self.confirmed@[i].blobs@[k])
    }

    /// The worker of a new chain with the balance `balance`, served under
    /// `committee`.
    pub fn new(
        chain_id: ChainId,
        committee: Committee,
        balance: Amount,
        first_round: Round,
        grace_period: u64,
        now: Timestamp,
    ) -> (worker: WorkerState)
        requires
            committee.well_formed(),
        ensures
            worker.well_formed(),
            worker.chain_id == chain_id,
            worker.epoch == 0,
            worker.committee == committee,
            worker.next_block_height == BlockHeight(0),
            worker.block_hash is None,
            worker.balance == balance,
            !worker.closed,
            worker.manager == ChainManager::initial(
                BlockHeight(0),
                first_round,
                now,
                grace_period,
            ),
            worker.inbox.queue@.len() == 0,
            worker.inbox.seen@.len() == 0,
            worker.outbox.queue@.len() == 0,
            worker.confirmed@.len() == 0,
            worker.blobs@ == Set::<BlobId>::empty(),
            worker.pending_blobs@ == Set::<BlobId>::empty(),
            worker.first_round == first_round,
            worker.grace_period == grace_period,
    {
        WorkerState {
            chain_id,
            epoch: 0,
            committee,
            next_block_height: BlockHeight(0),
            block_hash: None,
            balance,
            closed: false,
            manager: ChainManager::new(BlockHeight(0), first_round, now, grace_period),
            inbox: Inbox::new(),
            outbox: Outbox::new(),
            confirmed: Vec::new(),
            blobs: BlobStore::new(),
            pending_blobs: BlobStore::new(),
            first_round,
            grace_period,
        }
    }

    /// The blobs of `wanted` that the validator lacks: those that are
    /// neither held nor handed in for the next block.
    pub open spec fn lacking(&self, wanted: Seq<BlobId>) -> Seq<BlobId> {
        missing_from(self.pending_blobs@, missing_from(self.blobs@, wanted))
    }

    /// What staging `block` on top of the chain comes to: the effects of
    /// its execution, or why it cannot follow.
    ///
    /// The chain must be open and in the block's epoch, the block must
    /// name the chain's tip as the block before it, the validator must
    /// lack none of its blobs, and it must take in what waits first in
    /// the inbox.
    pub open spec fn stage_spec(&self, block: Block) -> Result<Effects, WorkerFault> {
        if self.closed {
            Err(WorkerFault::InactiveChain)
        } else if block.epoch != self.epoch {
            Err(WorkerFault::InvalidEpoch { chain_epoch: self.epoch, epoch: block.epoch })
        } else if block.previous_block_hash != self.block_hash {
            Err(WorkerFault::InvalidBlockChaining)
        } else if self.lacking(block.blobs@).len() > 0 {
            Err(WorkerFault::BlobsNotFound(self.lacking(block.blobs@)))
        } else if !is_front_of(block.incoming_bundles@, self.inbox.queue@) {
            Err(WorkerFault::UnexpectedIncomingBundles)
        } else {
            match execute_spec(self.balance, block.incoming_bundles@, block.operations@) {
                Ok(effects) => Ok(effects),
                Err(error) => Err(WorkerFault::Execution(error)),
            }
        }
    }

    /// Whether two optional hashes are the same.
    fn same_tip(a: &Option<CryptoHash>, b: &Option<CryptoHash>) -> (same: bool)
        ensures
            same == (*a == *b),
    {
        match (a, b) {
            (Some(x), Some(y)) => x.is(y),
            (None, None) => true,
            _ => false,
        }
    }

    /// Stages `block` on top of the chain, without changing anything.
    pub fn stage(&self, block: &Block) -> (result: Result<ExecutionOutcome, WorkerError>)
        ensures
            match result {
                Ok(outcome) => self.stage_spec(*block) == Ok::<Effects, WorkerFault>(
                    outcome.effects(),
                ),
                Err(error) => self.stage_spec(*block) == Err::<Effects, WorkerFault>(error@),
            },
    {
        if self.closed {
            return Err(WorkerError::InactiveChain);
        }
        if block.epoch != self.epoch {
            return Err(WorkerError::InvalidEpoch { chain_epoch: self.epoch, epoch: block.epoch });
        }
        if !WorkerState::same_tip(&block.previous_block_hash, &self.block_hash) {
            return Err(WorkerError::InvalidBlockChaining);
        }
        let not_held = self.blobs.missing_blobs(&block.blobs);
        let lacking = self.pending_blobs.missing_blobs(&not_held);
        if lacking.len() > 0 {
            return Err(WorkerError::BlobsNotFound(lacking));
        }
        if block.incoming_bundles.len() > self.inbox.queue.len() {
            return Err(WorkerError::UnexpectedIncomingBundles);
        }
        let mut i: usize = 0;
        while i < block.incoming_bundles.len()
            invariant
                !self.closed,
                block.epoch == self.epoch,
                block.previous_block_hash == self.block_hash,
                self.lacking(block.blobs@).len() == 0,
                i <= block.incoming_bundles@.len() <= self.inbox.queue@.len(),
                forall|j: int|
                    0 <= j < i ==> self.inbox.queue@[j] == block.incoming_bundles@[j],
            decreases block.incoming_bundles@.len() - i,
        {
            if !block.incoming_bundles[i].is(&self.inbox.queue[i]) {
                assert(self.inbox.queue@.take(block.incoming_bundles@.len() as int)[i as int]
                    != block.incoming_bundles@[i as int]);
                return Err(WorkerError::UnexpectedIncomingBundles);
            }
            i += 1;
        }
        assert(self.inbox.queue@.take(block.incoming_bundles@.len() as int)
            =~= block.incoming_bundles@);
        match execute(self.balance, &block.incoming_bundles, &block.operations) {
            Ok(outcome) => Ok(outcome),
            Err(error) => Err(WorkerError::Execution(error)),
        }
    }

    /// What handling the proposal of `block` in `round` comes to, short of
    /// the vote: why the worker turns it down, if it does.
    ///
    /// The block must be of this chain and of its next height, it must be
    /// fit to be staged, and the chain manager must accept the proposal.
    pub open spec fn proposal_fault(
        &self,
        block: Block,
        round: Round,
        validated_certificate: Option<RoundBlock>,
        now: Timestamp,
    ) -> Option<WorkerFault> {
        let proposal = Proposal {
            height: block.height,
            round,
            block: block.hash,
            timestamp: block.timestamp,
            validated_certificate,
        };
        if block.chain_id != self.chain_id {
            Some(WorkerFault::WrongChain)
        } else if block.height != self.next_block_height {
            Some(
                WorkerFault::UnexpectedBlockHeight {
                    expected: self.next_block_height,
                    found: block.height,
                },
            )
        } else if self.stage_spec(block) is Err {
            Some(self.stage_spec(block)->Err_0)
        } else if self.manager.proposal_error(proposal, now, self.grace_period) is Some {
            Some(
                WorkerFault::Manager(
                    self.manager.proposal_error(proposal, now, self.grace_period)->Some_0,
                ),
            )
        } else {
            None
        }
    }

    /// Handles the proposal of `block` in `round`, whose signature was
    /// found to be that of an owner who may propose in this round.
    ///
    /// Returns the vote that the proposal earns and, if the block's time
    /// stamp lies in the future, the time until which the vote is
    /// withheld.
    pub fn handle_block_proposal(
        &mut self,
        block: &Block,
        round: Round,
        validated_certificate: Option<RoundBlock>,
        now: Timestamp,
    ) -> (result: Result<(Vote, Option<Timestamp>), WorkerError>)
        requires
            old(self).well_formed(),
        ensures
            final(self).well_formed(),
            ({
                let proposal = Proposal {
                    height: block.height,
                    round,
                    block: block.hash,
                    timestamp: block.timestamp,
                    validated_certificate,
                };
                match old(self).proposal_fault(*block, round, validated_certificate, now) {
                    Some(fault) => result matches Err(error) && error@ == fault && *final(self)
                        == *old(self),
                    None => result == Ok::<(Vote, Option<Timestamp>), WorkerError>(
                        (
                            ChainManager::proposal_vote(proposal),
                            if block.timestamp.0 > now.0 {
                                Some(block.timestamp)
                            } else {
                                None
                            },
                        ),
                    ) && *final(self) == (WorkerState {
                        manager: old(self).manager.after_proposal(proposal),
                        ..*old(self)
                    }),
                }
            }),
    {
        if !block.chain_id.is(&self.chain_id) {
            return Err(WorkerError::WrongChain);
        }
        if block.height != self.next_block_height {
            return Err(
                WorkerError::UnexpectedBlockHeight {
                    expected: self.next_block_height,
                    found: block.height,
                },
            );
        }
        match self.stage(block) {
            Ok(_) => {},
            Err(error) => {
                return Err(error);
            },
        }
        let proposal = Proposal {
            height: block.height,
            round,
            block: block.hash,
            timestamp: block.timestamp,
            validated_certificate,
        };
        match self.manager.handle_block_proposal(proposal, now, self.grace_period) {
            Ok(vote) => Ok(vote),
            Err(error) => Err(WorkerError::Manager(error)),
        }
    }

    /// Handles the validated certificate of the block `block` in `round`
    /// at `height`, signed by `signers` with signatures that were found
    /// valid.
    ///
    /// A certificate is accepted only if its signers weigh more than two
    /// thirds of the committee.
    pub fn handle_validated_certificate(
        &mut self,
        height: BlockHeight,
        round: Round,
        block: CryptoHash,
        signers: &Vec<ValidatorPublicKey>,
        now: Timestamp,
    ) -> (result: Result<CertificateOutcome, WorkerError>)
        requires
            old(self).well_formed(),
        ensures
            final(self).well_formed(),
            result is Ok ==> 3 * signed_votes(old(self).committee.members(), signers@) > 2 * old(
                self,
            ).committee.total(),
            if !certifies(old(self).committee.members(), signers@) {
                &&& result matches Err(WorkerError::Certificate(error)) && is_refusal(
                    old(self).committee.members(),
                    signers@,
                    error,
                )
                &&& *final(self) == *old(self)
            } else {
                let (manager, outcome) = old(self).manager.validated_certificate_step(
                    height,
                    round,
                    block,
                    now,
                    old(self).grace_period,
                );
                &&& *final(self) == (WorkerState { manager, ..*old(self) })
                &&& match outcome {
                    Ok(outcome) => result == Ok::<CertificateOutcome, WorkerError>(outcome),
                    Err(error) => result == Err::<CertificateOutcome, WorkerError>(
                        WorkerError::Manager(error),
                    ),
                }
            },
    {
        match self.committee.check_signers(signers) {
            Ok(_) => {
                proof {
                    crate::committee::lemma_quorum_soundness(self.committee, signers@);
                }
            },
            Err(error) => {
                proof {
                    lemma_refusal_is_final(self.committee.members(), signers@, error);
                }
                return Err(WorkerError::Certificate(error));
            },
        }
        match self.manager.handle_validated_certificate(
            height,
            round,
            block,
            now,
            self.grace_period,
        ) {
            Ok(outcome) => Ok(outcome),
            Err(error) => Err(WorkerError::Manager(error)),
        }
    }

    /// Handles the timeout certificate of `round` at `height`, signed by
    /// `signers` with signatures that were found valid.
    pub fn handle_timeout_certificate(
        &mut self,
        height: BlockHeight,
        round: Round,
        signers: &Vec<ValidatorPublicKey>,
        now: Timestamp,
    ) -> (result: Result<CertificateOutcome, WorkerError>)
        requires
            old(self).well_formed(),
        ensures
            final(self).well_formed(),
            result is Ok ==> 3 * signed_votes(old(self).committee.members(), signers@) > 2 * old(
                self,
            ).committee.total(),
            if !certifies(old(self).committee.members(), signers@) {
                &&& result matches Err(WorkerError::Certificate(error)) && is_refusal(
                    old(self).committee.members(),
                    signers@,
                    error,
                )
                &&& *final(self) == *old(self)
            } else {
                let (manager, outcome) = old(self).manager.timeout_certificate_step(
                    height,
                    round,
                    now,
                    old(self).grace_period,
                );
                &&& *final(self) == (WorkerState { manager, ..*old(self) })
                &&& match outcome {
                    Ok(outcome) => result == Ok::<CertificateOutcome, WorkerError>(outcome),
                    Err(error) => result == Err::<CertificateOutcome, WorkerError>(
                        WorkerError::Manager(error),
                    ),
                }
            },
    {
        match self.committee.check_signers(signers) {
            Ok(_) => {
                proof {
                    crate::committee::lemma_quorum_soundness(self.committee, signers@);
                }
            },
            Err(error) => {
                proof {
                    lemma_refusal_is_final(self.committee.members(), signers@, error);
                }
                return Err(WorkerError::Certificate(error));
            },
        }
        match self.manager.handle_timeout_certificate(height, round, now, self.grace_period) {
            Ok(outcome) => Ok(outcome),
            Err(error) => Err(WorkerError::Manager(error)),
        }
    }
}

/// Copies a list of blob identifiers.
fn copy_blob_ids(blob_ids: &Vec<BlobId>) -> (copy: Vec<BlobId>)
    ensures
        copy@ == blob_ids@,
{
    let mut copy: Vec<BlobId> = Vec::new();
    let mut i: usize = 0;
    while i < blob_ids.len()
        invariant
            i <= blob_ids@.len(),
            copy@ == blob_ids@.take(i as int),
        decreases blob_ids@.len() - i,
    {
        copy.push(blob_ids[i]);
        assert(blob_ids@.take(i as int).push(blob_ids@[i as int]) =~= blob_ids@.take(i + 1));
        i += 1;
    }
    assert(blob_ids@.take(i as int) =~= blob_ids@);
    copy
}

impl WorkerState {
    /// What the chain is after the block `block`, whose execution has the
    /// effects `effects`, was committed at the time `now`, sending
    /// `bundles` on their way.
    ///
    /// The chain is one block higher and the block is its tip and the
    /// last of its confirmed blocks. Balance and closure are those of the
    /// execution. The bundles that the block took in have left the inbox,
    /// and one bundle for each transfer stands at the end of the outbox.
    /// The validator holds the block's blobs for good, and none for the
    /// next block. The voting on the next height has begun.
    pub open spec fn is_committed(
        before: WorkerState,
        after: WorkerState,
        block: Block,
        effects: Effects,
        bundles: Seq<MessageBundle>,
        now: Timestamp,
    ) -> bool {
        &&& after.chain_id == before.chain_id
        &&& after.epoch == before.epoch
        &&& after.committee == before.committee
        &&& after.first_round == before.first_round
        &&& after.grace_period == before.grace_period
        &&& after.next_block_height.0 == before.next_block_height.0 + 1
        &&& after.block_hash == Some(block.hash)
        &&& after.balance.0 == effects.balance
        &&& after.closed == effects.closed
        &&& after.manager == ChainManager::initial(
            after.next_block_height,
            before.first_round,
            now,
            before.grace_period,
        )
        &&& after.inbox.seen@ == before.inbox.seen@
        &&& after.inbox.queue@ == before.inbox.queue@.skip(block.incoming_bundles@.len() as int)
        &&& bundles == bundles_for(before.chain_id, block.hash, block.height, effects.sent)
        &&& after.outbox.queue@ == before.outbox.queue@ + bundles
        &&& after.confirmed@.len() == before.confirmed@.len() + 1
        &&& after.confirmed@.take(before.confirmed@.len() as int) == before.confirmed@
        &&& after.confirmed@.last().height == block.height
        &&& after.confirmed@.last().hash == block.hash
        &&& after.confirmed@.last().blobs@ == block.blobs@
        &&& after.blobs@ == before.blobs@.union(block.blobs@.to_set())
        &&& after.pending_blobs@ == Set::<BlobId>::empty()
    }

    /// Handles the confirmed certificate of `block`, signed by `signers`
    /// with signatures that were found valid.
    ///
    /// The certificate is accepted only if its signers weigh more than
    /// two thirds of the committee. A block below the chain's next height
    /// was committed before, and nothing changes. A block above it cannot
    /// be committed before the blocks in between. A block at the next
    /// height is committed if it can be staged.
    pub fn handle_confirmed_certificate(
        &mut self,
        block: &Block,
        signers: &Vec<ValidatorPublicKey>,
        now: Timestamp,
    ) -> (result: Result<Confirmation, WorkerError>)
        requires
            old(self).well_formed(),
        ensures
            final(self).well_formed(),
            result is Ok ==> 3 * signed_votes(old(self).committee.members(), signers@) > 2 * old(
                self,
            ).committee.total(),
            if block.chain_id != old(self).chain_id {
                result matches Err(WorkerError::WrongChain) && *final(self) == *old(self)
            } else if !certifies(old(self).committee.members(), signers@) {
                &&& result matches Err(WorkerError::Certificate(error)) && is_refusal(
                    old(self).committee.members(),
                    signers@,
                    error,
                )
                &&& *final(self) == *old(self)
            } else if block.height.0 < old(self).next_block_height.0 {
                result matches Ok(Confirmation::AlreadyConfirmed) && *final(self) == *old(self)
            } else if block.height.0 > old(self).next_block_height.0 {
                result matches Err(WorkerError::MissingEarlierBlocks { current_block_height })
                    && current_block_height == old(self).next_block_height && *final(self) == *old(
                    self,
                )
            } else {
                match old(self).stage_spec(*block) {
                    Err(fault) => result matches Err(error) && error@ == fault && *final(self)
                        == *old(self),
                    Ok(effects) => if block.height.0 == u64::MAX {
                        result matches Err(WorkerError::HeightOverflow) && *final(self) == *old(
                            self,
                        )
                    } else {
                        result matches Ok(Confirmation::Committed(bundles))
                            && WorkerState::is_committed(
                            *old(self),
                            *final(self),
                            *block,
                            effects,
                            bundles@,
                            now,
                        )
                    },
                }
            },
    {
        if !block.chain_id.is(&self.chain_id) {
            return Err(WorkerError::WrongChain);
        }
        match self.committee.check_signers(signers) {
            Ok(_) => {
                proof {
                    crate::committee::lemma_quorum_soundness(self.committee, signers@);
                }
            },
            Err(error) => {
                proof {
                    lemma_refusal_is_final(self.committee.members(), signers@, error);
                }
                return Err(WorkerError::Certificate(error));
            },
        }
        if block.height.0 < self.next_block_height.0 {
            return Ok(Confirmation::AlreadyConfirmed);
        }
        if block.height.0 > self.next_block_height.0 {
            return Err(
                WorkerError::MissingEarlierBlocks { current_block_height: self.next_block_height },
            );
        }
        let outcome = match self.stage(block) {
            Ok(outcome) => outcome,
            Err(error) => {
                return Err(error);
            },
        };
        if block.height.0 == u64::MAX {
            return Err(WorkerError::HeightOverflow);
        }
        let ghost effects = outcome.effects();
        let ghost expected = bundles_for(self.chain_id, block.hash, block.height, effects.sent);
        let mut bundles: Vec<MessageBundle> = Vec::new();
        let mut k: usize = 0;
        while k < outcome.sent.len()
            invariant
                k <= outcome.sent@.len(),
                outcome.effects() == effects,
                expected == bundles_for(self.chain_id, block.hash, block.height, effects.sent),
                self.outbox.queue@ == old(self).outbox.queue@ + expected.take(k as int),
                bundles@ == expected.take(k as int),
                self.chain_id == old(self).chain_id,
                self.epoch == old(self).epoch,
                self.committee == old(self).committee,
                self.next_block_height == old(self).next_block_height,
                self.block_hash == old(self).block_hash,
                self.balance == old(self).balance,
                self.closed == old(self).closed,
                self.manager == old(self).manager,
                self.inbox == old(self).inbox,
                self.confirmed == old(self).confirmed,
                self.blobs == old(self).blobs,
                self.pending_blobs == old(self).pending_blobs,
                self.first_round == old(self).first_round,
                self.grace_period == old(self).grace_period,
            decreases outcome.sent@.len() - k,
        {
            let bundle = MessageBundle {
                origin: self.chain_id,
                target: outcome.sent[k].0,
                id: BundleId { certificate_hash: block.hash, index: k as u64 },
                height: block.height,
                amount: outcome.sent[k].1,
            };
            proof {
                assert(expected[k as int] == bundle);
                assert(expected.take(k + 1) =~= expected.take(k as int).push(bundle));
                assert(old(self).outbox.queue@ + expected.take(k + 1) =~= (old(
                    self,
                ).outbox.queue@ + expected.take(k as int)).push(bundle));
            }
            self.outbox.schedule(bundle);
            bundles.push(bundle);
            k += 1;
        }
        assert(expected.take(k as int) =~= expected);
        let mut b: usize = 0;
        assert(block.blobs@.take(0).to_set() =~= Set::<BlobId>::empty());
        assert(self.blobs@.union(Set::<BlobId>::empty()) =~= self.blobs@);
        while b < block.blobs.len()
            invariant
                b <= block.blobs@.len(),
                self.blobs@ == old(self).blobs@.union(block.blobs@.take(b as int).to_set()),
                self.outbox.queue@ == old(self).outbox.queue@ + expected,
                self.chain_id == old(self).chain_id,
                self.epoch == old(self).epoch,
                self.committee == old(self).committee,
                self.next_block_height == old(self).next_block_height,
                self.block_hash == old(self).block_hash,
                self.balance == old(self).balance,
                self.closed == old(self).closed,
                self.manager == old(self).manager,
                self.inbox == old(self).inbox,
                self.confirmed == old(self).confirmed,
                self.pending_blobs == old(self).pending_blobs,
                self.first_round == old(self).first_round,
                self.grace_period == old(self).grace_period,
            decreases block.blobs@.len() - b,
        {
            proof {
                let seen = block.blobs@.take(b as int);
                let grown = block.blobs@.take(b + 1);
                assert(grown =~= seen.push(block.blobs@[b as int]));
                assert(grown.to_set() =~= seen.to_set().insert(block.blobs@[b as int])) by {
                    assert forall|id: BlobId|
                        grown.to_set().contains(id) <==> seen.to_set().insert(
                            block.blobs@[b as int],
                        ).contains(id) by {
                        if grown.contains(id) {
                            let at = choose|at: int| 0 <= at < grown.len() && grown[at] == id;
                            if at < seen.len() {
                                assert(seen[at] == id);
                            }
                        }
                        if seen.contains(id) {
                            let at = choose|at: int| 0 <= at < seen.len() && seen[at] == id;
                            assert(grown[at] == id);
                        }
                        if id == block.blobs@[b as int] {
                            assert(grown[b as int] == id);
                        }
                    }
                }
                assert(old(self).blobs@.union(seen.to_set()).insert(block.blobs@[b as int])
                    =~= old(self).blobs@.union(grown.to_set()));
            }
            self.blobs.write_blob(block.blobs[b]);
            b += 1;
        }
        assert(block.blobs@.take(b as int) =~= block.blobs@);
        let taken = self.inbox.take_in(block.incoming_bundles.len());
        self.balance = outcome.balance;
        self.closed = outcome.closed;
        self.next_block_height = BlockHeight(block.height.0 + 1);
        self.block_hash = Some(block.hash);
        self.manager = ChainManager::new(
            self.next_block_height,
            self.first_round,
            now,
            self.grace_period,
        );
        self.pending_blobs = BlobStore::new();
        let record = ConfirmedBlock {
            height: block.height,
            hash: block.hash,
            blobs: copy_blob_ids(&block.blobs),
        };
        self.confirmed.push(record);
        proof {
            assert(self.confirmed@.take(old(self).confirmed@.len() as int) =~= old(
                self,
            ).confirmed@);
            assert forall|i: int| 0 <= i < self.confirmed@.len() implies (
            #[trigger] self.confirmed@[i]).height.0 == i by {
                if i < old(self).confirmed@.len() {
                    assert(self.confirmed@[i] == old(self).confirmed@[i]);
                }
            }
            assert forall|i: int, k: int|
                0 <= i < self.confirmed@.len() && 0 <= k
                    < self.confirmed@[i].blobs@.len() implies self.blobs@.contains(
                #[trigger] self.confirmed@[i].blobs@[k],
            ) by {
                if i < old(self).confirmed@.len() {
                    assert(self.confirmed@[i] == old(self).confirmed@[i]);
                    assert(old(self).blobs@.contains(old(self).confirmed@[i].blobs@[k]));
                } else {
                    assert(block.blobs@.to_set().contains(block.blobs@[k]));
                }
            }
        }
        Ok(Confirmation::Committed(bundles))
    }

    /// The failure `error` of a request to this chain, as it is shown to
    /// users: with the chain, the height that the chain stands at, and its
    /// epoch.
    pub fn failure(&self, error: WorkerError) -> (failure: ChainFailure)
        ensures
            failure == (ChainFailure {
                chain_id: self.chain_id,
                height: self.next_block_height,
                epoch: self.epoch,
                error,
            }),
    {
        ChainFailure {
            chain_id: self.chain_id,
            height: self.next_block_height,
            epoch: self.epoch,
            error,
        }
    }

    /// Holds the blob `blob_id` from now on.
    pub fn upload_blob(&mut self, blob_id: BlobId)
        requires
            old(self).well_formed(),
        ensures
            final(self).well_formed(),
            *final(self) == (WorkerState { blobs: final(self).blobs, ..*old(self) }),
            final(self).blobs@ == old(self).blobs@.insert(blob_id),
    {
        self.blobs.write_blob(blob_id);
    }

    /// Holds the blob `blob_id` for the next block of the chain.
    pub fn handle_pending_blob(&mut self, blob_id: BlobId)
        requires
            old(self).well_formed(),
        ensures
            final(self).well_formed(),
            *final(self) == (WorkerState { pending_blobs: final(self).pending_blobs, ..*old(self) }),
            final(self).pending_blobs@ == old(self).pending_blobs@.insert(blob_id),
    {
        self.pending_blobs.write_blob(blob_id);
    }

    /// Whether the blob `blob_id` is held for good and can be downloaded.
    pub fn download_blob(&self, blob_id: &BlobId) -> (held: bool)
        ensures
            held == self.blobs@.contains(*blob_id),
    {
        self.blobs.read_blob(blob_id)
    }

    /// Whether the blob `blob_id` is held for the next block of the chain
    /// and can be downloaded as such.
    pub fn download_pending_blob(&self, blob_id: &BlobId) -> (held: bool)
        ensures
            held == self.pending_blobs@.contains(*blob_id),
    {
        self.pending_blobs.read_blob(blob_id)
    }

    /// The blobs of `blob_ids` that the validator does not hold for good.
    pub fn missing_blob_ids(&self, blob_ids: &Vec<BlobId>) -> (missing: Vec<BlobId>)
        ensures
            missing@ == missing_from(self.blobs@, blob_ids@),
    {
        self.blobs.missing_blobs(blob_ids)
    }
}

/// The confirmed blocks of a chain are those of the heights 0, 1, 2 and
/// so on without a gap, up to the chain's next height.
pub proof fn lemma_heights_without_gaps(worker: WorkerState, i: int)
    requires
        worker.well_formed(),
        0 <= i < worker.confirmed@.len(),
    ensures
        worker.confirmed@[i].height.0 == i,
        worker.confirmed@.len() == worker.next_block_height.0,
{
}

/// Every blob that a confirmed block refers to is held by the validator
/// and can be read.
pub proof fn lemma_confirmed_blobs_held(worker: WorkerState, i: int, k: int)
    requires
        worker.well_formed(),
        0 <= i < worker.confirmed@.len(),
        0 <= k < worker.confirmed@[i].blobs@.len(),
    ensures
        worker.blobs@.contains(worker.confirmed@[i].blobs@[k]),
{
}

/// A block that can be staged refers to no blob that the validator
/// lacks.
pub proof fn lemma_staged_blobs_at_hand(worker: WorkerState, block: Block, k: int)
    requires
        worker.stage_spec(block) is Ok,
        0 <= k < block.blobs@.len(),
    ensures
        worker.blobs@.contains(block.blobs@[k]) || worker.pending_blobs@.contains(
            block.blobs@[k],
        ),
{
    let not_held = missing_from(worker.blobs@, block.blobs@);
    lemma_nothing_missing(worker.pending_blobs@, not_held);
    lemma_missing_holds_the_rest(worker.blobs@, block.blobs@, k);
    if !worker.blobs@.contains(block.blobs@[k]) {
        assert(not_held.contains(block.blobs@[k]));
        let at = choose|at: int| 0 <= at < not_held.len() && not_held[at] == block.blobs@[k];
        assert(worker.pending_blobs@.contains(not_held[at]));
    }
}

/// Whatever is wanted and not held is among the missing.
proof fn lemma_missing_holds_the_rest(held: Set<BlobId>, wanted: Seq<BlobId>, k: int)
    requires
        0 <= k < wanted.len(),
    ensures
        held.contains(wanted[k]) || missing_from(held, wanted).contains(wanted[k]),
    decreases wanted.len(),
{
    let before = wanted.drop_last();
    if k < wanted.len() - 1 {
        lemma_missing_holds_the_rest(held, before, k);
        assert(before[k] == wanted[k]);
        if !held.contains(wanted[k]) {
            let at = choose|at: int|
                0 <= at < missing_from(held, before).len() && missing_from(held, before)[at]
                    == wanted[k];
            if !held.contains(wanted.last()) {
                assert(missing_from(held, wanted)[at] == wanted[k]);
            }
        }
    } else {
        if !held.contains(wanted[k]) {
            assert(wanted.last() == wanted[k]);
            assert(missing_from(held, wanted)[missing_from(held, wanted).len() - 1]
                == wanted[k]);
        }
    }
}

/// Once the blobs that a validator reported as lacking are handed in for
/// the next block, it lacks none of the wanted blobs: `pending_after`
/// holds what was pending before and every blob that was lacking.
pub proof fn lemma_repair_completes(
    held: Set<BlobId>,
    pending: Set<BlobId>,
    pending_after: Set<BlobId>,
    wanted: Seq<BlobId>,
)
    requires
        forall|id: BlobId| pending.contains(id) ==> pending_after.contains(id),
        forall|i: int|
            0 <= i < missing_from(pending, missing_from(held, wanted)).len()
                ==> pending_after.contains(
                #[trigger] missing_from(pending, missing_from(held, wanted))[i],
            ),
    ensures
        missing_from(pending_after, missing_from(held, wanted)).len() == 0,
{
    let not_held = missing_from(held, wanted);
    let lacking = missing_from(pending, not_held);
    assert forall|i: int| 0 <= i < not_held.len() implies pending_after.contains(
        #[trigger] not_held[i],
    ) by {
        lemma_missing_holds_the_rest(pending, not_held, i);
        if !pending.contains(not_held[i]) {
            let at = choose|at: int| 0 <= at < lacking.len() && lacking[at] == not_held[i];
            assert(pending_after.contains(lacking[at]));
        }
    }
    lemma_nothing_missing(pending_after, not_held);
}

} // verus!
