use linera_toolkit::blobs::BlobStore;
use linera_toolkit::chain::{
    AccountOwner, Amount, ApplicationId, BlobId, BlockHeight, ChainId, CryptoHash, Operation,
    Recipient, Round, ValidatorPublicKey,
};
use linera_toolkit::client::{heights_to_update, QuorumCollector, QuorumStep, ValidatorAnswer};
use linera_toolkit::committee::{CertificateError, Committee, Member};
use linera_toolkit::crosschain::{BundleId, Inbox, MessageBundle, Outbox};
use linera_toolkit::execution::{execute, Block, ExecutionOutcome};
use linera_toolkit::faults::{
    certificate_response, proposal_response, ArithmeticError, CertificateKind, FaultType,
    NodeError,
};
use linera_toolkit::manager::{
    next_round, rank, CertificateOutcome, ChainManager, ManagerError, Proposal, RoundBlock,
    Timestamp, Vote, VoteKind,
};
use linera_toolkit::notifier::{Notification, Subscription};
use linera_toolkit::query::{BlockHeightRange, ChainInfoQuery, ChainManagerInfo};
use linera_toolkit::worker::{Confirmation, ConfirmedBlock, WorkerError, WorkerState};

fn key(n: u8) -> ValidatorPublicKey {
    ValidatorPublicKey([n; 33])
}

fn hash(n: u8) -> CryptoHash {
    CryptoHash([n; 32])
}

fn chain(n: u8) -> ChainId {
    ChainId([n; 32])
}

fn committee(weights: &[u64]) -> Committee {
    Committee::new(
        weights
            .iter()
            .enumerate()
            .map(|(i, votes)| Member {
                public_key: key(i as u8),
                votes: *votes,
            })
            .collect(),
    )
    .unwrap()
}

const GRACE: u64 = 500_000;

#[test]
fn quorum_is_more_than_two_thirds() {
    for (weights, quorum, validity) in [
        (vec![1, 1, 1, 1], 3, 2),
        (vec![1, 1, 1], 3, 2),
        (vec![1, 1, 1, 1, 1, 1, 1], 5, 3),
        (vec![10, 20, 30], 41, 21),
        (vec![5], 4, 2),
        (vec![], 1, 1),
        (vec![u64::MAX], u64::MAX / 3 * 2 + 1, u64::MAX / 3 + 1),
    ] {
        let committee = committee(&weights);
        assert_eq!(committee.total_votes(), weights.iter().sum::<u64>());
        assert_eq!(committee.quorum_threshold(), quorum, "{weights:?}");
        assert_eq!(committee.validity_threshold(), validity, "{weights:?}");
    }
}

#[test]
fn committee_needs_distinct_members_and_a_total_that_fits() {
    let member = |n, votes| Member {
        public_key: key(n),
        votes,
    };
    assert!(Committee::new(vec![member(1, 1), member(2, 1), member(1, 5)]).is_none());
    assert!(Committee::new(vec![member(1, u64::MAX), member(2, 1)]).is_none());
    let committee = Committee::new(vec![member(1, u64::MAX - 1), member(2, 1)]).unwrap();
    assert_eq!(committee.total_votes(), u64::MAX);
    assert_eq!(committee.weight(&key(1)), u64::MAX - 1);
    assert_eq!(committee.weight(&key(3)), 0);
    assert!(committee.has_member(&key(2)));
    assert!(!committee.has_member(&key(3)));
}

#[test]
fn certificates_need_a_quorum_of_distinct_members() {
    let committee = committee(&[1, 1, 1, 1]);
    assert_eq!(committee.check_signers(&vec![key(0), key(2), key(3)]), Ok(()));
    assert_eq!(
        committee.check_signers(&vec![key(3), key(2), key(1), key(0)]),
        Ok(())
    );
    assert_eq!(
        committee.check_signers(&vec![key(0), key(2)]),
        Err(CertificateError::InsufficientVotes {
            votes: 2,
            quorum: 3
        })
    );
    assert_eq!(
        committee.check_signers(&vec![]),
        Err(CertificateError::InsufficientVotes {
            votes: 0,
            quorum: 3
        })
    );
    assert_eq!(
        committee.check_signers(&vec![key(0), key(2), key(0), key(9)]),
        Err(CertificateError::DuplicateSigner(key(0)))
    );
    assert_eq!(
        committee.check_signers(&vec![key(0), key(9), key(0)]),
        Err(CertificateError::UnknownSigner(key(9)))
    );
    let weighted = self::committee(&[10, 20, 30]);
    assert_eq!(weighted.check_signers(&vec![key(1), key(2)]), Ok(()));
    assert_eq!(
        weighted.check_signers(&vec![key(0), key(2)]),
        Err(CertificateError::InsufficientVotes {
            votes: 40,
            quorum: 41
        })
    );
}

#[test]
fn rounds_are_ordered_by_kind_and_number() {
    let rounds = [
        Round::Fast,
        Round::MultiLeader(0),
        Round::MultiLeader(7),
        Round::MultiLeader(u32::MAX),
        Round::SingleLeader(0),
        Round::SingleLeader(u32::MAX),
        Round::Validator(0),
        Round::Validator(u32::MAX),
    ];
    for pair in rounds.windows(2) {
        assert!(rank(pair[0]) < rank(pair[1]));
    }
    assert_eq!(next_round(Round::Fast), Some(Round::MultiLeader(0)));
    assert_eq!(next_round(Round::MultiLeader(4)), Some(Round::MultiLeader(5)));
    assert_eq!(next_round(Round::SingleLeader(0)), Some(Round::SingleLeader(1)));
    assert_eq!(next_round(Round::Validator(8)), Some(Round::Validator(9)));
    assert_eq!(next_round(Round::MultiLeader(u32::MAX)), None);
    assert_eq!(next_round(Round::Validator(u32::MAX)), None);
}

fn proposal(round: Round, block: u8) -> Proposal {
    Proposal {
        height: BlockHeight(0),
        round,
        block: hash(block),
        timestamp: Timestamp(0),
        validated_certificate: None,
    }
}

fn vote(kind: VoteKind, round: Round, block: u8) -> Vote {
    Vote {
        kind,
        height: BlockHeight(0),
        round,
        block: Some(hash(block)),
    }
}

#[test]
fn proposal_earns_one_validating_vote_per_round() {
    let round = Round::MultiLeader(0);
    let mut manager = ChainManager::new(BlockHeight(0), round, Timestamp(0), GRACE);
    assert_eq!(manager.pending_vote(), None);
    assert_eq!(
        manager.handle_block_proposal(proposal(round, 1), Timestamp(10), GRACE),
        Ok((vote(VoteKind::Validate, round, 1), None))
    );
    // The same proposal earns the same vote again.
    assert_eq!(
        manager.handle_block_proposal(proposal(round, 1), Timestamp(10), GRACE),
        Ok((vote(VoteKind::Validate, round, 1), None))
    );
    assert_eq!(
        manager.handle_block_proposal(proposal(round, 2), Timestamp(10), GRACE),
        Err(ManagerError::AlreadyVoted(RoundBlock {
            round,
            block: hash(1)
        }))
    );
    assert_eq!(manager.pending_vote(), Some(vote(VoteKind::Validate, round, 1)));
}

#[test]
fn proposals_must_be_for_the_height_and_round_voted_on() {
    let round = Round::MultiLeader(1);
    let mut manager = ChainManager::new(BlockHeight(0), round, Timestamp(0), GRACE);
    let before = manager;
    assert_eq!(
        manager.handle_block_proposal(
            Proposal {
                height: BlockHeight(1),
                ..proposal(round, 1)
            },
            Timestamp(0),
            GRACE
        ),
        Err(ManagerError::UnexpectedBlockHeight {
            expected: BlockHeight(0),
            found: BlockHeight(1)
        })
    );
    for other in [Round::MultiLeader(0), Round::MultiLeader(2), Round::Fast] {
        assert_eq!(
            manager.handle_block_proposal(proposal(other, 1), Timestamp(0), GRACE),
            Err(ManagerError::WrongRound(round))
        );
    }
    assert_eq!(manager, before);
}

#[test]
fn carried_certificate_must_be_earlier_and_for_the_block() {
    let round = Round::MultiLeader(2);
    let mut manager = ChainManager::new(BlockHeight(0), round, Timestamp(0), GRACE);
    let carrying = |carried_round, carried_block| Proposal {
        validated_certificate: Some(RoundBlock {
            round: carried_round,
            block: hash(carried_block),
        }),
        ..proposal(round, 1)
    };
    assert_eq!(
        manager.handle_block_proposal(carrying(Round::MultiLeader(1), 2), Timestamp(0), GRACE),
        Err(ManagerError::InvalidCarriedCertificate)
    );
    assert_eq!(
        manager.handle_block_proposal(carrying(Round::MultiLeader(2), 1), Timestamp(0), GRACE),
        Err(ManagerError::InvalidCarriedCertificate)
    );
    assert_eq!(
        manager.handle_block_proposal(carrying(Round::MultiLeader(1), 1), Timestamp(0), GRACE),
        Ok((vote(VoteKind::Validate, round, 1), None))
    );
}

#[test]
fn votes_for_blocks_of_the_near_future_are_withheld() {
    let round = Round::MultiLeader(0);
    let mut manager = ChainManager::new(BlockHeight(0), round, Timestamp(0), GRACE);
    let at = |timestamp| Proposal {
        timestamp: Timestamp(timestamp),
        ..proposal(round, 1)
    };
    assert_eq!(
        manager.handle_block_proposal(at(1_000 + GRACE + 1), Timestamp(1_000), GRACE),
        Err(ManagerError::InvalidTimestamp)
    );
    assert_eq!(
        manager.handle_block_proposal(at(1_000 + GRACE), Timestamp(1_000), GRACE),
        Ok((
            vote(VoteKind::Validate, round, 1),
            Some(Timestamp(1_000 + GRACE))
        ))
    );
    assert_eq!(
        manager.handle_block_proposal(at(1_000), Timestamp(1_000), GRACE),
        Ok((vote(VoteKind::Validate, round, 1), None))
    );
    assert_eq!(
        manager.handle_block_proposal(at(u64::MAX), Timestamp(u64::MAX - 1), GRACE),
        Ok((vote(VoteKind::Validate, round, 1), Some(Timestamp(u64::MAX))))
    );
}

#[test]
fn fast_round_proposal_is_confirmed_at_once() {
    let mut manager = ChainManager::new(BlockHeight(0), Round::Fast, Timestamp(0), GRACE);
    assert_eq!(
        manager.handle_block_proposal(proposal(Round::Fast, 1), Timestamp(0), GRACE),
        Ok((vote(VoteKind::Confirm, Round::Fast, 1), None))
    );
    assert_eq!(
        manager.handle_block_proposal(proposal(Round::Fast, 2), Timestamp(0), GRACE),
        Err(ManagerError::HasLockedBlock(RoundBlock {
            round: Round::Fast,
            block: hash(1)
        }))
    );
    assert_eq!(
        manager.pending_vote(),
        Some(vote(VoteKind::Confirm, Round::Fast, 1))
    );
}

#[test]
fn validated_certificate_locks_and_earns_one_confirming_vote() {
    let mut manager =
        ChainManager::new(BlockHeight(0), Round::MultiLeader(0), Timestamp(0), GRACE);
    let round = Round::MultiLeader(2);
    assert_eq!(
        manager.handle_validated_certificate(BlockHeight(0), round, hash(1), Timestamp(7), GRACE),
        Ok(CertificateOutcome::Vote(vote(VoteKind::Confirm, round, 1)))
    );
    assert_eq!(manager.current_round, round);
    assert_eq!(
        manager.locked_validated_certificate,
        Some(RoundBlock {
            round,
            block: hash(1)
        })
    );
    assert_eq!(manager.leader_timeout, Some(Timestamp(7 + GRACE)));
    assert_eq!(
        manager.handle_validated_certificate(BlockHeight(0), round, hash(1), Timestamp(9), GRACE),
        Ok(CertificateOutcome::Accepted)
    );
    assert_eq!(manager.leader_timeout, Some(Timestamp(7 + GRACE)));
    assert_eq!(
        manager.handle_validated_certificate(BlockHeight(0), round, hash(2), Timestamp(9), GRACE),
        Err(ManagerError::AlreadyVoted(RoundBlock {
            round,
            block: hash(1)
        }))
    );
    assert_eq!(
        manager.handle_validated_certificate(
            BlockHeight(0),
            Round::MultiLeader(1),
            hash(2),
            Timestamp(9),
            GRACE
        ),
        Ok(CertificateOutcome::Stale)
    );
    assert_eq!(
        manager.handle_validated_certificate(
            BlockHeight(3),
            round,
            hash(1),
            Timestamp(9),
            GRACE
        ),
        Err(ManagerError::UnexpectedBlockHeight {
            expected: BlockHeight(0),
            found: BlockHeight(3)
        })
    );
    // A certificate of a later round moves the lock.
    let later = Round::MultiLeader(3);
    assert_eq!(
        manager.handle_validated_certificate(BlockHeight(0), later, hash(2), Timestamp(9), GRACE),
        Ok(CertificateOutcome::Vote(vote(VoteKind::Confirm, later, 2)))
    );
    assert_eq!(
        manager.pending_vote(),
        Some(vote(VoteKind::Confirm, later, 2))
    );
}

#[test]
fn timeout_certificate_opens_the_next_round() {
    let mut manager =
        ChainManager::new(BlockHeight(0), Round::MultiLeader(0), Timestamp(0), GRACE);
    assert_eq!(
        manager.handle_timeout_certificate(
            BlockHeight(0),
            Round::MultiLeader(0),
            Timestamp(5),
            GRACE
        ),
        Ok(CertificateOutcome::Accepted)
    );
    assert_eq!(manager.current_round, Round::MultiLeader(1));
    assert_eq!(manager.leader_timeout, Some(Timestamp(5 + GRACE)));
    assert_eq!(
        manager.handle_timeout_certificate(
            BlockHeight(0),
            Round::MultiLeader(0),
            Timestamp(6),
            GRACE
        ),
        Ok(CertificateOutcome::Stale)
    );
    manager
        .handle_validated_certificate(
            BlockHeight(0),
            Round::MultiLeader(1),
            hash(4),
            Timestamp(6),
            GRACE,
        )
        .unwrap();
    assert_eq!(
        manager.handle_timeout_certificate(
            BlockHeight(0),
            Round::MultiLeader(5),
            Timestamp(7),
            GRACE
        ),
        Ok(CertificateOutcome::ProposeAgain(hash(4)))
    );
    assert_eq!(manager.current_round, Round::MultiLeader(6));
    assert_eq!(
        manager.handle_timeout_certificate(
            BlockHeight(0),
            Round::MultiLeader(u32::MAX),
            Timestamp(7),
            GRACE
        ),
        Err(ManagerError::LastRound)
    );
}

#[test]
fn round_is_timed_out_once_after_its_deadline() {
    let round = Round::SingleLeader(0);
    let mut manager = ChainManager::new(BlockHeight(2), round, Timestamp(100), GRACE);
    assert_eq!(manager.vote_timeout(Timestamp(100 + GRACE - 1)), None);
    assert_eq!(
        manager.vote_timeout(Timestamp(100 + GRACE)),
        Some(Vote {
            kind: VoteKind::Timeout,
            height: BlockHeight(2),
            round,
            block: None
        })
    );
    assert_eq!(manager.vote_timeout(Timestamp(u64::MAX)), None);
    manager
        .handle_timeout_certificate(BlockHeight(2), round, Timestamp(1_000_000), GRACE)
        .unwrap();
    assert_eq!(manager.vote_timeout(Timestamp(1_000_000)), None);
    assert_eq!(
        manager
            .vote_timeout(Timestamp(1_000_000 + GRACE))
            .map(|vote| vote.round),
        Some(Round::SingleLeader(1))
    );
}

fn bundle(origin: u8, certificate: u8, index: u64, amount: u128) -> MessageBundle {
    MessageBundle {
        origin: chain(origin),
        target: chain(9),
        id: BundleId {
            certificate_hash: hash(certificate),
            index,
        },
        height: BlockHeight(certificate as u64),
        amount: Amount(amount),
    }
}

#[test]
fn delivery_moves_messages_from_outbox_to_inbox() {
    let mut outbox = Outbox::new();
    let mut inbox = Inbox::new();
    let sent = vec![bundle(1, 1, 0, 5), bundle(1, 1, 1, 6), bundle(1, 2, 0, 7)];
    for bundle in &sent {
        outbox.schedule(*bundle);
    }
    let acknowledged = inbox.receive(&outbox.queue);
    assert_eq!(
        acknowledged,
        sent.iter().map(|bundle| bundle.id).collect::<Vec<_>>()
    );
    assert_eq!(inbox.queue, sent);
    outbox.mark_received(&acknowledged);
    assert!(outbox.queue.is_empty());
    // After the block that takes everything in, both are empty.
    assert_eq!(inbox.take_in(3), sent);
    assert!(inbox.queue.is_empty());
}

#[test]
fn messages_are_received_once_and_in_order() {
    let mut inbox = Inbox::new();
    inbox.receive(&vec![bundle(1, 1, 0, 5)]);
    // The first bundle is delivered again, together with two new ones and
    // a repetition.
    let acknowledged = inbox.receive(&vec![
        bundle(1, 1, 0, 5),
        bundle(1, 2, 0, 6),
        bundle(1, 3, 0, 7),
        bundle(1, 2, 0, 6),
    ]);
    assert_eq!(acknowledged.len(), 4);
    assert_eq!(
        inbox.queue,
        vec![bundle(1, 1, 0, 5), bundle(1, 2, 0, 6), bundle(1, 3, 0, 7)]
    );
    assert_eq!(inbox.take_in(1), vec![bundle(1, 1, 0, 5)]);
    // What a block has taken in does not come back.
    inbox.receive(&vec![bundle(1, 1, 0, 5)]);
    assert_eq!(inbox.queue, vec![bundle(1, 2, 0, 6), bundle(1, 3, 0, 7)]);
    assert_eq!(inbox.take_in(0), vec![]);
}

#[test]
fn outbox_keeps_what_was_not_acknowledged() {
    let mut outbox = Outbox::new();
    for certificate in 1..=4 {
        outbox.schedule(bundle(1, certificate, 0, 1));
    }
    outbox.mark_received(&vec![
        bundle(1, 3, 0, 1).id,
        bundle(1, 1, 0, 1).id,
        bundle(1, 2, 1, 1).id,
    ]);
    assert_eq!(outbox.queue, vec![bundle(1, 2, 0, 1), bundle(1, 4, 0, 1)]);
    outbox.mark_received(&vec![]);
    assert_eq!(outbox.queue.len(), 2);
}

fn transfer(to: u8, amount: u128) -> Operation {
    Operation::Transfer {
        owner: AccountOwner::Reserved(0),
        recipient: Recipient::Account {
            chain_id: chain(to),
            owner: AccountOwner::Reserved(0),
        },
        amount: Amount(amount),
    }
}

#[test]
fn execution_credits_then_transfers() {
    assert_eq!(
        execute(
            Amount(10),
            &vec![bundle(2, 1, 0, 5)],
            &vec![transfer(3, 12), transfer(4, 3)]
        ),
        Ok(ExecutionOutcome {
            balance: Amount(0),
            sent: vec![(chain(3), Amount(12)), (chain(4), Amount(3))],
            closed: false
        })
    );
    assert_eq!(
        execute(Amount(10), &vec![], &vec![transfer(3, 11)]),
        Err(ArithmeticError::Underflow)
    );
    assert_eq!(
        execute(
            Amount(u128::MAX),
            &vec![bundle(2, 1, 0, 1)],
            &vec![transfer(3, 5)]
        ),
        Err(ArithmeticError::Overflow)
    );
    assert_eq!(
        execute(
            Amount(4),
            &vec![],
            &vec![
                Operation::Transfer {
                    owner: AccountOwner::Reserved(0),
                    recipient: Recipient::Burn,
                    amount: Amount(1)
                },
                Operation::FungibleTransfer {
                    application_id: ApplicationId([1; 32]),
                    owner: AccountOwner::Reserved(0),
                    amount: Amount(100),
                    target_account: linera_toolkit::chain::Account {
                        chain_id: chain(3),
                        owner: AccountOwner::Reserved(0)
                    }
                },
                Operation::CloseChain
            ]
        ),
        Ok(ExecutionOutcome {
            balance: Amount(3),
            sent: vec![],
            closed: true
        })
    );
}

fn block(chain_id: u8, height: u64, operations: Vec<Operation>) -> Block {
    Block {
        chain_id: chain(chain_id),
        height: BlockHeight(height),
        previous_block_hash: if height == 0 {
            None
        } else {
            Some(block_hash(chain_id, height - 1))
        },
        epoch: 0,
        timestamp: Timestamp(0),
        operations,
        incoming_bundles: vec![],
        blobs: vec![],
        hash: block_hash(chain_id, height),
    }
}

fn block_hash(chain_id: u8, height: u64) -> CryptoHash {
    let mut bytes = [chain_id; 32];
    bytes[0] = height as u8;
    CryptoHash(bytes)
}

fn worker(chain_id: u8, balance: u128, first_round: Round) -> WorkerState {
    WorkerState::new(
        chain(chain_id),
        committee(&[1, 1, 1, 1]),
        Amount(balance),
        first_round,
        GRACE,
        Timestamp(0),
    )
}

fn quorum() -> Vec<ValidatorPublicKey> {
    vec![key(1), key(2), key(3)]
}

#[test]
fn transfer_takes_from_the_sender_and_gives_to_the_recipient() {
    let mut sender = worker(1, 100, Round::Fast);
    let mut recipient = worker(2, 7, Round::Fast);
    let sent = match sender
        .handle_confirmed_certificate(&block(1, 0, vec![transfer(2, 30)]), &quorum(), Timestamp(1))
        .unwrap()
    {
        Confirmation::Committed(bundles) => bundles,
        Confirmation::AlreadyConfirmed => panic!("the block is new"),
    };
    assert_eq!(sender.balance, Amount(70));
    assert_eq!(
        sent,
        vec![MessageBundle {
            origin: chain(1),
            target: chain(2),
            id: BundleId {
                certificate_hash: block_hash(1, 0),
                index: 0
            },
            height: BlockHeight(0),
            amount: Amount(30)
        }]
    );
    assert_eq!(sender.outbox.queue, sent);
    // The recipient's balance changes once the message is received and
    // taken in by a block.
    let acknowledged = recipient.inbox.receive(&sent);
    sender.outbox.mark_received(&acknowledged);
    assert!(sender.outbox.queue.is_empty());
    assert_eq!(recipient.balance, Amount(7));
    let receiving = Block {
        incoming_bundles: sent,
        ..block(2, 0, vec![])
    };
    recipient
        .handle_confirmed_certificate(&receiving, &quorum(), Timestamp(2))
        .unwrap();
    assert_eq!(recipient.balance, Amount(37));
    assert!(recipient.inbox.queue.is_empty());
}

#[test]
fn confirmed_heights_have_no_gaps() {
    let mut worker = worker(1, 0, Round::Fast);
    assert_eq!(
        worker.handle_confirmed_certificate(&block(1, 1, vec![]), &quorum(), Timestamp(0)),
        Err(WorkerError::MissingEarlierBlocks {
            current_block_height: BlockHeight(0)
        })
    );
    for height in 0..5 {
        assert_eq!(
            worker.handle_confirmed_certificate(&block(1, height, vec![]), &quorum(), Timestamp(0)),
            Ok(Confirmation::Committed(vec![]))
        );
        assert_eq!(worker.next_block_height, BlockHeight(height + 1));
        assert_eq!(worker.block_hash, Some(block_hash(1, height)));
        assert_eq!(worker.manager.height, BlockHeight(height + 1));
    }
    assert_eq!(
        worker.handle_confirmed_certificate(&block(1, 2, vec![]), &quorum(), Timestamp(0)),
        Ok(Confirmation::AlreadyConfirmed)
    );
    assert_eq!(
        worker.handle_confirmed_certificate(&block(1, 7, vec![]), &quorum(), Timestamp(0)),
        Err(WorkerError::MissingEarlierBlocks {
            current_block_height: BlockHeight(5)
        })
    );
    assert_eq!(
        worker.confirmed,
        (0..5)
            .map(|height| ConfirmedBlock {
                height: BlockHeight(height),
                hash: block_hash(1, height),
                blobs: vec![]
            })
            .collect::<Vec<_>>()
    );
}

#[test]
fn certificates_without_quorum_are_refused() {
    let mut worker = worker(1, 0, Round::MultiLeader(0));
    let two = vec![key(1), key(2)];
    let refusal = WorkerError::Certificate(CertificateError::InsufficientVotes {
        votes: 2,
        quorum: 3,
    });
    assert_eq!(
        worker.handle_confirmed_certificate(&block(1, 0, vec![]), &two, Timestamp(0)),
        Err(WorkerError::Certificate(
            CertificateError::InsufficientVotes {
                votes: 2,
                quorum: 3
            }
        ))
    );
    assert_eq!(
        worker.handle_validated_certificate(
            BlockHeight(0),
            Round::MultiLeader(0),
            block_hash(1, 0),
            &two,
            Timestamp(0)
        ),
        Err(refusal)
    );
    assert_eq!(
        worker.handle_timeout_certificate(
            BlockHeight(0),
            Round::MultiLeader(0),
            &vec![key(1), key(2), key(2)],
            Timestamp(0)
        ),
        Err(WorkerError::Certificate(CertificateError::DuplicateSigner(
            key(2)
        )))
    );
    assert_eq!(worker.next_block_height, BlockHeight(0));
    assert_eq!(worker.manager.current_round, Round::MultiLeader(0));
}

#[test]
fn blocks_are_staged_before_they_are_voted_on() {
    let mut worker = worker(1, 10, Round::MultiLeader(0));
    let round = Round::MultiLeader(0);
    let propose = |worker: &mut WorkerState, block: &Block| {
        worker.handle_block_proposal(block, round, None, Timestamp(0))
    };
    assert_eq!(
        propose(&mut worker, &block(2, 0, vec![])),
        Err(WorkerError::WrongChain)
    );
    assert_eq!(
        propose(&mut worker, &block(1, 1, vec![])),
        Err(WorkerError::UnexpectedBlockHeight {
            expected: BlockHeight(0),
            found: BlockHeight(1)
        })
    );
    assert_eq!(
        propose(
            &mut worker,
            &Block {
                epoch: 1,
                ..block(1, 0, vec![])
            }
        ),
        Err(WorkerError::InvalidEpoch {
            chain_epoch: 0,
            epoch: 1
        })
    );
    assert_eq!(
        propose(
            &mut worker,
            &Block {
                previous_block_hash: Some(hash(1)),
                ..block(1, 0, vec![])
            }
        ),
        Err(WorkerError::InvalidBlockChaining)
    );
    assert_eq!(
        propose(
            &mut worker,
            &Block {
                incoming_bundles: vec![bundle(2, 1, 0, 1)],
                ..block(1, 0, vec![])
            }
        ),
        Err(WorkerError::UnexpectedIncomingBundles)
    );
    assert_eq!(
        propose(&mut worker, &block(1, 0, vec![transfer(2, 11)])),
        Err(WorkerError::Execution(ArithmeticError::Underflow))
    );
    assert_eq!(
        worker.handle_block_proposal(&block(1, 0, vec![]), Round::MultiLeader(1), None, Timestamp(0)),
        Err(WorkerError::Manager(ManagerError::WrongRound(round)))
    );
    assert_eq!(
        propose(&mut worker, &block(1, 0, vec![transfer(2, 10)])),
        Ok((
            Vote {
                kind: VoteKind::Validate,
                height: BlockHeight(0),
                round,
                block: Some(block_hash(1, 0))
            },
            None
        ))
    );
    // Staging changes nothing but the manager.
    assert_eq!(worker.balance, Amount(10));
    assert!(worker.outbox.queue.is_empty());
}

#[test]
fn closed_chain_takes_no_more_blocks() {
    let mut worker = worker(1, 0, Round::Fast);
    worker
        .handle_confirmed_certificate(
            &block(1, 0, vec![Operation::CloseChain]),
            &quorum(),
            Timestamp(0),
        )
        .unwrap();
    assert!(worker.closed);
    assert_eq!(
        worker.handle_block_proposal(&block(1, 1, vec![]), Round::Fast, None, Timestamp(0)),
        Err(WorkerError::InactiveChain)
    );
    assert_eq!(
        worker.handle_confirmed_certificate(&block(1, 1, vec![]), &quorum(), Timestamp(0)),
        Err(WorkerError::InactiveChain)
    );
}

#[test]
fn blob_store_is_written_once() {
    let blob = |n: u8| BlobId([n; 32]);
    let mut store = BlobStore::new();
    assert!(!store.read_blob(&blob(1)));
    store.write_blob(blob(1));
    store.write_blob(blob(2));
    store.write_blob(blob(1));
    assert!(store.read_blob(&blob(1)));
    assert!(store.read_blob(&blob(2)));
    assert_eq!(
        store.missing_blobs(&vec![blob(3), blob(1), blob(4), blob(3), blob(2)]),
        vec![blob(3), blob(4), blob(3)]
    );
    assert_eq!(store.missing_blobs(&vec![]), vec![]);
}

struct Validator {
    key: ValidatorPublicKey,
    fault: FaultType,
    worker: WorkerState,
}

fn network(faults: [FaultType; 4], first_round: Round) -> Vec<Validator> {
    faults
        .into_iter()
        .enumerate()
        .map(|(i, fault)| Validator {
            key: key(i as u8),
            fault,
            worker: worker(1, fault.initial_balance(Amount(0)).0, first_round),
        })
        .collect()
}

fn node_error(error: WorkerError) -> NodeError {
    match error {
        WorkerError::BlobsNotFound(blob_ids) => NodeError::BlobsNotFound(blob_ids),
        error => NodeError::WorkerError {
            error: format!("{error:?}"),
        },
    }
}

fn answer<T>(response: Result<T, NodeError>) -> ValidatorAnswer {
    match response {
        Ok(_) => ValidatorAnswer::Agreed,
        Err(NodeError::BlobsNotFound(blob_ids)) => ValidatorAnswer::BlobsNotFound(blob_ids),
        Err(NodeError::ClientIoError { .. }) => ValidatorAnswer::Silent,
        Err(NodeError::ArithmeticError(_)) => ValidatorAnswer::Disagreed,
        Err(_) => ValidatorAnswer::Failed,
    }
}

/// Proposes `block` to the validators one after the other until a quorum
/// has voted for it, uploading missing blobs on the way, and returns the
/// validators that voted.
fn collect_votes(
    validators: &mut [Validator],
    committee: &Committee,
    block: &Block,
    round: Round,
) -> Result<Vec<ValidatorPublicKey>, QuorumStep> {
    let mut collector = QuorumCollector::new(3);
    for validator in validators.iter_mut() {
        loop {
            let handled = validator.fault.processes_proposal().then(|| {
                validator
                    .worker
                    .handle_block_proposal(block, round, None, Timestamp(0))
                    .map_err(node_error)
            });
            let response = proposal_response(validator.fault, handled);
            match collector.on_answer(committee, validator.key, answer(response)) {
                QuorumStep::Wait => break,
                QuorumStep::Repair(blob_ids) => {
                    for blob_id in blob_ids {
                        validator.worker.handle_pending_blob(blob_id);
                    }
                }
                QuorumStep::Quorum => return Ok(collector.signers),
                QuorumStep::Failure => return Err(QuorumStep::Failure),
            }
        }
    }
    Err(QuorumStep::Wait)
}

/// Hands the confirmed certificate of `block` to the validators that
/// signed it.
fn confirm(validators: &mut [Validator], block: &Block, signers: &Vec<ValidatorPublicKey>) {
    for validator in validators.iter_mut() {
        if !signers.contains(&validator.key) {
            continue;
        }
        let kind = CertificateKind::Confirmed;
        let handled = validator.fault.processes_certificate(kind).then(|| {
            validator
                .worker
                .handle_confirmed_certificate(block, signers, Timestamp(0))
                .map_err(node_error)
        });
        assert!(certificate_response(validator.fault, kind, handled).is_ok());
    }
}

#[test]
fn ten_blocks_are_confirmed_despite_a_malicious_validator() {
    let committee = committee(&[1, 1, 1, 1]);
    let mut validators = network(
        [
            FaultType::Malicious,
            FaultType::Honest,
            FaultType::Honest,
            FaultType::Honest,
        ],
        Round::Fast,
    );
    let blocks: Vec<Block> = (0..10).map(|height| block(1, height, vec![])).collect();
    for block in &blocks {
        let signers = collect_votes(&mut validators, &committee, block, Round::Fast).unwrap();
        assert_eq!(signers, vec![key(1), key(2), key(3)]);
        confirm(&mut validators, block, &signers);
    }
    for validator in &validators[1..] {
        assert_eq!(validator.worker.next_block_height, BlockHeight(10));
    }
    // The malicious validator is behind, and is brought up to date.
    let tip = BlockHeight(10);
    let behind = &mut validators[0];
    assert_eq!(behind.worker.next_block_height, BlockHeight(0));
    let (from, to) = heights_to_update(behind.worker.next_block_height, tip).unwrap();
    assert_eq!((from, to), (BlockHeight(0), tip));
    for height in from.0..to.0 {
        assert!(behind.fault.processes_certificate(CertificateKind::Confirmed));
        behind
            .worker
            .handle_confirmed_certificate(&blocks[height as usize], &quorum(), Timestamp(0))
            .unwrap();
    }
    assert_eq!(behind.worker.next_block_height, tip);
    assert_eq!(behind.worker.block_hash, Some(block_hash(1, 9)));
    assert_eq!(heights_to_update(behind.worker.next_block_height, tip), None);
}

#[test]
fn missing_blob_is_uploaded_and_the_block_confirmed() {
    let committee = committee(&[1, 1, 1, 1]);
    let mut validators = network([FaultType::Honest; 4], Round::Fast);
    let blob = BlobId([42; 32]);
    let with_blob = Block {
        blobs: vec![blob],
        ..block(1, 0, vec![])
    };
    // Asked without repair, the validator reports the blob as missing.
    assert_eq!(
        validators[0]
            .worker
            .handle_block_proposal(&with_blob, Round::Fast, None, Timestamp(0)),
        Err(WorkerError::BlobsNotFound(vec![blob]))
    );
    assert_eq!(validators[0].worker.missing_blob_ids(&vec![blob]), vec![blob]);
    let signers = collect_votes(&mut validators, &committee, &with_blob, Round::Fast).unwrap();
    assert_eq!(signers, vec![key(0), key(1), key(2)]);
    assert!(validators[0].worker.download_pending_blob(&blob));
    assert!(!validators[0].worker.download_blob(&blob));
    confirm(&mut validators, &with_blob, &signers);
    for validator in &validators[..3] {
        assert_eq!(validator.worker.next_block_height, BlockHeight(1));
        assert!(validator.worker.download_blob(&blob));
        assert!(!validator.worker.download_pending_blob(&blob));
        assert_eq!(validator.worker.missing_blob_ids(&vec![blob]), vec![]);
    }
    // The validator that was not asked lacks the blob of the confirmed
    // block, and cannot commit the block before it has it.
    assert_eq!(
        validators[3]
            .worker
            .handle_confirmed_certificate(&with_blob, &signers, Timestamp(0)),
        Err(WorkerError::BlobsNotFound(vec![blob]))
    );
    validators[3].worker.upload_blob(blob);
    assert!(validators[3]
        .worker
        .handle_confirmed_certificate(&with_blob, &signers, Timestamp(0))
        .is_ok());
}

#[test]
fn repairs_are_bounded() {
    let committee = committee(&[1, 1, 1, 1]);
    let mut collector = QuorumCollector::new(2);
    let blobs = || ValidatorAnswer::BlobsNotFound(vec![BlobId([1; 32])]);
    assert_eq!(
        collector.on_answer(&committee, key(0), blobs()),
        QuorumStep::Repair(vec![BlobId([1; 32])])
    );
    assert_eq!(
        collector.on_answer(&committee, key(0), blobs()),
        QuorumStep::Repair(vec![BlobId([1; 32])])
    );
    // No repair is left: the validator counts as failed.
    assert_eq!(collector.on_answer(&committee, key(0), blobs()), QuorumStep::Wait);
    assert_eq!(collector.failed, vec![key(0)]);
    assert_eq!(
        collector.on_answer(&committee, key(1), blobs()),
        QuorumStep::Failure
    );
}

#[test]
fn quorum_forms_over_silence_and_disagreement() {
    let committee = committee(&[1, 1, 1, 1]);
    let mut collector = QuorumCollector::new(0);
    assert_eq!(
        collector.on_answer(&committee, key(0), ValidatorAnswer::Silent),
        QuorumStep::Wait
    );
    assert_eq!(
        collector.on_answer(&committee, key(1), ValidatorAnswer::Agreed),
        QuorumStep::Wait
    );
    assert_eq!(
        collector.on_answer(&committee, key(1), ValidatorAnswer::Agreed),
        QuorumStep::Wait
    );
    assert_eq!(
        collector.on_answer(&committee, key(9), ValidatorAnswer::Agreed),
        QuorumStep::Wait
    );
    assert_eq!(
        collector.on_answer(&committee, key(2), ValidatorAnswer::Disagreed),
        QuorumStep::Wait
    );
    assert_eq!(
        collector.on_answer(&committee, key(2), ValidatorAnswer::Agreed),
        QuorumStep::Wait
    );
    assert_eq!(
        collector.on_answer(&committee, key(3), ValidatorAnswer::Failed),
        QuorumStep::Wait
    );
    // The silent validator answers after all.
    assert_eq!(
        collector.on_answer(&committee, key(0), ValidatorAnswer::Agreed),
        QuorumStep::Quorum
    );
    assert_eq!(collector.signers, vec![key(1), key(2), key(0)]);
    assert_eq!(collector.votes, 3);
    assert_eq!(committee.check_signers(&collector.signers), Ok(()));
}

#[test]
fn request_fails_when_more_than_a_third_has_failed() {
    let committee = committee(&[1, 1, 1, 1]);
    let mut collector = QuorumCollector::new(0);
    assert_eq!(
        collector.on_answer(&committee, key(0), ValidatorAnswer::Failed),
        QuorumStep::Wait
    );
    assert_eq!(
        collector.on_answer(&committee, key(0), ValidatorAnswer::Failed),
        QuorumStep::Wait
    );
    assert_eq!(
        collector.on_answer(&committee, key(1), ValidatorAnswer::Failed),
        QuorumStep::Failure
    );
    assert_eq!(collector.failed_votes, 2);
}

#[test]
fn lock_on_a_validated_block_is_respected() {
    let round_one = Round::MultiLeader(1);
    let round_two = Round::MultiLeader(2);
    let mut validators = network([FaultType::Honest; 4], round_one);
    let committee = committee(&[1, 1, 1, 1]);
    let block_b = block(1, 0, vec![]);
    let block_b_prime = Block {
        hash: hash(77),
        timestamp: Timestamp(1),
        ..block(1, 0, vec![])
    };
    // The first proposer gets a validated certificate for B in round 1.
    let signers = collect_votes(&mut validators, &committee, &block_b, round_one).unwrap();
    for validator in validators.iter_mut() {
        let confirming = validator.worker.handle_validated_certificate(
            BlockHeight(0),
            round_one,
            block_b.hash,
            &signers,
            Timestamp(0),
        );
        assert_eq!(
            confirming,
            Ok(CertificateOutcome::Vote(Vote {
                kind: VoteKind::Confirm,
                height: BlockHeight(0),
                round: round_one,
                block: Some(block_b.hash)
            }))
        );
    }
    // Round 1 times out.
    for validator in validators.iter_mut() {
        assert_eq!(
            validator.worker.handle_timeout_certificate(
                BlockHeight(0),
                round_one,
                &signers,
                Timestamp(GRACE)
            ),
            Ok(CertificateOutcome::ProposeAgain(block_b.hash))
        );
    }
    // The second proposer proposes B' in round 2: the validators reject.
    for validator in validators.iter_mut() {
        assert_eq!(
            validator
                .worker
                .handle_block_proposal(&block_b_prime, round_two, None, Timestamp(GRACE)),
            Err(WorkerError::Manager(ManagerError::HasLockedBlock(
                RoundBlock {
                    round: round_one,
                    block: block_b.hash
                }
            )))
        );
    }
    // It proposes B again, with the certificate: the validators accept.
    for validator in validators.iter_mut() {
        let carried = Some(RoundBlock {
            round: round_one,
            block: block_b.hash,
        });
        assert_eq!(
            validator
                .worker
                .handle_block_proposal(&block_b, round_two, carried, Timestamp(GRACE)),
            Ok((
                Vote {
                    kind: VoteKind::Validate,
                    height: BlockHeight(0),
                    round: round_two,
                    block: Some(block_b.hash)
                },
                None
            ))
        );
    }
}

#[test]
fn chain_info_tells_where_the_chain_stands() {
    let mut worker = worker(1, 9, Round::MultiLeader(0));
    for height in 0..4 {
        worker
            .handle_confirmed_certificate(&block(1, height, vec![]), &quorum(), Timestamp(7))
            .unwrap();
    }
    worker
        .handle_block_proposal(&block(1, 4, vec![]), Round::MultiLeader(0), None, Timestamp(8))
        .unwrap();
    let info = worker
        .handle_chain_info_query(ChainInfoQuery::new(chain(1)))
        .unwrap();
    assert_eq!(info.chain_id, chain(1));
    assert_eq!(info.epoch, 0);
    assert_eq!(info.next_block_height, BlockHeight(4));
    assert_eq!(info.block_hash, Some(block_hash(1, 3)));
    assert_eq!(info.chain_balance, Amount(9));
    assert_eq!(
        info.manager,
        ChainManagerInfo {
            current_round: Round::MultiLeader(0),
            leader_timeout: Some(Timestamp(7 + GRACE)),
            requested_locked_proposal: None,
            requested_locked_validated_certificate: None,
            requested_confirmed_vote: None,
        }
    );
    assert_eq!(info.requested_sent_certificate_hashes, vec![]);

    let info = worker
        .handle_chain_info_query(ChainInfoQuery::new(chain(1)).with_manager_values())
        .unwrap();
    assert_eq!(
        info.manager.requested_locked_proposal,
        Some(RoundBlock {
            round: Round::MultiLeader(0),
            block: block_hash(1, 4)
        })
    );

    let hashes = |start, limit| {
        let range = BlockHeightRange {
            start: BlockHeight(start),
            limit,
        };
        worker
            .handle_chain_info_query(
                ChainInfoQuery::new(chain(1)).with_sent_certificate_hashes_in_range(range),
            )
            .unwrap()
            .requested_sent_certificate_hashes
    };
    assert_eq!(hashes(1, Some(1)), vec![block_hash(1, 1)]);
    assert_eq!(hashes(2, Some(5)), vec![block_hash(1, 2), block_hash(1, 3)]);
    assert_eq!(hashes(2, Some(u64::MAX)).len(), 2);
    assert_eq!(hashes(0, None).len(), 4);
    assert_eq!(hashes(3, Some(0)), vec![]);
    assert_eq!(hashes(4, Some(1)), vec![]);
    assert_eq!(hashes(u64::MAX, None), vec![]);

    assert_eq!(
        worker.handle_chain_info_query(ChainInfoQuery::new(chain(2))),
        Err(WorkerError::WrongChain)
    );
}

#[test]
fn blob_is_last_used_by_the_latest_block_that_refers_to_it() {
    let blob = |n: u8| BlobId([n; 32]);
    let mut worker = worker(1, 0, Round::Fast);
    for (height, blobs) in [vec![blob(1)], vec![], vec![blob(2), blob(1)], vec![blob(3)]]
        .into_iter()
        .enumerate()
    {
        for blob in &blobs {
            worker.upload_blob(*blob);
        }
        let with_blobs = Block {
            blobs,
            ..block(1, height as u64, vec![])
        };
        worker
            .handle_confirmed_certificate(&with_blobs, &quorum(), Timestamp(0))
            .unwrap();
    }
    assert_eq!(worker.blob_last_used_by(&blob(1)), Some(block_hash(1, 2)));
    assert_eq!(worker.blob_last_used_by(&blob(2)), Some(block_hash(1, 2)));
    assert_eq!(worker.blob_last_used_by(&blob(3)), Some(block_hash(1, 3)));
    assert_eq!(worker.blob_last_used_by(&blob(4)), None);
}

#[test]
fn slow_subscriber_gets_the_latest_news_in_order() {
    let news = |height: u64| Notification {
        chain_id: chain(1),
        height: BlockHeight(height),
        hash: block_hash(1, height),
    };
    let mut subscription = Subscription::new(chain(1));
    assert_eq!(subscription.next(), None);
    subscription.notify(news(0));
    assert_eq!(subscription.next(), Some(news(0)));
    assert_eq!(subscription.next(), None);
    // Three blocks are committed before the subscriber looks again.
    subscription.notify(news(1));
    subscription.notify(news(3));
    subscription.notify(news(2));
    assert_eq!(subscription.next(), Some(news(3)));
    // Old news and news of other chains are dropped.
    subscription.notify(news(3));
    subscription.notify(news(0));
    subscription.notify(Notification {
        chain_id: chain(2),
        ..news(9)
    });
    assert_eq!(subscription.next(), None);
    subscription.notify(news(4));
    assert_eq!(subscription.next(), Some(news(4)));
}

#[test]
fn tip_is_announced_after_every_block() {
    let mut worker = worker(1, 0, Round::Fast);
    assert_eq!(worker.tip_notification(), None);
    for height in 0..3 {
        worker
            .handle_confirmed_certificate(&block(1, height, vec![]), &quorum(), Timestamp(0))
            .unwrap();
        assert_eq!(
            worker.tip_notification(),
            Some(Notification {
                chain_id: chain(1),
                height: BlockHeight(height),
                hash: block_hash(1, height)
            })
        );
    }
}

#[test]
fn outbox_is_drained_in_batches_per_target() {
    let to = |target: u8, certificate: u8| MessageBundle {
        target: chain(target),
        ..bundle(1, certificate, 0, 1)
    };
    let mut outbox = Outbox::new();
    for (target, certificate) in [(2, 1), (3, 2), (2, 3), (2, 4), (3, 5)] {
        outbox.schedule(to(target, certificate));
    }
    assert_eq!(outbox.next_batch(&chain(2), 2), vec![to(2, 1), to(2, 3)]);
    assert_eq!(
        outbox.next_batch(&chain(2), 5),
        vec![to(2, 1), to(2, 3), to(2, 4)]
    );
    assert_eq!(outbox.next_batch(&chain(3), 1), vec![to(3, 2)]);
    assert_eq!(outbox.next_batch(&chain(3), 0), vec![]);
    assert_eq!(outbox.next_batch(&chain(4), 9), vec![]);
    // What was delivered and acknowledged makes room for the next batch.
    let mut inbox = Inbox::new();
    let acknowledged = inbox.receive(&outbox.next_batch(&chain(2), 2));
    outbox.mark_received(&acknowledged);
    assert_eq!(outbox.next_batch(&chain(2), 2), vec![to(2, 4)]);
    assert_eq!(outbox.queue.len(), 3);
}

#[test]
fn failures_name_chain_height_and_epoch() {
    let mut worker = worker(1, 0, Round::Fast);
    worker
        .handle_confirmed_certificate(&block(1, 0, vec![]), &quorum(), Timestamp(0))
        .unwrap();
    let error = worker
        .handle_block_proposal(&block(1, 0, vec![]), Round::Fast, None, Timestamp(0))
        .unwrap_err();
    let failure = worker.failure(error);
    assert_eq!(failure.chain_id, chain(1));
    assert_eq!(failure.height, BlockHeight(1));
    assert_eq!(failure.epoch, 0);
    assert_eq!(
        failure.error,
        WorkerError::UnexpectedBlockHeight {
            expected: BlockHeight(1),
            found: BlockHeight(0)
        }
    );
}

#[test]
fn simple_committee_gives_every_validator_one_vote() {
    let keys: Vec<ValidatorPublicKey> = (0..4).map(key).collect();
    let committee = Committee::make_simple(&keys).unwrap();
    assert_eq!(committee.total_votes(), 4);
    assert_eq!(committee.quorum_threshold(), 3);
    for validator in &keys {
        assert_eq!(committee.weight(validator), 1);
    }
    assert_eq!(committee.weight(&key(4)), 0);
    // The three honest validators of a network of four are a quorum.
    assert_eq!(committee.check_signers(&vec![key(1), key(2), key(3)]), Ok(()));
    assert_eq!(
        committee.check_signers(&vec![key(2), key(3)]),
        Err(CertificateError::InsufficientVotes {
            votes: 2,
            quorum: 3
        })
    );
    assert!(Committee::make_simple(&vec![key(1), key(2), key(1)]).is_none());
    assert_eq!(Committee::make_simple(&vec![]).unwrap().total_votes(), 0);
}

#[test]
fn locked_block_is_proposed_again_after_a_refusal() {
    let round_one = Round::MultiLeader(1);
    let round_two = Round::MultiLeader(2);
    let mut manager = ChainManager::new(BlockHeight(0), round_one, Timestamp(0), GRACE);
    manager
        .handle_validated_certificate(BlockHeight(0), round_one, hash(1), Timestamp(0), GRACE)
        .unwrap();
    manager
        .handle_timeout_certificate(BlockHeight(0), round_one, Timestamp(0), GRACE)
        .unwrap();
    let before = manager;
    assert_eq!(
        manager.handle_block_proposal(proposal(round_two, 2), Timestamp(0), GRACE),
        Err(ManagerError::HasLockedBlock(RoundBlock {
            round: round_one,
            block: hash(1)
        }))
    );
    // The refusal has left nothing behind.
    assert_eq!(manager, before);
    assert_eq!(
        manager.handle_block_proposal(proposal(round_two, 1), Timestamp(0), GRACE),
        Ok((vote(VoteKind::Validate, round_two, 1), None))
    );
}

#[test]
fn proposal_is_voted_for_once_the_reported_blobs_are_handed_in() {
    let blob = |n: u8| BlobId([n; 32]);
    let mut worker = worker(1, 0, Round::MultiLeader(0));
    worker.upload_blob(blob(1));
    let with_blobs = Block {
        blobs: vec![blob(1), blob(2), blob(3)],
        ..block(1, 0, vec![])
    };
    let reported = match worker.handle_block_proposal(
        &with_blobs,
        Round::MultiLeader(0),
        None,
        Timestamp(0),
    ) {
        Err(WorkerError::BlobsNotFound(blob_ids)) => blob_ids,
        other => panic!("missing blobs expected, got {other:?}"),
    };
    assert_eq!(reported, vec![blob(2), blob(3)]);
    for blob_id in reported {
        worker.handle_pending_blob(blob_id);
    }
    assert_eq!(
        worker.handle_block_proposal(&with_blobs, Round::MultiLeader(0), None, Timestamp(0)),
        Ok((
            Vote {
                kind: VoteKind::Validate,
                height: BlockHeight(0),
                round: Round::MultiLeader(0),
                block: Some(with_blobs.hash)
            },
            None
        ))
    );
}
