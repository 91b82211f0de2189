//! The chain manager: the round-based voting on the next block of one
//! chain, as one validator takes part in it.
//!
//! A proposal earns a validating vote, a validated certificate a
//! confirming vote, and a timeout certificate moves the voting on to the
//! next round. The manager remembers what it voted for and what it is
//! locked on, so that it never votes twice in one round and never backs a
//! block that competes with one it has voted to confirm.

use vstd::prelude::*;

use crate::chain::{BlockHeight, CryptoHash, Round};

verus! {

/// A point in time, in microseconds.
#[derive(Clone, Copy, Debug, PartialEq, Eq, Hash, PartialOrd, Ord, Structural)]
pub struct Timestamp(pub u64);

/// What a vote is cast for.
#[derive(Clone, Copy, Debug, PartialEq, Eq, Structural)]
pub enum VoteKind {
    /// The proposed block is valid.
    Validate,
    /// The block is final.
    Confirm,
    /// The round is over without a block.
    Timeout,
}

/// A vote of one validator.
#[derive(Clone, Copy, Debug, PartialEq, Eq)]
pub struct Vote {
    pub kind: VoteKind,
    pub height: BlockHeight,
    pub round: Round,
    /// The block voted for; none in a timeout vote.
    pub block: Option<CryptoHash>,
}

/// A block in a round: what a validator voted for or is locked on.
#[derive(Clone, Copy, Debug, PartialEq, Eq)]
pub struct RoundBlock {
    pub round: Round,
    pub block: CryptoHash,
}

/// A block proposal as the manager sees it.
#[derive(Clone, Copy, Debug, PartialEq, Eq)]
pub struct Proposal {
    pub height: BlockHeight,
    pub round: Round,
    pub block: CryptoHash,
    /// The time stamp of the block.
    pub timestamp: Timestamp,
    /// The validated certificate of an earlier round that the proposal
    /// carries forward, if it carries one.
    pub validated_certificate: Option<RoundBlock>,
}

/// Why the manager turns a proposal or a certificate down.
#[derive(Clone, Copy, Debug, PartialEq, Eq)]
pub enum ManagerError {
    /// It is for another height than the one that is voted on.
    UnexpectedBlockHeight { expected: BlockHeight, found: BlockHeight },
    /// The proposal is not for the current round.
    WrongRound(Round),
    /// The certificate that the proposal carries is not of an earlier
    /// round, or is for another block.
    InvalidCarriedCertificate,
    /// The time stamp of the block lies further in the future than the
    /// grace period allows.
    InvalidTimestamp,
    /// The manager is locked on another block.
    HasLockedBlock(RoundBlock),
    /// The manager has already voted for another block in this round.
    AlreadyVoted(RoundBlock),
    /// There is no round after this one.
    LastRound,
}

/// The position of a round in the order of rounds: the fast round first,
/// then the multi-leader rounds, the single-leader rounds and the
/// validator rounds, each kind by number.
pub open spec fn round_rank(round: Round) -> int {
    match round {
        Round::Fast => 0,
        Round::MultiLeader(n) => 1 + n,
        Round::SingleLeader(n) => 1 + 0x1_0000_0000 + n,
        Round::Validator(n) => 1 + 0x2_0000_0000 + n,
    }
}

/// The position of a round in the order of rounds.
pub fn rank(round: Round) -> (rank: u64)
    ensures
        rank == round_rank(round),
{
    match round {
        Round::Fast => 0,
        Round::MultiLeader(n) => 1 + n as u64,
        Round::SingleLeader(n) => 1 + 0x1_0000_0000 + n as u64,
        Round::Validator(n) => 1 + 0x2_0000_0000 + n as u64,
    }
}

/// The round after `round`, if there is one: the first multi-leader round
/// after the fast round, else the round of the same kind with the next
/// number.
pub open spec fn next_round_spec(round: Round) -> Option<Round> {
    match round {
        Round::Fast => Some(Round::MultiLeader(0)),
        Round::MultiLeader(n) => if n < u32::MAX {
            Some(Round::MultiLeader((n + 1) as u32))
        } else {
            None
        },
        Round::SingleLeader(n) => if n < u32::MAX {
            Some(Round::SingleLeader((n + 1) as u32))
        } else {
            None
        },
        Round::Validator(n) => if n < u32::MAX {
            Some(Round::Validator((n + 1) as u32))
        } else {
            None
        },
    }
}

/// The round after `round`, if there is one.
pub fn next_round(round: Round) -> (next: Option<Round>)
    ensures
        next == next_round_spec(round),
        next matches Some(later) ==> round_rank(later) == round_rank(round) + 1,
{
    match round {
        Round::Fast => Some(Round::MultiLeader(0)),
        Round::MultiLeader(n) => if n < u32::MAX {
            Some(Round::MultiLeader(n + 1))
        } else {
            None
        },
        Round::SingleLeader(n) => if n < u32::MAX {
            Some(Round::SingleLeader(n + 1))
        } else {
            None
        },
        Round::Validator(n) => if n < u32::MAX {
            Some(Round::Validator(n + 1))
        } else {
            None
        },
    }
}

/// Rounds of the same rank are the same round.
pub proof fn lemma_rank_is_one_to_one(a: Round, b: Round)
    requires
        round_rank(a) == round_rank(b),
    ensures
        a == b,
{
}

/// The time `period` microseconds after `now`, or the end of time if that
/// lies beyond it.
pub open spec fn deadline_after(now: Timestamp, period: u64) -> Timestamp {
    if now.0 + period > u64::MAX {
        Timestamp(u64::MAX)
    } else {
        Timestamp((now.0 + period) as u64)
    }
}

/// The time `period` microseconds after `now`.
pub fn deadline(now: Timestamp, period: u64) -> (at: Timestamp)
    ensures
        at == deadline_after(now, period),
{
    if period > u64::MAX - now.0 {
        Timestamp(u64::MAX)
    } else {
        Timestamp(now.0 + period)
    }
}

/// The voting of one validator on the block of one chain at one height.
#[derive(Clone, Copy, Debug, PartialEq, Eq)]
pub struct ChainManager {
    /// The height that is voted on.
    pub height: BlockHeight,
    /// The round that the voting is in.
    pub current_round: Round,
    /// The proposal that the validator last cast a validating vote for.
    pub locked_proposal: Option<RoundBlock>,
    /// The block that the validator is locked on: that of the validated
    /// certificate of the highest round that it has seen, or of the
    /// proposal that it confirmed in the fast round.
    pub locked_validated_certificate: Option<RoundBlock>,
    /// The block that the validator last cast a confirming vote for.
    pub confirmed_vote: Option<RoundBlock>,
    /// The round that the validator last voted to time out.
    pub timeout_vote: Option<Round>,
    /// When the current round may be voted to time out.
    pub leader_timeout: Option<Timestamp>,
}

impl ChainManager {
    /// What the manager has voted for and is locked on lies in no later
    /// round than the current one, and a confirming vote is backed by the
    /// lock: the lock is of the same round and block, or of a later
    /// round.
    pub open spec fn well_formed(self) -> bool {
        &&& self.locked_proposal matches Some(voted) ==> round_rank(voted.round) <= round_rank(
            self.current_round,
        )
        &&& self.locked_validated_certificate matches Some(lock) ==> round_rank(lock.round)
            <= round_rank(self.current_round)
        &&& self.timeout_vote matches Some(round) ==> round_rank(round) <= round_rank(
            self.current_round,
        )
        &&& self.confirmed_vote matches Some(confirmed) ==> (
        self.locked_validated_certificate matches Some(lock) && round_rank(confirmed.round)
            <= round_rank(lock.round) && (confirmed.round == lock.round ==> confirmed.block
            == lock.block))
    }

    /// The manager at the start of the voting on height `height`, which
    /// begins in round `first_round` at the time `now`.
    pub open spec fn initial(
        height: BlockHeight,
        first_round: Round,
        now: Timestamp,
        grace_period: u64,
    ) -> ChainManager {
        ChainManager {
            height,
            current_round: first_round,
            locked_proposal: None,
            locked_validated_certificate: None,
            confirmed_vote: None,
            timeout_vote: None,
            leader_timeout: Some(deadline_after(now, grace_period)),
        }
    }

    /// The manager at the start of the voting on height `height`.
    pub fn new(height: BlockHeight, first_round: Round, now: Timestamp, grace_period: u64) -> (manager:
        ChainManager)
        ensures
            manager == ChainManager::initial(height, first_round, now, grace_period),
            manager.well_formed(),
    {
        ChainManager {
            height,
            current_round: first_round,
            locked_proposal: None,
            locked_validated_certificate: None,
            confirmed_vote: None,
            timeout_vote: None,
            leader_timeout: Some(deadline(now, grace_period)),
        }
    }

    /// Why `proposal` is turned down at the time `now`, if it is.
    ///
    /// A proposal must be for the height and the round that are voted on.
    /// A validated certificate that it carries must be of an earlier round
    /// and for its block. Its time stamp may lie in the future by the
    /// grace period at most. It must not compete with the block that the
    /// manager is locked on, nor with a block that the manager has voted
    /// for in this round.
    pub open spec fn proposal_error(self, proposal: Proposal, now: Timestamp, grace_period: u64) -> Option<
        ManagerError,
    > {
        if proposal.height != self.height {
            Some(
                ManagerError::UnexpectedBlockHeight { expected: self.height, found: proposal.height },
            )
        } else if proposal.round != self.current_round {
            Some(ManagerError::WrongRound(self.current_round))
        } else if proposal.validated_certificate matches Some(carried) && !(round_rank(
            carried.round,
        ) < round_rank(proposal.round) && carried.block == proposal.block) {
            Some(ManagerError::InvalidCarriedCertificate)
        } else if proposal.timestamp.0 > deadline_after(now, grace_period).0 {
            Some(ManagerError::InvalidTimestamp)
        } else if self.locked_validated_certificate matches Some(lock) && lock.block
            != proposal.block {
            Some(ManagerError::HasLockedBlock(self.locked_validated_certificate->Some_0))
        } else if self.locked_proposal matches Some(voted) && voted.round == proposal.round
            && voted.block != proposal.block {
            Some(ManagerError::AlreadyVoted(self.locked_proposal->Some_0))
        } else {
            None
        }
    }

    /// The vote that an accepted `proposal` earns: a confirming vote in
    /// the fast round, a validating vote in every other.
    pub open spec fn proposal_vote(proposal: Proposal) -> Vote {
        Vote {
            kind: if proposal.round is Fast {
                VoteKind::Confirm
            } else {
                VoteKind::Validate
            },
            height: proposal.height,
            round: proposal.round,
            block: Some(proposal.block),
        }
    }

    /// The manager after it has accepted `proposal`: it remembers its
    /// vote, and in the fast round it is locked on the block at once.
    pub open spec fn after_proposal(self, proposal: Proposal) -> ChainManager {
        let voted = RoundBlock { round: proposal.round, block: proposal.block };
        if proposal.round is Fast {
            ChainManager {
                locked_validated_certificate: Some(voted),
                confirmed_vote: Some(voted),
                ..self
            }
        } else {
            ChainManager { locked_proposal: Some(voted), ..self }
        }
    }

    /// Handles a block proposal that was found valid in itself: signed by
    /// an owner that may propose in its round.
    ///
    /// Returns the vote that the proposal earns and, if the time stamp of
    /// the block lies in the future, the time until which the vote is
    /// withheld.
    pub fn handle_block_proposal(&mut self, proposal: Proposal, now: Timestamp, grace_period: u64) -> (result:
        Result<(Vote, Option<Timestamp>), ManagerError>)
        requires
            old(self).well_formed(),
        ensures
            final(self).well_formed(),
            match old(self).proposal_error(proposal, now, grace_period) {
                Some(error) => result == Err::<(Vote, Option<Timestamp>), ManagerError>(error)
                    && *final(self) == *old(self),
                None => result == Ok::<(Vote, Option<Timestamp>), ManagerError>(
                    (
                        ChainManager::proposal_vote(proposal),
                        if proposal.timestamp.0 > now.0 {
                            Some(proposal.timestamp)
                        } else {
                            None
                        },
                    ),
                ) && *final(self) == old(self).after_proposal(proposal),
            },
    {
        if proposal.height.0 != self.height.0 {
            return Err(
                ManagerError::UnexpectedBlockHeight { expected: self.height, found: proposal.height },
            );
        }
        if proposal.round != self.current_round {
            return Err(ManagerError::WrongRound(self.current_round));
        }
        match proposal.validated_certificate {
            Some(carried) => {
                if !(rank(carried.round) < rank(proposal.round) && carried.block.is(
                    &proposal.block,
                )) {
                    return Err(ManagerError::InvalidCarriedCertificate);
                }
            },
            None => {},
        }
        if proposal.timestamp.0 > deadline(now, grace_period).0 {
            return Err(ManagerError::InvalidTimestamp);
        }
        match self.locked_validated_certificate {
            Some(lock) => {
                if !lock.block.is(&proposal.block) {
                    return Err(ManagerError::HasLockedBlock(lock));
                }
            },
            None => {},
        }
        match self.locked_proposal {
            Some(voted) => {
                if voted.round == proposal.round && !voted.block.is(&proposal.block) {
                    return Err(ManagerError::AlreadyVoted(voted));
                }
            },
            None => {},
        }
        let voted = RoundBlock { round: proposal.round, block: proposal.block };
        let fast = match proposal.round {
            Round::Fast => true,
            _ => false,
        };
        let kind = if fast {
            self.locked_validated_certificate = Some(voted);
            self.confirmed_vote = Some(voted);
            VoteKind::Confirm
        } else {
            self.locked_proposal = Some(voted);
            VoteKind::Validate
        };
        let vote = Vote {
            kind,
            height: proposal.height,
            round: proposal.round,
            block: Some(proposal.block),
        };
        let withheld_until = if proposal.timestamp.0 > now.0 {
            Some(proposal.timestamp)
        } else {
            None
        };
        Ok((vote, withheld_until))
    }
}

/// What became of a certificate that the manager was handed.
#[derive(Clone, Copy, Debug, PartialEq, Eq)]
pub enum CertificateOutcome {
    /// The certificate is of a round that is over: nothing changed.
    Stale,
    /// The certificate was taken in, and nothing is to be sent.
    Accepted,
    /// The certificate was taken in, and this vote is cast.
    Vote(Vote),
    /// The timeout certificate was taken in, and the manager is locked on
    /// this block, which is proposed again in the new round.
    ProposeAgain(CryptoHash),
}

impl ChainManager {
    /// What handling the validated certificate of `block` in `round` at
    /// `height` comes to at the time `now`: the manager afterwards, and
    /// the outcome.
    ///
    /// A certificate of an earlier round than the current one changes
    /// nothing. Any other moves the voting to its round and locks the
    /// manager on its block, and earns a confirming vote, unless the
    /// manager has cast that vote before. It is refused if the manager has
    /// voted in that round to confirm another block.
    pub open spec fn validated_certificate_step(
        self,
        height: BlockHeight,
        round: Round,
        block: CryptoHash,
        now: Timestamp,
        grace_period: u64,
    ) -> (ChainManager, Result<CertificateOutcome, ManagerError>) {
        let certified = RoundBlock { round, block };
        if height != self.height {
            (self, Err(ManagerError::UnexpectedBlockHeight { expected: self.height, found: height }))
        } else if round_rank(round) < round_rank(self.current_round) {
            (self, Ok(CertificateOutcome::Stale))
        } else if self.confirmed_vote matches Some(confirmed) && confirmed.round == round
            && confirmed.block != block {
            (self, Err(ManagerError::AlreadyVoted(self.confirmed_vote->Some_0)))
        } else {
            let entered = ChainManager {
                current_round: round,
                leader_timeout: if round == self.current_round {
                    self.leader_timeout
                } else {
                    Some(deadline_after(now, grace_period))
                },
                locked_validated_certificate: Some(certified),
                ..self
            };
            if self.confirmed_vote == Some(certified) {
                (entered, Ok(CertificateOutcome::Accepted))
            } else {
                (
                    ChainManager { confirmed_vote: Some(certified), ..entered },
                    Ok(
                        CertificateOutcome::Vote(
                            Vote { kind: VoteKind::Confirm, height, round, block: Some(block) },
                        ),
                    ),
                )
            }
        }
    }

    /// Handles a validated certificate whose signatures were found to be a
    /// quorum.
    pub fn handle_validated_certificate(
        &mut self,
        height: BlockHeight,
        round: Round,
        block: CryptoHash,
        now: Timestamp,
        grace_period: u64,
    ) -> (result: Result<CertificateOutcome, ManagerError>)
        requires
            old(self).well_formed(),
        ensures
            final(self).well_formed(),
            (*final(self), result) == old(self).validated_certificate_step(
                height,
                round,
                block,
                now,
                grace_period,
            ),
    {
        if height.0 != self.height.0 {
            return Err(
                ManagerError::UnexpectedBlockHeight { expected: self.height, found: height },
            );
        }
        if rank(round) < rank(self.current_round) {
            return Ok(CertificateOutcome::Stale);
        }
        let certified = RoundBlock { round, block };
        let mut voted_before = false;
        match self.confirmed_vote {
            Some(confirmed) => {
                if confirmed.round == round {
                    if confirmed.block.is(&block) {
                        voted_before = true;
                    } else {
                        return Err(ManagerError::AlreadyVoted(confirmed));
                    }
                }
            },
            None => {},
        }
        if round != self.current_round {
            self.current_round = round;
            self.leader_timeout = Some(deadline(now, grace_period));
        }
        self.locked_validated_certificate = Some(certified);
        if voted_before {
            Ok(CertificateOutcome::Accepted)
        } else {
            self.confirmed_vote = Some(certified);
            Ok(
                CertificateOutcome::Vote(
                    Vote { kind: VoteKind::Confirm, height, round, block: Some(block) },
                ),
            )
        }
    }

    /// What handling the timeout certificate of `round` at `height` comes
    /// to at the time `now`: the manager afterwards, and the outcome.
    ///
    /// A certificate of an earlier round than the current one changes
    /// nothing. Any other moves the voting to the round after its own; if
    /// the manager is locked on a block, that block is proposed again.
    pub open spec fn timeout_certificate_step(
        self,
        height: BlockHeight,
        round: Round,
        now: Timestamp,
        grace_period: u64,
    ) -> (ChainManager, Result<CertificateOutcome, ManagerError>) {
        if height != self.height {
            (self, Err(ManagerError::UnexpectedBlockHeight { expected: self.height, found: height }))
        } else if round_rank(round) < round_rank(self.current_round) {
            (self, Ok(CertificateOutcome::Stale))
        } else {
            match next_round_spec(round) {
                None => (self, Err(ManagerError::LastRound)),
                Some(next) => (
                    ChainManager {
                        current_round: next,
                        leader_timeout: Some(deadline_after(now, grace_period)),
                        ..self
                    },
                    Ok(
                        match self.locked_validated_certificate {
                            Some(lock) => CertificateOutcome::ProposeAgain(lock.block),
                            None => CertificateOutcome::Accepted,
                        },
                    ),
                ),
            }
        }
    }

    /// Handles a timeout certificate whose signatures were found to be a
    /// quorum.
    pub fn handle_timeout_certificate(
        &mut self,
        height: BlockHeight,
        round: Round,
        now: Timestamp,
        grace_period: u64,
    ) -> (result: Result<CertificateOutcome, ManagerError>)
        requires
            old(self).well_formed(),
        ensures
            final(self).well_formed(),
            (*final(self), result) == old(self).timeout_certificate_step(
                height,
                round,
                now,
                grace_period,
            ),
    {
        if height.0 != self.height.0 {
            return Err(
                ManagerError::UnexpectedBlockHeight { expected: self.height, found: height },
            );
        }
        if rank(round) < rank(self.current_round) {
            return Ok(CertificateOutcome::Stale);
        }
        let next = match next_round(round) {
            Some(next) => next,
            None => {
                return Err(ManagerError::LastRound);
            },
        };
        self.current_round = next;
        self.leader_timeout = Some(deadline(now, grace_period));
        match self.locked_validated_certificate {
            Some(lock) => Ok(CertificateOutcome::ProposeAgain(lock.block)),
            None => Ok(CertificateOutcome::Accepted),
        }
    }

    /// Whether the manager votes at the time `now` to time the current
    /// round out: the round's deadline has passed, and the manager has not
    /// cast that vote before.
    pub open spec fn times_out(self, now: Timestamp) -> bool {
        &&& self.leader_timeout matches Some(due) && due.0 <= now.0
        &&& self.timeout_vote != Some(self.current_round)
    }

    /// Casts the vote to time the current round out, if it is due at the
    /// time `now`.
    pub fn vote_timeout(&mut self, now: Timestamp) -> (vote: Option<Vote>)
        requires
            old(self).well_formed(),
        ensures
            final(self).well_formed(),
            if old(self).times_out(now) {
                &&& vote == Some(
                    Vote {
                        kind: VoteKind::Timeout,
                        height: old(self).height,
                        round: old(self).current_round,
                        block: None,
                    },
                )
                &&& *final(self) == (ChainManager {
                    timeout_vote: Some(old(self).current_round),
                    ..*old(self)
                })
            } else {
                vote is None && *final(self) == *old(self)
            },
    {
        let due = match self.leader_timeout {
            Some(due) => due.0 <= now.0,
            None => false,
        };
        let voted = match self.timeout_vote {
            Some(round) => round == self.current_round,
            None => false,
        };
        if due && !voted {
            self.timeout_vote = Some(self.current_round);
            Some(
                Vote {
                    kind: VoteKind::Timeout,
                    height: self.height,
                    round: self.current_round,
                    block: None,
                },
            )
        } else {
            None
        }
    }

    /// The vote that waits to be sent: the confirming vote if one was
    /// cast, else the validating vote.
    pub fn pending_vote(&self) -> (vote: Option<Vote>)
        ensures
            vote == match (self.confirmed_vote, self.locked_proposal) {
                (Some(confirmed), _) => Some(
                    Vote {
                        kind: VoteKind::Confirm,
                        height: self.height,
                        round: confirmed.round,
                        block: Some(confirmed.block),
                    },
                ),
                (None, Some(voted)) => Some(
                    Vote {
                        kind: VoteKind::Validate,
                        height: self.height,
                        round: voted.round,
                        block: Some(voted.block),
                    },
                ),
                (None, None) => None,
            },
    {
        match self.confirmed_vote {
            Some(confirmed) => Some(
                Vote {
                    kind: VoteKind::Confirm,
                    height: self.height,
                    round: confirmed.round,
                    block: Some(confirmed.block),
                },
            ),
            None => match self.locked_proposal {
                Some(voted) => Some(
                    Vote {
                        kind: VoteKind::Validate,
                        height: self.height,
                        round: voted.round,
                        block: Some(voted.block),
                    },
                ),
                None => None,
            },
        }
    }
}

/// What can happen to a manager.
pub enum ManagerEvent {
    /// A proposal arrives.
    Proposed { proposal: Proposal, now: Timestamp, grace_period: u64 },
    /// A validated certificate arrives.
    Validated { height: BlockHeight, round: Round, block: CryptoHash, now: Timestamp, grace_period: u64 },
    /// A timeout certificate arrives.
    TimedOut { height: BlockHeight, round: Round, now: Timestamp, grace_period: u64 },
    /// Time passes.
    Tick { now: Timestamp },
}

/// The manager after `event`, and the vote that it casts on it, if any.
pub open spec fn step(manager: ChainManager, event: ManagerEvent) -> (ChainManager, Option<Vote>) {
    match event {
        ManagerEvent::Proposed { proposal, now, grace_period } => match manager.proposal_error(
            proposal,
            now,
            grace_period,
        ) {
            Some(_) => (manager, None),
            None => (manager.after_proposal(proposal), Some(ChainManager::proposal_vote(proposal))),
        },
        ManagerEvent::Validated { height, round, block, now, grace_period } => {
            let (after, outcome) = manager.validated_certificate_step(
                height,
                round,
                block,
                now,
                grace_period,
            );
            (
                after,
                match outcome {
                    Ok(CertificateOutcome::Vote(vote)) => Some(vote),
                    _ => None,
                },
            )
        },
        ManagerEvent::TimedOut { height, round, now, grace_period } => (
            manager.timeout_certificate_step(height, round, now, grace_period).0,
            None,
        ),
        ManagerEvent::Tick { now } => if manager.times_out(now) {
            (
                ChainManager { timeout_vote: Some(manager.current_round), ..manager },
                Some(
                    Vote {
                        kind: VoteKind::Timeout,
                        height: manager.height,
                        round: manager.current_round,
                        block: None,
                    },
                ),
            )
        } else {
            (manager, None)
        },
    }
}

/// The manager after the events `events`, in order.
pub open spec fn after_events(manager: ChainManager, events: Seq<ManagerEvent>) -> ChainManager
    decreases events.len(),
{
    if events.len() == 0 {
        manager
    } else {
        step(after_events(manager, events.drop_last()), events.last()).0
    }
}

/// The votes that the manager casts on the events `events`, in order.
pub open spec fn votes_cast(manager: ChainManager, events: Seq<ManagerEvent>) -> Seq<Vote>
    decreases events.len(),
{
    if events.len() == 0 {
        Seq::empty()
    } else {
        let before = votes_cast(manager, events.drop_last());
        match step(after_events(manager, events.drop_last()), events.last()).1 {
            Some(vote) => before.push(vote),
            None => before,
        }
    }
}

/// The vote `vote` for a block is covered by `last`, the last vote of its
/// kind that a manager remembers: it is of no later round, and if it is of
/// the same round it is for the same block.
pub open spec fn covered_by(vote: Vote, last: Option<RoundBlock>) -> bool {
    &&& vote.block is Some
    &&& last is Some
    &&& round_rank(vote.round) <= round_rank(last->Some_0.round)
    &&& vote.round == last->Some_0.round ==> vote.block == Some(last->Some_0.block)
}

/// `manager` remembers having cast `vote`: the vote is for the manager's
/// height and of no later round than the current one, and it is covered
/// by what the manager remembers of its last vote of that kind.
pub open spec fn is_remembered(manager: ChainManager, vote: Vote) -> bool {
    &&& vote.height == manager.height
    &&& round_rank(vote.round) <= round_rank(manager.current_round)
    &&& match vote.kind {
        VoteKind::Validate => !(vote.round is Fast) && covered_by(vote, manager.locked_proposal),
        VoteKind::Confirm => covered_by(vote, manager.confirmed_vote),
        VoteKind::Timeout => vote.block is None && manager.timeout_vote is Some && round_rank(
            vote.round,
        ) <= round_rank(manager.timeout_vote->Some_0),
    }
}

/// `manager` remembers having cast every vote in `votes`.
pub open spec fn remembers(manager: ChainManager, votes: Seq<Vote>) -> bool {
    forall|i: int| 0 <= i < votes.len() ==> is_remembered(manager, #[trigger] votes[i])
}

/// One step keeps the manager well formed and in memory of its votes.
proof fn lemma_step_remembers(manager: ChainManager, votes: Seq<Vote>, event: ManagerEvent)
    requires
        manager.well_formed(),
        remembers(manager, votes),
    ensures
        step(manager, event).0.well_formed(),
        step(manager, event).0.height == manager.height,
        round_rank(manager.current_round) <= round_rank(step(manager, event).0.current_round),
        remembers(
            step(manager, event).0,
            match step(manager, event).1 {
                Some(vote) => votes.push(vote),
                None => votes,
            },
        ),
{
    let after = step(manager, event).0;
    let cast = match step(manager, event).1 {
        Some(vote) => votes.push(vote),
        None => votes,
    };
    match event {
        ManagerEvent::TimedOut { height, round, now, grace_period } => {
            if height == manager.height && round_rank(round) >= round_rank(manager.current_round) {
                if next_round_spec(round) is Some {
                    assert(round_rank(next_round_spec(round)->Some_0) == round_rank(round) + 1);
                }
            }
        },
        _ => {},
    }
    assert forall|i: int| 0 <= i < cast.len() implies is_remembered(after, #[trigger] cast[i]) by {
        if i < votes.len() {
            let vote = votes[i];
            assert(cast[i] == vote);
            match vote.kind {
                VoteKind::Validate => {
                    let last = manager.locked_proposal->Some_0;
                    if after.locked_proposal != manager.locked_proposal {
                        let renewed = after.locked_proposal->Some_0;
                        assert(renewed.round == manager.current_round);
                        if vote.round == renewed.round {
                            lemma_rank_is_one_to_one(vote.round, last.round);
                        }
                    }
                },
                VoteKind::Confirm => {
                    let last = manager.confirmed_vote->Some_0;
                    if after.confirmed_vote != manager.confirmed_vote {
                        let renewed = after.confirmed_vote->Some_0;
                        if vote.round == renewed.round {
                            lemma_rank_is_one_to_one(vote.round, last.round);
                        }
                    }
                },
                VoteKind::Timeout => {},
            }
        }
    }
}

/// After any events the manager is well formed, still votes on its height
/// and remembers the votes that it cast.
pub proof fn lemma_manager_remembers(height: BlockHeight, first_round: Round, now: Timestamp, grace_period: u64, events: Seq<ManagerEvent>)
    ensures
        after_events(
            ChainManager::initial(height, first_round, now, grace_period),
            events,
        ).well_formed(),
        remembers(
            after_events(ChainManager::initial(height, first_round, now, grace_period), events),
            votes_cast(ChainManager::initial(height, first_round, now, grace_period), events),
        ),
    decreases events.len(),
{
    let initial = ChainManager::initial(height, first_round, now, grace_period);
    if events.len() > 0 {
        lemma_manager_remembers(height, first_round, now, grace_period, events.drop_last());
        lemma_step_remembers(
            after_events(initial, events.drop_last()),
            votes_cast(initial, events.drop_last()),
            events.last(),
        );
    }
}

/// Whatever happens to a manager, it casts at most one vote of each kind
/// in each round: two of its votes of one kind and round are the same
/// vote.
pub proof fn lemma_single_vote(
    height: BlockHeight,
    first_round: Round,
    now: Timestamp,
    grace_period: u64,
    events: Seq<ManagerEvent>,
    i: int,
    j: int,
)
    requires
        0 <= i < j < votes_cast(
            ChainManager::initial(height, first_round, now, grace_period),
            events,
        ).len(),
    ensures
        ({
            let votes = votes_cast(
                ChainManager::initial(height, first_round, now, grace_period),
                events,
            );
            votes[i].kind == votes[j].kind && votes[i].round == votes[j].round ==> votes[i]
                == votes[j]
        }),
    decreases events.len(),
{
    let initial = ChainManager::initial(height, first_round, now, grace_period);
    let votes = votes_cast(initial, events);
    if events.len() > 0 {
        let before = votes_cast(initial, events.drop_last());
        let manager = after_events(initial, events.drop_last());
        if j < before.len() {
            lemma_single_vote(height, first_round, now, grace_period, events.drop_last(), i, j);
        } else {
            lemma_manager_remembers(height, first_round, now, grace_period, events.drop_last());
            lemma_manager_remembers(height, first_round, now, grace_period, events);
            assert(votes[i] == before[i]);
            let earlier = before[i];
            let later = votes[j];
            assert(later == step(manager, events.last()).1->Some_0);
            if earlier.kind == later.kind && earlier.round == later.round {
                let after = after_events(initial, events);
                assert(votes[j] == later);
                match later.kind {
                    VoteKind::Validate => {
                        assert(after.locked_proposal matches Some(last) && last.round
                            == later.round) by {
                            lemma_rank_is_one_to_one(
                                later.round,
                                after.locked_proposal->Some_0.round,
                            );
                        }
                    },
                    VoteKind::Confirm => {
                        assert(after.confirmed_vote matches Some(last) && last.round
                            == later.round) by {
                            lemma_rank_is_one_to_one(
                                later.round,
                                after.confirmed_vote->Some_0.round,
                            );
                        }
                    },
                    VoteKind::Timeout => {},
                }
            }
        }
    }
}

/// Once a manager has voted to confirm a block in some round, it casts no
/// validating vote for another block in that round or an earlier one.
pub proof fn lemma_lock_preserved(
    height: BlockHeight,
    first_round: Round,
    now: Timestamp,
    grace_period: u64,
    events: Seq<ManagerEvent>,
    i: int,
    j: int,
)
    requires
        0 <= i < j < votes_cast(
            ChainManager::initial(height, first_round, now, grace_period),
            events,
        ).len(),
    ensures
        ({
            let votes = votes_cast(
                ChainManager::initial(height, first_round, now, grace_period),
                events,
            );
            votes[i].kind is Confirm && votes[j].kind is Validate && round_rank(votes[j].round)
                <= round_rank(votes[i].round) ==> votes[j].block == votes[i].block
        }),
    decreases events.len(),
{
    let initial = ChainManager::initial(height, first_round, now, grace_period);
    let votes = votes_cast(initial, events);
    if events.len() > 0 {
        let before = votes_cast(initial, events.drop_last());
        let manager = after_events(initial, events.drop_last());
        if j < before.len() {
            lemma_lock_preserved(height, first_round, now, grace_period, events.drop_last(), i, j);
        } else {
            lemma_manager_remembers(height, first_round, now, grace_period, events.drop_last());
            assert(votes[i] == before[i]);
            let earlier = before[i];
            let later = votes[j];
            assert(later == step(manager, events.last()).1->Some_0);
            if earlier.kind is Confirm && later.kind is Validate && round_rank(later.round)
                <= round_rank(earlier.round) {
                let confirmed = manager.confirmed_vote->Some_0;
                let lock = manager.locked_validated_certificate->Some_0;
                assert(later.round == manager.current_round);
                lemma_rank_is_one_to_one(earlier.round, manager.current_round);
                lemma_rank_is_one_to_one(confirmed.round, manager.current_round);
                lemma_rank_is_one_to_one(lock.round, manager.current_round);
            }
        }
    }
}

/// A manager that is locked on a block accepts the proposal of that block
/// in the current round, and turns down the proposal of any other block;
/// and a proposal that it turns down leaves nothing behind.
///
/// The proposal is taken to be in order otherwise: for the manager's
/// height and round, with a time stamp that has come, carrying no
/// certificate or one of an earlier round for its block, and not after a
/// vote for another block in this round.
pub proof fn lemma_lock_decides_proposal(
    manager: ChainManager,
    proposal: Proposal,
    now: Timestamp,
    grace_period: u64,
)
    requires
        manager.well_formed(),
        manager.locked_validated_certificate is Some,
        proposal.height == manager.height,
        proposal.round == manager.current_round,
        proposal.timestamp.0 <= now.0,
        proposal.validated_certificate matches Some(carried) ==> round_rank(carried.round)
            < round_rank(proposal.round) && carried.block == proposal.block,
        manager.locked_proposal matches Some(voted) ==> voted.round != proposal.round
            || voted.block == proposal.block,
    ensures
        proposal.block == manager.locked_validated_certificate->Some_0.block
            ==> manager.proposal_error(proposal, now, grace_period) is None && step(
            manager,
            ManagerEvent::Proposed { proposal, now, grace_period },
        ).1 == Some(ChainManager::proposal_vote(proposal)),
        proposal.block != manager.locked_validated_certificate->Some_0.block
            ==> manager.proposal_error(proposal, now, grace_period) == Some(
            ManagerError::HasLockedBlock(manager.locked_validated_certificate->Some_0),
        ) && step(manager, ManagerEvent::Proposed { proposal, now, grace_period }) == (
            manager,
            None::<Vote>,
        ),
{
}

} // verus!
