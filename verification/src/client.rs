//! The client's side of the voting: collecting the validators' answers to
//! one request until a quorum of them agrees, and bringing validators
//! that have fallen behind up to date.

use vstd::prelude::*;

use crate::chain::{BlobId, BlockHeight, ValidatorPublicKey};
use crate::committee::{
    certifies, distinct_members, distinct_signers, good_signers, is_member,
    lemma_committee_is_sound, lemma_signed_votes_bounded, quorum_of, signed_votes, total_votes,
    validity_of, votes_of, Committee, Member,
};

verus! {

/// What a validator made of a request.
#[derive(Debug, PartialEq, Eq)]
pub enum ValidatorAnswer {
    /// It cast the vote that the client asked for.
    Agreed,
    /// It answered with something else than the vote asked for: the
    /// answer is discarded.
    Disagreed,
    /// It did not answer in time, or could not be reached: it counts as
    /// silent, not as against.
    Silent,
    /// It lacks blobs: the client uploads them and asks again.
    BlobsNotFound(Vec<BlobId>),
    /// It failed for good.
    Failed,
}

/// What the client does after an answer.
#[derive(Debug, PartialEq, Eq)]
pub enum QuorumStep {
    /// It waits for more answers.
    Wait,
    /// It uploads the blobs to the validator and asks it again.
    Repair(Vec<BlobId>),
    /// A quorum has agreed: the certificate is assembled from the votes
    /// of the validators that agreed.
    Quorum,
    /// So many validators have failed that no quorum can be trusted to
    /// form: the request has failed.
    Failure,
}

/// The answers to one request, as far as they count.
pub struct QuorumCollector {
    /// The validators that agreed, in the order of their answers.
    pub signers: Vec<ValidatorPublicKey>,
    /// The weight of the validators that agreed.
    pub votes: u64,
    /// The validators that failed for good.
    pub failed: Vec<ValidatorPublicKey>,
    /// The weight of the validators that failed for good.
    pub failed_votes: u64,
    /// How often the client will still upload blobs and ask again.
    pub repairs_left: u32,
}

impl QuorumCollector {
    /// Those who agreed and those who failed are members of the
    /// committee, none is counted twice or on both sides, and the weights
    /// are theirs.
    pub open spec fn well_formed(&self, committee: &Committee) -> bool {
        &&& committee.well_formed()
        &&& good_signers(committee.members(), self.signers@)
        &&& good_signers(committee.members(), self.failed@)
        &&& forall|i: int| 0 <= i < self.signers@.len() ==> !self.failed@.contains(self.signers@[i])
        &&& self.votes == signed_votes(committee.members(), self.signers@)
        &&& self.failed_votes == signed_votes(committee.members(), self.failed@)
    }

    /// The collector before any answer, with `repairs` uploads of blobs to
    /// spend.
    pub fn new(repairs: u32) -> (collector: QuorumCollector)
        ensures
            collector.signers@ == Seq::<ValidatorPublicKey>::empty(),
            collector.failed@ == Seq::<ValidatorPublicKey>::empty(),
            collector.votes == 0,
            collector.failed_votes == 0,
            collector.repairs_left == repairs,
    {
        QuorumCollector {
            signers: Vec::new(),
            votes: 0,
            failed: Vec::new(),
            failed_votes: 0,
            repairs_left: repairs,
        }
    }

    /// Whether `key` is one of `keys`.
    fn counted(keys: &Vec<ValidatorPublicKey>, key: &ValidatorPublicKey) -> (found: bool)
        ensures
            found == keys@.contains(*key),
    {
        let mut i: usize = 0;
        while i < keys.len()
            invariant
                i <= keys@.len(),
                forall|j: int| 0 <= j < i ==> keys@[j] != *key,
            decreases keys@.len() - i,
        {
            if keys[i].is(key) {
                return true;
            }
            i += 1;
        }
        false
    }

    /// Whether the answer of `validator` counts: it is a member of the
    /// committee that has neither agreed nor failed so far.
    pub open spec fn counts(&self, committee: &Committee, validator: ValidatorPublicKey) -> bool {
        &&& is_member(committee.members(), validator)
        &&& !self.signers@.contains(validator)
        &&& !self.failed@.contains(validator)
    }

    /// Takes in the answer of `validator` and says what the client does
    /// next.
    ///
    /// The answer of a stranger, or of a validator that has agreed or
    /// failed before, changes nothing. Agreement adds the validator's
    /// weight to the votes, and makes a quorum when the votes reach the
    /// quorum threshold. Failure adds it to the failed weight, and fails
    /// the request when that weight reaches the validity threshold: more
    /// than a third of the committee. Missing blobs are repaired as long
    /// as repairs are left, and count as failure after that. Silence and
    /// disagreement change nothing.
    pub fn on_answer(
        &mut self,
        committee: &Committee,
        validator: ValidatorPublicKey,
        answer: ValidatorAnswer,
    ) -> (step: QuorumStep)
        requires
            old(self).well_formed(committee),
        ensures
            final(self).well_formed(committee),
            step is Quorum ==> certifies(committee.members(), final(self).signers@),
            step is Failure ==> final(self).failed_votes >= validity_of(committee.total()),
            ({
                let weight = votes_of(committee.members(), validator);
                let agreed = WaitingFor { signers: old(self).signers@.push(validator), ..old(self).tally() };
                let failed = WaitingFor { failed: old(self).failed@.push(validator), ..old(self).tally() };
                if !old(self).counts(committee, validator) {
                    step is Wait && final(self).tally() == old(self).tally()
                } else {
                    match answer {
                        ValidatorAnswer::Agreed => final(self).tally() == agreed && step == if old(
                            self,
                        ).votes + weight >= quorum_of(committee.total()) {
                            QuorumStep::Quorum
                        } else {
                            QuorumStep::Wait
                        },
                        ValidatorAnswer::Disagreed | ValidatorAnswer::Silent => step is Wait
                            && final(self).tally() == old(self).tally(),
                        ValidatorAnswer::BlobsNotFound(blob_ids) if old(self).repairs_left > 0 =>
                            step == QuorumStep::Repair(blob_ids) && final(self).tally()
                                == (WaitingFor {
                                repairs_left: (old(self).repairs_left - 1) as u32,
                                ..old(self).tally()
                            }),
                        _ => final(self).tally() == failed && step == if old(self).failed_votes
                            + weight >= validity_of(committee.total()) {
                            QuorumStep::Failure
                        } else {
                            QuorumStep::Wait
                        },
                    }
                }
            }),
    {
        proof {
            lemma_committee_is_sound(*committee);
        }
        if !committee.has_member(&validator) {
            return QuorumStep::Wait;
        }
        if QuorumCollector::counted(&self.signers, &validator) || QuorumCollector::counted(
            &self.failed,
            &validator,
        ) {
            return QuorumStep::Wait;
        }
        let weight = committee.weight(&validator);
        match answer {
            ValidatorAnswer::Agreed => {
                proof {
                    lemma_one_more(committee.members(), self.signers@, validator);
                    lemma_disjoint_weights(
                        committee.members(),
                        self.signers@.push(validator),
                        self.failed@,
                    );
                }
                self.signers.push(validator);
                self.votes = self.votes + weight;
                if self.votes >= committee.quorum_threshold() {
                    QuorumStep::Quorum
                } else {
                    QuorumStep::Wait
                }
            },
            ValidatorAnswer::Disagreed | ValidatorAnswer::Silent => QuorumStep::Wait,
            ValidatorAnswer::BlobsNotFound(blob_ids) => {
                if self.repairs_left > 0 {
                    self.repairs_left = self.repairs_left - 1;
                    QuorumStep::Repair(blob_ids)
                } else {
                    self.fail(committee, validator, weight)
                }
            },
            ValidatorAnswer::Failed => self.fail(committee, validator, weight),
        }
    }

    /// Counts `validator` among those that failed for good.
    fn fail(&mut self, committee: &Committee, validator: ValidatorPublicKey, weight: u64) -> (step:
        QuorumStep)
        requires
            old(self).well_formed(committee),
            old(self).counts(committee, validator),
            weight == votes_of(committee.members(), validator),
        ensures
            final(self).well_formed(committee),
            final(self).tally() == (WaitingFor {
                failed: old(self).failed@.push(validator),
                ..old(self).tally()
            }),
            step == if old(self).failed_votes + weight >= validity_of(committee.total()) {
                QuorumStep::Failure
            } else {
                QuorumStep::Wait
            },
            step is Failure ==> final(self).failed_votes >= validity_of(committee.total()),
    {
        proof {
            lemma_committee_is_sound(*committee);
            lemma_one_more(committee.members(), self.failed@, validator);
            lemma_disjoint_weights(
                committee.members(),
                self.failed@.push(validator),
                self.signers@,
            );
            assert forall|i: int| 0 <= i < self.signers@.len() implies !self.failed@.push(
                validator,
            ).contains(self.signers@[i]) by {
                if self.failed@.push(validator).contains(self.signers@[i]) {
                    let at = choose|at: int|
                        0 <= at < self.failed@.push(validator).len() && self.failed@.push(
                            validator,
                        )[at] == self.signers@[i];
                    if at < self.failed@.len() {
                        assert(self.failed@[at] == self.signers@[i]);
                    }
                }
            }
        }
        self.failed.push(validator);
        self.failed_votes = self.failed_votes + weight;
        if self.failed_votes >= committee.validity_threshold() {
            QuorumStep::Failure
        } else {
            QuorumStep::Wait
        }
    }

    /// What the collector waits with: who agreed, who failed, and the
    /// repairs that are left.
    pub open spec fn tally(&self) -> WaitingFor {
        WaitingFor {
            signers: self.signers@,
            failed: self.failed@,
            repairs_left: self.repairs_left,
        }
    }
}

/// What a collector holds, as plain values.
pub ghost struct WaitingFor {
    pub signers: Seq<ValidatorPublicKey>,
    pub failed: Seq<ValidatorPublicKey>,
    pub repairs_left: u32,
}

/// One more member among validators that were counted once each keeps
/// them counted once each, and adds its weight.
proof fn lemma_one_more(
    members: Seq<Member>,
    counted: Seq<ValidatorPublicKey>,
    validator: ValidatorPublicKey,
)
    requires
        good_signers(members, counted),
        is_member(members, validator),
        !counted.contains(validator),
    ensures
        good_signers(members, counted.push(validator)),
        signed_votes(members, counted.push(validator)) == signed_votes(members, counted)
            + votes_of(members, validator),
{
    let grown = counted.push(validator);
    assert(grown.drop_last() =~= counted);
    assert forall|i: int| 0 <= i < grown.len() implies is_member(members, #[trigger] grown[i])
        && !grown.take(i).contains(grown[i]) by {
        if i < counted.len() {
            assert(grown[i] == counted[i]);
            assert(grown.take(i) =~= counted.take(i));
        } else {
            assert(grown.take(i) =~= counted);
        }
    }
}

/// Two groups of validators, each counted once and none in both, weigh
/// together no more than the committee.
proof fn lemma_disjoint_weights(
    members: Seq<Member>,
    first: Seq<ValidatorPublicKey>,
    second: Seq<ValidatorPublicKey>,
)
    requires
        distinct_members(members),
        good_signers(members, first),
        good_signers(members, second),
        forall|i: int| 0 <= i < first.len() ==> !second.contains(first[i]),
    ensures
        signed_votes(members, first) + signed_votes(members, second) <= total_votes(members),
{
    let both = first + second;
    assert(distinct_signers(both)) by {
        assert forall|a: int, b: int| 0 <= a < b < both.len() implies both[a] != both[b] by {
            if b < first.len() {
                assert(!first.take(b).contains(first[b]));
                assert(first.take(b)[a] == first[a]);
            } else if a >= first.len() {
                let x = a - first.len();
                let y = b - first.len();
                assert(!second.take(y).contains(second[y]));
                assert(second.take(y)[x] == second[x]);
            } else {
                assert(!second.contains(first[a]));
                assert(second[b - first.len()] == both[b]);
            }
        }
    }
    lemma_signed_votes_bounded(members, both);
    lemma_votes_add_up(members, first, second);
}

/// The weight of two groups in a row is the sum of their weights.
proof fn lemma_votes_add_up(
    members: Seq<Member>,
    first: Seq<ValidatorPublicKey>,
    second: Seq<ValidatorPublicKey>,
)
    ensures
        signed_votes(members, first + second) == signed_votes(members, first) + signed_votes(
            members,
            second,
        ),
    decreases second.len(),
{
    if second.len() == 0 {
        assert(first + second =~= first);
    } else {
        assert((first + second).drop_last() =~= first + second.drop_last());
        assert((first + second).last() == second.last());
        lemma_votes_add_up(members, first, second.drop_last());
    }
}

/// The heights of the confirmed certificates that a validator whose chain
/// stands at `validator_height` has to be sent, so that it catches up with
/// a chain that stands at `tip`: from its own height up to, but not
/// including, the tip; none if it is not behind.
pub fn heights_to_update(validator_height: BlockHeight, tip: BlockHeight) -> (heights: Option<
    (BlockHeight, BlockHeight),
>)
    ensures
        heights == if validator_height.0 < tip.0 {
            Some((validator_height, tip))
        } else {
            None
        },
{
    if validator_height.0 < tip.0 {
        Some((validator_height, tip))
    } else {
        None
    }
}

} // verus!
