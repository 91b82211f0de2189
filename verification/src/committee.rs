//! Committees of validators and the weight of their votes.
//!
//! A quorum is any weight above two thirds of the committee's total, a
//! validity threshold any weight above one third.

use vstd::prelude::*;

use crate::chain::ValidatorPublicKey;

verus! {

/// A member of a committee: a validator and the weight of its vote.
#[derive(Clone, Copy, Debug, PartialEq, Eq)]
pub struct Member {
    pub public_key: ValidatorPublicKey,
    pub votes: u64,
}

/// The sum of the weights of `members`.
pub open spec fn total_votes(members: Seq<Member>) -> nat
    decreases members.len(),
{
    if members.len() == 0 {
        0
    } else {
        total_votes(members.drop_last()) + members.last().votes as nat
    }
}

/// The weight of the vote of `key` among `members`: that of its first
/// entry, or nothing if it has none.
pub open spec fn votes_of(members: Seq<Member>, key: ValidatorPublicKey) -> nat
    decreases members.len(),
{
    if members.len() == 0 {
        0
    } else if members[0].public_key == key {
        members[0].votes as nat
    } else {
        votes_of(members.drop_first(), key)
    }
}

/// `key` is one of `members`.
pub open spec fn is_member(members: Seq<Member>, key: ValidatorPublicKey) -> bool {
    exists|i: int| 0 <= i < members.len() && (#[trigger] members[i]).public_key == key
}

/// No validator occurs twice among `members`.
pub open spec fn distinct_members(members: Seq<Member>) -> bool {
    forall|i: int, j: int|
        0 <= i < j < members.len() ==> (#[trigger] members[i]).public_key != (
        #[trigger] members[j]).public_key
}

/// No validator occurs twice among `signers`.
pub open spec fn distinct_signers(signers: Seq<ValidatorPublicKey>) -> bool {
    forall|i: int, j: int| 0 <= i < j < signers.len() ==> signers[i] != signers[j]
}

/// The sum of the weights that `signers` have among `members`.
pub open spec fn signed_votes(members: Seq<Member>, signers: Seq<ValidatorPublicKey>) -> nat
    decreases signers.len(),
{
    if signers.len() == 0 {
        0
    } else {
        signed_votes(members, signers.drop_last()) + votes_of(members, signers.last())
    }
}

/// The least weight that is more than two thirds of `total`.
pub open spec fn quorum_of(total: nat) -> nat {
    2 * total / 3 + 1
}

/// The least weight that is more than one third of `total`.
pub open spec fn validity_of(total: nat) -> nat {
    total / 3 + 1
}

/// A weight reaches the quorum exactly when it is more than two thirds of
/// the total, and the validity threshold exactly when it is more than one
/// third.
pub proof fn lemma_thresholds(total: nat, weight: nat)
    ensures
        weight >= quorum_of(total) <==> 3 * weight > 2 * total,
        weight >= validity_of(total) <==> 3 * weight > total,
{
}

/// Any two quorums of one committee share more than a third of its
/// weight: at least the validity threshold.
pub proof fn lemma_quorums_intersect(total: nat, first: nat, second: nat)
    requires
        first >= quorum_of(total),
        second >= quorum_of(total),
        first <= total,
        second <= total,
    ensures
        first + second - total >= validity_of(total),
{
}

/// The validators of one epoch and the weights of their votes.
pub struct Committee {
    members: Vec<Member>,
    total_votes: u64,
}

/// Why a set of signatures does not certify anything.
#[derive(Clone, Copy, Debug, PartialEq, Eq)]
pub enum CertificateError {
    /// A signer is not a member of the committee.
    UnknownSigner(ValidatorPublicKey),
    /// A validator signed more than once.
    DuplicateSigner(ValidatorPublicKey),
    /// The signers' weight is not a quorum.
    InsufficientVotes { votes: u64, quorum: u64 },
}

/// Position `at` is the first at which `signers` holds a validator that
/// is no member, or that signed before.
pub open spec fn first_bad_signer(
    members: Seq<Member>,
    signers: Seq<ValidatorPublicKey>,
    at: int,
) -> bool {
    &&& 0 <= at < signers.len()
    &&& !is_member(members, signers[at]) || signers.take(at).contains(signers[at])
    &&& forall|i: int|
        0 <= i < at ==> is_member(members, #[trigger] signers[i]) && !signers.take(i).contains(
            signers[i],
        )
}

/// Every signer is a member, and none signed twice.
pub open spec fn good_signers(members: Seq<Member>, signers: Seq<ValidatorPublicKey>) -> bool {
    forall|i: int|
        0 <= i < signers.len() ==> is_member(members, #[trigger] signers[i])
            && !signers.take(i).contains(signers[i])
}

/// The validators `signers` certify what they signed: they are members,
/// none of them twice, and their weight is a quorum.
pub open spec fn certifies(members: Seq<Member>, signers: Seq<ValidatorPublicKey>) -> bool {
    good_signers(members, signers) && signed_votes(members, signers) >= quorum_of(
        total_votes(members),
    )
}

/// `error` is why `signers` certify nothing: the first signer that is no
/// member or signed before, or else the weight that is short of a
/// quorum.
pub open spec fn is_refusal(
    members: Seq<Member>,
    signers: Seq<ValidatorPublicKey>,
    error: CertificateError,
) -> bool {
    match error {
        CertificateError::UnknownSigner(key) => exists|at: int| #[trigger]
            first_bad_signer(members, signers, at) && signers[at] == key && !is_member(
                members,
                key,
            ),
        CertificateError::DuplicateSigner(key) => exists|at: int| #[trigger]
            first_bad_signer(members, signers, at) && signers[at] == key && is_member(
                members,
                key,
            ),
        CertificateError::InsufficientVotes { votes, quorum } => good_signers(members, signers)
            && votes == signed_votes(members, signers) && quorum == quorum_of(
            total_votes(members),
        ) && votes < quorum,
    }
}

/// Signers that are refused do not certify.
pub proof fn lemma_refusal_is_final(
    members: Seq<Member>,
    signers: Seq<ValidatorPublicKey>,
    error: CertificateError,
)
    requires
        is_refusal(members, signers, error),
    ensures
        !certifies(members, signers),
{
}

/// The weight of a member's vote is its entry's.
proof fn lemma_votes_of_member(members: Seq<Member>, at: int)
    requires
        distinct_members(members),
        0 <= at < members.len(),
    ensures
        votes_of(members, members[at].public_key) == members[at].votes,
    decreases members.len(),
{
    if at > 0 {
        let rest = members.drop_first();
        assert(members[0].public_key != members[at].public_key);
        assert forall|i: int, j: int| 0 <= i < j < rest.len() implies (#[trigger] rest[i]).public_key
            != (#[trigger] rest[j]).public_key by {
            assert(rest[i] == members[i + 1] && rest[j] == members[j + 1]);
        }
        assert(rest[at - 1] == members[at]);
        lemma_votes_of_member(rest, at - 1);
    }
}

/// Who is no member has no vote.
proof fn lemma_votes_of_stranger(members: Seq<Member>, key: ValidatorPublicKey)
    requires
        !is_member(members, key),
    ensures
        votes_of(members, key) == 0,
    decreases members.len(),
{
    if members.len() > 0 {
        assert(members[0].public_key != key);
        let rest = members.drop_first();
        assert(!is_member(rest, key)) by {
            if is_member(rest, key) {
                let i = choose|i: int| 0 <= i < rest.len() && (#[trigger] rest[i]).public_key == key;
                assert(members[i + 1].public_key == key);
            }
        }
        lemma_votes_of_stranger(rest, key);
    }
}

/// Taking one member out lowers the total by its weight.
proof fn lemma_total_votes_remove(members: Seq<Member>, at: int)
    requires
        0 <= at < members.len(),
    ensures
        total_votes(members) == total_votes(members.remove(at)) + members[at].votes,
    decreases members.len(),
{
    if at == members.len() - 1 {
        assert(members.remove(at) =~= members.drop_last());
    } else {
        assert(members.remove(at).drop_last() =~= members.drop_last().remove(at));
        assert(members.remove(at).last() == members.last());
        assert(members.drop_last()[at] == members[at]);
        lemma_total_votes_remove(members.drop_last(), at);
    }
}

/// Distinct signers among the members weigh no more than the committee.
pub proof fn lemma_signed_votes_bounded(members: Seq<Member>, signers: Seq<ValidatorPublicKey>)
    requires
        distinct_members(members),
        distinct_signers(signers),
    ensures
        signed_votes(members, signers) <= total_votes(members),
    decreases signers.len(),
{
    if signers.len() > 0 {
        let key = signers.last();
        let rest = signers.drop_last();
        assert(distinct_signers(rest)) by {
            assert forall|i: int, j: int| 0 <= i < j < rest.len() implies rest[i] != rest[j] by {
                assert(signers[i] != signers[j]);
            }
        }
        if is_member(members, key) {
            let at = choose|i: int| 0 <= i < members.len() && (#[trigger] members[i]).public_key == key;
            let others = members.remove(at);
            lemma_votes_of_member(members, at);
            lemma_total_votes_remove(members, at);
            assert(distinct_members(others)) by {
                assert forall|i: int, j: int| 0 <= i < j < others.len() implies (
                #[trigger] others[i]).public_key != (#[trigger] others[j]).public_key by {
                    let a = if i < at {
                        i
                    } else {
                        i + 1
                    };
                    let b = if j < at {
                        j
                    } else {
                        j + 1
                    };
                    assert(others[i] == members[a] && others[j] == members[b]);
                }
            }
            lemma_signed_votes_bounded(others, rest);
            lemma_signed_votes_without(members, at, rest);
        } else {
            lemma_votes_of_stranger(members, key);
            lemma_signed_votes_bounded(members, rest);
        }
    }
}

/// Signers other than a member weigh the same whether or not that member
/// is counted.
proof fn lemma_signed_votes_without(members: Seq<Member>, at: int, signers: Seq<ValidatorPublicKey>)
    requires
        distinct_members(members),
        0 <= at < members.len(),
        !signers.contains(members[at].public_key),
    ensures
        signed_votes(members.remove(at), signers) == signed_votes(members, signers),
    decreases signers.len(),
{
    if signers.len() > 0 {
        let key = signers.last();
        let rest = signers.drop_last();
        assert(signers[signers.len() - 1] == key);
        assert(key != members[at].public_key);
        assert(!rest.contains(members[at].public_key)) by {
            if rest.contains(members[at].public_key) {
                let i = choose|i: int| 0 <= i < rest.len() && rest[i] == members[at].public_key;
                assert(signers[i] == members[at].public_key);
            }
        }
        lemma_signed_votes_without(members, at, rest);
        lemma_votes_of_without(members, at, key);
    }
}

/// A validator other than a member has the same weight whether or not
/// that member is counted.
proof fn lemma_votes_of_without(members: Seq<Member>, at: int, key: ValidatorPublicKey)
    requires
        0 <= at < members.len(),
        key != members[at].public_key,
    ensures
        votes_of(members.remove(at), key) == votes_of(members, key),
    decreases members.len(),
{
    if at == 0 {
        assert(members.remove(0) =~= members.drop_first());
    } else {
        assert(members.remove(at)[0] == members[0]);
        if members[0].public_key != key {
            assert(members.remove(at).drop_first() =~= members.drop_first().remove(at - 1));
            assert(members.drop_first()[at - 1] == members[at]);
            lemma_votes_of_without(members.drop_first(), at - 1, key);
        }
    }
}

impl Committee {
    /// The members, in the order in which they were given.
    pub closed spec fn members(&self) -> Seq<Member> {
        self.members@
    }

    /// No validator is a member twice, and the total weight is the sum of
    /// the members' weights.
    pub closed spec fn well_formed(&self) -> bool {
        &&& distinct_members(self.members@)
        &&& self.total_votes == total_votes(self.members@)
    }

    /// The sum of the members' weights.
    pub open spec fn total(&self) -> nat {
        total_votes(self.members())
    }

    /// Where `key` stands among the members, if it does.
    fn position(members: &Vec<Member>, key: &ValidatorPublicKey) -> (position: Option<usize>)
        ensures
            match position {
                Some(at) => at < members@.len() && members@[at as int].public_key == *key,
                None => !is_member(members@, *key),
            },
    {
        let mut i: usize = 0;
        while i < members.len()
            invariant
                i <= members@.len(),
                forall|j: int| 0 <= j < i ==> (#[trigger] members@[j]).public_key != *key,
            decreases members@.len() - i,
        {
            if members[i].public_key.is(key) {
                return Some(i);
            }
            i += 1;
        }
        None
    }

    /// The committee of `members`, unless a validator occurs twice among
    /// them or their weights add up to more than 64 bits hold.
    pub fn new(members: Vec<Member>) -> (made: Option<Committee>)
        ensures
            match made {
                Some(committee) => committee.well_formed() && committee.members() == members@,
                None => !distinct_members(members@) || total_votes(members@) > u64::MAX,
            },
    {
        let mut total: u64 = 0;
        let mut i: usize = 0;
        assert(members@.take(0) =~= Seq::<Member>::empty());
        while i < members.len()
            invariant
                i <= members@.len(),
                distinct_members(members@.take(i as int)),
                total == total_votes(members@.take(i as int)),
            decreases members@.len() - i,
        {
            let ghost seen = members@.take(i as int);
            let ghost grown = members@.take(i + 1);
            proof {
                assert(grown.drop_last() =~= seen);
                assert(grown.last() == members@[i as int]);
            }
            let mut j: usize = 0;
            while j < i
                invariant
                    j <= i < members@.len(),
                    forall|k: int|
                        0 <= k < j ==> (#[trigger] members@[k]).public_key
                            != members@[i as int].public_key,
                decreases i - j,
            {
                if members[j].public_key.is(&members[i].public_key) {
                    return None;
                }
                j += 1;
            }
            if members[i].votes > u64::MAX - total {
                proof {
                    lemma_total_votes_grows(members@, i + 1);
                }
                return None;
            }
            total = total + members[i].votes;
            proof {
                assert forall|a: int, b: int| 0 <= a < b < grown.len() implies (
                #[trigger] grown[a]).public_key != (#[trigger] grown[b]).public_key by {
                    if b < i {
                        assert(seen[a] == grown[a] && seen[b] == grown[b]);
                    }
                }
            }
            i += 1;
        }
        assert(members@.take(i as int) =~= members@);
        Some(Committee { members, total_votes: total })
    }

    /// The committee in which each of the validators `keys` has one vote,
    /// unless a validator occurs twice among them.
    pub fn make_simple(keys: &Vec<ValidatorPublicKey>) -> (made: Option<Committee>)
        ensures
            match made {
                Some(committee) => committee.well_formed() && committee.members()
                    == equal_members(keys@),
                None => !distinct_signers(keys@),
            },
    {
        let mut members: Vec<Member> = Vec::new();
        let mut i: usize = 0;
        while i < keys.len()
            invariant
                i <= keys@.len(),
                members@ == equal_members(keys@.take(i as int)),
            decreases keys@.len() - i,
        {
            members.push(Member { public_key: keys[i], votes: 1 });
            assert(members@ =~= equal_members(keys@.take(i + 1)));
            i += 1;
        }
        proof {
            assert(keys@.take(i as int) =~= keys@);
            lemma_equal_total(keys@);
            if distinct_signers(keys@) {
                assert forall|a: int, b: int| 0 <= a < b < members@.len() implies (
                #[trigger] members@[a]).public_key != (#[trigger] members@[b]).public_key by {
                    assert(keys@[a] != keys@[b]);
                }
            }
        }
        Committee::new(members)
    }

    /// The total weight of the committee.
    pub fn total_votes(&self) -> (total: u64)
        requires
            self.well_formed(),
        ensures
            total == self.total(),
    {
        self.total_votes
    }

    /// The least weight that is a quorum: more than two thirds of the
    /// total.
    pub fn quorum_threshold(&self) -> (quorum: u64)
        requires
            self.well_formed(),
        ensures
            quorum == quorum_of(self.total()),
    {
        let doubled: u128 = 2 * (self.total_votes as u128);
        (doubled / 3) as u64 + 1
    }

    /// The least weight that holds an honest validator whatever a third of
    /// the committee does: more than one third of the total.
    pub fn validity_threshold(&self) -> (validity: u64)
        requires
            self.well_formed(),
        ensures
            validity == validity_of(self.total()),
    {
        self.total_votes / 3 + 1
    }

    /// Whether `key` is a member of the committee.
    pub fn has_member(&self, key: &ValidatorPublicKey) -> (member: bool)
        ensures
            member == is_member(self.members(), *key),
    {
        Committee::position(&self.members, key).is_some()
    }

    /// The weight of the vote of `key`: nothing if it is no member.
    pub fn weight(&self, key: &ValidatorPublicKey) -> (votes: u64)
        requires
            self.well_formed(),
        ensures
            votes == votes_of(self.members(), *key),
    {
        match Committee::position(&self.members, key) {
            Some(at) => {
                proof {
                    lemma_votes_of_member(self.members@, at as int);
                }
                self.members[at].votes
            },
            None => {
                proof {
                    lemma_votes_of_stranger(self.members@, *key);
                }
                0
            },
        }
    }

    /// Checks that the validators `signers`, whose signatures were found
    /// valid, certify what they signed: that they are members of the
    /// committee, none of them twice, and that their weight is a quorum.
    pub fn check_signers(&self, signers: &Vec<ValidatorPublicKey>) -> (result: Result<
        (),
        CertificateError,
    >)
        requires
            self.well_formed(),
        ensures
            match result {
                Ok(_) => certifies(self.members(), signers@),
                Err(error) => is_refusal(self.members(), signers@, error),
            },
    {
        let mut votes: u64 = 0;
        let mut i: usize = 0;
        assert(signers@.take(0) =~= Seq::<ValidatorPublicKey>::empty());
        while i < signers.len()
            invariant
                self.well_formed(),
                i <= signers@.len(),
                good_signers(self.members@, signers@.take(i as int)),
                votes == signed_votes(self.members@, signers@.take(i as int)),
            decreases signers@.len() - i,
        {
            let key = signers[i];
            let ghost seen = signers@.take(i as int);
            let ghost grown = signers@.take(i + 1);
            proof {
                assert(grown.drop_last() =~= seen);
                assert(grown.last() == key);
                assert forall|k: int| 0 <= k < i implies is_member(
                    self.members@,
                    #[trigger] signers@[k],
                ) && !signers@.take(k).contains(signers@[k]) by {
                    assert(seen[k] == signers@[k]);
                    assert(seen.take(k) =~= signers@.take(k));
                }
            }
            let at = match Committee::position(&self.members, &key) {
                Some(at) => at,
                None => {
                    assert(first_bad_signer(self.members(), signers@, i as int));
                    return Err(CertificateError::UnknownSigner(key));
                },
            };
            let mut j: usize = 0;
            while j < i
                invariant
                    j <= i < signers@.len(),
                    key == signers@[i as int],
                    is_member(self.members(), key),
                    forall|k: int| 0 <= k < j ==> signers@[k] != key,
                    forall|k: int|
                        0 <= k < i ==> is_member(self.members(), #[trigger] signers@[k])
                            && !signers@.take(k).contains(signers@[k]),
                decreases i - j,
            {
                if signers[j].is(&key) {
                    proof {
                        assert(signers@.take(i as int)[j as int] == key);
                        assert(first_bad_signer(self.members(), signers@, i as int));
                    }
                    return Err(CertificateError::DuplicateSigner(key));
                }
                j += 1;
            }
            proof {
                assert(!seen.contains(key));
                assert forall|k: int| 0 <= k < grown.len() implies is_member(
                    self.members@,
                    #[trigger] grown[k],
                ) && !grown.take(k).contains(grown[k]) by {
                    assert(grown[k] == signers@[k]);
                    assert(grown.take(k) =~= signers@.take(k));
                    if k == i {
                        assert(signers@.take(k) =~= seen);
                    }
                }
                assert(distinct_signers(grown)) by {
                    assert forall|a: int, b: int| 0 <= a < b < grown.len() implies grown[a]
                        != grown[b] by {
                        assert(!grown.take(b).contains(grown[b]));
                        assert(grown.take(b)[a] == grown[a]);
                    }
                }
                lemma_signed_votes_bounded(self.members@, grown);
                lemma_votes_of_member(self.members@, at as int);
            }
            votes = votes + self.members[at].votes;
            i += 1;
        }
        assert(signers@.take(i as int) =~= signers@);
        let quorum = self.quorum_threshold();
        if votes >= quorum {
            Ok(())
        } else {
            Err(CertificateError::InsufficientVotes { votes, quorum })
        }
    }
}

/// The sum of the weights of some of the first members is at most the sum
/// of all.
proof fn lemma_total_votes_grows(members: Seq<Member>, k: int)
    requires
        0 <= k <= members.len(),
    ensures
        total_votes(members.take(k)) <= total_votes(members),
    decreases members.len() - k,
{
    if k < members.len() {
        assert(members.take(k + 1).drop_last() =~= members.take(k));
        lemma_total_votes_grows(members, k + 1);
    } else {
        assert(members.take(k) =~= members);
    }
}

/// In a well-formed committee no validator is a member twice, and the
/// total weight fits in 64 bits.
pub proof fn lemma_committee_is_sound(committee: Committee)
    requires
        committee.well_formed(),
    ensures
        distinct_members(committee.members()),
        committee.total() <= u64::MAX,
{
}

/// Signers that a committee accepts weigh more than two thirds of it.
pub proof fn lemma_quorum_soundness(committee: Committee, signers: Seq<ValidatorPublicKey>)
    requires
        committee.well_formed(),
        certifies(committee.members(), signers),
    ensures
        3 * signed_votes(committee.members(), signers) > 2 * committee.total(),
        signed_votes(committee.members(), signers) <= committee.total(),
{
    lemma_thresholds(committee.total(), signed_votes(committee.members(), signers));
    assert(distinct_signers(signers)) by {
        assert forall|a: int, b: int| 0 <= a < b < signers.len() implies signers[a] != signers[b] by {
            assert(!signers.take(b).contains(signers[b]));
            assert(signers.take(b)[a] == signers[a]);
        }
    }
    lemma_signed_votes_bounded(committee.members(), signers);
}

/// The members of the committee in which each of `keys` has one vote.
pub open spec fn equal_members(keys: Seq<ValidatorPublicKey>) -> Seq<Member> {
    Seq::new(keys.len(), |i: int| Member { public_key: keys[i], votes: 1 })
}

/// A committee of validators with one vote each weighs as much as it has
/// members.
proof fn lemma_equal_total(keys: Seq<ValidatorPublicKey>)
    ensures
        total_votes(equal_members(keys)) == keys.len(),
    decreases keys.len(),
{
    if keys.len() > 0 {
        assert(equal_members(keys).drop_last() =~= equal_members(keys.drop_last()));
        lemma_equal_total(keys.drop_last());
    }
}

/// In a committee of validators with one vote each, signers that are
/// members, none of them twice, weigh as much as they are many; so they
/// certify exactly when they are more than two thirds of the validators.
/// Of four validators, three are enough and two are not.
pub proof fn lemma_equal_committee_quorum(
    keys: Seq<ValidatorPublicKey>,
    signers: Seq<ValidatorPublicKey>,
)
    requires
        distinct_signers(keys),
        good_signers(equal_members(keys), signers),
    ensures
        total_votes(equal_members(keys)) == keys.len(),
        signed_votes(equal_members(keys), signers) == signers.len(),
        certifies(equal_members(keys), signers) <==> 3 * signers.len() > 2 * keys.len(),
        keys.len() == 4 ==> (certifies(equal_members(keys), signers) <==> signers.len() >= 3),
    decreases signers.len(),
{
    let members = equal_members(keys);
    lemma_equal_total(keys);
    assert(distinct_members(members)) by {
        assert forall|a: int, b: int| 0 <= a < b < members.len() implies (
        #[trigger] members[a]).public_key != (#[trigger] members[b]).public_key by {
            assert(keys[a] != keys[b]);
        }
    }
    if signers.len() > 0 {
        let before = signers.drop_last();
        assert(good_signers(members, before)) by {
            assert forall|i: int| 0 <= i < before.len() implies is_member(
                members,
                #[trigger] before[i],
            ) && !before.take(i).contains(before[i]) by {
                assert(before[i] == signers[i]);
                assert(before.take(i) =~= signers.take(i));
            }
        }
        lemma_equal_committee_quorum(keys, before);
        let last = signers[signers.len() - 1];
        assert(is_member(members, last));
        let at = choose|at: int| 0 <= at < members.len() && (#[trigger] members[at]).public_key == last;
        lemma_votes_of_member(members, at);
    }
    lemma_thresholds(keys.len(), signers.len());
}

} // verus!
