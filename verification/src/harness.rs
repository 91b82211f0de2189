//! The bookkeeping of an in-process test network: which validators are
//! faulty, which root chains exist, and what the validators' answers say
//! about the state of a chain.

use vstd::prelude::*;
use vstd::string::*;

use crate::chain::{
    AccountOwner, AccountPublicKey, Amount, BlockHeight, ChainId, CryptoHash, Round,
    ValidatorPublicKey,
};
use crate::faults::{FaultType, NodeError};
use crate::text::{from_chars, push_decimal, to_chars, decimal};

verus! {

/// A root chain of the test network.
#[derive(Clone, Copy, Debug, PartialEq, Eq)]
pub struct RootChain {
    /// The number of the root chain; number 0 is the admin chain.
    pub index: u32,
    /// The chain's identifier.
    pub chain_id: ChainId,
    /// The key that owns the chain.
    pub public_key: AccountPublicKey,
    /// The owner that the key stands for.
    pub owner: AccountOwner,
    /// The balance that the chain starts with.
    pub balance: Amount,
}

/// The state of a test network as far as its rules need it: the fault of
/// each validator and the root chains created so far, in the order of
/// their creation.
pub struct TestBuilder {
    validator_faults: Vec<FaultType>,
    chains: Vec<RootChain>,
    admin: Option<RootChain>,
}

/// The faults of a new network of `count` validators of which the first
/// `with_faulty_validators` are malicious.
pub open spec fn initial_faults(count: usize, with_faulty_validators: usize) -> Seq<FaultType> {
    Seq::new(
        count as nat,
        |i: int|
            if i < with_faulty_validators {
                FaultType::Malicious
            } else {
                FaultType::Honest
            },
    )
}

/// The owner recorded last for the chain `chain_id` among `chains`.
pub open spec fn owner_among(chains: Seq<RootChain>, chain_id: ChainId) -> Option<AccountOwner>
    decreases chains.len(),
{
    if chains.len() == 0 {
        None
    } else if chains.last().chain_id == chain_id {
        Some(chains.last().owner)
    } else {
        owner_among(chains.drop_last(), chain_id)
    }
}

impl TestBuilder {
    /// The fault of each validator.
    pub closed spec fn faults(&self) -> Seq<FaultType> {
        self.validator_faults@
    }

    /// The root chains created so far, in the order of their creation.
    pub closed spec fn chains(&self) -> Seq<RootChain> {
        self.chains@
    }

    /// The admin chain, once it is created.
    pub closed spec fn admin(&self) -> Option<RootChain> {
        self.admin
    }

    /// A network of `count` validators without any chain. The first
    /// `with_faulty_validators` validators are malicious, the others
    /// honest.
    pub fn new(count: usize, with_faulty_validators: usize) -> (builder: TestBuilder)
        ensures
            builder.faults() == initial_faults(count, with_faulty_validators),
            builder.chains() == Seq::<RootChain>::empty(),
            builder.admin() is None,
    {
        let mut validator_faults: Vec<FaultType> = Vec::new();
        let mut i: usize = 0;
        while i < count
            invariant
                i <= count,
                validator_faults@ == initial_faults(i, with_faulty_validators),
            decreases count - i,
        {
            validator_faults.push(FaultType::of_new_validator(i, with_faulty_validators));
            assert(validator_faults@ =~= initial_faults((i + 1) as usize, with_faulty_validators));
            i += 1;
        }
        TestBuilder { validator_faults, chains: Vec::new(), admin: None }
    }

    /// The number of validators.
    pub fn validator_count(&self) -> (count: usize)
        ensures
            count == self.faults().len(),
    {
        self.validator_faults.len()
    }

    /// The fault of the validator at position `index`.
    pub fn fault_type(&self, index: usize) -> (fault: FaultType)
        requires
            index < self.faults().len(),
        ensures
            fault == self.faults()[index as int],
    {
        self.validator_faults[index]
    }

    /// Gives the validators at the positions `indexes` the fault
    /// `fault_type`.
    pub fn set_fault_type(&mut self, indexes: &[usize], fault_type: FaultType)
        requires
            forall|k: int| 0 <= k < indexes@.len() ==> #[trigger] indexes@[k] < old(self).faults().len(),
        ensures
            final(self).chains() == old(self).chains(),
            final(self).admin() == old(self).admin(),
            final(self).faults().len() == old(self).faults().len(),
            forall|v: int|
                0 <= v < old(self).faults().len() ==> #[trigger] final(self).faults()[v] == if indexes@.contains(
                    v as usize,
                ) {
                    fault_type
                } else {
                    old(self).faults()[v]
                },
    {
        let mut k: usize = 0;
        while k < indexes.len()
            invariant
                k <= indexes@.len(),
                self.chains@ == old(self).chains@,
                self.admin == old(self).admin,
                self.validator_faults@.len() == old(self).validator_faults@.len(),
                forall|j: int|
                    0 <= j < indexes@.len() ==> #[trigger] indexes@[j] < self.validator_faults@.len(),
                forall|v: int|
                    0 <= v < self.validator_faults@.len() ==> #[trigger] self.validator_faults@[v]
                        == if indexes@.take(k as int).contains(v as usize) {
                        fault_type
                    } else {
                        old(self).validator_faults@[v]
                    },
            decreases indexes@.len() - k,
        {
            let index = indexes[k];
            self.validator_faults.set(index, fault_type);
            proof {
                let before = indexes@.take(k as int);
                let after = indexes@.take(k + 1);
                assert(after =~= before.push(index));
                assert forall|v: int|
                    0 <= v < self.validator_faults@.len() implies #[trigger] self.validator_faults@[v]
                    == if after.contains(v as usize) {
                    fault_type
                } else {
                    old(self).validator_faults@[v]
                } by {
                    if v == index {
                        assert(after[k as int] == index);
                    } else if before.contains(v as usize) {
                        let at = choose|at: int| 0 <= at < before.len() && before[at] == v as usize;
                        assert(after[at] == v as usize);
                    } else if after.contains(v as usize) {
                        let at = choose|at: int| 0 <= at < after.len() && after[at] == v as usize;
                        assert(after[k as int] == index);
                        assert(self.validator_faults@.len() == self.validator_faults.len());
                        assert(v as usize == v);
                        assert(at < k);
                        assert(before[at] == v as usize);
                    }
                }
            }
            k += 1;
        }
        assert(indexes@.take(k as int) =~= indexes@);
    }

    /// Whether the admin chain has to be created before root chain number
    /// `index` can be: it has, unless it exists or is that chain.
    pub fn needs_admin_chain(&self, index: u32) -> (needed: bool)
        ensures
            needed == (self.admin() is None && index != 0),
    {
        self.admin.is_none() && index != 0
    }

    /// The root chain that has to be created before root chain number
    /// `index` can be, with the balance that it is created with: the admin
    /// chain, number 0, without tokens, unless it exists or is that chain.
    pub fn chain_to_create_first(&self, index: u32) -> (first: Option<(u32, Amount)>)
        ensures
            first == if self.admin() is None && index != 0 {
                Some((0u32, Amount(0)))
            } else {
                None
            },
    {
        if self.admin.is_none() && index != 0 {
            Some((0, Amount(0)))
        } else {
            None
        }
    }

    /// Records the new root chain `chain` and returns the balance with
    /// which each validator creates it: malicious validators create it
    /// empty. Root chain number 0 becomes the admin chain.
    ///
    /// The admin chain must exist or be this chain.
    pub fn add_root_chain(&mut self, chain: RootChain) -> (balances: Vec<Amount>)
        requires
            old(self).admin() is Some || chain.index == 0,
        ensures
            final(self).faults() == old(self).faults(),
            final(self).chains() == old(self).chains().push(chain),
            final(self).admin() == if chain.index == 0 {
                Some(chain)
            } else {
                old(self).admin()
            },
            balances@.len() == old(self).faults().len(),
            forall|v: int|
                0 <= v < balances@.len() ==> #[trigger] balances@[v] == if old(self).faults()[v] is Malicious {
                    Amount(0)
                } else {
                    chain.balance
                },
    {
        if chain.index == 0 {
            self.admin = Some(chain);
        }
        self.chains.push(chain);
        let mut balances: Vec<Amount> = Vec::new();
        let mut v: usize = 0;
        while v < self.validator_faults.len()
            invariant
                v <= self.validator_faults@.len(),
                balances@.len() == v,
                forall|w: int|
                    0 <= w < v ==> #[trigger] balances@[w] == if self.validator_faults@[w] is Malicious {
                        Amount(0)
                    } else {
                        chain.balance
                    },
            decreases self.validator_faults@.len() - v,
        {
            balances.push(self.validator_faults[v].initial_balance(chain.balance));
            v += 1;
        }
        balances
    }

    /// Whether the root chains were created in the order of their numbers,
    /// from 0 on without a gap.
    pub fn genesis_in_order(&self) -> (in_order: bool)
        ensures
            in_order == forall|i: int|
                0 <= i < self.chains().len() ==> (#[trigger] self.chains()[i]).index == i,
    {
        let mut i: usize = 0;
        while i < self.chains.len()
            invariant
                i <= self.chains@.len(),
                forall|j: int| 0 <= j < i ==> (#[trigger] self.chains@[j]).index == j,
            decreases self.chains@.len() - i,
        {
            if self.chains[i].index as usize != i {
                return false;
            }
            i += 1;
        }
        true
    }

    /// The key and the initial balance of every root chain, in the order
    /// of their numbers.
    ///
    /// The chains must have been created in the order of their numbers,
    /// from 0 on.
    pub fn genesis_chains(&self) -> (result: Vec<(AccountPublicKey, Amount)>)
        requires
            forall|i: int| 0 <= i < self.chains().len() ==> (#[trigger] self.chains()[i]).index == i,
        ensures
            result@.len() == self.chains().len(),
            forall|i: int|
                0 <= i < result@.len() ==> #[trigger] result@[i] == (
                    self.chains()[i].public_key,
                    self.chains()[i].balance,
                ),
    {
        let mut result: Vec<(AccountPublicKey, Amount)> = Vec::new();
        let mut i: usize = 0;
        while i < self.chains.len()
            invariant
                i <= self.chains@.len(),
                result@.len() == i,
                forall|j: int|
                    0 <= j < i ==> #[trigger] result@[j] == (
                        self.chains@[j].public_key,
                        self.chains@[j].balance,
                    ),
            decreases self.chains@.len() - i,
        {
            let genesis_account = &self.chains[i];
            result.push((genesis_account.public_key, genesis_account.balance));
            i += 1;
        }
        result
    }

    /// The identifier of the admin chain, which must exist.
    pub fn admin_id(&self) -> (chain_id: ChainId)
        requires
            self.admin() is Some,
        ensures
            chain_id == self.admin()->Some_0.chain_id,
    {
        match self.admin {
            Some(chain) => chain.chain_id,
            None => vstd::pervasive::unreached(),
        }
    }

    /// The admin chain, once it is created.
    pub fn admin_description(&self) -> (description: Option<RootChain>)
        ensures
            description == self.admin(),
    {
        self.admin
    }

    /// The owner of the chain `chain_id`, if it is a root chain of this
    /// network.
    pub fn chain_owner(&self, chain_id: &ChainId) -> (owner: Option<AccountOwner>)
        ensures
            owner == owner_among(self.chains(), *chain_id),
    {
        let mut i: usize = self.chains.len();
        assert(self.chains@.take(i as int) =~= self.chains@);
        while i > 0
            invariant
                i <= self.chains@.len(),
                owner_among(self.chains@, *chain_id) == owner_among(
                    self.chains@.take(i as int),
                    *chain_id,
                ),
            decreases i,
        {
            proof {
                assert(self.chains@.take(i as int).drop_last() =~= self.chains@.take(i - 1));
            }
            if self.chains[i - 1].chain_id.is(chain_id) {
                return Some(self.chains[i - 1].owner);
            }
            i -= 1;
        }
        None
    }
}

/// How many of `answers` are `true`.
pub open spec fn count_true(answers: Seq<bool>) -> nat
    decreases answers.len(),
{
    if answers.len() == 0 {
        0
    } else {
        count_true(answers.drop_last()) + if answers.last() {
            1nat
        } else {
            0nat
        }
    }
}

/// The last position of `answers` that holds `true`, if any does.
pub open spec fn last_true(answers: Seq<bool>) -> Option<int>
    decreases answers.len(),
{
    if answers.len() == 0 {
        None
    } else if answers.last() {
        Some(answers.len() - 1)
    } else {
        last_true(answers.drop_last())
    }
}

/// What the validators' answers say about a certificate.
#[derive(Clone, Copy, Debug, PartialEq, Eq)]
pub struct CertificateCheck {
    /// How many validators hold the certificate.
    pub count: usize,
    /// The position of the last validator that holds it.
    pub holder: Option<usize>,
    /// Whether as many validators hold it as were asked for.
    pub enough: bool,
}

/// Whether a validator that answered with the certificate of the block at
/// `found`, or with none, holds the certificate of the block of chain
/// `chain_id` at height `block_height`.
pub open spec fn holds_certificate(
    found: Option<(ChainId, BlockHeight)>,
    chain_id: ChainId,
    block_height: BlockHeight,
) -> bool {
    found == Some((chain_id, block_height))
}

/// What a validator says of the voting on a chain.
#[derive(Clone, Copy, Debug, PartialEq, Eq)]
pub struct RoundObservation {
    /// The round that the chain's manager is in.
    pub current_round: Round,
    /// The height of the chain's next block.
    pub next_block_height: BlockHeight,
    /// Whether the answer carried the validator's valid signature.
    pub signed: bool,
}

/// Whether a validator that answered with `observed`, or not at all, is
/// in round `round` at height `block_height`.
pub open spec fn is_in_round(
    observed: Option<RoundObservation>,
    block_height: BlockHeight,
    round: Round,
) -> bool {
    observed matches Some(observation) && observation.current_round == round
        && observation.next_block_height == block_height && observation.signed
}

impl TestBuilder {
    /// Counts the validators that hold the confirmed certificate of the
    /// block of chain `chain_id` at height `block_height`, and holds the
    /// count against `target_count`.
    ///
    /// `certificates` has, for each validator, the chain and height of the
    /// certificate that it returned for that height, or `None` if it
    /// returned none that it signed for.
    pub fn check_that_validators_have_certificate(
        certificates: &Vec<Option<(ChainId, BlockHeight)>>,
        chain_id: ChainId,
        block_height: BlockHeight,
        target_count: usize,
    ) -> (check: CertificateCheck)
        ensures
            check.count == count_true(
                certificates@.map_values(
                    |found: Option<(ChainId, BlockHeight)>|
                        holds_certificate(found, chain_id, block_height),
                ),
            ),
            match check.holder {
                Some(position) => last_true(
                    certificates@.map_values(
                        |found: Option<(ChainId, BlockHeight)>|
                            holds_certificate(found, chain_id, block_height),
                    ),
                ) == Some(position as int),
                None => last_true(
                    certificates@.map_values(
                        |found: Option<(ChainId, BlockHeight)>|
                            holds_certificate(found, chain_id, block_height),
                    ),
                ) is None,
            },
            check.enough == (check.count >= target_count),
    {
        let ghost answers = certificates@.map_values(
            |found: Option<(ChainId, BlockHeight)>|
                holds_certificate(found, chain_id, block_height),
        );
        let mut count: usize = 0;
        let mut holder: Option<usize> = None;
        let mut i: usize = 0;
        assert(answers.take(0) =~= Seq::<bool>::empty());
        while i < certificates.len()
            invariant
                i <= certificates@.len(),
                answers == certificates@.map_values(
                    |found: Option<(ChainId, BlockHeight)>|
                        holds_certificate(found, chain_id, block_height),
                ),
                count == count_true(answers.take(i as int)),
                count <= i,
                match holder {
                    Some(position) => last_true(answers.take(i as int)) == Some(position as int),
                    None => last_true(answers.take(i as int)) is None,
                },
            decreases certificates@.len() - i,
        {
            proof {
                assert(answers.take(i + 1).drop_last() =~= answers.take(i as int));
                assert(answers.take(i + 1).last() == holds_certificate(
                    certificates@[i as int],
                    chain_id,
                    block_height,
                ));
            }
            let holds = match &certificates[i] {
                Some((found_chain, found_height)) => found_chain.is(&chain_id) && found_height.0
                    == block_height.0,
                None => false,
            };
            if holds {
                count += 1;
                holder = Some(i);
            }
            i += 1;
        }
        assert(answers.take(i as int) =~= answers);
        CertificateCheck { count, holder, enough: count >= target_count }
    }

    /// Counts the validators that are in round `round` at height
    /// `block_height`, going by their signed answers, and says whether
    /// they are at least `target_count`.
    pub fn check_that_validators_are_in_round(
        observations: &Vec<Option<RoundObservation>>,
        block_height: BlockHeight,
        round: Round,
        target_count: usize,
    ) -> (enough: bool)
        ensures
            enough == (count_true(
                observations@.map_values(
                    |observed: Option<RoundObservation>| is_in_round(observed, block_height, round),
                ),
            ) >= target_count),
    {
        let ghost answers = observations@.map_values(
            |observed: Option<RoundObservation>| is_in_round(observed, block_height, round),
        );
        let mut count: usize = 0;
        let mut i: usize = 0;
        assert(answers.take(0) =~= Seq::<bool>::empty());
        while i < observations.len()
            invariant
                i <= observations@.len(),
                answers == observations@.map_values(
                    |observed: Option<RoundObservation>| is_in_round(observed, block_height, round),
                ),
                count == count_true(answers.take(i as int)),
                count <= i,
            decreases observations@.len() - i,
        {
            proof {
                assert(answers.take(i + 1).drop_last() =~= answers.take(i as int));
                assert(answers.take(i + 1).last() == is_in_round(
                    observations@[i as int],
                    block_height,
                    round,
                ));
            }
            let in_round = match &observations[i] {
                Some(observation) => observation.current_round == round
                    && observation.next_block_height == block_height && observation.signed,
                None => false,
            };
            if in_round {
                count += 1;
            }
            i += 1;
        }
        assert(answers.take(i as int) =~= answers);
        count >= target_count
    }

    /// Whether no validator has a message waiting in an outbox of the
    /// chain in question, given the number of targets that each
    /// validator's outboxes of the chain have.
    pub fn check_that_validators_have_empty_outboxes(outbox_targets: &Vec<usize>) -> (empty: bool)
        ensures
            empty == forall|v: int| 0 <= v < outbox_targets@.len() ==> outbox_targets@[v] == 0,
    {
        let mut v: usize = 0;
        while v < outbox_targets.len()
            invariant
                v <= outbox_targets@.len(),
                forall|w: int| 0 <= w < v ==> outbox_targets@[w] == 0,
            decreases outbox_targets@.len() - v,
        {
            if outbox_targets[v] != 0 {
                return false;
            }
            v += 1;
        }
        true
    }
}

/// The name spaces of the storages that a storage builder makes: one name
/// space for the builder, and in it one numbered name per storage.
pub struct StorageNamespace {
    namespace: String,
    instance_counter: usize,
}

impl StorageNamespace {
    /// The builder's name space; empty until the first storage is made.
    pub closed spec fn namespace(&self) -> Seq<char> {
        self.namespace@
    }

    /// The number of storages made so far.
    pub closed spec fn instance_counter(&self) -> usize {
        self.instance_counter
    }

    /// The name spaces of a builder that has made no storage yet.
    pub fn new() -> (made: StorageNamespace)
        ensures
            made.namespace() == Seq::<char>::empty(),
            made.instance_counter() == 0,
    {
        StorageNamespace { namespace: String::new(), instance_counter: 0 }
    }

    /// The number of storages made so far.
    pub fn instance_count(&self) -> (count: usize)
        ensures
            count == self.instance_counter(),
    {
        self.instance_counter
    }

    /// Whether the builder has no name space of its own yet, so that the
    /// next storage needs a freshly generated one.
    pub fn needs_namespace(&self) -> (needed: bool)
        ensures
            needed == (self.namespace().len() == 0),
    {
        self.namespace.as_str().unicode_len() == 0
    }

    /// The name of the next storage: the builder's name space, an
    /// underscore and the number of the storage, counted from 1. A builder
    /// without a name space takes `generated` for its own first.
    pub fn next(&mut self, generated: &str) -> (name: String)
        requires
            old(self).instance_counter() < usize::MAX,
        ensures
            final(self).instance_counter() == old(self).instance_counter() + 1,
            final(self).namespace() == if old(self).namespace().len() == 0 {
                generated@
            } else {
                old(self).namespace()
            },
            name@ == final(self).namespace() + seq!['_'] + decimal(
                final(self).instance_counter() as nat,
            ),
    {
        self.instance_counter = self.instance_counter + 1;
        if self.namespace.as_str().unicode_len() == 0 {
            self.namespace = String::from_str(generated);
        }
        let mut chars = to_chars(self.namespace.as_str());
        chars.push('_');
        push_decimal(&mut chars, self.instance_counter as u128);
        from_chars(&chars)
    }
}

/// The walk down a chain from one block to its ancestors, one read at a
/// time.
pub struct DownwardWalk {
    next: Option<CryptoHash>,
    remaining: u32,
    visited: Vec<CryptoHash>,
}

impl DownwardWalk {
    /// The block to read next, unless the walk has reached the first block
    /// of the chain.
    pub closed spec fn next(&self) -> Option<CryptoHash> {
        self.next
    }

    /// How many blocks may still be read.
    pub closed spec fn remaining(&self) -> u32 {
        self.remaining
    }

    /// The blocks read so far, newest first.
    pub closed spec fn visited(&self) -> Seq<CryptoHash> {
        self.visited@
    }

    /// A walk that starts at the block `from` and reads at most `limit`
    /// blocks.
    pub fn new(from: CryptoHash, limit: u32) -> (walk: DownwardWalk)
        ensures
            walk.next() == Some(from),
            walk.remaining() == limit,
            walk.visited() == Seq::<CryptoHash>::empty(),
    {
        DownwardWalk { next: Some(from), remaining: limit, visited: Vec::new() }
    }

    /// The block that has to be read now, or `None` when the walk is over:
    /// when the limit is used up or the first block of the chain was read.
    pub fn wanted(&self) -> (hash: Option<CryptoHash>)
        ensures
            hash == if self.remaining() == 0 {
                None
            } else {
                self.next()
            },
    {
        if self.remaining == 0 {
            None
        } else {
            self.next
        }
    }

    /// Takes note that the wanted block was read and that the block before
    /// it is `previous_block_hash`, if there is one.
    pub fn block_read(&mut self, previous_block_hash: Option<CryptoHash>)
        requires
            old(self).remaining() > 0,
            old(self).next() is Some,
        ensures
            final(self).remaining() == old(self).remaining() - 1,
            final(self).next() == previous_block_hash,
            final(self).visited() == old(self).visited().push(old(self).next()->Some_0),
    {
        match self.next {
            Some(hash) => {
                self.visited.push(hash);
            },
            None => {},
        }
        self.next = previous_block_hash;
        self.remaining = self.remaining - 1;
    }
}

/// The blocks from `from` down that a walk of at most `limit` reads reads,
/// newest first, where `links` names for each block the block before it.
pub open spec fn ancestors(
    links: Map<CryptoHash, Option<CryptoHash>>,
    from: Option<CryptoHash>,
    limit: nat,
) -> Seq<CryptoHash>
    decreases limit,
{
    match from {
        Some(hash) => if limit > 0 && links.contains_key(hash) {
            seq![hash] + ancestors(links, links[hash], (limit - 1) as nat)
        } else {
            Seq::empty()
        },
        None => Seq::empty(),
    }
}

/// Every read of a walk keeps what the walk comes to: the blocks visited
/// so far, followed by those still to be read, are the blocks from the
/// start down.
pub proof fn lemma_walk_step(
    before: DownwardWalk,
    after: DownwardWalk,
    links: Map<CryptoHash, Option<CryptoHash>>,
)
    requires
        before.remaining() > 0,
        before.next() matches Some(hash) && links.contains_key(hash),
        after.remaining() == before.remaining() - 1,
        after.next() == links[before.next()->Some_0],
        after.visited() == before.visited().push(before.next()->Some_0),
    ensures
        after.visited() + ancestors(links, after.next(), after.remaining() as nat)
            == before.visited() + ancestors(links, before.next(), before.remaining() as nat),
{
    let hash = before.next()->Some_0;
    let rest = ancestors(links, after.next(), after.remaining() as nat);
    assert(before.visited().push(hash) + rest =~= before.visited() + (seq![hash] + rest));
}

/// A walk that wants no further block has nothing left to read: what it
/// has visited is all that it comes to. It never visits more blocks than
/// its limit.
pub proof fn lemma_walk_end(walk: DownwardWalk, links: Map<CryptoHash, Option<CryptoHash>>)
    requires
        walk.remaining() == 0 || walk.next() is None,
    ensures
        walk.visited() + ancestors(links, walk.next(), walk.remaining() as nat) == walk.visited(),
{
    assert(walk.visited() + Seq::<CryptoHash>::empty() =~= walk.visited());
}

/// The blocks that a walk reads are at most as many as its limit, begin
/// with the block that it starts from, and each is followed by the block
/// that is named as the one before it.
pub proof fn lemma_ancestors_are_linked(
    links: Map<CryptoHash, Option<CryptoHash>>,
    from: Option<CryptoHash>,
    limit: nat,
    i: int,
)
    requires
        0 <= i < ancestors(links, from, limit).len(),
    ensures
        ancestors(links, from, limit).len() <= limit,
        from is Some && ancestors(links, from, limit)[0] == from->Some_0,
        links.contains_key(ancestors(links, from, limit)[i]),
        i + 1 < ancestors(links, from, limit).len() ==> links[ancestors(links, from, limit)[i]]
            == Some(ancestors(links, from, limit)[i + 1]),
    decreases limit,
{
    let hash = from->Some_0;
    let rest = ancestors(links, links[hash], (limit - 1) as nat);
    assert(ancestors(links, from, limit) =~= seq![hash] + rest);
    lemma_ancestors_len(links, links[hash], (limit - 1) as nat);
    if i > 0 {
        lemma_ancestors_are_linked(links, links[hash], (limit - 1) as nat, i - 1);
        assert(ancestors(links, from, limit)[i] == rest[i - 1]);
        if i + 1 < ancestors(links, from, limit).len() {
            assert(ancestors(links, from, limit)[i + 1] == rest[i]);
        }
    } else if rest.len() > 0 {
        lemma_ancestors_are_linked(links, links[hash], (limit - 1) as nat, 0);
        assert(ancestors(links, from, limit)[1] == rest[0]);
    }
}

/// A walk reads no more blocks than its limit.
proof fn lemma_ancestors_len(
    links: Map<CryptoHash, Option<CryptoHash>>,
    from: Option<CryptoHash>,
    limit: nat,
)
    ensures
        ancestors(links, from, limit).len() <= limit,
    decreases limit,
{
    if from is Some && limit > 0 && links.contains_key(from->Some_0) {
        lemma_ancestors_len(links, links[from->Some_0], (limit - 1) as nat);
    }
}

/// The position at which each wanted validator stands among the known
/// ones, the last position if a key is known more than once.
pub open spec fn position_of(known: Seq<ValidatorPublicKey>, key: ValidatorPublicKey) -> Option<int>
    decreases known.len(),
{
    if known.len() == 0 {
        None
    } else if known.last() == key {
        Some(known.len() - 1)
    } else {
        position_of(known.drop_last(), key)
    }
}

/// Where `key` stands among the `known` validators, if it does.
pub fn find_validator(known: &Vec<ValidatorPublicKey>, key: &ValidatorPublicKey) -> (position:
    Option<usize>)
    ensures
        match position {
            Some(at) => position_of(known@, *key) == Some(at as int),
            None => position_of(known@, *key) is None,
        },
{
    let mut i: usize = known.len();
    assert(known@.take(i as int) =~= known@);
    while i > 0
        invariant
            i <= known@.len(),
            position_of(known@, *key) == position_of(known@.take(i as int), *key),
        decreases i,
    {
        proof {
            assert(known@.take(i as int).drop_last() =~= known@.take(i - 1));
        }
        if known[i - 1].is(key) {
            return Some(i - 1);
        }
        i -= 1;
    }
    None
}

/// A validator that a client wants a connection to: its key and the
/// address that it was announced under.
#[derive(Clone, Debug, PartialEq, Eq)]
pub struct WantedValidator {
    pub public_key: ValidatorPublicKey,
    pub address: String,
}

/// Finds each wanted validator among the known ones.
///
/// Returns the positions of the wanted validators among the known ones,
/// in the order in which they are wanted, or the address of the first
/// wanted validator that is not known.
pub fn make_nodes_from_list(known: &Vec<ValidatorPublicKey>, validators: &Vec<WantedValidator>) -> (result:
    Result<Vec<usize>, NodeError>)
    ensures
        match result {
            Ok(positions) => positions@.len() == validators@.len() && forall|i: int|
                0 <= i < validators@.len() ==> position_of(
                    known@,
                    (#[trigger] validators@[i]).public_key,
                ) == Some(positions@[i] as int),
            Err(error) => exists|i: int|
                {
                    &&& 0 <= i < validators@.len()
                    &&& position_of(known@, (#[trigger] validators@[i]).public_key) is None
                    &&& forall|j: int|
                        0 <= j < i ==> position_of(known@, (#[trigger] validators@[j]).public_key) is Some
                    &&& error matches NodeError::CannotResolveValidatorAddress { address }
                        && address@ == validators@[i].address@
                },
        },
{
    let mut positions: Vec<usize> = Vec::new();
    let mut i: usize = 0;
    while i < validators.len()
        invariant
            i <= validators@.len(),
            positions@.len() == i,
            forall|j: int|
                0 <= j < i ==> position_of(known@, (#[trigger] validators@[j]).public_key) == Some(
                    positions@[j] as int,
                ),
        decreases validators@.len() - i,
    {
        match find_validator(known, &validators[i].public_key) {
            Some(position) => {
                positions.push(position);
            },
            None => {
                return Err(
                    NodeError::CannotResolveValidatorAddress {
                        address: validators[i].address.clone(),
                    },
                );
            },
        }
        i += 1;
    }
    Ok(positions)
}

} // verus!
