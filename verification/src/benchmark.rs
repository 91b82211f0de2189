//! The benchmark driver's rules: which blocks the chains of a benchmark
//! submit, which chain a producer turns to next, and when the run ends.

use vstd::prelude::*;

use crate::chain::{
    Account, AccountOwner, Amount, ApplicationId, ChainId, Operation, Recipient,
};

verus! {

/// The benchmark: its functions are the rules by which blocks are paced,
/// latencies measured and validators judged.
pub struct Benchmark;

/// The chain before position `index` in a ring of `len` chains: the last
/// one for the first.
pub open spec fn ring_predecessor(index: int, len: int) -> int {
    (index + len - 1) % len
}

/// The transfer of one unit of the fungible application `application_id`
/// from `sender` to the account of `receiver` on chain `chain_id`.
pub open spec fn fungible_transfer_spec(
    application_id: ApplicationId,
    chain_id: ChainId,
    sender: AccountOwner,
    receiver: AccountOwner,
    amount: Amount,
) -> Operation {
    Operation::FungibleTransfer {
        application_id,
        owner: sender,
        amount,
        target_account: Account { chain_id, owner: receiver },
    }
}

/// The operation with which the chain at position `index` of `chains`
/// pays the chain before it in the ring: a transfer of one unit, through
/// the fungible application if there is one, else of the chain's own
/// balance.
pub open spec fn ring_operation(
    chains: Seq<(ChainId, AccountOwner)>,
    index: int,
    fungible_application_id: Option<ApplicationId>,
) -> Operation {
    let owner = chains[index].1;
    let recipient_chain_id = chains[ring_predecessor(index, chains.len() as int)].0;
    match fungible_application_id {
        Some(application_id) => fungible_transfer_spec(
            application_id,
            recipient_chain_id,
            owner,
            owner,
            Amount(1),
        ),
        None => Operation::Transfer {
            owner: AccountOwner::Reserved(0),
            recipient: Recipient::Account {
                chain_id: recipient_chain_id,
                owner: AccountOwner::Reserved(0),
            },
            amount: Amount(1),
        },
    }
}

/// `info` is what the chain at position `index` of `chains` submits:
/// `transactions_per_block` times its ring operation, signed by its
/// owner.
pub open spec fn is_block_info_of(
    info: (Vec<Operation>, AccountOwner),
    chains: Seq<(ChainId, AccountOwner)>,
    index: int,
    transactions_per_block: usize,
    fungible_application_id: Option<ApplicationId>,
) -> bool {
    &&& info.1 == chains[index].1
    &&& info.0@ == Seq::new(
        transactions_per_block as nat,
        |k: int| ring_operation(chains, index, fungible_application_id),
    )
}

/// `infos` holds, chain by chain, what the chains of one group submit.
pub open spec fn is_group_info_of(
    infos: Seq<(Vec<Operation>, AccountOwner)>,
    chains: Seq<(ChainId, AccountOwner)>,
    transactions_per_block: usize,
    fungible_application_id: Option<ApplicationId>,
) -> bool {
    &&& infos.len() == chains.len()
    &&& forall|i: int|
        0 <= i < chains.len() ==> is_block_info_of(
            #[trigger] infos[i],
            chains,
            i,
            transactions_per_block,
            fungible_application_id,
        )
}

/// What a block producer does next.
#[derive(Clone, Copy, Debug, PartialEq, Eq, Structural)]
pub enum ProducerStep {
    /// The producer ends: the benchmark was cancelled, or the group has no
    /// chain.
    Stop,
    /// The producer submits the next block of the chain at this position
    /// of its group.
    Submit { chain: usize },
}

impl Benchmark {
    /// Creates a fungible token transfer operation.
    pub fn fungible_transfer(
        application_id: ApplicationId,
        chain_id: ChainId,
        sender: AccountOwner,
        receiver: AccountOwner,
        amount: Amount,
    ) -> (operation: Operation)
        ensures
            operation == fungible_transfer_spec(application_id, chain_id, sender, receiver, amount),
    {
        let target_account = Account { chain_id, owner: receiver };
        Operation::FungibleTransfer { application_id, owner: sender, amount, target_account }
    }

    /// Generates information related to one block per chain.
    ///
    /// The chains of each group form a ring: every chain pays one unit to
    /// the chain before it, `transactions_per_block` times per block.
    pub fn make_benchmark_block_info(
        benchmark_chains: Vec<Vec<(ChainId, AccountOwner)>>,
        transactions_per_block: usize,
        fungible_application_id: Option<ApplicationId>,
    ) -> (blocks_infos: Vec<Vec<(Vec<Operation>, AccountOwner)>>)
        ensures
            blocks_infos@.len() == benchmark_chains@.len(),
            forall|g: int|
                0 <= g < benchmark_chains@.len() ==> is_group_info_of(
                    (#[trigger] blocks_infos@[g])@,
                    benchmark_chains@[g]@,
                    transactions_per_block,
                    fungible_application_id,
                ),
    {
        let mut blocks_infos: Vec<Vec<(Vec<Operation>, AccountOwner)>> = Vec::new();
        let mut g: usize = 0;
        while g < benchmark_chains.len()
            invariant
                g <= benchmark_chains@.len(),
                blocks_infos@.len() == g,
                forall|h: int|
                    0 <= h < g ==> is_group_info_of(
                        (#[trigger] blocks_infos@[h])@,
                        benchmark_chains@[h]@,
                        transactions_per_block,
                        fungible_application_id,
                    ),
            decreases benchmark_chains@.len() - g,
        {
            let chains = &benchmark_chains[g];
            let mut infos: Vec<(Vec<Operation>, AccountOwner)> = Vec::new();
            let chains_len: usize = chains.len();
            let amount = Amount(1);
            let mut i: usize = 0;
            while i < chains_len
                invariant
                    chains_len == chains@.len(),
                    i <= chains_len,
                    amount == Amount(1),
                    infos@.len() == i,
                    forall|j: int|
                        0 <= j < i ==> is_block_info_of(
                            #[trigger] infos@[j],
                            chains@,
                            j,
                            transactions_per_block,
                            fungible_application_id,
                        ),
                decreases chains_len - i,
            {
                let owner = chains[i].1;
                let before: usize = if i == 0 {
                    chains_len - 1
                } else {
                    i - 1
                };
                assert(before == ring_predecessor(i as int, chains_len as int)) by {
                    if i == 0 {
                        vstd::arithmetic::div_mod::lemma_small_mod(
                            (chains_len - 1) as nat,
                            chains_len as nat,
                        );
                    } else {
                        vstd::arithmetic::div_mod::lemma_mod_add_multiples_vanish(
                            i - 1,
                            chains_len as int,
                        );
                        vstd::arithmetic::div_mod::lemma_small_mod(
                            (i - 1) as nat,
                            chains_len as nat,
                        );
                        assert(i + chains_len - 1 == chains_len + (i - 1));
                    }
                }
                let recipient_chain_id = chains[before].0;
                let operation = match fungible_application_id {
                    Some(application_id) => Benchmark::fungible_transfer(
                        application_id,
                        recipient_chain_id,
                        owner,
                        owner,
                        amount,
                    ),
                    None => Operation::Transfer {
                        owner: AccountOwner::Reserved(0),
                        recipient: Recipient::Account {
                            chain_id: recipient_chain_id,
                            owner: AccountOwner::Reserved(0),
                        },
                        amount,
                    },
                };
                let mut operations: Vec<Operation> = Vec::new();
                let mut k: usize = 0;
                while k < transactions_per_block
                    invariant
                        k <= transactions_per_block,
                        operations@ == Seq::new(k as nat, |n: int| operation),
                    decreases transactions_per_block - k,
                {
                    operations.push(operation);
                    assert(operations@ =~= Seq::new((k + 1) as nat, |n: int| operation));
                    k += 1;
                }
                assert(operations@ =~= Seq::new(
                    transactions_per_block as nat,
                    |n: int| ring_operation(chains@, i as int, fungible_application_id),
                ));
                infos.push((operations, owner));
                i += 1;
            }
            blocks_infos.push(infos);
            g += 1;
        }
        blocks_infos
    }

    /// What the producer of a group of `chains` chains does after it has
    /// submitted `blocks_submitted` blocks: it stops when the benchmark is
    /// cancelled or the group is empty, and else turns to the next chain,
    /// round robin.
    pub fn producer_step(cancelled: bool, chains: usize, blocks_submitted: u64) -> (step:
        ProducerStep)
        ensures
            step == if cancelled || chains == 0 {
                ProducerStep::Stop
            } else {
                ProducerStep::Submit { chain: (blocks_submitted as int % chains as int) as usize }
            },
    {
        if cancelled || chains == 0 {
            ProducerStep::Stop
        } else {
            ProducerStep::Submit { chain: (blocks_submitted % (chains as u64)) as usize }
        }
    }

    /// How many milliseconds chain group `chain_group_index` waits after
    /// the start before it submits its first block: its position times
    /// the delay between groups, if a delay is set.
    pub fn stagger_delay_ms(chain_group_index: usize, delay_between_chain_groups_ms: Option<u64>) -> (delay:
        Option<u64>)
        requires
            delay_between_chain_groups_ms matches Some(step) ==> chain_group_index * step
                <= u64::MAX,
        ensures
            delay == match delay_between_chain_groups_ms {
                Some(step) => Some((chain_group_index * step) as u64),
                None => None,
            },
    {
        match delay_between_chain_groups_ms {
            Some(step) => Some((chain_group_index as u64) * step),
            None => None,
        }
    }

    /// Counts one more chain group that has started, and says whether all
    /// `num_chain_groups` have: from then on the configured run time is
    /// measured.
    pub fn chain_group_started(chains_started: usize, num_chain_groups: usize) -> (counted: (
        usize,
        bool,
    ))
        requires
            chains_started < usize::MAX,
        ensures
            counted.0 == chains_started + 1,
            counted.1 == (chains_started + 1 == num_chain_groups),
    {
        let started: usize = chains_started + 1;
        (started, started == num_chain_groups)
    }
}

} // verus!
