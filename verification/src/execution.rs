//! The execution of a block, as far as it touches the chain's own
//! balance and its messages to other chains: incoming credits are added,
//! transfers are taken off and sent on their way, and a closing
//! operation closes the chain.

use vstd::prelude::*;

use crate::chain::{
    AccountOwner, Amount, BlobId, BlockHeight, ChainId, CryptoHash, Operation, Recipient,
};
use crate::crosschain::MessageBundle;
use crate::faults::ArithmeticError;
use crate::manager::Timestamp;

verus! {

/// A block of a chain.
#[derive(Clone, Debug, PartialEq, Eq)]
pub struct Block {
    /// The chain that the block extends.
    pub chain_id: ChainId,
    /// The height of the block on its chain.
    pub height: BlockHeight,
    /// The hash of the block before it; none for the first block.
    pub previous_block_hash: Option<CryptoHash>,
    /// The epoch whose committee certifies the block.
    pub epoch: u32,
    /// The time stamp of the block.
    pub timestamp: Timestamp,
    /// The operations of the block, in order.
    pub operations: Vec<Operation>,
    /// The message bundles that the block takes in, in order.
    pub incoming_bundles: Vec<MessageBundle>,
    /// The blobs that the block refers to.
    pub blobs: Vec<BlobId>,
    /// The hash of the block.
    pub hash: CryptoHash,
}

/// What a chain's balance and outgoing messages are in the course of an
/// execution.
pub ghost struct Effects {
    pub balance: u128,
    pub sent: Seq<(ChainId, Amount)>,
    pub closed: bool,
}

/// The effects of one operation on top of `before`, or the arithmetic
/// failure that aborts the block: a transfer of more than the balance
/// holds.
pub open spec fn apply_operation(before: Effects, operation: Operation) -> Result<
    Effects,
    ArithmeticError,
> {
    match operation {
        Operation::Transfer { owner, recipient, amount } => if amount.0 > before.balance {
            Err(ArithmeticError::Underflow)
        } else {
            Ok(
                Effects {
                    balance: (before.balance - amount.0) as u128,
                    sent: match recipient {
                        Recipient::Account { chain_id, owner } => before.sent.push(
                            (chain_id, amount),
                        ),
                        Recipient::Burn => before.sent,
                    },
                    closed: before.closed,
                },
            )
        },
        Operation::FungibleTransfer { .. } => Ok(before),
        Operation::CloseChain => Ok(Effects { closed: true, ..before }),
    }
}

/// The effects of `operations`, in order, on top of `start`, or the
/// failure of the first operation that fails.
pub open spec fn apply_operations(start: Effects, operations: Seq<Operation>) -> Result<
    Effects,
    ArithmeticError,
>
    decreases operations.len(),
{
    if operations.len() == 0 {
        Ok(start)
    } else {
        match apply_operations(start, operations.drop_last()) {
            Ok(before) => apply_operation(before, operations.last()),
            Err(error) => Err(error),
        }
    }
}

/// The balance after the credits of `bundles` were added to `balance`, or
/// an overflow if it outgrows 128 bits on the way.
pub open spec fn credit_bundles(balance: u128, bundles: Seq<MessageBundle>) -> Result<
    u128,
    ArithmeticError,
>
    decreases bundles.len(),
{
    if bundles.len() == 0 {
        Ok(balance)
    } else {
        match credit_bundles(balance, bundles.drop_last()) {
            Ok(before) => if before + bundles.last().amount.0 > u128::MAX {
                Err(ArithmeticError::Overflow)
            } else {
                Ok((before + bundles.last().amount.0) as u128)
            },
            Err(error) => Err(error),
        }
    }
}

/// The effects of executing a block with the given incoming bundles and
/// operations on a chain with the balance `balance`: first the credits,
/// then the operations.
pub open spec fn execute_spec(
    balance: Amount,
    incoming_bundles: Seq<MessageBundle>,
    operations: Seq<Operation>,
) -> Result<Effects, ArithmeticError> {
    match credit_bundles(balance.0, incoming_bundles) {
        Ok(credited) => apply_operations(
            Effects { balance: credited, sent: Seq::empty(), closed: false },
            operations,
        ),
        Err(error) => Err(error),
    }
}

/// The outcome of an execution.
#[derive(Clone, Debug, PartialEq, Eq)]
pub struct ExecutionOutcome {
    /// The balance of the chain afterwards.
    pub balance: Amount,
    /// The tokens sent to other chains, in the order of the operations.
    pub sent: Vec<(ChainId, Amount)>,
    /// Whether the block closes the chain.
    pub closed: bool,
}

impl ExecutionOutcome {
    /// The outcome as effects.
    pub open spec fn effects(self) -> Effects {
        Effects { balance: self.balance.0, sent: self.sent@, closed: self.closed }
    }
}

/// Executes the incoming bundles and the operations of a block on a chain
/// with the balance `balance`.
pub fn execute(
    balance: Amount,
    incoming_bundles: &Vec<MessageBundle>,
    operations: &Vec<Operation>,
) -> (result: Result<ExecutionOutcome, ArithmeticError>)
    ensures
        match result {
            Ok(outcome) => execute_spec(balance, incoming_bundles@, operations@) == Ok::<
                Effects,
                ArithmeticError,
            >(outcome.effects()),
            Err(error) => execute_spec(balance, incoming_bundles@, operations@) == Err::<
                Effects,
                ArithmeticError,
            >(error),
        },
{
    let mut current: u128 = balance.0;
    let mut i: usize = 0;
    assert(incoming_bundles@.take(0) =~= Seq::<MessageBundle>::empty());
    while i < incoming_bundles.len()
        invariant
            i <= incoming_bundles@.len(),
            credit_bundles(balance.0, incoming_bundles@.take(i as int)) == Ok::<
                u128,
                ArithmeticError,
            >(current),
        decreases incoming_bundles@.len() - i,
    {
        let amount = incoming_bundles[i].amount.0;
        proof {
            assert(incoming_bundles@.take(i + 1).drop_last() =~= incoming_bundles@.take(i as int));
            assert(incoming_bundles@.take(i + 1).last() == incoming_bundles@[i as int]);
        }
        if amount > u128::MAX - current {
            proof {
                lemma_credit_failure_stays(balance.0, incoming_bundles@, i + 1);
            }
            return Err(ArithmeticError::Overflow);
        }
        current = current + amount;
        i += 1;
    }
    assert(incoming_bundles@.take(i as int) =~= incoming_bundles@);
    let ghost start = Effects { balance: current, sent: Seq::empty(), closed: false };
    let mut sent: Vec<(ChainId, Amount)> = Vec::new();
    let mut closed = false;
    let mut k: usize = 0;
    assert(operations@.take(0) =~= Seq::<Operation>::empty());
    while k < operations.len()
        invariant
            k <= operations@.len(),
            credit_bundles(balance.0, incoming_bundles@) == Ok::<u128, ArithmeticError>(
                start.balance,
            ),
            start.sent == Seq::<(ChainId, Amount)>::empty(),
            !start.closed,
            apply_operations(start, operations@.take(k as int)) == Ok::<Effects, ArithmeticError>(
                Effects { balance: current, sent: sent@, closed },
            ),
        decreases operations@.len() - k,
    {
        proof {
            assert(operations@.take(k + 1).drop_last() =~= operations@.take(k as int));
            assert(operations@.take(k + 1).last() == operations@[k as int]);
        }
        match operations[k] {
            Operation::Transfer { owner, recipient, amount } => {
                if amount.0 > current {
                    proof {
                        lemma_operation_failure_stays(start, operations@, k + 1);
                    }
                    return Err(ArithmeticError::Underflow);
                }
                current = current - amount.0;
                match recipient {
                    Recipient::Account { chain_id, owner } => {
                        sent.push((chain_id, amount));
                    },
                    Recipient::Burn => {},
                }
            },
            Operation::FungibleTransfer { .. } => {},
            Operation::CloseChain => {
                closed = true;
            },
        }
        k += 1;
    }
    assert(operations@.take(k as int) =~= operations@);
    Ok(ExecutionOutcome { balance: Amount(current), sent, closed })
}

/// Once the credits have overflowed, they stay overflowed.
proof fn lemma_credit_failure_stays(balance: u128, bundles: Seq<MessageBundle>, failed: int)
    requires
        0 <= failed <= bundles.len(),
        credit_bundles(balance, bundles.take(failed)) is Err,
    ensures
        credit_bundles(balance, bundles) == credit_bundles(balance, bundles.take(failed)),
    decreases bundles.len() - failed,
{
    if failed < bundles.len() {
        assert(bundles.take(failed + 1).drop_last() =~= bundles.take(failed));
        lemma_credit_failure_stays(balance, bundles, failed + 1);
    } else {
        assert(bundles.take(failed) =~= bundles);
    }
}

/// Once an operation has failed, the block has failed.
proof fn lemma_operation_failure_stays(start: Effects, operations: Seq<Operation>, failed: int)
    requires
        0 <= failed <= operations.len(),
        apply_operations(start, operations.take(failed)) is Err,
    ensures
        apply_operations(start, operations) == apply_operations(start, operations.take(failed)),
    decreases operations.len() - failed,
{
    if failed < operations.len() {
        assert(operations.take(failed + 1).drop_last() =~= operations.take(failed));
        lemma_operation_failure_stays(start, operations, failed + 1);
    } else {
        assert(operations.take(failed) =~= operations);
    }
}

/// A block whose one operation transfers `amount` to another chain, and
/// which takes in nothing, lowers the balance of its chain by exactly
/// `amount` and sends exactly `amount` to that chain; and a block without
/// operations that takes in the bundle with that credit raises the
/// balance of its chain by exactly `amount`.
pub proof fn lemma_transfer_round_trip(
    sender_balance: Amount,
    recipient_balance: Amount,
    recipient: ChainId,
    owner: AccountOwner,
    amount: Amount,
    bundle: MessageBundle,
)
    requires
        amount.0 <= sender_balance.0,
        recipient_balance.0 + amount.0 <= u128::MAX,
        bundle.amount == amount,
    ensures
        execute_spec(
            sender_balance,
            Seq::empty(),
            seq![
                Operation::Transfer {
                    owner,
                    recipient: Recipient::Account { chain_id: recipient, owner },
                    amount,
                },
            ],
        ) == Ok::<Effects, ArithmeticError>(
            Effects {
                balance: (sender_balance.0 - amount.0) as u128,
                sent: seq![(recipient, amount)],
                closed: false,
            },
        ),
        execute_spec(recipient_balance, seq![bundle], Seq::empty()) == Ok::<
            Effects,
            ArithmeticError,
        >(
            Effects {
                balance: (recipient_balance.0 + amount.0) as u128,
                sent: Seq::empty(),
                closed: false,
            },
        ),
{
    let transfer = Operation::Transfer {
        owner,
        recipient: Recipient::Account { chain_id: recipient, owner },
        amount,
    };
    assert(seq![transfer].drop_last() =~= Seq::<Operation>::empty());
    assert(seq![bundle].drop_last() =~= Seq::<MessageBundle>::empty());
    let start = Effects { balance: sender_balance.0, sent: Seq::empty(), closed: false };
    assert(apply_operations(start, seq![transfer].drop_last()) == Ok::<Effects, ArithmeticError>(
        start,
    ));
    assert(Seq::<(ChainId, Amount)>::empty().push((recipient, amount)) =~= seq![
        (recipient, amount),
    ]);
    assert(credit_bundles(recipient_balance.0, seq![bundle].drop_last()) == Ok::<
        u128,
        ArithmeticError,
    >(recipient_balance.0));
}

} // verus!
