//! The identifiers and operations of chains, as far as the benchmark and
//! the test validators speak of them.

use vstd::prelude::*;

verus! {

/// The identifier of a chain: 32 opaque bytes.
#[derive(Clone, Copy, Debug, PartialEq, Eq, Hash, PartialOrd, Ord)]
pub struct ChainId(pub [u8; 32]);

/// The hash of a block or certificate: 32 opaque bytes.
#[derive(Clone, Copy, Debug, PartialEq, Eq, Hash, PartialOrd, Ord)]
pub struct CryptoHash(pub [u8; 32]);

/// The identifier of a blob: the hash of its content.
#[derive(Clone, Copy, Debug, PartialEq, Eq, Hash, PartialOrd, Ord)]
pub struct BlobId(pub [u8; 32]);

/// The height of a block on its chain, counted from zero.
#[derive(Clone, Copy, Debug, PartialEq, Eq, Hash, PartialOrd, Ord, Structural)]
pub struct BlockHeight(pub u64);

/// The identifier of a user application: 32 opaque bytes.
#[derive(Clone, Copy, Debug, PartialEq, Eq, Hash, PartialOrd, Ord)]
pub struct ApplicationId(pub [u8; 32]);

/// Who owns an account.
#[derive(Clone, Copy, Debug, PartialEq, Eq, Hash, PartialOrd, Ord)]
pub enum AccountOwner {
    /// A reserved owner; number 0 is the chain itself.
    Reserved(u8),
    /// An owner with a 32-byte address.
    Address32([u8; 32]),
    /// An owner with a 20-byte address.
    Address20([u8; 20]),
}

/// An amount of tokens, in the smallest unit.
#[derive(Clone, Copy, Debug, PartialEq, Eq, Hash, PartialOrd, Ord)]
pub struct Amount(pub u128);

/// An account: an owner on a chain.
#[derive(Clone, Copy, Debug, PartialEq, Eq, Hash, PartialOrd, Ord)]
pub struct Account {
    pub chain_id: ChainId,
    pub owner: AccountOwner,
}

/// Where a transfer goes.
#[derive(Clone, Copy, Debug, PartialEq, Eq, Hash, PartialOrd, Ord)]
pub enum Recipient {
    /// Nowhere: the tokens are destroyed.
    Burn,
    /// To an account.
    Account { chain_id: ChainId, owner: AccountOwner },
}

/// An operation of a block, as far as the benchmark makes any.
#[derive(Clone, Copy, Debug, PartialEq, Eq, Hash, PartialOrd, Ord)]
pub enum Operation {
    /// A transfer of native tokens.
    Transfer { owner: AccountOwner, recipient: Recipient, amount: Amount },
    /// A transfer of tokens of a fungible application.
    FungibleTransfer {
        application_id: ApplicationId,
        owner: AccountOwner,
        amount: Amount,
        target_account: Account,
    },
    /// The closing of the chain.
    CloseChain,
}

impl AccountOwner {
    /// The chain itself as the owner of its balance.
    pub fn chain() -> (owner: AccountOwner)
        ensures
            owner == AccountOwner::Reserved(0),
    {
        AccountOwner::Reserved(0)
    }
}

impl Recipient {
    /// The balance of the chain `chain_id` itself.
    pub fn chain(chain_id: ChainId) -> (recipient: Recipient)
        ensures
            recipient == (Recipient::Account { chain_id, owner: AccountOwner::Reserved(0) }),
    {
        Recipient::Account { chain_id, owner: AccountOwner::Reserved(0) }
    }
}

/// Whether two 32-byte values are the same.
pub fn same_bytes(a: &[u8; 32], b: &[u8; 32]) -> (same: bool)
    ensures
        same == (*a == *b),
{
    let mut i: usize = 0;
    while i < 32
        invariant
            i <= 32,
            forall|j: int| 0 <= j < i ==> a[j] == b[j],
        decreases 32 - i,
    {
        if a[i] != b[i] {
            return false;
        }
        i += 1;
    }
    assert(*a =~= *b);
    true
}

impl ChainId {
    /// Whether this is the chain `other`.
    pub fn is(&self, other: &ChainId) -> (same: bool)
        ensures
            same == (*self == *other),
    {
        same_bytes(&self.0, &other.0)
    }
}

impl BlobId {
    /// Whether this is the blob `other`.
    pub fn is(&self, other: &BlobId) -> (same: bool)
        ensures
            same == (*self == *other),
    {
        same_bytes(&self.0, &other.0)
    }
}

impl CryptoHash {
    /// Whether this is the hash `other`.
    pub fn is(&self, other: &CryptoHash) -> (same: bool)
        ensures
            same == (*self == *other),
    {
        same_bytes(&self.0, &other.0)
    }
}

/// The public key of a validator: 33 opaque bytes.
#[derive(Clone, Copy, Debug, PartialEq, Eq, Hash, PartialOrd, Ord)]
pub struct ValidatorPublicKey(pub [u8; 33]);

impl ValidatorPublicKey {
    /// Whether this is the key `other`.
    pub fn is(&self, other: &ValidatorPublicKey) -> (same: bool)
        ensures
            same == (*self == *other),
    {
        let mut i: usize = 0;
        while i < 33
            invariant
                i <= 33,
                forall|j: int| 0 <= j < i ==> self.0[j] == other.0[j],
            decreases 33 - i,
        {
            if self.0[i] != other.0[i] {
                return false;
            }
            i += 1;
        }
        assert(self.0 =~= other.0);
        true
    }
}

/// The public key of an account: 32 opaque bytes.
#[derive(Clone, Copy, Debug, PartialEq, Eq, Hash, PartialOrd, Ord)]
pub struct AccountPublicKey(pub [u8; 32]);

/// A round of the voting on one block.
#[derive(Clone, Copy, Debug, PartialEq, Eq, Hash, PartialOrd, Ord, Structural)]
pub enum Round {
    /// The fast round of a chain's super owners.
    Fast,
    /// A round in which every owner may propose.
    MultiLeader(u32),
    /// A round with one leader among the owners.
    SingleLeader(u32),
    /// A round with one leader among the validators.
    Validator(u32),
}

} // verus!
