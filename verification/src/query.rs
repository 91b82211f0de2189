//! Read-only questions to the worker of a chain: where the chain stands,
//! what its manager holds, which certificates it has confirmed, and which
//! of them used a blob last.

use vstd::prelude::*;

use crate::chain::{Amount, BlobId, BlockHeight, ChainId, CryptoHash, Round};
use crate::manager::{RoundBlock, Timestamp};
use crate::worker::{ConfirmedBlock, WorkerError, WorkerState};

verus! {

/// A range of block heights: from `start` on, `limit` heights at most.
#[derive(Clone, Copy, Debug, PartialEq, Eq)]
pub struct BlockHeightRange {
    pub start: BlockHeight,
    pub limit: Option<u64>,
}

/// A query about a chain.
#[derive(Clone, Copy, Debug, PartialEq, Eq)]
pub struct ChainInfoQuery {
    /// The chain asked about.
    pub chain_id: ChainId,
    /// Whether the answer shall tell what the chain's manager has voted
    /// for and is locked on.
    pub request_manager_values: bool,
    /// The heights whose confirmed certificates the answer shall name.
    pub request_sent_certificate_hashes_in_range: Option<BlockHeightRange>,
}

impl ChainInfoQuery {
    /// The query for where the chain `chain_id` stands, and nothing more.
    pub fn new(chain_id: ChainId) -> (query: ChainInfoQuery)
        ensures
            query == (ChainInfoQuery {
                chain_id,
                request_manager_values: false,
                request_sent_certificate_hashes_in_range: None,
            }),
    {
        ChainInfoQuery {
            chain_id,
            request_manager_values: false,
            request_sent_certificate_hashes_in_range: None,
        }
    }

    /// This query, asking for the manager's values too.
    pub fn with_manager_values(self) -> (query: ChainInfoQuery)
        ensures
            query == (ChainInfoQuery { request_manager_values: true, ..self }),
    {
        ChainInfoQuery { request_manager_values: true, ..self }
    }

    /// This query, asking for the confirmed certificates of the heights in
    /// `range` too.
    pub fn with_sent_certificate_hashes_in_range(self, range: BlockHeightRange) -> (query:
        ChainInfoQuery)
        ensures
            query == (ChainInfoQuery {
                request_sent_certificate_hashes_in_range: Some(range),
                ..self
            }),
    {
        ChainInfoQuery { request_sent_certificate_hashes_in_range: Some(range), ..self }
    }
}

/// What an answer tells of the chain's manager.
#[derive(Clone, Copy, Debug, PartialEq, Eq)]
pub struct ChainManagerInfo {
    /// The round that the voting is in.
    pub current_round: Round,
    /// When the round may be voted to time out.
    pub leader_timeout: Option<Timestamp>,
    /// The proposal that the validator voted to validate, if asked for.
    pub requested_locked_proposal: Option<RoundBlock>,
    /// The block that the validator is locked on, if asked for.
    pub requested_locked_validated_certificate: Option<RoundBlock>,
    /// The block that the validator voted to confirm, if asked for.
    pub requested_confirmed_vote: Option<RoundBlock>,
}

/// Where a chain stands.
#[derive(Clone, Debug, PartialEq, Eq)]
pub struct ChainInfo {
    pub chain_id: ChainId,
    pub epoch: u32,
    /// The height of the chain's next block.
    pub next_block_height: BlockHeight,
    /// The hash of the chain's last block.
    pub block_hash: Option<CryptoHash>,
    /// The balance of the chain.
    pub chain_balance: Amount,
    /// The state of the voting on the next block.
    pub manager: ChainManagerInfo,
    /// The hashes of the confirmed certificates that were asked for, by
    /// height.
    pub requested_sent_certificate_hashes: Vec<CryptoHash>,
}

/// The hashes of the confirmed blocks at the heights of `range`, as far as
/// they are confirmed, in the order of their heights.
pub open spec fn hashes_in_range(confirmed: Seq<ConfirmedBlock>, range: BlockHeightRange) -> Seq<
    CryptoHash,
> {
    let from = if range.start.0 < confirmed.len() {
        range.start.0 as int
    } else {
        confirmed.len() as int
    };
    let to = match range.limit {
        Some(limit) => if from + limit < confirmed.len() {
            from + limit
        } else {
            confirmed.len() as int
        },
        None => confirmed.len() as int,
    };
    Seq::new((to - from) as nat, |i: int| confirmed[from + i].hash)
}

/// The hash of the last of the confirmed blocks `confirmed` that refers to
/// the blob `blob_id`, if any does.
pub open spec fn last_user(confirmed: Seq<ConfirmedBlock>, blob_id: BlobId) -> Option<CryptoHash>
    decreases confirmed.len(),
{
    if confirmed.len() == 0 {
        None
    } else if confirmed.last().blobs@.contains(blob_id) {
        Some(confirmed.last().hash)
    } else {
        last_user(confirmed.drop_last(), blob_id)
    }
}

impl WorkerState {
    /// What the answer to `query` tells of the manager: the round and its
    /// deadline always, votes and lock only if asked for.
    pub open spec fn manager_info(&self, query: ChainInfoQuery) -> ChainManagerInfo {
        ChainManagerInfo {
            current_round: self.manager.current_round,
            leader_timeout: self.manager.leader_timeout,
            requested_locked_proposal: if query.request_manager_values {
                self.manager.locked_proposal
            } else {
                None
            },
            requested_locked_validated_certificate: if query.request_manager_values {
                self.manager.locked_validated_certificate
            } else {
                None
            },
            requested_confirmed_vote: if query.request_manager_values {
                self.manager.confirmed_vote
            } else {
                None
            },
        }
    }

    /// Answers a query about the chain, without changing anything.
    pub fn handle_chain_info_query(&self, query: ChainInfoQuery) -> (result: Result<
        ChainInfo,
        WorkerError,
    >)
        requires
            self.well_formed(),
        ensures
            if query.chain_id != self.chain_id {
                result matches Err(WorkerError::WrongChain)
            } else {
                &&& result matches Ok(info)
                &&& info.chain_id == self.chain_id
                &&& info.epoch == self.epoch
                &&& info.next_block_height == self.next_block_height
                &&& info.block_hash == self.block_hash
                &&& info.chain_balance == self.balance
                &&& info.manager == self.manager_info(query)
                &&& info.requested_sent_certificate_hashes@
                    == match query.request_sent_certificate_hashes_in_range {
                    Some(range) => hashes_in_range(self.confirmed@, range),
                    None => Seq::empty(),
                }
            },
    {
        if !query.chain_id.is(&self.chain_id) {
            return Err(WorkerError::WrongChain);
        }
        let mut hashes: Vec<CryptoHash> = Vec::new();
        match query.request_sent_certificate_hashes_in_range {
            Some(range) => {
                let len: usize = self.confirmed.len();
                let from: usize = if range.start.0 < len as u64 {
                    range.start.0 as usize
                } else {
                    len
                };
                let to: usize = match range.limit {
                    Some(limit) => if limit < (len - from) as u64 {
                        from + limit as usize
                    } else {
                        len
                    },
                    None => len,
                };
                let mut i: usize = from;
                while i < to
                    invariant
                        from <= i <= to <= self.confirmed@.len(),
                        hashes@ == Seq::new(
                            (i - from) as nat,
                            |k: int| self.confirmed@[from + k].hash,
                        ),
                    decreases to - i,
                {
                    hashes.push(self.confirmed[i].hash);
                    assert(hashes@ =~= Seq::new(
                        (i + 1 - from) as nat,
                        |k: int| self.confirmed@[from + k].hash,
                    ));
                    i += 1;
                }
                assert(hashes@ =~= hashes_in_range(self.confirmed@, range));
            },
            None => {},
        }
        let manager = ChainManagerInfo {
            current_round: self.manager.current_round,
            leader_timeout: self.manager.leader_timeout,
            requested_locked_proposal: if query.request_manager_values {
                self.manager.locked_proposal
            } else {
                None
            },
            requested_locked_validated_certificate: if query.request_manager_values {
                self.manager.locked_validated_certificate
            } else {
                None
            },
            requested_confirmed_vote: if query.request_manager_values {
                self.manager.confirmed_vote
            } else {
                None
            },
        };
        Ok(
            ChainInfo {
                chain_id: self.chain_id,
                epoch: self.epoch,
                next_block_height: self.next_block_height,
                block_hash: self.block_hash,
                chain_balance: self.balance,
                manager,
                requested_sent_certificate_hashes: hashes,
            },
        )
    }

    /// The hash of the last confirmed block that refers to the blob
    /// `blob_id`, if any does.
    pub fn blob_last_used_by(&self, blob_id: &BlobId) -> (hash: Option<CryptoHash>)
        ensures
            hash == last_user(self.confirmed@, *blob_id),
    {
        let mut i: usize = self.confirmed.len();
        assert(self.confirmed@.take(i as int) =~= self.confirmed@);
        while i > 0
            invariant
                i <= self.confirmed@.len(),
                last_user(self.confirmed@, *blob_id) == last_user(
                    self.confirmed@.take(i as int),
                    *blob_id,
                ),
            decreases i,
        {
            proof {
                assert(self.confirmed@.take(i as int).drop_last() =~= self.confirmed@.take(i - 1));
                assert(self.confirmed@.take(i as int).last() == self.confirmed@[i - 1]);
            }
            if crate::blobs::holds(&self.confirmed[i - 1].blobs, blob_id) {
                return Some(self.confirmed[i - 1].hash);
            }
            i -= 1;
        }
        None
    }
}

} // verus!
