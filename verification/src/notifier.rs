//! Notifications of a chain's progress to one subscriber. A subscriber
//! that is slow misses what lies between two notifications, but what it
//! gets, it gets in order.

use vstd::prelude::*;

use crate::chain::{BlockHeight, ChainId, CryptoHash};
use crate::worker::WorkerState;

verus! {

/// The news that a chain has a new tip.
#[derive(Clone, Copy, Debug, PartialEq, Eq)]
pub struct Notification {
    pub chain_id: ChainId,
    /// The height of the new tip.
    pub height: BlockHeight,
    /// The hash of the new tip.
    pub hash: CryptoHash,
}

/// What waits for one subscriber of one chain: the latest news that it
/// has not fetched, and the height of the last that it has.
pub struct Subscription {
    chain_id: ChainId,
    waiting: Option<Notification>,
    delivered: Option<BlockHeight>,
}

impl Subscription {
    /// The chain subscribed to.
    pub closed spec fn chain_id(&self) -> ChainId {
        self.chain_id
    }

    /// The notification that waits to be fetched.
    pub closed spec fn waiting(&self) -> Option<Notification> {
        self.waiting
    }

    /// The height of the last notification that was fetched.
    pub closed spec fn delivered(&self) -> Option<BlockHeight> {
        self.delivered
    }

    /// What waits is of the chain subscribed to and newer than what was
    /// fetched.
    pub closed spec fn well_formed(&self) -> bool {
        self.waiting matches Some(notification) ==> notification.chain_id == self.chain_id && (
        self.delivered matches Some(height) ==> height.0 < notification.height.0)
    }

    /// A subscription to the chain `chain_id` with nothing waiting.
    pub fn new(chain_id: ChainId) -> (subscription: Subscription)
        ensures
            subscription.well_formed(),
            subscription.chain_id() == chain_id,
            subscription.waiting() is None,
            subscription.delivered() is None,
    {
        Subscription { chain_id, waiting: None, delivered: None }
    }

    /// Whether `notification` is news to a subscription in this state: it
    /// is of the chain subscribed to and of a greater height than what
    /// waits and what was fetched.
    pub open spec fn is_news(&self, notification: Notification) -> bool {
        &&& notification.chain_id == self.chain_id()
        &&& self.waiting() matches Some(waiting) ==> waiting.height.0 < notification.height.0
        &&& self.delivered() matches Some(height) ==> height.0 < notification.height.0
    }

    /// Takes note of `notification`. News takes the place of what waits;
    /// anything else is dropped.
    pub fn notify(&mut self, notification: Notification)
        requires
            old(self).well_formed(),
        ensures
            final(self).well_formed(),
            final(self).chain_id() == old(self).chain_id(),
            final(self).delivered() == old(self).delivered(),
            final(self).waiting() == if old(self).is_news(notification) {
                Some(notification)
            } else {
                old(self).waiting()
            },
    {
        if !notification.chain_id.is(&self.chain_id) {
            return ;
        }
        let newer_than_waiting = match self.waiting {
            Some(waiting) => waiting.height.0 < notification.height.0,
            None => true,
        };
        let newer_than_delivered = match self.delivered {
            Some(height) => height.0 < notification.height.0,
            None => true,
        };
        if newer_than_waiting && newer_than_delivered {
            self.waiting = Some(notification);
        }
    }

    /// Fetches what waits, if anything does. What is fetched is of a
    /// greater height than everything fetched before.
    pub fn next(&mut self) -> (notification: Option<Notification>)
        requires
            old(self).well_formed(),
        ensures
            final(self).well_formed(),
            final(self).chain_id() == old(self).chain_id(),
            final(self).waiting() is None,
            notification == old(self).waiting(),
            match notification {
                Some(fetched) => final(self).delivered() == Some(fetched.height) && (old(
                    self,
                ).delivered() matches Some(height) ==> height.0 < fetched.height.0),
                None => final(self).delivered() == old(self).delivered(),
            },
    {
        match self.waiting {
            Some(notification) => {
                self.delivered = Some(notification.height);
                self.waiting = None;
                Some(notification)
            },
            None => None,
        }
    }
}

impl WorkerState {
    /// The news of the chain's tip, as it is sent to subscribers after a
    /// block was committed: none before the first block.
    pub fn tip_notification(&self) -> (notification: Option<Notification>)
        requires
            self.well_formed(),
        ensures
            notification == match self.block_hash {
                Some(hash) => Some(
                    Notification {
                        chain_id: self.chain_id,
                        height: BlockHeight((self.next_block_height.0 - 1) as u64),
                        hash,
                    },
                ),
                None => None,
            },
            notification is Some ==> self.next_block_height.0 > 0,
    {
        match self.block_hash {
            Some(hash) => Some(
                Notification {
                    chain_id: self.chain_id,
                    height: BlockHeight(self.next_block_height.0 - 1),
                    hash,
                },
            ),
            None => None,
        }
    }
}

} // verus!
