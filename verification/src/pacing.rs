//! Block pacing: the share of the target rate that each chain group may
//! submit per one-second window, the counters of the running window, and
//! what the pacing task reports when a window ends.

use num_format::{Locale, ToFormattedString};
use vstd::arithmetic::div_mod::lemma_fundamental_div_mod;
use vstd::prelude::*;
use vstd::string::*;

use crate::benchmark::Benchmark;
use crate::text::grouped;

verus! {

/// The share of `bps` blocks per second that falls to chain group
/// `index` of `groups`: the whole quotient, and one more for each of the
/// first groups until the remainder is used up.
pub open spec fn share_of(bps: nat, groups: nat, index: nat) -> nat {
    bps / groups + if index < bps % groups {
        1nat
    } else {
        0nat
    }
}

/// The shares of all `groups` chain groups, in order.
pub open spec fn fair_shares(bps: nat, groups: nat) -> Seq<usize> {
    Seq::new(groups, |i: int| share_of(bps, groups, i as nat) as usize)
}

/// The sum of `numbers`.
pub open spec fn total(numbers: Seq<usize>) -> nat
    decreases numbers.len(),
{
    if numbers.len() == 0 {
        0
    } else {
        total(numbers.drop_last()) + numbers.last() as nat
    }
}

/// The most blocks that a group with the given share can have counted in
/// one window: its share, but never less than one, since a group learns
/// that it has to wait only when it counts a block.
pub open spec fn window_cap(share: usize) -> nat {
    if share == 0 {
        1
    } else {
        share as nat
    }
}

/// The sum of the window caps of `shares`.
pub open spec fn total_cap(shares: Seq<usize>) -> nat
    decreases shares.len(),
{
    if shares.len() == 0 {
        0
    } else {
        total_cap(shares.drop_last()) + window_cap(shares.last())
    }
}

/// The first `k` fair shares add up to `k` quotients and the part of the
/// remainder that they took.
proof fn lemma_fair_shares_prefix(bps: nat, groups: nat, k: nat)
    requires
        0 < groups,
        k <= groups,
        bps <= usize::MAX,
    ensures
        total(fair_shares(bps, groups).take(k as int)) == k * (bps / groups) + if k < bps
            % groups {
            k
        } else {
            bps % groups
        },
        total_cap(fair_shares(bps, groups).take(k as int)) == if bps / groups == 0 {
            k
        } else {
            total(fair_shares(bps, groups).take(k as int))
        },
    decreases k,
{
    let shares = fair_shares(bps, groups);
    if k == 0 {
        assert(shares.take(0) =~= Seq::<usize>::empty());
        assert(0 * (bps / groups) == 0) by (nonlinear_arith);
    } else {
        lemma_fair_shares_prefix(bps, groups, (k - 1) as nat);
        assert(shares.take(k as int).drop_last() =~= shares.take(k - 1));
        assert(shares.take(k as int).last() == shares[k - 1]);
        let quotient = (bps / groups) as int;
        let remainder = (bps % groups) as int;
        lemma_fundamental_div_mod(bps as int, groups as int);
        assert(quotient <= groups * quotient) by (nonlinear_arith)
            requires
                0 < groups,
                0 <= quotient,
        ;
        assert(share_of(bps, groups, (k - 1) as nat) <= bps);
        assert(k * quotient == (k - 1) * quotient + quotient) by (nonlinear_arith);
        assert(bps % groups < groups);
    }
}

/// The fair shares of a target rate add up to the target rate, and their
/// window caps to the larger of the rate and the number of groups.
pub proof fn lemma_fair_shares_total(bps: nat, groups: nat)
    requires
        0 < groups,
        bps <= usize::MAX,
    ensures
        total(fair_shares(bps, groups)) == bps,
        total_cap(fair_shares(bps, groups)) == if bps >= groups {
            bps
        } else {
            groups
        },
{
    lemma_fair_shares_prefix(bps, groups, groups);
    assert(fair_shares(bps, groups).take(groups as int) =~= fair_shares(bps, groups));
    let quotient = (bps / groups) as int;
    let remainder = (bps % groups) as int;
    lemma_fundamental_div_mod(bps as int, groups as int);
    assert(0 <= remainder < groups);
    if bps >= groups {
        assert(quotient >= 1) by (nonlinear_arith)
            requires
                bps >= groups,
                0 < groups,
                bps == groups * quotient + remainder,
                0 <= remainder < groups,
        ;
    } else {
        assert(quotient == 0) by (nonlinear_arith)
            requires
                bps < groups,
                0 < groups,
                0 <= quotient,
                bps == groups * quotient + remainder,
                0 <= remainder < groups,
        ;
    }
}

/// Counts that stay within the window caps of their shares add up to at
/// most the sum of the caps.
proof fn lemma_total_within_cap(counts: Seq<usize>, shares: Seq<usize>)
    requires
        counts.len() == shares.len(),
        forall|i: int| 0 <= i < counts.len() ==> #[trigger] counts[i] <= window_cap(shares[i]),
    ensures
        total(counts) <= total_cap(shares),
    decreases counts.len(),
{
    if counts.len() > 0 {
        assert(counts.last() <= window_cap(shares[shares.len() - 1]));
        assert forall|i: int| 0 <= i < counts.drop_last().len() implies #[trigger] counts.drop_last()[i]
            <= window_cap(shares.drop_last()[i]) by {
            assert(counts[i] <= window_cap(shares[i]));
        }
        lemma_total_within_cap(counts.drop_last(), shares.drop_last());
    }
}

/// The sum of a part of a list is at most the sum of the list.
proof fn lemma_total_prefix(numbers: Seq<usize>, k: int)
    requires
        0 <= k <= numbers.len(),
    ensures
        total(numbers.take(k)) <= total(numbers),
    decreases numbers.len() - k,
{
    if k < numbers.len() {
        assert(numbers.take(k + 1).drop_last() =~= numbers.take(k));
        lemma_total_prefix(numbers, k + 1);
    } else {
        assert(numbers.take(k) =~= numbers);
    }
}

impl Benchmark {
    /// Splits the target rate `bps` among `num_chain_groups` chain groups:
    /// each gets the whole quotient, and the first groups one block more
    /// until the remainder is used up.
    pub fn bps_shares(bps: usize, num_chain_groups: usize) -> (shares: Vec<usize>)
        requires
            num_chain_groups > 0,
        ensures
            shares@ == fair_shares(bps as nat, num_chain_groups as nat),
            total(shares@) == bps,
    {
        let bps_initial_share: usize = bps / num_chain_groups;
        let mut bps_remainder: usize = bps % num_chain_groups;
        let mut shares: Vec<usize> = Vec::new();
        let mut i: usize = 0;
        while i < num_chain_groups
            invariant
                num_chain_groups > 0,
                i <= num_chain_groups,
                bps_initial_share == bps / num_chain_groups,
                bps_remainder == if i < bps % num_chain_groups {
                    bps % num_chain_groups - i
                } else {
                    0
                },
                shares@ == fair_shares(bps as nat, num_chain_groups as nat).take(i as int),
            decreases num_chain_groups - i,
        {
            proof {
                lemma_fair_shares_prefix(bps as nat, num_chain_groups as nat, (i + 1) as nat);
                lemma_fair_shares_prefix(bps as nat, num_chain_groups as nat, i as nat);
            }
            let bps_share: usize = if bps_remainder > 0 {
                bps_remainder -= 1;
                assert(bps_initial_share < usize::MAX) by {
                    let quotient = (bps / num_chain_groups) as int;
                    lemma_fundamental_div_mod(bps as int, num_chain_groups as int);
                    assert(quotient <= num_chain_groups * quotient) by (nonlinear_arith)
                        requires
                            num_chain_groups > 0,
                            quotient >= 0,
                    ;
                }
                bps_initial_share + 1
            } else {
                bps_initial_share
            };
            shares.push(bps_share);
            assert(shares@ =~= fair_shares(bps as nat, num_chain_groups as nat).take(i + 1));
            i += 1;
        }
        proof {
            assert(fair_shares(bps as nat, num_chain_groups as nat).take(i as int) =~= fair_shares(
                bps as nat,
                num_chain_groups as nat,
            ));
            lemma_fair_shares_total(bps as nat, num_chain_groups as nat);
        }
        shares
    }
}

/// The block counters of the running one-second window, one per chain
/// group, with each group's share of the target rate.
///
/// A group counts each block that it has submitted. When its count
/// reaches its share it waits for the window to end. The pacing task ends
/// the window once a second: it takes the counts, resets them and lets
/// every group go on.
pub struct BlockCounters {
    bps: usize,
    shares: Vec<usize>,
    counts: Vec<usize>,
    waiting: Vec<bool>,
}

impl BlockCounters {
    /// The target rate in blocks per second.
    pub closed spec fn bps(&self) -> usize {
        self.bps
    }

    /// Each group's share of the target rate.
    pub closed spec fn shares(&self) -> Seq<usize> {
        self.shares@
    }

    /// The blocks that each group has counted in the running window.
    pub closed spec fn counts(&self) -> Seq<usize> {
        self.counts@
    }

    /// Whether each group is waiting for the window to end.
    pub closed spec fn waiting(&self) -> Seq<bool> {
        self.waiting@
    }

    /// The shares are the fair shares of the rate, and no group has
    /// counted a block beyond the one with which it reached its share.
    pub closed spec fn well_formed(&self) -> bool {
        &&& self.shares@.len() > 0
        &&& self.shares@ == fair_shares(self.bps as nat, self.shares@.len())
        &&& self.counts@.len() == self.shares@.len()
        &&& self.waiting@.len() == self.shares@.len()
        &&& forall|i: int|
            0 <= i < self.shares@.len() ==> if #[trigger] self.waiting@[i] {
                self.counts@[i] <= window_cap(self.shares@[i])
            } else {
                self.counts@[i] < self.shares@[i] || self.counts@[i] == 0
            }
    }

    /// Counters for `num_chain_groups` groups that share `bps` blocks per
    /// second, before any block.
    pub fn new(bps: usize, num_chain_groups: usize) -> (counters: BlockCounters)
        requires
            num_chain_groups > 0,
        ensures
            counters.well_formed(),
            counters.bps() == bps,
            counters.shares() == fair_shares(bps as nat, num_chain_groups as nat),
            counters.counts() == Seq::new(num_chain_groups as nat, |i: int| 0usize),
            counters.waiting() == Seq::new(num_chain_groups as nat, |i: int| false),
    {
        let shares = Benchmark::bps_shares(bps, num_chain_groups);
        let mut counts: Vec<usize> = Vec::new();
        let mut waiting: Vec<bool> = Vec::new();
        let mut i: usize = 0;
        while i < num_chain_groups
            invariant
                i <= num_chain_groups,
                counts@ == Seq::new(i as nat, |k: int| 0usize),
                waiting@ == Seq::new(i as nat, |k: int| false),
            decreases num_chain_groups - i,
        {
            counts.push(0);
            waiting.push(false);
            assert(counts@ =~= Seq::new((i + 1) as nat, |k: int| 0usize));
            assert(waiting@ =~= Seq::new((i + 1) as nat, |k: int| false));
            i += 1;
        }
        BlockCounters { bps, shares, counts, waiting }
    }

    /// The number of chain groups.
    pub fn num_chain_groups(&self) -> (groups: usize)
        requires
            self.well_formed(),
        ensures
            groups == self.shares().len(),
            groups > 0,
    {
        self.shares.len()
    }

    /// The share of chain group `group`.
    pub fn bps_share(&self, group: usize) -> (share: usize)
        requires
            self.well_formed(),
            group < self.shares().len(),
        ensures
            share == self.shares()[group as int],
    {
        self.shares[group]
    }

    /// Whether chain group `group` is waiting for the window to end.
    pub fn is_waiting(&self, group: usize) -> (waiting: bool)
        requires
            self.well_formed(),
            group < self.shares().len(),
        ensures
            waiting == self.waiting()[group as int],
    {
        self.waiting[group]
    }

    /// Counts one block of chain group `group`, which is not waiting, and
    /// says whether the group has to wait now: whether its count has
    /// reached its share.
    pub fn record_block(&mut self, group: usize) -> (wait: bool)
        requires
            old(self).well_formed(),
            group < old(self).shares().len(),
            !old(self).waiting()[group as int],
        ensures
            final(self).well_formed(),
            final(self).bps() == old(self).bps(),
            final(self).shares() == old(self).shares(),
            final(self).counts() == old(self).counts().update(
                group as int,
                (old(self).counts()[group as int] + 1) as usize,
            ),
            final(self).waiting() == old(self).waiting().update(group as int, wait),
            wait == (old(self).counts()[group as int] + 1 >= old(self).shares()[group as int]),
    {
        let current_bps_count: usize = self.counts[group] + 1;
        let wait = current_bps_count >= self.shares[group];
        self.counts.set(group, current_bps_count);
        self.waiting.set(group, wait);
        wait
    }

    /// Ends the window: returns the number of blocks that all groups
    /// counted in it, resets the counts and lets every group go on.
    ///
    /// No window holds more blocks than the target rate and one block per
    /// group.
    pub fn end_window(&mut self) -> (current_bps_count: usize)
        requires
            old(self).well_formed(),
        ensures
            final(self).well_formed(),
            final(self).bps() == old(self).bps(),
            final(self).shares() == old(self).shares(),
            final(self).counts() == Seq::new(old(self).shares().len(), |i: int| 0usize),
            final(self).waiting() == Seq::new(old(self).shares().len(), |i: int| false),
            current_bps_count == total(old(self).counts()),
            current_bps_count <= old(self).bps() + old(self).shares().len(),
    {
        let groups: usize = self.shares.len();
        proof {
            lemma_window_bound(*self);
        }
        let mut current_bps_count: usize = 0;
        let mut i: usize = 0;
        while i < groups
            invariant
                groups == self.counts@.len(),
                i <= groups,
                current_bps_count == total(self.counts@.take(i as int)),
                total(self.counts@) <= usize::MAX,
            decreases groups - i,
        {
            proof {
                assert(self.counts@.take(i + 1).drop_last() =~= self.counts@.take(i as int));
                lemma_total_prefix(self.counts@, i + 1);
            }
            current_bps_count = current_bps_count + self.counts[i];
            i += 1;
        }
        assert(self.counts@.take(i as int) =~= self.counts@);
        let mut counts: Vec<usize> = Vec::new();
        let mut waiting: Vec<bool> = Vec::new();
        let mut k: usize = 0;
        while k < groups
            invariant
                k <= groups,
                counts@ == Seq::new(k as nat, |j: int| 0usize),
                waiting@ == Seq::new(k as nat, |j: int| false),
            decreases groups - k,
        {
            counts.push(0);
            waiting.push(false);
            assert(counts@ =~= Seq::new((k + 1) as nat, |j: int| 0usize));
            assert(waiting@ =~= Seq::new((k + 1) as nat, |j: int| false));
            k += 1;
        }
        self.counts = counts;
        self.waiting = waiting;
        current_bps_count
    }
}

/// At every moment each chain group has counted at most its share in the
/// running window, or one block where its share is none; and a group that
/// is not waiting has counted less than its share, or nothing.
pub proof fn lemma_group_within_cap(counters: BlockCounters, group: int)
    requires
        counters.well_formed(),
        0 <= group < counters.shares().len(),
    ensures
        counters.counts().len() == counters.shares().len(),
        counters.waiting().len() == counters.shares().len(),
        counters.counts()[group] <= window_cap(counters.shares()[group]),
        !counters.waiting()[group] ==> counters.counts()[group] < counters.shares()[group]
            || counters.counts()[group] == 0,
{
    if counters.waiting()[group] {
    }
}

/// At every moment the counters of a window hold at most the target rate
/// and one block per chain group, and at most the larger of the two.
pub proof fn lemma_window_bound(counters: BlockCounters)
    requires
        counters.well_formed(),
    ensures
        total(counters.counts()) <= counters.bps() + counters.shares().len(),
        total(counters.counts()) <= usize::MAX,
{
    let shares = counters.shares();
    let counts = counters.counts();
    assert forall|i: int| 0 <= i < counts.len() implies #[trigger] counts[i] <= window_cap(
        shares[i],
    ) by {
        if counters.waiting()[i] {
        }
    }
    lemma_total_within_cap(counts, shares);
    lemma_fair_shares_total(counters.bps() as nat, shares.len());
    assert(counters.shares@.len() == counters.shares.len());
}

/// `ToFormattedString::to_formatted_string` with `Locale::en`: the number
/// in decimal digits, in groups of three separated by commas.
#[verifier::external_body]
fn format_grouped(number: u128) -> (text: String)
    ensures
        text@ == grouped(number as nat),
{
    number.to_formatted_string(&Locale::en)
}

/// What the pacing task says of the window that just ended.
#[derive(Clone, Copy, Debug, PartialEq, Eq, Structural)]
pub enum BpsReport {
    /// The target rate was reached: blocks and transactions of the window.
    Achieved { bps: usize, tps: u128 },
    /// The target rate was missed: the targets, then blocks and
    /// transactions of the window.
    Failed { bps_goal: usize, tps_goal: u128, bps: usize, tps: u128 },
}

/// The report on a window of `current_bps_count` blocks with
/// `transactions_per_block` transactions each, under the target `bps`.
pub open spec fn bps_report_spec(
    current_bps_count: usize,
    transactions_per_block: usize,
    bps: usize,
) -> BpsReport {
    if current_bps_count >= bps {
        BpsReport::Achieved {
            bps: current_bps_count,
            tps: (current_bps_count * transactions_per_block) as u128,
        }
    } else {
        BpsReport::Failed {
            bps_goal: bps,
            tps_goal: (bps * transactions_per_block) as u128,
            bps: current_bps_count,
            tps: (current_bps_count * transactions_per_block) as u128,
        }
    }
}

impl Benchmark {
    /// Judges the window that just ended: the target is achieved when at
    /// least `bps` blocks were counted. Transactions are blocks times
    /// `transactions_per_block`.
    pub fn bps_report(current_bps_count: usize, transactions_per_block: usize, bps: usize) -> (report:
        BpsReport)
        ensures
            report == bps_report_spec(current_bps_count, transactions_per_block, bps),
    {
        assert(current_bps_count * transactions_per_block <= u128::MAX) by (nonlinear_arith)
            requires
                current_bps_count <= u64::MAX,
                transactions_per_block <= u64::MAX,
        ;
        assert(bps * transactions_per_block <= u128::MAX) by (nonlinear_arith)
            requires
                bps <= u64::MAX,
                transactions_per_block <= u64::MAX,
        ;
        let tps: u128 = (current_bps_count as u128) * (transactions_per_block as u128);
        if current_bps_count >= bps {
            BpsReport::Achieved { bps: current_bps_count, tps }
        } else {
            BpsReport::Failed {
                bps_goal: bps,
                tps_goal: (bps as u128) * (transactions_per_block as u128),
                bps: current_bps_count,
                tps,
            }
        }
    }
}

impl BpsReport {
    /// Whether the target rate was reached.
    pub fn achieved(&self) -> (achieved: bool)
        ensures
            achieved == (*self is Achieved),
    {
        match self {
            BpsReport::Achieved { .. } => true,
            BpsReport::Failed { .. } => false,
        }
    }

    /// The line that the pacing task logs.
    pub open spec fn message_spec(self) -> Seq<char> {
        match self {
            BpsReport::Achieved { bps, tps } => "Achieved "@ + grouped(bps as nat) + " BPS/"@
                + grouped(tps as nat) + " TPS"@,
            BpsReport::Failed { bps_goal, tps_goal, bps, tps } => "Failed to achieve "@ + grouped(
                bps_goal as nat,
            ) + " BPS/"@ + grouped(tps_goal as nat) + " TPS, only achieved "@ + grouped(
                bps as nat,
            ) + " BPS/"@ + grouped(tps as nat) + " TPS"@,
        }
    }

    /// The line that the pacing task logs, with every number in groups of
    /// three digits.
    pub fn message(&self) -> (text: String)
        ensures
            text@ == self.message_spec(),
    {
        match self {
            BpsReport::Achieved { bps, tps } => {
                let mut text = String::from_str("Achieved ");
                text.append(format_grouped(*bps as u128).as_str());
                text.append(" BPS/");
                text.append(format_grouped(*tps).as_str());
                text.append(" TPS");
                text
            },
            BpsReport::Failed { bps_goal, tps_goal, bps, tps } => {
                let mut text = String::from_str("Failed to achieve ");
                text.append(format_grouped(*bps_goal as u128).as_str());
                text.append(" BPS/");
                text.append(format_grouped(*tps_goal).as_str());
                text.append(" TPS, only achieved ");
                text.append(format_grouped(*bps as u128).as_str());
                text.append(" BPS/");
                text.append(format_grouped(*tps).as_str());
                text.append(" TPS");
                text
            },
        }
    }
}

} // verus!
