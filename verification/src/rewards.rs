//! Static block rewards of pre-merge blocks, reported as reward traces.

use vstd::prelude::*;

use alloy_hardforks::{EthereumChainHardforks, EthereumHardfork, EthereumHardforks, ForkCondition};

verus! {

/// The activation blocks of the forks that decide the static block reward.
/// `None` stands for a fork that is not activated by block number.
#[derive(Debug, Clone, Copy)]
pub struct ChainForks {
    pub byzantium: Option<u64>,
    pub constantinople: Option<u64>,
    pub paris: Option<u64>,
}

/// A fork with the given activation is active at `number`.
pub open spec fn fork_active(activation: Option<u64>, number: u64) -> bool {
    activation matches Some(block) && number >= block
}

/// Base reward of a block before the merge, in wei: 2 ETH from
/// Constantinople on, 3 ETH from Byzantium on, 5 ETH before.
pub open spec fn pre_merge_base_reward(forks: ChainForks, number: u64) -> u128 {
    if fork_active(forks.constantinople, number) {
        2_000_000_000_000_000_000u128
    } else if fork_active(forks.byzantium, number) {
        3_000_000_000_000_000_000u128
    } else {
        5_000_000_000_000_000_000u128
    }
}

/// Base reward of a block: none once Paris is active.
pub open spec fn base_reward_of(forks: ChainForks, number: u64) -> Option<u128> {
    if fork_active(forks.paris, number) {
        None
    } else {
        Some(pre_merge_base_reward(forks, number))
    }
}

/// Reward of the block's beneficiary: the base reward and one 32nd of it per
/// included ommer.
pub open spec fn block_reward_of(base: u128, ommers: nat) -> int {
    base + (base / 32) * ommers
}

/// Reward of an ommer's beneficiary: `(8 + ommer - block) / 8` of the base.
pub open spec fn ommer_reward_of(base: u128, block_number: u64, ommer_number: u64) -> int {
    ((8 + ommer_number - block_number) * base) / 8
}

/// Trusted: `alloy_hardforks::EthereumHardforks::is_paris_active_at_block` on
/// an `EthereumChainHardforks` built from `forks`. Its source looks the fork's
/// condition up and reports whether the block number has reached its
/// activation block.
#[verifier::external_body]
fn is_paris_active_at_block(forks: &ChainForks, block_number: u64) -> (r: bool)
    ensures
        r == fork_active(forks.paris, block_number),
{
    let spec = EthereumChainHardforks::new([
        (EthereumHardfork::Byzantium, forks.byzantium.map_or(ForkCondition::Never, ForkCondition::Block)),
        (EthereumHardfork::Constantinople, forks.constantinople.map_or(ForkCondition::Never, ForkCondition::Block)),
        (EthereumHardfork::Paris, forks.paris.map_or(ForkCondition::Never, ForkCondition::Block)),
    ]);
    spec.is_paris_active_at_block(block_number)
}

/// Trusted: `alloy_evm::block::calc::base_block_reward_pre_merge` on an
/// `EthereumChainHardforks` built from `forks`. Its source returns 2 ETH once
/// Constantinople is active, else 3 ETH once Byzantium is, else 5 ETH.
#[verifier::external_body]
fn base_block_reward_pre_merge(forks: &ChainForks, block_number: u64) -> (r: u128)
    ensures
        r == pre_merge_base_reward(*forks, block_number),
{
    let spec = EthereumChainHardforks::new([
        (EthereumHardfork::Byzantium, forks.byzantium.map_or(ForkCondition::Never, ForkCondition::Block)),
        (EthereumHardfork::Constantinople, forks.constantinople.map_or(ForkCondition::Never, ForkCondition::Block)),
        (EthereumHardfork::Paris, forks.paris.map_or(ForkCondition::Never, ForkCondition::Block)),
    ]);
    alloy_evm::block::calc::base_block_reward_pre_merge(spec, block_number)
}

/// Trusted: `alloy_evm::block::calc::block_reward`, whose source computes
/// `base + (base >> 5) * ommers`; inputs on which that overflows are left out.
#[verifier::external_body]
fn block_reward(base_block_reward: u128, ommers: usize) -> (r: u128)
    requires
        block_reward_of(base_block_reward, ommers as nat) <= u128::MAX,
    ensures
        r == block_reward_of(base_block_reward, ommers as nat),
{
    alloy_evm::block::calc::block_reward(base_block_reward, ommers)
}

/// Trusted: `alloy_evm::block::calc::ommer_reward`, whose source computes
/// `((8 + ommer - block) as u128 * base) >> 3`; inputs on which that
/// overflows or underflows are left out.
#[verifier::external_body]
fn ommer_reward(base_block_reward: u128, block_number: u64, ommer_block_number: u64) -> (r: u128)
    requires
        8 + ommer_block_number <= u64::MAX,
        block_number <= 8 + ommer_block_number,
        (8 + ommer_block_number - block_number) * base_block_reward <= u128::MAX,
    ensures
        r == ommer_reward_of(base_block_reward, block_number, ommer_block_number),
{
    alloy_evm::block::calc::ommer_reward(base_block_reward, block_number, ommer_block_number)
}

/// What the reward computation reads of a block or ommer header.
#[derive(Debug, Clone, Copy)]
pub struct RewardHeader {
    pub number: u64,
    pub beneficiary: [u8; 20],
}

/// Which beneficiary a reward trace pays.
#[derive(Debug, Clone, Copy, PartialEq, Eq, Structural)]
pub enum RewardKind {
    Block,
    Uncle,
}

/// A reward trace of a block: who is paid how much, for which block.
#[derive(Debug, Clone, Copy)]
pub struct RewardTrace {
    pub block_hash: [u8; 32],
    pub block_number: u64,
    pub author: [u8; 20],
    pub reward_type: RewardKind,
    pub value: u128,
}

/// A block as the reward computation reads it.
#[derive(Debug, Clone)]
pub struct RewardBlock {
    pub header: RewardHeader,
    pub hash: [u8; 32],
    pub ommers: Option<Vec<RewardHeader>>,
}

/// The ommer headers that an optional list holds.
pub open spec fn ommers_of(ommers: Option<&[RewardHeader]>) -> Seq<RewardHeader> {
    match ommers {
        Some(o) => o@,
        None => Seq::empty(),
    }
}

/// The ommer headers that an optional owned list holds.
pub open spec fn owned_ommers_of(ommers: Option<Vec<RewardHeader>>) -> Seq<RewardHeader> {
    match ommers {
        Some(o) => o@,
        None => Seq::empty(),
    }
}

/// The ommer block numbers can be set against the block number without
/// leaving the range of `u64`.
pub open spec fn ommer_numbers_in_range(number: u64, ommers: Seq<RewardHeader>) -> bool {
    forall|i: int| 0 <= i < ommers.len() ==> {
        &&& 8 + (#[trigger] ommers[i]).number <= u64::MAX
        &&& number <= 8 + ommers[i].number
    }
}

/// Whether the ommer block numbers can be set against the block number
/// without leaving the range of `u64`.
pub fn ommer_numbers_fit(number: u64, ommers: &[RewardHeader]) -> (r: bool)
    ensures
        r == ommer_numbers_in_range(number, ommers@),
{
    let n = ommers.len();
    for i in 0..n
        invariant
            n == ommers@.len(),
            ommer_numbers_in_range(number, ommers@.take(i as int)),
    {
        let o = ommers[i].number;
        if o > u64::MAX - 8 || number > 8 + o {
            assert(!ommer_numbers_in_range(number, ommers@)) by {
                assert(ommers@[i as int].number == o);
            }
            return false;
        }
        assert forall|j: int| 0 <= j < i + 1 implies {
            &&& 8 + (#[trigger] ommers@.take(i + 1)[j]).number <= u64::MAX
            &&& number <= 8 + ommers@.take(i + 1)[j].number
        } by {
            if j < i {
                assert(ommers@.take(i + 1)[j] == ommers@.take(i as int)[j]);
            }
        }
    }
    assert(ommers@.take(n as int) =~= ommers@);
    true
}

/// Every reward of the block fits in a `u128`.
pub open spec fn rewards_in_range(number: u64, ommers: Seq<RewardHeader>, base: u128) -> bool {
    &&& ommer_numbers_in_range(number, ommers)
    &&& block_reward_of(base, ommers.len()) <= u128::MAX
    &&& forall|i: int| 0 <= i < ommers.len() ==>
            (8 + (#[trigger] ommers[i]).number - number) * base <= u128::MAX
}

/// The trace of one reward.
pub open spec fn reward_trace_of(
    block_hash: [u8; 32],
    header: RewardHeader,
    author: [u8; 20],
    reward_type: RewardKind,
    value: u128,
) -> RewardTrace {
    RewardTrace { block_hash, block_number: header.number, author, reward_type, value }
}

/// The traces of the first `count` ommers' rewards.
pub open spec fn uncle_traces_of(
    header: RewardHeader,
    block_hash: [u8; 32],
    ommers: Seq<RewardHeader>,
    base: u128,
    count: nat,
) -> Seq<RewardTrace> {
    Seq::new(count, |i: int| reward_trace_of(block_hash, header, ommers[i].beneficiary,
        RewardKind::Uncle, ommer_reward_of(base, header.number, ommers[i].number) as u128))
}

/// The reward traces of a block: the beneficiary's first, then one per
/// ommer, in the ommers' order.
pub open spec fn reward_traces_of(
    header: RewardHeader,
    block_hash: [u8; 32],
    ommers: Seq<RewardHeader>,
    base: u128,
) -> Seq<RewardTrace> {
    seq![reward_trace_of(block_hash, header, header.beneficiary, RewardKind::Block,
        block_reward_of(base, ommers.len()) as u128)]
    + uncle_traces_of(header, block_hash, ommers, base, ommers.len())
}

/// The reward traces of an optional block under the given forks.
pub open spec fn block_rewards_of(forks: ChainForks, block: Option<RewardBlock>) -> Seq<RewardTrace> {
    match block {
        None => Seq::empty(),
        Some(b) => match base_reward_of(forks, b.header.number) {
            None => Seq::empty(),
            Some(base) => reward_traces_of(b.header, b.hash, owned_ommers_of(b.ommers), base),
        },
    }
}

/// A block's base reward is at most five ether.
proof fn lemma_pre_merge_base_reward_bound(forks: ChainForks, number: u64)
    ensures
        pre_merge_base_reward(forks, number) <= 5_000_000_000_000_000_000u128,
{
}

/// With a base reward of at most five ether, every reward of a block whose
/// ommer numbers are in range fits in a `u128`.
proof fn lemma_small_base_in_range(number: u64, ommers: Seq<RewardHeader>, base: u128)
    requires
        base <= 5_000_000_000_000_000_000u128,
        ommers.len() <= u64::MAX,
        ommer_numbers_in_range(number, ommers),
    ensures
        rewards_in_range(number, ommers, base),
{
    let n = ommers.len();
    assert((base / 32) * n <= 200_000_000_000_000_000 * 18_446_744_073_709_551_615) by (nonlinear_arith)
        requires base <= 5_000_000_000_000_000_000u128, n <= 18_446_744_073_709_551_615;
    assert forall|i: int| 0 <= i < ommers.len() implies
        (8 + (#[trigger] ommers[i]).number - number) * base <= u128::MAX by {
        let d: int = 8 + ommers[i].number - number;
        assert(d * base <= 18_446_744_073_709_551_615 * 5_000_000_000_000_000_000) by (nonlinear_arith)
            requires 0 <= d <= 18_446_744_073_709_551_615, base <= 5_000_000_000_000_000_000u128;
    }
}

/// The node-side view of the chain that the reward helpers need.
#[derive(Debug, Clone, Copy)]
pub struct EthApi {
    pub forks: ChainForks,
}

impl EthApi {
    /// Creates the helpers for a chain with the given fork schedule.
    pub fn new(forks: ChainForks) -> (api: EthApi)
        ensures
            api.forks == forks,
    {
        EthApi { forks }
    }

    /// The base reward of the block with this header: none once Paris is
    /// active, else the pre-merge base reward.
    pub fn calculate_base_block_reward(&self, header: &RewardHeader) -> (r: Option<u128>)
        ensures
            r == base_reward_of(self.forks, header.number),
    {
        if is_paris_active_at_block(&self.forks, header.number) {
            return None;
        }
        Some(base_block_reward_pre_merge(&self.forks, header.number))
    }

    /// The reward traces of a block: the beneficiary's reward with the ommer
    /// inclusion bonus first, then one uncle reward per ommer, in order.
    pub fn extract_reward_traces(
        &self,
        header: &RewardHeader,
        block_hash: [u8; 32],
        ommers: Option<&[RewardHeader]>,
        base_block_reward: u128,
    ) -> (traces: Vec<RewardTrace>)
        requires
            rewards_in_range(header.number, ommers_of(ommers), base_block_reward),
        ensures
            traces@ == reward_traces_of(*header, block_hash, ommers_of(ommers), base_block_reward),
            traces.len() == ommers_of(ommers).len() + 1,
            traces[0].reward_type == RewardKind::Block,
            traces[0].author == header.beneficiary,
            traces[0].value == block_reward_of(base_block_reward, ommers_of(ommers).len()),
            forall|i: int| 0 <= i < traces.len() ==> {
                &&& (#[trigger] traces[i]).block_hash == block_hash
                &&& traces[i].block_number == header.number
            },
            forall|i: int| 0 <= i < ommers_of(ommers).len() ==> {
                &&& (#[trigger] traces[i + 1]).reward_type == RewardKind::Uncle
                &&& traces[i + 1].author == ommers_of(ommers)[i].beneficiary
                &&& traces[i + 1].value == ommer_reward_of(base_block_reward, header.number,
                        ommers_of(ommers)[i].number)
            },
    {
        let ghost all = ommers_of(ommers);
        let ommers_cnt: usize = match ommers {
            Some(o) => o.len(),
            None => 0,
        };
        let mut traces: Vec<RewardTrace> = Vec::new();
        let reward = block_reward(base_block_reward, ommers_cnt);
        traces.push(RewardTrace {
            block_hash,
            block_number: header.number,
            author: header.beneficiary,
            reward_type: RewardKind::Block,
            value: reward,
        });
        let ghost first = traces@[0];
        match ommers {
            None => {
                assert(traces@ =~= reward_traces_of(*header, block_hash, all, base_block_reward));
            },
            Some(list) => {
                let n = list.len();
                assert(traces@ =~= seq![first] + uncle_traces_of(*header, block_hash, all, base_block_reward, 0));
                for i in 0..n
                    invariant
                        n == list@.len(),
                        all == list@,
                        rewards_in_range(header.number, all, base_block_reward),
                        traces@ == seq![first] + uncle_traces_of(*header, block_hash, all, base_block_reward, i as nat),
                {
                    let uncle_header = &list[i];
                    let uncle_reward = ommer_reward(base_block_reward, header.number, uncle_header.number);
                    traces.push(RewardTrace {
                        block_hash,
                        block_number: header.number,
                        author: uncle_header.beneficiary,
                        reward_type: RewardKind::Uncle,
                        value: uncle_reward,
                    });
                    assert(traces@[i + 1] == uncle_traces_of(*header, block_hash, all, base_block_reward,
                        (i + 1) as nat)[i as int]);
                    assert(traces@ =~= seq![first] + uncle_traces_of(*header, block_hash, all, base_block_reward, (i + 1) as nat));
                }
                assert(traces@ =~= reward_traces_of(*header, block_hash, all, base_block_reward));
            },
        }
        traces
    }

    /// The reward traces of a fetched block: none without a block or after
    /// the merge, else those of `extract_reward_traces`.
    pub fn block_rewards(&self, block: Option<RewardBlock>) -> (traces: Vec<RewardTrace>)
        requires
            block matches Some(b) ==> ommer_numbers_in_range(b.header.number, owned_ommers_of(b.ommers)),
        ensures
            traces@ == block_rewards_of(self.forks, block),
            block matches Some(b) && fork_active(self.forks.paris, b.header.number) ==> traces.len() == 0,
            block matches Some(b) && !fork_active(self.forks.paris, b.header.number) ==> pays_rewards(traces@,
                block->Some_0.header, block->Some_0.hash, owned_ommers_of(block->Some_0.ommers),
                pre_merge_base_reward(self.forks, block->Some_0.header.number)),
    {
        proof {
            if block is Some {
                lemma_block_rewards_pay_every_ommer(self.forks, block->Some_0);
            }
        }
        let mut trace_rewards: Vec<RewardTrace> = Vec::new();
        if let Some(b) = block {
            if let Some(base) = self.calculate_base_block_reward(&b.header) {
                let ommers: Option<&[RewardHeader]> = match &b.ommers {
                    Some(v) => Some(v.as_slice()),
                    None => None,
                };
                proof {
                    if let Some(v) = &b.ommers {
                        assert(v@.len() == v.len());
                        assert(v.len() <= u64::MAX);
                    }
                    lemma_pre_merge_base_reward_bound(self.forks, b.header.number);
                    lemma_small_base_in_range(b.header.number, ommers_of(ommers), base);
                }
                trace_rewards = self.extract_reward_traces(&b.header, b.hash, ommers, base);
            }
        }
        trace_rewards
    }
}

/// `traces` pay a block's rewards: one trace more than there are ommers; the
/// first pays the beneficiary the base reward with one 32nd of it per ommer,
/// the one after it pays the `i`-th ommer's beneficiary `(8 + ommer - block)`
/// eighths of the base; every trace names the block's hash and number.
pub open spec fn pays_rewards(
    traces: Seq<RewardTrace>,
    header: RewardHeader,
    block_hash: [u8; 32],
    ommers: Seq<RewardHeader>,
    base: u128,
) -> bool {
    &&& traces.len() == ommers.len() + 1
    &&& traces[0].reward_type == RewardKind::Block
    &&& traces[0].author == header.beneficiary
    &&& traces[0].value as int == base + (base / 32) * ommers.len()
    &&& forall|i: int| 0 <= i < traces.len() ==> {
        &&& (#[trigger] traces[i]).block_hash == block_hash
        &&& traces[i].block_number == header.number
    }
    &&& forall|i: int| 0 <= i < ommers.len() ==> {
        &&& (#[trigger] traces[i + 1]).reward_type == RewardKind::Uncle
        &&& traces[i + 1].author == ommers[i].beneficiary
        &&& traces[i + 1].value as int == ((8 + ommers[i].number - header.number) * base) / 8
    }
}

/// Law: the rewards of a fetched block. No block, or a block once Paris is
/// active, pays nothing; a block before the merge pays its beneficiary and
/// every one of its ommers, over its base reward of 2, 3 or 5 ether.
pub proof fn lemma_block_rewards_pay_every_ommer(forks: ChainForks, b: RewardBlock)
    requires
        ommer_numbers_in_range(b.header.number, owned_ommers_of(b.ommers)),
    ensures
        block_rewards_of(forks, None).len() == 0,
        fork_active(forks.paris, b.header.number) ==> block_rewards_of(forks, Some(b)).len() == 0,
        !fork_active(forks.paris, b.header.number) ==> pays_rewards(block_rewards_of(forks, Some(b)), b.header,
            b.hash, owned_ommers_of(b.ommers), pre_merge_base_reward(forks, b.header.number)),
{
    let block = Some(b);
    {
        if !fork_active(forks.paris, b.header.number) {
            let ommers = owned_ommers_of(b.ommers);
            let base = pre_merge_base_reward(forks, b.header.number);
            if let Some(v) = b.ommers {
                assert(v@.len() == v.len());
                assert(v.len() <= u64::MAX);
            }
            lemma_small_base_in_range(b.header.number, ommers, base);
            let traces = block_rewards_of(forks, block);
            assert(traces == reward_traces_of(b.header, b.hash, ommers, base));
            assert forall|i: int| 0 <= i < ommers.len() implies {
                &&& (#[trigger] traces[i + 1]).reward_type == RewardKind::Uncle
                &&& traces[i + 1].author == ommers[i].beneficiary
                &&& traces[i + 1].value as int == ((8 + ommers[i].number - b.header.number) * base) / 8
            } by {
                assert(traces[i + 1] == uncle_traces_of(b.header, b.hash, ommers, base, ommers.len())[i]);
                assert(((8 + ommers[i].number - b.header.number) * base) / 8 <= u128::MAX) by (nonlinear_arith)
                    requires (8 + ommers[i].number - b.header.number) * base <= u128::MAX,
                        0 <= (8 + ommers[i].number - b.header.number) * base;
            }
            assert forall|i: int| 0 <= i < traces.len() implies {
                &&& (#[trigger] traces[i]).block_hash == b.hash
                &&& traces[i].block_number == b.header.number
            } by {
                if i > 0 {
                    assert(traces[i] == uncle_traces_of(b.header, b.hash, ommers, base, ommers.len())[i - 1]);
                }
            }
        }
    }
}

} // verus!
