//! The decisions of an `eth_getBlockReceiptsTrace` request, as a state
//! machine: the server performs each action (the fetches) and hands back
//! what came of it, until the machine responds.

use vstd::prelude::*;
use crate::enrich::{
    block_verdict, enrich_block, is_compressed_key_text, lemma_accepted_block_authenticated, served_as, BlockRecord, BlockTransactions,
    EnrichedBlock, EnrichedTransaction, ReceiptRecord, TraceRecord,
};
use crate::error::{BlockNumberOrTag, TraceApiError, TraceApiErrorView};
use crate::rewards::{
    block_rewards_of, fork_active, lemma_block_rewards_pay_every_ommer, owned_ommers_of, ommer_numbers_in_range,
    pays_rewards, pre_merge_base_reward, EthApi, RewardBlock,
};

verus! {

/// How a fetch that runs in its own task ended.
pub enum Fetched<A> {
    /// The task did not complete; the text says why.
    JoinFailed(String),
    /// The fetch reported an error; the text is the error's.
    Failed(String),
    /// The fetch completed, with a result or with none.
    Done(Option<A>),
}

/// The error, if any, that the fetched traces and receipts end a request
/// with. A task that did not complete is reported first (the traces' task
/// before the receipts' task), then the traces' outcome, then the receipts'.
pub open spec fn settle_error<X, R>(
    number: BlockNumberOrTag,
    traces: Fetched<Vec<TraceRecord<X>>>,
    receipts: Fetched<Vec<ReceiptRecord<R>>>,
) -> Option<TraceApiErrorView> {
    match (traces, receipts) {
        (Fetched::JoinFailed(reason), _) => Some(TraceApiErrorView::TracesJoin { number, reason: reason@ }),
        (_, Fetched::JoinFailed(reason)) => Some(TraceApiErrorView::ReceiptsJoin { number, reason: reason@ }),
        (Fetched::Failed(reason), _) => Some(TraceApiErrorView::TracesFetch { number, reason: reason@ }),
        (Fetched::Done(None), _) => Some(TraceApiErrorView::TracesMissing { number }),
        (_, Fetched::Failed(reason)) => Some(TraceApiErrorView::ReceiptsFetch { number, reason: reason@ }),
        (_, Fetched::Done(None)) => Some(TraceApiErrorView::ReceiptsMissing { number }),
        _ => None,
    }
}

/// Takes the traces and receipts out of their fetches, or reports the error
/// that the request ends with.
pub fn settle_fetches<X, R>(
    number: BlockNumberOrTag,
    traces: Fetched<Vec<TraceRecord<X>>>,
    receipts: Fetched<Vec<ReceiptRecord<R>>>,
) -> (r: Result<(Vec<TraceRecord<X>>, Vec<ReceiptRecord<R>>), TraceApiError>)
    ensures
        r matches Ok((t, rc)) ==> {
            &&& settle_error(number, traces, receipts) is None
            &&& traces == Fetched::Done(Some(t))
            &&& receipts == Fetched::Done(Some(rc))
        },
        r matches Err(e) ==> settle_error(number, traces, receipts) == Some(e@),
{
    match (traces, receipts) {
        (Fetched::JoinFailed(reason), _) => Err(TraceApiError::TracesJoin { number, reason }),
        (_, Fetched::JoinFailed(reason)) => Err(TraceApiError::ReceiptsJoin { number, reason }),
        (Fetched::Failed(reason), _) => Err(TraceApiError::TracesFetch { number, reason }),
        (Fetched::Done(None), _) => Err(TraceApiError::TracesMissing { number }),
        (_, Fetched::Failed(reason)) => Err(TraceApiError::ReceiptsFetch { number, reason }),
        (_, Fetched::Done(None)) => Err(TraceApiError::ReceiptsMissing { number }),
        (Fetched::Done(Some(t)), Fetched::Done(Some(rc))) => Ok((t, rc)),
    }
}

/// `out` serves the transactions of the block, each with the receipt and the
/// trace at its position and with the public key text at its position in
/// `keys`; a block without full transactions serves none.
pub open spec fn serves<T, R, X>(
    txs: BlockTransactions<T>,
    receipts: Seq<ReceiptRecord<R>>,
    traces: Seq<TraceRecord<X>>,
    keys: Seq<Seq<char>>,
    out: Seq<EnrichedTransaction<T, R, X>>,
) -> bool {
    &&& out.len() == keys.len()
    &&& match txs {
        BlockTransactions::Full(v) => forall|k: int| 0 <= k < v.len() ==> {
            &&& (#[trigger] out[k]).inner == v@[k].body
            &&& out[k].receipts == receipts[k].body
            &&& out[k].trace == traces[k].full_trace
            &&& out[k].public_key@ == keys[k]
            &&& is_compressed_key_text(out[k].public_key@)
        },
        _ => out.len() == 0,
    }
}

/// Where a request stands.
pub enum Stage<H, T, R, X> {
    /// The block's traces and receipts are being fetched.
    AwaitingTracesAndReceipts,
    /// The block is being fetched.
    AwaitingBlock { traces: Vec<TraceRecord<X>>, receipts: Vec<ReceiptRecord<R>> },
    /// The block passed its checks; the block that its rewards are computed
    /// from, by the fetched block's own number, is being fetched.
    AwaitingRewards { head: H, transactions: Vec<EnrichedTransaction<T, R, X>> },
    /// The request has been answered.
    Finished,
}

/// What came of the last action.
pub enum Event<H, T, R, X> {
    /// The block's traces and receipts.
    TracesAndReceipts { traces: Fetched<Vec<TraceRecord<X>>>, receipts: Fetched<Vec<ReceiptRecord<R>>> },
    /// The block with its full transactions, or the text of the error.
    Block(Result<Option<BlockRecord<H, T>>, String>),
    /// The block that the rewards are computed from, where there is one.
    RewardBlock(Option<RewardBlock>),
}

/// What the server is to do next.
pub enum Action<H, T, R, X> {
    /// Fetch the traces and the receipts of the block, each in its own task.
    FetchTracesAndReceipts(BlockNumberOrTag),
    /// Fetch the block with its full transactions.
    FetchBlock(BlockNumberOrTag),
    /// Fetch the block with this number for its rewards.
    FetchRewardBlock(u64),
    /// Answer the request.
    Respond(Result<Option<EnrichedBlock<H, T, R, X>>, TraceApiError>),
}

/// An `eth_getBlockReceiptsTrace` request in progress.
pub struct ReceiptsTraceRequest<H, T, R, X> {
    /// The block that the request names.
    pub number: BlockNumberOrTag,
    /// The chain's reward helpers.
    pub api: EthApi,
    pub stage: Stage<H, T, R, X>,
}

impl<H, T, R, X> ReceiptsTraceRequest<H, T, R, X> {
    /// Whether the request can take the event: each stage takes the event of
    /// its fetch. A block fetch that found no block, and ommer numbers that
    /// cannot be set against the block number, are not taken: the request
    /// cannot go on from them.
    pub open spec fn accepts(&self, event: Event<H, T, R, X>) -> bool {
        match self.stage {
            Stage::AwaitingTracesAndReceipts => event is TracesAndReceipts,
            Stage::AwaitingBlock { .. } => match event {
                Event::Block(Ok(None)) => false,
                Event::Block(Ok(Some(_))) => true,
                Event::Block(Err(_)) => true,
                _ => false,
            },
            Stage::AwaitingRewards { .. } => match event {
                Event::RewardBlock(Some(b)) => ommer_numbers_in_range(b.header.number, owned_ommers_of(b.ommers)),
                Event::RewardBlock(None) => true,
                _ => false,
            },
            Stage::Finished => false,
        }
    }

    /// Starts a request for the block `number`: its traces and receipts are
    /// fetched first.
    pub fn start(number: BlockNumberOrTag, api: EthApi) -> (r: (Self, Action<H, T, R, X>))
        ensures
            r.0.number == number,
            r.0.api == api,
            (r.0.stage is AwaitingTracesAndReceipts),
            r.1 == Action::<H, T, R, X>::FetchTracesAndReceipts(number),
    {
        (ReceiptsTraceRequest { number, api, stage: Stage::AwaitingTracesAndReceipts },
            Action::FetchTracesAndReceipts(number))
    }

    /// Whether the request has been answered.
    pub fn is_finished(&self) -> (r: bool)
        ensures
            r == (self.stage is Finished),
    {
        match self.stage {
            Stage::Finished => true,
            _ => false,
        }
    }

    /// The decision that `advance` makes: `next` and `action` are what the
    /// request moves to and what it asks for after `event`.
    pub open spec fn advances_to(&self, event: Event<H, T, R, X>, next: Self, action: Action<H, T, R, X>) -> bool {
        &&& next.number == self.number
        &&& next.api == self.api
        &&& match event {
            // the traces and receipts arrived
            Event::TracesAndReceipts { traces, receipts } => match settle_error(self.number, traces, receipts) {
                Some(e) => {
                    &&& next.stage is Finished
                    &&& action matches Action::Respond(Err(err))
                    &&& err@ == e
                },
                None => {
                    &&& traces matches Fetched::Done(Some(t))
                    &&& receipts matches Fetched::Done(Some(rc))
                    &&& next.stage == Stage::<H, T, R, X>::AwaitingBlock { traces: t, receipts: rc }
                    &&& action == Action::<H, T, R, X>::FetchBlock(self.number)
                },
            },
            // the block fetch failed
            Event::Block(Err(reason)) => {
                &&& next.stage is Finished
                &&& action matches Action::Respond(Err(err))
                &&& err@ == TraceApiErrorView::BlockFetch { reason: reason@ }
            },
            // the block arrived
            Event::Block(Ok(Some(block))) => {
                &&& self.stage matches Stage::AwaitingBlock { traces, receipts }
                &&& match block_verdict(block.transactions, receipts@, traces@) {
                    Err(e) => {
                        &&& next.stage is Finished
                        &&& action matches Action::Respond(Err(err))
                        &&& err@ == e
                    },
                    Ok(keys) => {
                        &&& next.stage matches Stage::AwaitingRewards { head, transactions }
                        &&& head == block.head
                        &&& serves(block.transactions, receipts@, traces@, keys, transactions@)
                        &&& action == Action::<H, T, R, X>::FetchRewardBlock(block.number)
                    },
                }
            },
            Event::Block(Ok(None)) => false,
            // the block for the rewards arrived
            Event::RewardBlock(b) => {
                &&& self.stage matches Stage::AwaitingRewards { head, transactions }
                &&& next.stage is Finished
                &&& action matches Action::Respond(Ok(Some(served)))
                &&& served.head == head
                &&& served.transactions == transactions
                &&& served.rewards@ == block_rewards_of(self.api.forks, b)
            },
        }
    }

    /// Takes what came of the last action and decides the next one.
    pub fn advance(self, event: Event<H, T, R, X>) -> (r: (Self, Action<H, T, R, X>))
        requires
            self.accepts(event),
        ensures
            self.advances_to(event, r.0, r.1),
    {
        let ReceiptsTraceRequest { number, api, stage } = self;
        match (stage, event) {
            (Stage::AwaitingTracesAndReceipts, Event::TracesAndReceipts { traces, receipts }) => {
                match settle_fetches(number, traces, receipts) {
                    Err(e) => (ReceiptsTraceRequest { number, api, stage: Stage::Finished }, Action::Respond(Err(e))),
                    Ok((traces, receipts)) => (
                        ReceiptsTraceRequest { number, api, stage: Stage::AwaitingBlock { traces, receipts } },
                        Action::FetchBlock(number),
                    ),
                }
            },
            (Stage::AwaitingBlock { traces, receipts }, Event::Block(fetched)) => {
                match fetched {
                    Err(reason) => (
                        ReceiptsTraceRequest { number, api, stage: Stage::Finished },
                        Action::Respond(Err(TraceApiError::BlockFetch { reason })),
                    ),
                    Ok(None) => {
                        proof {
                            assert(false);
                        }
                        (ReceiptsTraceRequest { number, api, stage: Stage::Finished },
                            Action::Respond(Ok(None)))
                    },
                    Ok(Some(block)) => {
                        let block_number = block.number;
                        match enrich_block(block, receipts, traces) {
                            Err(e) => (
                                ReceiptsTraceRequest { number, api, stage: Stage::Finished },
                                Action::Respond(Err(e)),
                            ),
                            Ok((head, transactions)) => (
                                ReceiptsTraceRequest { number, api, stage: Stage::AwaitingRewards { head, transactions } },
                                Action::FetchRewardBlock(block_number),
                            ),
                        }
                    },
                }
            },
            (Stage::AwaitingRewards { head, transactions }, Event::RewardBlock(block)) => {
                let rewards = api.block_rewards(block);
                (
                    ReceiptsTraceRequest { number, api, stage: Stage::Finished },
                    Action::Respond(Ok(Some(EnrichedBlock { head, transactions, rewards }))),
                )
            },
            (stage, _) => {
                proof {
                    assert(false);
                }
                (ReceiptsTraceRequest { number, api, stage }, Action::FetchBlock(number))
            },
        }
    }
}

impl<H, T, R, X> ReceiptsTraceRequest<H, T, R, X> {
    /// Law: a request answers exactly when it finishes; every other step
    /// asks for a fetch.
    pub proof fn lemma_response_ends_request(&self, event: Event<H, T, R, X>, next: Self, action: Action<H, T, R, X>)
        requires
            self.accepts(event),
            self.advances_to(event, next, action),
        ensures
            (action is Respond) <==> (next.stage is Finished),
    {
    }

    /// Law: when a block passes its checks, each transaction that goes on to
    /// be served is the block's own, with the receipt and trace at its
    /// position, authenticated as `served_as` requires.
    pub proof fn lemma_checked_block_is_authenticated(
        &self,
        block: BlockRecord<H, T>,
        next: Self,
        action: Action<H, T, R, X>,
    )
        requires
            self.accepts(Event::Block(Ok(Some(block)))),
            self.advances_to(Event::Block(Ok(Some(block))), next, action),
            next.stage is AwaitingRewards,
        ensures
            self.stage matches Stage::AwaitingBlock { traces, receipts } && next.stage matches Stage::AwaitingRewards {
                head, transactions } && head == block.head && match block.transactions {
                BlockTransactions::Full(v) => transactions.len() == v.len() && receipts.len() == v.len()
                    && traces.len() == v.len() && forall|k: int| 0 <= k < v.len() ==> {
                        &&& (#[trigger] transactions@[k]).inner == v@[k].body
                        &&& transactions@[k].receipts == receipts@[k].body
                        &&& transactions@[k].trace == traces@[k].full_trace
                        &&& served_as(v@[k], receipts@[k].transaction_hash@, traces@[k].transaction_hash@,
                                transactions@[k].public_key@)
                        &&& is_compressed_key_text(transactions@[k].public_key@)
                    },
                _ => transactions.len() == 0,
            },
    {
        if let Stage::AwaitingBlock { traces, receipts } = self.stage {
            lemma_accepted_block_authenticated(block.transactions, receipts@, traces@);
        }
    }
}

impl<H, T, R, X> ReceiptsTraceRequest<H, T, R, X> {
    /// Law: the served rewards come from the reward block and the fork
    /// schedule alone, whatever transactions the block serves (none
    /// included): after the merge nothing, before it the beneficiary's
    /// reward and one uncle reward for every ommer.
    pub proof fn lemma_reward_block_pays_rewards(&self, b: RewardBlock, next: Self, action: Action<H, T, R, X>)
        requires
            self.accepts(Event::RewardBlock(Some(b))),
            self.advances_to(Event::RewardBlock(Some(b)), next, action),
        ensures
            ({
                &&& action matches Action::Respond(Ok(Some(served)))
                &&& fork_active(self.api.forks.paris, b.header.number) ==> served.rewards.len() == 0
                &&& !fork_active(self.api.forks.paris, b.header.number) ==> pays_rewards(served.rewards@,
                    b.header, b.hash, owned_ommers_of(b.ommers), pre_merge_base_reward(self.api.forks, b.header.number))
            }),
    {
        lemma_block_rewards_pay_every_ommer(self.api.forks, b);
    }
}

} // verus!
