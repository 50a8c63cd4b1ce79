use alloy_consensus::{SignableTransaction, TxEnvelope, TxLegacy};
use alloy_eips::eip2718::Encodable2718;
use alloy_primitives::{Address, Signature, TxKind, U256};
use k256::ecdsa::SigningKey;
use rpc_ext::enrich::{BlockRecord, BlockTransactions, ReceiptRecord, TraceRecord, TxRecord};
use rpc_ext::error::{BlockNumberOrTag, TraceApiError};
use rpc_ext::ext::EthBlockReceiptsTraceExt;
use rpc_ext::rewards::{ChainForks, EthApi, RewardBlock, RewardHeader, RewardKind};
use rpc_ext::session::{settle_fetches, Action, Event, Fetched, ReceiptsTraceRequest};

type Request = ReceiptsTraceRequest<&'static str, u32, u32, u32>;

const ETH: u128 = 1_000_000_000_000_000_000;

fn api() -> EthApi {
    EthApi::new(ChainForks { byzantium: Some(4_370_000), constantinople: Some(7_280_000), paris: Some(15_537_394) })
}

fn tx(key_byte: u8, nonce: u64, body: u32) -> TxRecord<u32> {
    let key = SigningKey::from_slice(&[key_byte; 32]).unwrap();
    let tx = TxLegacy {
        chain_id: Some(1),
        nonce,
        gas_price: 1_000_000_000,
        gas_limit: 21_000,
        to: TxKind::Call(Address::repeat_byte(0x11)),
        value: U256::from(5u64),
        input: Default::default(),
    };
    let (sig, recid) = key.sign_prehash_recoverable(tx.signature_hash().as_slice()).unwrap();
    let envelope = TxEnvelope::Legacy(tx.into_signed(Signature::from((sig, recid))));
    TxRecord {
        hash: envelope.tx_hash().0,
        from: Address::from_private_key(&key).0 .0,
        envelope: envelope.encoded_2718(),
        body,
    }
}

fn fetched_for(txs: &[TxRecord<u32>]) -> (Fetched<Vec<TraceRecord<u32>>>, Fetched<Vec<ReceiptRecord<u32>>>) {
    let traces = txs.iter().map(|t| TraceRecord { transaction_hash: t.hash, full_trace: t.body + 200 }).collect();
    let receipts = txs.iter().map(|t| ReceiptRecord { transaction_hash: t.hash, body: t.body + 100 }).collect();
    (Fetched::Done(Some(traces)), Fetched::Done(Some(receipts)))
}

fn respond_error(action: Action<&'static str, u32, u32, u32>) -> TraceApiError {
    match action {
        Action::Respond(Err(e)) => e,
        _ => panic!("expected an error response"),
    }
}

#[test]
fn request_runs_to_an_enriched_block() {
    let number = BlockNumberOrTag::Number(1_000_000);
    let (request, action): (Request, _) = ReceiptsTraceRequest::start(number, api());
    assert!(matches!(action, Action::FetchTracesAndReceipts(BlockNumberOrTag::Number(1_000_000))));
    assert!(!request.is_finished());

    let txs = vec![tx(0x46, 0, 1), tx(0x47, 0, 2)];
    let (traces, receipts) = fetched_for(&txs);
    let (request, action) = request.advance(Event::TracesAndReceipts { traces, receipts });
    assert!(matches!(action, Action::FetchBlock(BlockNumberOrTag::Number(1_000_000))));

    let block = BlockRecord { number: 1_000_000, head: "header", transactions: BlockTransactions::Full(txs) };
    let (request, action) = request.advance(Event::Block(Ok(Some(block))));
    assert!(matches!(action, Action::FetchRewardBlock(1_000_000)));

    let reward_block = RewardBlock {
        header: RewardHeader { number: 1_000_000, beneficiary: [0xaa; 20] },
        hash: [0xbb; 32],
        ommers: Some(vec![RewardHeader { number: 999_999, beneficiary: [0xcc; 20] }]),
    };
    let (request, action) = request.advance(Event::RewardBlock(Some(reward_block)));
    assert!(request.is_finished());
    let served = match action {
        Action::Respond(Ok(Some(served))) => served,
        _ => panic!("expected a served block"),
    };
    assert_eq!(served.head, "header");
    assert_eq!(served.transactions.len(), 2);
    assert_eq!(served.transactions[0].inner, 1);
    assert_eq!(served.transactions[0].receipts, 101);
    assert_eq!(served.transactions[1].trace, 202);
    assert_eq!(served.rewards.len(), 2);
    assert_eq!(served.rewards[0].reward_type, RewardKind::Block);
    assert_eq!(served.rewards[0].value, 5 * ETH + 5 * ETH / 32);
    assert_eq!(served.rewards[1].reward_type, RewardKind::Uncle);
    assert_eq!(served.rewards[1].value, 7 * 5 * ETH / 8);
}

#[test]
fn post_merge_block_is_served_without_rewards() {
    let number = BlockNumberOrTag::Number(20_000_000);
    let (request, _): (Request, _) = ReceiptsTraceRequest::start(number, api());
    let (traces, receipts) = fetched_for(&[]);
    let (request, _) = request.advance(Event::TracesAndReceipts { traces, receipts });
    let block = BlockRecord { number: 20_000_000, head: "h", transactions: BlockTransactions::Full(vec![]) };
    let (request, action) = request.advance(Event::Block(Ok(Some(block))));
    assert!(matches!(action, Action::FetchRewardBlock(20_000_000)));
    let reward_block = RewardBlock {
        header: RewardHeader { number: 20_000_000, beneficiary: [1; 20] },
        hash: [2; 32],
        ommers: Some(vec![]),
    };
    let (_, action) = request.advance(Event::RewardBlock(Some(reward_block)));
    match action {
        Action::Respond(Ok(Some(served))) => {
            assert!(served.transactions.is_empty());
            assert!(served.rewards.is_empty());
        },
        _ => panic!("expected a served block"),
    }
}

#[test]
fn missing_reward_block_gives_no_rewards() {
    let number = BlockNumberOrTag::Number(10);
    let (request, _): (Request, _) = ReceiptsTraceRequest::start(number, api());
    let (traces, receipts) = fetched_for(&[]);
    let (request, _) = request.advance(Event::TracesAndReceipts { traces, receipts });
    let block = BlockRecord { number: 10, head: "h", transactions: BlockTransactions::Full(vec![]) };
    let (request, _) = request.advance(Event::Block(Ok(Some(block))));
    let (_, action) = request.advance(Event::RewardBlock(None));
    match action {
        Action::Respond(Ok(Some(served))) => assert!(served.rewards.is_empty()),
        _ => panic!("expected a served block"),
    }
}

#[test]
fn join_failures_come_before_fetch_errors() {
    let n = BlockNumberOrTag::Latest;
    let r: Result<_, _> = settle_fetches::<u32, u32>(n, Fetched::Failed("t".into()), Fetched::JoinFailed("j".into()));
    let e = r.err().unwrap();
    assert!(matches!(e, TraceApiError::ReceiptsJoin { .. }));
    assert_eq!(e.message(), "Error in transaction receipts for block number latest: j");

    let e = settle_fetches::<u32, u32>(n, Fetched::JoinFailed("a".into()), Fetched::JoinFailed("b".into())).err().unwrap();
    assert_eq!(e.message(), "Error in traces join handle for block number latest: a");

    let e = settle_fetches::<u32, u32>(n, Fetched::Done(None), Fetched::Failed("x".into())).err().unwrap();
    assert!(matches!(e, TraceApiError::TracesMissing { .. }));

    let e = settle_fetches::<u32, u32>(n, Fetched::Done(Some(vec![])), Fetched::Failed("x".into())).err().unwrap();
    assert!(matches!(e, TraceApiError::ReceiptsFetch { .. }));
    assert_eq!(e.code(), 2);

    let e = settle_fetches::<u32, u32>(n, Fetched::Done(Some(vec![])), Fetched::Done(None)).err().unwrap();
    assert!(matches!(e, TraceApiError::ReceiptsMissing { .. }));
    assert_eq!(e.code(), 2);

    let e = settle_fetches::<u32, u32>(n, Fetched::Failed("t".into()), Fetched::Done(None)).err().unwrap();
    assert_eq!(e.message(), "Error getting block traces result t for blocklatest");
}

#[test]
fn fetch_errors_end_the_request() {
    let number = BlockNumberOrTag::Number(5);
    let (request, _): (Request, _) = ReceiptsTraceRequest::start(number, api());
    let (request, action) = request.advance(Event::TracesAndReceipts {
        traces: Fetched::Failed("no state".into()),
        receipts: Fetched::Done(Some(vec![])),
    });
    assert!(request.is_finished());
    let e = respond_error(action);
    assert_eq!(e.message(), "Error getting block traces result no state for block0x5");

    let (request, _): (Request, _) = ReceiptsTraceRequest::start(number, api());
    let (traces, receipts) = fetched_for(&[]);
    let (request, _) = request.advance(Event::TracesAndReceipts { traces, receipts });
    let (request, action) = request.advance(Event::Block(Err("unknown block".into())));
    assert!(request.is_finished());
    let e = respond_error(action);
    assert_eq!(e.code(), 1);
    assert_eq!(e.message(), "unknown block");
}

#[test]
fn refused_block_ends_the_request() {
    let number = BlockNumberOrTag::Number(5);
    let (request, _): (Request, _) = ReceiptsTraceRequest::start(number, api());
    let txs = vec![tx(0x46, 0, 1)];
    let (traces, _) = fetched_for(&txs);
    let (request, _) = request.advance(Event::TracesAndReceipts { traces, receipts: Fetched::Done(Some(vec![])) });
    let block = BlockRecord { number: 5, head: "h", transactions: BlockTransactions::Full(txs) };
    let (request, action) = request.advance(Event::Block(Ok(Some(block))));
    assert!(request.is_finished());
    let e = respond_error(action);
    assert!(matches!(e, TraceApiError::ReceiptCountMismatch));
}

#[test]
fn extension_wraps_its_api() {
    let ext = EthBlockReceiptsTraceExt::new(api());
    assert_eq!(ext.eth_api().forks.paris, Some(15_537_394));
}

#[test]
fn tag_request_is_served_with_the_blocks_own_number() {
    for tag in [BlockNumberOrTag::Latest, BlockNumberOrTag::Safe, BlockNumberOrTag::Finalized, BlockNumberOrTag::Earliest] {
        let (request, action): (Request, _) = ReceiptsTraceRequest::start(tag, api());
        assert!(matches!(action, Action::FetchTracesAndReceipts(t) if t == tag));
        let txs = vec![tx(0x46, 0, 1)];
        let (traces, receipts) = fetched_for(&txs);
        let (request, action) = request.advance(Event::TracesAndReceipts { traces, receipts });
        assert!(matches!(action, Action::FetchBlock(t) if t == tag));
        let block = BlockRecord { number: 3_000_000, head: "h", transactions: BlockTransactions::Full(txs) };
        let (request, action) = request.advance(Event::Block(Ok(Some(block))));
        assert!(matches!(action, Action::FetchRewardBlock(3_000_000)));
        let reward_block = RewardBlock {
            header: RewardHeader { number: 3_000_000, beneficiary: [0xaa; 20] },
            hash: [0xbb; 32],
            ommers: Some(vec![]),
        };
        let (_, action) = request.advance(Event::RewardBlock(Some(reward_block)));
        match action {
            Action::Respond(Ok(Some(served))) => {
                assert_eq!(served.transactions.len(), 1);
                assert_eq!(served.transactions[0].public_key.len(), 68);
                assert_eq!(served.rewards.len(), 1);
                assert_eq!(served.rewards[0].value, 5 * ETH);
            },
            _ => panic!("expected a served block"),
        }
    }
}
