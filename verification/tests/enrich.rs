use alloy_consensus::{SignableTransaction, TxEnvelope, TxLegacy};
use alloy_eips::eip2718::Encodable2718;
use alloy_primitives::{Address, Signature, TxKind, U256};
use k256::ecdsa::SigningKey;
use rpc_ext::enrich::{
    authenticate_transaction, settle_signer, enrich_block, enrich_transactions, BlockRecord, BlockTransactions, ReceiptRecord,
    TraceRecord, TxRecord,
};
use rpc_ext::error::TraceApiError;

/// A signed legacy transaction: its encoding, hash, sender and the expected
/// public key text.
fn signed_tx(key_byte: u8, nonce: u64) -> (Vec<u8>, [u8; 32], [u8; 20], String) {
    let key = SigningKey::from_slice(&[key_byte; 32]).unwrap();
    let tx = TxLegacy {
        chain_id: Some(1),
        nonce,
        gas_price: 20_000_000_000,
        gas_limit: 21_000,
        to: TxKind::Call(Address::repeat_byte(0x35)),
        value: U256::from(1_000_000_000_000_000_000u128),
        input: Default::default(),
    };
    let prehash = tx.signature_hash();
    let (sig, recid) = key.sign_prehash_recoverable(prehash.as_slice()).unwrap();
    let envelope = TxEnvelope::Legacy(tx.into_signed(Signature::from((sig, recid))));
    let raw = envelope.encoded_2718();
    let hash = *envelope.tx_hash();
    let from = Address::from_private_key(&key);
    let public_key = format!("0x{}", alloy_primitives::hex::encode(key.verifying_key().to_encoded_point(true).as_bytes()));
    (raw, hash.0, from.0 .0, public_key)
}

fn record(key_byte: u8, nonce: u64, body: u32) -> (TxRecord<u32>, String) {
    let (envelope, hash, from, public_key) = signed_tx(key_byte, nonce);
    (TxRecord { hash, from, envelope, body }, public_key)
}

#[test]
fn authentic_transaction_gets_its_signers_compressed_key() {
    let (tx, public_key) = record(0x46, 9, 0);
    let key = authenticate_transaction(&tx, &tx.hash, &tx.hash).unwrap();
    assert_eq!(key, public_key);
    assert_eq!(key.len(), 68);
    assert!(key.starts_with("0x02") || key.starts_with("0x03"));
}

#[test]
fn receipt_of_another_transaction_is_refused() {
    let (tx, _) = record(0x46, 9, 0);
    let mut other = tx.hash;
    other[0] ^= 1;
    let e = authenticate_transaction(&tx, &other, &tx.hash).unwrap_err();
    assert!(matches!(e, TraceApiError::HashMismatch { tx_hash } if tx_hash == tx.hash));
    assert_eq!(e.code(), 2);
    let e = authenticate_transaction(&tx, &tx.hash, &other).unwrap_err();
    assert!(matches!(e, TraceApiError::HashMismatch { .. }));
}

#[test]
fn wrong_sender_is_refused() {
    let (mut tx, _) = record(0x46, 9, 0);
    tx.from = [0x77; 20];
    let e = authenticate_transaction(&tx, &tx.hash, &tx.hash).unwrap_err();
    assert!(matches!(e, TraceApiError::AddressMismatch { tx_hash } if tx_hash == tx.hash));
    assert_eq!(e.code(), 1);
}

#[test]
fn undecodable_transaction_has_no_signature() {
    let (mut tx, _) = record(0x46, 9, 0);
    tx.envelope = vec![0x02, 0x01, 0x02];
    let e = authenticate_transaction(&tx, &tx.hash, &tx.hash).unwrap_err();
    assert!(matches!(e, TraceApiError::SignatureNotExtracted { .. }));
    assert_eq!(e.code(), 1);
}

#[test]
fn unrecoverable_signature_is_refused() {
    let tx = TxLegacy {
        chain_id: Some(1),
        nonce: 2,
        gas_price: 1,
        gas_limit: 21_000,
        to: TxKind::Call(Address::repeat_byte(0x35)),
        value: U256::ZERO,
        input: Default::default(),
    };
    // r = 0 is no valid signature.
    let signature = Signature::new(U256::ZERO, U256::from(1u64), false);
    let envelope = TxEnvelope::Legacy(tx.into_signed(signature));
    let hash = envelope.tx_hash().0;
    let rec = TxRecord { hash, from: [0; 20], envelope: envelope.encoded_2718(), body: 0u32 };
    let e = authenticate_transaction(&rec, &hash, &hash).unwrap_err();
    assert!(matches!(e, TraceApiError::PublicKeyNotRecovered { .. }));
    assert!(e.message().starts_with("Public key not extracted from message and signature, error: "));
}

fn receipts_and_traces(txs: &[TxRecord<u32>]) -> (Vec<ReceiptRecord<u32>>, Vec<TraceRecord<u32>>) {
    let receipts = txs.iter().map(|t| ReceiptRecord { transaction_hash: t.hash, body: t.body + 100 }).collect();
    let traces = txs.iter().map(|t| TraceRecord { transaction_hash: t.hash, full_trace: t.body + 200 }).collect();
    (receipts, traces)
}

#[test]
fn transactions_are_served_in_order_with_their_receipts_and_traces() {
    let (a, ka) = record(0x46, 1, 1);
    let (b, kb) = record(0x47, 2, 2);
    let (c, kc) = record(0x48, 3, 3);
    let txs = vec![a, b, c];
    let (receipts, traces) = receipts_and_traces(&txs);
    let out = enrich_transactions(txs, receipts, traces).unwrap();
    assert_eq!(out.len(), 3);
    let expected = [(1, ka), (2, kb), (3, kc)];
    for (served, (body, key)) in out.iter().zip(expected) {
        assert_eq!(served.inner, body);
        assert_eq!(served.receipts, body + 100);
        assert_eq!(served.trace, body + 200);
        assert_eq!(served.public_key, key);
    }
}

#[test]
fn first_failing_transaction_names_the_error() {
    let (a, _) = record(0x46, 1, 1);
    let (mut b, _) = record(0x47, 2, 2);
    let (mut c, _) = record(0x48, 3, 3);
    b.from = [1; 20];
    c.envelope = vec![];
    let b_hash = b.hash;
    let txs = vec![a, b, c];
    let (receipts, traces) = receipts_and_traces(&txs);
    let e = enrich_transactions(txs, receipts, traces).err().unwrap();
    assert!(matches!(e, TraceApiError::AddressMismatch { tx_hash } if tx_hash == b_hash));
}

#[test]
fn block_counts_are_checked_first() {
    let (a, _) = record(0x46, 1, 1);
    let (b, _) = record(0x47, 2, 2);
    let txs = vec![a, b];
    let (mut receipts, traces) = receipts_and_traces(&txs);
    receipts.pop();
    let block = BlockRecord { number: 7, head: "head", transactions: BlockTransactions::Full(txs) };
    let e = enrich_block(block, receipts, traces).err().unwrap();
    assert!(matches!(e, TraceApiError::ReceiptCountMismatch));

    let (a, _) = record(0x46, 1, 1);
    let txs = vec![a];
    let (receipts, mut traces) = receipts_and_traces(&txs);
    traces.push(TraceRecord { transaction_hash: [0; 32], full_trace: 0 });
    let block = BlockRecord { number: 7, head: "head", transactions: BlockTransactions::Full(txs) };
    let e = enrich_block(block, receipts, traces).err().unwrap();
    assert!(matches!(e, TraceApiError::TraceCountMismatch));
}

#[test]
fn block_listing_hashes_serves_no_transactions() {
    let block: BlockRecord<&str, u32> = BlockRecord { number: 7, head: "head", transactions: BlockTransactions::Hashes(vec![[1; 32]]) };
    let receipts = vec![ReceiptRecord { transaction_hash: [1; 32], body: 0u32 }];
    let traces = vec![TraceRecord { transaction_hash: [1; 32], full_trace: 0u32 }];
    let (head, out) = enrich_block(block, receipts, traces).ok().unwrap();
    assert_eq!(head, "head");
    assert!(out.is_empty());

    let uncle: BlockRecord<&str, u32> = BlockRecord { number: 7, head: "uncle", transactions: BlockTransactions::Uncle };
    let (head, out) = enrich_block::<&str, u32, u32, u32>(uncle, vec![], vec![]).ok().unwrap();
    assert_eq!(head, "uncle");
    assert!(out.is_empty());
}

#[test]
fn full_block_is_enriched() {
    let (a, ka) = record(0x46, 1, 1);
    let txs = vec![a];
    let (receipts, traces) = receipts_and_traces(&txs);
    let block = BlockRecord { number: 7, head: 42u8, transactions: BlockTransactions::Full(txs) };
    let (head, out) = enrich_block(block, receipts, traces).ok().unwrap();
    assert_eq!(head, 42);
    assert_eq!(out.len(), 1);
    assert_eq!(out[0].public_key, ka);
}

#[test]
fn settle_signer_decides_on_given_recovery_outcomes() {
    let hash = [0x0f; 32];
    let from = [0x22; 20];
    let key = vec![0x02, 0xab, 0x00];
    let served = settle_signer(&hash, &from, Ok((key.clone(), Some(from)))).unwrap();
    assert_eq!(served, "0x02ab00");

    let e = settle_signer(&hash, &from, Ok((key.clone(), Some([0x23; 20])))).unwrap_err();
    assert!(matches!(e, TraceApiError::AddressMismatch { tx_hash } if tx_hash == hash));

    let e = settle_signer(&hash, &from, Ok((key, None))).unwrap_err();
    assert!(matches!(e, TraceApiError::AddressMismatch { .. }));

    let e = settle_signer(&hash, &from, Err("signature error".to_string())).unwrap_err();
    assert_eq!(
        e.message(),
        format!("Public key not extracted from message and signature, error: signature error, transaction hash: 0x{}", "0f".repeat(32))
    );

    let served = settle_signer(&hash, &from, Ok((vec![], Some(from)))).unwrap();
    assert_eq!(served, "0x");
}
