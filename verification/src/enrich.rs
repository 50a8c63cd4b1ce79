//! Authentication of a block's transactions against their receipts, traces
//! and signatures, and their enrichment with the signers' public keys.

use vstd::prelude::*;
use crate::error::{TraceApiError, TraceApiErrorView};
use crate::hex::{prefixed_hex, prefixed_hex_of};
use crate::rewards::RewardTrace;
use crate::signer::{address_of_key, decode_signing_parts, key_address, recover_signer_key, recovered_key, signing_parts};

verus! {

/// A block transaction as the authentication reads it, with the full
/// transaction carried along in `body`.
pub struct TxRecord<T> {
    /// The transaction hash.
    pub hash: [u8; 32],
    /// The sender's address.
    pub from: [u8; 20],
    /// The EIP-2718 encoding of the signed transaction.
    pub envelope: Vec<u8>,
    pub body: T,
}

/// A transaction receipt, with the hash of its transaction.
pub struct ReceiptRecord<R> {
    pub transaction_hash: [u8; 32],
    pub body: R,
}

/// A transaction's trace results, with the hash of its transaction.
pub struct TraceRecord<X> {
    pub transaction_hash: [u8; 32],
    pub full_trace: X,
}

/// The transactions of a block: in full, as hashes, or none (an uncle block).
pub enum BlockTransactions<T> {
    Full(Vec<TxRecord<T>>),
    Hashes(Vec<[u8; 32]>),
    Uncle,
}

impl<T> BlockTransactions<T> {
    /// The number of transactions the block lists.
    pub open spec fn spec_len(&self) -> nat {
        match self {
            BlockTransactions::Full(txs) => txs.len() as nat,
            BlockTransactions::Hashes(hashes) => hashes.len() as nat,
            BlockTransactions::Uncle => 0,
        }
    }

    /// The number of transactions the block lists.
    pub fn len(&self) -> (n: usize)
        ensures
            n == self.spec_len(),
    {
        match self {
            BlockTransactions::Full(txs) => txs.len(),
            BlockTransactions::Hashes(hashes) => hashes.len(),
            BlockTransactions::Uncle => 0,
        }
    }
}

/// A fetched block: its number, its header, uncles and withdrawals in
/// `head`, carried along unchanged, and its transactions.
pub struct BlockRecord<H, T> {
    /// The block's own number, as its header gives it.
    pub number: u64,
    pub head: H,
    pub transactions: BlockTransactions<T>,
}

/// A transaction served with its signer's public key, its receipt and its
/// trace results.
pub struct EnrichedTransaction<T, R, X> {
    pub inner: T,
    /// The compressed public key as `0x` and lowercase hexadecimal digits.
    pub public_key: String,
    pub receipts: R,
    pub trace: X,
}

/// A block served with its enriched transactions and its reward traces.
pub struct EnrichedBlock<H, T, R, X> {
    pub head: H,
    pub transactions: Vec<EnrichedTransaction<T, R, X>>,
    pub rewards: Vec<RewardTrace>,
}

/// The public key text served for a recovered key: `0x` and its digits, or
/// `0x0` where that text would be empty.
pub open spec fn public_key_text(key: Seq<u8>) -> Seq<char> {
    let text = prefixed_hex_of(key);
    if text.len() == 0 {
        seq!['0', 'x', '0']
    } else {
        text
    }
}

/// The text of a compressed secp256k1 key: `0x`, then `02` or `03`, then the
/// 64 digits of the `x` coordinate; 68 characters in all.
pub open spec fn is_compressed_key_text(text: Seq<char>) -> bool {
    &&& text.len() == 68
    &&& text[0] == '0'
    &&& text[1] == 'x'
    &&& text[2] == '0'
    &&& (text[3] == '2' || text[3] == '3')
}

/// The outcome for a transaction once its signature has been through key
/// recovery: the recovery's error, or the recovered key with the address that
/// it belongs to (none where the key has none). The transaction is served
/// with the key's text when that address is the sender's.
pub open spec fn signer_verdict(
    tx_hash: Seq<u8>,
    from: Seq<u8>,
    recovered: Result<(Seq<u8>, Option<Seq<u8>>), Seq<char>>,
) -> Result<Seq<char>, TraceApiErrorView> {
    match recovered {
        Err(reason) => Err(TraceApiErrorView::PublicKeyNotRecovered { reason, tx_hash }),
        Ok((key, address)) => if address != Some(from) {
            Err(TraceApiErrorView::AddressMismatch { tx_hash })
        } else {
            Ok(public_key_text(key))
        },
    }
}

/// A recovery outcome with its parts taken as sequences.
pub open spec fn recovery_view(recovered: Result<(Vec<u8>, Option<[u8; 20]>), String>)
    -> Result<(Seq<u8>, Option<Seq<u8>>), Seq<char>>
{
    match recovered {
        Err(reason) => Err(reason@),
        Ok((key, address)) => Ok((key@, match address {
            Some(a) => Some(a@),
            None => None,
        })),
    }
}

/// The outcome for one transaction with the hashes that its receipt and its
/// trace name: the public key text served for it, or the first check that
/// fails, in this order: both hashes match, the signature can be taken from
/// the transaction, a key can be recovered from it, and the key's address is
/// the sender's.
pub open spec fn tx_verdict<T>(tx: TxRecord<T>, receipt_hash: Seq<u8>, trace_hash: Seq<u8>)
    -> Result<Seq<char>, TraceApiErrorView>
{
    if tx.hash@ != receipt_hash || tx.hash@ != trace_hash {
        Err(TraceApiErrorView::HashMismatch { tx_hash: tx.hash@ })
    } else {
        match signing_parts(tx.envelope@) {
            None => Err(TraceApiErrorView::SignatureNotExtracted { tx_hash: tx.hash@ }),
            Some((prehash, signature)) => signer_verdict(tx.hash@, tx.from@,
                match recovered_key(signature, prehash) {
                    Err(reason) => Err(reason),
                    Ok(key) => Ok((key, key_address(key))),
                }),
        }
    }
}

/// The outcome of the `k`-th transaction with the `k`-th receipt and trace.
pub open spec fn verdict_at<T, R, X>(
    txs: Seq<TxRecord<T>>,
    receipts: Seq<ReceiptRecord<R>>,
    traces: Seq<TraceRecord<X>>,
    k: int,
) -> Result<Seq<char>, TraceApiErrorView> {
    tx_verdict(txs[k], receipts[k].transaction_hash@, traces[k].transaction_hash@)
}

/// The outcome of the first `n` transactions, taken in order: the public
/// key texts of all of them, or the error of the first that fails.
pub open spec fn verdicts_upto<T, R, X>(
    txs: Seq<TxRecord<T>>,
    receipts: Seq<ReceiptRecord<R>>,
    traces: Seq<TraceRecord<X>>,
    n: nat,
) -> Result<Seq<Seq<char>>, TraceApiErrorView>
    decreases n,
{
    if n == 0 {
        Ok(Seq::empty())
    } else {
        match verdicts_upto(txs, receipts, traces, (n - 1) as nat) {
            Err(e) => Err(e),
            Ok(keys) => match verdict_at(txs, receipts, traces, n - 1) {
                Err(e) => Err(e),
                Ok(key) => Ok(keys.push(key)),
            },
        }
    }
}

/// The outcome of a whole block: the receipt count and then the trace count
/// must equal the transaction count; a block with full transactions then
/// takes the outcome of its transactions, any other serves none.
pub open spec fn block_verdict<T, R, X>(
    txs: BlockTransactions<T>,
    receipts: Seq<ReceiptRecord<R>>,
    traces: Seq<TraceRecord<X>>,
) -> Result<Seq<Seq<char>>, TraceApiErrorView> {
    if receipts.len() != txs.spec_len() {
        Err(TraceApiErrorView::ReceiptCountMismatch)
    } else if traces.len() != txs.spec_len() {
        Err(TraceApiErrorView::TraceCountMismatch)
    } else {
        match txs {
            BlockTransactions::Full(v) => verdicts_upto(v@, receipts, traces, v.len() as nat),
            _ => Ok(Seq::empty()),
        }
    }
}

/// Whether two byte strings of one length are equal.
fn same_bytes(a: &[u8], b: &[u8]) -> (r: bool)
    requires
        a@.len() == b@.len(),
    ensures
        r == (a@ == b@),
{
    let n = a.len();
    for i in 0..n
        invariant
            n == a@.len(),
            a@.len() == b@.len(),
            forall|j: int| 0 <= j < i ==> a@[j] == b@[j],
    {
        if a[i] != b[i] {
            return false;
        }
    }
    assert(a@ =~= b@);
    true
}

/// Checks one transaction against the transaction hashes that its receipt
/// and its trace name, and recovers its signer's public key.
pub fn authenticate_transaction<T>(tx: &TxRecord<T>, receipt_hash: &[u8; 32], trace_hash: &[u8; 32])
    -> (r: Result<String, TraceApiError>)
    ensures
        match r {
            Ok(key) => tx_verdict(*tx, receipt_hash@, trace_hash@) == Ok::<Seq<char>, TraceApiErrorView>(key@),
            Err(e) => tx_verdict(*tx, receipt_hash@, trace_hash@) == Err::<Seq<char>, TraceApiErrorView>(e@),
        },
        r matches Ok(key) ==> is_compressed_key_text(key@),
        r is Ok <==> passes_checks(*tx, receipt_hash@, trace_hash@),
        r matches Ok(key) ==> key@ == prefixed_hex_of(signer_key_of(*tx)->Some_0),
{
    proof {
        lemma_authentication_complete(*tx, receipt_hash@, trace_hash@);
    }
    if !same_bytes(tx.hash.as_slice(), receipt_hash.as_slice())
        || !same_bytes(tx.hash.as_slice(), trace_hash.as_slice()) {
        return Err(TraceApiError::HashMismatch { tx_hash: tx.hash });
    }
    let parts = decode_signing_parts(tx.envelope.as_slice());
    let (prehash, signature) = match parts {
        Some(p) => p,
        None => {
            return Err(TraceApiError::SignatureNotExtracted { tx_hash: tx.hash });
        },
    };
    match recover_signer_key(&signature, &prehash) {
        Ok(key) => {
            let address = address_of_key(key.as_slice());
            let ghost k = key@;
            let r = settle_signer(&tx.hash, &tx.from, Ok((key, address)));
            proof {
                if r is Ok {
                    lemma_public_key_text_of_compressed_key(k);
                }
            }
            r
        },
        Err(reason) => settle_signer(&tx.hash, &tx.from, Err(reason)),
    }
}

/// Decides a transaction once its signature has been through key recovery:
/// a recovery error refuses it, a key whose address is not the sender's
/// refuses it, else it is served with the key as `0x` and lowercase digits
/// (`0x0` where that text would be empty).
pub fn settle_signer(
    tx_hash: &[u8; 32],
    from: &[u8; 20],
    recovered: Result<(Vec<u8>, Option<[u8; 20]>), String>,
) -> (r: Result<String, TraceApiError>)
    ensures
        match r {
            Ok(key) => signer_verdict(tx_hash@, from@, recovery_view(recovered))
                == Ok::<Seq<char>, TraceApiErrorView>(key@),
            Err(e) => signer_verdict(tx_hash@, from@, recovery_view(recovered))
                == Err::<Seq<char>, TraceApiErrorView>(e@),
        },
        recovered matches Ok((key, Some(address))) ==> (address@ == from@ ==> (r matches Ok(text)
            && text@ == prefixed_hex_of(key@))),
        r matches Err(TraceApiError::AddressMismatch { tx_hash: h }) ==> {
            &&& h == *tx_hash
            &&& recovered matches Ok((key, address))
            &&& !(address matches Some(a) && a@ == from@)
        },
{
    proof {
        let v = recovery_view(recovered);
        match v {
            Ok((k, a)) => {
                lemma_signer_decided_by_address(tx_hash@, from@, k, a, Seq::empty());
            },
            Err(reason) => {
                lemma_signer_decided_by_address(tx_hash@, from@, Seq::empty(), None, reason);
            },
        }
    }
    let (key, check_address) = match recovered {
        Ok(found) => found,
        Err(reason) => {
            return Err(TraceApiError::PublicKeyNotRecovered { reason, tx_hash: *tx_hash });
        },
    };
    let public_key = prefixed_hex(key.as_slice());
    let matches_sender = match check_address {
        Some(address) => same_bytes(address.as_slice(), from.as_slice()),
        None => false,
    };
    if !matches_sender {
        return Err(TraceApiError::AddressMismatch { tx_hash: *tx_hash });
    }
    if public_key.as_str().is_empty() {
        let mut fallback = String::new();
        fallback.append("0x0");
        proof {
            reveal_strlit("0x0");
        }
        assert(fallback@ =~= seq!['0', 'x', '0']);
        return Ok(fallback);
    }
    Ok(public_key)
}

/// The elements of a vector in the opposite order.
fn reversed<A>(v: Vec<A>) -> (r: Vec<A>)
    ensures
        r.len() == v.len(),
        forall|j: int| 0 <= j < v.len() ==> r@[j] == v@[v.len() - 1 - j],
{
    let ghost orig = v@;
    let mut v = v;
    let mut r: Vec<A> = Vec::new();
    while v.len() > 0
        invariant
            v.len() + r.len() == orig.len(),
            forall|j: int| 0 <= j < v.len() ==> v@[j] == orig[j],
            forall|j: int| 0 <= j < r.len() ==> r@[j] == orig[orig.len() - 1 - j],
        decreases v.len(),
    {
        let x = v.pop().unwrap();
        r.push(x);
    }
    r
}

/// Once the first `n` outcomes are all public keys, there are `n` of them.
proof fn lemma_verdicts_len<T, R, X>(
    txs: Seq<TxRecord<T>>,
    receipts: Seq<ReceiptRecord<R>>,
    traces: Seq<TraceRecord<X>>,
    n: nat,
)
    ensures
        verdicts_upto(txs, receipts, traces, n) matches Ok(keys) ==> keys.len() == n,
    decreases n,
{
    if n > 0 {
        lemma_verdicts_len(txs, receipts, traces, (n - 1) as nat);
    }
}

/// Authenticates the transactions of a block, each against the receipt and
/// the trace at its position, and serves them with their signers' public
/// keys; the first transaction that fails a check ends it with its error.
#[verifier::loop_isolation(false)]
pub fn enrich_transactions<T, R, X>(
    txs: Vec<TxRecord<T>>,
    receipts: Vec<ReceiptRecord<R>>,
    traces: Vec<TraceRecord<X>>,
) -> (r: Result<Vec<EnrichedTransaction<T, R, X>>, TraceApiError>)
    requires
        receipts.len() == txs.len(),
        traces.len() == txs.len(),
    ensures
        r matches Ok(out) ==> {
            &&& verdicts_upto(txs@, receipts@, traces@, txs.len() as nat) matches Ok(keys)
            &&& out.len() == txs.len()
            &&& forall|k: int| 0 <= k < txs.len() ==> {
                &&& (#[trigger] out@[k]).inner == txs@[k].body
                &&& out@[k].receipts == receipts@[k].body
                &&& out@[k].trace == traces@[k].full_trace
                &&& out@[k].public_key@ == keys[k]
                &&& is_compressed_key_text(out@[k].public_key@)
            }
        },
        r matches Err(e) ==> verdicts_upto(txs@, receipts@, traces@, txs.len() as nat)
            == Err::<Seq<Seq<char>>, TraceApiErrorView>(e@),
        (forall|k: int| 0 <= k < txs.len() ==> passes_checks(#[trigger] txs@[k], receipts@[k].transaction_hash@,
            traces@[k].transaction_hash@)) ==> {
            &&& r matches Ok(out)
            &&& forall|k: int| 0 <= k < txs.len()
                ==> (#[trigger] out@[k]).public_key@ == prefixed_hex_of(signer_key_of(txs@[k])->Some_0)
        },
{
    proof {
        if forall|k: int| 0 <= k < txs.len() ==> passes_checks(#[trigger] txs@[k], receipts@[k].transaction_hash@,
            traces@[k].transaction_hash@) {
            lemma_authentic_transactions_all_served(txs@, receipts@, traces@, txs.len() as nat);
        }
    }
    let n = txs.len();
    let ghost t0 = txs@;
    let ghost r0 = receipts@;
    let ghost x0 = traces@;
    let mut rtx = reversed(txs);
    let mut rrc = reversed(receipts);
    let mut rtr = reversed(traces);
    let mut out: Vec<EnrichedTransaction<T, R, X>> = Vec::new();
    let ghost mut keys: Seq<Seq<char>> = Seq::empty();
    for i in 0..n
        invariant
            n == t0.len(),
            n == r0.len(),
            n == x0.len(),
            rtx.len() == n - i,
            rrc.len() == n - i,
            rtr.len() == n - i,
            forall|j: int| 0 <= j < n - i ==> rtx@[j] == t0[n - 1 - j],
            forall|j: int| 0 <= j < n - i ==> rrc@[j] == r0[n - 1 - j],
            forall|j: int| 0 <= j < n - i ==> rtr@[j] == x0[n - 1 - j],
            verdicts_upto(t0, r0, x0, i as nat) == Ok::<Seq<Seq<char>>, TraceApiErrorView>(keys),
            keys.len() == i,
            out.len() == i,
            forall|k: int| 0 <= k < i ==> {
                &&& (#[trigger] out@[k]).inner == t0[k].body
                &&& out@[k].receipts == r0[k].body
                &&& out@[k].trace == x0[k].full_trace
                &&& out@[k].public_key@ == keys[k]
                &&& is_compressed_key_text(out@[k].public_key@)
            },
    {
        let tx = rtx.pop().unwrap();
        let receipt = rrc.pop().unwrap();
        let trace = rtr.pop().unwrap();
        assert(tx == t0[i as int]);
        assert(receipt == r0[i as int]);
        assert(trace == x0[i as int]);
        match authenticate_transaction(&tx, &receipt.transaction_hash, &trace.transaction_hash) {
            Err(e) => {
                proof {
                    assert(verdict_at(t0, r0, x0, i as int) == Err::<Seq<char>, TraceApiErrorView>(e@));
                    assert(verdicts_upto(t0, r0, x0, (i + 1) as nat)
                        == Err::<Seq<Seq<char>>, TraceApiErrorView>(e@));
                    lemma_verdicts_stay_failed(t0, r0, x0, (i + 1) as nat, n as nat);
                }
                return Err(e);
            },
            Ok(public_key) => {
                proof {
                    keys = keys.push(public_key@);
                }
                out.push(EnrichedTransaction {
                    inner: tx.body,
                    public_key,
                    receipts: receipt.body,
                    trace: trace.full_trace,
                });
            },
        }
    }
    Ok(out)
}

/// Once a prefix of the outcomes has failed, every longer prefix fails with
/// the same error.
proof fn lemma_verdicts_stay_failed<T, R, X>(
    txs: Seq<TxRecord<T>>,
    receipts: Seq<ReceiptRecord<R>>,
    traces: Seq<TraceRecord<X>>,
    m: nat,
    n: nat,
)
    requires
        m <= n,
        verdicts_upto(txs, receipts, traces, m) is Err,
    ensures
        verdicts_upto(txs, receipts, traces, n) == verdicts_upto(txs, receipts, traces, m),
    decreases n - m,
{
    if m < n {
        lemma_verdicts_stay_failed(txs, receipts, traces, m, (n - 1) as nat);
    }
}

/// Checks that a fetched block has one receipt and one trace per
/// transaction, then authenticates and enriches its transactions; a block
/// whose transactions are not listed in full serves none.
pub fn enrich_block<H, T, R, X>(
    block: BlockRecord<H, T>,
    receipts: Vec<ReceiptRecord<R>>,
    traces: Vec<TraceRecord<X>>,
) -> (r: Result<(H, Vec<EnrichedTransaction<T, R, X>>), TraceApiError>)
    ensures
        match r {
            Ok((head, out)) => {
                &&& head == block.head
                &&& block_verdict(block.transactions, receipts@, traces@) matches Ok(keys)
                &&& out.len() == keys.len()
                &&& match block.transactions {
                    BlockTransactions::Full(txs) => forall|k: int| 0 <= k < txs.len() ==> {
                        &&& (#[trigger] out@[k]).inner == txs@[k].body
                        &&& out@[k].receipts == receipts@[k].body
                        &&& out@[k].trace == traces@[k].full_trace
                        &&& out@[k].public_key@ == keys[k]
                        &&& is_compressed_key_text(out@[k].public_key@)
                    },
                    _ => out.len() == 0,
                }
            },
            Err(e) => block_verdict(block.transactions, receipts@, traces@)
                == Err::<Seq<Seq<char>>, TraceApiErrorView>(e@),
        },
{
    let count = block.transactions.len();
    if receipts.len() != count {
        return Err(TraceApiError::ReceiptCountMismatch);
    }
    if traces.len() != count {
        return Err(TraceApiError::TraceCountMismatch);
    }
    let head = block.head;
    match block.transactions {
        BlockTransactions::Full(txs) => {
            let ghost t0 = txs@;
            let out = enrich_transactions(txs, receipts, traces)?;
            proof {
                lemma_verdicts_len(t0, receipts@, traces@, t0.len());
            }
            Ok((head, out))
        },
        _ => Ok((head, Vec::new())),
    }
}

/// A transaction is served with `text` as its public key: its receipt and
/// its trace are its own, its signature yields a key, that key's address is
/// the sender, and `text` renders that key.
pub open spec fn served_as<T>(tx: TxRecord<T>, receipt_hash: Seq<u8>, trace_hash: Seq<u8>, text: Seq<char>) -> bool {
    &&& tx.hash@ == receipt_hash
    &&& tx.hash@ == trace_hash
    &&& signing_parts(tx.envelope@) matches Some((prehash, signature))
    &&& recovered_key(signature, prehash) matches Ok(key)
    &&& key_address(key) == Some(tx.from@)
    &&& text == prefixed_hex_of(key)
}

/// Law: every transaction that is served was checked. Its receipt and trace
/// name its hash, the key recovered from its signature has the sender's
/// address, and the public key served is `0x` and that key's digits.
pub proof fn lemma_served_transactions_authenticated<T, R, X>(
    txs: Seq<TxRecord<T>>,
    receipts: Seq<ReceiptRecord<R>>,
    traces: Seq<TraceRecord<X>>,
    n: nat,
)
    requires
        verdicts_upto(txs, receipts, traces, n) is Ok,
    ensures
        verdicts_upto(txs, receipts, traces, n) matches Ok(keys) && keys.len() == n
            && forall|k: int| 0 <= k < n ==> served_as(txs[k], receipts[k].transaction_hash@,
                traces[k].transaction_hash@, #[trigger] keys[k]),
    decreases n,
{
    lemma_verdicts_len(txs, receipts, traces, n);
    if n > 0 {
        lemma_verdicts_stay_ok(txs, receipts, traces, (n - 1) as nat, n);
        lemma_served_transactions_authenticated(txs, receipts, traces, (n - 1) as nat);
        let keys = verdicts_upto(txs, receipts, traces, n)->Ok_0;
        let prev = verdicts_upto(txs, receipts, traces, (n - 1) as nat)->Ok_0;
        assert forall|k: int| 0 <= k < n implies served_as(txs[k], receipts[k].transaction_hash@,
            traces[k].transaction_hash@, #[trigger] keys[k]) by {
            if k < n - 1 {
                assert(keys[k] == prev[k]);
            } else {
                let tx = txs[k];
                if let Some((prehash, signature)) = signing_parts(tx.envelope@) {
                    if let Ok(key) = recovered_key(signature, prehash) {
                        assert(prefixed_hex_of(key).len() >= 2);
                    }
                }
            }
        }
    }
}

/// A prefix of outcomes that are all public keys stays so when shortened.
proof fn lemma_verdicts_stay_ok<T, R, X>(
    txs: Seq<TxRecord<T>>,
    receipts: Seq<ReceiptRecord<R>>,
    traces: Seq<TraceRecord<X>>,
    m: nat,
    n: nat,
)
    requires
        m <= n,
        verdicts_upto(txs, receipts, traces, n) is Ok,
    ensures
        verdicts_upto(txs, receipts, traces, m) is Ok,
    decreases n - m,
{
    if m < n {
        lemma_verdicts_stay_ok(txs, receipts, traces, (m + 1) as nat, n);
    }
}

/// Law: a refused block names the first transaction that fails a check:
/// the error is that transaction's, and every transaction before it passes.
pub proof fn lemma_refusal_names_first_failure<T, R, X>(
    txs: Seq<TxRecord<T>>,
    receipts: Seq<ReceiptRecord<R>>,
    traces: Seq<TraceRecord<X>>,
    n: nat,
)
    requires
        verdicts_upto(txs, receipts, traces, n) is Err,
    ensures
        exists|k: int| 0 <= k < n && {
            &&& #[trigger] verdict_at(txs, receipts, traces, k)
                    == Err::<Seq<char>, TraceApiErrorView>(verdicts_upto(txs, receipts, traces, n)->Err_0)
            &&& forall|j: int| 0 <= j < k ==> (#[trigger] verdict_at(txs, receipts, traces, j)) is Ok
        },
    decreases n,
{
    if verdicts_upto(txs, receipts, traces, (n - 1) as nat) is Err {
        lemma_refusal_names_first_failure(txs, receipts, traces, (n - 1) as nat);
    } else {
        lemma_verdicts_all_ok(txs, receipts, traces, (n - 1) as nat);
        let k = n - 1;
        assert(verdict_at(txs, receipts, traces, k) == Err::<Seq<char>, TraceApiErrorView>(verdicts_upto(txs, receipts, traces, n)->Err_0));
    }
}

/// Every outcome in a prefix that is all public keys is a public key.
proof fn lemma_verdicts_all_ok<T, R, X>(
    txs: Seq<TxRecord<T>>,
    receipts: Seq<ReceiptRecord<R>>,
    traces: Seq<TraceRecord<X>>,
    n: nat,
)
    requires
        verdicts_upto(txs, receipts, traces, n) is Ok,
    ensures
        forall|j: int| 0 <= j < n ==> (#[trigger] verdict_at(txs, receipts, traces, j)) is Ok,
    decreases n,
{
    if n > 0 {
        lemma_verdicts_all_ok(txs, receipts, traces, (n - 1) as nat);
    }
}

/// Law: a block that passes its checks has one receipt and one trace per
/// transaction, and every transaction it lists in full is served as the
/// checks require, with the public key at its position.
pub proof fn lemma_accepted_block_authenticated<T, R, X>(
    txs: BlockTransactions<T>,
    receipts: Seq<ReceiptRecord<R>>,
    traces: Seq<TraceRecord<X>>,
)
    requires
        block_verdict(txs, receipts, traces) is Ok,
    ensures
        receipts.len() == txs.spec_len(),
        traces.len() == txs.spec_len(),
        block_verdict(txs, receipts, traces) matches Ok(keys) && match txs {
            BlockTransactions::Full(v) => keys.len() == v.len() && forall|k: int| 0 <= k < v.len()
                ==> served_as(v@[k], receipts[k].transaction_hash@, traces[k].transaction_hash@, #[trigger] keys[k]),
            _ => keys.len() == 0,
        },
{
    if let BlockTransactions::Full(v) = txs {
        lemma_served_transactions_authenticated(v@, receipts, traces, v.len() as nat);
    }
}

/// Law: the public key text of a compressed key (33 bytes, first byte 2 or
/// 3) is `0x` and its 66 digits, starting `0x02` or `0x03`; the `0x0`
/// fallback never applies to it.
pub proof fn lemma_public_key_text_of_compressed_key(key: Seq<u8>)
    requires
        key.len() == 33,
        key[0] == 2 || key[0] == 3,
    ensures
        public_key_text(key) == prefixed_hex_of(key),
        is_compressed_key_text(public_key_text(key)),
{
    crate::hex::lemma_hex_of_bytes_len(key);
    crate::hex::lemma_hex_of_bytes_first(key);
}

/// The key that a transaction's signature recovers over its signing hash,
/// where its envelope yields both and recovery succeeds.
pub open spec fn signer_key_of<T>(tx: TxRecord<T>) -> Option<Seq<u8>> {
    match signing_parts(tx.envelope@) {
        Some((prehash, signature)) => match recovered_key(signature, prehash) {
            Ok(key) => Some(key),
            Err(_) => None,
        },
        None => None,
    }
}

/// A transaction passes every check: its receipt and its trace name its
/// hash, its envelope yields a signing hash and a signature (whatever the
/// transaction's type), a key is recovered from them, and that key's address
/// is the sender's.
pub open spec fn passes_checks<T>(tx: TxRecord<T>, receipt_hash: Seq<u8>, trace_hash: Seq<u8>) -> bool {
    &&& tx.hash@ == receipt_hash
    &&& tx.hash@ == trace_hash
    &&& signer_key_of(tx) matches Some(key)
    &&& key_address(key) == Some(tx.from@)
}

/// Law: a transaction is served exactly when it passes every check, and then
/// with `0x` and the digits of its signer's recovered key.
pub proof fn lemma_authentication_complete<T>(tx: TxRecord<T>, receipt_hash: Seq<u8>, trace_hash: Seq<u8>)
    ensures
        (tx_verdict(tx, receipt_hash, trace_hash) is Ok) <==> passes_checks(tx, receipt_hash, trace_hash),
        passes_checks(tx, receipt_hash, trace_hash) ==> tx_verdict(tx, receipt_hash, trace_hash)
            == Ok::<Seq<char>, TraceApiErrorView>(prefixed_hex_of(signer_key_of(tx)->Some_0)),
{
    if let Some(key) = signer_key_of(tx) {
        assert(prefixed_hex_of(key).len() >= 2);
    }
}

/// Law: once recovery has run, the sender's address alone decides. A key
/// whose address is the sender's is served as `0x` and its digits, whatever
/// the key's bytes; a key without an address or with another address is
/// refused as a mismatch; a recovery error is refused with its text.
pub proof fn lemma_signer_decided_by_address(
    tx_hash: Seq<u8>,
    from: Seq<u8>,
    key: Seq<u8>,
    address: Option<Seq<u8>>,
    reason: Seq<char>,
)
    ensures
        address == Some(from) ==> signer_verdict(tx_hash, from, Ok((key, address)))
            == Ok::<Seq<char>, TraceApiErrorView>(prefixed_hex_of(key)),
        address != Some(from) ==> signer_verdict(tx_hash, from, Ok((key, address)))
            == Err::<Seq<char>, TraceApiErrorView>(TraceApiErrorView::AddressMismatch { tx_hash }),
        signer_verdict(tx_hash, from, Err(reason))
            == Err::<Seq<char>, TraceApiErrorView>(TraceApiErrorView::PublicKeyNotRecovered { reason, tx_hash }),
{
    assert(prefixed_hex_of(key).len() >= 2);
}

/// Law: transactions are judged each on its own. When every one of the first
/// `n` transactions passes its checks against the receipt and the trace at
/// its position, all of them are served, each with its own signer's key,
/// whatever the other transactions are (the same sender twice included).
pub proof fn lemma_authentic_transactions_all_served<T, R, X>(
    txs: Seq<TxRecord<T>>,
    receipts: Seq<ReceiptRecord<R>>,
    traces: Seq<TraceRecord<X>>,
    n: nat,
)
    requires
        forall|k: int| 0 <= k < n ==> passes_checks(#[trigger] txs[k], receipts[k].transaction_hash@,
            traces[k].transaction_hash@),
    ensures
        verdicts_upto(txs, receipts, traces, n) matches Ok(keys) && keys.len() == n
            && forall|k: int| 0 <= k < n ==> #[trigger] keys[k] == prefixed_hex_of(signer_key_of(txs[k])->Some_0),
    decreases n,
{
    if n > 0 {
        lemma_authentic_transactions_all_served(txs, receipts, traces, (n - 1) as nat);
        let k = n - 1;
        lemma_authentication_complete(txs[k], receipts[k].transaction_hash@, traces[k].transaction_hash@);
        assert(passes_checks(txs[k], receipts[k].transaction_hash@, traces[k].transaction_hash@));
        let keys = verdicts_upto(txs, receipts, traces, n)->Ok_0;
        let prev = verdicts_upto(txs, receipts, traces, (n - 1) as nat)->Ok_0;
        assert forall|j: int| 0 <= j < n implies #[trigger] keys[j] == prefixed_hex_of(signer_key_of(txs[j])->Some_0) by {
            if j < n - 1 {
                assert(keys[j] == prev[j]);
            }
        }
    }
}

} // verus!
