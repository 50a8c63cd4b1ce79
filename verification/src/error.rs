//! The errors that a block receipts trace request can end in, with the
//! JSON-RPC error code and message of each.

use vstd::prelude::*;
use crate::hex::{hex_of_quantity, prefixed_hex_of, push_hex_bytes, push_quantity_digits};

verus! {

/// The block a request names: a number or one of the named tags.
#[derive(Debug, Clone, Copy, PartialEq, Eq, Structural)]
pub enum BlockNumberOrTag {
    Latest,
    Finalized,
    Safe,
    Earliest,
    Pending,
    Number(u64),
}

impl BlockNumberOrTag {
    /// The block number, where the request names one.
    pub fn as_number(&self) -> (r: Option<u64>)
        ensures
            r == (match *self {
                BlockNumberOrTag::Number(n) => Some(n),
                _ => None::<u64>,
            }),
    {
        match *self {
            BlockNumberOrTag::Number(n) => Some(n),
            _ => None,
        }
    }
}

/// How a block is named in messages: a number as `0x` and its lowercase
/// hexadecimal digits, a tag by its name.
pub open spec fn block_text(number: BlockNumberOrTag) -> Seq<char> {
    match number {
        BlockNumberOrTag::Latest => "latest"@,
        BlockNumberOrTag::Finalized => "finalized"@,
        BlockNumberOrTag::Safe => "safe"@,
        BlockNumberOrTag::Earliest => "earliest"@,
        BlockNumberOrTag::Pending => "pending"@,
        BlockNumberOrTag::Number(n) => seq!['0', 'x'] + hex_of_quantity(n as nat),
    }
}

/// Appends the text of a block name.
pub fn push_block_text(s: &mut String, number: &BlockNumberOrTag)
    ensures
        final(s)@ == old(s)@ + block_text(*number),
{
    match number {
        BlockNumberOrTag::Latest => s.append("latest"),
        BlockNumberOrTag::Finalized => s.append("finalized"),
        BlockNumberOrTag::Safe => s.append("safe"),
        BlockNumberOrTag::Earliest => s.append("earliest"),
        BlockNumberOrTag::Pending => s.append("pending"),
        BlockNumberOrTag::Number(n) => {
            s.append("0x");
            push_quantity_digits(s, *n);
            proof {
                reveal_strlit("0x");
            }
            assert(s@ =~= old(s)@ + block_text(*number));
        },
    }
}

/// Why a block receipts trace request failed.
#[derive(Debug, Clone)]
pub enum TraceApiError {
    /// The trace task did not complete.
    TracesJoin { number: BlockNumberOrTag, reason: String },
    /// Tracing the block failed.
    TracesFetch { number: BlockNumberOrTag, reason: String },
    /// No traces for the block.
    TracesMissing { number: BlockNumberOrTag },
    /// The receipts task did not complete.
    ReceiptsJoin { number: BlockNumberOrTag, reason: String },
    /// Fetching the receipts failed.
    ReceiptsFetch { number: BlockNumberOrTag, reason: String },
    /// No receipts for the block.
    ReceiptsMissing { number: BlockNumberOrTag },
    /// Fetching the block failed.
    BlockFetch { reason: String },
    /// The block has not one receipt per transaction.
    ReceiptCountMismatch,
    /// The block has not one trace per transaction.
    TraceCountMismatch,
    /// A transaction's receipt or trace is for another transaction.
    HashMismatch { tx_hash: [u8; 32] },
    /// A transaction's signature could not be taken from it.
    SignatureNotExtracted { tx_hash: [u8; 32] },
    /// No public key could be recovered from a transaction's signature.
    PublicKeyNotRecovered { reason: String, tx_hash: [u8; 32] },
    /// The recovered key belongs to another address than the sender.
    AddressMismatch { tx_hash: [u8; 32] },
}

/// An error with its texts taken as character sequences.
pub enum TraceApiErrorView {
    TracesJoin { number: BlockNumberOrTag, reason: Seq<char> },
    TracesFetch { number: BlockNumberOrTag, reason: Seq<char> },
    TracesMissing { number: BlockNumberOrTag },
    ReceiptsJoin { number: BlockNumberOrTag, reason: Seq<char> },
    ReceiptsFetch { number: BlockNumberOrTag, reason: Seq<char> },
    ReceiptsMissing { number: BlockNumberOrTag },
    BlockFetch { reason: Seq<char> },
    ReceiptCountMismatch,
    TraceCountMismatch,
    HashMismatch { tx_hash: Seq<u8> },
    SignatureNotExtracted { tx_hash: Seq<u8> },
    PublicKeyNotRecovered { reason: Seq<char>, tx_hash: Seq<u8> },
    AddressMismatch { tx_hash: Seq<u8> },
}

impl View for TraceApiError {
    type V = TraceApiErrorView;

    open spec fn view(&self) -> TraceApiErrorView {
        match self {
            TraceApiError::TracesJoin { number, reason } =>
                TraceApiErrorView::TracesJoin { number: *number, reason: reason@ },
            TraceApiError::TracesFetch { number, reason } =>
                TraceApiErrorView::TracesFetch { number: *number, reason: reason@ },
            TraceApiError::TracesMissing { number } => TraceApiErrorView::TracesMissing { number: *number },
            TraceApiError::ReceiptsJoin { number, reason } =>
                TraceApiErrorView::ReceiptsJoin { number: *number, reason: reason@ },
            TraceApiError::ReceiptsFetch { number, reason } =>
                TraceApiErrorView::ReceiptsFetch { number: *number, reason: reason@ },
            TraceApiError::ReceiptsMissing { number } =>
                TraceApiErrorView::ReceiptsMissing { number: *number },
            TraceApiError::BlockFetch { reason } => TraceApiErrorView::BlockFetch { reason: reason@ },
            TraceApiError::ReceiptCountMismatch => TraceApiErrorView::ReceiptCountMismatch,
            TraceApiError::TraceCountMismatch => TraceApiErrorView::TraceCountMismatch,
            TraceApiError::HashMismatch { tx_hash } => TraceApiErrorView::HashMismatch { tx_hash: tx_hash@ },
            TraceApiError::SignatureNotExtracted { tx_hash } =>
                TraceApiErrorView::SignatureNotExtracted { tx_hash: tx_hash@ },
            TraceApiError::PublicKeyNotRecovered { reason, tx_hash } =>
                TraceApiErrorView::PublicKeyNotRecovered { reason: reason@, tx_hash: tx_hash@ },
            TraceApiError::AddressMismatch { tx_hash } =>
                TraceApiErrorView::AddressMismatch { tx_hash: tx_hash@ },
        }
    }
}

impl TraceApiErrorView {
    /// The JSON-RPC error code: 2 for receipt fetching errors and for a
    /// receipt or trace of another transaction, 1 for all others.
    pub open spec fn code(self) -> i32 {
        match self {
            TraceApiErrorView::ReceiptsFetch { .. } => 2,
            TraceApiErrorView::ReceiptsMissing { .. } => 2,
            TraceApiErrorView::HashMismatch { .. } => 2,
            _ => 1,
        }
    }

    /// The JSON-RPC error message.
    pub open spec fn message(self) -> Seq<char> {
        match self {
            TraceApiErrorView::TracesJoin { number, reason } =>
                "Error in traces join handle for block number "@ + block_text(number) + ": "@ + reason,
            TraceApiErrorView::TracesFetch { number, reason } =>
                "Error getting block traces result "@ + reason + " for block"@ + block_text(number),
            TraceApiErrorView::TracesMissing { number } =>
                "Error getting block traces option for block "@ + block_text(number),
            TraceApiErrorView::ReceiptsJoin { number, reason } =>
                "Error in transaction receipts for block number "@ + block_text(number) + ": "@ + reason,
            TraceApiErrorView::ReceiptsFetch { number, reason } =>
                "Error getting transaction receipts result "@ + reason + " for block "@ + block_text(number),
            TraceApiErrorView::ReceiptsMissing { number } =>
                "Error getting transaction receipts option for block"@ + block_text(number),
            TraceApiErrorView::BlockFetch { reason } => reason,
            TraceApiErrorView::ReceiptCountMismatch =>
                "trx_receipts.size() != block.transactions.size()"@,
            TraceApiErrorView::TraceCountMismatch =>
                "trx_traces.size() != block.transactions.size()"@,
            TraceApiErrorView::HashMismatch { tx_hash } =>
                "Mismatch between transaction hash and corresponding receipt hash "@ + prefixed_hex_of(tx_hash),
            TraceApiErrorView::SignatureNotExtracted { tx_hash } =>
                "Signature not extracted from transaction "@ + prefixed_hex_of(tx_hash),
            TraceApiErrorView::PublicKeyNotRecovered { reason, tx_hash } =>
                "Public key not extracted from message and signature, error: "@ + reason
                    + ", transaction hash: "@ + prefixed_hex_of(tx_hash),
            TraceApiErrorView::AddressMismatch { tx_hash } =>
                "Address doesn't match public key to address for "@ + prefixed_hex_of(tx_hash),
        }
    }
}

/// Appends `0x` and the digits of a hash.
fn push_prefixed_hex(s: &mut String, bytes: &[u8])
    ensures
        final(s)@ == old(s)@ + prefixed_hex_of(bytes@),
{
    s.append("0x");
    push_hex_bytes(s, bytes);
    proof {
        reveal_strlit("0x");
    }
    assert(s@ =~= old(s)@ + prefixed_hex_of(bytes@));
}

impl TraceApiError {
    /// The JSON-RPC error code of the error.
    pub fn code(&self) -> (c: i32)
        ensures
            c == self@.code(),
    {
        match self {
            TraceApiError::ReceiptsFetch { .. } => 2,
            TraceApiError::ReceiptsMissing { .. } => 2,
            TraceApiError::HashMismatch { .. } => 2,
            _ => 1,
        }
    }

    /// The JSON-RPC error message of the error.
    pub fn message(&self) -> (m: String)
        ensures
            m@ == self@.message(),
    {
        let mut s = String::new();
        match self {
            TraceApiError::TracesJoin { number, reason } => {
                s.append("Error in traces join handle for block number ");
                push_block_text(&mut s, number);
                s.append(": ");
                s.append(reason.as_str());
            },
            TraceApiError::TracesFetch { number, reason } => {
                s.append("Error getting block traces result ");
                s.append(reason.as_str());
                s.append(" for block");
                push_block_text(&mut s, number);
            },
            TraceApiError::TracesMissing { number } => {
                s.append("Error getting block traces option for block ");
                push_block_text(&mut s, number);
            },
            TraceApiError::ReceiptsJoin { number, reason } => {
                s.append("Error in transaction receipts for block number ");
                push_block_text(&mut s, number);
                s.append(": ");
                s.append(reason.as_str());
            },
            TraceApiError::ReceiptsFetch { number, reason } => {
                s.append("Error getting transaction receipts result ");
                s.append(reason.as_str());
                s.append(" for block ");
                push_block_text(&mut s, number);
            },
            TraceApiError::ReceiptsMissing { number } => {
                s.append("Error getting transaction receipts option for block");
                push_block_text(&mut s, number);
            },
            TraceApiError::BlockFetch { reason } => {
                s.append(reason.as_str());
            },
            TraceApiError::ReceiptCountMismatch => {
                s.append("trx_receipts.size() != block.transactions.size()");
            },
            TraceApiError::TraceCountMismatch => {
                s.append("trx_traces.size() != block.transactions.size()");
            },
            TraceApiError::HashMismatch { tx_hash } => {
                s.append("Mismatch between transaction hash and corresponding receipt hash ");
                push_prefixed_hex(&mut s, tx_hash.as_slice());
            },
            TraceApiError::SignatureNotExtracted { tx_hash } => {
                s.append("Signature not extracted from transaction ");
                push_prefixed_hex(&mut s, tx_hash.as_slice());
            },
            TraceApiError::PublicKeyNotRecovered { reason, tx_hash } => {
                s.append("Public key not extracted from message and signature, error: ");
                s.append(reason.as_str());
                s.append(", transaction hash: ");
                push_prefixed_hex(&mut s, tx_hash.as_slice());
            },
            TraceApiError::AddressMismatch { tx_hash } => {
                s.append("Address doesn't match public key to address for ");
                push_prefixed_hex(&mut s, tx_hash.as_slice());
            },
        }
        assert(s@ =~= self@.message());
        s
    }
}

} // verus!
