//! The shape of a verified ledger lookup, and its validation.
//!
//! The external ledger is asked for the single transaction named by a
//! transfer's id; it answers with its reported log length and at most that
//! one record.  The engine itself checks that the id is in range and that
//! the record is of a transfer kind, and extracts the two parties, the
//! amount and the timestamp.

use vstd::prelude::*;
use crate::error::{InvalidTxReason, RecordRegPayTxErr, RecordTxErr};
use crate::identity::Identity;

verus! {

/// A ledger account; only the owning identity matters to the engine.
pub struct LedgerAccount {
    pub owner: Identity,
}

/// The transfer payload of a ledger record.
pub struct LedgerTransfer {
    pub to: LedgerAccount,
    pub from: LedgerAccount,
    pub amount: u64,
}

/// One ledger record: its kind tag, its timestamp, and the transfer payload
/// present exactly when the record is a transfer.
pub struct LedgerTransaction {
    pub kind: String,
    pub timestamp: u64,
    pub transfer: Option<LedgerTransfer>,
}

/// The ledger's answer to a single-transaction lookup.
pub struct GetTransactionsResponse {
    pub log_length: u64,
    pub transactions: Vec<LedgerTransaction>,
}

/// The fields of a validated transfer.
pub struct TransferTx {
    pub from: Identity,
    pub to: Identity,
    pub timestamp: u64,
    pub amount: u64,
}

/// Whether a response to the lookup of `tx_id` passes validation.
pub open spec fn inspect_ok(tx_id: u64, arg: GetTransactionsResponse) -> bool {
    tx_id < arg.log_length && arg.transactions@.len() > 0 && arg.transactions@[0].transfer is Some
}

/// Validates a ledger response: the id must be strictly below the reported
/// log length and the returned record must be a transfer.
pub fn inspect_xfer_transaction(tx_id: u64, arg: GetTransactionsResponse) -> (r: Result<
    TransferTx,
    RecordTxErr,
>)
    ensures
        tx_id >= arg.log_length ==> r == Err::<TransferTx, RecordTxErr>(
            RecordTxErr::InvalidTransaction(
                InvalidTxReason::IndexOutOfRange { tx_id, log_length: arg.log_length },
            ),
        ),
        tx_id < arg.log_length && arg.transactions@.len() == 0 ==> r == Err::<
            TransferTx,
            RecordTxErr,
        >(RecordTxErr::InvalidTransaction(InvalidTxReason::MissingTransaction)),
        tx_id < arg.log_length && arg.transactions@.len() > 0 && arg.transactions@[0].transfer
            is None ==> (r matches Err(
            RecordTxErr::InvalidTransaction(InvalidTxReason::NotATransfer { kind }),
        ) && kind@ == arg.transactions@[0].kind@),
        inspect_ok(tx_id, arg) ==> (r matches Ok(t) && t.from@
            == arg.transactions@[0].transfer->Some_0.from.owner@ && t.to@
            == arg.transactions@[0].transfer->Some_0.to.owner@ && t.amount
            == arg.transactions@[0].transfer->Some_0.amount && t.timestamp
            == arg.transactions@[0].timestamp),
{
    if tx_id >= arg.log_length {
        return Err(
            RecordTxErr::InvalidTransaction(
                InvalidTxReason::IndexOutOfRange { tx_id, log_length: arg.log_length },
            ),
        );
    }
    let mut arg = arg;
    if arg.transactions.len() == 0 {
        return Err(RecordTxErr::InvalidTransaction(InvalidTxReason::MissingTransaction));
    }
    let transaction = arg.transactions.swap_remove(0);
    match transaction.transfer {
        Some(xfer) => Ok(
            TransferTx {
                from: xfer.from.owner,
                to: xfer.to.owner,
                timestamp: transaction.timestamp,
                amount: xfer.amount,
            },
        ),
        None => Err(
            RecordTxErr::InvalidTransaction(
                InvalidTxReason::NotATransfer { kind: transaction.kind },
            ),
        ),
    }
}

/// The same validation, reporting its failures as fulfillment errors.
pub fn inspect_xfer_transaction_for_req_payment(tx_id: u64, arg: GetTransactionsResponse) -> (r:
    Result<TransferTx, RecordRegPayTxErr>)
    ensures
        tx_id >= arg.log_length ==> r == Err::<TransferTx, RecordRegPayTxErr>(
            RecordRegPayTxErr::InvalidTransaction(
                InvalidTxReason::IndexOutOfRange { tx_id, log_length: arg.log_length },
            ),
        ),
        tx_id < arg.log_length && arg.transactions@.len() == 0 ==> r == Err::<
            TransferTx,
            RecordRegPayTxErr,
        >(RecordRegPayTxErr::InvalidTransaction(InvalidTxReason::MissingTransaction)),
        tx_id < arg.log_length && arg.transactions@.len() > 0 && arg.transactions@[0].transfer
            is None ==> (r matches Err(
            RecordRegPayTxErr::InvalidTransaction(InvalidTxReason::NotATransfer { kind }),
        ) && kind@ == arg.transactions@[0].kind@),
        inspect_ok(tx_id, arg) ==> (r matches Ok(t) && t.from@
            == arg.transactions@[0].transfer->Some_0.from.owner@ && t.to@
            == arg.transactions@[0].transfer->Some_0.to.owner@ && t.amount
            == arg.transactions@[0].transfer->Some_0.amount && t.timestamp
            == arg.transactions@[0].timestamp),
{
    if tx_id >= arg.log_length {
        return Err(
            RecordRegPayTxErr::InvalidTransaction(
                InvalidTxReason::IndexOutOfRange { tx_id, log_length: arg.log_length },
            ),
        );
    }
    let mut arg = arg;
    if arg.transactions.len() == 0 {
        return Err(RecordRegPayTxErr::InvalidTransaction(InvalidTxReason::MissingTransaction));
    }
    let transaction = arg.transactions.swap_remove(0);
    match transaction.transfer {
        Some(xfer) => Ok(
            TransferTx {
                from: xfer.from.owner,
                to: xfer.to.owner,
                timestamp: transaction.timestamp,
                amount: xfer.amount,
            },
        ),
        None => Err(
            RecordRegPayTxErr::InvalidTransaction(
                InvalidTxReason::NotATransfer { kind: transaction.kind },
            ),
        ),
    }
}

} // verus!
