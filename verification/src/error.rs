//! Typed errors returned by the engine's operations.
//!
//! Every failure except the fatal equal-alias defect is reported as a value
//! of one of these enums; nothing is retried internally.

use vstd::prelude::*;
use crate::identity::Identity;

verus! {

#[derive(Debug)]
pub enum SignUpError {
    AnonymousCaller,
    AccountExist,
    PayIdExist,
}

#[derive(Debug)]
pub enum GetBusinessError {
    AccountNotFound,
}

#[derive(Debug)]
pub enum CreateChatErr {
    AccountNotFound,
    CallerAndParticipantSame,
    ParticipantNotFound,
}

#[derive(Debug)]
pub enum AddMessageErr {
    AccountNotFound,
    ChatNotFound,
    NotAParticipant,
}

#[derive(Debug)]
pub enum MarkMessageReadErr {
    ChatNotFound,
    NotAParticipant,
    AccountNotFound,
}

#[derive(Debug)]
pub enum AddBusinessError {
    AccountNotFound,
    BusinessNotFound,
}

/// Why a ledger record or a fulfillment attempt was rejected.
#[derive(Debug)]
pub enum InvalidTxReason {
    /// The transaction id is not below the ledger's reported log length.
    IndexOutOfRange { tx_id: u64, log_length: u64 },
    /// The ledger returned no record for the requested id.
    MissingTransaction,
    /// The ledger record is of a non-transfer kind.
    NotATransfer { kind: String },
    /// The payment request's expiry (plus the grace window) has passed.
    ExpiredRequest,
    /// The transferred amount differs from the requested amount.
    AmountMismatch,
    /// The request's author is not the party being paid.
    WrongRequester { requester: String, receiver: String },
}

#[derive(Debug)]
pub enum RecordTxErr {
    InterCanisterCall(String),
    FailedTo,
    InvalidTransaction(InvalidTxReason),
    BothAccountsNotFound { from: Identity, to: Identity },
    AlreadyRecorded,
}

#[derive(Debug)]
pub enum RecordRegPayTxErr {
    InterCanisterCall(String),
    InvalidTransaction(InvalidTxReason),
    AccountNotFound,
    ChatNotFound,
    NotAParticipant,
    RequestPaymentNotFound,
    AlreadyRecorded,
}

#[derive(Debug)]
pub enum RequestPaymentError {
    AccountNotFound,
    ChatNotFound,
    NotAParticipant,
}

#[derive(Debug)]
pub enum FetchInitDataError {
    AnonymousCaller,
}

} // verus!
