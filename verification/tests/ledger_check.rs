use paychat::error::{InvalidTxReason, RecordTxErr};
use paychat::identity::Identity;
use paychat::ledger::{
    inspect_xfer_transaction, inspect_xfer_transaction_for_req_payment, GetTransactionsResponse,
    LedgerAccount, LedgerTransaction, LedgerTransfer,
};

fn transfer_response(log_length: u64, from: &str, to: &str, amount: u64, ts: u64)
    -> GetTransactionsResponse {
    GetTransactionsResponse {
        log_length,
        transactions: vec![LedgerTransaction {
            kind: "transfer".to_string(),
            timestamp: ts,
            transfer: Some(LedgerTransfer {
                to: LedgerAccount { owner: Identity::new(to.to_string()) },
                from: LedgerAccount { owner: Identity::new(from.to_string()) },
                amount,
            }),
        }],
    }
}

#[test]
fn inspect_accepts_in_range_transfer() {
    let t = inspect_xfer_transaction(41, transfer_response(42, "p-a", "p-b", 77, 900)).unwrap();
    assert_eq!(t.from.text, "p-a");
    assert_eq!(t.to.text, "p-b");
    assert_eq!(t.amount, 77);
    assert_eq!(t.timestamp, 900);
}

#[test]
fn inspect_rejects_out_of_range_id() {
    let r = inspect_xfer_transaction(42, transfer_response(42, "p-a", "p-b", 77, 900));
    match r {
        Err(RecordTxErr::InvalidTransaction(InvalidTxReason::IndexOutOfRange {
            tx_id,
            log_length,
        })) => {
            assert_eq!(tx_id, 42);
            assert_eq!(log_length, 42);
        },
        _ => panic!("expected IndexOutOfRange"),
    }
}

#[test]
fn inspect_rejects_non_transfer_kind() {
    let resp = GetTransactionsResponse {
        log_length: 10,
        transactions: vec![LedgerTransaction {
            kind: "mint".to_string(),
            timestamp: 5,
            transfer: None,
        }],
    };
    let r = inspect_xfer_transaction(3, resp);
    match r {
        Err(RecordTxErr::InvalidTransaction(InvalidTxReason::NotATransfer { kind })) => {
            assert_eq!(kind, "mint");
        },
        _ => panic!("expected NotATransfer"),
    }
}

#[test]
fn inspect_rejects_empty_answer() {
    let resp = GetTransactionsResponse { log_length: 10, transactions: Vec::new() };
    let r = inspect_xfer_transaction(3, resp);
    assert!(matches!(
        r,
        Err(RecordTxErr::InvalidTransaction(InvalidTxReason::MissingTransaction))
    ));
}

#[test]
fn inspect_for_req_payment_maps_errors() {
    let r = inspect_xfer_transaction_for_req_payment(
        9,
        transfer_response(5, "p-a", "p-b", 1, 1),
    );
    assert!(r.is_err());
    let ok = inspect_xfer_transaction_for_req_payment(
        4,
        transfer_response(5, "p-a", "p-b", 1, 1),
    );
    assert!(ok.is_ok());
}
