use paychat::chat::{get_24h_expiry, MessageOrTransaction, REQUEST_GRACE_NANOS};
use paychat::error::{InvalidTxReason, RecordRegPayTxErr};
use paychat::history::TxKind;
use paychat::identity::Identity;
use paychat::state::{
    record_request_payment_begin, record_request_payment_commit, sign_up, AppState, SignUpArg,
};
use paychat::strkey::create_key;
use paychat::user::{
    create_chat, request_payment, PayIdOrPrincipal, RecordReqPayTxArg, ReqPayArg, UserSignUpArgs,
};

fn id(s: &str) -> Identity {
    Identity::new(s.to_string())
}

fn add_user(state: &mut AppState, principal: &str, alias: &str) {
    let r = sign_up(
        state,
        &id(principal),
        1,
        SignUpArg::User(UserSignUpArgs {
            name: format!("{alias} name"),
            pay_id: alias.to_string(),
            profile_pic: String::new(),
        }),
    );
    assert!(r.is_ok());
}

/// Two users, a chat between them, and one payment request by "ria"
/// (the party to be paid) over amount 500 at time `req_time`.
fn setup(req_time: u64) -> (AppState, String, u64) {
    let mut st = AppState::new();
    add_user(&mut st, "p-pay", "pax");
    add_user(&mut st, "p-req", "ria");
    let chat = create_chat(
        &mut st,
        &id("p-req"),
        2,
        PayIdOrPrincipal::PayId("pax".to_string()),
    )
    .unwrap();
    let req = request_payment(
        &mut st,
        &id("p-req"),
        req_time,
        ReqPayArg { chat_id: chat.id.clone(), amount: 500, note: Some("rent".to_string()) },
    )
    .unwrap();
    (st, chat.id, req.expires_at)
}

fn fulfill(
    st: &mut AppState,
    tx_id: u64,
    ts: u64,
    amount: u64,
    chat_id: &str,
) -> Result<(), RecordRegPayTxErr> {
    record_request_payment_begin(st, tx_id)?;
    record_request_payment_commit(
        st,
        RecordReqPayTxArg {
            from: id("p-pay"),
            to: id("p-req"),
            timestamp: ts,
            amount,
            tx_id,
            chat_id: chat_id.to_string(),
            message_index: 0,
        },
    )
}

#[test]
fn fulfill_just_inside_grace_succeeds() {
    let (mut st, cid, expires_at) = setup(100_000_000_000);
    assert_eq!(expires_at, get_24h_expiry(100_000_000_000));
    let ts = expires_at + REQUEST_GRACE_NANOS - 1;
    assert!(fulfill(&mut st, 11, ts, 500, &cid).is_ok());

    // request carries its fulfillment
    let chat = st.chats.get(&cid).unwrap();
    match &chat.messages[0] {
        MessageOrTransaction::RequestPayment(q) => {
            assert_eq!(q.payment_at, Some(ts));
            assert_eq!(q.tx_id, Some(11));
        },
        _ => panic!("expected a payment request event"),
    }
    // mirrored entries carry the request's note
    let sent = st.histories.get(&"p-pay".to_string()).unwrap().read_all();
    let rcvd = st.histories.get(&"p-req".to_string()).unwrap().read_all();
    assert_eq!(sent.len(), 1);
    assert_eq!(rcvd.len(), 1);
    assert!(matches!(sent[0].kind, TxKind::Sends));
    assert!(matches!(rcvd[0].kind, TxKind::Receive));
    assert_eq!(sent[0].note, Some("rent".to_string()));
    assert_eq!(rcvd[0].note, Some("rent".to_string()));
    assert_eq!(sent[0].tx_id, 11);
}

#[test]
fn fulfill_just_past_grace_fails_expired() {
    let (mut st, cid, expires_at) = setup(100_000_000_000);
    let ts = expires_at + REQUEST_GRACE_NANOS + 1;
    let r = fulfill(&mut st, 12, ts, 500, &cid);
    assert!(matches!(
        r,
        Err(RecordRegPayTxErr::InvalidTransaction(InvalidTxReason::ExpiredRequest))
    ));
    // nothing recorded
    assert!(st.histories.get(&"p-pay".to_string()).is_none());
}

#[test]
fn fulfill_exactly_at_grace_boundary_succeeds() {
    let (mut st, cid, expires_at) = setup(100_000_000_000);
    assert!(fulfill(&mut st, 13, expires_at + REQUEST_GRACE_NANOS, 500, &cid).is_ok());
}

#[test]
fn fulfill_wrong_amount_fails() {
    let (mut st, cid, _) = setup(100_000_000_000);
    let r = fulfill(&mut st, 14, 200_000_000_000, 499, &cid);
    assert!(matches!(
        r,
        Err(RecordRegPayTxErr::InvalidTransaction(InvalidTxReason::AmountMismatch))
    ));
}

#[test]
fn fulfill_wrong_requester_fails() {
    let (mut st, cid, _) = setup(100_000_000_000);
    record_request_payment_begin(&mut st, 15).unwrap();
    // payer and payee swapped: the paid party did not author the request
    let r = record_request_payment_commit(
        &mut st,
        RecordReqPayTxArg {
            from: id("p-req"),
            to: id("p-pay"),
            timestamp: 200_000_000_000,
            amount: 500,
            tx_id: 15,
            chat_id: cid,
            message_index: 0,
        },
    );
    match r {
        Err(RecordRegPayTxErr::InvalidTransaction(InvalidTxReason::WrongRequester {
            requester,
            receiver,
        })) => {
            assert_eq!(requester, "ria");
            assert_eq!(receiver, "pax");
        },
        _ => panic!("expected WrongRequester"),
    }
}

#[test]
fn fulfill_wrong_index_fails_not_found() {
    let (mut st, cid, _) = setup(100_000_000_000);
    record_request_payment_begin(&mut st, 16).unwrap();
    let r = record_request_payment_commit(
        &mut st,
        RecordReqPayTxArg {
            from: id("p-pay"),
            to: id("p-req"),
            timestamp: 200_000_000_000,
            amount: 500,
            tx_id: 16,
            chat_id: cid,
            message_index: 3,
        },
    );
    assert!(matches!(r, Err(RecordRegPayTxErr::RequestPaymentNotFound)));
}

#[test]
fn fulfill_unknown_chat_fails() {
    let (mut st, _, _) = setup(100_000_000_000);
    let r = fulfill(&mut st, 17, 200_000_000_000, 500, "nope/none");
    assert!(matches!(r, Err(RecordRegPayTxErr::ChatNotFound)));
}

#[test]
fn fulfill_same_tx_id_twice_fails_already_recorded() {
    let (mut st, cid, _) = setup(100_000_000_000);
    assert!(fulfill(&mut st, 18, 200_000_000_000, 500, &cid).is_ok());
    let r = fulfill(&mut st, 18, 200_000_000_000, 500, &cid);
    assert!(matches!(r, Err(RecordRegPayTxErr::AlreadyRecorded)));
}

#[test]
fn request_advances_chat_recency_for_both() {
    let (st, cid, _) = setup(100_000_000_000);
    let payer = st.users.get(&"p-pay".to_string()).unwrap();
    let requester = st.users.get(&"p-req".to_string()).unwrap();
    assert!(payer.my_chats.contains_pair(100_000_000_000, &cid));
    assert!(requester.my_chats.contains_pair(100_000_000_000, &cid));
    assert!(!payer.my_chats.contains_pair(2, &cid));
    assert_eq!(st.chats.get(&cid).unwrap().last_activity, 100_000_000_000);
}

#[test]
fn fulfillment_does_not_advance_chat_recency() {
    let (mut st, cid, _) = setup(100_000_000_000);
    let before = st.chats.get(&cid).unwrap().last_activity;
    assert!(fulfill(&mut st, 19, 200_000_000_000, 500, &cid).is_ok());
    assert_eq!(st.chats.get(&cid).unwrap().last_activity, before);
}
