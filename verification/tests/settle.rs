use paychat::error::RecordTxErr;
use paychat::history::TxKind;
use paychat::identity::Identity;
use paychat::ledger::TransferTx;
use paychat::state::{record_xfer_begin, record_xfer_commit, sign_up, AppState, SignUpArg};
use paychat::business::BusinessCategory;
use paychat::business::BusinessSignUpArgs;
use paychat::strkey::create_key;
use paychat::user::UserSignUpArgs;

fn id(s: &str) -> Identity {
    Identity::new(s.to_string())
}

fn add_user(state: &mut AppState, principal: &str, alias: &str) {
    let r = sign_up(
        state,
        &id(principal),
        1,
        SignUpArg::User(UserSignUpArgs {
            name: format!("{alias} name"),
            pay_id: alias.to_string(),
            profile_pic: String::new(),
        }),
    );
    assert!(r.is_ok());
}

fn add_business(state: &mut AppState, principal: &str, alias: &str) {
    let r = sign_up(
        state,
        &id(principal),
        1,
        SignUpArg::Business(BusinessSignUpArgs {
            name: format!("{alias} biz"),
            pay_id: alias.to_string(),
            logo: String::new(),
            category: BusinessCategory::Retail,
        }),
    );
    assert!(r.is_ok());
}

fn settle(
    state: &mut AppState,
    caller: &str,
    tx_id: u64,
    from: &str,
    to: &str,
    ts: u64,
    amount: u64,
) -> Result<(), RecordTxErr> {
    record_xfer_begin(state, tx_id)?;
    record_xfer_commit(
        state,
        &id(caller),
        TransferTx { from: id(from), to: id(to), timestamp: ts, amount },
        None,
        tx_id,
    )
}

fn history_len(state: &AppState, principal: &str) -> usize {
    match state.histories.get(&principal.to_string()) {
        Some(h) => h.read_all().len(),
        None => 0,
    }
}

#[test]
fn settle_twice_same_tx_id_fails_already_recorded() {
    let mut st = AppState::new();
    add_user(&mut st, "p-a", "ana");
    add_user(&mut st, "p-b", "ben");

    assert!(settle(&mut st, "p-a", 7, "p-a", "p-b", 1_000, 25).is_ok());
    assert_eq!(history_len(&st, "p-a"), 1);
    assert_eq!(history_len(&st, "p-b"), 1);

    // the registry holds the applied record for the id
    match st.tx_registry.get(7) {
        Some(paychat::txreg::TxStatus::Applied(info)) => {
            assert_eq!(info.from.as_ref().unwrap().text, "p-a");
            assert_eq!(info.to.as_ref().unwrap().text, "p-b");
        },
        _ => panic!("expected an applied record"),
    }

    let second = settle(&mut st, "p-a", 7, "p-a", "p-b", 1_000, 25);
    assert!(matches!(second, Err(RecordTxErr::AlreadyRecorded)));
    // exactly one set of mirrored entries remains
    assert_eq!(history_len(&st, "p-a"), 1);
    assert_eq!(history_len(&st, "p-b"), 1);
}

#[test]
fn user_to_user_transfer_is_symmetric() {
    let mut st = AppState::new();
    add_user(&mut st, "p-a", "ana");
    add_user(&mut st, "p-b", "ben");

    assert!(settle(&mut st, "p-a", 42, "p-a", "p-b", 9_000, 150).is_ok());

    let sent = st.histories.get(&"p-a".to_string()).unwrap().read_all();
    let rcvd = st.histories.get(&"p-b".to_string()).unwrap().read_all();
    assert_eq!(sent.len(), 1);
    assert_eq!(rcvd.len(), 1);
    assert!(matches!(sent[0].kind, TxKind::Sends));
    assert!(matches!(rcvd[0].kind, TxKind::Receive));
    assert_eq!(sent[0].tx_id, 42);
    assert_eq!(rcvd[0].tx_id, 42);
    assert_eq!(sent[0].amount, 150);
    assert_eq!(rcvd[0].amount, 150);
    assert_eq!(sent[0].timestamp, 9_000);
    assert_eq!(rcvd[0].timestamp, 9_000);
    // counterparty naming
    assert_eq!(sent[0].pay_id, "ben");
    assert_eq!(rcvd[0].pay_id, "ana");

    // both recency indices reflect the transfer's timestamp
    let cid = create_key(&"ana".to_string(), &"ben".to_string());
    let ua = st.users.get(&"p-a".to_string()).unwrap();
    let ub = st.users.get(&"p-b".to_string()).unwrap();
    assert!(ua.my_chats.contains_pair(9_000, &cid));
    assert!(ub.my_chats.contains_pair(9_000, &cid));
    let chat = st.chats.get(&cid).unwrap();
    assert_eq!(chat.last_activity, 9_000);
    assert_eq!(chat.messages.len(), 1);
}

#[test]
fn classifier_user_to_user() {
    let mut st = AppState::new();
    add_user(&mut st, "p-a", "ana");
    add_user(&mut st, "p-b", "ben");
    assert!(settle(&mut st, "p-a", 1, "p-a", "p-b", 10, 5).is_ok());
    assert_eq!(history_len(&st, "p-a"), 1);
    assert_eq!(history_len(&st, "p-b"), 1);
    let cid = create_key(&"ana".to_string(), &"ben".to_string());
    assert_eq!(st.chats.get(&cid).unwrap().messages.len(), 1);
}

#[test]
fn classifier_user_to_business() {
    let mut st = AppState::new();
    add_user(&mut st, "p-a", "ana");
    add_business(&mut st, "p-s", "shop");
    assert!(settle(&mut st, "p-a", 2, "p-a", "p-s", 10, 5).is_ok());
    // business's own list gains a Receive entry
    let biz = st.businesses.get(&"p-s".to_string()).unwrap();
    assert_eq!(biz.transactions.len(), 1);
    assert!(matches!(biz.transactions[0].kind, TxKind::Receive));
    assert_eq!(biz.transactions[0].pay_id, "ana");
    // user history gains a Sends entry
    let sent = st.histories.get(&"p-a".to_string()).unwrap().read_all();
    assert_eq!(sent.len(), 1);
    assert!(matches!(sent[0].kind, TxKind::Sends));
    assert_eq!(sent[0].pay_id, "shop");
    // relationship record created with one sub-ledger entry
    let rid = create_key(&"ana".to_string(), &"shop".to_string());
    let link = st.business_in_user.get(&rid).unwrap();
    assert_eq!(link.transactions.len(), 1);
    assert_eq!(link.transactions[0].sender_id, "ana");
    assert_eq!(link.last_activity, 10);
}

#[test]
fn classifier_business_to_user() {
    let mut st = AppState::new();
    add_user(&mut st, "p-a", "ana");
    add_business(&mut st, "p-s", "shop");
    assert!(settle(&mut st, "p-s", 3, "p-s", "p-a", 11, 6).is_ok());
    let biz = st.businesses.get(&"p-s".to_string()).unwrap();
    assert_eq!(biz.transactions.len(), 1);
    assert!(matches!(biz.transactions[0].kind, TxKind::Sends));
    let rcvd = st.histories.get(&"p-a".to_string()).unwrap().read_all();
    assert_eq!(rcvd.len(), 1);
    assert!(matches!(rcvd[0].kind, TxKind::Receive));
    let rid = create_key(&"ana".to_string(), &"shop".to_string());
    let link = st.business_in_user.get(&rid).unwrap();
    assert_eq!(link.transactions.len(), 1);
    assert_eq!(link.transactions[0].sender_id, "shop");
}

#[test]
fn classifier_business_to_business() {
    let mut st = AppState::new();
    add_business(&mut st, "p-s", "shop");
    add_business(&mut st, "p-t", "tool");
    assert!(settle(&mut st, "p-s", 4, "p-s", "p-t", 12, 7).is_ok());
    let s = st.businesses.get(&"p-s".to_string()).unwrap();
    let t = st.businesses.get(&"p-t".to_string()).unwrap();
    assert_eq!(s.transactions.len(), 1);
    assert_eq!(t.transactions.len(), 1);
    assert!(matches!(s.transactions[0].kind, TxKind::Sends));
    assert!(matches!(t.transactions[0].kind, TxKind::Receive));
    assert_eq!(s.transactions[0].pay_id, "tool");
    assert_eq!(t.transactions[0].pay_id, "shop");
    // no chat and no relationship involved
    assert_eq!(history_len(&st, "p-s"), 0);
    assert_eq!(history_len(&st, "p-t"), 0);
}

#[test]
fn classifier_user_to_unknown() {
    let mut st = AppState::new();
    add_user(&mut st, "p-a", "ana");
    assert!(settle(&mut st, "p-a", 5, "p-a", "p-x", 13, 8).is_ok());
    let sent = st.histories.get(&"p-a".to_string()).unwrap().read_all();
    assert_eq!(sent.len(), 1);
    assert!(matches!(sent[0].kind, TxKind::Sends));
    // the unknown side is named by its raw textual form
    assert_eq!(sent[0].name, "p-x");
    assert_eq!(sent[0].pay_id, "p-x");
}

#[test]
fn classifier_business_to_unknown() {
    let mut st = AppState::new();
    add_business(&mut st, "p-s", "shop");
    assert!(settle(&mut st, "p-s", 6, "p-s", "p-x", 14, 9).is_ok());
    let biz = st.businesses.get(&"p-s".to_string()).unwrap();
    assert_eq!(biz.transactions.len(), 1);
    assert!(matches!(biz.transactions[0].kind, TxKind::Sends));
    assert_eq!(biz.transactions[0].pay_id, "p-x");
}

#[test]
fn classifier_unknown_to_user() {
    let mut st = AppState::new();
    add_user(&mut st, "p-a", "ana");
    assert!(settle(&mut st, "p-a", 7, "p-x", "p-a", 15, 10).is_ok());
    let rcvd = st.histories.get(&"p-a".to_string()).unwrap().read_all();
    assert_eq!(rcvd.len(), 1);
    assert!(matches!(rcvd[0].kind, TxKind::Receive));
    assert_eq!(rcvd[0].pay_id, "p-x");
}

#[test]
fn classifier_unknown_to_business() {
    let mut st = AppState::new();
    add_business(&mut st, "p-s", "shop");
    assert!(settle(&mut st, "p-s", 8, "p-x", "p-s", 16, 11).is_ok());
    let biz = st.businesses.get(&"p-s".to_string()).unwrap();
    assert_eq!(biz.transactions.len(), 1);
    assert!(matches!(biz.transactions[0].kind, TxKind::Receive));
}

#[test]
fn classifier_unknown_to_unknown_fails() {
    let mut st = AppState::new();
    let r = settle(&mut st, "p-z", 9, "p-x", "p-y", 17, 12);
    match r {
        Err(RecordTxErr::BothAccountsNotFound { from, to }) => {
            assert_eq!(from.text, "p-x");
            assert_eq!(to.text, "p-y");
        },
        _ => panic!("expected BothAccountsNotFound"),
    }
    // a failed settle releases the reservation: the id may be retried
    let mut st2 = st;
    add_user(&mut st2, "p-x", "xena");
    add_user(&mut st2, "p-y", "yuri");
    assert!(settle(&mut st2, "p-x", 9, "p-x", "p-y", 18, 12).is_ok());
}
