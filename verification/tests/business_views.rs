use paychat::business::{
    fetch_business_data, fetch_init_business_data, get_new_business_transactions,
    BusinessCategory, BusinessSignUpArgs,
};
use paychat::identity::Identity;
use paychat::ledger::TransferTx;
use paychat::state::{record_xfer_begin, record_xfer_commit, sign_up, AppState, SignUpArg};
use paychat::user::UserSignUpArgs;

fn id(s: &str) -> Identity {
    Identity::new(s.to_string())
}

fn setup_with_transfers(n: u64) -> AppState {
    let mut st = AppState::new();
    let r = sign_up(
        &mut st,
        &id("p-s"),
        1,
        SignUpArg::Business(BusinessSignUpArgs {
            name: "corner shop".to_string(),
            pay_id: "shop".to_string(),
            logo: String::new(),
            category: BusinessCategory::Food,
        }),
    );
    assert!(r.is_ok());
    let r = sign_up(
        &mut st,
        &id("p-a"),
        1,
        SignUpArg::User(UserSignUpArgs {
            name: "ana".to_string(),
            pay_id: "ana".to_string(),
            profile_pic: String::new(),
        }),
    );
    assert!(r.is_ok());
    for i in 0..n {
        record_xfer_begin(&mut st, 100 + i).unwrap();
        record_xfer_commit(
            &mut st,
            &id("p-a"),
            TransferTx { from: id("p-a"), to: id("p-s"), timestamp: 1_000 + i, amount: i },
            None,
            100 + i,
        )
        .unwrap();
    }
    st
}

#[test]
fn init_business_data_windows_to_fifty() {
    let st = setup_with_transfers(60);
    let b = fetch_init_business_data(&st, &id("p-s"));
    assert_eq!(b.transactions.len(), 50);
    // newest first: tx ids 159 down to 110
    assert_eq!(b.transactions[0].tx_id, 159);
    assert_eq!(b.transactions[49].tx_id, 110);
    assert_eq!(b.name, "corner shop");
}

#[test]
fn full_business_data_reverses_all() {
    let st = setup_with_transfers(7);
    let b = fetch_business_data(&st, &id("p-s"));
    assert_eq!(b.transactions.len(), 7);
    assert_eq!(b.transactions[0].tx_id, 106);
    assert_eq!(b.transactions[6].tx_id, 100);
}

#[test]
fn new_business_transactions_after_known_length() {
    let st = setup_with_transfers(10);
    let fresh = get_new_business_transactions(&st, &id("p-s"), 6);
    assert_eq!(fresh.len(), 4);
    assert_eq!(fresh[0].tx_id, 109);
    assert_eq!(fresh[3].tx_id, 106);
    // out of range is guarded
    assert_eq!(get_new_business_transactions(&st, &id("p-s"), 11).len(), 0);
    // unregistered caller gets nothing
    assert_eq!(get_new_business_transactions(&st, &id("p-x"), 0).len(), 0);
}

#[test]
fn user_side_relationship_tracks_transfers() {
    let st = setup_with_transfers(3);
    // the user's business recency index points at the relationship record
    let ua = st.users.get(&"p-a".to_string()).unwrap();
    let rid = paychat::strkey::create_key(&"ana".to_string(), &"shop".to_string());
    assert!(ua.with_businesses.contains_pair(1_002, &rid));
    let link = st.business_in_user.get(&rid).unwrap();
    assert_eq!(link.transactions.len(), 3);
    assert_eq!(link.last_activity, 1_002);
    // user history mirrors each transfer
    let hist = st.histories.get(&"p-a".to_string()).unwrap().read_all();
    assert_eq!(hist.len(), 3);
    assert_eq!(hist[0].pay_id, "shop");
}
