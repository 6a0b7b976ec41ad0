use paychat::business::{BusinessCategory, BusinessSignUpArgs};
use paychat::chat::MessageOrTransaction;
use paychat::error::{AddMessageErr, CreateChatErr, SignUpError};
use paychat::identity::Identity;
use paychat::state::{
    fetch_data, fetch_initial_data, get_account_from_pay_id, is_pay_id_available, sign_up,
    AppState, DataResponse, SignUpArg,
};
use paychat::user::{
    add_message, create_chat, get_chat, get_my_chats, mark_message_read, user_add_business,
    PayIdOrPrincipal, UserSignUpArgs,
};

fn id(s: &str) -> Identity {
    Identity::new(s.to_string())
}

fn user_args(alias: &str) -> SignUpArg {
    SignUpArg::User(UserSignUpArgs {
        name: format!("{alias} name"),
        pay_id: alias.to_string(),
        profile_pic: String::new(),
    })
}

fn business_args(alias: &str) -> SignUpArg {
    SignUpArg::Business(BusinessSignUpArgs {
        name: format!("{alias} biz"),
        pay_id: alias.to_string(),
        logo: "logo.png".to_string(),
        category: BusinessCategory::Food,
    })
}

#[test]
fn sign_up_rejects_anonymous() {
    let mut st = AppState::new();
    let r = sign_up(&mut st, &Identity::anonymous(), 1, user_args("zoe"));
    assert!(matches!(r, Err(SignUpError::AnonymousCaller)));
}

#[test]
fn sign_up_rejects_existing_account() {
    let mut st = AppState::new();
    assert!(sign_up(&mut st, &id("p-a"), 1, user_args("ana")).is_ok());
    let again = sign_up(&mut st, &id("p-a"), 2, user_args("ana2"));
    assert!(matches!(again, Err(SignUpError::AccountExist)));
    let as_biz = sign_up(&mut st, &id("p-a"), 3, business_args("shop"));
    assert!(matches!(as_biz, Err(SignUpError::AccountExist)));
}

#[test]
fn sign_up_rejects_taken_alias() {
    let mut st = AppState::new();
    assert!(sign_up(&mut st, &id("p-a"), 1, user_args("ana")).is_ok());
    let r = sign_up(&mut st, &id("p-b"), 2, user_args("ana"));
    assert!(matches!(r, Err(SignUpError::PayIdExist)));
    let r2 = sign_up(&mut st, &id("p-c"), 3, business_args("ana"));
    assert!(matches!(r2, Err(SignUpError::PayIdExist)));
}

#[test]
fn pay_id_availability() {
    let mut st = AppState::new();
    assert!(!is_pay_id_available(&st, &"ab".to_string()));
    assert!(is_pay_id_available(&st, &"ana".to_string()));
    assert!(sign_up(&mut st, &id("p-a"), 1, user_args("ana")).is_ok());
    assert!(!is_pay_id_available(&st, &"ana".to_string()));
}

#[test]
fn alias_resolution_needs_registered_caller() {
    let mut st = AppState::new();
    assert!(sign_up(&mut st, &id("p-a"), 1, user_args("ana")).is_ok());
    assert!(get_account_from_pay_id(&st, &id("p-x"), &"ana".to_string()).is_none());
    let got = get_account_from_pay_id(&st, &id("p-a"), &"ana".to_string()).unwrap();
    assert_eq!(got.text, "p-a");
}

#[test]
fn create_chat_errors() {
    let mut st = AppState::new();
    assert!(sign_up(&mut st, &id("p-a"), 1, user_args("ana")).is_ok());
    let no_account = create_chat(
        &mut st,
        &id("p-x"),
        5,
        PayIdOrPrincipal::PayId("ana".to_string()),
    );
    assert!(matches!(no_account, Err(CreateChatErr::AccountNotFound)));
    let with_self = create_chat(
        &mut st,
        &id("p-a"),
        5,
        PayIdOrPrincipal::PayId("ana".to_string()),
    );
    assert!(matches!(with_self, Err(CreateChatErr::CallerAndParticipantSame)));
    let missing = create_chat(
        &mut st,
        &id("p-a"),
        5,
        PayIdOrPrincipal::PayId("ghost".to_string()),
    );
    assert!(matches!(missing, Err(CreateChatErr::ParticipantNotFound)));
}

#[test]
fn add_message_and_mark_read() {
    let mut st = AppState::new();
    assert!(sign_up(&mut st, &id("p-a"), 1, user_args("ana")).is_ok());
    assert!(sign_up(&mut st, &id("p-b"), 2, user_args("ben")).is_ok());
    let chat = create_chat(
        &mut st,
        &id("p-a"),
        10,
        PayIdOrPrincipal::PayId("ben".to_string()),
    )
    .unwrap();

    let m = add_message(&mut st, &id("p-a"), 20, chat.id.clone(), "hi".to_string()).unwrap();
    assert_eq!(m.content, "hi");
    assert_eq!(m.timestamp, 20);
    assert_eq!(m.read_by, vec!["ana".to_string()]);

    // the chat moved to recency key 20 for both participants
    let ua = st.users.get(&"p-a".to_string()).unwrap();
    let ub = st.users.get(&"p-b".to_string()).unwrap();
    assert!(ua.my_chats.contains_pair(20, &chat.id));
    assert!(ub.my_chats.contains_pair(20, &chat.id));
    assert!(!ua.my_chats.contains_pair(10, &chat.id));

    // the other participant marks it read
    assert!(mark_message_read(&mut st, &id("p-b"), chat.id.clone()).is_ok());
    let stored = st.chats.get(&chat.id).unwrap();
    match &stored.messages[0] {
        MessageOrTransaction::Message(msg) => {
            assert_eq!(msg.read_by, vec!["ana".to_string(), "ben".to_string()]);
        },
        _ => panic!("expected a message event"),
    }

    let stranger = add_message(&mut st, &id("p-c"), 30, chat.id.clone(), "yo".to_string());
    assert!(matches!(stranger, Err(AddMessageErr::AccountNotFound)));
    let wrong_chat = add_message(&mut st, &id("p-a"), 30, "none/none".to_string(), "yo".to_string());
    assert!(matches!(wrong_chat, Err(AddMessageErr::ChatNotFound)));
}

#[test]
fn get_chat_requires_participation() {
    let mut st = AppState::new();
    assert!(sign_up(&mut st, &id("p-a"), 1, user_args("ana")).is_ok());
    assert!(sign_up(&mut st, &id("p-b"), 2, user_args("ben")).is_ok());
    assert!(sign_up(&mut st, &id("p-c"), 3, user_args("cyd")).is_ok());
    let chat = create_chat(
        &mut st,
        &id("p-a"),
        10,
        PayIdOrPrincipal::PayId("ben".to_string()),
    )
    .unwrap();
    assert!(get_chat(&st, &id("p-a"), &chat.id).is_some());
    assert!(get_chat(&st, &id("p-b"), &chat.id).is_some());
    assert!(get_chat(&st, &id("p-c"), &chat.id).is_none());
}

#[test]
fn get_my_chats_lists_all() {
    let mut st = AppState::new();
    assert!(sign_up(&mut st, &id("p-a"), 1, user_args("ana")).is_ok());
    assert!(sign_up(&mut st, &id("p-b"), 2, user_args("ben")).is_ok());
    assert!(sign_up(&mut st, &id("p-c"), 3, user_args("cyd")).is_ok());
    assert_eq!(get_my_chats(&st, &id("p-a")).len(), 0);
    create_chat(&mut st, &id("p-a"), 10, PayIdOrPrincipal::PayId("ben".to_string())).unwrap();
    create_chat(&mut st, &id("p-a"), 11, PayIdOrPrincipal::PayId("cyd".to_string())).unwrap();
    let chats = get_my_chats(&st, &id("p-a"));
    assert_eq!(chats.len(), 2);
    assert_eq!(st.chats.len(), 2);
    // ascending recency
    assert_eq!(chats[0].last_activity, 10);
    assert_eq!(chats[1].last_activity, 11);
}

#[test]
fn user_add_business_snapshot() {
    let mut st = AppState::new();
    assert!(sign_up(&mut st, &id("p-a"), 1, user_args("ana")).is_ok());
    assert!(sign_up(&mut st, &id("p-s"), 2, business_args("shop")).is_ok());
    let link = user_add_business(
        &mut st,
        &id("p-a"),
        30,
        PayIdOrPrincipal::PayId("shop".to_string()),
    )
    .unwrap();
    assert_eq!(link.b_name, "shop biz");
    assert_eq!(link.b_pay_id, "shop");
    assert_eq!(link.b_logo, "logo.png");
    assert_eq!(link.last_activity, 30);
    assert_eq!(link.transactions.len(), 0);
    // adding again returns the same record, unchanged
    let again = user_add_business(
        &mut st,
        &id("p-a"),
        99,
        PayIdOrPrincipal::PayId("shop".to_string()),
    )
    .unwrap();
    assert_eq!(again.last_activity, 30);
}

#[test]
fn fetch_initial_data_dispatch() {
    let mut st = AppState::new();
    assert!(sign_up(&mut st, &id("p-a"), 1, user_args("ana")).is_ok());
    assert!(sign_up(&mut st, &id("p-s"), 2, business_args("shop")).is_ok());

    match fetch_initial_data(&st, &id("p-a")) {
        Ok(DataResponse::User(d)) => {
            assert_eq!(d.user.pay_id, "ana");
            assert_eq!(d.history.len(), 0);
            assert_eq!(d.chats.len(), 0);
        },
        _ => panic!("expected user data"),
    }
    match fetch_initial_data(&st, &id("p-s")) {
        Ok(DataResponse::Business(b)) => assert_eq!(b.pay_id, "shop"),
        _ => panic!("expected business data"),
    }
    assert!(matches!(fetch_initial_data(&st, &id("p-x")), Ok(DataResponse::NotSignUp)));
    assert!(fetch_initial_data(&st, &Identity::anonymous()).is_err());
    assert!(matches!(fetch_data(&st, &id("p-x")), Ok(DataResponse::NotSignUp)));
}

#[test]
fn fetch_initial_data_windows_chats_to_eight() {
    let mut st = AppState::new();
    assert!(sign_up(&mut st, &id("p-a"), 1, user_args("ana")).is_ok());
    for i in 0..10u64 {
        let alias = format!("mate{i}");
        assert!(sign_up(&mut st, &id(&format!("p-m{i}")), 1, user_args(&alias)).is_ok());
        create_chat(&mut st, &id("p-a"), 100 + i, PayIdOrPrincipal::PayId(alias)).unwrap();
    }
    match fetch_initial_data(&st, &id("p-a")) {
        Ok(DataResponse::User(d)) => {
            assert_eq!(d.chats.len(), 8);
            // newest first: recency keys 109 down to 102
            assert_eq!(d.chats[0].last_activity, 109);
            assert_eq!(d.chats[7].last_activity, 102);
        },
        _ => panic!("expected user data"),
    }
    match fetch_data(&st, &id("p-a")) {
        Ok(DataResponse::User(d)) => {
            assert_eq!(d.chats.len(), 10);
            assert_eq!(d.chats[0].last_activity, 109);
            assert_eq!(d.chats[9].last_activity, 100);
        },
        _ => panic!("expected user data"),
    }
}
