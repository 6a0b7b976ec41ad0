use paychat::business::{ic_get_business, BusinessCategory, BusinessSignUpArgs};
use paychat::error::{
    AddBusinessError, AddMessageErr, FetchInitDataError, GetBusinessError, MarkMessageReadErr,
    RecordRegPayTxErr, RequestPaymentError,
};
use paychat::identity::Identity;
use paychat::state::{
    fetch_initial_data, record_request_payment_begin, record_request_payment_commit, sign_up,
    AppState, SignUpArg,
};
use paychat::user::{
    add_message, create_chat, mark_message_read, request_payment, user_add_business,
    PayIdOrPrincipal, RecordReqPayTxArg, ReqPayArg, UserSignUpArgs,
};

fn id(s: &str) -> Identity {
    Identity::new(s.to_string())
}

fn add_user(state: &mut AppState, principal: &str, alias: &str) {
    let r = sign_up(
        state,
        &id(principal),
        1,
        SignUpArg::User(UserSignUpArgs {
            name: format!("{alias} name"),
            pay_id: alias.to_string(),
            profile_pic: String::new(),
        }),
    );
    assert!(r.is_ok());
}

#[test]
fn get_business_for_non_business_caller() {
    let mut st = AppState::new();
    add_user(&mut st, "p-a", "ana");
    let r = ic_get_business(&st, &id("p-a"));
    assert!(matches!(r, Err(GetBusinessError::AccountNotFound)));
}

#[test]
fn add_message_by_non_participant() {
    let mut st = AppState::new();
    add_user(&mut st, "p-a", "ana");
    add_user(&mut st, "p-b", "ben");
    add_user(&mut st, "p-c", "cyd");
    let chat = create_chat(&mut st, &id("p-a"), 5, PayIdOrPrincipal::PayId("ben".to_string()))
        .unwrap();
    let r = add_message(&mut st, &id("p-c"), 6, chat.id, "hi".to_string());
    assert!(matches!(r, Err(AddMessageErr::NotAParticipant)));
}

#[test]
fn mark_message_read_errors() {
    let mut st = AppState::new();
    add_user(&mut st, "p-a", "ana");
    add_user(&mut st, "p-b", "ben");
    add_user(&mut st, "p-c", "cyd");
    let chat = create_chat(&mut st, &id("p-a"), 5, PayIdOrPrincipal::PayId("ben".to_string()))
        .unwrap();
    let r = mark_message_read(&mut st, &id("p-a"), "none/none".to_string());
    assert!(matches!(r, Err(MarkMessageReadErr::ChatNotFound)));
    let r = mark_message_read(&mut st, &id("p-x"), chat.id.clone());
    assert!(matches!(r, Err(MarkMessageReadErr::AccountNotFound)));
    let r = mark_message_read(&mut st, &id("p-c"), chat.id);
    assert!(matches!(r, Err(MarkMessageReadErr::NotAParticipant)));
}

#[test]
fn user_add_business_errors() {
    let mut st = AppState::new();
    add_user(&mut st, "p-a", "ana");
    let r = user_add_business(&mut st, &id("p-x"), 5, PayIdOrPrincipal::PayId("shop".to_string()));
    assert!(matches!(r, Err(AddBusinessError::AccountNotFound)));
    // a registered user is not a business
    let r = user_add_business(&mut st, &id("p-a"), 5, PayIdOrPrincipal::PayId("ana".to_string()));
    assert!(matches!(r, Err(AddBusinessError::BusinessNotFound)));
    let r = user_add_business(&mut st, &id("p-a"), 5, PayIdOrPrincipal::Principal(id("p-z")));
    assert!(matches!(r, Err(AddBusinessError::BusinessNotFound)));
}

#[test]
fn request_payment_errors() {
    let mut st = AppState::new();
    add_user(&mut st, "p-a", "ana");
    add_user(&mut st, "p-b", "ben");
    add_user(&mut st, "p-c", "cyd");
    let chat = create_chat(&mut st, &id("p-a"), 5, PayIdOrPrincipal::PayId("ben".to_string()))
        .unwrap();
    let arg = |cid: String| ReqPayArg { chat_id: cid, amount: 9, note: None };
    let r = request_payment(&mut st, &id("p-x"), 10, arg(chat.id.clone()));
    assert!(matches!(r, Err(RequestPaymentError::AccountNotFound)));
    let r = request_payment(&mut st, &id("p-a"), 10, arg("none/none".to_string()));
    assert!(matches!(r, Err(RequestPaymentError::ChatNotFound)));
    let r = request_payment(&mut st, &id("p-c"), 10, arg(chat.id));
    assert!(matches!(r, Err(RequestPaymentError::NotAParticipant)));
}

#[test]
fn fulfillment_account_and_participant_errors() {
    let mut st = AppState::new();
    add_user(&mut st, "p-a", "ana");
    add_user(&mut st, "p-b", "ben");
    add_user(&mut st, "p-c", "cyd");
    let chat = create_chat(&mut st, &id("p-a"), 5, PayIdOrPrincipal::PayId("ben".to_string()))
        .unwrap();
    request_payment(
        &mut st,
        &id("p-b"),
        10,
        ReqPayArg { chat_id: chat.id.clone(), amount: 9, note: None },
    )
    .unwrap();

    record_request_payment_begin(&mut st, 70).unwrap();
    let r = record_request_payment_commit(
        &mut st,
        RecordReqPayTxArg {
            from: id("p-x"),
            to: id("p-b"),
            timestamp: 11,
            amount: 9,
            tx_id: 70,
            chat_id: chat.id.clone(),
            message_index: 0,
        },
    );
    assert!(matches!(r, Err(RecordRegPayTxErr::AccountNotFound)));

    record_request_payment_begin(&mut st, 71).unwrap();
    let r = record_request_payment_commit(
        &mut st,
        RecordReqPayTxArg {
            from: id("p-c"),
            to: id("p-b"),
            timestamp: 11,
            amount: 9,
            tx_id: 71,
            chat_id: chat.id,
            message_index: 0,
        },
    );
    assert!(matches!(r, Err(RecordRegPayTxErr::NotAParticipant)));
}

#[test]
fn fetch_rejects_anonymous() {
    let st = AppState::new();
    let r = fetch_initial_data(&st, &Identity::anonymous());
    assert!(matches!(r, Err(FetchInitDataError::AnonymousCaller)));
}
