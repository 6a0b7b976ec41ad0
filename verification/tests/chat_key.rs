use paychat::identity::Identity;
use paychat::state::{sign_up, AppState, SignUpArg};
use paychat::strkey::create_key;
use paychat::user::{create_chat, PayIdOrPrincipal, UserSignUpArgs};

fn id(s: &str) -> Identity {
    Identity::new(s.to_string())
}

fn sign_up_user_named(state: &mut AppState, principal: &str, alias: &str, now: u64) {
    let r = sign_up(
        state,
        &id(principal),
        now,
        SignUpArg::User(UserSignUpArgs {
            name: format!("{alias} name"),
            pay_id: alias.to_string(),
            profile_pic: String::new(),
        }),
    );
    assert!(r.is_ok());
}

#[test]
fn chat_id_is_symmetric() {
    let a = "amara".to_string();
    let b = "bodhi".to_string();
    assert_eq!(create_key(&a, &b), create_key(&b, &a));
    assert_eq!(create_key(&a, &b), "bodhi/amara");
}

#[test]
fn chat_id_symmetric_on_prefix_aliases() {
    let a = "ann".to_string();
    let b = "anna".to_string();
    assert_eq!(create_key(&a, &b), create_key(&b, &a));
    assert_eq!(create_key(&a, &b), "anna/ann");
}

#[test]
fn create_chat_twice_swapped_returns_same_chat() {
    let mut st = AppState::new();
    sign_up_user_named(&mut st, "p-alice", "alice", 5);
    sign_up_user_named(&mut st, "p-bob", "bob", 6);

    let c1 = create_chat(
        &mut st,
        &id("p-alice"),
        100,
        PayIdOrPrincipal::PayId("bob".to_string()),
    )
    .unwrap();
    let c2 = create_chat(
        &mut st,
        &id("p-bob"),
        200,
        PayIdOrPrincipal::PayId("alice".to_string()),
    )
    .unwrap();
    assert_eq!(c1.id, c2.id);
    assert_eq!(c1.last_activity, c2.last_activity);
    assert_eq!(c1.participants.len(), 2);
    assert_eq!(c2.participants.len(), 2);
}

#[test]
fn create_chat_by_principal_matches_by_alias() {
    let mut st = AppState::new();
    sign_up_user_named(&mut st, "p-alice", "alice", 5);
    sign_up_user_named(&mut st, "p-bob", "bob", 6);

    let c1 = create_chat(
        &mut st,
        &id("p-alice"),
        100,
        PayIdOrPrincipal::Principal(id("p-bob")),
    )
    .unwrap();
    let c2 = create_chat(
        &mut st,
        &id("p-bob"),
        300,
        PayIdOrPrincipal::Principal(id("p-alice")),
    )
    .unwrap();
    assert_eq!(c1.id, c2.id);
}
