//! Registered users: profile data, recency-ordered chat and business
//! indices, and the argument records of the transfer-application operations.

use vstd::prelude::*;
use crate::business::BusinessCategory;
use crate::chat::{Chat, ChatId};
use crate::chat::{
    events_view, expiry_spec, fresh_chat_v, get_24h_expiry, mark_read_spec, ChatV, Message,
    MessageOrTransaction, MessageOrTransactionV, MessageV, RequestPayment, RequestPaymentV,
    MAX_REQUEST_TIMESTAMP, REQUEST_GRACE_NANOS,
};
use crate::error::{
    AddBusinessError, AddMessageErr, CreateChatErr, InvalidTxReason, MarkMessageReadErr,
    RecordRegPayTxErr, RequestPaymentError, SignUpError,
};
use crate::strkey::{create_key, pair_key};
use crate::chat::{Transaction, TransactionV};
use crate::history::{entry_v, TransactionEntry, TxKind};
use crate::state::hist_after;
use crate::textseq::dup_opt_string;
use crate::identity::Identity;
use crate::recency::{rec_distinct, rec_sorted, RecencyIndex};
use crate::state::{collect_asc, collect_desc, AppState};
use crate::textseq::{deep_strs, deep_view_seq, dup_strings, lemma_contains_push, opt_str_view};

verus! {

pub type PayId = String;

/// A registered user: profile plus recency indices over chats and business
/// relationships.
pub struct User {
    pub name: String,
    pub pay_id: String,
    pub profile_pic: String,
    pub created_at: u64,
    pub my_chats: RecencyIndex,
    pub with_businesses: RecencyIndex,
}

pub struct UserV {
    pub name: Seq<char>,
    pub pay_id: Seq<char>,
    pub profile_pic: Seq<char>,
    pub created_at: u64,
    pub my_chats: Seq<(u64, Seq<char>)>,
    pub with_businesses: Seq<(u64, Seq<char>)>,
}

impl View for User {
    type V = UserV;

    open spec fn view(&self) -> UserV {
        UserV {
            name: self.name@,
            pay_id: self.pay_id@,
            profile_pic: self.profile_pic@,
            created_at: self.created_at,
            my_chats: self.my_chats@,
            with_businesses: self.with_businesses@,
        }
    }
}

/// Both recency indices of a user are ascending and duplicate-free.
pub open spec fn user_v_wf(u: UserV) -> bool {
    rec_sorted(u.my_chats) && rec_distinct(u.my_chats) && rec_sorted(u.with_businesses)
        && rec_distinct(u.with_businesses)
}

impl User {
    /// An owned copy of this user record.
    pub fn duplicate(&self) -> (r: User)
        ensures
            r@ == self@,
    {
        User {
            name: self.name.clone(),
            pay_id: self.pay_id.clone(),
            profile_pic: self.profile_pic.clone(),
            created_at: self.created_at,
            my_chats: self.my_chats.duplicate(),
            with_businesses: self.with_businesses.duplicate(),
        }
    }
}

/// The profile fields of a user.
pub struct UserMetadata {
    pub name: String,
    pub pay_id: String,
    pub profile_pic: String,
    pub created_at: u64,
}

pub struct UserSignUpArgs {
    pub name: String,
    pub pay_id: String,
    pub profile_pic: String,
}

/// A counterparty named either by identity or by pay alias.
pub enum PayIdOrPrincipal {
    Principal(Identity),
    PayId(PayId),
}

/// A transfer between a user and a business, seen from the user's side.
pub struct BusinessUserTx {
    pub sender_id: PayId,
    pub timestamp: u64,
    pub note: Option<String>,
    pub amount: u64,
    pub tx_id: u64,
}

pub struct BusinessUserTxV {
    pub sender_id: Seq<char>,
    pub timestamp: u64,
    pub note: Option<Seq<char>>,
    pub amount: u64,
    pub tx_id: u64,
}

impl View for BusinessUserTx {
    type V = BusinessUserTxV;

    open spec fn view(&self) -> BusinessUserTxV {
        BusinessUserTxV {
            sender_id: self.sender_id@,
            timestamp: self.timestamp,
            note: opt_str_view(self.note),
            amount: self.amount,
            tx_id: self.tx_id,
        }
    }
}

/// The abstract values of a business-relationship sub-ledger.
pub open spec fn subledger_view(s: Seq<BusinessUserTx>) -> Seq<BusinessUserTxV> {
    Seq::new(s.len(), |i: int| s[i]@)
}

/// A user's relationship with one business: a denormalized business snapshot
/// plus the pair's own sub-ledger and recency key.
pub struct BusinessInUser {
    pub id: String,
    pub b_name: String,
    pub b_pay_id: PayId,
    pub b_logo: String,
    pub b_category: BusinessCategory,
    pub b_principal: Identity,
    pub transactions: Vec<BusinessUserTx>,
    pub last_activity: u64,
}

pub struct BusinessInUserV {
    pub id: Seq<char>,
    pub b_name: Seq<char>,
    pub b_pay_id: Seq<char>,
    pub b_logo: Seq<char>,
    pub b_category: BusinessCategory,
    pub b_principal: Seq<char>,
    pub transactions: Seq<BusinessUserTxV>,
    pub last_activity: u64,
}

impl View for BusinessInUser {
    type V = BusinessInUserV;

    open spec fn view(&self) -> BusinessInUserV {
        BusinessInUserV {
            id: self.id@,
            b_name: self.b_name@,
            b_pay_id: self.b_pay_id@,
            b_logo: self.b_logo@,
            b_category: self.b_category,
            b_principal: self.b_principal@,
            transactions: subledger_view(self.transactions@),
            last_activity: self.last_activity,
        }
    }
}

impl BusinessInUser {
    /// An owned copy of this relationship record.
    pub fn duplicate(&self) -> (r: BusinessInUser)
        ensures
            r@ == self@,
    {
        let n = self.transactions.len();
        let mut txs: Vec<BusinessUserTx> = Vec::new();
        let mut i: usize = 0;
        while i < n
            invariant
                i <= n,
                n == self.transactions@.len(),
                txs@.len() == i,
                forall|j: int| 0 <= j < i ==> txs@[j]@ == self.transactions@[j]@,
            decreases n - i,
        {
            let t = &self.transactions[i];
            txs.push(
                BusinessUserTx {
                    sender_id: t.sender_id.clone(),
                    timestamp: t.timestamp,
                    note: crate::textseq::dup_opt_string(&t.note),
                    amount: t.amount,
                    tx_id: t.tx_id,
                },
            );
            i = i + 1;
        }
        let r = BusinessInUser {
            id: self.id.clone(),
            b_name: self.b_name.clone(),
            b_pay_id: self.b_pay_id.clone(),
            b_logo: self.b_logo.clone(),
            b_category: self.b_category,
            b_principal: self.b_principal.duplicate(),
            transactions: txs,
            last_activity: self.last_activity,
        };
        proof {
            assert(subledger_view(r.transactions@) =~= subledger_view(self.transactions@));
        }
        r
    }
}

/// Everything a user's client fetches in one call.
pub struct UserData {
    pub user: User,
    pub history: Vec<TransactionEntry>,
    pub chats: Vec<Chat>,
    pub business: Vec<BusinessInUser>,
}

/// A verified transfer between two users.
pub struct UserToUserTxArg {
    pub from: Identity,
    pub to: Identity,
    pub timestamp: u64,
    pub note: Option<String>,
    pub amount: u64,
    pub tx_id: u64,
}

/// A verified transfer between a user and a business, dispatched to the
/// user's side; `tx_kind` is the user's perspective.
pub struct UserBusinessTxArg {
    pub tx_id: u64,
    pub amount: u64,
    pub timestamp: u64,
    pub b_principal: Identity,
    pub u_principal: Identity,
    pub note: Option<String>,
    pub tx_kind: TxKind,
}

/// A verified transfer between a user and an unrecognized identity;
/// `tx_kind` is the user's perspective.
pub struct UserUnknownTxArg {
    pub tx_id: u64,
    pub u_principal: Identity,
    pub unknown: Identity,
    pub amount: u64,
    pub timestamp: u64,
    pub note: Option<String>,
    pub tx_kind: TxKind,
}

/// A payment-request creation call.
pub struct ReqPayArg {
    pub chat_id: ChatId,
    pub amount: u64,
    pub note: Option<String>,
}

/// A verified transfer fulfilling the payment request at `message_index` of
/// `chat_id`.
pub struct RecordReqPayTxArg {
    pub from: Identity,
    pub to: Identity,
    pub timestamp: u64,
    pub amount: u64,
    pub tx_id: u64,
    pub chat_id: ChatId,
    pub message_index: usize,
}

/// Whether `principal` is a registered user.
pub fn is_user(state: &AppState, principal: &Identity) -> (r: bool)
    ensures
        r == state.users@.contains_key(principal@),
{
    state.users.contains_key(&principal.text)
}

/// The profile fields of a registered user.
pub fn get_metadata(state: &AppState, principal: &Identity) -> (r: Option<UserMetadata>)
    requires
        state.wf(),
    ensures
        match r {
            Some(m) => state.users@.contains_key(principal@) && m.name@
                == state.users@[principal@].name && m.pay_id@ == state.users@[principal@].pay_id
                && m.profile_pic@ == state.users@[principal@].profile_pic && m.created_at
                == state.users@[principal@].created_at,
            None => !state.users@.contains_key(principal@),
        },
{
    match state.users.get(&principal.text) {
        Some(u) => Some(
            UserMetadata {
                name: u.name.clone(),
                pay_id: u.pay_id.clone(),
                profile_pic: u.profile_pic.clone(),
                created_at: u.created_at,
            },
        ),
        None => None,
    }
}

/// The caller's own user record.
pub fn get_user(state: &AppState, caller: &Identity) -> (r: Option<User>)
    requires
        state.wf(),
    ensures
        match r {
            Some(u) => state.users@.contains_key(caller@) && u@ == state.users@[caller@],
            None => !state.users@.contains_key(caller@),
        },
{
    match state.users.get(&caller.text) {
        Some(u) => Some(u.duplicate()),
        None => None,
    }
}

/// The record a successful user sign-up stores.
pub open spec fn fresh_user_v(args: UserSignUpArgs, now: u64) -> UserV {
    UserV {
        name: args.name@,
        pay_id: args.pay_id@,
        profile_pic: args.profile_pic@,
        created_at: now,
        my_chats: Seq::empty(),
        with_businesses: Seq::empty(),
    }
}

/// Registers the caller as a user.  Anonymous callers, already-registered
/// callers and already-taken aliases are rejected, in that order.
pub fn sign_up_user(state: &mut AppState, caller: &Identity, now: u64, args: UserSignUpArgs) -> (r:
    Result<(), SignUpError>)
    requires
        old(state).wf(),
    ensures
        final(state).wf(),
        caller@.len() == 0 ==> r == Err::<(), SignUpError>(SignUpError::AnonymousCaller) && *final(state) == *old(state),
        caller@.len() != 0 && (old(state).users@.contains_key(caller@) || old(
            state,
        ).businesses@.contains_key(caller@)) ==> r == Err::<(), SignUpError>(
            SignUpError::AccountExist,
        ) && *final(state) == *old(state),
        caller@.len() != 0 && !old(state).users@.contains_key(caller@) && !old(
            state,
        ).businesses@.contains_key(caller@) && old(state).pay_ids@.contains_key(args.pay_id@) ==> r
            == Err::<(), SignUpError>(SignUpError::PayIdExist) && *final(state) == *old(state),
        caller@.len() != 0 && !old(state).users@.contains_key(caller@) && !old(
            state,
        ).businesses@.contains_key(caller@) && !old(state).pay_ids@.contains_key(args.pay_id@) ==> {
            &&& r == Ok::<(), SignUpError>(())
            &&& final(state).users@ == old(state).users@.insert(caller@, fresh_user_v(args, now))
            &&& final(state).pay_ids@ == old(state).pay_ids@.insert(args.pay_id@, caller@)
            &&& final(state).businesses@ == old(state).businesses@
            &&& final(state).chats@ == old(state).chats@
            &&& final(state).business_in_user@ == old(state).business_in_user@
            &&& final(state).histories@ == old(state).histories@
            &&& final(state).tx_registry@ == old(state).tx_registry@
        },
{
    if caller.is_anonymous() {
        return Err(SignUpError::AnonymousCaller);
    }
    if is_user(state, caller) || crate::business::is_business(state, caller) {
        return Err(SignUpError::AccountExist);
    }
    if crate::state::is_payid_exist(state, &args.pay_id) {
        return Err(SignUpError::PayIdExist);
    }
    let pay_id = args.pay_id.clone();
    let user = User {
        name: args.name,
        pay_id: args.pay_id,
        profile_pic: args.profile_pic,
        created_at: now,
        my_chats: RecencyIndex::new(),
        with_businesses: RecencyIndex::new(),
    };
    let ghost pre = *old(state);
    state.users.insert(caller.text.clone(), user);
    state.pay_ids.insert(pay_id, caller.duplicate());
    proof {
        lemma_sign_up_user_wf(pre, *state, caller@, args.pay_id@);
    }
    Ok(())
}

/// `post` is `pre` with the pair `p` added to `my_chats`.
pub open spec fn user_chat_added(pre: UserV, post: UserV, p: (u64, Seq<char>)) -> bool {
    &&& post.name == pre.name
    &&& post.pay_id == pre.pay_id
    &&& post.profile_pic == pre.profile_pic
    &&& post.created_at == pre.created_at
    &&& post.with_businesses == pre.with_businesses
    &&& crate::recency::rec_added(pre.my_chats, post.my_chats, p)
}

/// `post` is `pre` with the `my_chats` pair `out` replaced by `inn`.
pub open spec fn user_rechatted(
    pre: UserV,
    post: UserV,
    out: (u64, Seq<char>),
    inn: (u64, Seq<char>),
) -> bool {
    &&& post.name == pre.name
    &&& post.pay_id == pre.pay_id
    &&& post.profile_pic == pre.profile_pic
    &&& post.created_at == pre.created_at
    &&& post.with_businesses == pre.with_businesses
    &&& crate::recency::rec_moved(pre.my_chats, post.my_chats, out, inn)
}

/// `post` is `pre` with the pair `p` added to `with_businesses`.
pub open spec fn user_biz_added(pre: UserV, post: UserV, p: (u64, Seq<char>)) -> bool {
    &&& post.name == pre.name
    &&& post.pay_id == pre.pay_id
    &&& post.profile_pic == pre.profile_pic
    &&& post.created_at == pre.created_at
    &&& post.my_chats == pre.my_chats
    &&& crate::recency::rec_added(pre.with_businesses, post.with_businesses, p)
}

/// `post` is `pre` with the `with_businesses` pair `out` replaced by `inn`.
pub open spec fn user_rebizzed(
    pre: UserV,
    post: UserV,
    out: (u64, Seq<char>),
    inn: (u64, Seq<char>),
) -> bool {
    &&& post.name == pre.name
    &&& post.pay_id == pre.pay_id
    &&& post.profile_pic == pre.profile_pic
    &&& post.created_at == pre.created_at
    &&& post.my_chats == pre.my_chats
    &&& crate::recency::rec_moved(pre.with_businesses, post.with_businesses, out, inn)
}

/// How `create_chat` resolves its participant argument, and with which error
/// it refuses it.
pub open spec fn resolve_user(
    s: AppState,
    caller: Seq<char>,
    participant_id: PayIdOrPrincipal,
) -> Result<Seq<char>, CreateChatErr>
    recommends
        s.users@.contains_key(caller),
{
    match participant_id {
        PayIdOrPrincipal::Principal(p) => if p@ == caller {
            Err(CreateChatErr::CallerAndParticipantSame)
        } else if !s.users@.contains_key(p@) {
            Err(CreateChatErr::ParticipantNotFound)
        } else {
            Ok(p@)
        },
        PayIdOrPrincipal::PayId(a) => if a@ == s.users@[caller].pay_id {
            Err(CreateChatErr::CallerAndParticipantSame)
        } else if !s.pay_ids@.contains_key(a@) {
            Err(CreateChatErr::ParticipantNotFound)
        } else if !s.users@.contains_key(s.pay_ids@[a@]) {
            Err(CreateChatErr::ParticipantNotFound)
        } else {
            Ok(s.pay_ids@[a@])
        },
    }
}

/// Creates (or returns) the chat between the caller and the named
/// participant.  The chat's id is the symmetric pair key of the two aliases;
/// an existing chat is returned as it stands, a fresh one is entered into
/// both participants' recency indices under the current time.
pub fn create_chat(
    state: &mut AppState,
    caller: &Identity,
    now: u64,
    participant_id: PayIdOrPrincipal,
) -> (r: Result<Chat, CreateChatErr>)
    requires
        old(state).wf(),
    ensures
        final(state).wf(),
        !old(state).users@.contains_key(caller@) ==> r == Err::<Chat, CreateChatErr>(
            CreateChatErr::AccountNotFound,
        ) && *final(state) == *old(state),
        old(state).users@.contains_key(caller@) ==> match resolve_user(
            *old(state),
            caller@,
            participant_id,
        ) {
            Err(e) => r == Err::<Chat, CreateChatErr>(e) && *final(state) == *old(state),
            Ok(pk) => {
                let cid = pair_key(
                    old(state).users@[caller@].pay_id,
                    old(state).users@[pk].pay_id,
                );
                if old(state).chats@.contains_key(cid) {
                    &&& r matches Ok(c) && c@ == old(state).chats@[cid]
                    &&& *final(state) == *old(state)
                } else {
                    &&& r matches Ok(c) && c@ == fresh_chat_v(
                        cid,
                        old(state).users@[caller@].pay_id,
                        old(state).users@[pk].pay_id,
                        now,
                    )
                    &&& final(state).chats@ == old(state).chats@.insert(
                        cid,
                        fresh_chat_v(
                            cid,
                            old(state).users@[caller@].pay_id,
                            old(state).users@[pk].pay_id,
                            now,
                        ),
                    )
                    &&& final(state).users@.dom() == old(state).users@.dom()
                    &&& user_chat_added(
                        old(state).users@[caller@],
                        final(state).users@[caller@],
                        (now, cid),
                    )
                    &&& user_chat_added(old(state).users@[pk], final(state).users@[pk], (now, cid))
                    &&& forall|k: Seq<char>|
                        k != caller@ && k != pk && #[trigger] old(state).users@.contains_key(k)
                            ==> final(state).users@[k] == old(state).users@[k]
                    &&& final(state).businesses@ == old(state).businesses@
                    &&& final(state).pay_ids@ == old(state).pay_ids@
                    &&& final(state).business_in_user@ == old(state).business_in_user@
                    &&& final(state).histories@ == old(state).histories@
                    &&& final(state).tx_registry@ == old(state).tx_registry@
                }
            },
        },
{
    let user_pay = match state.users.get(&caller.text) {
        Some(u) => u.pay_id.clone(),
        None => {
            return Err(CreateChatErr::AccountNotFound);
        },
    };
    let participant_key: String = match &participant_id {
        PayIdOrPrincipal::Principal(p) => {
            if caller.same_as(p) {
                return Err(CreateChatErr::CallerAndParticipantSame);
            }
            if !state.users.contains_key(&p.text) {
                return Err(CreateChatErr::ParticipantNotFound);
            }
            p.text.clone()
        },
        PayIdOrPrincipal::PayId(pid) => {
            if pid.eq(&user_pay) {
                return Err(CreateChatErr::CallerAndParticipantSame);
            }
            match state.pay_ids.get(pid) {
                Some(p) => {
                    let ptext = p.text.clone();
                    if !state.users.contains_key(&ptext) {
                        return Err(CreateChatErr::ParticipantNotFound);
                    }
                    proof {
                        assert(state.users@[ptext@].pay_id == pid@);
                    }
                    ptext
                },
                None => {
                    return Err(CreateChatErr::ParticipantNotFound);
                },
            }
        },
    };
    proof {
        assert(participant_key@ != caller@);
        crate::state::lemma_user_aliases_differ(state, caller@, participant_key@);
    }
    let part_pay = match state.users.get(&participant_key) {
        Some(u) => u.pay_id.clone(),
        None => {
            proof {
                assert(false);
            }
            unreached()
        },
    };
    let chat_id = create_key(&user_pay, &part_pay);
    if let Some(c) = state.chats.get(&chat_id) {
        return Ok(c.duplicate());
    }
    let ghost pre = *old(state);
    let chat = Chat {
        id: chat_id.clone(),
        participants: vec![user_pay.clone(), part_pay.clone()],
        messages: Vec::new(),
        last_activity: now,
    };
    proof {
        assert(chat@.participants =~= seq![user_pay@, part_pay@]);
        assert(chat@.messages =~= Seq::<crate::chat::MessageOrTransactionV>::empty());
        assert(chat@ == fresh_chat_v(chat_id@, user_pay@, part_pay@, now));
    }
    let returned = chat.duplicate();
    state.chats.insert(chat_id.clone(), chat);
    let mut u1 = match state.users.remove(&caller.text) {
        Some(u) => u,
        None => {
            proof {
                assert(false);
            }
            unreached()
        },
    };
    u1.my_chats.insert_pair(now, chat_id.clone());
    state.users.insert(caller.text.clone(), u1);
    let mut u2 = match state.users.remove(&participant_key) {
        Some(u) => u,
        None => {
            proof {
                assert(false);
            }
            unreached()
        },
    };
    u2.my_chats.insert_pair(now, chat_id.clone());
    state.users.insert(participant_key, u2);
    proof {
        assert(state.users@.dom() =~= pre.users@.dom());
        assert forall|k: Seq<char>| #[trigger] state.users@.contains_key(k) implies
        state.users@[k].pay_id == pre.users@[k].pay_id && user_v_wf(state.users@[k]) by {}
        assert(state.businesses@.dom() =~= pre.businesses@.dom());
        crate::state::lemma_wf_preserved(pre, *state);
    }
    Ok(returned)
}

proof fn lemma_sign_up_user_wf(pre: AppState, post: AppState, k: Seq<char>, alias: Seq<char>)
    requires
        pre.wf(),
        !pre.users@.contains_key(k),
        !pre.businesses@.contains_key(k),
        !pre.pay_ids@.contains_key(alias),
        post.users.wf(),
        post.pay_ids.wf(),
        post.users@.contains_key(k),
        post.users@[k].pay_id == alias,
        user_v_wf(post.users@[k]),
        forall|j: Seq<char>| j != k ==> post.users@.contains_key(j) == pre.users@.contains_key(j),
        forall|j: Seq<char>|
            j != k && pre.users@.contains_key(j) ==> post.users@[j] == pre.users@[j],
        post.pay_ids@ == pre.pay_ids@.insert(alias, k),
        post.businesses == pre.businesses,
        post.chats == pre.chats,
        post.business_in_user == pre.business_in_user,
        post.histories == pre.histories,
        post.tx_registry == pre.tx_registry,
    ensures
        post.wf(),
{
    assert forall|j: Seq<char>| #[trigger] post.users@.contains_key(j) implies user_v_wf(
        post.users@[j],
    ) && !post.businesses@.contains_key(j) && post.pay_ids@.contains_key(post.users@[j].pay_id)
        && post.pay_ids@[post.users@[j].pay_id] == j by {
        if j != k {
            assert(pre.users@.contains_key(j));
            assert(pre.users@[j].pay_id != alias);
        }
    }
    assert forall|j: Seq<char>| #[trigger] post.businesses@.contains_key(j) implies
    post.pay_ids@.contains_key(post.businesses@[j].pay_id) && post.pay_ids@[post.businesses@[j].pay_id] == j by {
        assert(pre.businesses@.contains_key(j));
        assert(pre.businesses@[j].pay_id != alias);
    }
    assert forall|a: Seq<char>| #[trigger] post.pay_ids@.contains_key(a) implies {
        let o = post.pay_ids@[a];
        (post.users@.contains_key(o) && post.users@[o].pay_id == a) || (
        post.businesses@.contains_key(o) && post.businesses@[o].pay_id == a)
    } by {
        if a != alias {
            assert(pre.pay_ids@.contains_key(a));
            let o = pre.pay_ids@[a];
            if pre.users@.contains_key(o) && pre.users@[o].pay_id == a {
                assert(o != k);
            }
        }
    }
}

/// Moves the recency pair of `chat_id` from key `out_key` to key `in_key` in
/// the index of every registered participant other than the one whose alias
/// is `skip_alias`.
fn reposition_participants(
    state: &mut AppState,
    parts: &Vec<String>,
    skip_alias: &String,
    out_key: u64,
    in_key: u64,
    chat_id: &ChatId,
)
    requires
        old(state).wf(),
    ensures
        final(state).wf(),
        final(state).users@.dom() == old(state).users@.dom(),
        forall|k: Seq<char>| #[trigger]
            old(state).users@.contains_key(k) ==> if deep_strs(parts@).contains(
                old(state).users@[k].pay_id,
            ) && old(state).users@[k].pay_id != skip_alias@ {
                user_rechatted(
                    old(state).users@[k],
                    final(state).users@[k],
                    (out_key, chat_id@),
                    (in_key, chat_id@),
                )
            } else {
                final(state).users@[k] == old(state).users@[k]
            },
        final(state).businesses == old(state).businesses,
        final(state).pay_ids == old(state).pay_ids,
        final(state).chats == old(state).chats,
        final(state).business_in_user == old(state).business_in_user,
        final(state).histories == old(state).histories,
        final(state).tx_registry == old(state).tx_registry,
{
    let ghost pre = *old(state);
    let ghost out_p = (out_key, chat_id@);
    let ghost in_p = (in_key, chat_id@);
    let n = parts.len();
    let mut i: usize = 0;
    proof {
        assert(deep_strs(parts@).take(0) =~= Seq::<Seq<char>>::empty());
    }
    while i < n
        invariant
            pre == *old(state),
            pre.wf(),
            state.wf(),
            i <= n,
            n == parts@.len(),
            out_p == (out_key, chat_id@),
            in_p == (in_key, chat_id@),
            state.users@.dom() == pre.users@.dom(),
            forall|k: Seq<char>| #[trigger]
                pre.users@.contains_key(k) ==> if deep_strs(parts@).take(i as int).contains(
                    pre.users@[k].pay_id,
                ) && pre.users@[k].pay_id != skip_alias@ {
                    user_rechatted(pre.users@[k], state.users@[k], out_p, in_p)
                } else {
                    state.users@[k] == pre.users@[k]
                },
            state.businesses == pre.businesses,
            state.pay_ids == pre.pay_ids,
            state.chats == pre.chats,
            state.business_in_user == pre.business_in_user,
            state.histories == pre.histories,
            state.tx_registry == pre.tx_registry,
        decreases n - i,
    {
        let ghost taken = deep_strs(parts@).take(i as int);
        let a = &parts[i];
        proof {
            assert(deep_strs(parts@)[i as int] == a@);
            assert(deep_strs(parts@).take(i + 1) =~= taken.push(a@));
        }
        if !a.eq(skip_alias) {
            let resolved: Option<String> = match state.pay_ids.get(a) {
                Some(p) => Some(p.text.clone()),
                None => None,
            };
            match resolved {
                Some(ptext) => {
                    if state.users.contains_key(&ptext) {
                        proof {
                            assert(state.users@[ptext@].pay_id == a@);
                            assert(pre.users@.contains_key(ptext@));
                            assert(pre.users@[ptext@].pay_id == a@);
                        }
                        let mut u = match state.users.remove(&ptext) {
                            Some(u) => u,
                            None => {
                                proof {
                                    assert(false);
                                }
                                unreached()
                            },
                        };
                        let ghost u_mid0 = u@;
                        u.my_chats.reposition(out_key, in_key, chat_id);
                        let ghost u_new = u@;
                        state.users.insert(ptext.clone(), u);
                        proof {
                            assert(state.users@.dom() =~= pre.users@.dom());
                            assert forall|k: Seq<char>| #[trigger]
                                pre.users@.contains_key(k) implies (if deep_strs(parts@).take(
                                i + 1,
                            ).contains(pre.users@[k].pay_id) && pre.users@[k].pay_id
                                != skip_alias@ {
                                user_rechatted(pre.users@[k], state.users@[k], out_p, in_p)
                            } else {
                                state.users@[k] == pre.users@[k]
                            }) by {
                                lemma_contains_push(taken, a@, pre.users@[k].pay_id);
                                if k == ptext@ {
                                    if taken.contains(pre.users@[k].pay_id)
                                        && pre.users@[k].pay_id != skip_alias@ {
                                        crate::recency::lemma_rec_moved_compose(
                                            pre.users@[k].my_chats,
                                            u_mid0.my_chats,
                                            u_new.my_chats,
                                            out_p,
                                            in_p,
                                        );
                                    }
                                }
                            }
                            crate::state::lemma_wf_preserved(pre, *state);
                        }
                    } else {
                        proof {
                            assert forall|k: Seq<char>| #[trigger]
                                pre.users@.contains_key(k) implies pre.users@[k].pay_id != a@ by {
                                if pre.users@[k].pay_id == a@ {
                                    assert(state.users@.contains_key(k));
                                    assert(state.users@[k].pay_id == a@);
                                    assert(state.pay_ids@[a@] == k);
                                }
                            }
                            assert forall|k: Seq<char>| #[trigger]
                                pre.users@.contains_key(k) implies (if deep_strs(parts@).take(
                                i + 1,
                            ).contains(pre.users@[k].pay_id) && pre.users@[k].pay_id
                                != skip_alias@ {
                                user_rechatted(pre.users@[k], state.users@[k], out_p, in_p)
                            } else {
                                state.users@[k] == pre.users@[k]
                            }) by {
                                lemma_contains_push(taken, a@, pre.users@[k].pay_id);
                            }
                        }
                    }
                },
                None => {
                    proof {
                        assert forall|k: Seq<char>| #[trigger]
                            pre.users@.contains_key(k) implies pre.users@[k].pay_id != a@ by {
                            if pre.users@[k].pay_id == a@ {
                                assert(state.users@.contains_key(k));
                                assert(state.users@[k].pay_id == a@);
                            }
                        }
                        assert forall|k: Seq<char>| #[trigger]
                            pre.users@.contains_key(k) implies (if deep_strs(parts@).take(
                            i + 1,
                        ).contains(pre.users@[k].pay_id) && pre.users@[k].pay_id != skip_alias@ {
                            user_rechatted(pre.users@[k], state.users@[k], out_p, in_p)
                        } else {
                            state.users@[k] == pre.users@[k]
                        }) by {
                            lemma_contains_push(taken, a@, pre.users@[k].pay_id);
                        }
                    }
                },
            }
        } else {
            proof {
                assert forall|k: Seq<char>| #[trigger]
                    pre.users@.contains_key(k) implies (if deep_strs(parts@).take(i + 1).contains(
                    pre.users@[k].pay_id,
                ) && pre.users@[k].pay_id != skip_alias@ {
                    user_rechatted(pre.users@[k], state.users@[k], out_p, in_p)
                } else {
                    state.users@[k] == pre.users@[k]
                }) by {
                    lemma_contains_push(taken, a@, pre.users@[k].pay_id);
                }
            }
        }
        i = i + 1;
    }
    proof {
        assert(deep_strs(parts@).take(n as int) =~= deep_strs(parts@));
    }
}

/// The message a successful `add_message` appends and returns.
pub open spec fn new_message_v(alias: Seq<char>, content: Seq<char>, now: u64) -> MessageV {
    MessageV { sender_id: alias, content, timestamp: now, read_by: seq![alias] }
}

/// The chat value after appending event `e` at time `now`.
pub open spec fn chat_with_event(pre: ChatV, e: MessageOrTransactionV, now: u64) -> ChatV {
    ChatV {
        id: pre.id,
        participants: pre.participants,
        messages: pre.messages.push(e),
        last_activity: now,
    }
}

/// Appends a free-text message from the caller to a chat, stamps the chat's
/// recency, and repositions the chat in every participant's index.
pub fn add_message(
    state: &mut AppState,
    caller: &Identity,
    now: u64,
    chat_id: ChatId,
    content: String,
) -> (r: Result<Message, AddMessageErr>)
    requires
        old(state).wf(),
    ensures
        final(state).wf(),
        !old(state).users@.contains_key(caller@) ==> r == Err::<Message, AddMessageErr>(
            AddMessageErr::AccountNotFound,
        ) && *final(state) == *old(state),
        old(state).users@.contains_key(caller@) && !old(state).chats@.contains_key(chat_id@) ==> r
            == Err::<Message, AddMessageErr>(AddMessageErr::ChatNotFound) && *final(state) == *old(state),
        old(state).users@.contains_key(caller@) && old(state).chats@.contains_key(chat_id@) ==> {
            let alias = old(state).users@[caller@].pay_id;
            let pre_chat = old(state).chats@[chat_id@];
            let out_p = (pre_chat.last_activity, chat_id@);
            let in_p = (now, chat_id@);
            if !pre_chat.participants.contains(alias) {
                r == Err::<Message, AddMessageErr>(AddMessageErr::NotAParticipant) && *final(state)
                    == *old(state)
            } else if !old(state).users@[caller@].my_chats.contains(out_p) {
                r == Err::<Message, AddMessageErr>(AddMessageErr::NotAParticipant) && *final(state)
                    == *old(state)
            } else {
                &&& r matches Ok(m) && m@ == new_message_v(alias, content@, now)
                &&& final(state).chats@ == old(state).chats@.insert(
                    chat_id@,
                    chat_with_event(
                        pre_chat,
                        MessageOrTransactionV::Message(new_message_v(alias, content@, now)),
                        now,
                    ),
                )
                &&& final(state).users@.dom() == old(state).users@.dom()
                &&& user_rechatted(
                    old(state).users@[caller@],
                    final(state).users@[caller@],
                    out_p,
                    in_p,
                )
                &&& forall|k: Seq<char>| #[trigger]
                    old(state).users@.contains_key(k) && k != caller@ ==> if
                    pre_chat.participants.contains(old(state).users@[k].pay_id) && old(
                        state,
                    ).users@[k].pay_id != alias {
                        user_rechatted(old(state).users@[k], final(state).users@[k], out_p, in_p)
                    } else {
                        final(state).users@[k] == old(state).users@[k]
                    }
                &&& final(state).businesses@ == old(state).businesses@
                &&& final(state).pay_ids@ == old(state).pay_ids@
                &&& final(state).business_in_user@ == old(state).business_in_user@
                &&& final(state).histories@ == old(state).histories@
                &&& final(state).tx_registry@ == old(state).tx_registry@
            }
        },
{
    let alias = match state.users.get(&caller.text) {
        Some(u) => u.pay_id.clone(),
        None => {
            return Err(AddMessageErr::AccountNotFound);
        },
    };
    let (pre_last, participants) = match state.chats.get(&chat_id) {
        Some(c) => {
            if !c.is_participant(&alias) {
                return Err(AddMessageErr::NotAParticipant);
            }
            (c.last_activity, dup_strings(&c.participants))
        },
        None => {
            return Err(AddMessageErr::ChatNotFound);
        },
    };
    let in_index = match state.users.get(&caller.text) {
        Some(u) => u.my_chats.contains_pair(pre_last, &chat_id),
        None => {
            proof {
                assert(false);
            }
            unreached()
        },
    };
    if !in_index {
        return Err(AddMessageErr::NotAParticipant);
    }
    let ghost pre = *old(state);
    let message = Message {
        sender_id: alias.clone(),
        content,
        timestamp: now,
        read_by: vec![alias.clone()],
    };
    proof {
        assert(deep_strs(message.read_by@) =~= seq![alias@]);
    }
    let returned = Message {
        sender_id: message.sender_id.clone(),
        content: message.content.clone(),
        timestamp: message.timestamp,
        read_by: dup_strings(&message.read_by),
    };
    let mut chat = match state.chats.remove(&chat_id) {
        Some(c) => c,
        None => {
            proof {
                assert(false);
            }
            unreached()
        },
    };
    chat.messages.push(MessageOrTransaction::Message(message));
    chat.last_activity = now;
    proof {
        assert(events_view(chat.messages@) =~= pre.chats@[chat_id@].messages.push(
            MessageOrTransactionV::Message(new_message_v(alias@, content@, now)),
        ));
        assert(chat@ == chat_with_event(
            pre.chats@[chat_id@],
            MessageOrTransactionV::Message(new_message_v(alias@, content@, now)),
            now,
        ));
    }
    state.chats.insert(chat_id.clone(), chat);
    proof {
        assert(state.chats@ =~= pre.chats@.insert(
            chat_id@,
            chat_with_event(
                pre.chats@[chat_id@],
                MessageOrTransactionV::Message(new_message_v(alias@, content@, now)),
                now,
            ),
        ));
    }
    let mut u1 = match state.users.remove(&caller.text) {
        Some(u) => u,
        None => {
            proof {
                assert(false);
            }
            unreached()
        },
    };
    u1.my_chats.reposition(pre_last, now, &chat_id);
    state.users.insert(caller.text.clone(), u1);
    let ghost mid = *state;
    proof {
        assert(mid.users@.dom() =~= pre.users@.dom());
        crate::state::lemma_wf_preserved(pre, mid);
    }
    reposition_participants(state, &participants, &alias, pre_last, now, &chat_id);
    proof {
        assert(state.users@.dom() =~= pre.users@.dom());
        assert(mid.users@[caller@].pay_id == alias@);
        assert forall|k: Seq<char>| #[trigger]
            pre.users@.contains_key(k) && k != caller@ implies (if deep_strs(
            participants@,
        ).contains(pre.users@[k].pay_id) && pre.users@[k].pay_id != alias@ {
            user_rechatted(
                pre.users@[k],
                state.users@[k],
                (pre_last, chat_id@),
                (now, chat_id@),
            )
        } else {
            state.users@[k] == pre.users@[k]
        }) by {
            assert(mid.users@[k] == pre.users@[k]);
        }
        assert(deep_strs(participants@) == pre.chats@[chat_id@].participants);
        assert(user_rechatted(
            pre.users@[caller@],
            state.users@[caller@],
            (pre_last, chat_id@),
            (now, chat_id@),
        )) by {
            assert(state.users@[caller@] == mid.users@[caller@]);
        }
    }
    Ok(returned)
}

/// Marks the events of a chat as read by the caller, newest backwards, up to
/// the first event already read.
pub fn mark_message_read(state: &mut AppState, caller: &Identity, chat_id: ChatId) -> (r: Result<
    (),
    MarkMessageReadErr,
>)
    requires
        old(state).wf(),
    ensures
        final(state).wf(),
        !old(state).chats@.contains_key(chat_id@) ==> r == Err::<(), MarkMessageReadErr>(
            MarkMessageReadErr::ChatNotFound,
        ) && *final(state) == *old(state),
        old(state).chats@.contains_key(chat_id@) && !old(state).users@.contains_key(caller@) ==> r
            == Err::<(), MarkMessageReadErr>(MarkMessageReadErr::AccountNotFound) && *final(state)
            == *old(state),
        old(state).chats@.contains_key(chat_id@) && old(state).users@.contains_key(caller@) ==> {
            let alias = old(state).users@[caller@].pay_id;
            let pre_chat = old(state).chats@[chat_id@];
            if !pre_chat.participants.contains(alias) {
                r == Err::<(), MarkMessageReadErr>(MarkMessageReadErr::NotAParticipant)
                    && *final(state) == *old(state)
            } else {
                &&& r == Ok::<(), MarkMessageReadErr>(())
                &&& final(state).chats@ == old(state).chats@.insert(
                    chat_id@,
                    ChatV {
                        id: pre_chat.id,
                        participants: pre_chat.participants,
                        messages: mark_read_spec(pre_chat.messages, alias),
                        last_activity: pre_chat.last_activity,
                    },
                )
                &&& final(state).users@ == old(state).users@
                &&& final(state).businesses@ == old(state).businesses@
                &&& final(state).pay_ids@ == old(state).pay_ids@
                &&& final(state).business_in_user@ == old(state).business_in_user@
                &&& final(state).histories@ == old(state).histories@
                &&& final(state).tx_registry@ == old(state).tx_registry@
            }
        },
{
    if !state.chats.contains_key(&chat_id) {
        return Err(MarkMessageReadErr::ChatNotFound);
    }
    let alias = match state.users.get(&caller.text) {
        Some(u) => u.pay_id.clone(),
        None => {
            return Err(MarkMessageReadErr::AccountNotFound);
        },
    };
    let is_part = match state.chats.get(&chat_id) {
        Some(c) => c.is_participant(&alias),
        None => {
            proof {
                assert(false);
            }
            unreached()
        },
    };
    if !is_part {
        return Err(MarkMessageReadErr::NotAParticipant);
    }
    let ghost pre = *old(state);
    let mut chat = match state.chats.remove(&chat_id) {
        Some(c) => c,
        None => {
            proof {
                assert(false);
            }
            unreached()
        },
    };
    chat.mark_read(&alias);
    state.chats.insert(chat_id.clone(), chat);
    proof {
        crate::state::lemma_wf_preserved(pre, *state);
    }
    Ok(())
}

/// All chats of the caller, oldest first by recency key; an unregistered
/// caller gets the empty list.
pub fn get_my_chats(state: &AppState, caller: &Identity) -> (r: Vec<Chat>)
    requires
        state.wf(),
    ensures
        !state.users@.contains_key(caller@) ==> r@.len() == 0,
        state.users@.contains_key(caller@) ==> deep_view_seq(r@) == collect_asc(
            state.users@[caller@].my_chats,
            state.chats@,
        ),
{
    let mut out: Vec<Chat> = Vec::new();
    let user = match state.users.get(&caller.text) {
        Some(u) => u,
        None => {
            return out;
        },
    };
    let ghost idx = user.my_chats@;
    let n = user.my_chats.len();
    let mut i: usize = 0;
    proof {
        assert(idx.take(0) =~= Seq::<(u64, Seq<char>)>::empty());
        assert(deep_view_seq(out@) =~= collect_asc(idx.take(0), state.chats@));
    }
    while i < n
        invariant
            state.wf(),
            i <= n,
            n == idx.len(),
            idx == state.users@[caller@].my_chats,
            state.users@.contains_key(caller@),
            user@ == state.users@[caller@],
            deep_view_seq(out@) == collect_asc(idx.take(i as int), state.chats@),
        decreases n - i,
    {
        let id = user.my_chats.id_at(i);
        proof {
            assert(idx.take(i + 1).drop_last() =~= idx.take(i as int));
            assert(idx.take(i + 1).last() == idx[i as int]);
        }
        match state.chats.get(id) {
            Some(c) => {
                out.push(c.duplicate());
                proof {
                    assert(deep_view_seq(out@) =~= collect_asc(idx.take(i + 1), state.chats@));
                }
            },
            None => {
                proof {
                    assert(deep_view_seq(out@) =~= collect_asc(idx.take(i + 1), state.chats@));
                }
            },
        }
        i = i + 1;
    }
    proof {
        assert(idx.take(n as int) =~= idx);
    }
    out
}

/// The chat named by `chat_id`, for a registered caller who participates in
/// it.
pub fn get_chat(state: &AppState, caller: &Identity, chat_id: &ChatId) -> (r: Option<Chat>)
    requires
        state.wf(),
    ensures
        match r {
            Some(c) => state.users@.contains_key(caller@) && state.chats@.contains_key(chat_id@)
                && state.chats@[chat_id@].participants.contains(state.users@[caller@].pay_id) && c@
                == state.chats@[chat_id@],
            None => !(state.users@.contains_key(caller@) && state.chats@.contains_key(chat_id@)
                && state.chats@[chat_id@].participants.contains(state.users@[caller@].pay_id)),
        },
{
    let pay_id = match state.users.get(&caller.text) {
        Some(u) => u.pay_id.clone(),
        None => {
            return None;
        },
    };
    match state.chats.get(chat_id) {
        Some(c) => {
            if c.is_participant(&pay_id) {
                Some(c.duplicate())
            } else {
                None
            }
        },
        None => None,
    }
}

/// How `user_add_business` resolves its argument, and with which error it
/// refuses it.
pub open spec fn resolve_business(s: AppState, arg: PayIdOrPrincipal) -> Result<
    Seq<char>,
    AddBusinessError,
> {
    match arg {
        PayIdOrPrincipal::Principal(p) => if !s.businesses@.contains_key(p@) {
            Err(AddBusinessError::BusinessNotFound)
        } else {
            Ok(p@)
        },
        PayIdOrPrincipal::PayId(a) => if !s.pay_ids@.contains_key(a@) {
            Err(AddBusinessError::BusinessNotFound)
        } else if !s.businesses@.contains_key(s.pay_ids@[a@]) {
            Err(AddBusinessError::BusinessNotFound)
        } else {
            Ok(s.pay_ids@[a@])
        },
    }
}

/// The relationship record a first `user_add_business` stores.
pub open spec fn fresh_business_in_user_v(
    id: Seq<char>,
    b: crate::business::BusinessV,
    bk: Seq<char>,
    now: u64,
) -> BusinessInUserV {
    BusinessInUserV {
        id,
        b_name: b.name,
        b_pay_id: b.pay_id,
        b_logo: b.logo,
        b_category: b.category,
        b_principal: bk,
        transactions: Seq::empty(),
        last_activity: now,
    }
}

/// Creates (or returns) the caller's relationship record with the named
/// business.  A fresh record snapshots the business's profile and is entered
/// into the caller's business recency index under the current time.
pub fn user_add_business(
    state: &mut AppState,
    caller: &Identity,
    now: u64,
    arg: PayIdOrPrincipal,
) -> (r: Result<BusinessInUser, AddBusinessError>)
    requires
        old(state).wf(),
    ensures
        final(state).wf(),
        !old(state).users@.contains_key(caller@) ==> r == Err::<BusinessInUser, AddBusinessError>(
            AddBusinessError::AccountNotFound,
        ) && *final(state) == *old(state),
        old(state).users@.contains_key(caller@) ==> match resolve_business(*old(state), arg) {
            Err(e) => r == Err::<BusinessInUser, AddBusinessError>(e) && *final(state) == *old(state),
            Ok(bk) => {
                let id = pair_key(
                    old(state).users@[caller@].pay_id,
                    old(state).businesses@[bk].pay_id,
                );
                if old(state).business_in_user@.contains_key(id) {
                    &&& r matches Ok(l) && l@ == old(state).business_in_user@[id]
                    &&& *final(state) == *old(state)
                } else {
                    &&& r matches Ok(l) && l@ == fresh_business_in_user_v(
                        id,
                        old(state).businesses@[bk],
                        bk,
                        now,
                    )
                    &&& final(state).business_in_user@ == old(state).business_in_user@.insert(
                        id,
                        fresh_business_in_user_v(id, old(state).businesses@[bk], bk, now),
                    )
                    &&& final(state).users@.dom() == old(state).users@.dom()
                    &&& user_biz_added(
                        old(state).users@[caller@],
                        final(state).users@[caller@],
                        (now, id),
                    )
                    &&& forall|k: Seq<char>|
                        k != caller@ && #[trigger] old(state).users@.contains_key(k)
                            ==> final(state).users@[k] == old(state).users@[k]
                    &&& final(state).businesses@ == old(state).businesses@
                    &&& final(state).pay_ids@ == old(state).pay_ids@
                    &&& final(state).chats@ == old(state).chats@
                    &&& final(state).histories@ == old(state).histories@
                    &&& final(state).tx_registry@ == old(state).tx_registry@
                }
            },
        },
{
    let user_pay = match state.users.get(&caller.text) {
        Some(u) => u.pay_id.clone(),
        None => {
            return Err(AddBusinessError::AccountNotFound);
        },
    };
    let bkey: String = match &arg {
        PayIdOrPrincipal::Principal(p) => {
            if !state.businesses.contains_key(&p.text) {
                return Err(AddBusinessError::BusinessNotFound);
            }
            p.text.clone()
        },
        PayIdOrPrincipal::PayId(a) => {
            match state.pay_ids.get(a) {
                Some(p) => {
                    let t = p.text.clone();
                    if !state.businesses.contains_key(&t) {
                        return Err(AddBusinessError::BusinessNotFound);
                    }
                    t
                },
                None => {
                    return Err(AddBusinessError::BusinessNotFound);
                },
            }
        },
    };
    let (b_name, b_pay, b_logo, b_cat) = match state.businesses.get(&bkey) {
        Some(b) => (b.name.clone(), b.pay_id.clone(), b.logo.clone(), b.category),
        None => {
            proof {
                assert(false);
            }
            unreached()
        },
    };
    proof {
        crate::state::lemma_user_business_aliases_differ(state, caller@, bkey@);
    }
    let id = create_key(&user_pay, &b_pay);
    if let Some(l) = state.business_in_user.get(&id) {
        return Ok(l.duplicate());
    }
    let ghost pre = *old(state);
    let link = BusinessInUser {
        id: id.clone(),
        b_name,
        b_pay_id: b_pay,
        b_logo,
        b_category: b_cat,
        b_principal: Identity::new(bkey),
        transactions: Vec::new(),
        last_activity: now,
    };
    proof {
        assert(link@.transactions =~= Seq::<BusinessUserTxV>::empty());
        assert(link@ == fresh_business_in_user_v(id@, pre.businesses@[link.b_principal@], link.b_principal@, now));
    }
    let returned = link.duplicate();
    state.business_in_user.insert(id.clone(), link);
    let mut u = match state.users.remove(&caller.text) {
        Some(u) => u,
        None => {
            proof {
                assert(false);
            }
            unreached()
        },
    };
    u.with_businesses.insert_pair(now, id);
    state.users.insert(caller.text.clone(), u);
    proof {
        assert(state.users@.dom() =~= pre.users@.dom());
        crate::state::lemma_wf_preserved(pre, *state);
    }
    Ok(returned)
}

/// What a user-to-user transfer does to the state: one transfer event in the
/// pair's chat (created on first use), one `Sends` entry in the sender's
/// history and one `Receive` entry in the receiver's, and both users' chat
/// recency moved to the transfer's timestamp.
pub open spec fn user_to_user_applied(
    pre: AppState,
    post: AppState,
    caller: Seq<char>,
    arg_from: Seq<char>,
    arg_to: Seq<char>,
    ts: u64,
    note: Option<Seq<char>>,
    amount: u64,
    tx_id: u64,
) -> bool {
    let fu = pre.users@[arg_from];
    let tu = pre.users@[arg_to];
    let cid = pair_key(fu.pay_id, tu.pay_id);
    let pre_chat = if pre.chats@.contains_key(cid) {
        pre.chats@[cid]
    } else {
        fresh_chat_v(cid, fu.pay_id, tu.pay_id, ts)
    };
    let rb: Seq<Seq<char>> = if caller == arg_from || caller == arg_to {
        seq![fu.pay_id]
    } else {
        Seq::empty()
    };
    let ev = MessageOrTransactionV::Transaction(
        TransactionV { sender_id: fu.pay_id, timestamp: ts, note, amount, tx_id, read_by: rb },
    );
    let send = entry_v(TxKind::Sends, tu.name, tu.pay_id, tx_id, ts, amount, note);
    let recv = entry_v(TxKind::Receive, fu.name, fu.pay_id, tx_id, ts, amount, note);
    &&& post.chats@ == pre.chats@.insert(cid, chat_with_event(pre_chat, ev, ts))
    &&& post.histories@ == hist_after(hist_after(pre.histories@, arg_from, send), arg_to, recv)
    &&& post.users@.dom() == pre.users@.dom()
    &&& user_rechatted(fu, post.users@[arg_from], (pre_chat.last_activity, cid), (ts, cid))
    &&& user_rechatted(tu, post.users@[arg_to], (pre_chat.last_activity, cid), (ts, cid))
    &&& forall|k: Seq<char>|
        k != arg_from && k != arg_to && #[trigger] pre.users@.contains_key(k)
            ==> post.users@[k] == pre.users@[k]
    &&& post.businesses@ == pre.businesses@
    &&& post.pay_ids@ == pre.pay_ids@
    &&& post.business_in_user@ == pre.business_in_user@
}

/// Applies a verified transfer between two registered users.
pub fn add_user_to_user_transaction(state: &mut AppState, caller: &Identity, arg: UserToUserTxArg)
    requires
        old(state).wf(),
        old(state).users@.contains_key(arg.from@),
        old(state).users@.contains_key(arg.to@),
        arg.from@ != arg.to@,
    ensures
        final(state).wf(),
        final(state).tx_registry == old(state).tx_registry,
        user_to_user_applied(
            *old(state),
            *final(state),
            caller@,
            arg.from@,
            arg.to@,
            arg.timestamp,
            opt_str_view(arg.note),
            arg.amount,
            arg.tx_id,
        ),
{
    let ghost pre = *old(state);
    let (f_name, f_pay) = match state.users.get(&arg.from.text) {
        Some(u) => (u.name.clone(), u.pay_id.clone()),
        None => {
            proof {
                assert(false);
            }
            unreached()
        },
    };
    let (t_name, t_pay) = match state.users.get(&arg.to.text) {
        Some(u) => (u.name.clone(), u.pay_id.clone()),
        None => {
            proof {
                assert(false);
            }
            unreached()
        },
    };
    proof {
        crate::state::lemma_user_aliases_differ(state, arg.from@, arg.to@);
    }
    let chat_id = create_key(&f_pay, &t_pay);
    let ghost cid = chat_id@;
    let mut chat = match state.chats.remove(&chat_id) {
        Some(c) => c,
        None => {
            let c = Chat {
                id: chat_id.clone(),
                participants: vec![f_pay.clone(), t_pay.clone()],
                messages: Vec::new(),
                last_activity: arg.timestamp,
            };
            proof {
                assert(c@.participants =~= seq![f_pay@, t_pay@]);
                assert(c@.messages =~= Seq::<MessageOrTransactionV>::empty());
                assert(c@ == fresh_chat_v(cid, f_pay@, t_pay@, arg.timestamp));
            }
            c
        },
    };
    let ghost pre_chat = chat@;
    let pre_last = chat.last_activity;
    let read_by: Vec<String> = if caller.same_as(&arg.from) || caller.same_as(&arg.to) {
        vec![f_pay.clone()]
    } else {
        Vec::new()
    };
    proof {
        if caller@ == arg.from@ || caller@ == arg.to@ {
            assert(deep_strs(read_by@) =~= seq![f_pay@]);
        } else {
            assert(deep_strs(read_by@) =~= Seq::<Seq<char>>::empty());
        }
    }
    let tx = Transaction {
        sender_id: f_pay.clone(),
        timestamp: arg.timestamp,
        note: dup_opt_string(&arg.note),
        amount: arg.amount,
        tx_id: arg.tx_id,
        read_by,
    };
    let ghost ev = tx@;
    chat.messages.push(MessageOrTransaction::Transaction(tx));
    chat.last_activity = arg.timestamp;
    proof {
        assert(events_view(chat.messages@) =~= pre_chat.messages.push(
            MessageOrTransactionV::Transaction(ev),
        ));
        assert(chat@ == chat_with_event(
            pre_chat,
            MessageOrTransactionV::Transaction(ev),
            arg.timestamp,
        ));
    }
    state.chats.insert(chat_id.clone(), chat);
    proof {
        assert(state.chats@ =~= pre.chats@.insert(
            cid,
            chat_with_event(pre_chat, MessageOrTransactionV::Transaction(ev), arg.timestamp),
        ));
    }
    let mut fu = match state.users.remove(&arg.from.text) {
        Some(u) => u,
        None => {
            proof {
                assert(false);
            }
            unreached()
        },
    };
    fu.my_chats.reposition(pre_last, arg.timestamp, &chat_id);
    state.users.insert(arg.from.text.clone(), fu);
    let mut tu = match state.users.remove(&arg.to.text) {
        Some(u) => u,
        None => {
            proof {
                assert(false);
            }
            unreached()
        },
    };
    tu.my_chats.reposition(pre_last, arg.timestamp, &chat_id);
    state.users.insert(arg.to.text.clone(), tu);
    let send = TransactionEntry {
        kind: TxKind::Sends,
        name: t_name,
        pay_id: t_pay,
        tx_id: arg.tx_id,
        timestamp: arg.timestamp,
        amount: arg.amount,
        note: dup_opt_string(&arg.note),
    };
    let recv = TransactionEntry {
        kind: TxKind::Receive,
        name: f_name,
        pay_id: f_pay,
        tx_id: arg.tx_id,
        timestamp: arg.timestamp,
        amount: arg.amount,
        note: dup_opt_string(&arg.note),
    };
    crate::state::append_history(state, &arg.from, send);
    crate::state::append_history(state, &arg.to, recv);
    proof {
        assert(state.users@.dom() =~= pre.users@.dom());
        crate::state::lemma_wf_preserved(pre, *state);
    }
}

/// What a user-business transfer does to the state, seen from the user's
/// side: one sub-ledger entry in the pair's relationship record (created on
/// first use, snapshotting the business), one history entry for the user,
/// and the user's business recency moved to the transfer's timestamp.
pub open spec fn user_business_applied(
    pre: AppState,
    post: AppState,
    u: Seq<char>,
    b: Seq<char>,
    kind: TxKind,
    amount: u64,
    ts: u64,
    tx_id: u64,
    note: Option<Seq<char>>,
) -> bool {
    let uu = pre.users@[u];
    let bb = pre.businesses@[b];
    let id = pair_key(uu.pay_id, bb.pay_id);
    let pre_link = if pre.business_in_user@.contains_key(id) {
        pre.business_in_user@[id]
    } else {
        fresh_business_in_user_v(id, bb, b, ts)
    };
    let sender = if kind == TxKind::Sends {
        uu.pay_id
    } else {
        bb.pay_id
    };
    let btx = BusinessUserTxV { sender_id: sender, timestamp: ts, note, amount, tx_id };
    let he = entry_v(kind, bb.name, bb.pay_id, tx_id, ts, amount, note);
    &&& post.business_in_user@ == pre.business_in_user@.insert(
        id,
        BusinessInUserV {
            transactions: pre_link.transactions.push(btx),
            last_activity: ts,
            ..pre_link
        },
    )
    &&& post.histories@ == hist_after(pre.histories@, u, he)
    &&& post.users@.dom() == pre.users@.dom()
    &&& user_rebizzed(uu, post.users@[u], (pre_link.last_activity, id), (ts, id))
    &&& forall|k: Seq<char>|
        k != u && #[trigger] pre.users@.contains_key(k) ==> post.users@[k] == pre.users@[k]
    &&& post.businesses@ == pre.businesses@
    &&& post.pay_ids@ == pre.pay_ids@
    &&& post.chats@ == pre.chats@
}

/// Applies the user-side half of a verified transfer between a user and a
/// business.
pub fn add_user_business_transaction(state: &mut AppState, arg: UserBusinessTxArg)
    requires
        old(state).wf(),
        old(state).users@.contains_key(arg.u_principal@),
        old(state).businesses@.contains_key(arg.b_principal@),
    ensures
        final(state).wf(),
        final(state).tx_registry == old(state).tx_registry,
        user_business_applied(
            *old(state),
            *final(state),
            arg.u_principal@,
            arg.b_principal@,
            arg.tx_kind,
            arg.amount,
            arg.timestamp,
            arg.tx_id,
            opt_str_view(arg.note),
        ),
{
    let ghost pre = *old(state);
    let u_pay = match state.users.get(&arg.u_principal.text) {
        Some(u) => u.pay_id.clone(),
        None => {
            proof {
                assert(false);
            }
            unreached()
        },
    };
    let (b_name, b_pay, b_logo, b_cat) = match state.businesses.get(&arg.b_principal.text) {
        Some(b) => (b.name.clone(), b.pay_id.clone(), b.logo.clone(), b.category),
        None => {
            proof {
                assert(false);
            }
            unreached()
        },
    };
    proof {
        crate::state::lemma_user_business_aliases_differ(state, arg.u_principal@, arg.b_principal@);
    }
    let id = create_key(&u_pay, &b_pay);
    let mut link = match state.business_in_user.remove(&id) {
        Some(l) => l,
        None => {
            let l = BusinessInUser {
                id: id.clone(),
                b_name: b_name.clone(),
                b_pay_id: b_pay.clone(),
                b_logo,
                b_category: b_cat,
                b_principal: arg.b_principal.duplicate(),
                transactions: Vec::new(),
                last_activity: arg.timestamp,
            };
            proof {
                assert(l@.transactions =~= Seq::<BusinessUserTxV>::empty());
                assert(l@ == fresh_business_in_user_v(
                    id@,
                    pre.businesses@[arg.b_principal@],
                    arg.b_principal@,
                    arg.timestamp,
                ));
            }
            l
        },
    };
    let ghost pre_link = link@;
    let pre_last = link.last_activity;
    let sender_id = match arg.tx_kind {
        TxKind::Sends => u_pay.clone(),
        TxKind::Receive => b_pay.clone(),
    };
    let btx = BusinessUserTx {
        sender_id,
        timestamp: arg.timestamp,
        note: dup_opt_string(&arg.note),
        amount: arg.amount,
        tx_id: arg.tx_id,
    };
    let ghost btx_v = btx@;
    link.transactions.push(btx);
    link.last_activity = arg.timestamp;
    proof {
        assert(subledger_view(link.transactions@) =~= pre_link.transactions.push(btx_v));
        assert(link@ == BusinessInUserV {
            transactions: pre_link.transactions.push(btx_v),
            last_activity: arg.timestamp,
            ..pre_link
        });
    }
    state.business_in_user.insert(id.clone(), link);
    proof {
        assert(state.business_in_user@ =~= pre.business_in_user@.insert(
            id@,
            BusinessInUserV {
                transactions: pre_link.transactions.push(btx_v),
                last_activity: arg.timestamp,
                ..pre_link
            },
        ));
    }
    let mut u = match state.users.remove(&arg.u_principal.text) {
        Some(u) => u,
        None => {
            proof {
                assert(false);
            }
            unreached()
        },
    };
    u.with_businesses.reposition(pre_last, arg.timestamp, &id);
    state.users.insert(arg.u_principal.text.clone(), u);
    let he = TransactionEntry {
        kind: arg.tx_kind,
        name: b_name,
        pay_id: b_pay,
        tx_id: arg.tx_id,
        timestamp: arg.timestamp,
        amount: arg.amount,
        note: dup_opt_string(&arg.note),
    };
    crate::state::append_history(state, &arg.u_principal, he);
    proof {
        assert(state.users@.dom() =~= pre.users@.dom());
        crate::state::lemma_wf_preserved(pre, *state);
    }
}

/// What a transfer between a user and an unrecognized identity does to the
/// state: one history entry under the user, naming the unknown identity's
/// textual form.
pub open spec fn user_unknown_applied(
    pre: AppState,
    post: AppState,
    u: Seq<char>,
    unknown: Seq<char>,
    kind: TxKind,
    amount: u64,
    ts: u64,
    tx_id: u64,
    note: Option<Seq<char>>,
) -> bool {
    &&& post.histories@ == hist_after(
        pre.histories@,
        u,
        entry_v(kind, unknown, unknown, tx_id, ts, amount, note),
    )
    &&& post.users@ == pre.users@
    &&& post.businesses@ == pre.businesses@
    &&& post.pay_ids@ == pre.pay_ids@
    &&& post.chats@ == pre.chats@
    &&& post.business_in_user@ == pre.business_in_user@
}

/// Records a transfer between a user and an unrecognized identity in the
/// user's history.
pub fn add_unknown_transaction(state: &mut AppState, arg: UserUnknownTxArg)
    requires
        old(state).wf(),
    ensures
        final(state).wf(),
        final(state).tx_registry == old(state).tx_registry,
        user_unknown_applied(
            *old(state),
            *final(state),
            arg.u_principal@,
            arg.unknown@,
            arg.tx_kind,
            arg.amount,
            arg.timestamp,
            arg.tx_id,
            opt_str_view(arg.note),
        ),
{
    let ghost pre = *old(state);
    let entry = TransactionEntry {
        kind: arg.tx_kind,
        name: arg.unknown.text.clone(),
        pay_id: arg.unknown.text.clone(),
        tx_id: arg.tx_id,
        timestamp: arg.timestamp,
        amount: arg.amount,
        note: dup_opt_string(&arg.note),
    };
    crate::state::append_history(state, &arg.u_principal, entry);
    proof {
        crate::state::lemma_wf_preserved(pre, *state);
    }
}

/// Creates a payment request in a chat the caller participates in.  The
/// request expires 24 hours after the minute-truncated request time; the
/// request event advances the chat's recency for every participant.
pub fn request_payment(state: &mut AppState, caller: &Identity, now: u64, arg: ReqPayArg) -> (r:
    Result<RequestPayment, RequestPaymentError>)
    requires
        old(state).wf(),
        now <= MAX_REQUEST_TIMESTAMP,
    ensures
        final(state).wf(),
        !old(state).users@.contains_key(caller@) ==> r == Err::<RequestPayment, RequestPaymentError>(
            RequestPaymentError::AccountNotFound,
        ) && *final(state) == *old(state),
        old(state).users@.contains_key(caller@) && !old(state).chats@.contains_key(arg.chat_id@)
            ==> r == Err::<RequestPayment, RequestPaymentError>(RequestPaymentError::ChatNotFound)
            && *final(state) == *old(state),
        old(state).users@.contains_key(caller@) && old(state).chats@.contains_key(arg.chat_id@)
            ==> {
            let alias = old(state).users@[caller@].pay_id;
            let pre_chat = old(state).chats@[arg.chat_id@];
            let out_p = (pre_chat.last_activity, arg.chat_id@);
            let in_p = (now, arg.chat_id@);
            if !pre_chat.participants.contains(alias) {
                r == Err::<RequestPayment, RequestPaymentError>(
                    RequestPaymentError::NotAParticipant,
                ) && *final(state) == *old(state)
            } else {
                &&& r matches Ok(rp) && {
                    &&& rp@.sender_id == alias
                    &&& rp@.requested_at == now
                    &&& rp@.amount == arg.amount
                    &&& rp@.payment_at == None::<u64>
                    &&& rp@.tx_id == None::<u64>
                    &&& rp@.expires_at == expiry_spec(now)
                    &&& rp@.note == opt_str_view(arg.note)
                    &&& rp@.read_by == seq![alias]
                    &&& final(state).chats@ == old(state).chats@.insert(
                        arg.chat_id@,
                        chat_with_event(
                            pre_chat,
                            MessageOrTransactionV::RequestPayment(rp@),
                            now,
                        ),
                    )
                }
                &&& final(state).users@.dom() == old(state).users@.dom()
                &&& user_rechatted(
                    old(state).users@[caller@],
                    final(state).users@[caller@],
                    out_p,
                    in_p,
                )
                &&& forall|k: Seq<char>| #[trigger]
                    old(state).users@.contains_key(k) && k != caller@ ==> if
                    pre_chat.participants.contains(old(state).users@[k].pay_id) && old(
                        state,
                    ).users@[k].pay_id != alias {
                        user_rechatted(old(state).users@[k], final(state).users@[k], out_p, in_p)
                    } else {
                        final(state).users@[k] == old(state).users@[k]
                    }
                &&& final(state).businesses@ == old(state).businesses@
                &&& final(state).pay_ids@ == old(state).pay_ids@
                &&& final(state).business_in_user@ == old(state).business_in_user@
                &&& final(state).histories@ == old(state).histories@
                &&& final(state).tx_registry@ == old(state).tx_registry@
            }
        },
{
    let alias = match state.users.get(&caller.text) {
        Some(u) => u.pay_id.clone(),
        None => {
            return Err(RequestPaymentError::AccountNotFound);
        },
    };
    let (pre_last, participants) = match state.chats.get(&arg.chat_id) {
        Some(c) => {
            if !c.is_participant(&alias) {
                return Err(RequestPaymentError::NotAParticipant);
            }
            (c.last_activity, dup_strings(&c.participants))
        },
        None => {
            return Err(RequestPaymentError::ChatNotFound);
        },
    };
    let ghost pre = *old(state);
    let request = RequestPayment {
        sender_id: alias.clone(),
        requested_at: now,
        amount: arg.amount,
        payment_at: None,
        tx_id: None,
        expires_at: get_24h_expiry(now),
        note: dup_opt_string(&arg.note),
        read_by: vec![alias.clone()],
    };
    proof {
        assert(deep_strs(request.read_by@) =~= seq![alias@]);
    }
    let returned = RequestPayment {
        sender_id: request.sender_id.clone(),
        requested_at: request.requested_at,
        amount: request.amount,
        payment_at: request.payment_at,
        tx_id: request.tx_id,
        expires_at: request.expires_at,
        note: dup_opt_string(&request.note),
        read_by: dup_strings(&request.read_by),
    };
    let ghost rp_v = request@;
    let mut chat = match state.chats.remove(&arg.chat_id) {
        Some(c) => c,
        None => {
            proof {
                assert(false);
            }
            unreached()
        },
    };
    chat.messages.push(MessageOrTransaction::RequestPayment(request));
    chat.last_activity = now;
    proof {
        assert(events_view(chat.messages@) =~= pre.chats@[arg.chat_id@].messages.push(
            MessageOrTransactionV::RequestPayment(rp_v),
        ));
        assert(chat@ == chat_with_event(
            pre.chats@[arg.chat_id@],
            MessageOrTransactionV::RequestPayment(rp_v),
            now,
        ));
    }
    state.chats.insert(arg.chat_id.clone(), chat);
    proof {
        assert(state.chats@ =~= pre.chats@.insert(
            arg.chat_id@,
            chat_with_event(
                pre.chats@[arg.chat_id@],
                MessageOrTransactionV::RequestPayment(rp_v),
                now,
            ),
        ));
    }
    let mut u1 = match state.users.remove(&caller.text) {
        Some(u) => u,
        None => {
            proof {
                assert(false);
            }
            unreached()
        },
    };
    u1.my_chats.reposition(pre_last, now, &arg.chat_id);
    state.users.insert(caller.text.clone(), u1);
    let ghost mid = *state;
    proof {
        assert(mid.users@.dom() =~= pre.users@.dom());
        crate::state::lemma_wf_preserved(pre, mid);
    }
    reposition_participants(state, &participants, &alias, pre_last, now, &arg.chat_id);
    proof {
        assert(state.users@.dom() =~= pre.users@.dom());
        assert(mid.users@[caller@].pay_id == alias@);
        assert forall|k: Seq<char>| #[trigger]
            pre.users@.contains_key(k) && k != caller@ implies (if deep_strs(
            participants@,
        ).contains(pre.users@[k].pay_id) && pre.users@[k].pay_id != alias@ {
            user_rechatted(
                pre.users@[k],
                state.users@[k],
                (pre_last, arg.chat_id@),
                (now, arg.chat_id@),
            )
        } else {
            state.users@[k] == pre.users@[k]
        }) by {
            assert(mid.users@[k] == pre.users@[k]);
        }
        assert(deep_strs(participants@) == pre.chats@[arg.chat_id@].participants);
        assert(user_rechatted(
            pre.users@[caller@],
            state.users@[caller@],
            (pre_last, arg.chat_id@),
            (now, arg.chat_id@),
        )) by {
            assert(state.users@[caller@] == mid.users@[caller@]);
        }
    }
    Ok(returned)
}

/// The request value after a fulfillment at `ts` with transaction `tx_id`.
pub open spec fn fulfilled_request_v(req: RequestPaymentV, ts: u64, tx_id: u64) -> RequestPaymentV {
    RequestPaymentV { payment_at: Some(ts), tx_id: Some(tx_id), ..req }
}

/// What a successful fulfillment does to the state: the request at
/// `message_index` gains its fulfillment fields, the payer's and the
/// requester's histories gain mirrored entries carrying the request's note,
/// and the chat's recency is left where it was.
pub open spec fn request_payment_applied(
    pre: AppState,
    post: AppState,
    from: Seq<char>,
    to: Seq<char>,
    ts: u64,
    amount: u64,
    tx_id: u64,
    cid: Seq<char>,
    idx: int,
) -> bool {
    let fu = pre.users@[from];
    let tu = pre.users@[to];
    let pre_chat = pre.chats@[cid];
    let req = pre_chat.messages[idx]->RequestPayment_0;
    let req1 = fulfilled_request_v(req, ts, tx_id);
    let keep = (pre_chat.last_activity, cid);
    let send = entry_v(TxKind::Sends, tu.name, tu.pay_id, tx_id, ts, amount, req.note);
    let recv = entry_v(TxKind::Receive, fu.name, fu.pay_id, tx_id, ts, amount, req.note);
    &&& post.chats@ == pre.chats@.insert(
        cid,
        ChatV {
            id: pre_chat.id,
            participants: pre_chat.participants,
            messages: pre_chat.messages.update(
                idx,
                MessageOrTransactionV::RequestPayment(req1),
            ),
            last_activity: pre_chat.last_activity,
        },
    )
    &&& post.histories@ == hist_after(hist_after(pre.histories@, from, send), to, recv)
    &&& post.users@.dom() == pre.users@.dom()
    &&& user_rechatted(fu, post.users@[from], keep, keep)
    &&& from != to ==> user_rechatted(tu, post.users@[to], keep, keep)
    &&& forall|k: Seq<char>|
        k != from && k != to && #[trigger] pre.users@.contains_key(k) ==> post.users@[k]
            == pre.users@[k]
    &&& post.businesses@ == pre.businesses@
    &&& post.pay_ids@ == pre.pay_ids@
    &&& post.business_in_user@ == pre.business_in_user@
}

/// Resolves a verified transfer against a pending payment request: checks
/// registration, participation, lazy expiry (with the 30-minute grace
/// window), the exact amount, and that the party being paid authored the
/// request; on success marks the request fulfilled and mirrors the transfer
/// into both histories.
pub fn record_request_payment(state: &mut AppState, arg: RecordReqPayTxArg) -> (r: Result<
    (),
    RecordRegPayTxErr,
>)
    requires
        old(state).wf(),
    ensures
        final(state).wf(),
        final(state).tx_registry == old(state).tx_registry,
        ({
            let s = *old(state);
            let users_ok = s.users@.contains_key(arg.from@) && s.users@.contains_key(arg.to@);
            if !users_ok {
                r == Err::<(), RecordRegPayTxErr>(RecordRegPayTxErr::AccountNotFound) && *final(state) == *old(state)
            } else if !s.chats@.contains_key(arg.chat_id@) {
                r == Err::<(), RecordRegPayTxErr>(RecordRegPayTxErr::ChatNotFound) && *final(state)
                    == *old(state)
            } else {
                let chat = s.chats@[arg.chat_id@];
                if !chat.participants.contains(s.users@[arg.from@].pay_id)
                    || !chat.participants.contains(s.users@[arg.to@].pay_id) {
                    r == Err::<(), RecordRegPayTxErr>(RecordRegPayTxErr::NotAParticipant) && *final(state) == *old(state)
                } else if !(arg.message_index < chat.messages.len()
                    && chat.messages[arg.message_index as int] is RequestPayment) {
                    r == Err::<(), RecordRegPayTxErr>(RecordRegPayTxErr::RequestPaymentNotFound)
                        && *final(state) == *old(state)
                } else {
                    let req = chat.messages[arg.message_index as int]->RequestPayment_0;
                    if req.expires_at + REQUEST_GRACE_NANOS < arg.timestamp {
                        r == Err::<(), RecordRegPayTxErr>(
                            RecordRegPayTxErr::InvalidTransaction(InvalidTxReason::ExpiredRequest),
                        ) && *final(state) == *old(state)
                    } else if req.amount != arg.amount {
                        r == Err::<(), RecordRegPayTxErr>(
                            RecordRegPayTxErr::InvalidTransaction(InvalidTxReason::AmountMismatch),
                        ) && *final(state) == *old(state)
                    } else if req.sender_id != s.users@[arg.to@].pay_id {
                        (r matches Err(RecordRegPayTxErr::InvalidTransaction(
                            InvalidTxReason::WrongRequester { requester, receiver },
                        )) && requester@ == req.sender_id
                            && receiver@ == s.users@[arg.to@].pay_id) && *final(state) == *old(state)
                    } else {
                        r == Ok::<(), RecordRegPayTxErr>(()) && request_payment_applied(
                            *old(state),
                            *final(state),
                            arg.from@,
                            arg.to@,
                            arg.timestamp,
                            arg.amount,
                            arg.tx_id,
                            arg.chat_id@,
                            arg.message_index as int,
                        )
                    }
                }
            }
        }),
{
    let (f_name, f_pay) = match state.users.get(&arg.from.text) {
        Some(u) => (u.name.clone(), u.pay_id.clone()),
        None => {
            return Err(RecordRegPayTxErr::AccountNotFound);
        },
    };
    let (t_name, t_pay) = match state.users.get(&arg.to.text) {
        Some(u) => (u.name.clone(), u.pay_id.clone()),
        None => {
            return Err(RecordRegPayTxErr::AccountNotFound);
        },
    };
    let (pre_last, req_note) = match state.chats.get(&arg.chat_id) {
        Some(c) => {
            if !c.is_participant(&f_pay) {
                return Err(RecordRegPayTxErr::NotAParticipant);
            }
            if !c.is_participant(&t_pay) {
                return Err(RecordRegPayTxErr::NotAParticipant);
            }
            if arg.message_index >= c.messages.len() {
                return Err(RecordRegPayTxErr::RequestPaymentNotFound);
            }
            let note = match &c.messages[arg.message_index] {
                MessageOrTransaction::RequestPayment(q) => {
                    proof {
                        assert(events_view(c.messages@)[arg.message_index as int]
                            == c.messages@[arg.message_index as int]@);
                        assert(old(state).chats@[arg.chat_id@].messages[arg.message_index as int]
                            == MessageOrTransactionV::RequestPayment(q@));
                    }
                    if arg.timestamp > q.expires_at && arg.timestamp - q.expires_at
                        > REQUEST_GRACE_NANOS {
                        return Err(
                            RecordRegPayTxErr::InvalidTransaction(InvalidTxReason::ExpiredRequest),
                        );
                    }
                    if q.amount != arg.amount {
                        return Err(
                            RecordRegPayTxErr::InvalidTransaction(InvalidTxReason::AmountMismatch),
                        );
                    }
                    if !q.sender_id.eq(&t_pay) {
                        return Err(
                            RecordRegPayTxErr::InvalidTransaction(
                                InvalidTxReason::WrongRequester {
                                    requester: q.sender_id.clone(),
                                    receiver: t_pay,
                                },
                            ),
                        );
                    }
                    dup_opt_string(&q.note)
                },
                _ => {
                    proof {
                        assert(events_view(c.messages@)[arg.message_index as int]
                            == c.messages@[arg.message_index as int]@);
                        assert(!(old(state).chats@[arg.chat_id@].messages[arg.message_index as int]
                            is RequestPayment));
                    }
                    return Err(RecordRegPayTxErr::RequestPaymentNotFound);
                },
            };
            proof {
                assert(events_view(c.messages@).len() == c.messages@.len());
            }
            (c.last_activity, note)
        },
        None => {
            return Err(RecordRegPayTxErr::ChatNotFound);
        },
    };
    let ghost pre = *old(state);
    let mut chat = match state.chats.remove(&arg.chat_id) {
        Some(c) => c,
        None => {
            proof {
                assert(false);
            }
            unreached()
        },
    };
    let ghost pre_chat = pre.chats@[arg.chat_id@];
    let ghost req0 = pre_chat.messages[arg.message_index as int]->RequestPayment_0;
    proof {
        assert(events_view(chat.messages@) == pre_chat.messages);
        assert(chat.messages@.len() == pre_chat.messages.len());
    }
    let ghost msgs0 = chat.messages@;
    let mut ev = chat.messages.remove(arg.message_index);
    proof {
        assert(ev@ == events_view(msgs0)[arg.message_index as int]);
        assert(ev@ == MessageOrTransactionV::RequestPayment(req0));
    }
    match &mut ev {
        MessageOrTransaction::RequestPayment(q) => {
            q.payment_at = Some(arg.timestamp);
            q.tx_id = Some(arg.tx_id);
        },
        _ => {
            proof {
                assert(false);
            }
        },
    }
    proof {
        assert(ev@ == MessageOrTransactionV::RequestPayment(
            fulfilled_request_v(req0, arg.timestamp, arg.tx_id),
        ));
    }
    chat.messages.insert(arg.message_index, ev);
    proof {
        assert(events_view(chat.messages@) =~= pre_chat.messages.update(
            arg.message_index as int,
            MessageOrTransactionV::RequestPayment(
                fulfilled_request_v(req0, arg.timestamp, arg.tx_id),
            ),
        ));
    }
    state.chats.insert(arg.chat_id.clone(), chat);
    proof {
        assert(state.chats@ =~= pre.chats@.insert(
            arg.chat_id@,
            ChatV {
                id: pre_chat.id,
                participants: pre_chat.participants,
                messages: pre_chat.messages.update(
                    arg.message_index as int,
                    MessageOrTransactionV::RequestPayment(
                        fulfilled_request_v(req0, arg.timestamp, arg.tx_id),
                    ),
                ),
                last_activity: pre_chat.last_activity,
            },
        ));
    }
    let mut u1 = match state.users.remove(&arg.from.text) {
        Some(u) => u,
        None => {
            proof {
                assert(false);
            }
            unreached()
        },
    };
    u1.my_chats.insert_pair(pre_last, arg.chat_id.clone());
    state.users.insert(arg.from.text.clone(), u1);
    if !arg.from.same_as(&arg.to) {
        let mut u2 = match state.users.remove(&arg.to.text) {
            Some(u) => u,
            None => {
                proof {
                    assert(false);
                }
                unreached()
            },
        };
        u2.my_chats.insert_pair(pre_last, arg.chat_id.clone());
        state.users.insert(arg.to.text.clone(), u2);
    }
    let send = TransactionEntry {
        kind: TxKind::Sends,
        name: t_name,
        pay_id: t_pay.clone(),
        tx_id: arg.tx_id,
        timestamp: arg.timestamp,
        amount: arg.amount,
        note: dup_opt_string(&req_note),
    };
    let recv = TransactionEntry {
        kind: TxKind::Receive,
        name: f_name,
        pay_id: f_pay,
        tx_id: arg.tx_id,
        timestamp: arg.timestamp,
        amount: arg.amount,
        note: req_note,
    };
    crate::state::append_history(state, &arg.from, send);
    crate::state::append_history(state, &arg.to, recv);
    proof {
        assert(state.users@.dom() =~= pre.users@.dom());
        crate::state::lemma_wf_preserved(pre, *state);
    }
    Ok(())
}

/// How many chats the initial fetch returns at most.
pub const INITIAL_CHAT_LIMIT: usize = 8;

/// How many business relationships the initial fetch returns at most.
pub const INITIAL_BUSINESS_LIMIT: usize = 4;

fn collect_chats_window(state: &AppState, index: &RecencyIndex, lo: usize) -> (r: Vec<Chat>)
    requires
        state.wf(),
        lo <= index@.len(),
    ensures
        deep_view_seq(r@) == collect_desc(index@, state.chats@, lo as int),
{
    let ghost idx = index@;
    let ghost m = state.chats@;
    let n = index.len();
    let mut out: Vec<Chat> = Vec::new();
    let mut i: usize = n;
    proof {
        assert(collect_desc(idx, m, n as int) =~= Seq::<ChatV>::empty());
        assert(deep_view_seq(out@) =~= collect_desc(idx, m, n as int));
    }
    while i > lo
        invariant
            state.wf(),
            lo <= i <= n,
            n == idx.len(),
            idx == index@,
            m == state.chats@,
            deep_view_seq(out@) == collect_desc(idx, m, i as int),
        decreases i,
    {
        i = i - 1;
        proof {
            crate::state::lemma_collect_desc_step(idx, m, i as int);
        }
        let id = index.id_at(i);
        match state.chats.get(id) {
            Some(c) => {
                out.push(c.duplicate());
                proof {
                    assert(deep_view_seq(out@) =~= collect_desc(idx, m, i as int));
                }
            },
            None => {
                proof {
                    assert(collect_desc(idx, m, i + 1) + Seq::<ChatV>::empty() =~= collect_desc(
                        idx,
                        m,
                        i + 1,
                    ));
                }
            },
        }
    }
    out
}

fn collect_business_window(state: &AppState, index: &RecencyIndex, lo: usize) -> (r: Vec<
    BusinessInUser,
>)
    requires
        state.wf(),
        lo <= index@.len(),
    ensures
        deep_view_seq(r@) == collect_desc(index@, state.business_in_user@, lo as int),
{
    let ghost idx = index@;
    let ghost m = state.business_in_user@;
    let n = index.len();
    let mut out: Vec<BusinessInUser> = Vec::new();
    let mut i: usize = n;
    proof {
        assert(collect_desc(idx, m, n as int) =~= Seq::<BusinessInUserV>::empty());
        assert(deep_view_seq(out@) =~= collect_desc(idx, m, n as int));
    }
    while i > lo
        invariant
            state.wf(),
            lo <= i <= n,
            n == idx.len(),
            idx == index@,
            m == state.business_in_user@,
            deep_view_seq(out@) == collect_desc(idx, m, i as int),
        decreases i,
    {
        i = i - 1;
        proof {
            crate::state::lemma_collect_desc_step(idx, m, i as int);
        }
        let id = index.id_at(i);
        match state.business_in_user.get(id) {
            Some(l) => {
                out.push(l.duplicate());
                proof {
                    assert(deep_view_seq(out@) =~= collect_desc(idx, m, i as int));
                }
            },
            None => {
                proof {
                    assert(collect_desc(idx, m, i + 1) + Seq::<BusinessInUserV>::empty()
                        =~= collect_desc(idx, m, i + 1));
                }
            },
        }
    }
    out
}

/// The caller's stored history, or the empty log.
pub open spec fn history_of(s: AppState, k: Seq<char>) -> Seq<crate::history::TransactionEntryV> {
    if s.histories@.contains_key(k) {
        s.histories@[k]
    } else {
        Seq::empty()
    }
}

/// What the bounded initial fetch hands a user: the profile, at most the 50
/// most recent history entries (newest first), the 8 most recent chats and
/// the 4 most recent business relationships (each newest first).
pub open spec fn init_user_data_ok(s: AppState, caller: Seq<char>, d: UserData) -> bool {
    let u = s.users@[caller];
    let hist = history_of(s, caller);
    let hn = hist.len();
    let mc = u.my_chats;
    let wb = u.with_businesses;
    &&& d.user@ == u
    &&& d.history@.len() == if hn > crate::history::INITIAL_HISTORY_LIMIT {
        crate::history::INITIAL_HISTORY_LIMIT as int
    } else {
        hn as int
    }
    &&& forall|i: int| 0 <= i < d.history@.len() ==> d.history@[i]@ == hist[hn - 1 - i]
    &&& deep_view_seq(d.chats@) == collect_desc(
        mc,
        s.chats@,
        if mc.len() > INITIAL_CHAT_LIMIT {
            mc.len() - INITIAL_CHAT_LIMIT
        } else {
            0
        },
    )
    &&& deep_view_seq(d.business@) == collect_desc(
        wb,
        s.business_in_user@,
        if wb.len() > INITIAL_BUSINESS_LIMIT {
            wb.len() - INITIAL_BUSINESS_LIMIT
        } else {
            0
        },
    )
}

/// What the unbounded fetch hands a user: the profile and the whole history,
/// chat list and relationship list, each newest first.
pub open spec fn full_user_data_ok(s: AppState, caller: Seq<char>, d: UserData) -> bool {
    let u = s.users@[caller];
    let hist = history_of(s, caller);
    let hn = hist.len();
    &&& d.user@ == u
    &&& d.history@.len() == hn
    &&& forall|i: int| 0 <= i < d.history@.len() ==> d.history@[i]@ == hist[hn - 1 - i]
    &&& deep_view_seq(d.chats@) == collect_desc(u.my_chats, s.chats@, 0)
    &&& deep_view_seq(d.business@) == collect_desc(u.with_businesses, s.business_in_user@, 0)
}

/// The bounded initial fetch for a registered user.
pub fn fetch_init_user_data(state: &AppState, caller: &Identity) -> (r: UserData)
    requires
        state.wf(),
        state.users@.contains_key(caller@),
    ensures
        init_user_data_ok(*state, caller@, r),
{
    let user = match state.users.get(&caller.text) {
        Some(u) => u,
        None => {
            proof {
                assert(false);
            }
            unreached()
        },
    };
    let mc_len = user.my_chats.len();
    let chats_lo = if mc_len > INITIAL_CHAT_LIMIT {
        mc_len - INITIAL_CHAT_LIMIT
    } else {
        0
    };
    let chats = collect_chats_window(state, &user.my_chats, chats_lo);
    let wb_len = user.with_businesses.len();
    let biz_lo = if wb_len > INITIAL_BUSINESS_LIMIT {
        wb_len - INITIAL_BUSINESS_LIMIT
    } else {
        0
    };
    let business = collect_business_window(state, &user.with_businesses, biz_lo);
    let history = match state.histories.get(&caller.text) {
        Some(h) => h.read_initial(),
        None => Vec::new(),
    };
    UserData { user: user.duplicate(), history, chats, business }
}

/// The unbounded fetch for a registered user.
pub fn fetch_user_data(state: &AppState, caller: &Identity) -> (r: UserData)
    requires
        state.wf(),
        state.users@.contains_key(caller@),
    ensures
        full_user_data_ok(*state, caller@, r),
{
    let user = match state.users.get(&caller.text) {
        Some(u) => u,
        None => {
            proof {
                assert(false);
            }
            unreached()
        },
    };
    let chats = collect_chats_window(state, &user.my_chats, 0);
    let business = collect_business_window(state, &user.with_businesses, 0);
    let history = match state.histories.get(&caller.text) {
        Some(h) => h.read_all(),
        None => Vec::new(),
    };
    UserData { user: user.duplicate(), history, chats, business }
}

} // verus!
