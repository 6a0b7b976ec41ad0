//! The engine's state: every map the operations read and write, owned by one
//! explicit struct and passed into each operation.
//!
//! Well-formedness ties the maps together: pay aliases are globally unique,
//! an identity is never both a user and a business, and every stored user's
//! recency indices are ordered and duplicate-free.

use vstd::prelude::*;
use crate::business::{Business, BusinessSignUpArgs};
use crate::chat::Chat;
use crate::error::{FetchInitDataError, InvalidTxReason, RecordRegPayTxErr, RecordTxErr, SignUpError};
use crate::user::RecordReqPayTxArg;
use crate::history::{entry_v, StoreHistory, TxKind};
use crate::ledger::TransferTx;
use crate::strkey::pair_key;
use crate::identity::Identity;
use crate::strmap::StrMap;
use crate::txreg::{applied_status, TxInfo, TxRegistry, TxStatus};
use crate::business::{BtoBTxArg, BusinessTxArg, BusinessUnknownTxArg, BusinessV};
use crate::user::{user_v_wf, BusinessInUser, BusinessInUserV, BusinessUserTxV, User, UserBusinessTxArg, UserData, UserSignUpArgs, UserToUserTxArg, UserUnknownTxArg};

verus! {

/// The registry resolving a pay alias to its owning identity.
pub struct PayIds {
    map: StrMap<Identity>,
}

impl View for PayIds {
    type V = Map<Seq<char>, Seq<char>>;

    closed spec fn view(&self) -> Map<Seq<char>, Seq<char>> {
        self.map@
    }
}

impl PayIds {
    pub closed spec fn wf(&self) -> bool {
        self.map.wf()
    }

    /// The empty registry.
    pub fn new() -> (r: PayIds)
        ensures
            r.wf(),
            r@ == Map::<Seq<char>, Seq<char>>::empty(),
    {
        PayIds { map: StrMap::new() }
    }

    /// The identity owning `key`, if any.
    pub fn get(&self, key: &String) -> (r: Option<&Identity>)
        requires
            self.wf(),
        ensures
            match r {
                Some(v) => self@.contains_key(key@) && v@ == self@[key@],
                None => !self@.contains_key(key@),
            },
    {
        self.map.get(key)
    }

    /// Binds `key` to `value`; returns the previous owner, if any.
    pub fn insert(&mut self, key: String, value: Identity) -> (prev: Option<Identity>)
        requires
            old(self).wf(),
        ensures
            final(self).wf(),
            final(self)@ == old(self)@.insert(key@, value@),
            match prev {
                Some(p) => old(self)@.contains_key(key@) && p@ == old(self)@[key@],
                None => !old(self)@.contains_key(key@),
            },
    {
        self.map.insert(key, value)
    }

    /// Unbinds `key`; returns the owner that was bound, if any.
    pub fn remove(&mut self, key: &String) -> (prev: Option<Identity>)
        requires
            old(self).wf(),
        ensures
            final(self).wf(),
            final(self)@ == old(self)@.remove(key@),
            match prev {
                Some(p) => old(self)@.contains_key(key@) && p@ == old(self)@[key@],
                None => !old(self)@.contains_key(key@),
            },
    {
        self.map.remove(key)
    }

    /// Whether `key` is bound.
    pub fn contains_key(&self, key: &String) -> (r: bool)
        ensures
            r == self@.contains_key(key@),
    {
        self.map.contains_key(key)
    }
}

/// All of the engine's books.
pub struct AppState {
    pub users: StrMap<User>,
    pub businesses: StrMap<Business>,
    pub pay_ids: PayIds,
    pub chats: StrMap<Chat>,
    pub business_in_user: StrMap<BusinessInUser>,
    pub histories: StrMap<StoreHistory>,
    pub tx_registry: TxRegistry,
}

impl AppState {
    /// Every map is well-formed; identities are never both user and
    /// business; each registered party's alias is bound to it, and every
    /// bound alias belongs to its owner; stored recency indices are ordered
    /// and duplicate-free.
    pub open spec fn wf(&self) -> bool {
        &&& self.users.wf()
        &&& self.businesses.wf()
        &&& self.pay_ids.wf()
        &&& self.chats.wf()
        &&& self.business_in_user.wf()
        &&& self.histories.wf()
        &&& self.tx_registry.wf()
        &&& forall|k: Seq<char>| #[trigger]
            self.users@.contains_key(k) ==> user_v_wf(self.users@[k])
        &&& forall|k: Seq<char>| #[trigger]
            self.users@.contains_key(k) ==> !self.businesses@.contains_key(k)
        &&& forall|k: Seq<char>| #[trigger]
            self.users@.contains_key(k) ==> self.pay_ids@.contains_key(self.users@[k].pay_id)
                && self.pay_ids@[self.users@[k].pay_id] == k
        &&& forall|k: Seq<char>| #[trigger]
            self.businesses@.contains_key(k) ==> self.pay_ids@.contains_key(
                self.businesses@[k].pay_id,
            ) && self.pay_ids@[self.businesses@[k].pay_id] == k
        &&& forall|a: Seq<char>| #[trigger]
            self.pay_ids@.contains_key(a) ==> {
                let k = self.pay_ids@[a];
                (self.users@.contains_key(k) && self.users@[k].pay_id == a) || (
                self.businesses@.contains_key(k) && self.businesses@[k].pay_id == a)
            }
    }

    /// A fresh, empty state.
    pub fn new() -> (r: AppState)
        ensures
            r.wf(),
            r.users@ == Map::<Seq<char>, crate::user::UserV>::empty(),
            r.businesses@ == Map::<Seq<char>, crate::business::BusinessV>::empty(),
            r.pay_ids@ == Map::<Seq<char>, Seq<char>>::empty(),
            r.chats@ == Map::<Seq<char>, crate::chat::ChatV>::empty(),
            r.business_in_user@ == Map::<Seq<char>, crate::user::BusinessInUserV>::empty(),
            r.histories@ == Map::<Seq<char>, Seq<crate::history::TransactionEntryV>>::empty(),
            r.tx_registry@ == Map::<u64, crate::txreg::TxStatusV>::empty(),
    {
        AppState {
            users: StrMap::new(),
            businesses: StrMap::new(),
            pay_ids: PayIds::new(),
            chats: StrMap::new(),
            business_in_user: StrMap::new(),
            histories: StrMap::new(),
            tx_registry: TxRegistry::new(),
        }
    }
}

/// The history map after appending `e` to the log of `k` (creating the log
/// if absent).
pub open spec fn hist_after(
    m: Map<Seq<char>, Seq<crate::history::TransactionEntryV>>,
    k: Seq<char>,
    e: crate::history::TransactionEntryV,
) -> Map<Seq<char>, Seq<crate::history::TransactionEntryV>> {
    m.insert(
        k,
        (if m.contains_key(k) {
            m[k]
        } else {
            Seq::empty()
        }).push(e),
    )
}

/// Appends one entry to the history of `key`, creating the log if absent.
pub fn append_history(state: &mut AppState, key: &Identity, entry: crate::history::TransactionEntry)
    requires
        old(state).histories.wf(),
    ensures
        final(state).histories.wf(),
        final(state).histories@ == hist_after(old(state).histories@, key@, entry@),
        final(state).users == old(state).users,
        final(state).businesses == old(state).businesses,
        final(state).pay_ids == old(state).pay_ids,
        final(state).chats == old(state).chats,
        final(state).business_in_user == old(state).business_in_user,
        final(state).tx_registry == old(state).tx_registry,
{
    let ghost pre = old(state).histories@;
    match state.histories.remove(&key.text) {
        Some(mut h) => {
            h.push_entry(entry);
            state.histories.insert(key.text.clone(), h);
            proof {
                assert(state.histories@ =~= hist_after(pre, key@, entry@));
            }
        },
        None => {
            let mut h = StoreHistory::new(Vec::new());
            proof {
                assert(h@ =~= Seq::<crate::history::TransactionEntryV>::empty());
            }
            h.push_entry(entry);
            state.histories.insert(key.text.clone(), h);
            proof {
                assert(state.histories@ =~= hist_after(pre, key@, entry@));
            }
        },
    }
}

/// The records found in `m` under the targets of `idx`, in index order
/// (oldest first); missing targets are skipped.
pub open spec fn collect_asc<T>(idx: Seq<(u64, Seq<char>)>, m: Map<Seq<char>, T>) -> Seq<T>
    decreases idx.len(),
{
    if idx.len() == 0 {
        Seq::empty()
    } else {
        let rest = collect_asc(idx.drop_last(), m);
        if m.contains_key(idx.last().1) {
            rest.push(m[idx.last().1])
        } else {
            rest
        }
    }
}

/// The records found in `m` under the targets of `idx` at positions
/// `idx.len() - 1` down to `lo`, newest first; missing targets are skipped.
pub open spec fn collect_desc<T>(idx: Seq<(u64, Seq<char>)>, m: Map<Seq<char>, T>, lo: int) -> Seq<
    T,
>
    decreases idx.len(),
{
    if idx.len() <= lo || idx.len() == 0 {
        Seq::empty()
    } else {
        let head: Seq<T> = if m.contains_key(idx.last().1) {
            seq![m[idx.last().1]]
        } else {
            Seq::empty()
        };
        head + collect_desc(idx.drop_last(), m, lo)
    }
}

/// Peeling the lowest collected position off a descending collection.
pub proof fn lemma_collect_desc_step<T>(idx: Seq<(u64, Seq<char>)>, m: Map<Seq<char>, T>, lo: int)
    requires
        0 <= lo < idx.len(),
    ensures
        collect_desc(idx, m, lo) == collect_desc(idx, m, lo + 1) + (if m.contains_key(
            idx[lo].1,
        ) {
            seq![m[idx[lo].1]]
        } else {
            Seq::<T>::empty()
        }),
    decreases idx.len(),
{
    let tail: Seq<T> = if m.contains_key(idx[lo].1) {
        seq![m[idx[lo].1]]
    } else {
        Seq::empty()
    };
    if lo == idx.len() - 1 {
        assert(collect_desc(idx, m, lo + 1) =~= Seq::<T>::empty());
        assert(collect_desc(idx.drop_last(), m, lo) =~= Seq::<T>::empty());
        assert(collect_desc(idx, m, lo) =~= collect_desc(idx, m, lo + 1) + tail);
    } else {
        lemma_collect_desc_step(idx.drop_last(), m, lo);
        assert(idx.drop_last()[lo] == idx[lo]);
        let head: Seq<T> = if m.contains_key(idx.last().1) {
            seq![m[idx.last().1]]
        } else {
            Seq::empty()
        };
        assert(collect_desc(idx, m, lo) == head + collect_desc(idx.drop_last(), m, lo));
        assert(collect_desc(idx, m, lo + 1) == head + collect_desc(idx.drop_last(), m, lo + 1));
        assert(head + (collect_desc(idx.drop_last(), m, lo + 1) + tail) =~= (head + collect_desc(
            idx.drop_last(),
            m,
            lo + 1,
        )) + tail);
    }
}

/// Well-formedness survives any operation that keeps the alias registry, the
/// set of registered parties and every party's alias unchanged, keeps users'
/// recency indices well-formed, and keeps each component map well-formed.
pub proof fn lemma_wf_preserved(pre: AppState, post: AppState)
    requires
        pre.wf(),
        post.users.wf(),
        post.businesses.wf(),
        post.chats.wf(),
        post.business_in_user.wf(),
        post.histories.wf(),
        post.tx_registry.wf(),
        post.pay_ids == pre.pay_ids,
        post.users@.dom() == pre.users@.dom(),
        forall|k: Seq<char>| #[trigger]
            post.users@.contains_key(k) ==> post.users@[k].pay_id == pre.users@[k].pay_id
                && user_v_wf(post.users@[k]),
        post.businesses@.dom() == pre.businesses@.dom(),
        forall|k: Seq<char>| #[trigger]
            post.businesses@.contains_key(k) ==> post.businesses@[k].pay_id
                == pre.businesses@[k].pay_id,
    ensures
        post.wf(),
{
    assert forall|k: Seq<char>| #[trigger] post.users@.contains_key(k) implies
    !post.businesses@.contains_key(k) && post.pay_ids@.contains_key(post.users@[k].pay_id)
        && post.pay_ids@[post.users@[k].pay_id] == k by {
        assert(pre.users@.contains_key(k));
    }
    assert forall|k: Seq<char>| #[trigger] post.businesses@.contains_key(k) implies
    post.pay_ids@.contains_key(post.businesses@[k].pay_id) && post.pay_ids@[post.businesses@[k].pay_id]
        == k by {
        assert(pre.businesses@.contains_key(k));
    }
    assert forall|a: Seq<char>| #[trigger] post.pay_ids@.contains_key(a) implies {
        let k = post.pay_ids@[a];
        (post.users@.contains_key(k) && post.users@[k].pay_id == a) || (
        post.businesses@.contains_key(k) && post.businesses@[k].pay_id == a)
    } by {
        assert(pre.pay_ids@.contains_key(a));
        let k = pre.pay_ids@[a];
        if pre.users@.contains_key(k) && pre.users@[k].pay_id == a {
            assert(post.users@.contains_key(k));
        } else {
            assert(post.businesses@.contains_key(k));
        }
    }
}

/// Two distinct registered users carry distinct aliases.
pub proof fn lemma_user_aliases_differ(s: &AppState, k1: Seq<char>, k2: Seq<char>)
    requires
        s.wf(),
        s.users@.contains_key(k1),
        s.users@.contains_key(k2),
        k1 != k2,
    ensures
        s.users@[k1].pay_id != s.users@[k2].pay_id,
{
}

/// A registered user and a registered business carry distinct aliases.
pub proof fn lemma_user_business_aliases_differ(s: &AppState, ku: Seq<char>, kb: Seq<char>)
    requires
        s.wf(),
        s.users@.contains_key(ku),
        s.businesses@.contains_key(kb),
    ensures
        s.users@[ku].pay_id != s.businesses@[kb].pay_id,
{
    if s.users@[ku].pay_id == s.businesses@[kb].pay_id {
        assert(s.pay_ids@[s.users@[ku].pay_id] == ku);
        assert(s.pay_ids@[s.businesses@[kb].pay_id] == kb);
    }
}

/// Whether `pay_id` is already bound to some identity.
pub fn is_payid_exist(state: &AppState, pay_id: &String) -> (r: bool)
    ensures
        r == state.pay_ids@.contains_key(pay_id@),
{
    state.pay_ids.contains_key(pay_id)
}

/// A pay alias is available when it is at least three characters long and
/// not yet bound.
pub fn is_pay_id_available(state: &AppState, pay_id: &String) -> (r: bool)
    requires
        state.wf(),
    ensures
        r == (pay_id@.len() >= 3 && !state.pay_ids@.contains_key(pay_id@)),
{
    if pay_id.as_str().unicode_len() < 3 {
        return false;
    }
    match state.pay_ids.get(pay_id) {
        Some(_) => false,
        None => true,
    }
}

/// Resolves a pay alias for a registered caller; unregistered callers learn
/// nothing.
pub fn get_account_from_pay_id(state: &AppState, caller: &Identity, pay_id: &String) -> (r: Option<
    Identity,
>)
    requires
        state.wf(),
    ensures
        state.users@.contains_key(caller@) || state.businesses@.contains_key(caller@) ==> match r {
            Some(p) => state.pay_ids@.contains_key(pay_id@) && p@ == state.pay_ids@[pay_id@],
            None => !state.pay_ids@.contains_key(pay_id@),
        },
        !(state.users@.contains_key(caller@) || state.businesses@.contains_key(caller@)) ==> r
            is None,
{
    if crate::user::is_user(state, caller) || crate::business::is_business(state, caller) {
        match state.pay_ids.get(pay_id) {
            Some(p) => Some(p.duplicate()),
            None => None,
        }
    } else {
        None
    }
}

/// A sign-up request: one of the two account kinds.
pub enum SignUpArg {
    User(UserSignUpArgs),
    Business(BusinessSignUpArgs),
}

/// Registers the caller under the requested account kind.
pub fn sign_up(state: &mut AppState, caller: &Identity, now: u64, args: SignUpArg) -> (r: Result<
    (),
    SignUpError,
>)
    requires
        old(state).wf(),
    ensures
        final(state).wf(),
        caller@.len() == 0 ==> r == Err::<(), SignUpError>(SignUpError::AnonymousCaller) && *final(state) == *old(state),
        caller@.len() != 0 && (old(state).users@.contains_key(caller@) || old(state).businesses@.contains_key(caller@)) ==> r == Err::<(), SignUpError>(
            SignUpError::AccountExist,
        ) && *final(state) == *old(state),
        ({
            let alias = match args {
                SignUpArg::User(a) => a.pay_id@,
                SignUpArg::Business(a) => a.pay_id@,
            };
            &&& caller@.len() != 0 && !old(state).users@.contains_key(caller@) && !old(state).businesses@.contains_key(caller@) && old(state).pay_ids@.contains_key(alias) ==> r
                == Err::<(), SignUpError>(SignUpError::PayIdExist) && *final(state) == *old(state)
            &&& caller@.len() != 0 && !old(state).users@.contains_key(caller@) && !old(state).businesses@.contains_key(caller@) && !old(state).pay_ids@.contains_key(alias) ==> {
                &&& r == Ok::<(), SignUpError>(())
                &&& final(state).pay_ids@ == old(state).pay_ids@.insert(alias, caller@)
                &&& match args {
                    SignUpArg::User(a) => final(state).users@ == old(state).users@.insert(
                        caller@,
                        crate::user::fresh_user_v(a, now),
                    ) && final(state).businesses@ == old(state).businesses@,
                    SignUpArg::Business(a) => final(state).businesses@ == old(state).businesses@.insert(caller@, crate::business::fresh_business_v(a, now))
                        && final(state).users@ == old(state).users@,
                }
                &&& final(state).chats@ == old(state).chats@
                &&& final(state).business_in_user@ == old(state).business_in_user@
                &&& final(state).histories@ == old(state).histories@
                &&& final(state).tx_registry@ == old(state).tx_registry@
            }
        }),
{
    match args {
        SignUpArg::User(arg) => crate::user::sign_up_user(state, caller, now, arg),
        SignUpArg::Business(arg) => crate::business::sign_up_business(state, caller, now, arg),
    }
}

/// What a fetch returns: nothing for a caller who has not signed up, or the
/// caller's own view of their data.
pub enum DataResponse {
    NotSignUp,
    User(UserData),
    Business(Business),
}

/// The bounded initial fetch: a business gets its windowed record, a user
/// their windowed data; anonymous callers are rejected, other strangers told
/// to sign up.
pub fn fetch_initial_data(state: &AppState, caller: &Identity) -> (r: Result<
    DataResponse,
    FetchInitDataError,
>)
    requires
        state.wf(),
    ensures
        state.businesses@.contains_key(caller@) ==> (r matches Ok(DataResponse::Business(b)) && {
            let bb = state.businesses@[caller@];
            let n = bb.transactions.len();
            &&& b@.name == bb.name
            &&& b@.pay_id == bb.pay_id
            &&& b@.logo == bb.logo
            &&& b@.category == bb.category
            &&& b@.created_at == bb.created_at
            &&& b@.transactions.len() == if n > crate::history::INITIAL_HISTORY_LIMIT {
                crate::history::INITIAL_HISTORY_LIMIT as int
            } else {
                n as int
            }
            &&& forall|i: int|
                0 <= i < b@.transactions.len() ==> b@.transactions[i] == bb.transactions[n - 1 - i]
        }),
        !state.businesses@.contains_key(caller@) && state.users@.contains_key(caller@) ==> (r
            matches Ok(DataResponse::User(d)) && crate::user::init_user_data_ok(
            *state,
            caller@,
            d,
        )),
        !state.businesses@.contains_key(caller@) && !state.users@.contains_key(caller@)
            && caller@.len() == 0 ==> r == Err::<DataResponse, FetchInitDataError>(
            FetchInitDataError::AnonymousCaller,
        ),
        !state.businesses@.contains_key(caller@) && !state.users@.contains_key(caller@)
            && caller@.len() != 0 ==> r matches Ok(DataResponse::NotSignUp),
{
    if crate::business::is_business(state, caller) {
        Ok(DataResponse::Business(crate::business::fetch_init_business_data(state, caller)))
    } else if crate::user::is_user(state, caller) {
        Ok(DataResponse::User(crate::user::fetch_init_user_data(state, caller)))
    } else if caller.is_anonymous() {
        Err(FetchInitDataError::AnonymousCaller)
    } else {
        Ok(DataResponse::NotSignUp)
    }
}

/// The unbounded fetch, newest first throughout.
pub fn fetch_data(state: &AppState, caller: &Identity) -> (r: Result<
    DataResponse,
    FetchInitDataError,
>)
    requires
        state.wf(),
    ensures
        state.businesses@.contains_key(caller@) ==> (r matches Ok(DataResponse::Business(b)) && {
            let bb = state.businesses@[caller@];
            let n = bb.transactions.len();
            &&& b@.name == bb.name
            &&& b@.pay_id == bb.pay_id
            &&& b@.logo == bb.logo
            &&& b@.category == bb.category
            &&& b@.created_at == bb.created_at
            &&& b@.transactions.len() == n
            &&& forall|i: int|
                0 <= i < b@.transactions.len() ==> b@.transactions[i] == bb.transactions[n - 1 - i]
        }),
        !state.businesses@.contains_key(caller@) && state.users@.contains_key(caller@) ==> (r
            matches Ok(DataResponse::User(d)) && crate::user::full_user_data_ok(
            *state,
            caller@,
            d,
        )),
        !state.businesses@.contains_key(caller@) && !state.users@.contains_key(caller@)
            && caller@.len() == 0 ==> r == Err::<DataResponse, FetchInitDataError>(
            FetchInitDataError::AnonymousCaller,
        ),
        !state.businesses@.contains_key(caller@) && !state.users@.contains_key(caller@)
            && caller@.len() != 0 ==> r matches Ok(DataResponse::NotSignUp),
{
    if crate::business::is_business(state, caller) {
        Ok(DataResponse::Business(crate::business::fetch_business_data(state, caller)))
    } else if crate::user::is_user(state, caller) {
        Ok(DataResponse::User(crate::user::fetch_user_data(state, caller)))
    } else if caller.is_anonymous() {
        Err(FetchInitDataError::AnonymousCaller)
    } else {
        Ok(DataResponse::NotSignUp)
    }
}

/// Reserves a transaction id before its external verification is issued, so
/// that a second settle call carrying the same id fails fast.
fn reserve_tx(state: &mut AppState, tx_id: u64) -> (r: bool)
    requires
        old(state).wf(),
    ensures
        final(state).wf(),
        r == !old(state).tx_registry@.contains_key(tx_id),
        r ==> final(state).tx_registry@ == old(state).tx_registry@.insert(
            tx_id,
            crate::txreg::TxStatusV::Pending,
        )
            && final(state).users == old(state).users
            && final(state).businesses == old(state).businesses
            && final(state).pay_ids == old(state).pay_ids
            && final(state).chats == old(state).chats
            && final(state).business_in_user == old(state).business_in_user
            && final(state).histories == old(state).histories,
        !r ==> *final(state) == *old(state),
{
    if state.tx_registry.contains_key(tx_id) {
        return false;
    }
    let ghost pre = *old(state);
    state.tx_registry.insert(tx_id, TxStatus::Pending);
    proof {
        lemma_wf_preserved(pre, *state);
    }
    true
}

/// Begins settling a transfer: fails `AlreadyRecorded` if the id was applied
/// or is in flight, otherwise marks it pending.
pub fn record_xfer_begin(state: &mut AppState, tx_id: u64) -> (r: Result<(), RecordTxErr>)
    requires
        old(state).wf(),
    ensures
        final(state).wf(),
        old(state).tx_registry@.contains_key(tx_id) ==> r == Err::<(), RecordTxErr>(
            RecordTxErr::AlreadyRecorded,
        ) && *final(state) == *old(state),
        !old(state).tx_registry@.contains_key(tx_id) ==> r == Ok::<(), RecordTxErr>(()) && final(state).tx_registry@ == old(state).tx_registry@.insert(tx_id, crate::txreg::TxStatusV::Pending)
           
            && final(state).users == old(state).users
            && final(state).businesses == old(state).businesses
            && final(state).pay_ids == old(state).pay_ids
            && final(state).chats == old(state).chats
            && final(state).business_in_user == old(state).business_in_user
            && final(state).histories == old(state).histories,
{
    if reserve_tx(state, tx_id) {
        Ok(())
    } else {
        Err(RecordTxErr::AlreadyRecorded)
    }
}

/// Begins a fulfillment: fails `AlreadyRecorded` if the id was applied or is
/// in flight, otherwise marks it pending.
pub fn record_request_payment_begin(state: &mut AppState, tx_id: u64) -> (r: Result<
    (),
    RecordRegPayTxErr,
>)
    requires
        old(state).wf(),
    ensures
        final(state).wf(),
        old(state).tx_registry@.contains_key(tx_id) ==> r == Err::<(), RecordRegPayTxErr>(
            RecordRegPayTxErr::AlreadyRecorded,
        ) && *final(state) == *old(state),
        !old(state).tx_registry@.contains_key(tx_id) ==> r == Ok::<(), RecordRegPayTxErr>(())
            && final(state).tx_registry@ == old(state).tx_registry@.insert(
            tx_id,
            crate::txreg::TxStatusV::Pending,
        )
            && final(state).users == old(state).users
            && final(state).businesses == old(state).businesses
            && final(state).pay_ids == old(state).pay_ids
            && final(state).chats == old(state).chats
            && final(state).business_in_user == old(state).business_in_user
            && final(state).histories == old(state).histories,
{
    if reserve_tx(state, tx_id) {
        Ok(())
    } else {
        Err(RecordRegPayTxErr::AlreadyRecorded)
    }
}

/// Releases a reserved transaction id after its external verification
/// failed, so the caller may retry.
pub fn record_abort(state: &mut AppState, tx_id: u64)
    requires
        old(state).wf(),
    ensures
        final(state).wf(),
        final(state).tx_registry@ == old(state).tx_registry@.remove(tx_id),
        final(state).users == old(state).users,
        final(state).businesses == old(state).businesses,
        final(state).pay_ids == old(state).pay_ids,
        final(state).chats == old(state).chats,
        final(state).business_in_user == old(state).business_in_user,
        final(state).histories == old(state).histories,
{
    let ghost pre = *old(state);
    state.tx_registry.remove(tx_id);
    proof {
        lemma_wf_preserved(pre, *state);
    }
}

/// Whether committing a verified transfer between these two parties would
/// hit the fatal equal-alias defect: the two identities are the same and
/// that identity is registered.
pub open spec fn commit_traps(s: AppState, from: Seq<char>, to: Seq<char>) -> bool {
    from == to && (s.users@.contains_key(from) || s.businesses@.contains_key(from))
}

/// Tests [`commit_traps`]; a caller facing `true` must treat the transfer as
/// a fatal defect and not commit it.
pub fn would_trap(state: &AppState, from: &Identity, to: &Identity) -> (r: bool)
    ensures
        r == commit_traps(*state, from@, to@),
{
    from.same_as(to) && (crate::user::is_user(state, from) || crate::business::is_business(
        state,
        from,
    ))
}

/// What a transfer between a user and a business does to the state, both
/// sides taken together: one entry in the business's own list (no note), one
/// sub-ledger entry in the pair's relationship record (created with a
/// snapshot of the business on first use), one history entry for the user,
/// and the user's business recency moved to the transfer's timestamp.
/// `user_kind` is the user's perspective.
pub open spec fn user_business_pair_applied(
    pre: AppState,
    post: AppState,
    u: Seq<char>,
    b: Seq<char>,
    user_kind: TxKind,
    amount: u64,
    ts: u64,
    tx_id: u64,
    note: Option<Seq<char>>,
) -> bool {
    let uu = pre.users@[u];
    let bb = pre.businesses@[b];
    let b_kind = if user_kind == TxKind::Sends {
        TxKind::Receive
    } else {
        TxKind::Sends
    };
    let b_entry = entry_v(b_kind, uu.name, uu.pay_id, tx_id, ts, amount, None);
    let id = pair_key(uu.pay_id, bb.pay_id);
    let pre_link = if pre.business_in_user@.contains_key(id) {
        pre.business_in_user@[id]
    } else {
        crate::user::fresh_business_in_user_v(id, bb, b, ts)
    };
    let sender = if user_kind == TxKind::Sends {
        uu.pay_id
    } else {
        bb.pay_id
    };
    let btx = BusinessUserTxV { sender_id: sender, timestamp: ts, note, amount, tx_id };
    let u_entry = entry_v(user_kind, bb.name, bb.pay_id, tx_id, ts, amount, note);
    &&& post.businesses@ == pre.businesses@.insert(
        b,
        BusinessV { transactions: bb.transactions.push(b_entry), ..bb },
    )
    &&& post.business_in_user@ == pre.business_in_user@.insert(
        id,
        BusinessInUserV {
            transactions: pre_link.transactions.push(btx),
            last_activity: ts,
            ..pre_link
        },
    )
    &&& post.histories@ == hist_after(pre.histories@, u, u_entry)
    &&& post.users@.dom() == pre.users@.dom()
    &&& crate::user::user_rebizzed(uu, post.users@[u], (pre_link.last_activity, id), (ts, id))
    &&& forall|k: Seq<char>|
        k != u && #[trigger] pre.users@.contains_key(k) ==> post.users@[k] == pre.users@[k]
    &&& post.pay_ids@ == pre.pay_ids@
    &&& post.chats@ == pre.chats@
}

/// Commits a verified transfer: classifies the two parties and dispatches
/// the mirrored writes, then finalizes the idempotency record.  A transfer
/// between two unrecognized identities is rejected, and its reservation
/// released so the id may be retried.
pub fn record_xfer_commit(
    state: &mut AppState,
    caller: &Identity,
    tx: TransferTx,
    note: Option<String>,
    tx_id: u64,
) -> (r: Result<(), RecordTxErr>)
    requires
        old(state).wf(),
        old(state).tx_registry@.contains_key(tx_id),
        old(state).tx_registry@[tx_id] is Pending,
        !commit_traps(*old(state), tx.from@, tx.to@),
    ensures
        final(state).wf(),
        ({
            let s = *old(state);
            let uf = s.users@.contains_key(tx.from@);
            let bf = s.businesses@.contains_key(tx.from@);
            let ut = s.users@.contains_key(tx.to@);
            let bt = s.businesses@.contains_key(tx.to@);
            let done = s.tx_registry@.insert(tx_id, applied_status(tx.from@, tx.to@));
            let nt = crate::textseq::opt_str_view(note);
            if uf && ut {
                r == Ok::<(), RecordTxErr>(()) && crate::user::user_to_user_applied(
                    s,
                    *final(state),
                    caller@,
                    tx.from@,
                    tx.to@,
                    tx.timestamp,
                    nt,
                    tx.amount,
                    tx_id,
                ) && final(state).tx_registry@ == done
            } else if uf && bt {
                r == Ok::<(), RecordTxErr>(()) && user_business_pair_applied(
                    s,
                    *final(state),
                    tx.from@,
                    tx.to@,
                    TxKind::Sends,
                    tx.amount,
                    tx.timestamp,
                    tx_id,
                    nt,
                ) && final(state).tx_registry@ == done
            } else if bf && ut {
                r == Ok::<(), RecordTxErr>(()) && user_business_pair_applied(
                    s,
                    *final(state),
                    tx.to@,
                    tx.from@,
                    TxKind::Receive,
                    tx.amount,
                    tx.timestamp,
                    tx_id,
                    nt,
                ) && final(state).tx_registry@ == done
            } else if bf && bt {
                r == Ok::<(), RecordTxErr>(()) && crate::business::business_to_business_applied(
                    s,
                    *final(state),
                    tx.from@,
                    tx.to@,
                    tx.amount,
                    tx.timestamp,
                    tx_id,
                    nt,
                ) && final(state).tx_registry@ == done
            } else if uf {
                r == Ok::<(), RecordTxErr>(()) && crate::user::user_unknown_applied(
                    s,
                    *final(state),
                    tx.from@,
                    tx.to@,
                    TxKind::Sends,
                    tx.amount,
                    tx.timestamp,
                    tx_id,
                    nt,
                ) && final(state).tx_registry@ == done
            } else if bf {
                r == Ok::<(), RecordTxErr>(()) && crate::business::business_unknown_applied(
                    s,
                    *final(state),
                    tx.from@,
                    tx.to@,
                    TxKind::Sends,
                    tx.amount,
                    tx.timestamp,
                    tx_id,
                    nt,
                ) && final(state).tx_registry@ == done
            } else if ut {
                r == Ok::<(), RecordTxErr>(()) && crate::user::user_unknown_applied(
                    s,
                    *final(state),
                    tx.to@,
                    tx.from@,
                    TxKind::Receive,
                    tx.amount,
                    tx.timestamp,
                    tx_id,
                    nt,
                ) && final(state).tx_registry@ == done
            } else if bt {
                r == Ok::<(), RecordTxErr>(()) && crate::business::business_unknown_applied(
                    s,
                    *final(state),
                    tx.to@,
                    tx.from@,
                    TxKind::Receive,
                    tx.amount,
                    tx.timestamp,
                    tx_id,
                    nt,
                ) && final(state).tx_registry@ == done
            } else {
                &&& r matches Err(RecordTxErr::BothAccountsNotFound { from, to }) && from@
                    == tx.from@ && to@ == tx.to@
                &&& final(state).tx_registry@ == s.tx_registry@.remove(tx_id)
                &&& final(state).users@ == s.users@
                &&& final(state).businesses@ == s.businesses@
                &&& final(state).pay_ids@ == s.pay_ids@
                &&& final(state).chats@ == s.chats@
                &&& final(state).business_in_user@ == s.business_in_user@
                &&& final(state).histories@ == s.histories@
            }
        }),
{
    let ghost pre = *old(state);
    let ghost nt = crate::textseq::opt_str_view(note);
    let from_d = tx.from.duplicate();
    let to_d = tx.to.duplicate();
    let uf = crate::user::is_user(state, &tx.from);
    let ut = crate::user::is_user(state, &tx.to);
    let bf = crate::business::is_business(state, &tx.from);
    let bt = crate::business::is_business(state, &tx.to);
    if uf && ut {
        proof {
            assert(tx.from@ != tx.to@);
        }
        crate::user::add_user_to_user_transaction(
            state,
            caller,
            UserToUserTxArg {
                from: tx.from,
                to: tx.to,
                timestamp: tx.timestamp,
                note,
                amount: tx.amount,
                tx_id,
            },
        );
    } else if uf && bt {
        crate::business::add_business_transaction(
            state,
            BusinessTxArg {
                b_principal: tx.to.duplicate(),
                u_principal: tx.from.duplicate(),
                tx_kind: TxKind::Receive,
                amount: tx.amount,
                timestamp: tx.timestamp,
                tx_id,
            },
        );
        let ghost mid = *state;
        crate::user::add_user_business_transaction(
            state,
            UserBusinessTxArg {
                tx_id,
                amount: tx.amount,
                timestamp: tx.timestamp,
                b_principal: tx.to,
                u_principal: tx.from,
                note,
                tx_kind: TxKind::Sends,
            },
        );
        proof {
            lemma_pair_composition(
                pre,
                mid,
                *state,
                from_d@,
                to_d@,
                TxKind::Sends,
                tx.amount,
                tx.timestamp,
                tx_id,
                nt,
            );
        }
    } else if bf && ut {
        crate::business::add_business_transaction(
            state,
            BusinessTxArg {
                b_principal: tx.from.duplicate(),
                u_principal: tx.to.duplicate(),
                tx_kind: TxKind::Sends,
                amount: tx.amount,
                timestamp: tx.timestamp,
                tx_id,
            },
        );
        let ghost mid = *state;
        crate::user::add_user_business_transaction(
            state,
            UserBusinessTxArg {
                tx_id,
                amount: tx.amount,
                timestamp: tx.timestamp,
                b_principal: tx.from,
                u_principal: tx.to,
                note,
                tx_kind: TxKind::Receive,
            },
        );
        proof {
            lemma_pair_composition(
                pre,
                mid,
                *state,
                to_d@,
                from_d@,
                TxKind::Receive,
                tx.amount,
                tx.timestamp,
                tx_id,
                nt,
            );
        }
    } else if bf && bt {
        proof {
            assert(tx.from@ != tx.to@);
        }
        crate::business::add_business_to_business_transaction(
            state,
            BtoBTxArg {
                from: tx.from,
                to: tx.to,
                timestamp: tx.timestamp,
                note,
                amount: tx.amount,
                tx_id,
            },
        );
    } else if uf {
        crate::user::add_unknown_transaction(
            state,
            UserUnknownTxArg {
                tx_id,
                u_principal: tx.from,
                unknown: tx.to,
                amount: tx.amount,
                timestamp: tx.timestamp,
                note,
                tx_kind: TxKind::Sends,
            },
        );
    } else if bf {
        crate::business::add_unknown_transaction(
            state,
            BusinessUnknownTxArg {
                tx_id,
                b_principal: tx.from,
                unknown: tx.to,
                amount: tx.amount,
                timestamp: tx.timestamp,
                note,
                tx_kind: TxKind::Sends,
            },
        );
    } else if ut {
        crate::user::add_unknown_transaction(
            state,
            UserUnknownTxArg {
                tx_id,
                u_principal: tx.to,
                unknown: tx.from,
                amount: tx.amount,
                timestamp: tx.timestamp,
                note,
                tx_kind: TxKind::Receive,
            },
        );
    } else if bt {
        crate::business::add_unknown_transaction(
            state,
            BusinessUnknownTxArg {
                tx_id,
                b_principal: tx.to,
                unknown: tx.from,
                amount: tx.amount,
                timestamp: tx.timestamp,
                note,
                tx_kind: TxKind::Receive,
            },
        );
    } else {
        let ghost mid = *state;
        state.tx_registry.remove(tx_id);
        proof {
            lemma_wf_preserved(mid, *state);
        }
        return Err(RecordTxErr::BothAccountsNotFound { from: tx.from, to: tx.to });
    }
    let ghost mid2 = *state;
    state.tx_registry.insert(
        tx_id,
        TxStatus::Applied(TxInfo { from: Some(from_d), to: Some(to_d) }),
    );
    proof {
        lemma_wf_preserved(mid2, *state);
    }
    Ok(())
}

/// Composing the business-side write with the user-side write of one
/// user-business transfer yields the pair's combined effect.
proof fn lemma_pair_composition(
    pre: AppState,
    mid: AppState,
    post: AppState,
    u: Seq<char>,
    b: Seq<char>,
    user_kind: TxKind,
    amount: u64,
    ts: u64,
    tx_id: u64,
    note: Option<Seq<char>>,
)
    requires
        pre.wf(),
        pre.users@.contains_key(u),
        pre.businesses@.contains_key(b),
        crate::business::business_tx_applied(
            pre,
            mid,
            b,
            u,
            if user_kind == TxKind::Sends {
                TxKind::Receive
            } else {
                TxKind::Sends
            },
            amount,
            ts,
            tx_id,
        ),
        crate::user::user_business_applied(mid, post, u, b, user_kind, amount, ts, tx_id, note),
    ensures
        user_business_pair_applied(pre, post, u, b, user_kind, amount, ts, tx_id, note),
{
    let bb = pre.businesses@[b];
    let bb_mid = mid.businesses@[b];
    assert(mid.businesses@.contains_key(b));
    assert(bb_mid.name == bb.name && bb_mid.pay_id == bb.pay_id && bb_mid.logo == bb.logo
        && bb_mid.category == bb.category && bb_mid.created_at == bb.created_at);
    let id = pair_key(pre.users@[u].pay_id, bb.pay_id);
    assert(crate::user::fresh_business_in_user_v(id, bb_mid, b, ts)
        == crate::user::fresh_business_in_user_v(id, bb, b, ts));
    assert(mid.users@ == pre.users@);
    assert(mid.business_in_user@ == pre.business_in_user@);
    assert(mid.histories@ == pre.histories@);
}

/// Whether a fulfillment attempt passes every check: both parties
/// registered and participants of the chat, a payment request at the named
/// index, not expired beyond the grace window, the exact amount, and the
/// paid party being the request's author.
pub open spec fn fulfill_accepts(s: AppState, arg: &RecordReqPayTxArg) -> bool {
    &&& s.users@.contains_key(arg.from@)
    &&& s.users@.contains_key(arg.to@)
    &&& s.chats@.contains_key(arg.chat_id@)
    &&& s.chats@[arg.chat_id@].participants.contains(s.users@[arg.from@].pay_id)
    &&& s.chats@[arg.chat_id@].participants.contains(s.users@[arg.to@].pay_id)
    &&& arg.message_index < s.chats@[arg.chat_id@].messages.len()
    &&& s.chats@[arg.chat_id@].messages[arg.message_index as int] is RequestPayment
    &&& {
        let req = s.chats@[arg.chat_id@].messages[arg.message_index as int]->RequestPayment_0;
        &&& !(req.expires_at + crate::chat::REQUEST_GRACE_NANOS < arg.timestamp)
        &&& req.amount == arg.amount
        &&& req.sender_id == s.users@[arg.to@].pay_id
    }
}

/// Which error a refused fulfillment attempt reports.
pub open spec fn fulfill_error_is(s: AppState, arg: &RecordReqPayTxArg, e: RecordRegPayTxErr) -> bool {
    if !(s.users@.contains_key(arg.from@) && s.users@.contains_key(arg.to@)) {
        e == RecordRegPayTxErr::AccountNotFound
    } else if !s.chats@.contains_key(arg.chat_id@) {
        e == RecordRegPayTxErr::ChatNotFound
    } else if !(s.chats@[arg.chat_id@].participants.contains(s.users@[arg.from@].pay_id)
        && s.chats@[arg.chat_id@].participants.contains(s.users@[arg.to@].pay_id)) {
        e == RecordRegPayTxErr::NotAParticipant
    } else if !(arg.message_index < s.chats@[arg.chat_id@].messages.len()
        && s.chats@[arg.chat_id@].messages[arg.message_index as int] is RequestPayment) {
        e == RecordRegPayTxErr::RequestPaymentNotFound
    } else {
        let req = s.chats@[arg.chat_id@].messages[arg.message_index as int]->RequestPayment_0;
        if req.expires_at + crate::chat::REQUEST_GRACE_NANOS < arg.timestamp {
            e == RecordRegPayTxErr::InvalidTransaction(InvalidTxReason::ExpiredRequest)
        } else if req.amount != arg.amount {
            e == RecordRegPayTxErr::InvalidTransaction(InvalidTxReason::AmountMismatch)
        } else {
            e matches RecordRegPayTxErr::InvalidTransaction(
                InvalidTxReason::WrongRequester { requester, receiver },
            ) && requester@ == req.sender_id && receiver@ == s.users@[arg.to@].pay_id
        }
    }
}

/// Commits a verified transfer against a pending payment request, then
/// finalizes the idempotency record; a refused attempt releases the
/// reservation so the id may be retried.
pub fn record_request_payment_commit(state: &mut AppState, arg: RecordReqPayTxArg) -> (r: Result<
    (),
    RecordRegPayTxErr,
>)
    requires
        old(state).wf(),
        old(state).tx_registry@.contains_key(arg.tx_id),
        old(state).tx_registry@[arg.tx_id] is Pending,
    ensures
        final(state).wf(),
        fulfill_accepts(*old(state), &arg) ==> r == Ok::<(), RecordRegPayTxErr>(())
            && crate::user::request_payment_applied(
            *old(state),
            *final(state),
            arg.from@,
            arg.to@,
            arg.timestamp,
            arg.amount,
            arg.tx_id,
            arg.chat_id@,
            arg.message_index as int,
        ) && final(state).tx_registry@ == old(state).tx_registry@.insert(
            arg.tx_id,
            applied_status(arg.from@, arg.to@),
        ),
        !fulfill_accepts(*old(state), &arg) ==> (r matches Err(e) && fulfill_error_is(
            *old(state),
            &arg,
            e,
        )) && final(state).tx_registry@ == old(state).tx_registry@.remove(arg.tx_id) && final(state).users@ == old(state).users@ && final(state).businesses@ == old(state).businesses@
            && final(state).pay_ids@ == old(state).pay_ids@ && final(state).chats@ == old(state).chats@ && final(state).business_in_user@ == old(state).business_in_user@ && final(state).histories@ == old(state).histories@,
{
    let ghost pre = *old(state);
    let from_d = arg.from.duplicate();
    let to_d = arg.to.duplicate();
    let tx_id = arg.tx_id;
    match crate::user::record_request_payment(state, arg) {
        Ok(()) => {
            let ghost mid = *state;
            state.tx_registry.insert(
                tx_id,
                TxStatus::Applied(TxInfo { from: Some(from_d), to: Some(to_d) }),
            );
            proof {
                lemma_wf_preserved(mid, *state);
            }
            Ok(())
        },
        Err(e) => {
            let ghost mid = *state;
            state.tx_registry.remove(tx_id);
            proof {
                lemma_wf_preserved(mid, *state);
            }
            Err(e)
        },
    }
}

/// Idempotency of settlement, first half: a committed transfer leaves its
/// transaction id in the registry.  Together with the contract of
/// [`record_xfer_begin`] — which fails `AlreadyRecorded`, changing nothing,
/// whenever the registry holds the id — a second settle attempt for the same
/// id is refused before any external call is made, so one id yields at most
/// one set of mirrored entries.
pub proof fn lemma_settle_idempotent(
    pre: AppState,
    post: AppState,
    from: Seq<char>,
    to: Seq<char>,
    tx_id: u64,
)
    requires
        post.tx_registry@ == pre.tx_registry@.insert(tx_id, applied_status(from, to)),
    ensures
        post.tx_registry@.contains_key(tx_id),
{
}

/// Symmetry of a user-to-user transfer: a transfer of amount `a` at time `ts` between two
/// registered users gives the sender's history exactly one new `Sends` entry
/// and the receiver's exactly one new `Receive` entry, both carrying the
/// same transaction id, amount and timestamp; and both parties' recency
/// indices hold the pair chat's id under the transfer's timestamp.
pub proof fn lemma_transfer_symmetry(
    pre: AppState,
    post: AppState,
    caller: Seq<char>,
    from: Seq<char>,
    to: Seq<char>,
    ts: u64,
    note: Option<Seq<char>>,
    a: u64,
    tx_id: u64,
)
    requires
        pre.users@.contains_key(from),
        pre.users@.contains_key(to),
        from != to,
        crate::user::user_to_user_applied(pre, post, caller, from, to, ts, note, a, tx_id),
    ensures
        ({
            let cid = pair_key(pre.users@[from].pay_id, pre.users@[to].pay_id);
            let sent = crate::user::history_of(post, from);
            let rcvd = crate::user::history_of(post, to);
            &&& sent.len() == crate::user::history_of(pre, from).len() + 1
            &&& rcvd.len() == crate::user::history_of(pre, to).len() + 1
            &&& sent.last().kind == TxKind::Sends
            &&& rcvd.last().kind == TxKind::Receive
            &&& sent.last().tx_id == tx_id && rcvd.last().tx_id == tx_id
            &&& sent.last().amount == a && rcvd.last().amount == a
            &&& sent.last().timestamp == ts && rcvd.last().timestamp == ts
            &&& post.users@[from].my_chats.contains((ts, cid))
            &&& post.users@[to].my_chats.contains((ts, cid))
            &&& post.chats@[cid].last_activity == ts
        }),
{
    let cid = pair_key(pre.users@[from].pay_id, pre.users@[to].pay_id);
    let h1 = hist_after(
        pre.histories@,
        from,
        entry_v(
            TxKind::Sends,
            pre.users@[to].name,
            pre.users@[to].pay_id,
            tx_id,
            ts,
            a,
            note,
        ),
    );
    assert(post.histories@ == hist_after(
        h1,
        to,
        entry_v(
            TxKind::Receive,
            pre.users@[from].name,
            pre.users@[from].pay_id,
            tx_id,
            ts,
            a,
            note,
        ),
    ));
    assert(crate::user::history_of(post, from) == h1[from]);
}

} // verus!
