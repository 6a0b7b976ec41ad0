//! Registered businesses: profile data and their own transaction list.

use vstd::prelude::*;
use crate::error::{GetBusinessError, SignUpError};
use crate::history::{entries_view, entry_v, TransactionEntry, TransactionEntryV, TxKind};
use crate::identity::Identity;
use crate::state::AppState;
use crate::user::user_v_wf;

verus! {

#[derive(Clone, Copy, PartialEq, Eq, Structural, Debug)]
pub enum BusinessCategory {
    Agriculture,
    Manufacturing,
    Technology,
    Retail,
    Food,
    Healthcare,
    Education,
    Finance,
    RealEstate,
    Construction,
    Transportation,
    Entertainment,
    Professional,
    Hospitality,
    Energy,
    Other,
}

/// A registered business: profile plus its own transaction list.
pub struct Business {
    pub name: String,
    pub pay_id: String,
    pub logo: String,
    pub category: BusinessCategory,
    pub transactions: Vec<TransactionEntry>,
    pub created_at: u64,
}

pub struct BusinessV {
    pub name: Seq<char>,
    pub pay_id: Seq<char>,
    pub logo: Seq<char>,
    pub category: BusinessCategory,
    pub transactions: Seq<TransactionEntryV>,
    pub created_at: u64,
}

impl View for Business {
    type V = BusinessV;

    open spec fn view(&self) -> BusinessV {
        BusinessV {
            name: self.name@,
            pay_id: self.pay_id@,
            logo: self.logo@,
            category: self.category,
            transactions: entries_view(self.transactions@),
            created_at: self.created_at,
        }
    }
}

/// Copies a list of entries.
pub fn dup_entries(v: &Vec<TransactionEntry>) -> (r: Vec<TransactionEntry>)
    ensures
        entries_view(r@) == entries_view(v@),
{
    let n = v.len();
    let mut out: Vec<TransactionEntry> = Vec::new();
    let mut i: usize = 0;
    while i < n
        invariant
            i <= n,
            n == v@.len(),
            out@.len() == i,
            forall|j: int| 0 <= j < i ==> out@[j]@ == v@[j]@,
        decreases n - i,
    {
        out.push(v[i].duplicate());
        i = i + 1;
    }
    proof {
        assert(entries_view(out@) =~= entries_view(v@));
    }
    out
}

impl Business {
    /// An owned copy of this business record.
    pub fn duplicate(&self) -> (r: Business)
        ensures
            r@ == self@,
    {
        Business {
            name: self.name.clone(),
            pay_id: self.pay_id.clone(),
            logo: self.logo.clone(),
            category: self.category,
            transactions: dup_entries(&self.transactions),
            created_at: self.created_at,
        }
    }
}

/// The profile fields of a business.
pub struct BusinessMetadata {
    pub name: String,
    pub pay_id: String,
    pub logo: String,
    pub category: BusinessCategory,
    pub created_at: u64,
}

pub struct BusinessSignUpArgs {
    pub name: String,
    pub pay_id: String,
    pub logo: String,
    pub category: BusinessCategory,
}

/// A transfer between a business and a user, seen from the business's side.
pub struct BusinessTxArg {
    pub b_principal: Identity,
    pub u_principal: Identity,
    pub tx_kind: TxKind,
    pub amount: u64,
    pub timestamp: u64,
    pub tx_id: u64,
}

/// A transfer between two businesses.
pub struct BtoBTxArg {
    pub from: Identity,
    pub to: Identity,
    pub timestamp: u64,
    pub note: Option<String>,
    pub amount: u64,
    pub tx_id: u64,
}

/// A transfer between a business and an unrecognized identity, seen from the
/// business's side.
pub struct BusinessUnknownTxArg {
    pub tx_id: u64,
    pub b_principal: Identity,
    pub unknown: Identity,
    pub amount: u64,
    pub timestamp: u64,
    pub note: Option<String>,
    pub tx_kind: TxKind,
}

/// Whether `principal` is a registered business.
pub fn is_business(state: &AppState, principal: &Identity) -> (r: bool)
    ensures
        r == state.businesses@.contains_key(principal@),
{
    state.businesses.contains_key(&principal.text)
}

/// The profile fields of a registered business.
pub fn get_metadata(state: &AppState, principal: &Identity) -> (r: Option<BusinessMetadata>)
    requires
        state.wf(),
    ensures
        match r {
            Some(m) => state.businesses@.contains_key(principal@) && m.name@
                == state.businesses@[principal@].name && m.pay_id@
                == state.businesses@[principal@].pay_id && m.logo@
                == state.businesses@[principal@].logo && m.category
                == state.businesses@[principal@].category && m.created_at
                == state.businesses@[principal@].created_at,
            None => !state.businesses@.contains_key(principal@),
        },
{
    match state.businesses.get(&principal.text) {
        Some(b) => Some(
            BusinessMetadata {
                name: b.name.clone(),
                pay_id: b.pay_id.clone(),
                logo: b.logo.clone(),
                category: b.category,
                created_at: b.created_at,
            },
        ),
        None => None,
    }
}

/// The caller's own business record.
pub fn ic_get_business(state: &AppState, caller: &Identity) -> (r: Result<
    Business,
    GetBusinessError,
>)
    requires
        state.wf(),
    ensures
        match r {
            Ok(b) => state.businesses@.contains_key(caller@) && b@ == state.businesses@[caller@],
            Err(e) => !state.businesses@.contains_key(caller@) && e
                == GetBusinessError::AccountNotFound,
        },
{
    match state.businesses.get(&caller.text) {
        Some(b) => Ok(b.duplicate()),
        None => Err(GetBusinessError::AccountNotFound),
    }
}

/// The record a successful business sign-up stores.
pub open spec fn fresh_business_v(args: BusinessSignUpArgs, now: u64) -> BusinessV {
    BusinessV {
        name: args.name@,
        pay_id: args.pay_id@,
        logo: args.logo@,
        category: args.category,
        transactions: Seq::empty(),
        created_at: now,
    }
}

/// Registers the caller as a business.  Anonymous callers,
/// already-registered callers and already-taken aliases are rejected, in
/// that order.
pub fn sign_up_business(
    state: &mut AppState,
    caller: &Identity,
    now: u64,
    arg: BusinessSignUpArgs,
) -> (r: Result<(), SignUpError>)
    requires
        old(state).wf(),
    ensures
        final(state).wf(),
        caller@.len() == 0 ==> r == Err::<(), SignUpError>(SignUpError::AnonymousCaller) && *final(state) == *old(state),
        caller@.len() != 0 && (old(state).users@.contains_key(caller@) || old(
            state,
        ).businesses@.contains_key(caller@)) ==> r == Err::<(), SignUpError>(
            SignUpError::AccountExist,
        ) && *final(state) == *old(state),
        caller@.len() != 0 && !old(state).users@.contains_key(caller@) && !old(
            state,
        ).businesses@.contains_key(caller@) && old(state).pay_ids@.contains_key(arg.pay_id@) ==> r
            == Err::<(), SignUpError>(SignUpError::PayIdExist) && *final(state) == *old(state),
        caller@.len() != 0 && !old(state).users@.contains_key(caller@) && !old(
            state,
        ).businesses@.contains_key(caller@) && !old(state).pay_ids@.contains_key(arg.pay_id@) ==> {
            &&& r == Ok::<(), SignUpError>(())
            &&& final(state).businesses@ == old(state).businesses@.insert(
                caller@,
                fresh_business_v(arg, now),
            )
            &&& final(state).pay_ids@ == old(state).pay_ids@.insert(arg.pay_id@, caller@)
            &&& final(state).users@ == old(state).users@
            &&& final(state).chats@ == old(state).chats@
            &&& final(state).business_in_user@ == old(state).business_in_user@
            &&& final(state).histories@ == old(state).histories@
            &&& final(state).tx_registry@ == old(state).tx_registry@
        },
{
    if caller.is_anonymous() {
        return Err(SignUpError::AnonymousCaller);
    }
    if is_business(state, caller) || crate::user::is_user(state, caller) {
        return Err(SignUpError::AccountExist);
    }
    if crate::state::is_payid_exist(state, &arg.pay_id) {
        return Err(SignUpError::PayIdExist);
    }
    let pay_id = arg.pay_id.clone();
    let business = Business {
        name: arg.name,
        pay_id: arg.pay_id,
        logo: arg.logo,
        category: arg.category,
        transactions: Vec::new(),
        created_at: now,
    };
    let ghost pre = *old(state);
    proof {
        assert(business@.transactions =~= fresh_business_v(arg, now).transactions);
        assert(business@ == fresh_business_v(arg, now));
    }
    state.businesses.insert(caller.text.clone(), business);
    state.pay_ids.insert(pay_id, caller.duplicate());
    proof {
        lemma_sign_up_business_wf(pre, *state, caller@, pre.pay_ids@.insert(arg.pay_id@, caller@));
    }
    Ok(())
}

proof fn lemma_sign_up_business_wf(
    pre: AppState,
    post: AppState,
    k: Seq<char>,
    ids: Map<Seq<char>, Seq<char>>,
)
    requires
        pre.wf(),
        !pre.users@.contains_key(k),
        !pre.businesses@.contains_key(k),
        post.businesses.wf(),
        post.pay_ids.wf(),
        post.businesses@.contains_key(k),
        !pre.pay_ids@.contains_key(post.businesses@[k].pay_id),
        forall|j: Seq<char>|
            j != k ==> post.businesses@.contains_key(j) == pre.businesses@.contains_key(j),
        forall|j: Seq<char>|
            j != k && pre.businesses@.contains_key(j) ==> post.businesses@[j]
                == pre.businesses@[j],
        post.pay_ids@ == pre.pay_ids@.insert(post.businesses@[k].pay_id, k),
        post.users == pre.users,
        post.chats == pre.chats,
        post.business_in_user == pre.business_in_user,
        post.histories == pre.histories,
        post.tx_registry == pre.tx_registry,
    ensures
        post.wf(),
{
    let alias = post.businesses@[k].pay_id;
    assert forall|j: Seq<char>| #[trigger] post.users@.contains_key(j) implies user_v_wf(post.users@[j]) && !post.businesses@.contains_key(j) && post.pay_ids@.contains_key(post.users@[j].pay_id)
        && post.pay_ids@[post.users@[j].pay_id] == j by {
        assert(pre.users@.contains_key(j));
        assert(pre.users@[j].pay_id != alias);
        assert(j != k);
    }
    assert forall|j: Seq<char>| #[trigger] post.businesses@.contains_key(j) implies
    post.pay_ids@.contains_key(post.businesses@[j].pay_id) && post.pay_ids@[post.businesses@[j].pay_id] == j by {
        if j != k {
            assert(pre.businesses@.contains_key(j));
            assert(pre.businesses@[j].pay_id != alias);
        }
    }
    assert forall|a: Seq<char>| #[trigger] post.pay_ids@.contains_key(a) implies {
        let o = post.pay_ids@[a];
        (post.users@.contains_key(o) && post.users@[o].pay_id == a) || (
        post.businesses@.contains_key(o) && post.businesses@[o].pay_id == a)
    } by {
        if a != alias {
            assert(pre.pay_ids@.contains_key(a));
            let o = pre.pay_ids@[a];
            if pre.businesses@.contains_key(o) && pre.businesses@[o].pay_id == a {
                assert(o != k);
            }
        }
    }
}

/// What a user-business transfer does to the business's own transaction
/// list: one entry naming the user, with no note.
pub open spec fn business_tx_applied(
    pre: AppState,
    post: AppState,
    b: Seq<char>,
    u: Seq<char>,
    kind: TxKind,
    amount: u64,
    ts: u64,
    tx_id: u64,
) -> bool {
    let bb = pre.businesses@[b];
    let uu = pre.users@[u];
    let e = entry_v(kind, uu.name, uu.pay_id, tx_id, ts, amount, None);
    &&& post.businesses@ == pre.businesses@.insert(
        b,
        BusinessV { transactions: bb.transactions.push(e), ..bb },
    )
    &&& post.users@ == pre.users@
    &&& post.pay_ids@ == pre.pay_ids@
    &&& post.chats@ == pre.chats@
    &&& post.business_in_user@ == pre.business_in_user@
    &&& post.histories@ == pre.histories@
}

/// Applies the business-side half of a verified transfer between a user and
/// a business; `tx_kind` is the business's perspective.
pub fn add_business_transaction(state: &mut AppState, arg: BusinessTxArg)
    requires
        old(state).wf(),
        old(state).businesses@.contains_key(arg.b_principal@),
        old(state).users@.contains_key(arg.u_principal@),
    ensures
        final(state).wf(),
        final(state).tx_registry == old(state).tx_registry,
        business_tx_applied(
            *old(state),
            *final(state),
            arg.b_principal@,
            arg.u_principal@,
            arg.tx_kind,
            arg.amount,
            arg.timestamp,
            arg.tx_id,
        ),
{
    let ghost pre = *old(state);
    let (u_name, u_pay) = match crate::user::get_metadata(state, &arg.u_principal) {
        Some(m) => (m.name, m.pay_id),
        None => {
            proof {
                assert(false);
            }
            unreached()
        },
    };
    let mut business = match state.businesses.remove(&arg.b_principal.text) {
        Some(b) => b,
        None => {
            proof {
                assert(false);
            }
            unreached()
        },
    };
    let ghost bb = business@;
    let e = TransactionEntry {
        kind: arg.tx_kind,
        name: u_name,
        pay_id: u_pay,
        tx_id: arg.tx_id,
        timestamp: arg.timestamp,
        amount: arg.amount,
        note: None,
    };
    let ghost ev = e@;
    business.transactions.push(e);
    proof {
        assert(entries_view(business.transactions@) =~= bb.transactions.push(ev));
        assert(business@ == BusinessV { transactions: bb.transactions.push(ev), ..bb });
    }
    state.businesses.insert(arg.b_principal.text.clone(), business);
    proof {
        assert(state.businesses@ =~= pre.businesses@.insert(
            arg.b_principal@,
            BusinessV { transactions: bb.transactions.push(ev), ..bb },
        ));
        assert(state.businesses@.dom() =~= pre.businesses@.dom());
        crate::state::lemma_wf_preserved(pre, *state);
    }
}

/// What a business-to-business transfer does to the state: a `Sends` entry
/// in the paying business's list and a `Receive` entry in the receiving
/// business's list, each naming the other.
pub open spec fn business_to_business_applied(
    pre: AppState,
    post: AppState,
    from: Seq<char>,
    to: Seq<char>,
    amount: u64,
    ts: u64,
    tx_id: u64,
    note: Option<Seq<char>>,
) -> bool {
    let fb = pre.businesses@[from];
    let tb = pre.businesses@[to];
    let send = entry_v(TxKind::Sends, tb.name, tb.pay_id, tx_id, ts, amount, note);
    let recv = entry_v(TxKind::Receive, fb.name, fb.pay_id, tx_id, ts, amount, note);
    &&& post.businesses@ == pre.businesses@.insert(
        from,
        BusinessV { transactions: fb.transactions.push(send), ..fb },
    ).insert(to, BusinessV { transactions: tb.transactions.push(recv), ..tb })
    &&& post.users@ == pre.users@
    &&& post.pay_ids@ == pre.pay_ids@
    &&& post.chats@ == pre.chats@
    &&& post.business_in_user@ == pre.business_in_user@
    &&& post.histories@ == pre.histories@
}

/// Applies a verified transfer between two registered businesses.
pub fn add_business_to_business_transaction(state: &mut AppState, arg: BtoBTxArg)
    requires
        old(state).wf(),
        old(state).businesses@.contains_key(arg.from@),
        old(state).businesses@.contains_key(arg.to@),
        arg.from@ != arg.to@,
    ensures
        final(state).wf(),
        final(state).tx_registry == old(state).tx_registry,
        business_to_business_applied(
            *old(state),
            *final(state),
            arg.from@,
            arg.to@,
            arg.amount,
            arg.timestamp,
            arg.tx_id,
            crate::textseq::opt_str_view(arg.note),
        ),
{
    let ghost pre = *old(state);
    let (f_name, f_pay) = match state.businesses.get(&arg.from.text) {
        Some(b) => (b.name.clone(), b.pay_id.clone()),
        None => {
            proof {
                assert(false);
            }
            unreached()
        },
    };
    let (t_name, t_pay) = match state.businesses.get(&arg.to.text) {
        Some(b) => (b.name.clone(), b.pay_id.clone()),
        None => {
            proof {
                assert(false);
            }
            unreached()
        },
    };
    let mut from_business = match state.businesses.remove(&arg.from.text) {
        Some(b) => b,
        None => {
            proof {
                assert(false);
            }
            unreached()
        },
    };
    let ghost fb = from_business@;
    let send = TransactionEntry {
        kind: TxKind::Sends,
        name: t_name,
        pay_id: t_pay,
        tx_id: arg.tx_id,
        timestamp: arg.timestamp,
        amount: arg.amount,
        note: crate::textseq::dup_opt_string(&arg.note),
    };
    let ghost send_v = send@;
    from_business.transactions.push(send);
    proof {
        assert(entries_view(from_business.transactions@) =~= fb.transactions.push(send_v));
        assert(from_business@ == BusinessV { transactions: fb.transactions.push(send_v), ..fb });
    }
    state.businesses.insert(arg.from.text.clone(), from_business);
    let mut to_business = match state.businesses.remove(&arg.to.text) {
        Some(b) => b,
        None => {
            proof {
                assert(false);
            }
            unreached()
        },
    };
    let ghost tb = to_business@;
    let recv = TransactionEntry {
        kind: TxKind::Receive,
        name: f_name,
        pay_id: f_pay,
        tx_id: arg.tx_id,
        timestamp: arg.timestamp,
        amount: arg.amount,
        note: crate::textseq::dup_opt_string(&arg.note),
    };
    let ghost recv_v = recv@;
    to_business.transactions.push(recv);
    proof {
        assert(entries_view(to_business.transactions@) =~= tb.transactions.push(recv_v));
        assert(to_business@ == BusinessV { transactions: tb.transactions.push(recv_v), ..tb });
    }
    state.businesses.insert(arg.to.text.clone(), to_business);
    proof {
        assert(state.businesses@ =~= pre.businesses@.insert(
            arg.from@,
            BusinessV { transactions: fb.transactions.push(send_v), ..fb },
        ).insert(arg.to@, BusinessV { transactions: tb.transactions.push(recv_v), ..tb }));
        assert(state.businesses@.dom() =~= pre.businesses@.dom());
        crate::state::lemma_wf_preserved(pre, *state);
    }
}

/// What a transfer between a business and an unrecognized identity does to
/// the state: one entry in the business's list, naming the unknown
/// identity's textual form.
pub open spec fn business_unknown_applied(
    pre: AppState,
    post: AppState,
    b: Seq<char>,
    unknown: Seq<char>,
    kind: TxKind,
    amount: u64,
    ts: u64,
    tx_id: u64,
    note: Option<Seq<char>>,
) -> bool {
    let bb = pre.businesses@[b];
    let e = entry_v(kind, unknown, unknown, tx_id, ts, amount, note);
    &&& post.businesses@ == pre.businesses@.insert(
        b,
        BusinessV { transactions: bb.transactions.push(e), ..bb },
    )
    &&& post.users@ == pre.users@
    &&& post.pay_ids@ == pre.pay_ids@
    &&& post.chats@ == pre.chats@
    &&& post.business_in_user@ == pre.business_in_user@
    &&& post.histories@ == pre.histories@
}

/// Records a transfer between a business and an unrecognized identity in the
/// business's transaction list.
pub fn add_unknown_transaction(state: &mut AppState, arg: BusinessUnknownTxArg)
    requires
        old(state).wf(),
        old(state).businesses@.contains_key(arg.b_principal@),
    ensures
        final(state).wf(),
        final(state).tx_registry == old(state).tx_registry,
        business_unknown_applied(
            *old(state),
            *final(state),
            arg.b_principal@,
            arg.unknown@,
            arg.tx_kind,
            arg.amount,
            arg.timestamp,
            arg.tx_id,
            crate::textseq::opt_str_view(arg.note),
        ),
{
    let ghost pre = *old(state);
    let mut business = match state.businesses.remove(&arg.b_principal.text) {
        Some(b) => b,
        None => {
            proof {
                assert(false);
            }
            unreached()
        },
    };
    let ghost bb = business@;
    let e = TransactionEntry {
        kind: arg.tx_kind,
        name: arg.unknown.text.clone(),
        pay_id: arg.unknown.text.clone(),
        tx_id: arg.tx_id,
        timestamp: arg.timestamp,
        amount: arg.amount,
        note: crate::textseq::dup_opt_string(&arg.note),
    };
    let ghost ev = e@;
    business.transactions.push(e);
    proof {
        assert(entries_view(business.transactions@) =~= bb.transactions.push(ev));
        assert(business@ == BusinessV { transactions: bb.transactions.push(ev), ..bb });
    }
    state.businesses.insert(arg.b_principal.text.clone(), business);
    proof {
        assert(state.businesses@ =~= pre.businesses@.insert(
            arg.b_principal@,
            BusinessV { transactions: bb.transactions.push(ev), ..bb },
        ));
        assert(state.businesses@.dom() =~= pre.businesses@.dom());
        crate::state::lemma_wf_preserved(pre, *state);
    }
}

/// The caller's business record with at most the most recent
/// [`crate::history::INITIAL_HISTORY_LIMIT`] transactions, newest first.
pub fn fetch_init_business_data(state: &AppState, caller: &Identity) -> (r: Business)
    requires
        state.wf(),
        state.businesses@.contains_key(caller@),
    ensures
        ({
            let bb = state.businesses@[caller@];
            let n = bb.transactions.len();
            &&& r@.name == bb.name
            &&& r@.pay_id == bb.pay_id
            &&& r@.logo == bb.logo
            &&& r@.category == bb.category
            &&& r@.created_at == bb.created_at
            &&& r@.transactions.len() == if n > crate::history::INITIAL_HISTORY_LIMIT {
                crate::history::INITIAL_HISTORY_LIMIT as int
            } else {
                n as int
            }
            &&& forall|i: int|
                0 <= i < r@.transactions.len() ==> r@.transactions[i] == bb.transactions[n - 1 - i]
        }),
{
    let business = match state.businesses.get(&caller.text) {
        Some(b) => b,
        None => {
            proof {
                assert(false);
            }
            unreached()
        },
    };
    let n = business.transactions.len();
    let start = if n > crate::history::INITIAL_HISTORY_LIMIT {
        n - crate::history::INITIAL_HISTORY_LIMIT
    } else {
        0
    };
    let windowed = crate::history::rev_suffix_entries(&business.transactions, start);
    Business {
        name: business.name.clone(),
        pay_id: business.pay_id.clone(),
        logo: business.logo.clone(),
        category: business.category,
        transactions: windowed,
        created_at: business.created_at,
    }
}

/// The caller's business record with its whole transaction list, newest
/// first.
pub fn fetch_business_data(state: &AppState, caller: &Identity) -> (r: Business)
    requires
        state.wf(),
        state.businesses@.contains_key(caller@),
    ensures
        ({
            let bb = state.businesses@[caller@];
            let n = bb.transactions.len();
            &&& r@.name == bb.name
            &&& r@.pay_id == bb.pay_id
            &&& r@.logo == bb.logo
            &&& r@.category == bb.category
            &&& r@.created_at == bb.created_at
            &&& r@.transactions.len() == n
            &&& forall|i: int|
                0 <= i < r@.transactions.len() ==> r@.transactions[i] == bb.transactions[n - 1 - i]
        }),
{
    let business = match state.businesses.get(&caller.text) {
        Some(b) => b,
        None => {
            proof {
                assert(false);
            }
            unreached()
        },
    };
    let windowed = crate::history::rev_suffix_entries(&business.transactions, 0);
    Business {
        name: business.name.clone(),
        pay_id: business.pay_id.clone(),
        logo: business.logo.clone(),
        category: business.category,
        transactions: windowed,
        created_at: business.created_at,
    }
}

/// The caller's business transactions beyond the first `length`, newest
/// first; an unregistered caller or an out-of-range `length` yields the
/// empty list.
pub fn get_new_business_transactions(state: &AppState, caller: &Identity, length: usize) -> (r: Vec<
    TransactionEntry,
>)
    requires
        state.wf(),
    ensures
        !state.businesses@.contains_key(caller@) ==> r@.len() == 0,
        state.businesses@.contains_key(caller@) ==> {
            let bb = state.businesses@[caller@];
            let n = bb.transactions.len();
            &&& r@.len() == if length <= n {
                n - length
            } else {
                0int
            }
            &&& forall|i: int| 0 <= i < r@.len() ==> r@[i]@ == bb.transactions[n - 1 - i]
        },
{
    let business = match state.businesses.get(&caller.text) {
        Some(b) => b,
        None => {
            return Vec::new();
        },
    };
    if length > business.transactions.len() {
        return Vec::new();
    }
    crate::history::rev_suffix_entries(&business.transactions, length)
}

} // verus!
