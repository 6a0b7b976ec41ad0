//! The per-identity transaction history mirror.
//!
//! Every applied transfer leaves one immutable `TransactionEntry` in the
//! history of each known party.  The log is append-only and chronological;
//! read views return a suffix, newest first.

use vstd::prelude::*;
use crate::textseq::{dup_opt_string, opt_str_view};

verus! {

/// Whether the owning party sent or received the transfer.
#[derive(Clone, Copy, PartialEq, Eq, Structural, Debug)]
pub enum TxKind {
    Receive,
    Sends,
}

/// One mirrored transfer, as seen by the party whose history holds it.
/// `name` and `pay_id` describe the counterparty.
pub struct TransactionEntry {
    pub kind: TxKind,
    pub name: String,
    pub pay_id: String,
    pub tx_id: u64,
    pub timestamp: u64,
    pub amount: u64,
    pub note: Option<String>,
}

/// The abstract value of a [`TransactionEntry`].
pub struct TransactionEntryV {
    pub kind: TxKind,
    pub name: Seq<char>,
    pub pay_id: Seq<char>,
    pub tx_id: u64,
    pub timestamp: u64,
    pub amount: u64,
    pub note: Option<Seq<char>>,
}

impl View for TransactionEntry {
    type V = TransactionEntryV;

    open spec fn view(&self) -> TransactionEntryV {
        TransactionEntryV {
            kind: self.kind,
            name: self.name@,
            pay_id: self.pay_id@,
            tx_id: self.tx_id,
            timestamp: self.timestamp,
            amount: self.amount,
            note: opt_str_view(self.note),
        }
    }
}

impl TransactionEntry {
    /// An owned copy of this entry.
    pub fn duplicate(&self) -> (r: TransactionEntry)
        ensures
            r@ == self@,
    {
        TransactionEntry {
            kind: self.kind,
            name: self.name.clone(),
            pay_id: self.pay_id.clone(),
            tx_id: self.tx_id,
            timestamp: self.timestamp,
            amount: self.amount,
            note: dup_opt_string(&self.note),
        }
    }
}

pub type TxHistory = Vec<TransactionEntry>;

/// Builds the abstract value of one history entry.
pub open spec fn entry_v(
    kind: TxKind,
    name: Seq<char>,
    pay_id: Seq<char>,
    tx_id: u64,
    timestamp: u64,
    amount: u64,
    note: Option<Seq<char>>,
) -> TransactionEntryV {
    TransactionEntryV { kind, name, pay_id, tx_id, timestamp, amount, note }
}

/// The abstract values of a list of entries.
pub open spec fn entries_view(s: Seq<TransactionEntry>) -> Seq<TransactionEntryV> {
    Seq::new(s.len(), |i: int| s[i]@)
}

/// The entries of `v` from position `start` on, newest first.
pub fn rev_suffix_entries(v: &Vec<TransactionEntry>, start: usize) -> (r: Vec<TransactionEntry>)
    requires
        start <= v@.len(),
    ensures
        r@.len() == v@.len() - start,
        forall|i: int| 0 <= i < r@.len() ==> r@[i]@ == entries_view(v@)[v@.len() - 1 - i],
{
    let n = v.len();
    let mut out: Vec<TransactionEntry> = Vec::new();
    let mut i: usize = n;
    while i > start
        invariant
            start <= i <= n,
            n == v@.len(),
            out@.len() == n - i,
            forall|j: int| 0 <= j < out@.len() ==> out@[j]@ == entries_view(v@)[n - 1 - j],
        decreases i,
    {
        i = i - 1;
        out.push(v[i].duplicate());
    }
    out
}

/// How many entries the initial read view returns at most.
pub const INITIAL_HISTORY_LIMIT: usize = 50;

/// A party's append-only transaction log.
pub struct StoreHistory {
    pub history: TxHistory,
}

impl View for StoreHistory {
    type V = Seq<TransactionEntryV>;

    open spec fn view(&self) -> Seq<TransactionEntryV> {
        entries_view(self.history@)
    }
}

impl StoreHistory {
    /// Wraps an existing log.
    pub fn new(value: TxHistory) -> (r: StoreHistory)
        ensures
            r@ == entries_view(value@),
    {
        StoreHistory { history: value }
    }

    /// Appends one entry at the chronological end.
    pub fn push_entry(&mut self, e: TransactionEntry)
        ensures
            final(self)@ == old(self)@.push(e@),
    {
        self.history.push(e);
        proof {
            assert(final(self)@ =~= old(self)@.push(e@));
        }
    }

    /// The entries from position `start` on, newest first.
    fn rev_suffix(&self, start: usize) -> (r: Vec<TransactionEntry>)
        requires
            start <= self@.len(),
        ensures
            r@.len() == self@.len() - start,
            forall|i: int| 0 <= i < r@.len() ==> r@[i]@ == self@[self@.len() - 1 - i],
    {
        rev_suffix_entries(&self.history, start)
    }

    /// At most the most recent [`INITIAL_HISTORY_LIMIT`] entries, newest
    /// first.
    pub fn read_initial(&self) -> (r: Vec<TransactionEntry>)
        ensures
            r@.len() == if self@.len() > INITIAL_HISTORY_LIMIT {
                INITIAL_HISTORY_LIMIT as int
            } else {
                self@.len() as int
            },
            forall|i: int| 0 <= i < r@.len() ==> r@[i]@ == self@[self@.len() - 1 - i],
    {
        let n = self.history.len();
        let start = if n > INITIAL_HISTORY_LIMIT {
            n - INITIAL_HISTORY_LIMIT
        } else {
            0
        };
        self.rev_suffix(start)
    }

    /// The entire log, newest first.
    pub fn read_all(&self) -> (r: Vec<TransactionEntry>)
        ensures
            r@.len() == self@.len(),
            forall|i: int| 0 <= i < r@.len() ==> r@[i]@ == self@[self@.len() - 1 - i],
    {
        self.rev_suffix(0)
    }

    /// The entries appended after position `known_len`, newest first; an
    /// out-of-range `known_len` yields the empty view.
    pub fn read_new(&self, known_len: usize) -> (r: Vec<TransactionEntry>)
        ensures
            r@.len() == if known_len <= self@.len() {
                self@.len() - known_len
            } else {
                0int
            },
            forall|i: int| 0 <= i < r@.len() ==> r@[i]@ == self@[self@.len() - 1 - i],
    {
        let n = self.history.len();
        if known_len > n {
            Vec::new()
        } else {
            self.rev_suffix(known_len)
        }
    }
}

} // verus!
