use paychat::history::{StoreHistory, TransactionEntry, TxKind};

fn entry(i: u64) -> TransactionEntry {
    TransactionEntry {
        kind: TxKind::Sends,
        name: format!("party{i}"),
        pay_id: format!("alias{i}"),
        tx_id: i,
        timestamp: 1_000 + i,
        amount: 10 * i,
        note: None,
    }
}

fn log_of(n: u64) -> StoreHistory {
    let mut v = Vec::new();
    let mut i = 0u64;
    while i < n {
        v.push(entry(i));
        i += 1;
    }
    StoreHistory::new(v)
}

#[test]
fn read_initial_on_120_returns_last_50_newest_first() {
    let log = log_of(120);
    let view = log.read_initial();
    assert_eq!(view.len(), 50);
    // newest first: positions 119 down to 70
    for (i, e) in view.iter().enumerate() {
        assert_eq!(e.tx_id, 119 - i as u64);
    }
}

#[test]
fn read_initial_on_10_returns_all_newest_first() {
    let log = log_of(10);
    let view = log.read_initial();
    assert_eq!(view.len(), 10);
    for (i, e) in view.iter().enumerate() {
        assert_eq!(e.tx_id, 9 - i as u64);
    }
}

#[test]
fn read_all_reverses_whole_log() {
    let log = log_of(73);
    let view = log.read_all();
    assert_eq!(view.len(), 73);
    assert_eq!(view[0].tx_id, 72);
    assert_eq!(view[72].tx_id, 0);
}

#[test]
fn read_new_returns_entries_after_known_len() {
    let log = log_of(20);
    let view = log.read_new(15);
    assert_eq!(view.len(), 5);
    assert_eq!(view[0].tx_id, 19);
    assert_eq!(view[4].tx_id, 15);
}

#[test]
fn read_new_out_of_range_is_empty() {
    let log = log_of(3);
    assert_eq!(log.read_new(4).len(), 0);
    assert_eq!(log.read_new(3).len(), 0);
}

#[test]
fn read_initial_keeps_entry_fields() {
    let log = log_of(2);
    let view = log.read_initial();
    assert_eq!(view[0].name, "party1");
    assert_eq!(view[0].pay_id, "alias1");
    assert_eq!(view[0].amount, 10);
    assert_eq!(view[0].timestamp, 1_001);
}
