use replicated_kv::api::{stamp_put, PutBody};
use replicated_kv::clock::LamportClock;
use replicated_kv::cluster::{CliArgs, ClusterState};
use replicated_kv::entry::{LogEntry, Operation};
use replicated_kv::recovery::{recover, recover_from_snapshot_and_wal};
use replicated_kv::store::Store;
use replicated_kv::wal::{encode_line, is_blank_line, is_white_space_char, replay_wal, WalLine};

fn put(ts: u64, node_id: u64, key: &str, value: &str) -> LogEntry {
    LogEntry {
        ts,
        node_id,
        operation: Operation::Put { key: key.to_string(), value: value.to_string() },
    }
}

fn delete(ts: u64, node_id: u64, key: &str) -> LogEntry {
    LogEntry { ts, node_id, operation: Operation::Delete { key: key.to_string() } }
}

fn good(text: &str, entry: LogEntry) -> WalLine {
    WalLine::Text { text: text.to_string(), entry: Some(entry) }
}

fn garbled(text: &str) -> WalLine {
    WalLine::Text { text: text.to_string(), entry: None }
}

fn stamps(entries: &Vec<LogEntry>) -> Vec<(u64, u64)> {
    entries.iter().map(|e| (e.ts, e.node_id)).collect()
}

fn stored(store: &Store, key: &str) -> Option<(Option<String>, u64, u64)> {
    store.get(key).map(|v| (v.data, v.ts, v.node_id))
}

#[test]
fn white_space_is_what_unicode_says() {
    for c in [' ', '\t', '\n', '\u{b}', '\u{c}', '\r', '\u{85}', '\u{a0}', '\u{1680}', '\u{2000}',
        '\u{2005}', '\u{200a}', '\u{2028}', '\u{2029}', '\u{202f}', '\u{205f}', '\u{3000}']
    {
        assert!(is_white_space_char(c));
        assert!(c.is_whitespace());
    }
    for c in ['a', '0', '{', '\u{8}', '\u{e}', '\u{1f}', '\u{200b}', '\u{2060}', '\u{feff}',
        '\u{180e}', '\u{84}', '\u{86}']
    {
        assert!(!is_white_space_char(c));
        assert!(!c.is_whitespace());
    }
}

#[test]
fn white_space_agrees_with_std_on_every_char() {
    let mut code: u32 = 0;
    while code <= 0x10FFFF {
        if let Some(c) = char::from_u32(code) {
            assert_eq!(is_white_space_char(c), c.is_whitespace());
        }
        code += 1;
    }
}

#[test]
fn blank_lines_hold_only_white_space() {
    assert!(is_blank_line(""));
    assert!(is_blank_line("   "));
    assert!(is_blank_line(" \t\r"));
    assert!(is_blank_line("\u{a0}\u{3000}"));
    assert!(!is_blank_line("{}"));
    assert!(!is_blank_line("  x  "));
    assert!(!is_blank_line("\u{200b}"));
}

#[test]
fn encoded_line_ends_in_a_line_feed() {
    assert_eq!(encode_line("{\"ts\":1}"), "{\"ts\":1}\n");
    assert_eq!(encode_line(""), "\n");
}

#[test]
fn replay_of_no_lines_is_empty() {
    let lines: Vec<WalLine> = Vec::new();
    assert!(replay_wal(&lines).is_empty());
}

#[test]
fn replay_returns_the_entries_in_order() {
    let lines = vec![
        good("a", put(1, 1, "a", "x")),
        good("b", delete(2, 1, "a")),
        good("c", put(3, 2, "b", "y")),
    ];
    let entries = replay_wal(&lines);
    assert_eq!(stamps(&entries), vec![(1, 1), (2, 1), (3, 2)]);
    assert_eq!(entries[2].key(), "b");
}

#[test]
fn replay_passes_over_blank_lines() {
    let lines = vec![
        garbled(""),
        good("a", put(1, 1, "a", "x")),
        garbled("   "),
        WalLine::Text { text: "\t".to_string(), entry: Some(put(9, 9, "z", "z")) },
        good("b", put(2, 1, "b", "y")),
    ];
    assert_eq!(stamps(&replay_wal(&lines)), vec![(1, 1), (2, 1)]);
}

#[test]
fn replay_stops_at_a_line_that_does_not_decode() {
    let lines = vec![
        good("a", put(1, 1, "a", "x")),
        garbled("{\"ts\":2,\"node"),
        good("c", put(3, 1, "c", "z")),
    ];
    assert_eq!(stamps(&replay_wal(&lines)), vec![(1, 1)]);
}

#[test]
fn replay_stops_at_a_line_that_cannot_be_read() {
    let lines = vec![
        good("a", put(1, 1, "a", "x")),
        good("b", put(2, 1, "b", "y")),
        WalLine::Unreadable,
        good("c", put(3, 1, "c", "z")),
    ];
    assert_eq!(stamps(&replay_wal(&lines)), vec![(1, 1), (2, 1)]);
}

#[test]
fn replay_drops_a_torn_last_line() {
    let lines = vec![
        good("a", put(1, 1, "a", "x")),
        good("b", put(2, 1, "b", "y")),
        garbled("{\"ts\":3,\"node_id\":1,\"operation\":{\"Put\":{\"key\":\"c\",\"va"),
    ];
    assert_eq!(stamps(&replay_wal(&lines)), vec![(1, 1), (2, 1)]);
}

#[test]
fn replay_of_an_unreadable_first_line_is_empty() {
    let lines = vec![WalLine::Unreadable, good("a", put(1, 1, "a", "x"))];
    assert!(replay_wal(&lines).is_empty());
}

#[test]
fn appended_entry_is_replayed_last() {
    let mut lines = vec![good("a", put(1, 1, "a", "x")), garbled(" ")];
    let before = stamps(&replay_wal(&lines));
    lines.push(good("b", delete(2, 1, "a")));
    let after = stamps(&replay_wal(&lines));
    assert_eq!(before, vec![(1, 1)]);
    assert_eq!(after, vec![(1, 1), (2, 1)]);
}

#[test]
fn recovery_applies_the_log_and_raises_the_clock() {
    let lines = vec![
        good("a", put(4, 1, "a", "x")),
        good("b", put(2, 2, "b", "y")),
        good("c", delete(7, 1, "b")),
        good("d", put(3, 1, "a", "stale")),
    ];
    let mut store = Store::new();
    let mut clock = LamportClock::new();
    let replayed = recover_from_snapshot_and_wal(&mut store, &mut clock, &lines);
    assert_eq!(replayed, 4);
    assert_eq!(stored(&store, "a"), Some((Some("x".to_string()), 4, 1)));
    assert_eq!(stored(&store, "b"), Some((None, 7, 1)));
    assert_eq!(clock.tick_now(), 7);
}

#[test]
fn recovery_after_a_torn_write() {
    let lines = vec![
        good("e1", put(1, 1, "a", "1")),
        good("e2", put(2, 1, "b", "2")),
        garbled("{\"ts\":3,\"node_id\":1,\"oper"),
    ];
    let mut store = Store::new();
    let mut clock = LamportClock::new();
    let replayed = recover_from_snapshot_and_wal(&mut store, &mut clock, &lines);
    assert_eq!(replayed, 2);
    assert_eq!(stored(&store, "a"), Some((Some("1".to_string()), 1, 1)));
    assert_eq!(stored(&store, "b"), Some((Some("2".to_string()), 2, 1)));
    assert_eq!(clock.tick_now(), 2);
    let cluster = ClusterState::from(CliArgs {
        node_id: 1,
        address: "http://n1".to_string(),
        leader_id: 1,
        peer_addresses: Vec::new(),
    });
    let entry = stamp_put(
        &mut clock,
        &cluster,
        "c".to_string(),
        PutBody { value: "3".to_string() },
    );
    assert_eq!(entry.ts, 3);
}

#[test]
fn recovery_does_not_lower_the_clock() {
    let mut store = Store::new();
    let mut clock = LamportClock::new();
    clock.tick_observe(50);
    recover(&mut store, &mut clock, &vec![put(4, 1, "a", "x")]);
    assert_eq!(clock.tick_now(), 50);
}

#[test]
fn recovering_twice_is_recovering_once() {
    let lines = vec![
        good("a", put(4, 1, "a", "x")),
        good("b", delete(9, 2, "a")),
        good("c", put(6, 1, "b", "y")),
        good("d", put(6, 1, "b", "other")),
    ];
    let mut store = Store::new();
    let mut clock = LamportClock::new();
    recover_from_snapshot_and_wal(&mut store, &mut clock, &lines);
    let once = (stored(&store, "a"), stored(&store, "b"), clock.tick_now());
    recover_from_snapshot_and_wal(&mut store, &mut clock, &lines);
    let twice = (stored(&store, "a"), stored(&store, "b"), clock.tick_now());
    assert_eq!(once, twice);
    assert_eq!(once.0, Some((None, 9, 2)));
    assert_eq!(once.1, Some((Some("y".to_string()), 6, 1)));
    assert_eq!(once.2, 9);
}

#[test]
fn recovery_of_an_empty_log_changes_nothing() {
    let mut store = Store::new();
    let mut clock = LamportClock::new();
    let replayed = recover_from_snapshot_and_wal(&mut store, &mut clock, &Vec::new());
    assert_eq!(replayed, 0);
    assert_eq!(clock.tick_now(), 0);
    assert!(store.get("a").is_none());
}
