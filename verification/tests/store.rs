use n2o::AddOutcome;
use n2o::ClearOutcome;
use n2o::Entry;
use n2o::SenderOutcome;
use n2o::Store;
use n2o::MAX_SENDERS;

fn text(s: &str) -> String {
    s.to_string()
}

fn row(key: &str, senders: &[&str]) -> (String, Vec<String>) {
    (text(key), senders.iter().map(|s| text(s)).collect())
}

fn sorted(mut rows: Vec<(String, Vec<String>)>) -> Vec<(String, Vec<String>)> {
    rows.sort();
    rows
}

#[test]
fn new_store_is_empty() {
    let store = Store::new();
    assert!(store.is_empty());
    assert_eq!(store.key_count(), 0);
    assert_eq!(store.value_count(), 0);
    assert!(store.dump().is_empty());
    assert!(!store.contains_key(""));
    assert!(store.get("5551234567").is_none());
}

#[test]
fn add_on_a_fresh_key_stores_one_sender() {
    let mut store = Store::new();
    assert_eq!(store.add("5551234567", "7272666666"), AddOutcome::Added);
    assert!(store.contains_key("5551234567"));
    assert_eq!(store.dump(), vec![row("5551234567", &["7272666666"])]);
}

#[test]
fn add_on_a_stored_key_changes_nothing() {
    let mut store = Store::new();
    assert_eq!(store.add("5551234567", "7272666666"), AddOutcome::Added);
    assert_eq!(store.add("5551234567", "7272555555"), AddOutcome::AlreadyExists);
    assert_eq!(store.add("5551234567", "7272666666"), AddOutcome::AlreadyExists);
    assert_eq!(store.dump(), vec![row("5551234567", &["7272666666"])]);
}

#[test]
fn add_takes_the_empty_key_and_the_empty_sender() {
    let mut store = Store::new();
    assert_eq!(store.add("", ""), AddOutcome::Added);
    assert_eq!(store.add("", "x"), AddOutcome::AlreadyExists);
    assert_eq!(store.dump(), vec![row("", &[""])]);
}

#[test]
fn add_sender_takes_two_senders_and_no_third() {
    let mut store = Store::new();
    assert_eq!(store.add_sender("5551234567", "7272666666"), SenderOutcome::Added);
    assert_eq!(store.add_sender("5551234567", "7272555555"), SenderOutcome::Added);
    assert_eq!(store.add_sender("5551234567", "7272333333"), SenderOutcome::CapacityReached);
    assert_eq!(store.dump(), vec![row("5551234567", &["7272666666", "7272555555"])]);
    assert_eq!(store.get("5551234567").unwrap().len(), MAX_SENDERS);
}

#[test]
fn add_sender_does_not_repeat_a_sender() {
    let mut store = Store::new();
    assert_eq!(store.add_sender("5551234567", "a"), SenderOutcome::Added);
    assert_eq!(store.add_sender("5551234567", "a"), SenderOutcome::AlreadyExists);
    assert_eq!(store.dump(), vec![row("5551234567", &["a"])]);
    assert_eq!(store.add_sender("5551234567", "b"), SenderOutcome::Added);
    assert_eq!(store.add_sender("5551234567", "a"), SenderOutcome::AlreadyExists);
    assert_eq!(store.add_sender("5551234567", "b"), SenderOutcome::AlreadyExists);
    assert_eq!(store.dump(), vec![row("5551234567", &["a", "b"])]);
}

#[test]
fn add_sender_after_add_appends() {
    let mut store = Store::new();
    assert_eq!(store.add("5551234567", "a"), AddOutcome::Added);
    assert_eq!(store.add_sender("5551234567", "b"), SenderOutcome::Added);
    assert_eq!(store.add("5551234567", "c"), AddOutcome::AlreadyExists);
    assert_eq!(store.dump(), vec![row("5551234567", &["a", "b"])]);
}

#[test]
fn keys_do_not_share_senders() {
    let mut store = Store::new();
    assert_eq!(store.add_sender("1", "a"), SenderOutcome::Added);
    assert_eq!(store.add_sender("2", "a"), SenderOutcome::Added);
    assert_eq!(store.add_sender("1", "b"), SenderOutcome::Added);
    assert_eq!(store.add_sender("1", "c"), SenderOutcome::CapacityReached);
    assert_eq!(store.add_sender("2", "c"), SenderOutcome::Added);
    assert_eq!(store.dump(), vec![row("1", &["a", "b"]), row("2", &["a", "c"])]);
}

#[test]
fn dump_follows_the_order_of_arrival() {
    let mut store = Store::new();
    store.add("9", "x");
    store.add("1", "y");
    store.add("5", "z");
    store.add_sender("9", "w");
    assert_eq!(store.dump(), vec![row("9", &["x", "w"]), row("1", &["y"]), row("5", &["z"])]);
    assert_eq!(store.dump(), store.dump());
}

#[test]
fn insert_replaces_what_a_key_held() {
    let mut store = Store::new();
    store.insert("5551234567", vec![text("a"), text("b")]);
    store.insert("5557654321", vec![text("c")]);
    store.insert("5551234567", vec![text("d")]);
    assert_eq!(store.key_count(), 2);
    assert_eq!(store.dump(), vec![row("5551234567", &["d"]), row("5557654321", &["c"])]);
}

#[test]
fn a_longer_entry_is_kept_and_takes_no_more() {
    let mut store = Store::new();
    store.insert("1", vec![text("a"), text("b"), text("c")]);
    assert_eq!(store.add_sender("1", "d"), SenderOutcome::CapacityReached);
    assert_eq!(store.add_sender("1", "c"), SenderOutcome::AlreadyExists);
    assert_eq!(store.value_count(), 3);
    assert_eq!(store.dump(), vec![row("1", &["a", "b", "c"])]);
}

#[test]
fn status_counts_keys_and_senders() {
    let mut store = Store::new();
    store.insert("5551234567", vec![text("a"), text("b")]);
    store.insert("5557654321", vec![text("c")]);
    let status = store.status(17);
    assert_eq!(status.keys, 2);
    assert_eq!(status.values, 3);
    assert_eq!(status.uptime_seconds, 17);
    assert_eq!(store.key_count(), 2);
    assert_eq!(store.value_count(), 3);
}

#[test]
fn clear_after_archiving_empties_the_store() {
    let mut store = Store::new();
    store.add("5551234567", "7272666666");
    store.add("5557654321", "7272555555");
    assert_eq!(store.clear(true), ClearOutcome::Cleared);
    assert!(store.is_empty());
    assert_eq!(store.key_count(), 0);
    assert_eq!(store.value_count(), 0);
    assert!(store.dump().is_empty());
    assert_eq!(store.add("5551234567", "x"), AddOutcome::Added);
}

#[test]
fn clear_without_archive_leaves_the_store_as_it_was() {
    let mut store = Store::new();
    store.add("5551234567", "7272666666");
    store.add_sender("5551234567", "7272555555");
    store.add("5557654321", "SENDER3");
    let before = store.dump();
    assert_eq!(store.clear(false), ClearOutcome::ArchiveFailed);
    assert_eq!(store.dump(), before);
    assert_eq!(store.key_count(), 2);
    assert_eq!(store.value_count(), 3);
}

#[test]
fn clear_of_an_empty_store_needs_no_archive() {
    let mut store = Store::new();
    assert_eq!(store.clear(false), ClearOutcome::Cleared);
    assert!(store.is_empty());
    assert_eq!(store.clear(true), ClearOutcome::Cleared);
    assert!(store.is_empty());
}

#[test]
fn get_hands_out_the_entry() {
    let mut store = Store::new();
    store.add("1", "a");
    store.add_sender("1", "b");
    let entry = store.get("1").unwrap();
    assert_eq!(entry.len(), 2);
    assert!(entry.contains("a"));
    assert!(entry.contains("b"));
    assert!(!entry.contains("c"));
    assert!(!entry.contains(""));
    assert_eq!(entry.senders(), vec![text("a"), text("b")]);
    assert!(store.get("2").is_none());
}

#[test]
fn entry_appends_until_full() {
    let mut entry = Entry::new("a");
    assert_eq!(entry.len(), 1);
    assert_eq!(entry.try_append("a"), SenderOutcome::AlreadyExists);
    assert_eq!(entry.try_append("b"), SenderOutcome::Added);
    assert_eq!(entry.try_append("c"), SenderOutcome::CapacityReached);
    assert_eq!(entry.try_append("b"), SenderOutcome::AlreadyExists);
    assert_eq!(entry.senders(), vec![text("a"), text("b")]);
    let copy = entry.duplicate();
    assert_eq!(copy.senders(), entry.senders());
}

#[test]
fn entry_from_senders_keeps_them() {
    let mut entry = Entry::from_senders(Vec::new());
    assert_eq!(entry.len(), 0);
    assert_eq!(entry.try_append("x"), SenderOutcome::Added);
    assert_eq!(entry.try_append("y"), SenderOutcome::Added);
    assert_eq!(entry.try_append("z"), SenderOutcome::CapacityReached);
    assert_eq!(entry.senders(), vec![text("x"), text("y")]);
}

#[test]
fn many_keys_are_all_found_again() {
    let mut store = Store::new();
    for n in 0..500u32 {
        assert_eq!(store.add(&format!("{:010}", n), "s"), AddOutcome::Added);
    }
    for n in 0..500u32 {
        assert_eq!(store.add_sender(&format!("{:010}", n), "t"), SenderOutcome::Added);
    }
    assert_eq!(store.key_count(), 500);
    assert_eq!(store.value_count(), 1000);
    let rows = store.dump();
    assert_eq!(rows.len(), 500);
    assert_eq!(sorted(rows.clone()), rows);
    assert_eq!(rows[499], row("0000000499", &["s", "t"]));
}
