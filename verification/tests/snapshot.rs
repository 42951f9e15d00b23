use n2o::decode_snapshot;
use n2o::encode_snapshot;
use n2o::restore;
use n2o::Store;

fn text(s: &str) -> String {
    s.to_string()
}

fn row(key: &str, senders: &[&str]) -> (String, Vec<String>) {
    (text(key), senders.iter().map(|s| text(s)).collect())
}

#[test]
fn snapshot_of_an_empty_store_is_an_empty_object() {
    assert_eq!(encode_snapshot(&Store::new()), Some(text("{}")));
}

#[test]
fn snapshot_lists_every_key_with_its_senders() {
    let mut store = Store::new();
    store.add("5557654321", "c");
    store.add("5551234567", "a");
    store.add_sender("5551234567", "b");
    let expected = "{\n  \"5551234567\": [\n    \"a\",\n    \"b\"\n  ],\n  \"5557654321\": [\n    \"c\"\n  ]\n}";
    assert_eq!(encode_snapshot(&store), Some(text(expected)));
}

#[test]
fn snapshot_escapes_what_json_must_escape() {
    let mut store = Store::new();
    store.insert("k\"ey", vec![text("line\nbreak"), text("back\\slash")]);
    let expected = "{\n  \"k\\\"ey\": [\n    \"line\\nbreak\",\n    \"back\\\\slash\"\n  ]\n}";
    assert_eq!(encode_snapshot(&store), Some(text(expected)));
}

#[test]
fn snapshot_round_trip_gives_the_same_store() {
    let mut store = Store::new();
    store.add("5551234567", "7272666666");
    store.add_sender("5551234567", "7272555555");
    store.add("5557654321", "SENDER3");
    store.add("", "");
    store.insert("odd \u{1f600} key", vec![text("tab\there"), text("é"), text("\u{0}")]);
    let written = encode_snapshot(&store).unwrap();
    let loaded = decode_snapshot(Some(&written));
    let mut before = store.dump();
    before.sort();
    assert_eq!(loaded.dump(), before);
    assert_eq!(loaded.key_count(), 4);
    assert_eq!(loaded.value_count(), 7);
    assert_eq!(encode_snapshot(&loaded), Some(written));
}

#[test]
fn snapshot_keeps_the_order_of_senders() {
    let loaded = decode_snapshot(Some("{\"1\": [\"z\", \"a\", \"m\"], \"0\": [\"b\", \"a\"]}"));
    assert_eq!(loaded.dump(), vec![row("0", &["b", "a"]), row("1", &["z", "a", "m"])]);
}

#[test]
fn missing_snapshot_gives_an_empty_store() {
    assert!(decode_snapshot(None).is_empty());
}

#[test]
fn malformed_snapshot_gives_an_empty_store() {
    for bad in [
        "",
        "not a json",
        "{",
        "[]",
        "[{\"1\": [\"a\"]}]",
        "{\"1\": \"a\"}",
        "{\"1\": [1]}",
        "{\"1\": [\"a\"]} trailing",
        "null",
        "{\"1\": [\"a\"],}",
    ] {
        assert!(decode_snapshot(Some(bad)).is_empty());
    }
}

#[test]
fn repeated_key_in_a_snapshot_counts_once() {
    let loaded = decode_snapshot(Some("{\"1\": [\"a\"], \"2\": [], \"1\": [\"b\", \"c\"]}"));
    assert_eq!(loaded.dump(), vec![row("1", &["b", "c"]), row("2", &[])]);
}

#[test]
fn restore_puts_the_rows_in_their_order() {
    let store = restore(vec![row("9", &["x"]), row("1", &["y", "z"]), row("9", &["w"])]);
    assert_eq!(store.dump(), vec![row("9", &["w"]), row("1", &["y", "z"])]);
    assert_eq!(store.key_count(), 2);
    assert_eq!(store.value_count(), 3);
}

#[test]
fn restore_undoes_dump() {
    let mut store = Store::new();
    store.add("3", "c");
    store.add("1", "a");
    store.add_sender("3", "d");
    let again = restore(store.dump());
    assert_eq!(again.dump(), store.dump());
}
