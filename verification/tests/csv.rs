use n2o::render_csv;

fn row(key: &str, senders: &[&str]) -> (String, Vec<String>) {
    (key.to_string(), senders.iter().map(|s| s.to_string()).collect())
}

#[test]
fn csv_of_nothing_is_the_header() {
    assert_eq!(render_csv(&Vec::new()), "phone_number,senders\n");
}

#[test]
fn csv_joins_senders_with_a_bar() {
    let rows = vec![row("5551234567", &["7272666666", "7272555555"])];
    assert_eq!(render_csv(&rows), "phone_number,senders\n5551234567,7272666666|7272555555\n");
}

#[test]
fn csv_has_one_line_for_each_key() {
    let rows = vec![row("5551234567", &["a", "b"]), row("5557654321", &["c"])];
    assert_eq!(render_csv(&rows), "phone_number,senders\n5551234567,a|b\n5557654321,c\n");
}

#[test]
fn csv_writes_empty_fields_as_they_are() {
    let rows = vec![row("", &[""]), row("1", &[]), row("2", &["", ""]), row("3", &["a", "b", "c"])];
    assert_eq!(render_csv(&rows), "phone_number,senders\n,\n1,\n2,|\n3,a|b|c\n");
}
