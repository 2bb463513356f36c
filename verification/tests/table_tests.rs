use rede_core::table::Table;

#[test]
fn insert_keeps_first_position_and_last_value() {
    let mut table: Table<String> = Table::new();
    table.insert("a".to_string(), "1".to_string());
    table.insert("b".to_string(), "2".to_string());
    table.insert("a".to_string(), "3".to_string());
    assert_eq!(table.len(), 2);
    assert_eq!(table.get("a"), Some(&"3".to_string()));
    assert_eq!(table.get("b"), Some(&"2".to_string()));
    assert_eq!(table.get("c"), None);
    assert_eq!(table.find("a"), Some(0));
    assert_eq!(table.entry(1), ("b", &"2".to_string()));
}

#[test]
fn an_empty_table_holds_nothing() {
    let table: Table<String> = Table::new();
    assert_eq!(table.len(), 0);
    assert_eq!(table.get(""), None);
    assert_eq!(table.find("a"), None);
}
