use lsm::table::Table;

#[test]
fn new_table_is_empty() {
    let table: Table<String> = Table::new();
    assert_eq!(table.len(), 0);
}

#[test]
fn insert_appends_new_names_in_order() {
    let mut table: Table<String> = Table::new();
    table.insert("~/.vimrc".to_string(), "dotfiles/vimrc".to_string());
    table.insert("~/.zshrc".to_string(), "dotfiles/zshrc".to_string());
    assert_eq!(table.len(), 2);
    assert_eq!(table.name(0), "~/.vimrc");
    assert_eq!(table.value(0), "dotfiles/vimrc");
    assert_eq!(table.name(1), "~/.zshrc");
    assert_eq!(table.value(1), "dotfiles/zshrc");
}

#[test]
fn insert_replaces_the_value_of_a_known_name() {
    let mut table: Table<String> = Table::new();
    table.insert("a".to_string(), "1".to_string());
    table.insert("b".to_string(), "2".to_string());
    table.insert("a".to_string(), "3".to_string());
    assert_eq!(table.len(), 2);
    assert_eq!(table.name(0), "a");
    assert_eq!(table.value(0), "3");
    assert_eq!(table.name(1), "b");
    assert_eq!(table.value(1), "2");
}

#[test]
fn position_finds_a_name() {
    let mut table: Table<String> = Table::new();
    table.insert("a".to_string(), "1".to_string());
    table.insert("b".to_string(), "2".to_string());
    assert_eq!(table.position(&"b".to_string()), Some(1));
    assert_eq!(table.position(&"a".to_string()), Some(0));
    assert_eq!(table.position(&"c".to_string()), None);
}

#[test]
fn duplicate_copies_every_pair() {
    let mut table: Table<String> = Table::new();
    table.insert("a".to_string(), "1".to_string());
    table.insert("b".to_string(), "2".to_string());
    let copy = table.duplicate();
    assert_eq!(copy.len(), 2);
    assert_eq!(copy.name(0), "a");
    assert_eq!(copy.value(0), "1");
    assert_eq!(copy.name(1), "b");
    assert_eq!(copy.value(1), "2");
}
