use rust_cracker::store::Store;

fn fresh_store() -> Store {
    let db = sled::Config::new().temporary(true).open().unwrap();
    let table_tree: sled::Tree = (*db).clone();
    let words_tree = db.open_tree("words").unwrap();
    Store::new(table_tree, words_tree)
}

#[test]
fn insert_if_absent_then_lookup() {
    let mut store = fresh_store();
    let digest = "900150983cd24fb0d6963f7d28e17f72";
    assert_eq!(store.lookup(digest), None);
    assert!(store.insert_if_absent(digest, "abc"));
    assert_eq!(store.lookup(digest), Some("abc".to_string()));
}

#[test]
fn first_write_wins() {
    let mut store = fresh_store();
    let digest = "900150983cd24fb0d6963f7d28e17f72";
    assert!(store.insert_if_absent(digest, "first"));
    assert!(!store.insert_if_absent(digest, "second"));
    assert_eq!(store.lookup(digest), Some("first".to_string()));
    assert!(!store.insert_if_absent(digest, "third"));
    assert_eq!(store.lookup(digest), Some("first".to_string()));
}

#[test]
fn word_set_is_a_set() {
    let mut store = fresh_store();
    store.add_word("admin");
    let once = store.list_words();
    assert_eq!(once.len(), 1);
    store.add_word("admin");
    let twice = store.list_words();
    assert_eq!(twice.len(), 1);
    assert_eq!(twice, vec!["admin".to_string()]);
}

#[test]
fn list_words_returns_every_added_word_once() {
    let mut store = fresh_store();
    store.add_word("alpha");
    store.add_word("beta");
    store.add_word("gamma");
    store.add_word("beta");
    let mut words = store.list_words();
    words.sort();
    assert_eq!(
        words,
        vec!["alpha".to_string(), "beta".to_string(), "gamma".to_string()]
    );
}

#[test]
fn table_and_word_set_are_separate_namespaces() {
    let mut store = fresh_store();
    store.add_word("admin");
    assert_eq!(store.lookup("admin"), None);
    assert!(store.insert_if_absent("0123456789abcdef0123456789abcdef", "value"));
    assert_eq!(store.list_words(), vec!["admin".to_string()]);
}
