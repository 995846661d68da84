use rust_cracker::coordinator::{crack_target, crack_with_words, sync_words, CrackOutcome, CrackStage};
use rust_cracker::digest::{hash_string, Algo};
use rust_cracker::store::Store;

fn fresh_store() -> Store {
    let db = sled::Config::new().temporary(true).open().unwrap();
    let table_tree: sled::Tree = (*db).clone();
    let words_tree = db.open_tree("words").unwrap();
    Store::new(table_tree, words_tree)
}

#[test]
fn unknown_algorithm_is_reported() {
    let mut store = fresh_store();
    match crack_target(&mut store, "not-a-digest") {
        CrackOutcome::UnknownAlgorithm => {},
        other => panic!("expected an unknown-algorithm report, got {:?}", other),
    }
}

#[test]
fn lookup_stage_short_circuits() {
    let mut store = fresh_store();
    store.add_word("password");
    let target = hash_string(Algo::Md5, "secret-value");
    assert!(store.insert_if_absent(&target, "secret-value|imported"));
    match crack_target(&mut store, &target) {
        CrackOutcome::Found { plaintext, stage } => {
            assert_eq!(plaintext, "secret-value");
            assert_eq!(stage, CrackStage::Lookup);
        },
        other => panic!("expected a lookup hit, got {:?}", other),
    }
}

#[test]
fn hybrid_stage_end_to_end() {
    let mut store = fresh_store();
    store.add_word("password");
    let target = hash_string(Algo::Md5, "password123");
    match crack_target(&mut store, &target) {
        CrackOutcome::Found { plaintext, stage } => {
            assert_eq!(plaintext, "password123");
            assert_eq!(stage, CrackStage::Hybrid);
        },
        other => panic!("expected a hybrid hit, got {:?}", other),
    }
    // The success is persisted: the table now answers directly and the word
    // set grew, so a later identical target is a lookup hit.
    assert_eq!(store.lookup(&target), Some("password123".to_string()));
    let mut words = store.list_words();
    words.sort();
    assert_eq!(words, vec!["password".to_string(), "password123".to_string()]);
    match crack_target(&mut store, &target) {
        CrackOutcome::Found { plaintext, stage } => {
            assert_eq!(plaintext, "password123");
            assert_eq!(stage, CrackStage::Lookup);
        },
        other => panic!("expected a lookup hit on the second run, got {:?}", other),
    }
}

#[test]
fn combinator_stage_end_to_end() {
    let mut store = fresh_store();
    store.add_word("admin");
    store.add_word("root");
    let t1 = hash_string(Algo::Md5, "adminroot");
    match crack_target(&mut store, &t1) {
        CrackOutcome::Found { plaintext, stage } => {
            assert_eq!(plaintext, "adminroot");
            assert_eq!(stage, CrackStage::Combinator);
        },
        other => panic!("expected a combinator hit, got {:?}", other),
    }
    let t2 = hash_string(Algo::Md5, "rootadmin");
    match crack_target(&mut store, &t2) {
        CrackOutcome::Found { plaintext, stage } => {
            assert_eq!(plaintext, "rootadmin");
            assert_eq!(stage, CrackStage::Combinator);
        },
        other => panic!("expected a combinator hit, got {:?}", other),
    }
}

#[test]
fn exhausted_stages_report_not_found() {
    let mut store = fresh_store();
    store.add_word("admin");
    let target = hash_string(Algo::Sha256, "unreachable-plaintext");
    match crack_target(&mut store, &target) {
        CrackOutcome::NotFound { combinator_skipped } => {
            assert!(!combinator_skipped);
        },
        other => panic!("expected a not-found report, got {:?}", other),
    }
    assert_eq!(store.lookup(&target), None);
}

#[test]
fn explicit_word_list_drives_the_stages() {
    let mut store = fresh_store();
    let words = vec!["qwerty".to_string()];
    let target = hash_string(Algo::Sha1, "Qwerty99");
    match crack_with_words(&mut store, &target, &words) {
        CrackOutcome::Found { plaintext, stage } => {
            assert_eq!(plaintext, "Qwerty99");
            assert_eq!(stage, CrackStage::Hybrid);
        },
        other => panic!("expected a hybrid hit, got {:?}", other),
    }
}

#[test]
fn sync_words_ingests_and_never_overwrites() {
    let mut store = fresh_store();
    let words = vec!["alpha".to_string(), "beta".to_string()];
    let added = sync_words(&mut store, &words);
    assert_eq!(added, 6);
    assert_eq!(
        store.lookup(&hash_string(Algo::Md5, "alpha")),
        Some("alpha|imported".to_string())
    );
    assert_eq!(
        store.lookup(&hash_string(Algo::Sha1, "alpha")),
        Some("alpha|imported".to_string())
    );
    assert_eq!(
        store.lookup(&hash_string(Algo::Sha256, "beta")),
        Some("beta|imported".to_string())
    );
    let mut listed = store.list_words();
    listed.sort();
    assert_eq!(listed, vec!["alpha".to_string(), "beta".to_string()]);
    // A second ingestion finds every entry present and adds nothing.
    let again = sync_words(&mut store, &words);
    assert_eq!(again, 0);
    assert_eq!(
        store.lookup(&hash_string(Algo::Md5, "alpha")),
        Some("alpha|imported".to_string())
    );
}
