use rust_cracker::digest::{hash_string, Algo};
use rust_cracker::generator::{
    build_candidate, generate_candidate, generator_run, generator_step, Draws,
};
use rust_cracker::store::Store;

fn fresh_db() -> sled::Db {
    sled::Config::new().temporary(true).open().unwrap()
}

fn store_on(db: &sled::Db) -> Store {
    let table_tree: sled::Tree = (**db).clone();
    let words_tree = db.open_tree("words").unwrap();
    Store::new(table_tree, words_tree)
}

const CHARSET: &str =
    "abcdefghijklmnopqrstuvwxyzABCDEFGHIJKLMNOPQRSTUVWXYZ0123456789!@#$%^&*()_+}{\":?><-=[];',./";

fn base_draws() -> Draws {
    Draws {
        strategy: 0,
        word_index: 0,
        sub: 0,
        digit: 0,
        symbol_index: 52,
        second_index: 0,
        separator: 4,
        cap_digit: 0,
        length: 4,
        char_indices: vec![0, 0, 0, 0],
    }
}

#[test]
fn build_candidate_is_deterministic_per_strategy() {
    let words = vec!["pass".to_string(), "root".to_string()];

    let digit = Draws { sub: 0, digit: 123, ..base_draws() };
    assert_eq!(build_candidate(&words, &digit), ("pass123".to_string(), "smart_digit"));

    let symbol = Draws { sub: 50, symbol_index: 62, ..base_draws() };
    assert_eq!(build_candidate(&words, &symbol), ("pass!".to_string(), "smart_symbol"));

    let joined = Draws { sub: 70, second_index: 1, separator: 3, ..base_draws() };
    assert_eq!(build_candidate(&words, &joined), ("passroot".to_string(), "combinator"));

    let separated = Draws { sub: 70, second_index: 1, separator: 0, ..base_draws() };
    assert_eq!(build_candidate(&words, &separated), ("pass_root".to_string(), "combinator"));

    let capped = Draws { sub: 95, cap_digit: 42, ..base_draws() };
    assert_eq!(build_candidate(&words, &capped), ("Pass42".to_string(), "smart_cap"));

    let random = Draws {
        strategy: 90,
        length: 4,
        char_indices: vec![0, 26, 52, 62],
        ..base_draws()
    };
    assert_eq!(build_candidate(&words, &random), ("aA0!".to_string(), "random"));
}

#[test]
fn build_candidate_ignores_words_when_empty() {
    let words: Vec<String> = Vec::new();
    let d = Draws { strategy: 0, length: 5, char_indices: vec![25, 51, 61, 89, 0], ..base_draws() };
    assert_eq!(build_candidate(&words, &d), ("zZ9/a".to_string(), "random"));
}

#[test]
fn empty_word_set_always_generates_random() {
    let words: Vec<String> = Vec::new();
    for _ in 0..50 {
        let (candidate, tag) = generate_candidate(&words);
        assert_eq!(tag, "random");
        assert!(candidate.len() >= 4 && candidate.len() <= 12);
        assert!(candidate.chars().all(|c| CHARSET.contains(c)));
    }
}

#[test]
fn generated_tags_are_the_known_strategies() {
    let words = vec!["alpha".to_string(), "beta".to_string()];
    let tags = ["smart_digit", "smart_symbol", "combinator", "smart_cap", "random"];
    for _ in 0..200 {
        let (candidate, tag) = generate_candidate(&words);
        assert!(tags.contains(&tag), "unexpected tag {}", tag);
        assert!(!candidate.is_empty());
    }
}

#[test]
fn generator_step_adds_tagged_entries() {
    let db = fresh_db();
    let mut store = store_on(&db);
    let words = vec!["alpha".to_string()];
    let mut any_added = false;
    for _ in 0..20 {
        any_added = generator_step(&mut store, &words) || any_added;
    }
    assert!(any_added);
    // Every entry the generator wrote carries a candidate|tag value.
    for item in db.iter() {
        let (_, value) = item.unwrap();
        let text = String::from_utf8(value.to_vec()).unwrap();
        assert!(text.contains('|'), "value without a tag: {}", text);
    }
}

#[test]
fn generator_run_counts_at_most_its_iterations() {
    let db = fresh_db();
    let mut store = store_on(&db);
    let words = vec!["alpha".to_string(), "beta".to_string()];
    let added = generator_run(&mut store, &words, 40);
    assert!(added <= 40);
}

#[test]
fn generator_never_overwrites_existing_entries() {
    let db = fresh_db();
    let mut seeder = store_on(&db);
    let sentinels: Vec<(String, String)> = (0..5)
        .map(|i| {
            let plaintext = format!("sentinel{}", i);
            (hash_string(Algo::Md5, &plaintext), plaintext)
        })
        .collect();
    for (digest, plaintext) in &sentinels {
        assert!(seeder.insert_if_absent(digest, plaintext));
    }
    let words = vec!["alpha".to_string(), "beta".to_string()];
    crossbeam::thread::scope(|scope| {
        for _ in 0..4 {
            let db_handle = db.clone();
            let thread_words = words.clone();
            scope.spawn(move |_| {
                let mut store = store_on(&db_handle);
                generator_run(&mut store, &thread_words, 300);
            });
        }
    })
    .unwrap();
    // Whatever the workers generated, no sentinel entry changed: the same
    // digest never ends up with two different stored plaintexts.
    for (digest, plaintext) in &sentinels {
        assert_eq!(seeder.lookup(digest), Some(plaintext.clone()));
    }
}
