use rust_cracker::attack::{
    brute_force, combinator_attack, combinator_stage, hybrid_attack, hybrid_search_range,
    StageOutcome, COMBINATOR_CEILING,
};
use rust_cracker::digest::{hash_string, Algo};

#[test]
fn hybrid_finds_digit_suffix() {
    let target = hash_string(Algo::Md5, "password123");
    let words = vec!["password".to_string()];
    assert_eq!(hybrid_attack(Algo::Md5, &target, &words), Some("password123".to_string()));
}

#[test]
fn hybrid_finds_symbol_suffix() {
    let target = hash_string(Algo::Sha1, "admin2024");
    let words = vec!["admin".to_string()];
    assert_eq!(hybrid_attack(Algo::Sha1, &target, &words), Some("admin2024".to_string()));
}

#[test]
fn hybrid_finds_capitalized_variants() {
    let words = vec!["password".to_string()];
    let t1 = hash_string(Algo::Md5, "Password7");
    assert_eq!(hybrid_attack(Algo::Md5, &t1, &words), Some("Password7".to_string()));
    let t2 = hash_string(Algo::Md5, "Password123!");
    assert_eq!(hybrid_attack(Algo::Md5, &t2, &words), Some("Password123!".to_string()));
}

#[test]
fn hybrid_misses_underivable_target() {
    let target = hash_string(Algo::Md5, "completely-unrelated");
    let words = vec!["password".to_string(), "admin".to_string()];
    assert_eq!(hybrid_attack(Algo::Md5, &target, &words), None);
}

#[test]
fn hybrid_range_respects_its_chunk() {
    let words = vec!["admin".to_string(), "password".to_string()];
    let target = hash_string(Algo::Md5, "password123");
    assert_eq!(hybrid_search_range(Algo::Md5, &target, &words, 0, 1), None);
    assert_eq!(
        hybrid_search_range(Algo::Md5, &target, &words, 1, 2),
        Some("password123".to_string())
    );
}

#[test]
fn combinator_finds_both_orders() {
    let words = vec!["admin".to_string(), "root".to_string()];
    let t1 = hash_string(Algo::Md5, "adminroot");
    assert_eq!(combinator_attack(Algo::Md5, &t1, &words), Some("adminroot".to_string()));
    let t2 = hash_string(Algo::Md5, "rootadmin");
    assert_eq!(combinator_attack(Algo::Md5, &t2, &words), Some("rootadmin".to_string()));
}

#[test]
fn combinator_tries_self_concatenation() {
    let words = vec!["abc".to_string()];
    let target = hash_string(Algo::Sha256, "abcabc");
    assert_eq!(combinator_attack(Algo::Sha256, &target, &words), Some("abcabc".to_string()));
}

#[test]
fn combinator_misses_underivable_target() {
    let words = vec!["admin".to_string(), "root".to_string()];
    let target = hash_string(Algo::Md5, "neither-order");
    assert_eq!(combinator_attack(Algo::Md5, &target, &words), None);
}

#[test]
fn combinator_stage_skips_at_ceiling() {
    let words: Vec<String> = (0..COMBINATOR_CEILING).map(|i| format!("w{}", i)).collect();
    let target = hash_string(Algo::Md5, "w1w2");
    assert!(matches!(
        combinator_stage(Algo::Md5, &target, &words),
        StageOutcome::SkippedTooLarge
    ));
}

#[test]
fn combinator_stage_runs_below_ceiling() {
    let words = vec!["admin".to_string(), "root".to_string()];
    let target = hash_string(Algo::Md5, "adminroot");
    match combinator_stage(Algo::Md5, &target, &words) {
        StageOutcome::Found(c) => assert_eq!(c, "adminroot"),
        _ => panic!("combinator stage should find the pair"),
    }
}

#[test]
fn brute_force_is_a_stub() {
    let target = hash_string(Algo::Md5, "ab");
    assert_eq!(brute_force(Algo::Md5, &target, "abcdefghijklmnopqrstuvwxyz0123456789", 7), None);
    assert_eq!(brute_force(Algo::Sha1, "anything", "ab", 1), None);
    assert_eq!(brute_force(Algo::Sha256, "", "", 0), None);
}
