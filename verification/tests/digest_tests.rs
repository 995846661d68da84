use rust_cracker::digest::{detect_algo, hash_string, Algo};

#[test]
fn hash_is_deterministic_across_calls() {
    let a = hash_string(Algo::Md5, "stable-input");
    let b = hash_string(Algo::Md5, "stable-input");
    assert_eq!(a, b);
    let c = hash_string(Algo::Sha1, "stable-input");
    let d = hash_string(Algo::Sha1, "stable-input");
    assert_eq!(c, d);
    let e = hash_string(Algo::Sha256, "stable-input");
    let f = hash_string(Algo::Sha256, "stable-input");
    assert_eq!(e, f);
}

#[test]
fn md5_known_vector() {
    assert_eq!(hash_string(Algo::Md5, "abc"), "900150983cd24fb0d6963f7d28e17f72");
    assert_eq!(hash_string(Algo::Md5, ""), "d41d8cd98f00b204e9800998ecf8427e");
}

#[test]
fn sha1_known_vector() {
    assert_eq!(hash_string(Algo::Sha1, "abc"), "a9993e364706816aba3e25717850c26c9cd0d89d");
}

#[test]
fn sha256_known_vector() {
    assert_eq!(
        hash_string(Algo::Sha256, "abc"),
        "ba7816bf8f01cfea414140de5dae2223b00361a396177a9cb410ff61f20015ad"
    );
}

#[test]
fn digest_lengths() {
    assert_eq!(hash_string(Algo::Md5, "x").len(), 32);
    assert_eq!(hash_string(Algo::Sha1, "x").len(), 40);
    assert_eq!(hash_string(Algo::Sha256, "x").len(), 64);
}

#[test]
fn classify_correct_lengths() {
    let len32: String = "a".repeat(32);
    let len40: String = "b".repeat(40);
    let len64: String = "c".repeat(64);
    assert_eq!(detect_algo(&len32), Some(Algo::Md5));
    assert_eq!(detect_algo(&len40), Some(Algo::Sha1));
    assert_eq!(detect_algo(&len64), Some(Algo::Sha256));
}

#[test]
fn classify_rejects_other_lengths() {
    assert_eq!(detect_algo(""), None);
    assert_eq!(detect_algo("abc"), None);
    assert_eq!(detect_algo(&"d".repeat(31)), None);
    assert_eq!(detect_algo(&"d".repeat(33)), None);
    assert_eq!(detect_algo(&"d".repeat(41)), None);
    assert_eq!(detect_algo(&"d".repeat(63)), None);
    assert_eq!(detect_algo(&"d".repeat(65)), None);
    assert_eq!(detect_algo(&"d".repeat(200)), None);
}

#[test]
fn hash_classifies_back_to_its_algorithm() {
    for algo in [Algo::Md5, Algo::Sha1, Algo::Sha256] {
        let h = hash_string(algo, "round-trip");
        assert_eq!(detect_algo(&h), Some(algo));
    }
}
