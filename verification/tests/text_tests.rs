use rust_cracker::text::{capitalize, clean_words, make_tagged, plaintext_of, u32_dec};

#[test]
fn decimal_rendering_exact() {
    assert_eq!(u32_dec(0), "0");
    assert_eq!(u32_dec(7), "7");
    assert_eq!(u32_dec(10), "10");
    assert_eq!(u32_dec(123), "123");
    assert_eq!(u32_dec(999), "999");
    assert_eq!(u32_dec(9998), "9998");
}

#[test]
fn capitalize_first_character() {
    assert_eq!(capitalize("password"), "Password");
    assert_eq!(capitalize("Admin"), "Admin");
    assert_eq!(capitalize("x"), "X");
    assert_eq!(capitalize(""), "");
    assert_eq!(capitalize("123abc"), "123abc");
}

#[test]
fn tagged_value_round_trip() {
    let v = make_tagged("secret", "imported");
    assert_eq!(v, "secret|imported");
    assert_eq!(plaintext_of(&v), "secret");
}

#[test]
fn plaintext_of_parses_first_separator() {
    assert_eq!(plaintext_of("plain"), "plain");
    assert_eq!(plaintext_of("plain|tag"), "plain");
    assert_eq!(plaintext_of("a|b|c"), "a");
    assert_eq!(plaintext_of("|tag"), "");
    assert_eq!(plaintext_of(""), "");
}

#[test]
fn clean_words_trims_and_drops_blanks() {
    let lines = vec![
        "  admin ".to_string(),
        "".to_string(),
        "root".to_string(),
        "   ".to_string(),
        "\tpassword\n".to_string(),
    ];
    let cleaned = clean_words(&lines);
    assert_eq!(cleaned, vec!["admin".to_string(), "root".to_string(), "password".to_string()]);
}

#[test]
fn clean_words_of_nothing() {
    let cleaned = clean_words(&Vec::new());
    assert!(cleaned.is_empty());
}
