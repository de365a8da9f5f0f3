use aqkanji2koe::english::{katakanize_ascii_words, katakanize_with_readings};

#[test]
fn replaces_ascii_words_and_preserves_other_text() {
    let converter = e2k::C2k::new(64);

    assert_eq!(
        katakanize_ascii_words("I love Rust! 日本語", &converter),
        "イ ラブ ラスト! 日本語"
    );
    assert_eq!(katakanize_ascii_words("123", &converter), "123");
}

#[test]
fn readings_replace_words_in_order() {
    let readings = vec!["ア".to_string(), String::new(), "ウ".to_string()];
    assert_eq!(katakanize_with_readings("ab, cd ef!", &readings), "ア, cd ウ!");
    assert_eq!(katakanize_with_readings("ab", &Vec::new()), "ab");
    assert_eq!(katakanize_with_readings("日本 1", &Vec::new()), "日本 1");
}

#[test]
fn text_without_letters_or_readings_is_kept() {
    let converter = e2k::C2k::new(64);
    assert_eq!(katakanize_ascii_words("これは 42 です。", &converter), "これは 42 です。");
    let none: Vec<String> = vec![String::new(), String::new()];
    assert_eq!(katakanize_with_readings("Hello, world!", &none), "Hello, world!");
}

#[test]
fn words_are_read_in_lower_case_and_in_order() {
    let converter = e2k::C2k::new(64);
    let upper = katakanize_ascii_words("CONSTANTS", &converter);
    let lower = katakanize_ascii_words("constants", &converter);
    assert_eq!(upper, lower);
    let first = katakanize_ascii_words("love", &converter);
    let second = katakanize_ascii_words("rust", &converter);
    assert_eq!(
        katakanize_ascii_words("love/rust", &converter),
        format!("{first}/{second}")
    );
}
