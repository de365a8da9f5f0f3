use aqkanji2koe::{AqKanji2Koe, Error, NodeData};

fn spoken_node(moras: &[(&str, bool)], accent: usize, chain_with_prev: bool) -> NodeData {
    NodeData {
        original: moras.iter().map(|(mora, _)| *mora).collect(),
        pron_moras: moras
            .iter()
            .map(|(mora, is_voiced)| ((*mora).to_string(), *is_voiced))
            .collect(),
        accent,
        chain_with_prev,
        is_pron_empty: false,
        is_touten: false,
        is_question: false,
    }
}

fn symbol_node(symbol: &str) -> NodeData {
    NodeData {
        original: symbol.to_string(),
        pron_moras: Vec::new(),
        accent: 0,
        chain_with_prev: false,
        is_pron_empty: true,
        is_touten: false,
        is_question: false,
    }
}

#[test]
fn symbol_only_nodes_give_empty_output() {
    let converter = AqKanji2Koe::new();
    assert_eq!(converter.convert(&[]).unwrap(), "");
    assert_eq!(converter.convert(&[symbol_node("!"), symbol_node("!")]).unwrap(), "");
    assert_eq!(converter.convert_roman(&[symbol_node(" ")]).unwrap(), "");
}

#[test]
fn kana_output_is_sanitized_and_roman_output_is_not() {
    let converter = AqKanji2Koe::new();
    let nodes = [spoken_node(&[("エ", true), ("ッ", true)], 0, false)];
    assert_eq!(converter.convert(&nodes).unwrap(), "えつ。");
    assert_eq!(converter.convert_roman(&nodes).unwrap(), "extu.");
}

#[test]
fn overlong_phrase_is_a_processing_error() {
    let converter = AqKanji2Koe::new();
    let moras: Vec<(&str, bool)> = std::iter::repeat(("カ", true)).take(256).collect();
    let nodes = [spoken_node(&moras, 0, false)];
    match converter.convert(&nodes) {
        Err(Error::Processing(message)) => {
            assert_eq!(
                message,
                "AquesTalk 1.8 の1アクセント句あたりの読み記号上限を超えています: 256 > 255"
            )
        }
        other => panic!("unexpected result: {other:?}"),
    }
    assert_eq!(converter.convert_roman(&nodes).unwrap().len(), 2 * 256 + 1);
}

#[test]
fn normalize_text_keeps_text_without_ascii_words() {
    let converter = AqKanji2Koe::new();
    assert_eq!(converter.normalize_text("日本語 123。"), "日本語 123。");
}

#[test]
fn error_message_is_carried() {
    assert_eq!(Error::Init("x".to_string()).message(), "x");
    assert_eq!(Error::Processing("y".to_string()).message(), "y");
}

#[test]
fn kana_output_passes_validation_unchanged() {
    let converter = AqKanji2Koe::new();
    let nodes = [
        spoken_node(&[("ー", true), ("キ", false), ("ア", true)], 1, false),
        spoken_node(&[("ッ", true), ("ッ", true), ("ー", true)], 0, true),
        symbol_node("、"),
        spoken_node(&[("ヴァ", true), ("ヂ", true)], 0, false),
    ];
    let kana = converter.convert(&nodes).unwrap();
    assert_eq!(kana, "きあつ、ぶあじ。");
    assert_eq!(aqkanji2koe::aquestalk::sanitize_kana(&kana).unwrap(), kana);
}

#[test]
fn english_readings_respect_the_reading_limit() {
    let converter = AqKanji2Koe::new();
    let text = converter.normalize_text("constants");
    assert!(text.chars().count() <= aqkanji2koe::ENGLISH_READING_MAX_LEN);
    assert!(!text.is_empty());
}
