use aqkanji2koe::aquestalk::sanitize_kana;
use aqkanji2koe::converter::{nodes_to_phoneme, Delimiter, NodeData, OutputFormat};

fn spoken_node(moras: &[(&str, bool)], accent: usize, chain_with_prev: bool) -> NodeData {
    NodeData {
        original: moras.iter().map(|(mora, _)| *mora).collect(),
        pron_moras: moras
            .iter()
            .map(|(mora, is_voiced)| ((*mora).to_string(), *is_voiced))
            .collect(),
        accent,
        chain_with_prev,
        is_pron_empty: false,
        is_touten: false,
        is_question: false,
    }
}

fn ascii_symbol_node(symbol: &str) -> NodeData {
    NodeData {
        original: symbol.to_string(),
        pron_moras: Vec::new(),
        accent: 0,
        chain_with_prev: false,
        is_pron_empty: false,
        is_touten: false,
        is_question: false,
    }
}

fn pronless_node(symbol: &str, is_touten: bool, is_question: bool) -> NodeData {
    NodeData {
        original: symbol.to_string(),
        pron_moras: Vec::new(),
        accent: 0,
        chain_with_prev: false,
        is_pron_empty: true,
        is_touten,
        is_question,
    }
}

#[test]
fn empty_input_defaults_to_sentence_end() {
    assert_eq!(nodes_to_phoneme(&[], OutputFormat::Kana), "。");
    assert_eq!(nodes_to_phoneme(&[], OutputFormat::Roman), ".");
}

#[test]
fn implicit_phrase_and_sentence_delimiters_are_added() {
    let nodes = [
        spoken_node(&[("カ", true)], 0, false),
        spoken_node(&[("キ", true)], 0, false),
    ];

    assert_eq!(nodes_to_phoneme(&nodes, OutputFormat::Kana), "か/き。");
    assert_eq!(nodes_to_phoneme(&nodes, OutputFormat::Roman), "ka/ki.");
}

#[test]
fn ascii_punctuation_is_detected_without_pronunciation() {
    let nodes = [
        spoken_node(&[("コ", true), ("レ", true)], 0, false),
        ascii_symbol_node(","),
        spoken_node(&[("デ", true)], 1, false),
    ];

    assert_eq!(nodes_to_phoneme(&nodes, OutputFormat::Kana), "これ、で'。");
    assert_eq!(nodes_to_phoneme(&nodes, OutputFormat::Roman), "kore,de'.");
}

#[test]
fn spaces_are_normalized_to_commas() {
    let nodes = [
        spoken_node(&[("コ", true), ("レ", true)], 0, false),
        ascii_symbol_node(" "),
        spoken_node(&[("デ", true)], 1, false),
    ];

    assert_eq!(nodes_to_phoneme(&nodes, OutputFormat::Kana), "これ、で'。");
    assert_eq!(nodes_to_phoneme(&nodes, OutputFormat::Roman), "kore,de'.");
}

#[test]
fn devoiced_sokuon_uses_following_consonant_in_roman_output() {
    let nodes = [spoken_node(&[("ッ", true), ("キ", false)], 0, false)];

    assert_eq!(nodes_to_phoneme(&nodes, OutputFormat::Roman), "k_ki.");
}

#[test]
fn standalone_prolonged_sounds_extend_the_previous_phrase() {
    let nodes = [
        spoken_node(&[("カ", true)], 0, false),
        spoken_node(&[("ー", true), ("ー", true)], 0, false),
    ];

    assert_eq!(nodes_to_phoneme(&nodes, OutputFormat::Kana), "かーー。");
    assert_eq!(nodes_to_phoneme(&nodes, OutputFormat::Roman), "ka--.");
}

#[test]
fn leading_prolonged_sounds_are_dropped() {
    let nodes = [
        spoken_node(&[("ー", true)], 0, false),
        spoken_node(&[("カ", true)], 0, false),
    ];
    assert_eq!(nodes_to_phoneme(&nodes, OutputFormat::Kana), "か。");
}

#[test]
fn chained_nodes_share_one_accent_phrase() {
    let nodes = [
        spoken_node(&[("テ", true), ("キ", false)], 1, false),
        spoken_node(&[("ス", true), ("ト", true)], 0, true),
    ];
    assert_eq!(nodes_to_phoneme(&nodes, OutputFormat::Kana), "て'_キすと。");
    assert_eq!(nodes_to_phoneme(&nodes, OutputFormat::Roman), "te'_kisuto.");
}

#[test]
fn repeated_sentence_ends_replace_the_last_delimiter() {
    let nodes = [
        spoken_node(&[("カ", true)], 0, false),
        pronless_node("、", true, false),
        pronless_node("？", false, true),
    ];
    assert_eq!(nodes_to_phoneme(&nodes, OutputFormat::Kana), "か？");
    assert_eq!(nodes_to_phoneme(&nodes, OutputFormat::Roman), "ka?");
}

#[test]
fn a_final_comma_becomes_a_period() {
    let nodes = [spoken_node(&[("カ", true)], 0, false), ascii_symbol_node(",")];
    assert_eq!(nodes_to_phoneme(&nodes, OutputFormat::Kana), "か。");
}

#[test]
fn unknown_touten_becomes_a_comma_and_unknown_symbols_are_skipped() {
    let nodes = [
        spoken_node(&[("カ", true)], 0, false),
        pronless_node("・", true, false),
        pronless_node("☆", false, false),
        spoken_node(&[("キ", true)], 0, false),
    ];
    assert_eq!(nodes_to_phoneme(&nodes, OutputFormat::Kana), "か、き。");
}

#[test]
fn sokuon_and_undefined_moras_in_kana() {
    let nodes = [spoken_node(&[("ヴ", true), ("ッ", true), ("ヂ", true)], 2, false)];
    assert_eq!(nodes_to_phoneme(&nodes, OutputFormat::Kana), "ぶっ'じ。");
    assert_eq!(nodes_to_phoneme(&nodes, OutputFormat::Roman), "vu'ddi.");
}

#[test]
fn sokuon_without_a_consonant_to_double_is_written_out() {
    let nodes = [spoken_node(&[("ア", true), ("ッ", true)], 0, false)];
    assert_eq!(nodes_to_phoneme(&nodes, OutputFormat::Roman), "axtu.");
    let nodes = [spoken_node(&[("ッ", true), ("ア", true)], 0, false)];
    assert_eq!(nodes_to_phoneme(&nodes, OutputFormat::Roman), "xtua.");
}

#[test]
fn delimiter_marks_and_pauses() {
    assert_eq!(Delimiter::Period.kana_str(), "。");
    assert_eq!(Delimiter::Period.roman_str(), ".");
    assert_eq!(Delimiter::Question.kana_str(), "？");
    assert_eq!(Delimiter::Question.roman_str(), "?");
    assert_eq!(Delimiter::Comma.kana_str(), "、");
    assert_eq!(Delimiter::Comma.roman_str(), ",");
    assert_eq!(Delimiter::Semicolon.kana_str(), ";");
    assert_eq!(Delimiter::Slash.roman_str(), "/");
    assert_eq!(Delimiter::Plus.kana_str(), "+");
    assert!(Delimiter::Period.is_before_pause());
    assert!(Delimiter::Question.is_before_pause());
    assert!(Delimiter::Comma.is_before_pause());
    assert!(!Delimiter::Semicolon.is_before_pause());
    assert!(!Delimiter::Slash.is_before_pause());
    assert!(!Delimiter::Plus.is_before_pause());
}

#[test]
fn analysed_moras_lose_the_devoicing_quote() {
    let node = NodeData::from_analysis(
        "キ".to_string(),
        vec![("キ\u{2019}".to_string(), false), ("ー".to_string(), true)],
        1,
        None,
        false,
        false,
        false,
    );
    assert_eq!(node.pron_moras[0].0, "キ");
    assert_eq!(node.pron_moras[1].0, "ー");
    assert!(!node.chain_with_prev);
    assert_eq!(node.accent, 1);
}

#[test]
fn every_phoneme_string_ends_a_sentence() {
    let cases: Vec<Vec<NodeData>> = vec![
        vec![],
        vec![spoken_node(&[("カ", true)], 0, false), ascii_symbol_node(",")],
        vec![spoken_node(&[("カ", true)], 0, false), pronless_node("？", false, true)],
        vec![pronless_node("、", true, false)],
    ];
    for nodes in cases {
        let kana = nodes_to_phoneme(&nodes, OutputFormat::Kana);
        assert!(kana.ends_with('。') || kana.ends_with('？'), "{kana}");
        let roman = nodes_to_phoneme(&nodes, OutputFormat::Roman);
        assert!(roman.ends_with('.') || roman.ends_with('?'), "{roman}");
    }
}

#[test]
fn roman_notation_is_ascii_only() {
    let nodes = [
        spoken_node(&[("ジャ", true), ("ッ", true), ("ティ", false), ("ン", true)], 2, false),
        spoken_node(&[("ヴォ", true), ("日", true), ("ー", true)], 0, true),
        pronless_node("…", false, false),
        spoken_node(&[("ファ", true), ("ッ", true)], 1, false),
    ];
    let roman = nodes_to_phoneme(&nodes, OutputFormat::Roman);
    assert!(roman.is_ascii(), "{roman}");
    assert_eq!(roman, "zya't_thinnvo-.fa'xtu.");
}

#[test]
fn each_phrase_is_written_once_in_order() {
    let nodes = [
        spoken_node(&[("ア", true)], 0, false),
        pronless_node("。", true, false),
        pronless_node("。", true, false),
        spoken_node(&[("イ", true)], 0, false),
        spoken_node(&[("ウ", true)], 0, false),
        ascii_symbol_node(";"),
    ];
    assert_eq!(nodes_to_phoneme(&nodes, OutputFormat::Kana), "あ。い/う。");
}

#[test]
fn delimiter_marks_are_distinct_and_read_back() {
    let all = [
        Delimiter::Period,
        Delimiter::Question,
        Delimiter::Comma,
        Delimiter::Semicolon,
        Delimiter::Slash,
        Delimiter::Plus,
    ];
    for (i, a) in all.iter().enumerate() {
        for b in all.iter().skip(i + 1) {
            assert_ne!(a.kana_str(), b.kana_str());
            assert_ne!(a.roman_str(), b.roman_str());
        }
        let text = format!("か{}", a.kana_str());
        assert_eq!(sanitize_kana(&text).unwrap(), text);
    }
}
