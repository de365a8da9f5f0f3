use aqkanji2koe::mora::{
    is_aquestalk_kana_1_8_reading, katakana_char_to_hiragana, mora_katakana_to_hiragana,
};

#[test]
fn preserves_defined_aquestalk_1_8_moras() {
    for (source, expected) in [
        ("カ", "か"),
        ("キャ", "きゃ"),
        ("イェ", "いぇ"),
        ("ツァ", "つぁ"),
        ("スィ", "すぃ"),
        ("ディ", "でぃ"),
        ("ー", "ー"),
    ] {
        assert_eq!(mora_katakana_to_hiragana(source), expected);
    }
}

#[test]
fn normalizes_every_known_jpreprocess_mora_missing_from_aquestalk_1_8() {
    let cases = [
        ("ヴョ", "ぶよ"),
        ("ヴュ", "ぶゆ"),
        ("ヴャ", "ぶや"),
        ("ヴォ", "ぶお"),
        ("ヴェ", "ぶえ"),
        ("ヴィ", "ぶい"),
        ("ヴァ", "ぶあ"),
        ("ヴ", "ぶ"),
        ("ヱ", "え"),
        ("ヰ", "い"),
        ("ョ", "よ"),
        ("ュ", "ゆ"),
        ("ャ", "や"),
        ("デョ", "でよ"),
        ("デャ", "でや"),
        ("テョ", "てよ"),
        ("テャ", "てや"),
        ("ヅ", "ず"),
        ("ヂ", "じ"),
        ("ォ", "お"),
        ("ェ", "え"),
        ("ゥ", "う"),
        ("ィ", "い"),
        ("ァ", "あ"),
        ("グヮ", "ぐわ"),
        ("クヮ", "くわ"),
        ("ヮ", "わ"),
        ("ヶ", "け"),
    ];

    for (source, expected) in cases {
        let actual = mora_katakana_to_hiragana(source);
        assert_eq!(actual, expected, "source mora: {source}");
        // Fallbacks are intentionally sequences of single defined readings.
        for c in actual.chars() {
            assert!(
                is_aquestalk_kana_1_8_reading(&[c]),
                "{source} produced undefined reading {c}"
            );
        }
    }
}

#[test]
fn katakana_block_maps_to_hiragana() {
    assert_eq!(katakana_char_to_hiragana('ァ'), 'ぁ');
    assert_eq!(katakana_char_to_hiragana('ア'), 'あ');
    assert_eq!(katakana_char_to_hiragana('ヶ'), 'ゖ');
    assert_eq!(katakana_char_to_hiragana('ー'), 'ー');
    assert_eq!(katakana_char_to_hiragana('ヷ'), 'ヷ');
    assert_eq!(katakana_char_to_hiragana('a'), 'a');
    assert_eq!(katakana_char_to_hiragana('あ'), 'あ');
}

#[test]
fn empty_and_foreign_moras_fall_back_to_n() {
    assert_eq!(mora_katakana_to_hiragana(""), "ん");
    assert_eq!(mora_katakana_to_hiragana("x"), "ん");
    assert_eq!(mora_katakana_to_hiragana("カx"), "かん");
}

#[test]
fn reading_table_membership() {
    assert!(is_aquestalk_kana_1_8_reading(&['か']));
    assert!(is_aquestalk_kana_1_8_reading(&['い', 'ぇ']));
    assert!(is_aquestalk_kana_1_8_reading(&['て', 'ゅ']));
    assert!(!is_aquestalk_kana_1_8_reading(&['ぢ']));
    assert!(!is_aquestalk_kana_1_8_reading(&['か', 'ゃ']));
    assert!(!is_aquestalk_kana_1_8_reading(&[]));
    assert!(!is_aquestalk_kana_1_8_reading(&['か', 'か', 'か']));
}

#[test]
fn converting_a_reading_again_changes_nothing() {
    for source in ["カ", "キャ", "ヴァ", "ヂ", "グヮ", "ー", "", "x", "テョ"] {
        let once = mora_katakana_to_hiragana(source);
        assert_eq!(mora_katakana_to_hiragana(&once), once, "source mora: {source}");
    }
}
