use aqkanji2koe::aquestalk::sanitize_kana;

#[test]
fn leaves_valid_output_unchanged() {
    assert_eq!(
        sanitize_kana("これわ/おんせ'ーきごーです。").unwrap(),
        "これわ/おんせ'ーきごーです。"
    );
    assert_eq!(sanitize_kana("_キく、て'_スと。").unwrap(), "_キく、て'_スと。");
}

#[test]
fn normalizes_old_dll_sequence_restrictions() {
    assert_eq!(sanitize_kana("えっ。").unwrap(), "えつ。");
    assert_eq!(sanitize_kana("えっっと。").unwrap(), "えっと。");
    assert_eq!(sanitize_kana("ーか。").unwrap(), "か。");
    assert_eq!(sanitize_kana("えっーか。").unwrap(), "えっか。");
    assert_eq!(sanitize_kana("_キー。").unwrap(), "きー。");
    assert_eq!(sanitize_kana("_キあ。").unwrap(), "きあ。");
}

#[test]
fn rejects_undefined_readings_and_tags_before_the_dll() {
    assert!(sanitize_kana("ぢ。").is_err());
    assert!(sanitize_kana("ゔぁ。").is_err());
    assert!(sanitize_kana("<NUM VAL=12>。").is_err());
}

#[test]
fn rejects_multiple_accents_in_one_phrase() {
    assert!(sanitize_kana("あ'いう'。").is_err());
}

#[test]
fn refuses_overlong_phrase_without_splitting_or_truncating() {
    let valid = format!("{}。", "あ".repeat(255));
    assert_eq!(sanitize_kana(&valid).unwrap(), valid);

    let invalid = format!("{}。", "あ".repeat(256));
    assert!(sanitize_kana(&invalid).is_err());
}

#[test]
fn rejects_empty_or_unterminated_output() {
    assert!(sanitize_kana("。").is_err());
    assert!(sanitize_kana("あ").is_err());
}

#[test]
fn each_refusal_has_its_message() {
    assert_eq!(sanitize_kana("。").unwrap_err(), "句切記号の前に有効な読み記号がありません");
    assert_eq!(sanitize_kana("'あ。").unwrap_err(), "アクセント記号の前に読み記号がありません");
    assert_eq!(
        sanitize_kana("あ'い'。").unwrap_err(),
        "1つのアクセント句に複数のアクセント記号があります"
    );
    assert_eq!(
        sanitize_kana("かx。").unwrap_err(),
        "AquesTalk 1.8 に未定義の読み記号またはタグが含まれています: x。"
    );
    assert_eq!(sanitize_kana("か").unwrap_err(), "音声記号列の末尾に句切記号がありません");
    assert_eq!(sanitize_kana("").unwrap_err(), "AquesTalk 1.8 で有効な読み記号がありません");
    assert_eq!(sanitize_kana("ー。").unwrap_err(), "AquesTalk 1.8 で有効な読み記号がありません");
    let long = format!("{}。", "か".repeat(300));
    assert_eq!(
        sanitize_kana(&long).unwrap_err(),
        "AquesTalk 1.8 の1アクセント句あたりの読み記号上限を超えています: 300 > 255"
    );
}

#[test]
fn sanitizing_twice_changes_nothing_more() {
    for input in [
        "えっ。",
        "えっっと。",
        "ーか。",
        "_キー。",
        "_キあ、_フィっ'ー？",
        "ーーきゃ'っ/しゅ+_シュと;",
    ] {
        let once = sanitize_kana(input).unwrap();
        assert_eq!(sanitize_kana(&once).unwrap(), once);
    }
}

#[test]
fn accent_on_a_folded_sokuon_moves_to_the_one_kept() {
    assert_eq!(sanitize_kana("えっっ'と。").unwrap(), "えっ'と。");
    assert_eq!(sanitize_kana("えっー'か。").unwrap(), "えっ'か。");
    assert_eq!(sanitize_kana("ー'か。").unwrap(), "か。");
}

#[test]
fn longest_readings_are_taken_first() {
    assert_eq!(sanitize_kana("_フィき。").unwrap(), "_フィき。");
    assert_eq!(sanitize_kana("きゃ/きや。").unwrap(), "きゃ/きや。");
}
