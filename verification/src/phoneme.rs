//! Romanisation and devoiced forms of katakana moras.
use vstd::prelude::*;
use crate::aquestalk::is_devoiceable;
use crate::mora::{is_reading, kata_to_hira, fallback_char, is_single_reading};

verus! {

/// Consonant stem of the palatal moras `キャ`, `シュ`, ... `ピョ` and their
/// base kana.
pub open spec fn palatal_stem(c: char) -> Option<char> {
    if c == 'キ' { Some('k') }
    else if c == 'シ' { Some('s') }
    else if c == 'チ' { Some('t') }
    else if c == 'ニ' { Some('n') }
    else if c == 'ヒ' { Some('h') }
    else if c == 'ミ' { Some('m') }
    else if c == 'リ' { Some('r') }
    else if c == 'ギ' { Some('g') }
    else if c == 'ジ' { Some('z') }
    else if c == 'ビ' { Some('b') }
    else if c == 'ピ' { Some('p') }
    else { None }
}

/// The vowel that a small kana gives to the mora it ends.
pub open spec fn small_vowel(c: char) -> Option<char> {
    if c == 'ャ' { Some('a') }
    else if c == 'ュ' { Some('u') }
    else if c == 'ョ' { Some('o') }
    else if c == 'ェ' { Some('e') }
    else { None }
}

/// Romanisation of a mora written with one katakana character.
pub open spec fn single_roman(c: char) -> Seq<char> {
    if c == 'ア' { seq!['a'] } else if c == 'イ' { seq!['i'] } else if c == 'ウ' { seq!['u'] }
    else if c == 'エ' { seq!['e'] } else if c == 'オ' { seq!['o'] }
    else if c == 'カ' { seq!['k', 'a'] } else if c == 'キ' { seq!['k', 'i'] }
    else if c == 'ク' { seq!['k', 'u'] } else if c == 'ケ' { seq!['k', 'e'] }
    else if c == 'コ' { seq!['k', 'o'] }
    else if c == 'ガ' { seq!['g', 'a'] } else if c == 'ギ' { seq!['g', 'i'] }
    else if c == 'グ' { seq!['g', 'u'] } else if c == 'ゲ' { seq!['g', 'e'] }
    else if c == 'ゴ' { seq!['g', 'o'] }
    else if c == 'サ' { seq!['s', 'a'] } else if c == 'シ' { seq!['s', 'i'] }
    else if c == 'ス' { seq!['s', 'u'] } else if c == 'セ' { seq!['s', 'e'] }
    else if c == 'ソ' { seq!['s', 'o'] }
    else if c == 'ザ' { seq!['z', 'a'] } else if c == 'ジ' { seq!['z', 'i'] }
    else if c == 'ズ' { seq!['z', 'u'] } else if c == 'ゼ' { seq!['z', 'e'] }
    else if c == 'ゾ' { seq!['z', 'o'] }
    else if c == 'タ' { seq!['t', 'a'] } else if c == 'チ' { seq!['t', 'i'] }
    else if c == 'ツ' { seq!['t', 'u'] } else if c == 'テ' { seq!['t', 'e'] }
    else if c == 'ト' { seq!['t', 'o'] }
    else if c == 'ダ' { seq!['d', 'a'] } else if c == 'ヂ' { seq!['d', 'i'] }
    else if c == 'ヅ' { seq!['d', 'u'] } else if c == 'デ' { seq!['d', 'e'] }
    else if c == 'ド' { seq!['d', 'o'] }
    else if c == 'ナ' { seq!['n', 'a'] } else if c == 'ニ' { seq!['n', 'i'] }
    else if c == 'ヌ' { seq!['n', 'u'] } else if c == 'ネ' { seq!['n', 'e'] }
    else if c == 'ノ' { seq!['n', 'o'] }
    else if c == 'ハ' { seq!['h', 'a'] } else if c == 'ヒ' { seq!['h', 'i'] }
    else if c == 'フ' { seq!['h', 'u'] } else if c == 'ヘ' { seq!['h', 'e'] }
    else if c == 'ホ' { seq!['h', 'o'] }
    else if c == 'バ' { seq!['b', 'a'] } else if c == 'ビ' { seq!['b', 'i'] }
    else if c == 'ブ' { seq!['b', 'u'] } else if c == 'ベ' { seq!['b', 'e'] }
    else if c == 'ボ' { seq!['b', 'o'] }
    else if c == 'パ' { seq!['p', 'a'] } else if c == 'ピ' { seq!['p', 'i'] }
    else if c == 'プ' { seq!['p', 'u'] } else if c == 'ペ' { seq!['p', 'e'] }
    else if c == 'ポ' { seq!['p', 'o'] }
    else if c == 'マ' { seq!['m', 'a'] } else if c == 'ミ' { seq!['m', 'i'] }
    else if c == 'ム' { seq!['m', 'u'] } else if c == 'メ' { seq!['m', 'e'] }
    else if c == 'モ' { seq!['m', 'o'] }
    else if c == 'ヤ' { seq!['y', 'a'] } else if c == 'ユ' { seq!['y', 'u'] }
    else if c == 'ヨ' { seq!['y', 'o'] }
    else if c == 'ラ' { seq!['r', 'a'] } else if c == 'リ' { seq!['r', 'i'] }
    else if c == 'ル' { seq!['r', 'u'] } else if c == 'レ' { seq!['r', 'e'] }
    else if c == 'ロ' { seq!['r', 'o'] }
    else if c == 'ワ' { seq!['w', 'a'] } else if c == 'ヰ' { seq!['i'] }
    else if c == 'ヱ' { seq!['e'] } else if c == 'ヲ' { seq!['o'] }
    else if c == 'ン' { seq!['n', 'n'] } else if c == 'ヴ' { seq!['v', 'u'] }
    else if c == 'ー' { seq!['-'] } else if c == 'ッ' { seq!['x', 't', 'u'] }
    else if c == 'ァ' { seq!['x', 'a'] } else if c == 'ィ' { seq!['x', 'i'] }
    else if c == 'ゥ' { seq!['x', 'u'] } else if c == 'ェ' { seq!['x', 'e'] }
    else if c == 'ォ' { seq!['x', 'o'] }
    else if c == 'ャ' { seq!['x', 'y', 'a'] } else if c == 'ュ' { seq!['x', 'y', 'u'] }
    else if c == 'ョ' { seq!['x', 'y', 'o'] } else if c == 'ヮ' { seq!['x', 'w', 'a'] }
    else if c == 'ヵ' { seq!['x', 'k', 'a'] } else if c == 'ヶ' { seq!['x', 'k', 'e'] }
    else { seq![] }
}

/// Romanisation of a mora written with two katakana characters.
pub open spec fn double_roman(a: char, b: char) -> Seq<char> {
    if palatal_stem(a) is Some && small_vowel(b) is Some {
        seq![palatal_stem(a)->0, 'y', small_vowel(b)->0]
    } else if a == 'イ' && b == 'ェ' { seq!['y', 'e'] }
    else if a == 'ウ' && b == 'ィ' { seq!['w', 'i'] }
    else if a == 'ウ' && b == 'ェ' { seq!['w', 'e'] }
    else if a == 'ウ' && b == 'ォ' { seq!['w', 'o'] }
    else if a == 'ヴ' && b == 'ァ' { seq!['v', 'a'] }
    else if a == 'ヴ' && b == 'ィ' { seq!['v', 'i'] }
    else if a == 'ヴ' && b == 'ェ' { seq!['v', 'e'] }
    else if a == 'ヴ' && b == 'ォ' { seq!['v', 'o'] }
    else if a == 'ヴ' && b == 'ャ' { seq!['v', 'y', 'a'] }
    else if a == 'ヴ' && b == 'ュ' { seq!['v', 'y', 'u'] }
    else if a == 'ヴ' && b == 'ョ' { seq!['v', 'y', 'o'] }
    else if a == 'フ' && b == 'ァ' { seq!['f', 'a'] }
    else if a == 'フ' && b == 'ィ' { seq!['f', 'i'] }
    else if a == 'フ' && b == 'ェ' { seq!['f', 'e'] }
    else if a == 'フ' && b == 'ォ' { seq!['f', 'o'] }
    else if a == 'ツ' && b == 'ァ' { seq!['t', 's', 'a'] }
    else if a == 'ツ' && b == 'ィ' { seq!['t', 's', 'i'] }
    else if a == 'ツ' && b == 'ェ' { seq!['t', 's', 'e'] }
    else if a == 'ツ' && b == 'ォ' { seq!['t', 's', 'o'] }
    else if a == 'テ' && b == 'ィ' { seq!['t', 'h', 'i'] }
    else if a == 'テ' && b == 'ュ' { seq!['t', 'h', 'u'] }
    else if a == 'テ' && b == 'ャ' { seq!['t', 'h', 'a'] }
    else if a == 'テ' && b == 'ョ' { seq!['t', 'h', 'o'] }
    else if a == 'デ' && b == 'ィ' { seq!['d', 'h', 'i'] }
    else if a == 'デ' && b == 'ュ' { seq!['d', 'h', 'u'] }
    else if a == 'デ' && b == 'ャ' { seq!['d', 'h', 'a'] }
    else if a == 'デ' && b == 'ョ' { seq!['d', 'h', 'o'] }
    else if a == 'ト' && b == 'ゥ' { seq!['t', 'w', 'u'] }
    else if a == 'ド' && b == 'ゥ' { seq!['d', 'w', 'u'] }
    else if a == 'ス' && b == 'ィ' { seq!['s', 'w', 'i'] }
    else if a == 'ズ' && b == 'ィ' { seq!['z', 'w', 'i'] }
    else if a == 'ク' && b == 'ヮ' { seq!['k', 'w', 'a'] }
    else if a == 'グ' && b == 'ヮ' { seq!['g', 'w', 'a'] }
    else { seq![] }
}

/// Romanisation of a katakana mora; empty for what is not a known mora.
pub open spec fn mora_roman(m: Seq<char>) -> Seq<char> {
    if m.len() == 1 {
        single_roman(m[0])
    } else if m.len() == 2 {
        double_roman(m[0], m[1])
    } else {
        seq![]
    }
}

/// Devoiced kana reading of a mora: `_` and the katakana mora, for the moras
/// that AquesTalk can devoice.
pub open spec fn devoiced_kana_of(m: Seq<char>) -> Option<Seq<char>> {
    if is_devoiceable(m) { Some(seq!['_'] + m) } else { None }
}

/// Devoiced romanisation of a mora: `_` and its romanisation, for the moras
/// that AquesTalk can devoice.
pub open spec fn devoiced_roman_of(m: Seq<char>) -> Option<Seq<char>> {
    if is_devoiceable(m) { Some(seq!['_'] + mora_roman(m)) } else { None }
}

/// Letters that a sokuon doubles in romanised output.
pub open spec fn is_doubling_letter(c: char) -> bool {
    c == 'k' || c == 's' || c == 't' || c == 'h' || c == 'f' || c == 'm' || c == 'y'
    || c == 'r' || c == 'w' || c == 'g' || c == 'z' || c == 'd' || c == 'b' || c == 'p'
    || c == 'v' || c == 'c' || c == 'j'
}

/// The consonant that a preceding sokuon doubles: the first letter of the
/// romanisation, where it is a consonant other than `n` and `x`.
pub open spec fn doubling_consonant(roman: Seq<char>) -> Option<char> {
    if roman.len() > 0 && is_doubling_letter(roman[0]) { Some(roman[0]) } else { None }
}

/// Katakana with an unvoiced consonant whose next code point is the same
/// kana with the voicing mark (カ→ガ, サ→ザ, タ→ダ, ハ→バ, and so on).
pub open spec fn has_voiced_form(c: char) -> bool {
    c == 'カ' || c == 'キ' || c == 'ク' || c == 'ケ' || c == 'コ'
    || c == 'サ' || c == 'シ' || c == 'ス' || c == 'セ' || c == 'ソ'
    || c == 'タ' || c == 'チ' || c == 'ツ' || c == 'テ' || c == 'ト'
    || c == 'ハ' || c == 'ヒ' || c == 'フ' || c == 'ヘ' || c == 'ホ'
}

/// The voiced counterpart of an unvoiced consonant letter.
pub open spec fn voice_letter(c: char) -> char {
    if c == 'k' { 'g' } else if c == 's' { 'z' } else if c == 't' { 'd' } else if c == 'h' { 'b' } else { c }
}

/// The voicing mark voices the consonant and nothing else: the kana one code
/// point after an unvoiced kana (ガ after カ, ゴ after コ, ...) romanises as
/// that kana with its consonant letter voiced (k→g, s→z, t→d, h→b), and the
/// kana two code points after a ハ-row kana (パ, ピ, ...) with `p`.
pub proof fn lemma_voicing_mark_voices_consonant(c: char)
    requires
        has_voiced_form(c),
    ensures
        mora_roman(seq![c]).len() == 2,
        mora_roman(seq![c])[0] != voice_letter(mora_roman(seq![c])[0]),
        mora_roman(seq![((c as u32) + 1) as char]) == seq![
            voice_letter(mora_roman(seq![c])[0]),
            mora_roman(seq![c])[1],
        ],
        mora_roman(seq![c])[0] == 'h' ==> mora_roman(seq![((c as u32) + 2) as char]) == seq![
            'p',
            mora_roman(seq![c])[1],
        ],
{
    let v = ((c as u32) + 1) as char;
    let p = ((c as u32) + 2) as char;
    assert(seq![v].len() == 1 && seq![v][0] == v);
    assert(seq![p].len() == 1 && seq![p][0] == p);
    assert(seq![c].len() == 1 && seq![c][0] == c);
}

/// The vowel of column `i` of the syllabary, in its order a, i, u, e, o.
pub open spec fn column_vowel(i: int) -> char {
    if i == 0 { 'a' } else if i == 1 { 'i' } else if i == 2 { 'u' } else if i == 3 { 'e' } else { 'o' }
}

/// The katakana of column `i` of a row that starts at code point `base` and
/// steps by `step`.
pub open spec fn row_kana(base: int, step: int, i: int) -> char {
    (base + step * i) as char
}

/// The rows of the syllabary romanise as their consonant followed by the
/// vowel of the column: ア-row as the vowels alone, カ ka ki ku ke ko, サ sa si
/// su se so, ナ na ni nu ne no, ハ ha hi hu he ho, マ ma mi mu me mo, ラ ra ri
/// ru re ro, each taken in the code-point order of the katakana block.
pub proof fn lemma_syllabary_rows(i: int)
    requires
        0 <= i < 5,
    ensures
        mora_roman(seq![row_kana(0x30A2, 2, i)]) == seq![column_vowel(i)],
        mora_roman(seq![row_kana(0x30AB, 2, i)]) == seq!['k', column_vowel(i)],
        mora_roman(seq![row_kana(0x30B5, 2, i)]) == seq!['s', column_vowel(i)],
        mora_roman(seq![row_kana(0x30CA, 1, i)]) == seq!['n', column_vowel(i)],
        mora_roman(seq![row_kana(0x30CF, 3, i)]) == seq!['h', column_vowel(i)],
        mora_roman(seq![row_kana(0x30DE, 1, i)]) == seq!['m', column_vowel(i)],
        mora_roman(seq![row_kana(0x30E9, 1, i)]) == seq!['r', column_vowel(i)],
{
    assert(i == 0 || i == 1 || i == 2 || i == 3 || i == 4);
    assert(seq![row_kana(0x30A2, 2, i)][0] == row_kana(0x30A2, 2, i));
    assert(seq![row_kana(0x30AB, 2, i)][0] == row_kana(0x30AB, 2, i));
    assert(seq![row_kana(0x30B5, 2, i)][0] == row_kana(0x30B5, 2, i));
    assert(seq![row_kana(0x30CA, 1, i)][0] == row_kana(0x30CA, 1, i));
    assert(seq![row_kana(0x30CF, 3, i)][0] == row_kana(0x30CF, 3, i));
    assert(seq![row_kana(0x30DE, 1, i)][0] == row_kana(0x30DE, 1, i));
    assert(seq![row_kana(0x30E9, 1, i)][0] == row_kana(0x30E9, 1, i));
}

/// Every palatal mora, romanised as a consonant, `y` and a vowel (キャ kya,
/// ジョ zyo, ...), is one defined reading once in hiragana; only the `v`
/// moras (ヴャ, ...) are missing from the AquesTalk 1.8 table.
pub proof fn lemma_palatal_moras_are_readings(a: char, b: char)
    requires
        mora_roman(seq![a, b]).len() == 3,
        mora_roman(seq![a, b])[1] == 'y',
        mora_roman(seq![a, b])[0] != 'v',
    ensures
        is_reading(seq![kata_to_hira(a), kata_to_hira(b)]),
{
    assert(seq![a, b].len() == 2 && seq![a, b][0] == a && seq![a, b][1] == b);
}

/// The fallback for a katakana whose hiragana is no reading keeps the vowel:
/// the fallback kana romanises with the same final vowel (ヂ di → じ zi,
/// ヴ vu → ぶ bu, ャ xya → や ya, ...).
pub proof fn lemma_fallback_keeps_vowel(c: char)
    requires
        0x30A1 <= (c as u32) && (c as u32) <= 0x30F6,
        !is_single_reading(kata_to_hira(c)),
    ensures
        mora_roman(seq![c]).len() > 0,
        mora_roman(seq![c]).last() == mora_roman(
            seq![((fallback_char(kata_to_hira(c)) as u32) + 0x60) as char],
        ).last(),
{
    let f = ((fallback_char(kata_to_hira(c)) as u32) + 0x60) as char;
    assert(seq![c].len() == 1 && seq![c][0] == c);
    assert(seq![f].len() == 1 && seq![f][0] == f);
}

fn palatal_stem_of(c: char) -> (r: Option<char>)
    ensures
        r == palatal_stem(c),
{
    match c {
        'キ' => Some('k'),
        'シ' => Some('s'),
        'チ' => Some('t'),
        'ニ' => Some('n'),
        'ヒ' => Some('h'),
        'ミ' => Some('m'),
        'リ' => Some('r'),
        'ギ' => Some('g'),
        'ジ' => Some('z'),
        'ビ' => Some('b'),
        'ピ' => Some('p'),
        _ => None,
    }
}

fn small_vowel_of(c: char) -> (r: Option<char>)
    ensures
        r == small_vowel(c),
{
    match c {
        'ャ' => Some('a'),
        'ュ' => Some('u'),
        'ョ' => Some('o'),
        'ェ' => Some('e'),
        _ => None,
    }
}

fn single_mora_roman(c: char) -> (r: Vec<char>)
    ensures
        r@ == single_roman(c),
{
    let r = match c {
        'ア' => vec!['a'], 'イ' => vec!['i'], 'ウ' => vec!['u'], 'エ' => vec!['e'],
        'オ' => vec!['o'],
        'カ' => vec!['k', 'a'], 'キ' => vec!['k', 'i'], 'ク' => vec!['k', 'u'],
        'ケ' => vec!['k', 'e'], 'コ' => vec!['k', 'o'],
        'ガ' => vec!['g', 'a'], 'ギ' => vec!['g', 'i'], 'グ' => vec!['g', 'u'],
        'ゲ' => vec!['g', 'e'], 'ゴ' => vec!['g', 'o'],
        'サ' => vec!['s', 'a'], 'シ' => vec!['s', 'i'], 'ス' => vec!['s', 'u'],
        'セ' => vec!['s', 'e'], 'ソ' => vec!['s', 'o'],
        'ザ' => vec!['z', 'a'], 'ジ' => vec!['z', 'i'], 'ズ' => vec!['z', 'u'],
        'ゼ' => vec!['z', 'e'], 'ゾ' => vec!['z', 'o'],
        'タ' => vec!['t', 'a'], 'チ' => vec!['t', 'i'], 'ツ' => vec!['t', 'u'],
        'テ' => vec!['t', 'e'], 'ト' => vec!['t', 'o'],
        'ダ' => vec!['d', 'a'], 'ヂ' => vec!['d', 'i'], 'ヅ' => vec!['d', 'u'],
        'デ' => vec!['d', 'e'], 'ド' => vec!['d', 'o'],
        'ナ' => vec!['n', 'a'], 'ニ' => vec!['n', 'i'], 'ヌ' => vec!['n', 'u'],
        'ネ' => vec!['n', 'e'], 'ノ' => vec!['n', 'o'],
        'ハ' => vec!['h', 'a'], 'ヒ' => vec!['h', 'i'], 'フ' => vec!['h', 'u'],
        'ヘ' => vec!['h', 'e'], 'ホ' => vec!['h', 'o'],
        'バ' => vec!['b', 'a'], 'ビ' => vec!['b', 'i'], 'ブ' => vec!['b', 'u'],
        'ベ' => vec!['b', 'e'], 'ボ' => vec!['b', 'o'],
        'パ' => vec!['p', 'a'], 'ピ' => vec!['p', 'i'], 'プ' => vec!['p', 'u'],
        'ペ' => vec!['p', 'e'], 'ポ' => vec!['p', 'o'],
        'マ' => vec!['m', 'a'], 'ミ' => vec!['m', 'i'], 'ム' => vec!['m', 'u'],
        'メ' => vec!['m', 'e'], 'モ' => vec!['m', 'o'],
        'ヤ' => vec!['y', 'a'], 'ユ' => vec!['y', 'u'], 'ヨ' => vec!['y', 'o'],
        'ラ' => vec!['r', 'a'], 'リ' => vec!['r', 'i'], 'ル' => vec!['r', 'u'],
        'レ' => vec!['r', 'e'], 'ロ' => vec!['r', 'o'],
        'ワ' => vec!['w', 'a'], 'ヰ' => vec!['i'], 'ヱ' => vec!['e'], 'ヲ' => vec!['o'],
        'ン' => vec!['n', 'n'], 'ヴ' => vec!['v', 'u'], 'ー' => vec!['-'],
        'ッ' => vec!['x', 't', 'u'],
        'ァ' => vec!['x', 'a'], 'ィ' => vec!['x', 'i'], 'ゥ' => vec!['x', 'u'],
        'ェ' => vec!['x', 'e'], 'ォ' => vec!['x', 'o'],
        'ャ' => vec!['x', 'y', 'a'], 'ュ' => vec!['x', 'y', 'u'], 'ョ' => vec!['x', 'y', 'o'],
        'ヮ' => vec!['x', 'w', 'a'], 'ヵ' => vec!['x', 'k', 'a'], 'ヶ' => vec!['x', 'k', 'e'],
        _ => Vec::new(),
    };
    assert(r@ =~= single_roman(c));
    r
}

fn double_mora_roman(a: char, b: char) -> (r: Vec<char>)
    ensures
        r@ == double_roman(a, b),
{
    let r = match (palatal_stem_of(a), small_vowel_of(b)) {
        (Some(s), Some(v)) => vec![s, 'y', v],
        _ => match (a, b) {
            ('イ', 'ェ') => vec!['y', 'e'],
            ('ウ', 'ィ') => vec!['w', 'i'],
            ('ウ', 'ェ') => vec!['w', 'e'],
            ('ウ', 'ォ') => vec!['w', 'o'],
            ('ヴ', 'ァ') => vec!['v', 'a'],
            ('ヴ', 'ィ') => vec!['v', 'i'],
            ('ヴ', 'ェ') => vec!['v', 'e'],
            ('ヴ', 'ォ') => vec!['v', 'o'],
            ('ヴ', 'ャ') => vec!['v', 'y', 'a'],
            ('ヴ', 'ュ') => vec!['v', 'y', 'u'],
            ('ヴ', 'ョ') => vec!['v', 'y', 'o'],
            ('フ', 'ァ') => vec!['f', 'a'],
            ('フ', 'ィ') => vec!['f', 'i'],
            ('フ', 'ェ') => vec!['f', 'e'],
            ('フ', 'ォ') => vec!['f', 'o'],
            ('ツ', 'ァ') => vec!['t', 's', 'a'],
            ('ツ', 'ィ') => vec!['t', 's', 'i'],
            ('ツ', 'ェ') => vec!['t', 's', 'e'],
            ('ツ', 'ォ') => vec!['t', 's', 'o'],
            ('テ', 'ィ') => vec!['t', 'h', 'i'],
            ('テ', 'ュ') => vec!['t', 'h', 'u'],
            ('テ', 'ャ') => vec!['t', 'h', 'a'],
            ('テ', 'ョ') => vec!['t', 'h', 'o'],
            ('デ', 'ィ') => vec!['d', 'h', 'i'],
            ('デ', 'ュ') => vec!['d', 'h', 'u'],
            ('デ', 'ャ') => vec!['d', 'h', 'a'],
            ('デ', 'ョ') => vec!['d', 'h', 'o'],
            ('ト', 'ゥ') => vec!['t', 'w', 'u'],
            ('ド', 'ゥ') => vec!['d', 'w', 'u'],
            ('ス', 'ィ') => vec!['s', 'w', 'i'],
            ('ズ', 'ィ') => vec!['z', 'w', 'i'],
            ('ク', 'ヮ') => vec!['k', 'w', 'a'],
            ('グ', 'ヮ') => vec!['g', 'w', 'a'],
            _ => Vec::new(),
        },
    };
    assert(r@ =~= double_roman(a, b));
    r
}

/// Romanisation of a katakana mora in AquesTalk roman notation; empty for
/// what is not a known mora.
pub fn katakana_mora_to_roman(mora: &[char]) -> (r: Vec<char>)
    ensures
        r@ == mora_roman(mora@),
{
    if mora.len() == 1 {
        single_mora_roman(mora[0])
    } else if mora.len() == 2 {
        double_mora_roman(mora[0], mora[1])
    } else {
        Vec::new()
    }
}

fn is_devoiceable_mora(m: &[char]) -> (b: bool)
    ensures
        b == is_devoiceable(m@),
{
    if m.len() == 1 {
        let c = m[0];
        c == 'キ' || c == 'ク' || c == 'ヒ' || c == 'フ' || c == 'シ' || c == 'ス' || c == 'ピ'
        || c == 'プ' || c == 'チ' || c == 'ツ'
    } else if m.len() == 2 {
        let a = m[0];
        let b = m[1];
        (a == 'フ' && b == 'ィ') || (a == 'シ' && b == 'ュ') || (a == 'ス' && b == 'ィ')
        || (a == 'テ' && b == 'ィ') || (a == 'ト' && b == 'ゥ') || (a == 'チ' && b == 'ュ')
        || (a == 'ツ' && b == 'ィ')
    } else {
        false
    }
}

fn underscored(v: &[char]) -> (r: Vec<char>)
    ensures
        r@ == seq!['_'] + v@,
{
    let mut r: Vec<char> = vec!['_'];
    for i in 0..v.len()
        invariant
            r@ == seq!['_'] + v@.take(i as int),
    {
        r.push(v[i]);
        assert(v@.take(i + 1) == v@.take(i as int).push(v@[i as int]));
    }
    assert(v@.take(v.len() as int) == v@);
    r
}

/// The devoiced kana reading of a mora, where AquesTalk has one.
pub fn devoiced_kana(mora: &[char]) -> (r: Option<Vec<char>>)
    ensures
        match r {
            Some(v) => devoiced_kana_of(mora@) == Some(v@),
            None => devoiced_kana_of(mora@) is None,
        },
{
    if is_devoiceable_mora(mora) {
        Some(underscored(mora))
    } else {
        None
    }
}

/// The devoiced romanisation of a mora, where AquesTalk has one.
pub fn devoiced_roman(mora: &[char]) -> (r: Option<Vec<char>>)
    ensures
        match r {
            Some(v) => devoiced_roman_of(mora@) == Some(v@),
            None => devoiced_roman_of(mora@) is None,
        },
{
    if is_devoiceable_mora(mora) {
        Some(underscored(&katakana_mora_to_roman(mora)))
    } else {
        None
    }
}

/// The consonant that a sokuon doubles before this romanised mora.
pub fn get_doubling_consonant(roman: &[char]) -> (r: Option<char>)
    ensures
        r == doubling_consonant(roman@),
{
    if roman.len() > 0 {
        let c = roman[0];
        if c == 'k' || c == 's' || c == 't' || c == 'h' || c == 'f' || c == 'm' || c == 'y'
            || c == 'r' || c == 'w' || c == 'g' || c == 'z' || c == 'd' || c == 'b' || c == 'p'
            || c == 'v' || c == 'c' || c == 'j' {
            return Some(c);
        }
    }
    None
}

} // verus!
