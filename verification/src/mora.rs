//! Katakana to hiragana conversion restricted to the AquesTalk 1.8 reading set.
use vstd::prelude::*;
use crate::text::string_of;
use crate::text::chars_of;

verus! {

/// `char::from_u32` gives the character with the given scalar value, or `None`
/// where the value is a surrogate or lies above `0x10FFFF`.
pub assume_specification[ core::char::from_u32 ](i: u32) -> (r: Option<char>)
    ensures
        r == (if i < 0xD800 || (0xE000 <= i && i <= 0x10FFFF) {
            Some(i as char)
        } else {
            None::<char>
        }),
;

/// Readings of one character in the AquesTalk 1.8 kana reading table.
pub open spec fn is_single_reading(c: char) -> bool {
    c == 'あ' || c == 'か' || c == 'さ' || c == 'た' || c == 'な' || c == 'は' || c == 'ま'
    || c == 'や' || c == 'ら' || c == 'わ' || c == 'ん' || c == 'が' || c == 'ざ' || c == 'だ'
    || c == 'ば' || c == 'ぱ'
    || c == 'い' || c == 'き' || c == 'し' || c == 'ち' || c == 'に' || c == 'ひ' || c == 'み'
    || c == 'り' || c == 'っ' || c == 'ぎ' || c == 'じ' || c == 'び' || c == 'ぴ'
    || c == 'う' || c == 'く' || c == 'す' || c == 'つ' || c == 'ぬ' || c == 'ふ' || c == 'む'
    || c == 'ゆ' || c == 'る' || c == 'ー' || c == 'ぐ' || c == 'ず' || c == 'ぶ' || c == 'ぷ'
    || c == 'え' || c == 'け' || c == 'せ' || c == 'て' || c == 'ね' || c == 'へ' || c == 'め'
    || c == 'れ' || c == 'げ' || c == 'ぜ' || c == 'で' || c == 'べ' || c == 'ぺ'
    || c == 'お' || c == 'こ' || c == 'そ' || c == 'と' || c == 'の' || c == 'ほ' || c == 'も'
    || c == 'よ' || c == 'ろ' || c == 'を' || c == 'ご' || c == 'ぞ' || c == 'ど' || c == 'ぼ'
    || c == 'ぽ'
}

/// First characters of the contracted readings `きゃ`, `しゅ`, ... `ぴょ`.
pub open spec fn is_palatal_base(c: char) -> bool {
    c == 'き' || c == 'し' || c == 'ち' || c == 'に' || c == 'ひ' || c == 'み' || c == 'り'
    || c == 'ぎ' || c == 'じ' || c == 'び' || c == 'ぴ'
}

/// Second characters of the contracted readings `きゃ`, `きゅ`, `きぇ`, `きょ`.
pub open spec fn is_palatal_small(c: char) -> bool {
    c == 'ゃ' || c == 'ゅ' || c == 'ぇ' || c == 'ょ'
}

/// Readings of two characters in the AquesTalk 1.8 kana reading table.
pub open spec fn is_double_reading(a: char, b: char) -> bool {
    (is_palatal_base(a) && is_palatal_small(b))
    || (a == 'い' && b == 'ぇ')
    || ((a == 'つ' || a == 'ふ') && (b == 'ぁ' || b == 'ぃ' || b == 'ぇ' || b == 'ぉ'))
    || (a == 'う' && (b == 'ぃ' || b == 'ぇ' || b == 'ぉ'))
    || ((a == 'す' || a == 'ず') && b == 'ぃ')
    || ((a == 'と' || a == 'ど') && b == 'ぅ')
    || ((a == 'て' || a == 'で') && (b == 'ぃ' || b == 'ゅ'))
}

/// `s` is one reading of the AquesTalk 1.8 kana reading table.
pub open spec fn is_reading(s: Seq<char>) -> bool {
    (s.len() == 1 && is_single_reading(s[0]))
    || (s.len() == 2 && is_double_reading(s[0], s[1]))
}

/// The hiragana counterpart of a katakana character (U+30A1 to U+30F6 move
/// down by 0x60); every other character stays as it is.
pub open spec fn kata_to_hira(c: char) -> char {
    if 0x30A1 <= (c as u32) && (c as u32) <= 0x30F6 {
        ((c as u32) - 0x60) as char
    } else {
        c
    }
}

/// The defined reading that stands in for a hiragana character that is not
/// itself a defined reading.
pub open spec fn fallback_char(c: char) -> char {
    if c == 'ぢ' { 'じ' }
    else if c == 'づ' { 'ず' }
    else if c == 'ゐ' { 'い' }
    else if c == 'ゑ' { 'え' }
    else if c == 'ゔ' { 'ぶ' }
    else if c == 'ぁ' { 'あ' }
    else if c == 'ぃ' { 'い' }
    else if c == 'ぅ' { 'う' }
    else if c == 'ぇ' { 'え' }
    else if c == 'ぉ' { 'お' }
    else if c == 'ゃ' { 'や' }
    else if c == 'ゅ' { 'ゆ' }
    else if c == 'ょ' { 'よ' }
    else if c == 'ゎ' { 'わ' }
    else if c == 'ゕ' { 'か' }
    else if c == 'ゖ' { 'け' }
    else { 'ん' }
}

/// One character of a mora that is not a whole defined reading: kept where it
/// is a defined reading by itself, replaced by its fallback otherwise.
pub open spec fn safe_char(c: char) -> char {
    if is_single_reading(c) { c } else { fallback_char(c) }
}

/// The AquesTalk 1.8 kana reading of a katakana mora.
pub open spec fn mora_to_hira(mora: Seq<char>) -> Seq<char> {
    let h = mora.map_values(|c: char| kata_to_hira(c));
    if is_reading(h) {
        h
    } else if h.len() == 0 {
        seq!['ん']
    } else {
        h.map_values(|c: char| safe_char(c))
    }
}

pub fn is_single_reading_char(c: char) -> (r: bool)
    ensures
        r == is_single_reading(c),
{
    match c {
        'あ' | 'か' | 'さ' | 'た' | 'な' | 'は' | 'ま' | 'や' | 'ら' | 'わ' | 'ん' | 'が' | 'ざ'
        | 'だ' | 'ば' | 'ぱ' | 'い' | 'き' | 'し' | 'ち' | 'に' | 'ひ' | 'み' | 'り' | 'っ' | 'ぎ'
        | 'じ' | 'び' | 'ぴ' | 'う' | 'く' | 'す' | 'つ' | 'ぬ' | 'ふ' | 'む' | 'ゆ' | 'る' | 'ー'
        | 'ぐ' | 'ず' | 'ぶ' | 'ぷ' | 'え' | 'け' | 'せ' | 'て' | 'ね' | 'へ' | 'め' | 'れ' | 'げ'
        | 'ぜ' | 'で' | 'べ' | 'ぺ' | 'お' | 'こ' | 'そ' | 'と' | 'の' | 'ほ' | 'も' | 'よ' | 'ろ'
        | 'を' | 'ご' | 'ぞ' | 'ど' | 'ぼ' | 'ぽ' => true,
        _ => false,
    }
}

pub fn is_double_reading_chars(a: char, b: char) -> (r: bool)
    ensures
        r == is_double_reading(a, b),
{
    let palatal_base = a == 'き' || a == 'し' || a == 'ち' || a == 'に' || a == 'ひ' || a == 'み'
        || a == 'り' || a == 'ぎ' || a == 'じ' || a == 'び' || a == 'ぴ';
    let palatal_small = b == 'ゃ' || b == 'ゅ' || b == 'ぇ' || b == 'ょ';
    (palatal_base && palatal_small)
    || (a == 'い' && b == 'ぇ')
    || ((a == 'つ' || a == 'ふ') && (b == 'ぁ' || b == 'ぃ' || b == 'ぇ' || b == 'ぉ'))
    || (a == 'う' && (b == 'ぃ' || b == 'ぇ' || b == 'ぉ'))
    || ((a == 'す' || a == 'ず') && b == 'ぃ')
    || ((a == 'と' || a == 'ど') && b == 'ぅ')
    || ((a == 'て' || a == 'で') && (b == 'ぃ' || b == 'ゅ'))
}

/// Whether `reading` is one reading of the AquesTalk 1.8 kana reading table.
pub fn is_aquestalk_kana_1_8_reading(reading: &[char]) -> (r: bool)
    ensures
        r == is_reading(reading@),
{
    if reading.len() == 1 {
        is_single_reading_char(reading[0])
    } else if reading.len() == 2 {
        is_double_reading_chars(reading[0], reading[1])
    } else {
        false
    }
}

/// Converts one katakana character to hiragana.
///
/// The prolonged sound mark and every character outside the katakana block are
/// returned as they are.
pub fn katakana_char_to_hiragana(c: char) -> (r: char)
    ensures
        r == kata_to_hira(c),
{
    let code = c as u32;
    if 0x30A1 <= code && code <= 0x30F6 {
        match core::char::from_u32(code - 0x60) {
            Some(h) => h,
            None => c,
        }
    } else {
        c
    }
}

fn fallback_char_to_aquestalk(c: char) -> (r: char)
    ensures
        r == fallback_char(c),
{
    match c {
        'ぢ' => 'じ',
        'づ' => 'ず',
        'ゐ' => 'い',
        'ゑ' => 'え',
        'ゔ' => 'ぶ',
        'ぁ' => 'あ',
        'ぃ' => 'い',
        'ぅ' => 'う',
        'ぇ' => 'え',
        'ぉ' => 'お',
        'ゃ' => 'や',
        'ゅ' => 'ゆ',
        'ょ' => 'よ',
        'ゎ' => 'わ',
        'ゕ' => 'か',
        'ゖ' => 'け',
        _ => 'ん',
    }
}

/// The AquesTalk 1.8 kana reading of a katakana mora, as characters.
pub fn mora_chars_to_hiragana(mora: &[char]) -> (r: Vec<char>)
    ensures
        r@ == mora_to_hira(mora@),
{
    let mut hiragana: Vec<char> = Vec::new();
    for i in 0..mora.len()
        invariant
            hiragana@ == mora@.take(i as int).map_values(|c: char| kata_to_hira(c)),
    {
        hiragana.push(katakana_char_to_hiragana(mora[i]));
        assert(mora@.take(i + 1) == mora@.take(i as int).push(mora@[i as int]));
    }
    assert(mora@.take(mora.len() as int) == mora@);
    if is_aquestalk_kana_1_8_reading(&hiragana) {
        return hiragana;
    }
    if hiragana.len() == 0 {
        return vec!['ん'];
    }
    let mut out: Vec<char> = Vec::new();
    for i in 0..hiragana.len()
        invariant
            out@ == hiragana@.take(i as int).map_values(|c: char| safe_char(c)),
    {
        let c = hiragana[i];
        if is_single_reading_char(c) {
            out.push(c);
        } else {
            out.push(fallback_char_to_aquestalk(c));
        }
        assert(hiragana@.take(i + 1) == hiragana@.take(i as int).push(hiragana@[i as int]));
    }
    assert(hiragana@.take(hiragana.len() as int) == hiragana@);
    out
}

/// Converts a katakana mora to an AquesTalk 1.8 compatible kana reading.
///
/// A mora that is a defined reading once in hiragana is returned in hiragana.
/// Otherwise each character is kept where it is a defined reading by itself
/// and replaced by a defined fallback reading where it is not, so that the
/// result is always a sequence of defined readings.
pub fn mora_katakana_to_hiragana(mora: &str) -> (r: String)
    ensures
        r@ == mora_to_hira(mora@),
{
    let chars = chars_of(mora);
    let out = mora_chars_to_hiragana(&chars);
    string_of(&out)
}

/// Hiragana that are not readings by themselves: the small kana other than
/// the sokuon, the historical ゐ and ゑ, ぢ and づ, and ゔ.
pub open spec fn is_undefined_hiragana(c: char) -> bool {
    c == 'ぁ' || c == 'ぃ' || c == 'ぅ' || c == 'ぇ' || c == 'ぉ' || c == 'ゃ' || c == 'ゅ'
    || c == 'ょ' || c == 'ゎ' || c == 'ゕ' || c == 'ゖ' || c == 'ゐ' || c == 'ゑ' || c == 'ぢ'
    || c == 'づ' || c == 'ゔ'
}

/// The one-character readings of the table are exactly the hiragana of the
/// block U+3041 to U+3096 other than the undefined ones, and the prolonged
/// sound mark.
pub proof fn lemma_single_readings_are_the_hiragana(c: char)
    ensures
        is_single_reading(c) <==> (c == 'ー' || (0x3041 <= (c as u32) && (c as u32) <= 0x3096
            && !is_undefined_hiragana(c))),
{
}

/// A katakana mora of one character whose hiragana is a reading by itself is
/// written as exactly that hiragana (ヌ as ぬ, カ as か, ...).
pub proof fn lemma_defined_katakana_kept(c: char)
    requires
        0x30A1 <= (c as u32) && (c as u32) <= 0x30F6,
        !is_undefined_hiragana(kata_to_hira(c)),
    ensures
        mora_to_hira(seq![c]) == seq![kata_to_hira(c)],
        0x3041 <= (kata_to_hira(c) as u32) && (kata_to_hira(c) as u32) <= 0x3096,
{
    lemma_single_readings_are_the_hiragana(kata_to_hira(c));
    assert(seq![c].map_values(|x: char| kata_to_hira(x)) =~= seq![kata_to_hira(c)]);
}

/// Every fallback is a defined reading of one character.
pub proof fn lemma_fallback_is_single_reading(c: char)
    ensures
        is_single_reading(fallback_char(c)),
{
}

/// A mora always becomes a non-empty kana reading that is either one defined
/// reading or a sequence of defined one-character readings: nothing undefined
/// ever leaves the conversion.
pub proof fn lemma_mora_reading_is_defined(mora: Seq<char>)
    ensures
        mora_to_hira(mora).len() > 0,
        is_reading(mora_to_hira(mora))
            || forall|i: int| 0 <= i < mora_to_hira(mora).len()
                ==> is_single_reading(#[trigger] mora_to_hira(mora)[i]),
{
    let r = mora_to_hira(mora);
    let h = mora.map_values(|c: char| kata_to_hira(c));
    if !is_reading(h) && h.len() > 0 {
        assert forall|i: int| 0 <= i < r.len() implies is_single_reading(#[trigger] r[i]) by {
            lemma_fallback_is_single_reading(h[i]);
        }
    }
}

proof fn lemma_reading_chars_are_kana(s: Seq<char>)
    requires
        is_reading(s),
    ensures
        s.map_values(|c: char| kata_to_hira(c)) == s,
{
    assert(s.map_values(|c: char| kata_to_hira(c)) =~= s);
}

/// Converting a converted mora again changes nothing: the reading of a mora is
/// already in AquesTalk 1.8 kana.
pub proof fn lemma_mora_reading_is_stable(mora: Seq<char>)
    ensures
        mora_to_hira(mora_to_hira(mora)) == mora_to_hira(mora),
{
    let r = mora_to_hira(mora);
    lemma_mora_reading_is_defined(mora);
    let h = r.map_values(|c: char| kata_to_hira(c));
    if is_reading(r) {
        lemma_reading_chars_are_kana(r);
    } else {
        assert(h =~= r) by {
            assert forall|i: int| 0 <= i < r.len() implies h[i] == r[i] by {
                assert(is_single_reading(r[i]));
                lemma_reading_chars_are_kana(seq![r[i]]);
                assert(seq![r[i]].map_values(|c: char| kata_to_hira(c))[0] == kata_to_hira(r[i]));
            }
        }
        assert(r.map_values(|c: char| safe_char(c)) =~= r);
    }
}

} // verus!
