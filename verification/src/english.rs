//! Replacing ASCII words with katakana readings before analysis.
use vstd::prelude::*;
use e2k::C2k;
use crate::text::{chars_of, string_of};

verus! {

#[verifier::external_type_specification]
#[verifier::external_body]
pub struct ExC2k(C2k);

/// The reading limit that an e2k `C2k` converter was built with: the most
/// tokens its decoder produces for one word.
pub uninterp spec fn c2k_reading_limit(model: C2k) -> nat;

/// `e2k::C2k::new` builds the English-to-katakana model that e2k embeds,
/// decoding greedily with readings of at most `max_len` characters. Stated:
/// the converter keeps `max_len` as its reading limit; nothing else of the
/// value, which is opaque here, is stated.
#[verifier::external_body]
pub(crate) fn new_c2k(max_len: usize) -> (r: C2k)
    ensures
        c2k_reading_limit(r) == max_len,
{
    C2k::new(max_len)
}

/// `e2k::C2k::infer` decodes a katakana reading for an English word with the
/// neural model. Stated: the decoder runs for at most the converter's reading
/// limit and writes one character per token after the start token, so the
/// reading is no longer than that limit. Which characters come back is not
/// stated: they are computed by the model in floating point, which can differ
/// between machines.
#[verifier::external_body]
pub(crate) fn c2k_infer(converter: &C2k, word: &str) -> (r: String)
    ensures
        r@.len() <= c2k_reading_limit(*converter),
{
    converter.infer(word)
}

/// `reading` is what the converter returned when it was asked, through
/// `c2k_infer`, for the reading of a string whose characters are `word`.
pub closed spec fn is_c2k_reading(converter: C2k, word: Seq<char>, reading: Seq<char>) -> bool {
    exists|w: &str, r: String|
        w@ == word && r@ == reading && #[trigger] call_ensures(c2k_infer, (&converter, w), r)
}

/// The lower-case form of a word.
pub open spec fn lower_word(word: Seq<char>) -> Seq<char> {
    word.map_values(|c: char| ascii_lower(c))
}

pub open spec fn is_ascii_alpha(c: char) -> bool {
    ('a' <= c && c <= 'z') || ('A' <= c && c <= 'Z')
}

pub open spec fn ascii_lower(c: char) -> char {
    if 'A' <= c && c <= 'Z' { ((c as u32) + 32) as char } else { c }
}

/// The words found so far and the word being read.
pub open spec fn word_fold(text: Seq<char>) -> (Seq<Seq<char>>, Seq<char>)
    decreases text.len(),
{
    if text.len() == 0 {
        (seq![], seq![])
    } else {
        let (words, word) = word_fold(text.drop_last());
        let c = text.last();
        if is_ascii_alpha(c) {
            (words, word.push(c))
        } else if word.len() > 0 {
            (words.push(word), seq![])
        } else {
            (words, seq![])
        }
    }
}

/// The maximal runs of ASCII letters in `text`, in order.
pub open spec fn ascii_words(text: Seq<char>) -> Seq<Seq<char>> {
    let (words, word) = word_fold(text);
    if word.len() > 0 { words.push(word) } else { words }
}

/// What replaces a word: its reading, or the word itself where the reading is
/// empty.
pub open spec fn pick(word: Seq<char>, reading: Seq<char>) -> Seq<char> {
    if reading.len() == 0 { word } else { reading }
}

pub struct KatState {
    pub out: Seq<char>,
    pub word: Seq<char>,
    pub used: nat,
}

/// The `k`-th reading, or nothing where there are fewer readings.
pub open spec fn reading_at(readings: Seq<Seq<char>>, k: nat) -> Seq<char> {
    if k < readings.len() { readings[k as int] } else { seq![] }
}

pub open spec fn kat_flush(st: KatState, readings: Seq<Seq<char>>) -> KatState {
    if st.word.len() == 0 {
        st
    } else {
        KatState { out: st.out + pick(st.word, reading_at(readings, st.used)), word: seq![], used: st.used + 1 }
    }
}

pub open spec fn kat_fold(text: Seq<char>, readings: Seq<Seq<char>>) -> KatState
    decreases text.len(),
{
    if text.len() == 0 {
        KatState { out: seq![], word: seq![], used: 0 }
    } else {
        let st = kat_fold(text.drop_last(), readings);
        let c = text.last();
        if is_ascii_alpha(c) {
            KatState { word: st.word.push(c), ..st }
        } else {
            let f = kat_flush(st, readings);
            KatState { out: f.out.push(c), ..f }
        }
    }
}

/// `text` with its `i`-th ASCII word replaced by `pick` of it and its
/// reading; every other character stays in place.
pub open spec fn katakanized(text: Seq<char>, readings: Seq<Seq<char>>) -> Seq<char> {
    kat_flush(kat_fold(text, readings), readings).out
}

/// Each ASCII word takes exactly one reading, in order: replacing the words of
/// `text` uses as many readings as `text` has words.
pub proof fn lemma_one_reading_per_word(text: Seq<char>, readings: Seq<Seq<char>>)
    ensures
        kat_flush(kat_fold(text, readings), readings).used == ascii_words(text).len(),
{
    lemma_kat_fold_words(text, readings);
}

proof fn lemma_kat_fold_words(text: Seq<char>, readings: Seq<Seq<char>>)
    ensures
        kat_fold(text, readings).used == word_fold(text).0.len(),
        kat_fold(text, readings).word == word_fold(text).1,
    decreases text.len(),
{
    if text.len() > 0 {
        lemma_kat_fold_words(text.drop_last(), readings);
    }
}

proof fn lemma_kat_fold_no_letters(text: Seq<char>, readings: Seq<Seq<char>>)
    requires
        forall|i: int| 0 <= i < text.len() ==> !is_ascii_alpha(#[trigger] text[i]),
    ensures
        kat_fold(text, readings) == (KatState { out: text, word: seq![], used: 0 }),
    decreases text.len(),
{
    if text.len() > 0 {
        let t0 = text.drop_last();
        assert forall|i: int| 0 <= i < t0.len() implies !is_ascii_alpha(#[trigger] t0[i]) by {
            assert(t0[i] == text[i]);
        }
        lemma_kat_fold_no_letters(t0, readings);
        assert(t0.push(text.last()) =~= text);
        assert(!is_ascii_alpha(text.last()));
    } else {
        assert(text =~= seq![]);
    }
}

/// Text without ASCII letters is left exactly as it is.
pub proof fn lemma_no_letters_unchanged(text: Seq<char>, readings: Seq<Seq<char>>)
    requires
        forall|i: int| 0 <= i < text.len() ==> !is_ascii_alpha(#[trigger] text[i]),
    ensures
        katakanized(text, readings) == text,
        ascii_words(text).len() == 0,
{
    lemma_kat_fold_no_letters(text, readings);
    lemma_word_fold_no_letters(text);
}

proof fn lemma_word_fold_no_letters(text: Seq<char>)
    requires
        forall|i: int| 0 <= i < text.len() ==> !is_ascii_alpha(#[trigger] text[i]),
    ensures
        word_fold(text).0.len() == 0,
        word_fold(text).1.len() == 0,
    decreases text.len(),
{
    if text.len() > 0 {
        let t0 = text.drop_last();
        assert forall|i: int| 0 <= i < t0.len() implies !is_ascii_alpha(#[trigger] t0[i]) by {
            assert(t0[i] == text[i]);
        }
        lemma_word_fold_no_letters(t0);
    }
}

proof fn lemma_kat_fold_keeps_text(text: Seq<char>, readings: Seq<Seq<char>>)
    requires
        forall|k: nat| #[trigger] reading_at(readings, k).len() == 0,
    ensures
        kat_fold(text, readings).out + kat_fold(text, readings).word == text,
    decreases text.len(),
{
    if text.len() > 0 {
        let t0 = text.drop_last();
        lemma_kat_fold_keeps_text(t0, readings);
        let st = kat_fold(t0, readings);
        assert(reading_at(readings, st.used).len() == 0);
        assert(t0.push(text.last()) =~= text);
        let st2 = kat_fold(text, readings);
        assert(st2.out + st2.word =~= text);
    }
}

/// Where no word has a reading, the text is left exactly as it is.
pub proof fn lemma_without_readings_unchanged(text: Seq<char>, readings: Seq<Seq<char>>)
    requires
        forall|k: nat| #[trigger] reading_at(readings, k).len() == 0,
    ensures
        katakanized(text, readings) == text,
{
    lemma_kat_fold_keeps_text(text, readings);
    let st = kat_fold(text, readings);
    assert(reading_at(readings, st.used).len() == 0);
    assert(katakanized(text, readings) =~= st.out + st.word);
}

/// The code point of an ASCII letter: U+0041 to U+005A or U+0061 to U+007A.
pub open spec fn is_letter_code(c: char) -> bool {
    (65 <= (c as u32) && (c as u32) <= 90) || (97 <= (c as u32) && (c as u32) <= 122)
}

proof fn lemma_letter_code_is_alpha(c: char)
    requires
        is_letter_code(c),
    ensures
        is_ascii_alpha(c),
{
    assert('a' as u32 == 97 && 'z' as u32 == 122 && 'A' as u32 == 65 && 'Z' as u32 == 90);
    assert((c as u32) >= 97 ==> 'a' <= c);
    assert((c as u32) <= 122 ==> c <= 'z');
    assert((c as u32) >= 65 ==> 'A' <= c);
    assert((c as u32) <= 90 ==> c <= 'Z');
}

proof fn lemma_letters_fold(text: Seq<char>, readings: Seq<Seq<char>>)
    requires
        forall|i: int| 0 <= i < text.len() ==> is_letter_code(#[trigger] text[i]),
    ensures
        word_fold(text) == (Seq::<Seq<char>>::empty(), text),
        kat_fold(text, readings) == (KatState { out: seq![], word: text, used: 0 }),
    decreases text.len(),
{
    if text.len() > 0 {
        let t0 = text.drop_last();
        assert forall|i: int| 0 <= i < t0.len() implies is_letter_code(#[trigger] t0[i]) by {
            assert(t0[i] == text[i]);
        }
        lemma_letters_fold(t0, readings);
        lemma_letter_code_is_alpha(text.last());
        assert(t0.push(text.last()) =~= text);
    } else {
        assert(text =~= seq![]);
    }
}

/// Every ASCII letter, `a` to `z` and `A` to `Z`, belongs to a word: a
/// non-empty text of ASCII letters alone is one word, replaced as a whole by
/// its reading (or kept where the reading is empty).
pub proof fn lemma_letters_form_one_word(text: Seq<char>, reading: Seq<char>)
    requires
        text.len() > 0,
        forall|i: int| 0 <= i < text.len() ==> is_letter_code(#[trigger] text[i]),
    ensures
        ascii_words(text) == seq![text],
        katakanized(text, seq![reading]) == pick(text, reading),
{
    lemma_letters_fold(text, seq![reading]);
    assert(ascii_words(text) =~= seq![text]);
    assert(reading_at(seq![reading], 0) == reading);
    assert(katakanized(text, seq![reading]) =~= pick(text, reading));
}

fn ascii_lowercase_char(c: char) -> (r: char)
    ensures
        r == ascii_lower(c),
{
    if 'A' <= c && c <= 'Z' {
        match core::char::from_u32((c as u32) + 32) {
            Some(l) => l,
            None => c,
        }
    } else {
        c
    }
}

fn is_ascii_alpha_char(c: char) -> (b: bool)
    ensures
        b == is_ascii_alpha(c),
{
    ('a' <= c && c <= 'z') || ('A' <= c && c <= 'Z')
}

/// The word in ASCII lower case.
pub fn ascii_lowercase(word: &[char]) -> (r: Vec<char>)
    ensures
        r@ == word@.map_values(|c: char| ascii_lower(c)),
{
    let mut r: Vec<char> = Vec::new();
    for i in 0..word.len()
        invariant
            r@ == word@.take(i as int).map_values(|c: char| ascii_lower(c)),
    {
        r.push(ascii_lowercase_char(word[i]));
        assert(word@.take(i + 1) == word@.take(i as int).push(word@[i as int]));
    }
    assert(word@.take(word.len() as int) == word@);
    r
}

pub open spec fn char_vec_models(v: Seq<Vec<char>>) -> Seq<Seq<char>> {
    v.map_values(|w: Vec<char>| w@)
}

pub open spec fn string_models(v: Seq<String>) -> Seq<Seq<char>> {
    v.map_values(|w: String| w@)
}

/// The ASCII words of `text`, in order.
pub fn collect_ascii_words(text: &[char]) -> (words: Vec<Vec<char>>)
    ensures
        char_vec_models(words@) == ascii_words(text@),
{
    let mut words: Vec<Vec<char>> = Vec::new();
    let mut word: Vec<char> = Vec::new();
    for i in 0..text.len()
        invariant
            (char_vec_models(words@), word@) == word_fold(text@.take(i as int)),
    {
        proof {
            assert(text@.take(i + 1).drop_last() == text@.take(i as int));
        }
        let c = text[i];
        if is_ascii_alpha_char(c) {
            word.push(c);
        } else if word.len() > 0 {
            let mut done: Vec<char> = Vec::new();
            core::mem::swap(&mut done, &mut word);
            let ghost before = words@;
            words.push(done);
            assert(char_vec_models(words@) =~= char_vec_models(before).push(done@));
        } else {
        }
        assert(word@ =~= word_fold(text@.take(i + 1)).1);
    }
    assert(text@.take(text.len() as int) == text@);
    if word.len() > 0 {
        let ghost before = words@;
        words.push(word);
        assert(char_vec_models(words@) =~= char_vec_models(before).push(word@));
    }
    words
}

fn flush_word(out: &mut Vec<char>, word: &mut Vec<char>, readings: &Vec<String>, used: usize)
    ensures
        final(out)@ == old(out)@ + pick(old(word)@, reading_at(string_models(readings@), used as nat)),
        final(word)@.len() == 0,
{
    let mut reading: Vec<char> = if used < readings.len() {
        chars_of(readings[used].as_str())
    } else {
        Vec::new()
    };
    if reading.len() == 0 {
        out.append(word);
    } else {
        out.append(&mut reading);
        *word = Vec::new();
    }
}

/// Replaces the ASCII words of `text`, in order, by the given readings; a word
/// whose reading is empty or missing stays as it is, and every other character
/// is kept.
pub fn katakanize_with_readings(text: &str, readings: &Vec<String>) -> (r: String)
    ensures
        r@ == katakanized(text@, string_models(readings@)),
{
    let chars = chars_of(text);
    let ghost rs = string_models(readings@);
    let mut out: Vec<char> = Vec::new();
    let mut word: Vec<char> = Vec::new();
    let mut used: usize = 0;
    for i in 0..chars.len()
        invariant
            chars@ == text@,
            rs == string_models(readings@),
            used <= i,
            (KatState { out: out@, word: word@, used: used as nat }) == kat_fold(chars@.take(i as int), rs),
    {
        proof {
            assert(chars@.take(i + 1).drop_last() == chars@.take(i as int));
        }
        let c = chars[i];
        if is_ascii_alpha_char(c) {
            word.push(c);
        } else {
            if word.len() > 0 {
                flush_word(&mut out, &mut word, readings, used);
                used = used + 1;
            }
            out.push(c);
        }
        assert(out@ =~= kat_fold(chars@.take(i + 1), rs).out);
        assert(word@ =~= kat_fold(chars@.take(i + 1), rs).word);
    }
    assert(chars@.take(chars.len() as int) == chars@);
    if word.len() > 0 {
        flush_word(&mut out, &mut word, readings, used);
    }
    string_of(&out)
}

/// Replaces each ASCII word of `text` with the katakana reading that e2k gives
/// for its lower-case form; a word for which e2k gives nothing stays as it is.
/// Reading `k` is what the converter returned for the lower-case form of the
/// `k`-th word, and no reading is longer than the converter's reading limit.
pub fn katakanize_ascii_words(text: &str, converter: &C2k) -> (r: String)
    ensures
        exists|readings: Seq<Seq<char>>|
            readings.len() == ascii_words(text@).len()
                && (forall|k: int| 0 <= k < readings.len() ==> (#[trigger] readings[k]).len()
                    <= c2k_reading_limit(*converter) && is_c2k_reading(
                    *converter,
                    lower_word(ascii_words(text@)[k]),
                    readings[k],
                ))
                && r@ == #[trigger] katakanized(text@, readings),
{
    let chars = chars_of(text);
    let words = collect_ascii_words(&chars);
    let mut readings: Vec<String> = Vec::new();
    for i in 0..words.len()
        invariant
            readings@.len() == i,
            char_vec_models(words@) == ascii_words(chars@),
            forall|k: int| 0 <= k < i ==> (#[trigger] string_models(readings@)[k]).len()
                <= c2k_reading_limit(*converter) && is_c2k_reading(
                *converter,
                lower_word(char_vec_models(words@)[k]),
                string_models(readings@)[k],
            ),
    {
        let lower = ascii_lowercase(&words[i]);
        let word = string_of(&lower);
        let infer = c2k_infer;
        let reading = infer(converter, word.as_str());
        proof {
            assert(char_vec_models(words@)[i as int] == words@[i as int]@);
            assert(is_c2k_reading(*converter, lower_word(char_vec_models(words@)[i as int]), reading@));
        }
        let ghost before = readings@;
        readings.push(reading);
        assert(string_models(readings@) =~= string_models(before).push(reading@));
    }
    assert(char_vec_models(words@).len() == words@.len());
    assert(chars@ == text@);
    let r = katakanize_with_readings(text, &readings);
    assert(r@ == katakanized(text@, string_models(readings@)));
    r
}

} // verus!
