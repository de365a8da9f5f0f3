//! Validation and normalisation of kana phoneme strings against the
//! AquesTalk 1.8 reading table and its sequencing restrictions.
use vstd::prelude::*;
use crate::mora::{
    is_single_reading, is_double_reading, is_single_reading_char,
    is_double_reading_chars, kata_to_hira, katakana_char_to_hiragana,
};
use crate::text::{chars_of, string_of, copy_chars, decimal, decimal_chars, append_chars};
use vstd::string::StringExecFns;

verus! {

/// The most readings that one accent phrase may hold.
pub const MAX_READINGS_PER_PHRASE: usize = 255;

// ---------------------------------------------------------------------------
// Model

/// One reading of an accent phrase: its plain reading, the text that is
/// written for it, whether it is written as a devoiced reading, and whether an
/// accent mark follows it.
pub struct TokenModel {
    pub normal: Seq<char>,
    pub rendered: Seq<char>,
    pub devoiced: bool,
    pub accent: bool,
}

/// What the scanner recognises at the front of the remaining input.
pub enum Lexeme {
    Delim(char),
    Accent,
    /// `_` followed by the katakana mora held here.
    Devoiced(Seq<char>),
    Reading(Seq<char>),
}

/// Why a kana phoneme string is refused.
pub enum SanitizeFailure {
    NoReadingBeforeDelimiter,
    NoReadingBeforeAccent,
    MultipleAccents,
    Undefined(Seq<char>),
    Unterminated,
    NoValidReading,
    TooManyReadings(nat),
}

pub open spec fn is_delimiter(c: char) -> bool {
    c == '。' || c == '？' || c == '、' || c == ',' || c == ';' || c == '/' || c == '+'
}

/// Katakana moras of one character that have a devoiced reading.
pub open spec fn is_devoiceable_single(c: char) -> bool {
    c == 'キ' || c == 'ク' || c == 'ヒ' || c == 'フ' || c == 'シ' || c == 'ス' || c == 'ピ'
    || c == 'プ' || c == 'チ' || c == 'ツ'
}

/// Katakana moras of two characters that have a devoiced reading.
pub open spec fn is_devoiceable_double(a: char, b: char) -> bool {
    (a == 'フ' && b == 'ィ') || (a == 'シ' && b == 'ュ') || (a == 'ス' && b == 'ィ')
    || (a == 'テ' && b == 'ィ') || (a == 'ト' && b == 'ゥ') || (a == 'チ' && b == 'ュ')
    || (a == 'ツ' && b == 'ィ')
}

/// A katakana mora that has a devoiced reading, written `_` and the mora.
pub open spec fn is_devoiceable(m: Seq<char>) -> bool {
    (m.len() == 1 && is_devoiceable_single(m[0]))
    || (m.len() == 2 && is_devoiceable_double(m[0], m[1]))
}

/// The devoiceable katakana mora of a devoiced reading at the front of `s`;
/// the longer one wins.
pub open spec fn devoiced_prefix(s: Seq<char>) -> Option<Seq<char>> {
    if s.len() >= 3 && s[0] == '_' && is_devoiceable_double(s[1], s[2]) {
        Some(s.subrange(1, 3))
    } else if s.len() >= 2 && s[0] == '_' && is_devoiceable_single(s[1]) {
        Some(s.subrange(1, 2))
    } else {
        None
    }
}

/// The defined reading at the front of `s`; the longer one wins.
pub open spec fn reading_prefix(s: Seq<char>) -> Option<Seq<char>> {
    if s.len() >= 2 && is_double_reading(s[0], s[1]) {
        Some(s.subrange(0, 2))
    } else if s.len() >= 1 && is_single_reading(s[0]) {
        Some(s.subrange(0, 1))
    } else {
        None
    }
}

/// The recognised item at the front of `s`, if there is one: a delimiter, an
/// accent mark, a devoiced reading or a reading, in that order of preference.
pub open spec fn next_lexeme(s: Seq<char>) -> Option<Lexeme> {
    if s.len() == 0 {
        None
    } else if is_delimiter(s[0]) {
        Some(Lexeme::Delim(s[0]))
    } else if s[0] == '\'' {
        Some(Lexeme::Accent)
    } else {
        match devoiced_prefix(s) {
            Some(m) => Some(Lexeme::Devoiced(m)),
            None => match reading_prefix(s) {
                Some(r) => Some(Lexeme::Reading(r)),
                None => None,
            },
        }
    }
}

/// How many characters a recognised item takes.
pub open spec fn lexeme_len(l: Lexeme) -> nat {
    match l {
        Lexeme::Delim(_) => 1,
        Lexeme::Accent => 1,
        Lexeme::Devoiced(m) => m.len() + 1,
        Lexeme::Reading(r) => r.len(),
    }
}

pub open spec fn plain_token(r: Seq<char>) -> TokenModel {
    TokenModel { normal: r, rendered: r, devoiced: false, accent: false }
}

pub open spec fn devoiced_token(m: Seq<char>) -> TokenModel {
    TokenModel {
        normal: m.map_values(|c: char| kata_to_hira(c)),
        rendered: seq!['_'] + m,
        devoiced: true,
        accent: false,
    }
}

pub open spec fn with_accent(t: TokenModel) -> TokenModel {
    TokenModel { accent: true, ..t }
}

pub open spec fn is_long_vowel(r: Seq<char>) -> bool {
    r.len() == 1 && r[0] == 'ー'
}

pub open spec fn is_sokuon(r: Seq<char>) -> bool {
    r.len() == 1 && r[0] == 'っ'
}

pub open spec fn has_accent(ts: Seq<TokenModel>) -> bool {
    exists|i: int| 0 <= i < ts.len() && (#[trigger] ts[i]).accent
}

pub open spec fn accent_count(ts: Seq<TokenModel>) -> nat
    decreases ts.len(),
{
    if ts.len() == 0 {
        0
    } else {
        accent_count(ts.drop_last()) + if ts.last().accent { 1nat } else { 0nat }
    }
}

/// Readings that may not follow a devoiced reading.
pub open spec fn is_forbidden_after_devoiced(r: Seq<char>) -> bool {
    (r.len() == 1 && {
        let c = r[0];
        c == 'ー' || c == 'あ' || c == 'い' || c == 'う' || c == 'え' || c == 'お' || c == 'ん'
        || c == 'や' || c == 'ゆ' || c == 'よ' || c == 'わ' || c == 'を' || c == 'だ' || c == 'で'
        || c == 'ど' || c == 'ば' || c == 'び' || c == 'ぶ' || c == 'べ' || c == 'ぼ' || c == 'が'
        || c == 'ぎ' || c == 'ぐ' || c == 'げ' || c == 'ご'
    }) || (r.len() == 2 && {
        let a = r[0];
        let b = r[1];
        (a == 'い' && b == 'ぇ')
        || (a == 'う' && (b == 'ぃ' || b == 'ぇ' || b == 'ぉ'))
        || ((a == 'び' || a == 'ぎ') && (b == 'ゃ' || b == 'ゅ' || b == 'ぇ' || b == 'ょ'))
        || (a == 'で' && (b == 'ぃ' || b == 'ゅ'))
        || (a == 'ど' && b == 'ぅ')
    })
}

/// First pass over a phrase: drops a leading prolonged sound, folds repeated
/// sokuon into one, and drops a prolonged sound right after a sokuon; an accent
/// on a folded or dropped reading moves to the sokuon that stays.
pub open spec fn drop_pass(ts: Seq<TokenModel>) -> Seq<TokenModel>
    decreases ts.len(),
{
    if ts.len() == 0 {
        seq![]
    } else {
        let prev = drop_pass(ts.drop_last());
        let t = ts.last();
        if prev.len() == 0 && is_long_vowel(t.normal) {
            prev
        } else if (is_sokuon(t.normal) || is_long_vowel(t.normal)) && prev.len() > 0
            && is_sokuon(prev.last().normal) {
            if t.accent {
                prev.update(prev.len() - 1, with_accent(prev.last()))
            } else {
                prev
            }
        } else {
            prev.push(t)
        }
    }
}

/// A sokuon that ends the phrase is opened into `つ`.
pub open spec fn close_last(ts: Seq<TokenModel>) -> Seq<TokenModel> {
    if ts.len() > 0 && is_sokuon(ts.last().normal) {
        ts.update(
            ts.len() - 1,
            TokenModel { normal: seq!['つ'], rendered: seq!['つ'], devoiced: false, ..ts.last() },
        )
    } else {
        ts
    }
}

pub open spec fn undevoice(t: TokenModel) -> TokenModel {
    TokenModel { rendered: t.normal, devoiced: false, ..t }
}

/// A devoiced reading followed by a reading that may not follow one is written
/// as its plain reading.
pub open spec fn devoice_pass(ts: Seq<TokenModel>) -> Seq<TokenModel> {
    Seq::new(
        ts.len(),
        |i: int|
            if ts[i].devoiced && i + 1 < ts.len() && is_forbidden_after_devoiced(ts[i + 1].normal) {
                undevoice(ts[i])
            } else {
                ts[i]
            },
    )
}

pub open spec fn render_token(t: TokenModel) -> Seq<char> {
    if t.accent { t.rendered.push('\'') } else { t.rendered }
}

pub open spec fn render(ts: Seq<TokenModel>) -> Seq<char>
    decreases ts.len(),
{
    if ts.len() == 0 {
        seq![]
    } else {
        render(ts.drop_last()) + render_token(ts.last())
    }
}

/// The normalised text of one accent phrase, or why it is refused.
pub open spec fn normalize(phrase: Seq<TokenModel>) -> Result<Seq<char>, SanitizeFailure> {
    let dropped = drop_pass(phrase);
    if dropped.len() == 0 {
        Err(SanitizeFailure::NoValidReading)
    } else {
        let ts = devoice_pass(close_last(dropped));
        if ts.len() > MAX_READINGS_PER_PHRASE {
            Err(SanitizeFailure::TooManyReadings(ts.len()))
        } else if accent_count(ts) > 1 {
            Err(SanitizeFailure::MultipleAccents)
        } else {
            Ok(render(ts))
        }
    }
}

/// The scanner: `rest` is what is left of the input, `out` the normalised text
/// of the phrases closed so far, `phrase` the readings of the open phrase.
pub open spec fn scan(rest: Seq<char>, out: Seq<char>, phrase: Seq<TokenModel>) -> Result<
    Seq<char>,
    SanitizeFailure,
>
    decreases rest.len(),
{
    if rest.len() == 0 {
        if phrase.len() > 0 {
            Err(SanitizeFailure::Unterminated)
        } else if out.len() == 0 {
            Err(SanitizeFailure::NoValidReading)
        } else {
            Ok(out)
        }
    } else {
        match next_lexeme(rest) {
            None => Err(SanitizeFailure::Undefined(rest)),
            Some(l) => {
                let tail = rest.skip(lexeme_len(l) as int);
                match l {
                    Lexeme::Delim(d) => {
                        if phrase.len() == 0 {
                            Err(SanitizeFailure::NoReadingBeforeDelimiter)
                        } else {
                            match normalize(phrase) {
                                Ok(text) => scan(tail, out + text.push(d), seq![]),
                                Err(e) => Err(e),
                            }
                        }
                    },
                    Lexeme::Accent => {
                        if phrase.len() == 0 {
                            Err(SanitizeFailure::NoReadingBeforeAccent)
                        } else if has_accent(phrase) {
                            Err(SanitizeFailure::MultipleAccents)
                        } else {
                            scan(tail, out, phrase.update(phrase.len() - 1, with_accent(phrase.last())))
                        }
                    },
                    Lexeme::Devoiced(m) => scan(tail, out, phrase.push(devoiced_token(m))),
                    Lexeme::Reading(r) => scan(tail, out, phrase.push(plain_token(r))),
                }
            },
        }
    }
}

/// The message that explains a refusal.
pub open spec fn failure_message(f: SanitizeFailure) -> Seq<char> {
    match f {
        SanitizeFailure::NoReadingBeforeDelimiter => "句切記号の前に有効な読み記号がありません"@,
        SanitizeFailure::NoReadingBeforeAccent => "アクセント記号の前に読み記号がありません"@,
        SanitizeFailure::MultipleAccents => "1つのアクセント句に複数のアクセント記号があります"@,
        SanitizeFailure::Undefined(rest) => "AquesTalk 1.8 に未定義の読み記号またはタグが含まれています: "@ + rest,
        SanitizeFailure::Unterminated => "音声記号列の末尾に句切記号がありません"@,
        SanitizeFailure::NoValidReading => "AquesTalk 1.8 で有効な読み記号がありません"@,
        SanitizeFailure::TooManyReadings(n) => "AquesTalk 1.8 の1アクセント句あたりの読み記号上限を超えています: "@
            + decimal(n) + " > "@ + decimal(MAX_READINGS_PER_PHRASE as nat),
    }
}

/// What sanitising `input` gives.
pub open spec fn sanitized(input: Seq<char>) -> Result<Seq<char>, SanitizeFailure> {
    scan(input, seq![], seq![])
}

// ---------------------------------------------------------------------------
// Implementation

/// Why a kana phoneme string is refused, as returned by the scanner.
pub enum SanitizeError {
    NoReadingBeforeDelimiter,
    NoReadingBeforeAccent,
    MultipleAccents,
    Undefined(Vec<char>),
    Unterminated,
    NoValidReading,
    TooManyReadings(usize),
}

impl View for SanitizeError {
    type V = SanitizeFailure;

    open spec fn view(&self) -> SanitizeFailure {
        match self {
            SanitizeError::NoReadingBeforeDelimiter => SanitizeFailure::NoReadingBeforeDelimiter,
            SanitizeError::NoReadingBeforeAccent => SanitizeFailure::NoReadingBeforeAccent,
            SanitizeError::MultipleAccents => SanitizeFailure::MultipleAccents,
            SanitizeError::Undefined(rest) => SanitizeFailure::Undefined(rest@),
            SanitizeError::Unterminated => SanitizeFailure::Unterminated,
            SanitizeError::NoValidReading => SanitizeFailure::NoValidReading,
            SanitizeError::TooManyReadings(n) => SanitizeFailure::TooManyReadings(*n as nat),
        }
    }
}

struct KanaToken {
    normal: Vec<char>,
    rendered: Vec<char>,
    devoiced: bool,
    accent_after: bool,
}

impl View for KanaToken {
    type V = TokenModel;

    closed spec fn view(&self) -> TokenModel {
        TokenModel {
            normal: self.normal@,
            rendered: self.rendered@,
            devoiced: self.devoiced,
            accent: self.accent_after,
        }
    }
}

spec fn models(v: Seq<KanaToken>) -> Seq<TokenModel> {
    v.map_values(|t: KanaToken| t@)
}

impl KanaToken {
    fn normal(reading: &[char]) -> (r: KanaToken)
        ensures
            r@ == plain_token(reading@),
    {
        KanaToken {
            normal: copy_chars(reading),
            rendered: copy_chars(reading),
            devoiced: false,
            accent_after: false,
        }
    }

    fn devoiced(mora: &[char]) -> (r: KanaToken)
        ensures
            r@ == devoiced_token(mora@),
    {
        let mut normal: Vec<char> = Vec::new();
        let mut rendered: Vec<char> = vec!['_'];
        for i in 0..mora.len()
            invariant
                normal@ == mora@.take(i as int).map_values(|c: char| kata_to_hira(c)),
                rendered@ == seq!['_'] + mora@.take(i as int),
        {
            normal.push(katakana_char_to_hiragana(mora[i]));
            rendered.push(mora[i]);
            assert(mora@.take(i + 1) == mora@.take(i as int).push(mora@[i as int]));
        }
        assert(mora@.take(mora.len() as int) == mora@);
        KanaToken { normal, rendered, devoiced: true, accent_after: false }
    }

    fn copy(&self) -> (r: KanaToken)
        ensures
            r@ == self@,
    {
        KanaToken {
            normal: copy_chars(&self.normal),
            rendered: copy_chars(&self.rendered),
            devoiced: self.devoiced,
            accent_after: self.accent_after,
        }
    }

    fn disable_devoicing(&mut self)
        ensures
            final(self)@ == undevoice(old(self)@),
    {
        self.devoiced = false;
        self.rendered = copy_chars(&self.normal);
    }
}

fn is_delimiter_char(c: char) -> (r: bool)
    ensures
        r == is_delimiter(c),
{
    c == '。' || c == '？' || c == '、' || c == ',' || c == ';' || c == '/' || c == '+'
}

fn is_long_vowel_chars(r: &[char]) -> (b: bool)
    ensures
        b == is_long_vowel(r@),
{
    r.len() == 1 && r[0] == 'ー'
}

fn is_sokuon_chars(r: &[char]) -> (b: bool)
    ensures
        b == is_sokuon(r@),
{
    r.len() == 1 && r[0] == 'っ'
}

fn forbidden_after_devoiced(r: &[char]) -> (b: bool)
    ensures
        b == is_forbidden_after_devoiced(r@),
{
    if r.len() == 1 {
        let c = r[0];
        c == 'ー' || c == 'あ' || c == 'い' || c == 'う' || c == 'え' || c == 'お' || c == 'ん'
        || c == 'や' || c == 'ゆ' || c == 'よ' || c == 'わ' || c == 'を' || c == 'だ' || c == 'で'
        || c == 'ど' || c == 'ば' || c == 'び' || c == 'ぶ' || c == 'べ' || c == 'ぼ' || c == 'が'
        || c == 'ぎ' || c == 'ぐ' || c == 'げ' || c == 'ご'
    } else if r.len() == 2 {
        let a = r[0];
        let b = r[1];
        (a == 'い' && b == 'ぇ')
        || (a == 'う' && (b == 'ぃ' || b == 'ぇ' || b == 'ぉ'))
        || ((a == 'び' || a == 'ぎ') && (b == 'ゃ' || b == 'ゅ' || b == 'ぇ' || b == 'ょ'))
        || (a == 'で' && (b == 'ぃ' || b == 'ゅ'))
        || (a == 'ど' && b == 'ぅ')
    } else {
        false
    }
}

proof fn lemma_models_push(v: Seq<KanaToken>, t: KanaToken)
    ensures
        models(v.push(t)) == models(v).push(t@),
{
    assert(models(v.push(t)) =~= models(v).push(t@));
}

proof fn lemma_models_drop_last(v: Seq<KanaToken>)
    requires
        v.len() > 0,
    ensures
        models(v.drop_last()) == models(v).drop_last(),
        models(v).last() == v.last()@,
{
    assert(models(v.drop_last()) =~= models(v).drop_last());
}

fn has_accent_tokens(phrase: &Vec<KanaToken>) -> (b: bool)
    ensures
        b == has_accent(models(phrase@)),
{
    for i in 0..phrase.len()
        invariant
            forall|k: int| 0 <= k < i ==> !(#[trigger] models(phrase@)[k]).accent,
    {
        if phrase[i].accent_after {
            assert(models(phrase@)[i as int].accent);
            return true;
        }
    }
    false
}

fn accent_total(ts: &Vec<KanaToken>) -> (n: usize)
    ensures
        n == accent_count(models(ts@)),
{
    let mut n: usize = 0;
    for i in 0..ts.len()
        invariant
            n == accent_count(models(ts@).take(i as int)),
            n <= i,
    {
        proof {
            assert(models(ts@).take(i + 1).drop_last() == models(ts@).take(i as int));
        }
        if ts[i].accent_after {
            n = n + 1;
        }
    }
    assert(models(ts@).take(ts.len() as int) == models(ts@));
    n
}

fn render_tokens(ts: &Vec<KanaToken>) -> (out: Vec<char>)
    ensures
        out@ == render(models(ts@)),
{
    let mut out: Vec<char> = Vec::new();
    for i in 0..ts.len()
        invariant
            out@ == render(models(ts@).take(i as int)),
    {
        proof {
            assert(models(ts@).take(i + 1).drop_last() == models(ts@).take(i as int));
        }
        let mut piece = copy_chars(&ts[i].rendered);
        if ts[i].accent_after {
            piece.push('\'');
        }
        out.append(&mut piece);
    }
    assert(models(ts@).take(ts.len() as int) == models(ts@));
    out
}

fn normalize_phrase(tokens: &Vec<KanaToken>) -> (r: Result<Vec<char>, SanitizeError>)
    ensures
        match r {
            Ok(v) => normalize(models(tokens@)) == Ok::<Seq<char>, SanitizeFailure>(v@),
            Err(e) => normalize(models(tokens@)) == Err::<Seq<char>, SanitizeFailure>(e@),
        },
{
    let ghost ms = models(tokens@);
    let mut normalized: Vec<KanaToken> = Vec::new();
    for i in 0..tokens.len()
        invariant
            ms == models(tokens@),
            models(normalized@) == drop_pass(ms.take(i as int)),
    {
        let t = tokens[i].copy();
        proof {
            assert(ms.take(i + 1).drop_last() == ms.take(i as int));
            assert(ms.take(i + 1).last() == t@);
        }
        let prev_sokuon = normalized.len() > 0
            && is_sokuon_chars(&normalized[normalized.len() - 1].normal);
        proof {
            if normalized.len() > 0 {
                lemma_models_drop_last(normalized@);
            }
        }
        if normalized.len() == 0 && is_long_vowel_chars(&t.normal) {
        } else if (is_sokuon_chars(&t.normal) || is_long_vowel_chars(&t.normal)) && prev_sokuon {
            if t.accent_after {
                let ghost before = normalized@;
                let mut last = normalized.pop().unwrap();
                last.accent_after = true;
                proof {
                    lemma_models_push(normalized@, last);
                    assert(normalized@ == before.drop_last());
                }
                normalized.push(last);
                proof {
                    assert(models(normalized@) =~= models(before).update(
                        models(before).len() - 1,
                        with_accent(models(before).last()),
                    ));
                }
            }
        } else {
            proof {
                lemma_models_push(normalized@, t);
            }
            normalized.push(t);
        }
    }
    assert(ms.take(tokens.len() as int) == ms);
    if normalized.len() == 0 {
        return Err(SanitizeError::NoValidReading);
    }
    let ghost dropped = models(normalized@);
    if is_sokuon_chars(&normalized[normalized.len() - 1].normal) {
        let ghost before = normalized@;
        proof {
            lemma_models_drop_last(before);
        }
        let mut last = normalized.pop().unwrap();
        last.normal = vec!['つ'];
        last.rendered = vec!['つ'];
        last.devoiced = false;
        proof {
            assert(last.normal@ =~= seq!['つ']);
            assert(last.rendered@ =~= seq!['つ']);
            lemma_models_push(normalized@, last);
            assert(normalized@ == before.drop_last());
        }
        normalized.push(last);
        proof {
            assert(models(normalized@) =~= close_last(dropped));
        }
    } else {
        proof {
            lemma_models_drop_last(normalized@);
        }
    }
    let ghost closed = models(normalized@);
    assert(closed == close_last(dropped));
    let n = normalized.len();
    for index in 0..n - 1
        invariant
            n == normalized.len(),
            n > 0,
            closed.len() == n,
            models(normalized@) == Seq::new(
                n as nat,
                |k: int| if k < index { devoice_pass(closed)[k] } else { closed[k] },
            ),
    {
        let ghost before = normalized@;
        proof {
            assert(models(before)[index as int] == closed[index as int]);
            assert(models(before)[index + 1] == closed[index + 1]);
        }
        if normalized[index].devoiced && forbidden_after_devoiced(&normalized[index + 1].normal) {
            let mut t = normalized[index].copy();
            t.disable_devoicing();
            normalized.set(index, t);
            proof {
                assert(models(normalized@) =~= models(before).update(index as int, t@));
            }
        }
        proof {
            assert(models(normalized@) =~= Seq::new(
                n as nat,
                |k: int| if k < index + 1 { devoice_pass(closed)[k] } else { closed[k] },
            ));
        }
    }
    proof {
        assert(models(normalized@) =~= devoice_pass(closed));
    }
    if normalized.len() > MAX_READINGS_PER_PHRASE {
        return Err(SanitizeError::TooManyReadings(normalized.len()));
    }
    if accent_total(&normalized) > 1 {
        return Err(SanitizeError::MultipleAccents);
    }
    Ok(render_tokens(&normalized))
}

fn is_devoiceable_single_char(c: char) -> (b: bool)
    ensures
        b == is_devoiceable_single(c),
{
    c == 'キ' || c == 'ク' || c == 'ヒ' || c == 'フ' || c == 'シ' || c == 'ス' || c == 'ピ'
    || c == 'プ' || c == 'チ' || c == 'ツ'
}

fn is_devoiceable_double_chars(a: char, b: char) -> (r: bool)
    ensures
        r == is_devoiceable_double(a, b),
{
    (a == 'フ' && b == 'ィ') || (a == 'シ' && b == 'ュ') || (a == 'ス' && b == 'ィ')
    || (a == 'テ' && b == 'ィ') || (a == 'ト' && b == 'ゥ') || (a == 'チ' && b == 'ュ')
    || (a == 'ツ' && b == 'ィ')
}

fn copy_from(v: &[char], pos: usize) -> (r: Vec<char>)
    requires
        pos <= v.len(),
    ensures
        r@ == v@.skip(pos as int),
{
    let mut r: Vec<char> = Vec::new();
    let mut i = pos;
    while i < v.len()
        invariant
            pos <= i <= v.len(),
            r@ == v@.subrange(pos as int, i as int),
        decreases v.len() - i,
    {
        r.push(v[i]);
        assert(v@.subrange(pos as int, i + 1) == v@.subrange(pos as int, i as int).push(v@[i as int]));
        i = i + 1;
    }
    assert(v@.subrange(pos as int, v.len() as int) == v@.skip(pos as int));
    r
}

fn take_delimiter(input: &[char], pos: usize) -> (r: Option<char>)
    requires
        pos < input.len(),
    ensures
        r == (if is_delimiter(input@[pos as int]) { Some(input@[pos as int]) } else { None }),
{
    let c = input[pos];
    if is_delimiter_char(c) {
        Some(c)
    } else {
        None
    }
}

/// The devoiced reading at `pos`, with the number of characters it takes.
fn take_devoiced(input: &[char], pos: usize) -> (r: Option<(KanaToken, usize)>)
    requires
        pos < input.len(),
    ensures
        match r {
            Some((t, len)) => devoiced_prefix(input@.skip(pos as int)) is Some
                && t@ == devoiced_token(devoiced_prefix(input@.skip(pos as int))->0)
                && len == devoiced_prefix(input@.skip(pos as int))->0.len() + 1,
            None => devoiced_prefix(input@.skip(pos as int)) is None,
        },
{
    let ghost rest = input@.skip(pos as int);
    let n = input.len();
    if input[pos] != '_' {
        return None;
    }
    if n - pos >= 3 && is_devoiceable_double_chars(input[pos + 1], input[pos + 2]) {
        let m = vec![input[pos + 1], input[pos + 2]];
        assert(m@ =~= rest.subrange(1, 3));
        return Some((KanaToken::devoiced(&m), 3));
    }
    if n - pos >= 2 && is_devoiceable_single_char(input[pos + 1]) {
        let m = vec![input[pos + 1]];
        assert(m@ =~= rest.subrange(1, 2));
        return Some((KanaToken::devoiced(&m), 2));
    }
    None
}

/// The defined reading at `pos`, with the number of characters it takes.
fn take_reading(input: &[char], pos: usize) -> (r: Option<(KanaToken, usize)>)
    requires
        pos < input.len(),
    ensures
        match r {
            Some((t, len)) => reading_prefix(input@.skip(pos as int)) is Some
                && t@ == plain_token(reading_prefix(input@.skip(pos as int))->0)
                && len == reading_prefix(input@.skip(pos as int))->0.len(),
            None => reading_prefix(input@.skip(pos as int)) is None,
        },
{
    let ghost rest = input@.skip(pos as int);
    let n = input.len();
    if n - pos >= 2 && is_double_reading_chars(input[pos], input[pos + 1]) {
        let r = vec![input[pos], input[pos + 1]];
        assert(r@ =~= rest.subrange(0, 2));
        return Some((KanaToken::normal(&r), 2));
    }
    if is_single_reading_char(input[pos]) {
        let r = vec![input[pos]];
        assert(r@ =~= rest.subrange(0, 1));
        return Some((KanaToken::normal(&r), 1));
    }
    None
}

/// Validates and normalises a kana phoneme string given as characters.
pub fn sanitize_chars(input: &[char]) -> (r: Result<Vec<char>, SanitizeError>)
    ensures
        match r {
            Ok(v) => sanitized(input@) == Ok::<Seq<char>, SanitizeFailure>(v@),
            Err(e) => sanitized(input@) == Err::<Seq<char>, SanitizeFailure>(e@),
        },
{
    let n = input.len();
    let mut out: Vec<char> = Vec::new();
    let mut phrase: Vec<KanaToken> = Vec::new();
    let mut pos: usize = 0;
    assert(input@.skip(0) == input@);
    assert(models(phrase@) =~= Seq::<TokenModel>::empty());
    assert(out@ =~= Seq::<char>::empty());
    while pos < n
        invariant
            n == input.len(),
            pos <= n,
            scan(input@.skip(pos as int), out@, models(phrase@)) == sanitized(input@),
        decreases n - pos,
    {
        let ghost rest = input@.skip(pos as int);
        let c = input[pos];
        assert(rest[0] == c);
        if let Some(delimiter) = take_delimiter(input, pos) {
            if phrase.len() == 0 {
                return Err(SanitizeError::NoReadingBeforeDelimiter);
            }
            match normalize_phrase(&phrase) {
                Ok(mut text) => {
                    out.append(&mut text);
                    out.push(delimiter);
                    phrase = Vec::new();
                    assert(models(phrase@) =~= Seq::<TokenModel>::empty());
                    assert(rest.skip(1) =~= input@.skip(pos + 1));
                    pos = pos + 1;
                },
                Err(e) => {
                    return Err(e);
                },
            }
        } else if c == '\'' {
            if phrase.len() == 0 {
                return Err(SanitizeError::NoReadingBeforeAccent);
            }
            if has_accent_tokens(&phrase) {
                return Err(SanitizeError::MultipleAccents);
            }
            let ghost before = phrase@;
            proof {
                lemma_models_drop_last(before);
            }
            let mut last = phrase.pop().unwrap();
            last.accent_after = true;
            proof {
                lemma_models_push(phrase@, last);
                assert(phrase@ == before.drop_last());
            }
            phrase.push(last);
            proof {
                assert(models(phrase@) =~= models(before).update(
                    models(before).len() - 1,
                    with_accent(models(before).last()),
                ));
                assert(rest.skip(1) =~= input@.skip(pos + 1));
            }
            pos = pos + 1;
        } else {
            match take_devoiced(input, pos) {
                Some((t, len)) => {
                    proof {
                        lemma_models_push(phrase@, t);
                        assert(rest.skip(len as int) =~= input@.skip(pos + len));
                    }
                    phrase.push(t);
                    pos = pos + len;
                },
                None => match take_reading(input, pos) {
                    Some((t, len)) => {
                        proof {
                            lemma_models_push(phrase@, t);
                            assert(rest.skip(len as int) =~= input@.skip(pos + len));
                        }
                        phrase.push(t);
                        pos = pos + len;
                    },
                    None => {
                        return Err(SanitizeError::Undefined(copy_from(input, pos)));
                    },
                },
            }
        }
    }
    if phrase.len() > 0 {
        return Err(SanitizeError::Unterminated);
    }
    if out.len() == 0 {
        return Err(SanitizeError::NoValidReading);
    }
    Ok(out)
}

impl SanitizeError {
    /// The message that explains the refusal.
    pub fn message(&self) -> (m: String)
        ensures
            m@ == failure_message(self@),
    {
        match self {
            SanitizeError::NoReadingBeforeDelimiter => String::from_str("句切記号の前に有効な読み記号がありません"),
            SanitizeError::NoReadingBeforeAccent => String::from_str("アクセント記号の前に読み記号がありません"),
            SanitizeError::MultipleAccents => String::from_str("1つのアクセント句に複数のアクセント記号があります"),
            SanitizeError::Undefined(rest) => {
                let mut m = String::from_str("AquesTalk 1.8 に未定義の読み記号またはタグが含まれています: ");
                append_chars(&mut m, rest);
                m
            },
            SanitizeError::Unterminated => String::from_str("音声記号列の末尾に句切記号がありません"),
            SanitizeError::NoValidReading => String::from_str("AquesTalk 1.8 で有効な読み記号がありません"),
            SanitizeError::TooManyReadings(n) => {
                let mut m = String::from_str("AquesTalk 1.8 の1アクセント句あたりの読み記号上限を超えています: ");
                append_chars(&mut m, &decimal_chars(*n));
                m.append(" > ");
                append_chars(&mut m, &decimal_chars(MAX_READINGS_PER_PHRASE));
                m
            },
        }
    }
}

/// Validates a kana phoneme string against the AquesTalk 1.8 reading table and
/// its sequencing rules, and normalises what can be normalised safely.
///
/// Undefined readings and tags are refused rather than passed on. Within each
/// accent phrase a leading prolonged sound is dropped, repeated sokuon are
/// folded, a prolonged sound after a sokuon is dropped, a final sokuon becomes
/// `つ`, and a devoiced reading before a reading that may not follow one loses
/// its devoicing. A phrase of more than 255 readings is refused, never split.
pub fn sanitize_kana(input: &str) -> (r: Result<String, String>)
    ensures
        match r {
            Ok(s) => sanitized(input@) == Ok::<Seq<char>, SanitizeFailure>(s@),
            Err(m) => sanitized(input@) is Err && m@ == failure_message(
                sanitized(input@)->Err_0,
            ),
        },
{
    let chars = chars_of(input);
    match sanitize_chars(&chars) {
        Ok(v) => Ok(string_of(&v)),
        Err(e) => Err(e.message()),
    }
}

} // verus!
