//! Building an AquesTalk phoneme string from analysed word nodes.
use vstd::prelude::*;
use crate::mora::{mora_to_hira, mora_chars_to_hiragana};
use crate::aquestalk::{
    is_delimiter, next_lexeme, render, sanitized, Lexeme, SanitizeFailure, TokenModel,
    is_devoiceable_single, devoiced_token, accent_count,
};
use crate::mora::kata_to_hira;
use crate::normal_form::{
    is_normal_phrase, lemma_scan_normal_parts, render_parts, is_valid_token, all_valid,
};
use crate::phoneme::{
    devoiced_kana_of, devoiced_roman_of, mora_roman, doubling_consonant, devoiced_kana,
    devoiced_roman, katakana_mora_to_roman, get_doubling_consonant,
};
use crate::text::{chars_of, string_of, copy_chars};

verus! {

/// The notation of a phoneme string.
#[derive(Debug, Clone, Copy, PartialEq, Eq, Structural)]
pub enum OutputFormat {
    /// Hiragana with half-width marks, the standard AquesTalk input.
    Kana,
    /// ASCII roman notation as AquesTalk pico reads it.
    Roman,
}

/// The mark placed after an accent phrase.
#[derive(Debug, Clone, Copy, PartialEq, Eq, Structural)]
pub enum Delimiter {
    /// End of a sentence: `。` or `.`.
    Period,
    /// End of a question: `？` or `?`.
    Question,
    /// A pause inside a sentence: `、` or `,`.
    Comma,
    /// `;`.
    Semicolon,
    /// Plain boundary between accent phrases: `/`.
    Slash,
    /// Secondary boundary between accent phrases: `+`.
    Plus,
}

/// What the conversion reads of one analysed word node.
#[derive(Debug, Clone)]
pub struct NodeData {
    /// The surface text, used to recognise symbols.
    pub original: String,
    /// The katakana moras of the pronunciation with their voicing; `false`
    /// marks a devoiced mora.
    pub pron_moras: Vec<(String, bool)>,
    /// Accent position; `0` is a flat accent.
    pub accent: usize,
    /// Whether the node joins the accent phrase of the node before it.
    pub chain_with_prev: bool,
    /// Whether the pronunciation is empty.
    pub is_pron_empty: bool,
    /// Whether the node is a comma or period mark.
    pub is_touten: bool,
    /// Whether the node is a question mark.
    pub is_question: bool,
}

// ---------------------------------------------------------------------------
// Model

pub struct NodeModel {
    pub original: Seq<char>,
    pub moras: Seq<(Seq<char>, bool)>,
    pub accent: nat,
    pub chain: bool,
    pub pron_empty: bool,
    pub touten: bool,
    pub question: bool,
}

pub open spec fn mora_pair_models(v: Seq<(String, bool)>) -> Seq<(Seq<char>, bool)> {
    v.map_values(|p: (String, bool)| (p.0@, p.1))
}

impl View for NodeData {
    type V = NodeModel;

    open spec fn view(&self) -> NodeModel {
        NodeModel {
            original: self.original@,
            moras: mora_pair_models(self.pron_moras@),
            accent: self.accent as nat,
            chain: self.chain_with_prev,
            pron_empty: self.is_pron_empty,
            touten: self.is_touten,
            question: self.is_question,
        }
    }
}

pub open spec fn node_models(v: Seq<NodeData>) -> Seq<NodeModel> {
    v.map_values(|n: NodeData| n@)
}

/// An accent phrase: its moras with their voicing, and its accent position.
pub struct PhraseModel {
    pub moras: Seq<(Seq<char>, bool)>,
    pub accent: nat,
}

pub enum ItemModel {
    Phrase(PhraseModel),
    Delim(Delimiter),
}

pub open spec fn delimiter_char(d: Delimiter, format: OutputFormat) -> char {
    match d {
        Delimiter::Period => if format == OutputFormat::Kana { '。' } else { '.' },
        Delimiter::Question => if format == OutputFormat::Kana { '？' } else { '?' },
        Delimiter::Comma => if format == OutputFormat::Kana { '、' } else { ',' },
        Delimiter::Semicolon => ';',
        Delimiter::Slash => '/',
        Delimiter::Plus => '+',
    }
}

pub open spec fn is_pause(d: Delimiter) -> bool {
    d == Delimiter::Period || d == Delimiter::Question || d == Delimiter::Comma
}

pub open spec fn is_end_of_sentence(d: Delimiter) -> bool {
    d == Delimiter::Period || d == Delimiter::Question
}

/// The delimiter that a symbol without pronunciation stands for.
pub open spec fn pronless_symbol(s: Seq<char>) -> Option<Delimiter> {
    if s.len() != 1 {
        None
    } else {
        let c = s[0];
        if c == '。' || c == '.' || c == '．' || c == '！' || c == '!' || c == '…' || c == '⋯' {
            Some(Delimiter::Period)
        } else if c == '、' || c == '，' || c == '　' || c == ' ' {
            Some(Delimiter::Comma)
        } else if c == '？' || c == '?' {
            Some(Delimiter::Question)
        } else {
            None
        }
    }
}

/// The delimiter that an ASCII symbol stands for.
pub open spec fn ascii_symbol(s: Seq<char>) -> Option<Delimiter> {
    if s.len() != 1 {
        None
    } else {
        let c = s[0];
        if c == '.' || c == '!' {
            Some(Delimiter::Period)
        } else if c == ',' || c == ' ' {
            Some(Delimiter::Comma)
        } else if c == '?' {
            Some(Delimiter::Question)
        } else {
            None
        }
    }
}

/// The delimiter that a node stands for, if it stands for one.
pub open spec fn node_delimiter(n: NodeModel) -> Option<Delimiter> {
    if n.question {
        Some(Delimiter::Question)
    } else if n.touten || n.pron_empty {
        match pronless_symbol(n.original) {
            Some(d) => Some(d),
            None => if n.touten { Some(Delimiter::Comma) } else { None },
        }
    } else if n.moras.len() == 0 {
        ascii_symbol(n.original)
    } else {
        None
    }
}

pub open spec fn is_prolonged_only(moras: Seq<(Seq<char>, bool)>) -> bool {
    forall|i: int| 0 <= i < moras.len() ==> (#[trigger] moras[i]).0 == seq!['ー']
}

/// The state of the phrase builder: finished items, the moras of the open
/// phrase, and the accent of the open phrase.
pub struct BuildState {
    pub items: Seq<ItemModel>,
    pub cur: Seq<(Seq<char>, bool)>,
    pub accent: nat,
}

/// The items with the open phrase closed, if it has moras.
pub open spec fn flushed(st: BuildState) -> Seq<ItemModel> {
    if st.cur.len() == 0 {
        st.items
    } else {
        st.items.push(ItemModel::Phrase(PhraseModel { moras: st.cur, accent: st.accent }))
    }
}

/// One node through the phrase builder.
pub open spec fn build_step(st: BuildState, n: NodeModel) -> BuildState {
    match node_delimiter(n) {
        Some(d) => BuildState { items: flushed(st).push(ItemModel::Delim(d)), cur: seq![], ..st },
        None => {
            if n.pron_empty || n.moras.len() == 0 {
                st
            } else if is_prolonged_only(n.moras) {
                if st.cur.len() > 0 {
                    BuildState { cur: st.cur + n.moras, ..st }
                } else {
                    st
                }
            } else if !n.chain || st.cur.len() == 0 {
                BuildState { items: flushed(st), cur: n.moras, accent: n.accent }
            } else {
                BuildState { cur: st.cur + n.moras, ..st }
            }
        },
    }
}

pub open spec fn build_fold(nodes: Seq<NodeModel>) -> BuildState
    decreases nodes.len(),
{
    if nodes.len() == 0 {
        BuildState { items: seq![], cur: seq![], accent: 0 }
    } else {
        build_step(build_fold(nodes.drop_last()), nodes.last())
    }
}

/// Accent phrases and delimiters, in order, as the nodes give them.
pub open spec fn build_items_of(nodes: Seq<NodeModel>) -> Seq<ItemModel> {
    flushed(build_fold(nodes))
}

pub struct PairState {
    pub result: Seq<(PhraseModel, Delimiter)>,
    pub pending: Option<PhraseModel>,
}

/// One item through the pairing of phrases with their delimiters.
pub open spec fn pair_step(st: PairState, item: ItemModel) -> PairState {
    match item {
        ItemModel::Phrase(p) => match st.pending {
            Some(prev) => PairState {
                result: st.result.push((prev, Delimiter::Slash)),
                pending: Some(p),
            },
            None => PairState { result: st.result, pending: Some(p) },
        },
        ItemModel::Delim(d) => match st.pending {
            Some(p) => PairState { result: st.result.push((p, d)), pending: None },
            None => if is_end_of_sentence(d) && st.result.len() > 0 {
                PairState {
                    result: st.result.update(st.result.len() - 1, (st.result.last().0, d)),
                    pending: None,
                }
            } else {
                st
            },
        },
    }
}

pub open spec fn pair_fold(items: Seq<ItemModel>) -> PairState
    decreases items.len(),
{
    if items.len() == 0 {
        PairState { result: seq![], pending: None }
    } else {
        pair_step(pair_fold(items.drop_last()), items.last())
    }
}

/// Each phrase with the delimiter that follows it; the last one always ends a
/// sentence.
pub open spec fn pairs_of(items: Seq<ItemModel>) -> Seq<(PhraseModel, Delimiter)> {
    let st = pair_fold(items);
    let r = match st.pending {
        Some(p) => st.result.push((p, Delimiter::Period)),
        None => st.result,
    };
    if r.len() > 0 && !is_end_of_sentence(r.last().1) {
        r.update(r.len() - 1, (r.last().0, Delimiter::Period))
    } else {
        r
    }
}

pub open spec fn accent_mark(accent: nat, i: int) -> Seq<char> {
    if accent > 0 && i + 1 == accent { seq!['\''] } else { seq![] }
}

/// The kana text of one mora.
pub open spec fn kana_mora_text(m: Seq<char>, voiced: bool) -> Seq<char> {
    if m == seq!['ッ'] {
        seq!['っ']
    } else if !voiced && devoiced_kana_of(m) is Some {
        devoiced_kana_of(m)->0
    } else {
        mora_to_hira(m)
    }
}

/// The kana text of the first `n` moras of a phrase.
pub open spec fn kana_prefix(moras: Seq<(Seq<char>, bool)>, accent: nat, n: nat) -> Seq<char>
    decreases n,
{
    if n == 0 {
        seq![]
    } else {
        kana_prefix(moras, accent, (n - 1) as nat) + kana_mora_text(moras[n - 1].0, moras[n - 1].1)
            + accent_mark(accent, n - 1)
    }
}

/// The roman text of one mora that is not a sokuon.
pub open spec fn roman_mora_text(m: Seq<char>, voiced: bool) -> Seq<char> {
    if !voiced && devoiced_roman_of(m) is Some {
        devoiced_roman_of(m)->0
    } else {
        mora_roman(m)
    }
}

pub open spec fn strip_devoicing(s: Seq<char>) -> Seq<char> {
    if s.len() > 0 && s[0] == '_' { s.drop_first() } else { s }
}

pub open spec fn opt_char(c: Option<char>) -> Seq<char> {
    match c {
        Some(c) => seq![c],
        None => seq![],
    }
}

/// The consonant that the sokuon at `i` doubles, if it doubles one.
pub open spec fn sokuon_double(moras: Seq<(Seq<char>, bool)>, i: int) -> Option<char> {
    if i + 1 < moras.len() {
        doubling_consonant(strip_devoicing(roman_mora_text(moras[i + 1].0, moras[i + 1].1)))
    } else {
        None
    }
}

/// The roman text after mora `i` is written, from the text before it and the
/// doubled consonant still to be written.
pub open spec fn roman_step(
    moras: Seq<(Seq<char>, bool)>,
    accent: nat,
    i: int,
    out: Seq<char>,
    pending: Option<char>,
) -> (Seq<char>, Option<char>) {
    if moras[i].0 == seq!['ッ'] {
        match sokuon_double(moras, i) {
            Some(c) => (out + accent_mark(accent, i), Some(c)),
            None => (out + opt_char(pending) + seq!['x', 't', 'u'] + accent_mark(accent, i), None),
        }
    } else {
        (out + opt_char(pending) + roman_mora_text(moras[i].0, moras[i].1) + accent_mark(accent, i), None)
    }
}

/// The roman text of the first `n` moras of a phrase and the doubled
/// consonant still to be written.
pub open spec fn roman_prefix(moras: Seq<(Seq<char>, bool)>, accent: nat, n: nat) -> (
    Seq<char>,
    Option<char>,
)
    decreases n,
{
    if n == 0 {
        (seq![], None)
    } else {
        let (out, pending) = roman_prefix(moras, accent, (n - 1) as nat);
        roman_step(moras, accent, n - 1, out, pending)
    }
}

pub open spec fn phrase_text(p: PhraseModel, format: OutputFormat) -> Seq<char> {
    match format {
        OutputFormat::Kana => kana_prefix(p.moras, p.accent, p.moras.len()),
        OutputFormat::Roman => roman_prefix(p.moras, p.accent, p.moras.len()).0,
    }
}

pub open spec fn pairs_text(pairs: Seq<(PhraseModel, Delimiter)>, format: OutputFormat) -> Seq<char>
    decreases pairs.len(),
{
    if pairs.len() == 0 {
        seq![]
    } else {
        pairs_text(pairs.drop_last(), format) + phrase_text(pairs.last().0, format)
            + seq![delimiter_char(pairs.last().1, format)]
    }
}

/// The phoneme string of a node sequence.
pub open spec fn phoneme_of(nodes: Seq<NodeModel>, format: OutputFormat) -> Seq<char> {
    let pairs = pairs_of(build_items_of(nodes));
    if pairs.len() == 0 {
        seq![delimiter_char(Delimiter::Period, format)]
    } else {
        pairs_text(pairs, format)
    }
}

// ---------------------------------------------------------------------------
// Laws

/// The accent phrases among the items, in order.
pub open spec fn phrases_of(items: Seq<ItemModel>) -> Seq<PhraseModel>
    decreases items.len(),
{
    if items.len() == 0 {
        seq![]
    } else {
        match items.last() {
            ItemModel::Phrase(p) => phrases_of(items.drop_last()).push(p),
            ItemModel::Delim(_) => phrases_of(items.drop_last()),
        }
    }
}

pub open spec fn phrases_in_pairs(pairs: Seq<(PhraseModel, Delimiter)>) -> Seq<PhraseModel> {
    pairs.map_values(|p: (PhraseModel, Delimiter)| p.0)
}

pub open spec fn pending_seq(p: Option<PhraseModel>) -> Seq<PhraseModel> {
    match p {
        Some(p) => seq![p],
        None => seq![],
    }
}

proof fn lemma_pair_fold_phrases(items: Seq<ItemModel>)
    ensures
        phrases_in_pairs(pair_fold(items).result) + pending_seq(pair_fold(items).pending)
            == phrases_of(items),
    decreases items.len(),
{
    if items.len() > 0 {
        lemma_pair_fold_phrases(items.drop_last());
        let st = pair_fold(items.drop_last());
        let st2 = pair_fold(items);
        match items.last() {
            ItemModel::Phrase(p) => {
                assert(phrases_in_pairs(st2.result) + pending_seq(st2.pending) =~= phrases_of(items));
            },
            ItemModel::Delim(d) => {
                assert(phrases_in_pairs(st2.result) + pending_seq(st2.pending) =~= phrases_of(items));
            },
        }
    }
}

/// Pairing phrases with delimiters keeps every accent phrase, in order, and
/// adds none: each phrase is written exactly once.
pub proof fn lemma_pairs_keep_phrases(items: Seq<ItemModel>)
    ensures
        phrases_in_pairs(pairs_of(items)) == phrases_of(items),
{
    lemma_pair_fold_phrases(items);
    let st = pair_fold(items);
    let r = match st.pending {
        Some(p) => st.result.push((p, Delimiter::Period)),
        None => st.result,
    };
    assert(phrases_in_pairs(r) =~= phrases_of(items));
    assert(phrases_in_pairs(pairs_of(items)) =~= phrases_in_pairs(r));
}

/// A phoneme string always ends with the mark of a sentence end or of a
/// question: the last accent phrase is always closed as a sentence.
pub proof fn lemma_phoneme_ends_sentence(nodes: Seq<NodeModel>, format: OutputFormat)
    ensures
        phoneme_of(nodes, format).len() > 0,
        phoneme_of(nodes, format).last() == delimiter_char(Delimiter::Period, format)
            || phoneme_of(nodes, format).last() == delimiter_char(Delimiter::Question, format),
{
    let pairs = pairs_of(build_items_of(nodes));
    if pairs.len() > 0 {
        assert(is_end_of_sentence(pairs.last().1));
    }
}

/// A node that stands for a sentence end closes the phoneme string with the
/// mark of that very delimiter, whatever nodes come before it (where no accent
/// phrase comes before it, the string is the period mark alone).
pub proof fn lemma_last_sentence_mark(nodes: Seq<NodeModel>, n: NodeModel, d: Delimiter, format: OutputFormat)
    requires
        node_delimiter(n) == Some(d),
        is_end_of_sentence(d),
    ensures
        d == Delimiter::Period || phrases_of(build_items_of(nodes)).len() > 0 ==> phoneme_of(
            nodes.push(n),
            format,
        ).last() == delimiter_char(d, format),
{
    let all = nodes.push(n);
    assert(all.drop_last() =~= nodes);
    let st = build_fold(nodes);
    let items = build_items_of(all);
    assert(items == flushed(st).push(ItemModel::Delim(d)));
    assert(items.drop_last() =~= flushed(st));
    let ps = pair_fold(items);
    assert(ps.pending is None);
    assert(ps.result.len() > 0 ==> ps.result.last().1 == d);
    let pairs = pairs_of(items);
    assert(pairs == ps.result);
    lemma_pairs_keep_phrases(items);
    assert(phrases_of(items) == phrases_of(flushed(st)));
    assert(phrases_in_pairs(pairs).len() == pairs.len());
}

/// An exclamation mark, full-width or ASCII, ends the sentence with the
/// period mark (`。` or `.`), never with the question mark.
pub proof fn lemma_exclamation_is_period(nodes: Seq<NodeModel>, n: NodeModel, format: OutputFormat)
    requires
        !n.question,
        (n.original == seq!['！'] && (n.pron_empty || n.touten)) || (n.original == seq!['!'] && (
        n.pron_empty || n.touten || n.moras.len() == 0)),
    ensures
        phoneme_of(nodes.push(n), format).last() == delimiter_char(Delimiter::Period, format),
        phoneme_of(nodes.push(n), format).last() != delimiter_char(Delimiter::Question, format),
{
    assert(n.original.len() == 1);
    lemma_last_sentence_mark(nodes, n, Delimiter::Period, format);
}

/// A question mark, full-width or ASCII, after an accent phrase ends the
/// sentence with the question mark (`？` or `?`).
pub proof fn lemma_question_mark_is_question(nodes: Seq<NodeModel>, n: NodeModel, format: OutputFormat)
    requires
        phrases_of(build_items_of(nodes)).len() > 0,
        n.question || ((n.original == seq!['？'] || n.original == seq!['?']) && (n.pron_empty
            || n.touten)) || (n.original == seq!['?'] && n.moras.len() == 0),
    ensures
        phoneme_of(nodes.push(n), format).last() == delimiter_char(Delimiter::Question, format),
{
    if !n.question {
        assert(n.original.len() == 1);
    }
    lemma_last_sentence_mark(nodes, n, Delimiter::Question, format);
}

/// Nodes that give no accent phrase give the sentence end mark alone.
pub proof fn lemma_no_phrase_is_lone_period(nodes: Seq<NodeModel>, format: OutputFormat)
    requires
        phrases_of(build_items_of(nodes)).len() == 0,
    ensures
        phoneme_of(nodes, format) == seq![delimiter_char(Delimiter::Period, format)],
{
    lemma_pairs_keep_phrases(build_items_of(nodes));
}

/// The six delimiters have six different marks in each notation, and every
/// kana mark is a delimiter that the kana scanner reads back as itself.
pub proof fn lemma_delimiter_marks(d1: Delimiter, d2: Delimiter, format: OutputFormat, rest: Seq<char>)
    ensures
        d1 != d2 ==> delimiter_char(d1, format) != delimiter_char(d2, format),
        is_delimiter(delimiter_char(d1, OutputFormat::Kana)),
        next_lexeme(seq![delimiter_char(d1, OutputFormat::Kana)] + rest) == Some(
            Lexeme::Delim(delimiter_char(d1, OutputFormat::Kana)),
        ),
{
    let s = seq![delimiter_char(d1, OutputFormat::Kana)] + rest;
    assert(s[0] == delimiter_char(d1, OutputFormat::Kana));
}

/// A phrase in normal form closed by the kana mark of any delimiter is
/// accepted by sanitising and given back unchanged.
pub proof fn lemma_kana_mark_reads_back(ts: Seq<TokenModel>, d: Delimiter)
    requires
        is_normal_phrase(ts),
    ensures
        sanitized(render(ts).push(delimiter_char(d, OutputFormat::Kana))) == Ok::<
            Seq<char>,
            SanitizeFailure,
        >(render(ts).push(delimiter_char(d, OutputFormat::Kana))),
{
    let c = delimiter_char(d, OutputFormat::Kana);
    let parts = seq![(ts, c)];
    assert(parts.drop_first() =~= Seq::<(Seq<TokenModel>, char)>::empty());
    assert(render_parts(parts.drop_first()) == Seq::<char>::empty());
    assert(parts[0] == (ts, c));
    assert(render_parts(parts) =~= render(ts).push(c));
    lemma_scan_normal_parts(parts, seq![], seq![]);
    assert(render_parts(parts) + seq![] =~= render_parts(parts));
    assert(seq![] + render_parts(parts) =~= render_parts(parts));
}

/// A romanised mora with a voiceless consonant (k, s, t, h, p) and a high
/// vowel (i, u), the moras that AquesTalk can devoice.
pub open spec fn is_voiceless_high_roman(r: Seq<char>) -> bool {
    r.len() == 2 && (r[0] == 'k' || r[0] == 's' || r[0] == 't' || r[0] == 'h' || r[0] == 'p')
        && (r[1] == 'i' || r[1] == 'u')
}

/// The one-character moras with a devoiced reading are exactly those whose
/// romanisation is a voiceless consonant followed by i or u.
pub proof fn lemma_devoiceable_moras_are_voiceless_high(c: char)
    ensures
        is_devoiceable_single(c) <==> is_voiceless_high_roman(mora_roman(seq![c])),
{
    assert(seq![c].len() == 1 && seq![c][0] == c);
}

/// The devoiced reading of every mora with a voiceless consonant and a high
/// vowel, closed by the kana mark of any delimiter, is accepted by sanitising
/// and given back unchanged (`_ク。`, `_シ、`, ...).
pub proof fn lemma_devoiced_reading_accepted(c: char, d: Delimiter)
    requires
        is_voiceless_high_roman(mora_roman(seq![c])),
    ensures
        sanitized(seq!['_', c, delimiter_char(d, OutputFormat::Kana)]) == Ok::<
            Seq<char>,
            SanitizeFailure,
        >(seq!['_', c, delimiter_char(d, OutputFormat::Kana)]),
{
    lemma_devoiceable_moras_are_voiceless_high(c);
    let m = seq![c];
    let t = devoiced_token(m);
    let ts = seq![t];
    assert(t.rendered =~= seq!['_', c]);
    assert(t.rendered.drop_first() =~= m);
    assert(t.normal =~= seq![kata_to_hira(c)]);
    assert(is_valid_token(t));
    assert(all_valid(ts));
    assert(ts.drop_last() =~= Seq::<TokenModel>::empty());
    assert(accent_count(ts.drop_last()) == 0);
    assert(ts.last() == t);
    assert(accent_count(ts) == 0);
    assert(is_normal_phrase(ts));
    assert(render(ts) =~= seq!['_', c]) by {
        assert(render(ts.drop_last()) == Seq::<char>::empty());
    }
    lemma_kana_mark_reads_back(ts, d);
    assert(render(ts).push(delimiter_char(d, OutputFormat::Kana)) =~= seq![
        '_',
        c,
        delimiter_char(d, OutputFormat::Kana),
    ]);
}

/// Every character is ASCII.
pub open spec fn is_ascii_text(s: Seq<char>) -> bool {
    forall|i: int| 0 <= i < s.len() ==> (#[trigger] s[i] as u32) < 128
}

proof fn lemma_ascii_concat(a: Seq<char>, b: Seq<char>)
    requires
        is_ascii_text(a),
        is_ascii_text(b),
    ensures
        is_ascii_text(a + b),
{
    assert forall|i: int| 0 <= i < (a + b).len() implies ((#[trigger] (a + b)[i]) as u32) < 128 by {
        if i < a.len() {
            assert((a + b)[i] == a[i]);
        } else {
            assert((a + b)[i] == b[i - a.len()]);
        }
    }
}

proof fn lemma_mora_roman_ascii(m: Seq<char>)
    ensures
        is_ascii_text(mora_roman(m)),
{
    let r = mora_roman(m);
    assert forall|i: int| 0 <= i < r.len() implies ((#[trigger] r[i]) as u32) < 128 by {
        if m.len() == 1 {
            assert(r == crate::phoneme::single_roman(m[0]));
        } else if m.len() == 2 {
            assert(r == crate::phoneme::double_roman(m[0], m[1]));
        }
    }
}

proof fn lemma_roman_mora_text_ascii(m: Seq<char>, voiced: bool)
    ensures
        is_ascii_text(roman_mora_text(m, voiced)),
{
    lemma_mora_roman_ascii(m);
    if !voiced && devoiced_roman_of(m) is Some {
        lemma_ascii_concat(seq!['_'], mora_roman(m));
    }
}

proof fn lemma_roman_prefix_ascii(moras: Seq<(Seq<char>, bool)>, accent: nat, n: nat)
    requires
        n <= moras.len(),
    ensures
        is_ascii_text(roman_prefix(moras, accent, n).0),
        match roman_prefix(moras, accent, n).1 {
            Some(c) => (c as u32) < 128,
            None => true,
        },
    decreases n,
{
    if n > 0 {
        let i = n - 1;
        lemma_roman_prefix_ascii(moras, accent, (n - 1) as nat);
        let (out, pending) = roman_prefix(moras, accent, (n - 1) as nat);
        lemma_roman_mora_text_ascii(moras[i].0, moras[i].1);
        assert(is_ascii_text(accent_mark(accent, i)));
        assert(is_ascii_text(opt_char(pending)));
        assert(is_ascii_text(seq!['x', 't', 'u']));
        lemma_ascii_concat(out, opt_char(pending));
        lemma_ascii_concat(out + opt_char(pending), seq!['x', 't', 'u']);
        lemma_ascii_concat(out + opt_char(pending) + seq!['x', 't', 'u'], accent_mark(accent, i));
        lemma_ascii_concat(out + opt_char(pending), roman_mora_text(moras[i].0, moras[i].1));
        lemma_ascii_concat(
            out + opt_char(pending) + roman_mora_text(moras[i].0, moras[i].1),
            accent_mark(accent, i),
        );
        lemma_ascii_concat(out, accent_mark(accent, i));
    }
}

proof fn lemma_pairs_text_ascii(pairs: Seq<(PhraseModel, Delimiter)>)
    ensures
        is_ascii_text(pairs_text(pairs, OutputFormat::Roman)),
    decreases pairs.len(),
{
    if pairs.len() > 0 {
        lemma_pairs_text_ascii(pairs.drop_last());
        let p = pairs.last().0;
        lemma_roman_prefix_ascii(p.moras, p.accent, p.moras.len());
        let d = seq![delimiter_char(pairs.last().1, OutputFormat::Roman)];
        assert(is_ascii_text(d));
        lemma_ascii_concat(pairs_text(pairs.drop_last(), OutputFormat::Roman), phrase_text(p, OutputFormat::Roman));
        lemma_ascii_concat(
            pairs_text(pairs.drop_last(), OutputFormat::Roman) + phrase_text(p, OutputFormat::Roman),
            d,
        );
    }
}

/// Roman notation is ASCII only, whatever the nodes hold.
pub proof fn lemma_roman_is_ascii(nodes: Seq<NodeModel>)
    ensures
        is_ascii_text(phoneme_of(nodes, OutputFormat::Roman)),
{
    lemma_pairs_text_ascii(pairs_of(build_items_of(nodes)));
}

// ---------------------------------------------------------------------------
// Implementation

struct AccentPhrase {
    moras: Vec<(Vec<char>, bool)>,
    accent: usize,
}

pub open spec fn char_mora_models(v: Seq<(Vec<char>, bool)>) -> Seq<(Seq<char>, bool)> {
    v.map_values(|p: (Vec<char>, bool)| (p.0@, p.1))
}

impl View for AccentPhrase {
    type V = PhraseModel;

    closed spec fn view(&self) -> PhraseModel {
        PhraseModel { moras: char_mora_models(self.moras@), accent: self.accent as nat }
    }
}

enum Item {
    Phrase(AccentPhrase),
    Delim(Delimiter),
}

impl View for Item {
    type V = ItemModel;

    closed spec fn view(&self) -> ItemModel {
        match self {
            Item::Phrase(p) => ItemModel::Phrase(p@),
            Item::Delim(d) => ItemModel::Delim(*d),
        }
    }
}

spec fn item_models(v: Seq<Item>) -> Seq<ItemModel> {
    v.map_values(|i: Item| i@)
}

spec fn pair_models(v: Seq<(AccentPhrase, Delimiter)>) -> Seq<(PhraseModel, Delimiter)> {
    v.map_values(|p: (AccentPhrase, Delimiter)| (p.0@, p.1))
}

impl Delimiter {
    fn as_str(self, format: OutputFormat) -> (s: &'static str)
        ensures
            s@ == seq![delimiter_char(self, format)],
    {
        match format {
            OutputFormat::Kana => match self {
                Delimiter::Period => {
                    proof { reveal_strlit("。"); }
                    "。"
                },
                Delimiter::Question => {
                    proof { reveal_strlit("？"); }
                    "？"
                },
                Delimiter::Comma => {
                    proof { reveal_strlit("、"); }
                    "、"
                },
                Delimiter::Semicolon => {
                    proof { reveal_strlit(";"); }
                    ";"
                },
                Delimiter::Slash => {
                    proof { reveal_strlit("/"); }
                    "/"
                },
                Delimiter::Plus => {
                    proof { reveal_strlit("+"); }
                    "+"
                },
            },
            OutputFormat::Roman => match self {
                Delimiter::Period => {
                    proof { reveal_strlit("."); }
                    "."
                },
                Delimiter::Question => {
                    proof { reveal_strlit("?"); }
                    "?"
                },
                Delimiter::Comma => {
                    proof { reveal_strlit(","); }
                    ","
                },
                Delimiter::Semicolon => {
                    proof { reveal_strlit(";"); }
                    ";"
                },
                Delimiter::Slash => {
                    proof { reveal_strlit("/"); }
                    "/"
                },
                Delimiter::Plus => {
                    proof { reveal_strlit("+"); }
                    "+"
                },
            },
        }
    }

    /// The mark in kana notation.
    pub fn kana_str(self) -> (s: &'static str)
        ensures
            s@ == seq![delimiter_char(self, OutputFormat::Kana)],
    {
        self.as_str(OutputFormat::Kana)
    }

    /// The mark in roman notation.
    pub fn roman_str(self) -> (s: &'static str)
        ensures
            s@ == seq![delimiter_char(self, OutputFormat::Roman)],
    {
        self.as_str(OutputFormat::Roman)
    }

    /// Whether the mark comes with a pause.
    pub fn is_before_pause(self) -> (b: bool)
        ensures
            b == is_pause(self),
    {
        match self {
            Delimiter::Period | Delimiter::Question | Delimiter::Comma => true,
            _ => false,
        }
    }

    fn is_sentence_end(self) -> (b: bool)
        ensures
            b == is_end_of_sentence(self),
    {
        match self {
            Delimiter::Period | Delimiter::Question => true,
            _ => false,
        }
    }

    fn to_char(self, format: OutputFormat) -> (c: char)
        ensures
            c == delimiter_char(self, format),
    {
        match self {
            Delimiter::Period => if format == OutputFormat::Kana { '。' } else { '.' },
            Delimiter::Question => if format == OutputFormat::Kana { '？' } else { '?' },
            Delimiter::Comma => if format == OutputFormat::Kana { '、' } else { ',' },
            Delimiter::Semicolon => ';',
            Delimiter::Slash => '/',
            Delimiter::Plus => '+',
        }
    }
}

fn delimiter_from_pronless_symbol(symbol: &[char]) -> (r: Option<Delimiter>)
    ensures
        r == pronless_symbol(symbol@),
{
    if symbol.len() != 1 {
        return None;
    }
    match symbol[0] {
        '。' | '.' | '．' | '！' | '!' | '…' | '⋯' => Some(Delimiter::Period),
        '、' | '，' | '　' | ' ' => Some(Delimiter::Comma),
        '？' | '?' => Some(Delimiter::Question),
        _ => None,
    }
}

fn delimiter_from_ascii_symbol(symbol: &[char]) -> (r: Option<Delimiter>)
    ensures
        r == ascii_symbol(symbol@),
{
    if symbol.len() != 1 {
        return None;
    }
    match symbol[0] {
        '.' | '!' => Some(Delimiter::Period),
        ',' | ' ' => Some(Delimiter::Comma),
        '?' => Some(Delimiter::Question),
        _ => None,
    }
}

fn detect_delimiter(node: &NodeData) -> (r: Option<Delimiter>)
    ensures
        r == node_delimiter(node@),
{
    if node.is_question {
        return Some(Delimiter::Question);
    }
    let s = chars_of(node.original.as_str());
    if node.is_touten || node.is_pron_empty {
        return match delimiter_from_pronless_symbol(&s) {
            Some(d) => Some(d),
            None => if node.is_touten { Some(Delimiter::Comma) } else { None },
        };
    }
    if node.pron_moras.len() == 0 {
        return delimiter_from_ascii_symbol(&s);
    }
    None
}

/// The moras of a node as characters.
fn node_moras(node: &NodeData) -> (r: Vec<(Vec<char>, bool)>)
    ensures
        char_mora_models(r@) == node@.moras,
{
    let mut r: Vec<(Vec<char>, bool)> = Vec::new();
    for i in 0..node.pron_moras.len()
        invariant
            char_mora_models(r@) == mora_pair_models(node.pron_moras@).take(i as int),
    {
        let m = chars_of(node.pron_moras[i].0.as_str());
        let v = node.pron_moras[i].1;
        let ghost before = r@;
        r.push((m, v));
        assert(char_mora_models(r@) =~= char_mora_models(before).push((m@, v)));
        assert(mora_pair_models(node.pron_moras@)[i as int] == (m@, v));
        assert(char_mora_models(r@) =~= mora_pair_models(node.pron_moras@).take(i + 1));
    }
    assert(mora_pair_models(node.pron_moras@).take(node.pron_moras.len() as int)
        =~= mora_pair_models(node.pron_moras@));
    r
}

fn copy_moras(v: &Vec<(Vec<char>, bool)>) -> (r: Vec<(Vec<char>, bool)>)
    ensures
        char_mora_models(r@) == char_mora_models(v@),
{
    let mut r: Vec<(Vec<char>, bool)> = Vec::new();
    for i in 0..v.len()
        invariant
            char_mora_models(r@) == char_mora_models(v@).take(i as int),
    {
        let c = copy_chars(&v[i].0);
        let voiced = v[i].1;
        let ghost before = r@;
        r.push((c, voiced));
        assert(char_mora_models(r@) =~= char_mora_models(before).push((c@, voiced)));
        assert(char_mora_models(v@)[i as int] == (c@, voiced));
        assert(char_mora_models(r@) =~= char_mora_models(v@).take(i + 1));
    }
    assert(char_mora_models(v@).take(v.len() as int) =~= char_mora_models(v@));
    r
}

fn append_moras(cur: &mut Vec<(Vec<char>, bool)>, more: Vec<(Vec<char>, bool)>)
    ensures
        char_mora_models(final(cur)@) == char_mora_models(old(cur)@) + char_mora_models(more@),
{
    let mut more = more;
    let ghost m = more@;
    cur.append(&mut more);
    assert(char_mora_models(cur@) =~= char_mora_models(old(cur)@) + char_mora_models(m));
}

fn is_prolonged_mora(m: &[char]) -> (b: bool)
    ensures
        b == (m@ == seq!['ー']),
{
    let b = m.len() == 1 && m[0] == 'ー';
    proof {
        if m@.len() == 1 && m@[0] == 'ー' {
            assert(m@ =~= seq!['ー']);
        }
    }
    b
}

fn all_prolonged(moras: &Vec<(Vec<char>, bool)>) -> (b: bool)
    ensures
        b == is_prolonged_only(char_mora_models(moras@)),
{
    for i in 0..moras.len()
        invariant
            forall|k: int| 0 <= k < i ==> (#[trigger] char_mora_models(moras@)[k]).0 == seq!['ー'],
    {
        if !is_prolonged_mora(&moras[i].0) {
            assert(char_mora_models(moras@)[i as int].0 != seq!['ー']);
            return false;
        }
    }
    true
}

fn flush_phrase(items: &mut Vec<Item>, moras: &mut Vec<(Vec<char>, bool)>, accent: usize)
    ensures
        item_models(final(items)@) == flushed(
            BuildState {
                items: item_models(old(items)@),
                cur: char_mora_models(old(moras)@),
                accent: accent as nat,
            },
        ),
        final(moras)@.len() == 0,
{
    if moras.len() == 0 {
        return;
    }
    let mut taken: Vec<(Vec<char>, bool)> = Vec::new();
    core::mem::swap(&mut taken, moras);
    let phrase = AccentPhrase { moras: taken, accent };
    let item = Item::Phrase(phrase);
    let ghost before = items@;
    items.push(item);
    assert(item_models(items@) =~= item_models(before).push(item@));
}

fn build_items(nodes: &[NodeData]) -> (items: Vec<Item>)
    ensures
        item_models(items@) == build_items_of(node_models(nodes@)),
{
    let ghost ns = node_models(nodes@);
    let mut items: Vec<Item> = Vec::new();
    let mut cur: Vec<(Vec<char>, bool)> = Vec::new();
    let mut cur_accent: usize = 0;
    proof {
        assert(item_models(items@) =~= Seq::<ItemModel>::empty());
        assert(char_mora_models(cur@) =~= Seq::<(Seq<char>, bool)>::empty());
        assert(ns.take(0) =~= Seq::<NodeModel>::empty());
    }
    for i in 0..nodes.len()
        invariant
            ns == node_models(nodes@),
            (BuildState {
                items: item_models(items@),
                cur: char_mora_models(cur@),
                accent: cur_accent as nat,
            }) == build_fold(ns.take(i as int)),
    {
        let node = &nodes[i];
        proof {
            assert(ns.take(i + 1).drop_last() =~= ns.take(i as int));
            assert(ns.take(i + 1).last() == node@);
        }
        match detect_delimiter(node) {
            Some(delim) => {
                flush_phrase(&mut items, &mut cur, cur_accent);
                let ghost before = items@;
                items.push(Item::Delim(delim));
                proof {
                    assert(item_models(items@) =~= item_models(before).push(ItemModel::Delim(delim)));
                    assert(char_mora_models(cur@) =~= Seq::<(Seq<char>, bool)>::empty());
                }
            },
            None => {
                if node.is_pron_empty || node.pron_moras.len() == 0 {
                } else {
                    let moras = node_moras(node);
                    if all_prolonged(&moras) {
                        if cur.len() > 0 {
                            append_moras(&mut cur, moras);
                        }
                    } else if !node.chain_with_prev || cur.len() == 0 {
                        flush_phrase(&mut items, &mut cur, cur_accent);
                        cur_accent = node.accent;
                        append_moras(&mut cur, moras);
                        assert(char_mora_models(cur@) =~= node@.moras);
                    } else {
                        append_moras(&mut cur, moras);
                    }
                }
            },
        }
    }
    assert(ns.take(nodes.len() as int) =~= ns);
    flush_phrase(&mut items, &mut cur, cur_accent);
    items
}

fn copy_phrase(p: &AccentPhrase) -> (r: AccentPhrase)
    ensures
        r@ == p@,
{
    AccentPhrase { moras: copy_moras(&p.moras), accent: p.accent }
}

fn pair_phrases(items: &Vec<Item>) -> (result: Vec<(AccentPhrase, Delimiter)>)
    ensures
        pair_models(result@) == pairs_of(item_models(items@)),
{
    let ghost ims = item_models(items@);
    let mut result: Vec<(AccentPhrase, Delimiter)> = Vec::new();
    let mut pending: Option<AccentPhrase> = None;
    proof {
        assert(pair_models(result@) =~= Seq::<(PhraseModel, Delimiter)>::empty());
        assert(ims.take(0) =~= Seq::<ItemModel>::empty());
    }
    for i in 0..items.len()
        invariant
            ims == item_models(items@),
            (PairState {
                result: pair_models(result@),
                pending: match pending { Some(p) => Some(p@), None => None },
            }) == pair_fold(ims.take(i as int)),
    {
        proof {
            assert(ims.take(i + 1).drop_last() =~= ims.take(i as int));
            assert(ims.take(i + 1).last() == items@[i as int]@);
        }
        match &items[i] {
            Item::Phrase(p) => {
                let p = copy_phrase(p);
                match pending.take() {
                    Some(prev) => {
                        let ghost before = result@;
                        result.push((prev, Delimiter::Slash));
                        assert(pair_models(result@) =~= pair_models(before).push((prev@, Delimiter::Slash)));
                    },
                    None => {},
                }
                pending = Some(p);
            },
            Item::Delim(d) => {
                let d = *d;
                match pending.take() {
                    Some(p) => {
                        let ghost before = result@;
                        result.push((p, d));
                        assert(pair_models(result@) =~= pair_models(before).push((p@, d)));
                    },
                    None => {
                        if d.is_sentence_end() && result.len() > 0 {
                            let ghost before = result@;
                            let (last, _) = result.pop().unwrap();
                            result.push((last, d));
                            assert(pair_models(result@) =~= pair_models(before).update(
                                before.len() - 1,
                                (pair_models(before).last().0, d),
                            ));
                        }
                    },
                }
            },
        }
    }
    assert(ims.take(items.len() as int) =~= ims);
    match pending.take() {
        Some(p) => {
            let ghost before = result@;
            result.push((p, Delimiter::Period));
            assert(pair_models(result@) =~= pair_models(before).push((p@, Delimiter::Period)));
        },
        None => {},
    }
    let n = result.len();
    if n > 0 && !result[n - 1].1.is_sentence_end() {
        let ghost before = result@;
        let (last, _) = result.pop().unwrap();
        result.push((last, Delimiter::Period));
        assert(pair_models(result@) =~= pair_models(before).update(
            before.len() - 1,
            (pair_models(before).last().0, Delimiter::Period),
        ));
    }
    result
}

fn format_phrase_kana(phrase: &AccentPhrase) -> (out: Vec<char>)
    ensures
        out@ == kana_prefix(phrase@.moras, phrase@.accent, phrase@.moras.len()),
{
    let ghost ms = phrase@.moras;
    let mut out: Vec<char> = Vec::new();
    for i in 0..phrase.moras.len()
        invariant
            ms == phrase@.moras,
            ms.len() == phrase.moras.len(),
            out@ == kana_prefix(ms, phrase@.accent, i as nat),
    {
        let mora = &phrase.moras[i].0;
        let is_voiced = phrase.moras[i].1;
        assert(ms[i as int] == (mora@, is_voiced));
        let ghost before = out@;
        if mora.len() == 1 && mora[0] == 'ッ' {
            assert(mora@ =~= seq!['ッ']);
            out.push('っ');
        } else {
            let mut piece = if !is_voiced {
                match devoiced_kana(mora) {
                    Some(d) => d,
                    None => mora_chars_to_hiragana(mora),
                }
            } else {
                mora_chars_to_hiragana(mora)
            };
            assert(mora@ != seq!['ッ']);
            out.append(&mut piece);
        }
        if phrase.accent > 0 && i + 1 == phrase.accent {
            out.push('\'');
        }
        assert(out@ =~= kana_prefix(ms, phrase@.accent, (i + 1) as nat));
    }
    out
}

fn roman_of_mora(mora: &[char], is_voiced: bool) -> (r: Vec<char>)
    ensures
        r@ == roman_mora_text(mora@, is_voiced),
{
    if !is_voiced {
        match devoiced_roman(mora) {
            Some(d) => d,
            None => katakana_mora_to_roman(mora),
        }
    } else {
        katakana_mora_to_roman(mora)
    }
}

fn strip_underscore(v: &[char]) -> (r: Vec<char>)
    ensures
        r@ == strip_devoicing(v@),
{
    if v.len() > 0 && v[0] == '_' {
        let mut r: Vec<char> = Vec::new();
        for i in 1..v.len()
            invariant
                r@ == v@.subrange(1, i as int),
        {
            r.push(v[i]);
            assert(v@.subrange(1, i + 1) =~= v@.subrange(1, i as int).push(v@[i as int]));
        }
        assert(v@.subrange(1, v.len() as int) =~= v@.drop_first());
        r
    } else {
        copy_chars(v)
    }
}

fn roman_mora_step(phrase: &AccentPhrase, i: usize, out: &mut Vec<char>, pending: Option<char>) -> (r: Option<char>)
    requires
        i < phrase@.moras.len(),
    ensures
        (final(out)@, r) == roman_step(phrase@.moras, phrase@.accent, i as int, old(out)@, pending),
{
    let ghost ms = phrase@.moras;
    let n = phrase.moras.len();
    assert(ms.len() == n);
    let mora = &phrase.moras[i].0;
    let is_voiced = phrase.moras[i].1;
    assert(ms[i as int] == (mora@, is_voiced));
    let mut piece: Vec<char> = Vec::new();
    let mut next_pending: Option<char> = None;
    if mora.len() == 1 && mora[0] == 'ッ' {
        assert(mora@ =~= seq!['ッ']);
        let double_char = if i + 1 < n {
            let next_mora = &phrase.moras[i + 1].0;
            let next_voiced = phrase.moras[i + 1].1;
            assert(ms[i + 1] == (next_mora@, next_voiced));
            let next_roman = roman_of_mora(next_mora, next_voiced);
            get_doubling_consonant(&strip_underscore(&next_roman))
        } else {
            None
        };
        assert(double_char == sokuon_double(ms, i as int));
        match double_char {
            Some(c) => {
                next_pending = Some(c);
            },
            None => {
                match pending {
                    Some(c) => piece.push(c),
                    None => {},
                }
                piece.push('x');
                piece.push('t');
                piece.push('u');
            },
        }
    } else {
        assert(mora@ != seq!['ッ']);
        match pending {
            Some(c) => piece.push(c),
            None => {},
        }
        let mut roman = roman_of_mora(mora, is_voiced);
        piece.append(&mut roman);
    }
    if phrase.accent > 0 && i + 1 == phrase.accent {
        piece.push('\'');
    }
    out.append(&mut piece);
    assert((out@, next_pending) =~= roman_step(ms, phrase@.accent, i as int, old(out)@, pending));
    next_pending
}

fn format_phrase_roman(phrase: &AccentPhrase) -> (out: Vec<char>)
    ensures
        out@ == roman_prefix(phrase@.moras, phrase@.accent, phrase@.moras.len()).0,
{
    let mut out: Vec<char> = Vec::new();
    let mut pending_double: Option<char> = None;
    let n = phrase.moras.len();
    for i in 0..n
        invariant
            n == phrase@.moras.len(),
            (out@, pending_double) == roman_prefix(phrase@.moras, phrase@.accent, i as nat),
    {
        pending_double = roman_mora_step(phrase, i, &mut out, pending_double);
    }
    out
}

fn format_phrase(phrase: &AccentPhrase, format: OutputFormat) -> (out: Vec<char>)
    ensures
        out@ == phrase_text(phrase@, format),
{
    match format {
        OutputFormat::Kana => format_phrase_kana(phrase),
        OutputFormat::Roman => format_phrase_roman(phrase),
    }
}

/// Chars of the phoneme string of a node sequence.
pub fn nodes_to_phoneme_chars(nodes: &[NodeData], format: OutputFormat) -> (out: Vec<char>)
    ensures
        out@ == phoneme_of(node_models(nodes@), format),
{
    let items = build_items(nodes);
    let pairs = pair_phrases(&items);
    if pairs.len() == 0 {
        return vec![Delimiter::Period.to_char(format)];
    }
    let ghost ps = pair_models(pairs@);
    let mut out: Vec<char> = Vec::new();
    for i in 0..pairs.len()
        invariant
            ps == pair_models(pairs@),
            out@ == pairs_text(ps.take(i as int), format),
    {
        proof {
            assert(ps.take(i + 1).drop_last() =~= ps.take(i as int));
            assert(ps.take(i + 1).last() == (pairs@[i as int].0@, pairs@[i as int].1));
        }
        let mut piece = format_phrase(&pairs[i].0, format);
        out.append(&mut piece);
        out.push(pairs[i].1.to_char(format));
    }
    assert(ps.take(pairs.len() as int) =~= ps);
    out
}

/// A rendered mora without the devoicing mark `’` (U+2019) that the analyser
/// puts at its end.
pub open spec fn strip_quotation(s: Seq<char>) -> Seq<char> {
    if s.len() > 0 && s.last() == '\u{2019}' { s.drop_last() } else { s }
}

pub open spec fn analysed_moras(v: Seq<(String, bool)>) -> Seq<(Seq<char>, bool)> {
    v.map_values(|p: (String, bool)| (strip_quotation(p.0@), p.1))
}

fn strip_quotation_chars(v: &[char]) -> (r: Vec<char>)
    ensures
        r@ == strip_quotation(v@),
{
    let n = if v.len() > 0 && v[v.len() - 1] == '\u{2019}' { v.len() - 1 } else { v.len() };
    let mut r: Vec<char> = Vec::new();
    for i in 0..n
        invariant
            n <= v.len(),
            r@ == v@.take(i as int),
    {
        r.push(v[i]);
        assert(v@.take(i + 1) == v@.take(i as int).push(v@[i as int]));
    }
    assert(v@.take(n as int) =~= strip_quotation(v@));
    r
}

impl NodeData {
    /// The node data of one analysed word: its surface text, its rendered
    /// moras with their voicing (a trailing `’` is removed), its accent, its
    /// chain flag (a missing flag does not chain), and its symbol flags.
    pub fn from_analysis(
        original: String,
        rendered_moras: Vec<(String, bool)>,
        accent: usize,
        chain_flag: Option<bool>,
        is_pron_empty: bool,
        is_touten: bool,
        is_question: bool,
    ) -> (r: NodeData)
        ensures
            r@ == (NodeModel {
                original: original@,
                moras: analysed_moras(rendered_moras@),
                accent: accent as nat,
                chain: chain_flag == Some(true),
                pron_empty: is_pron_empty,
                touten: is_touten,
                question: is_question,
            }),
    {
        let mut pron_moras: Vec<(String, bool)> = Vec::new();
        for i in 0..rendered_moras.len()
            invariant
                mora_pair_models(pron_moras@) == analysed_moras(rendered_moras@).take(i as int),
        {
            let m = string_of(&strip_quotation_chars(&chars_of(rendered_moras[i].0.as_str())));
            let voiced = rendered_moras[i].1;
            let ghost before = pron_moras@;
            pron_moras.push((m, voiced));
            assert(mora_pair_models(pron_moras@) =~= mora_pair_models(before).push((m@, voiced)));
            assert(analysed_moras(rendered_moras@)[i as int] == (m@, voiced));
            assert(mora_pair_models(pron_moras@) =~= analysed_moras(rendered_moras@).take(i + 1));
        }
        assert(analysed_moras(rendered_moras@).take(rendered_moras.len() as int)
            =~= analysed_moras(rendered_moras@));
        let chain_with_prev = match chain_flag {
            Some(b) => b,
            None => false,
        };
        NodeData {
            original,
            pron_moras,
            accent,
            chain_with_prev,
            is_pron_empty,
            is_touten,
            is_question,
        }
    }
}

/// Builds the phoneme string of an analysed node sequence.
///
/// Nodes are grouped into accent phrases (a node joins the phrase before it
/// where it chains to it; a node of prolonged sounds alone extends the phrase
/// before it, or is dropped where there is none), symbols become delimiters,
/// phrases with no delimiter between them are separated by `/`, and the last
/// phrase always ends a sentence. With no phrase at all the result is the
/// period alone.
pub fn nodes_to_phoneme(nodes: &[NodeData], format: OutputFormat) -> (s: String)
    ensures
        s@ == phoneme_of(node_models(nodes@), format),
{
    string_of(&nodes_to_phoneme_chars(nodes, format))
}

} // verus!
