//! Conversion of analysed Japanese text into AquesTalk phoneme strings.
//!
//! Two notations are produced: kana notation (hiragana with half-width marks,
//! the standard AquesTalk input) and roman notation (ASCII only, as AquesTalk
//! pico reads it). Kana output is checked against the AquesTalk 1.8 reading
//! table and normalised before it is returned.
use vstd::prelude::*;
use e2k::C2k;

pub mod aquestalk;
pub mod converter;
pub mod english;
pub mod error;
pub mod mora;
pub mod normal_form;
pub mod phoneme;
pub mod text;

pub use converter::{Delimiter, NodeData, OutputFormat};
pub use error::{Error, Result};

use aquestalk::{failure_message, sanitize_chars, sanitized, SanitizeFailure};
use converter::{
    build_items_of, lemma_no_phrase_is_lone_period, node_models, nodes_to_phoneme_chars,
    phoneme_of, phrases_of, NodeModel,
};
use normal_form::lemma_sanitize_idempotent;
use english::{
    ascii_words, c2k_reading_limit, is_c2k_reading, katakanize_ascii_words, katakanized,
    lower_word, new_c2k,
};
use text::string_of;

verus! {

/// The reading limit of the English reader: no katakana reading that it
/// produces for one word is longer.
pub const ENGLISH_READING_MAX_LEN: usize = 64;

/// What converting a node sequence gives: nothing where the phoneme string is
/// a lone period, the sanitised string in kana notation, the string itself in
/// roman notation; a kana string that sanitising refuses gives the message of
/// the refusal.
pub open spec fn converted(nodes: Seq<NodeModel>, format: OutputFormat) -> core::result::Result<
    Seq<char>,
    Seq<char>,
> {
    let p = phoneme_of(nodes, format);
    if p == seq!['。'] || p == seq!['.'] {
        Ok(seq![])
    } else if format == OutputFormat::Kana {
        match sanitized(p) {
            Ok(s) => Ok(s),
            Err(f) => Err(failure_message(f)),
        }
    } else {
        Ok(p)
    }
}

/// Kana output passes AquesTalk validation unchanged: sanitising what the
/// converter returns in kana notation gives it back as it is.
pub proof fn lemma_kana_output_is_sanitized(nodes: Seq<NodeModel>)
    requires
        converted(nodes, OutputFormat::Kana) is Ok,
        converted(nodes, OutputFormat::Kana)->Ok_0.len() > 0,
    ensures
        sanitized(converted(nodes, OutputFormat::Kana)->Ok_0) == Ok::<Seq<char>, SanitizeFailure>(
            converted(nodes, OutputFormat::Kana)->Ok_0,
        ),
{
    let p = phoneme_of(nodes, OutputFormat::Kana);
    lemma_sanitize_idempotent(p);
}

/// Nodes that give no accent phrase, such as symbols alone, convert to the
/// empty string in both notations.
pub proof fn lemma_no_phrase_gives_empty_output(nodes: Seq<NodeModel>, format: OutputFormat)
    requires
        phrases_of(build_items_of(nodes)).len() == 0,
    ensures
        converted(nodes, format) == Ok::<Seq<char>, Seq<char>>(seq![]),
{
    lemma_no_phrase_is_lone_period(nodes, format);
}

/// The converter: text is first rewritten so that ASCII words read as English
/// in katakana, then analysed, and the analysed nodes are turned into an
/// AquesTalk phoneme string.
#[derive(Debug)]
pub struct AqKanji2Koe {
    english_to_katakana: C2k,
}

impl AqKanji2Koe {
    /// The converter's English reader.
    pub closed spec fn english_reader(&self) -> C2k {
        self.english_to_katakana
    }

    /// The reading limit of the converter's English reader.
    pub closed spec fn reading_limit(&self) -> nat {
        c2k_reading_limit(self.english_to_katakana)
    }

    /// A converter with the embedded English reading model, whose readings
    /// are at most [`ENGLISH_READING_MAX_LEN`] characters long.
    pub fn new() -> (r: AqKanji2Koe)
        ensures
            r.reading_limit() == ENGLISH_READING_MAX_LEN,
    {
        AqKanji2Koe { english_to_katakana: new_c2k(ENGLISH_READING_MAX_LEN) }
    }

    /// The text with each ASCII word replaced by the katakana reading that the
    /// English reader gives for its lower-case form (a word with an empty
    /// reading stays), ready for analysis; no reading is longer than the
    /// reading limit.
    pub fn normalize_text(&self, text: &str) -> (r: String)
        ensures
            exists|readings: Seq<Seq<char>>|
                readings.len() == ascii_words(text@).len()
                    && (forall|k: int| 0 <= k < readings.len() ==> (#[trigger] readings[k]).len()
                        <= self.reading_limit() && is_c2k_reading(
                        self.english_reader(),
                        lower_word(ascii_words(text@)[k]),
                        readings[k],
                    ))
                    && r@ == #[trigger] katakanized(text@, readings),
    {
        katakanize_ascii_words(text, &self.english_to_katakana)
    }

    fn convert_with_format(&self, nodes: &[NodeData], format: OutputFormat) -> (r: Result<String>)
        ensures
            match r {
                Ok(s) => converted(node_models(nodes@), format) == Ok::<Seq<char>, Seq<char>>(s@),
                Err(e) => e is Processing && converted(node_models(nodes@), format)
                    == Err::<Seq<char>, Seq<char>>(e->Processing_0@),
            },
    {
        let phonemes = nodes_to_phoneme_chars(nodes, format);
        if phonemes.len() == 1 && (phonemes[0] == '。' || phonemes[0] == '.') {
            proof {
                assert(phonemes@ =~= seq![phonemes@[0]]);
            }
            return Ok(String::new());
        }
        proof {
            if phonemes@ == seq!['。'] || phonemes@ == seq!['.'] {
                assert(phonemes@.len() == 1);
            }
        }
        if format == OutputFormat::Kana {
            match sanitize_chars(&phonemes) {
                Ok(v) => Ok(string_of(&v)),
                Err(e) => Err(Error::Processing(e.message())),
            }
        } else {
            Ok(string_of(&phonemes))
        }
    }

    /// Converts analysed nodes into a kana phoneme string (UTF-8).
    ///
    /// The string is checked against the AquesTalk 1.8 reading table and
    /// normalised before it is returned; an accent phrase that is too long is
    /// refused with [`Error::Processing`], never split.
    pub fn convert(&self, nodes: &[NodeData]) -> (r: Result<String>)
        ensures
            match r {
                Ok(s) => converted(node_models(nodes@), OutputFormat::Kana) == Ok::<
                    Seq<char>,
                    Seq<char>,
                >(s@),
                Err(e) => e is Processing && converted(node_models(nodes@), OutputFormat::Kana)
                    == Err::<Seq<char>, Seq<char>>(e->Processing_0@),
            },
    {
        self.convert_with_format(nodes, OutputFormat::Kana)
    }

    /// Converts analysed nodes into a roman phoneme string (ASCII).
    pub fn convert_roman(&self, nodes: &[NodeData]) -> (r: Result<String>)
        ensures
            match r {
                Ok(s) => converted(node_models(nodes@), OutputFormat::Roman) == Ok::<
                    Seq<char>,
                    Seq<char>,
                >(s@),
                Err(e) => e is Processing && converted(node_models(nodes@), OutputFormat::Roman)
                    == Err::<Seq<char>, Seq<char>>(e->Processing_0@),
            },
    {
        self.convert_with_format(nodes, OutputFormat::Roman)
    }
}

} // verus!
