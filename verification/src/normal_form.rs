//! Normal form of sanitised kana phoneme strings.
use vstd::prelude::*;
use crate::mora::{is_reading, is_double_reading, kata_to_hira};
use crate::aquestalk::{
    TokenModel, Lexeme, SanitizeFailure, is_delimiter, is_devoiceable, is_devoiceable_double,
    next_lexeme, lexeme_len, plain_token, devoiced_token, with_accent, scan, sanitized,
    normalize, drop_pass, close_last, devoice_pass, render, render_token, accent_count,
    has_accent, is_long_vowel, is_sokuon, is_forbidden_after_devoiced,
    MAX_READINGS_PER_PHRASE,
};

verus! {

/// Small kana that only ever end a reading.
pub open spec fn is_small_kana(c: char) -> bool {
    c == 'ゃ' || c == 'ゅ' || c == 'ょ' || c == 'ぇ' || c == 'ぁ' || c == 'ぃ' || c == 'ぅ'
    || c == 'ぉ' || c == 'ィ' || c == 'ュ' || c == 'ゥ'
}

/// A character after which the scanner never extends the reading before it.
pub open spec fn can_follow(s: Seq<char>) -> bool {
    s.len() == 0 || !is_small_kana(s[0])
}

/// A reading as the scanner creates it: a plain defined reading, or a
/// devoiced one written `_` and a devoiceable katakana mora.
pub open spec fn is_valid_token(t: TokenModel) -> bool {
    if t.devoiced {
        &&& t.rendered.len() >= 1
        &&& t.rendered[0] == '_'
        &&& is_devoiceable(t.rendered.drop_first())
        &&& t.normal == t.rendered.drop_first().map_values(|c: char| kata_to_hira(c))
    } else {
        t.rendered == t.normal && is_reading(t.normal)
    }
}

pub open spec fn all_valid(ts: Seq<TokenModel>) -> bool {
    forall|i: int| 0 <= i < ts.len() ==> is_valid_token(#[trigger] ts[i])
}

pub open spec fn lexeme_of(t: TokenModel) -> Lexeme {
    if t.devoiced { Lexeme::Devoiced(t.rendered.drop_first()) } else { Lexeme::Reading(t.normal) }
}

proof fn lemma_reading_start(r: Seq<char>)
    requires
        is_reading(r),
    ensures
        !is_small_kana(r[0]),
        !is_delimiter(r[0]),
        r[0] != '\'',
        r[0] != '_',
{
}

proof fn lemma_second_is_small(a: char, b: char)
    ensures
        is_double_reading(a, b) ==> is_small_kana(b),
        is_devoiceable_double(a, b) ==> is_small_kana(b),
{
}

proof fn lemma_devoiced_normal_is_reading(m: Seq<char>)
    requires
        is_devoiceable(m),
    ensures
        is_reading(m.map_values(|c: char| kata_to_hira(c))),
{
    let h = m.map_values(|c: char| kata_to_hira(c));
    if m.len() == 1 {
        assert(h[0] == kata_to_hira(m[0]));
    } else {
        assert(h[0] == kata_to_hira(m[0]));
        assert(h[1] == kata_to_hira(m[1]));
    }
}

/// The scanner reads a valid reading back from its written form.
proof fn lemma_lex_token(t: TokenModel, rest: Seq<char>)
    requires
        is_valid_token(t),
        can_follow(rest),
    ensures
        next_lexeme(t.rendered + rest) == Some(lexeme_of(t)),
        lexeme_len(lexeme_of(t)) == t.rendered.len(),
        t.rendered.len() > 0,
        !is_small_kana(t.rendered[0]),
        match lexeme_of(t) {
            Lexeme::Devoiced(m) => devoiced_token(m) == TokenModel { accent: false, ..t },
            Lexeme::Reading(r) => plain_token(r) == TokenModel { accent: false, ..t },
            _ => false,
        },
{
    let s = t.rendered + rest;
    if t.devoiced {
        let m = t.rendered.drop_first();
        assert(seq!['_'] + m =~= t.rendered);
        if m.len() == 1 {
            assert(s[1] == m[0]);
            if s.len() >= 3 {
                assert(s[2] == rest[0]);
                lemma_second_is_small(s[1], s[2]);
            }
            assert(s.subrange(1, 2) =~= m);
        } else {
            assert(s[1] == m[0]);
            assert(s[2] == m[1]);
            assert(s.subrange(1, 3) =~= m);
        }
    } else {
        let r = t.normal;
        lemma_reading_start(r);
        assert(s[0] == r[0]);
        if r.len() == 1 {
            if s.len() >= 2 {
                assert(s[1] == rest[0]);
                lemma_second_is_small(s[0], s[1]);
            }
            assert(s.subrange(0, 1) =~= r);
        } else {
            assert(s[1] == r[1]);
            assert(s.subrange(0, 2) =~= r);
        }
    }
}

proof fn lemma_accent_count_push(ts: Seq<TokenModel>, t: TokenModel)
    ensures
        accent_count(ts.push(t)) == accent_count(ts) + if t.accent { 1nat } else { 0nat },
{
    assert(ts.push(t).drop_last() =~= ts);
}

proof fn lemma_accent_count_zero(ts: Seq<TokenModel>)
    requires
        accent_count(ts) == 0,
    ensures
        !has_accent(ts),
    decreases ts.len(),
{
    if ts.len() > 0 {
        lemma_accent_count_zero(ts.drop_last());
        assert forall|i: int| 0 <= i < ts.len() implies !(#[trigger] ts[i]).accent by {
            if i < ts.len() - 1 {
                assert(ts.drop_last()[i] == ts[i]);
            }
        }
    }
}

/// Scanning the written form of one valid reading adds that reading to the
/// open phrase.
proof fn lemma_scan_one(t: TokenModel, rest: Seq<char>, out: Seq<char>, p: Seq<TokenModel>)
    requires
        is_valid_token(t),
        can_follow(rest),
        t.accent ==> !has_accent(p),
    ensures
        scan(render_token(t) + rest, out, p) == scan(rest, out, p.push(t)),
{
    let t0 = TokenModel { accent: false, ..t };
    if !t.accent {
        lemma_lex_token(t, rest);
        let s1 = t.rendered + rest;
        assert(s1.skip(lexeme_len(lexeme_of(t)) as int) =~= rest);
        assert(t0 == t);
        assert(render_token(t) == t.rendered);
        if t.devoiced {
            assert(scan(s1, out, p) == scan(rest, out, p.push(devoiced_token(t.rendered.drop_first()))));
        } else {
            assert(scan(s1, out, p) == scan(rest, out, p.push(plain_token(t.normal))));
        }
    } else {
        let tail = seq!['\''] + rest;
        assert(render_token(t) + rest =~= t.rendered + tail);
        lemma_lex_token(t, tail);
        assert((t.rendered + tail).skip(t.rendered.len() as int) =~= tail);
        let q = p.push(t0);
        assert(!has_accent(q)) by {
            assert forall|i: int| 0 <= i < q.len() implies !(#[trigger] q[i]).accent by {
                if i < p.len() {
                    assert(q[i] == p[i]);
                }
            }
        }
        assert(tail.skip(1) =~= rest);
        assert(with_accent(q.last()) == t);
        assert(q.update(q.len() - 1, with_accent(q.last())) =~= p.push(t));
        assert(scan(tail, out, q) == scan(rest, out, p.push(t)));
        let s1 = t.rendered + tail;
        assert(s1.skip(lexeme_len(lexeme_of(t)) as int) =~= tail);
        if t.devoiced {
            assert(scan(s1, out, p) == scan(tail, out, p.push(devoiced_token(t.rendered.drop_first()))));
        } else {
            assert(scan(s1, out, p) == scan(tail, out, p.push(plain_token(t.normal))));
        }
    }
}

/// Scanning the written form of valid readings adds those readings to the open
/// phrase, as long as the phrase ends up with at most one accent.
proof fn lemma_scan_tokens(ts: Seq<TokenModel>, rest: Seq<char>, out: Seq<char>, phrase: Seq<TokenModel>)
    requires
        all_valid(ts),
        can_follow(rest),
        accent_count(phrase + ts) <= 1,
    ensures
        scan(render(ts) + rest, out, phrase) == scan(rest, out, phrase + ts),
    decreases ts.len(),
{
    if ts.len() == 0 {
        assert(render(ts) + rest =~= rest);
        assert(phrase + ts =~= phrase);
    } else {
        let ts0 = ts.drop_last();
        let t = ts.last();
        assert(is_valid_token(t));
        lemma_lex_token(t, rest);
        let rest1 = render_token(t) + rest;
        assert(rest1[0] == t.rendered[0]);
        assert(phrase + ts =~= (phrase + ts0).push(t));
        lemma_accent_count_push(phrase + ts0, t);
        assert(all_valid(ts0)) by {
            assert forall|i: int| 0 <= i < ts0.len() implies is_valid_token(#[trigger] ts0[i]) by {
                assert(ts0[i] == ts[i]);
            }
        }
        lemma_scan_tokens(ts0, rest1, out, phrase);
        assert(render(ts) + rest =~= render(ts0) + rest1);
        if t.accent {
            lemma_accent_count_zero(phrase + ts0);
        }
        lemma_scan_one(t, rest, out, phrase + ts0);
    }
}

/// No sokuon at `i` is followed by another sokuon or a prolonged sound.
pub open spec fn sokuon_ok(ts: Seq<TokenModel>, i: int) -> bool {
    !(is_sokuon(ts[i].normal) && (is_sokuon(ts[i + 1].normal) || is_long_vowel(ts[i + 1].normal)))
}

/// No devoiced reading at `i` is followed by a reading that may not follow one.
pub open spec fn devoicing_ok(ts: Seq<TokenModel>, i: int) -> bool {
    !(ts[i].devoiced && is_forbidden_after_devoiced(ts[i + 1].normal))
}

/// The readings of a phrase after the first normalisation pass: valid, not
/// starting with a prolonged sound, and without a sokuon before a sokuon or a
/// prolonged sound.
pub open spec fn is_dropped_form(ts: Seq<TokenModel>) -> bool {
    &&& all_valid(ts)
    &&& ts.len() > 0 ==> !is_long_vowel(ts[0].normal)
    &&& forall|i: int| 0 <= i < ts.len() - 1 ==> #[trigger] sokuon_ok(ts, i)
}

/// The readings of a phrase that sanitising writes out: every rule that
/// normalisation enforces already holds of them.
pub open spec fn is_normal_phrase(ts: Seq<TokenModel>) -> bool {
    &&& ts.len() > 0
    &&& ts.len() <= MAX_READINGS_PER_PHRASE
    &&& is_dropped_form(ts)
    &&& !is_sokuon(ts.last().normal)
    &&& forall|i: int| 0 <= i < ts.len() - 1 ==> #[trigger] devoicing_ok(ts, i)
    &&& accent_count(ts) <= 1
}

proof fn lemma_drop_pass_identity(ts: Seq<TokenModel>)
    requires
        is_dropped_form(ts),
    ensures
        drop_pass(ts) == ts,
    decreases ts.len(),
{
    if ts.len() > 0 {
        let ts0 = ts.drop_last();
        assert(is_dropped_form(ts0)) by {
            assert forall|i: int| 0 <= i < ts0.len() implies is_valid_token(#[trigger] ts0[i]) by {
                assert(ts0[i] == ts[i]);
            }
            assert forall|i: int| 0 <= i < ts0.len() - 1 implies #[trigger] sokuon_ok(ts0, i) by {
                assert(sokuon_ok(ts, i));
            }
        }
        lemma_drop_pass_identity(ts0);
        if ts0.len() > 0 {
            assert(sokuon_ok(ts, ts.len() - 2));
        }
        assert(ts0.push(ts.last()) =~= ts);
    }
}

/// A phrase in normal form normalises to its own written form.
proof fn lemma_normalize_normal(ts: Seq<TokenModel>)
    requires
        is_normal_phrase(ts),
    ensures
        normalize(ts) == Ok::<Seq<char>, SanitizeFailure>(render(ts)),
{
    lemma_drop_pass_identity(ts);
    assert(close_last(ts) == ts);
    assert(devoice_pass(ts) =~= ts) by {
        assert forall|i: int| 0 <= i < ts.len() implies #[trigger] devoice_pass(ts)[i] == ts[i] by {
            if i + 1 < ts.len() {
                assert(devoicing_ok(ts, i));
            }
        }
    }
}

pub open spec fn norm_tokens(phrase: Seq<TokenModel>) -> Seq<TokenModel> {
    devoice_pass(close_last(drop_pass(phrase)))
}

proof fn lemma_valid_prefix(ts: Seq<TokenModel>)
    requires
        all_valid(ts),
        ts.len() > 0,
    ensures
        all_valid(ts.drop_last()),
        is_valid_token(ts.last()),
{
    assert forall|i: int| 0 <= i < ts.drop_last().len() implies is_valid_token(
        #[trigger] ts.drop_last()[i],
    ) by {
        assert(ts.drop_last()[i] == ts[i]);
    }
}

proof fn lemma_drop_pass_form(phrase: Seq<TokenModel>)
    requires
        all_valid(phrase),
    ensures
        is_dropped_form(drop_pass(phrase)),
    decreases phrase.len(),
{
    if phrase.len() > 0 {
        lemma_valid_prefix(phrase);
        let prev = drop_pass(phrase.drop_last());
        lemma_drop_pass_form(phrase.drop_last());
        let t = phrase.last();
        let r = drop_pass(phrase);
        if prev.len() == 0 && is_long_vowel(t.normal) {
        } else if (is_sokuon(t.normal) || is_long_vowel(t.normal)) && prev.len() > 0
            && is_sokuon(prev.last().normal) {
            if t.accent {
                assert(r.len() == prev.len());
                assert forall|i: int| 0 <= i < r.len() implies #[trigger] r[i].normal == prev[i].normal
                    && r[i].devoiced == prev[i].devoiced && r[i].rendered == prev[i].rendered by {}
                assert forall|i: int| 0 <= i < r.len() implies is_valid_token(#[trigger] r[i]) by {
                    assert(is_valid_token(prev[i]));
                }
                assert forall|i: int| 0 <= i < r.len() - 1 implies #[trigger] sokuon_ok(r, i) by {
                    assert(sokuon_ok(prev, i));
                }
            }
        } else {
            assert forall|i: int| 0 <= i < r.len() implies is_valid_token(#[trigger] r[i]) by {
                if i < prev.len() {
                    assert(r[i] == prev[i]);
                }
            }
            assert forall|i: int| 0 <= i < r.len() - 1 implies #[trigger] sokuon_ok(r, i) by {
                if i < prev.len() - 1 {
                    assert(sokuon_ok(prev, i));
                }
            }
        }
    }
}

proof fn lemma_norm_tokens_normal(phrase: Seq<TokenModel>)
    requires
        all_valid(phrase),
        normalize(phrase) is Ok,
    ensures
        is_normal_phrase(norm_tokens(phrase)),
        normalize(phrase) == Ok::<Seq<char>, SanitizeFailure>(render(norm_tokens(phrase))),
{
    let d = drop_pass(phrase);
    lemma_drop_pass_form(phrase);
    let c = close_last(d);
    let v = devoice_pass(c);
    assert(c.len() == d.len());
    assert forall|i: int| 0 <= i < c.len() - 1 implies #[trigger] c[i] == d[i] by {}
    // the closed phrase keeps the dropped form
    assert(is_dropped_form(c)) by {
        assert forall|i: int| 0 <= i < c.len() implies is_valid_token(#[trigger] c[i]) by {
            if i < c.len() - 1 {
                assert(c[i] == d[i]);
            } else {
                assert(is_valid_token(d[i]));
                if is_sokuon(d.last().normal) {
                    assert(is_reading(seq!['つ']));
                }
            }
        }
        assert forall|i: int| 0 <= i < c.len() - 1 implies #[trigger] sokuon_ok(c, i) by {
            assert(sokuon_ok(d, i));
        }
    }
    assert(!is_sokuon(c.last().normal));
    assert(v.len() == c.len());
    assert forall|i: int| 0 <= i < v.len() implies #[trigger] v[i].normal == c[i].normal
        && v[i].accent == c[i].accent && (v[i].devoiced ==> c[i].devoiced) by {}
    assert(is_dropped_form(v)) by {
        assert forall|i: int| 0 <= i < v.len() implies is_valid_token(#[trigger] v[i]) by {
            assert(is_valid_token(c[i]));
            if v[i] != c[i] {
                lemma_devoiced_normal_is_reading(c[i].rendered.drop_first());
            }
        }
        assert forall|i: int| 0 <= i < v.len() - 1 implies #[trigger] sokuon_ok(v, i) by {
            assert(sokuon_ok(c, i));
        }
    }
    assert forall|i: int| 0 <= i < v.len() - 1 implies #[trigger] devoicing_ok(v, i) by {}
}

/// The normalised phrases, each with the delimiter that closes it, that
/// scanning `rest` with the open phrase `phrase` writes out.
pub open spec fn scan_parts(rest: Seq<char>, phrase: Seq<TokenModel>) -> Seq<(Seq<TokenModel>, char)>
    decreases rest.len(),
{
    if rest.len() == 0 {
        seq![]
    } else {
        match next_lexeme(rest) {
            None => seq![],
            Some(l) => {
                let tail = rest.skip(lexeme_len(l) as int);
                match l {
                    Lexeme::Delim(d) => seq![(norm_tokens(phrase), d)] + scan_parts(tail, seq![]),
                    Lexeme::Accent => if phrase.len() == 0 {
                        seq![]
                    } else {
                        scan_parts(tail, phrase.update(phrase.len() - 1, with_accent(phrase.last())))
                    },
                    Lexeme::Devoiced(m) => scan_parts(tail, phrase.push(devoiced_token(m))),
                    Lexeme::Reading(r) => scan_parts(tail, phrase.push(plain_token(r))),
                }
            },
        }
    }
}

/// The written form of normalised phrases and their delimiters.
pub open spec fn render_parts(parts: Seq<(Seq<TokenModel>, char)>) -> Seq<char>
    decreases parts.len(),
{
    if parts.len() == 0 {
        seq![]
    } else {
        render(parts[0].0).push(parts[0].1) + render_parts(parts.drop_first())
    }
}

pub open spec fn all_normal_parts(parts: Seq<(Seq<TokenModel>, char)>) -> bool {
    forall|k: int| 0 <= k < parts.len() ==> is_normal_phrase(#[trigger] parts[k].0)
        && is_delimiter(parts[k].1)
}

proof fn lemma_scan_ok_shape(rest: Seq<char>, out: Seq<char>, phrase: Seq<TokenModel>)
    requires
        scan(rest, out, phrase) is Ok,
        all_valid(phrase),
    ensures
        scan(rest, out, phrase) == Ok::<Seq<char>, SanitizeFailure>(
            out + render_parts(scan_parts(rest, phrase)),
        ),
        all_normal_parts(scan_parts(rest, phrase)),
        (out + render_parts(scan_parts(rest, phrase))).len() > 0,
    decreases rest.len(),
{
    if rest.len() == 0 {
        assert(out + render_parts(scan_parts(rest, phrase)) =~= out);
    } else {
        let l = next_lexeme(rest)->0;
        let tail = rest.skip(lexeme_len(l) as int);
        match l {
            Lexeme::Delim(d) => {
                lemma_norm_tokens_normal(phrase);
                let text = render(norm_tokens(phrase));
                let out2 = out + text.push(d);
                lemma_scan_ok_shape(tail, out2, seq![]);
                let parts2 = scan_parts(tail, seq![]);
                let parts = scan_parts(rest, phrase);
                assert(parts == seq![(norm_tokens(phrase), d)] + parts2);
                assert(parts[0] == (norm_tokens(phrase), d));
                assert(parts.drop_first() =~= parts2);
                assert(out + render_parts(parts) =~= out2 + render_parts(parts2));
                assert forall|k: int| 0 <= k < parts.len() implies is_normal_phrase(#[trigger] parts[k].0)
                    && is_delimiter(parts[k].1) by {
                    if k > 0 {
                        assert(parts[k] == parts2[k - 1]);
                    }
                }
            },
            Lexeme::Accent => {
                let p2 = phrase.update(phrase.len() - 1, with_accent(phrase.last()));
                assert forall|i: int| 0 <= i < p2.len() implies is_valid_token(#[trigger] p2[i]) by {
                    assert(is_valid_token(phrase[i]));
                }
                lemma_scan_ok_shape(tail, out, p2);
            },
            Lexeme::Devoiced(m) => {
                let p2 = phrase.push(devoiced_token(m));
                assert(devoiced_token(m).rendered.drop_first() =~= m);
                assert forall|i: int| 0 <= i < p2.len() implies is_valid_token(#[trigger] p2[i]) by {
                    if i < phrase.len() {
                        assert(p2[i] == phrase[i]);
                    }
                }
                lemma_scan_ok_shape(tail, out, p2);
            },
            Lexeme::Reading(r) => {
                let p2 = phrase.push(plain_token(r));
                assert forall|i: int| 0 <= i < p2.len() implies is_valid_token(#[trigger] p2[i]) by {
                    if i < phrase.len() {
                        assert(p2[i] == phrase[i]);
                    }
                }
                lemma_scan_ok_shape(tail, out, p2);
            },
        }
    }
}

/// Scanning normalised phrases, each closed by a delimiter, writes them out
/// unchanged.
pub proof fn lemma_scan_normal_parts(parts: Seq<(Seq<TokenModel>, char)>, rest: Seq<char>, out: Seq<char>)
    requires
        all_normal_parts(parts),
    ensures
        scan(render_parts(parts) + rest, out, seq![]) == scan(rest, out + render_parts(parts), seq![]),
    decreases parts.len(),
{
    if parts.len() == 0 {
        assert(render_parts(parts) + rest =~= rest);
        assert(out + render_parts(parts) =~= out);
    } else {
        let ts = parts[0].0;
        let d = parts[0].1;
        let rest_parts = parts.drop_first();
        assert(is_normal_phrase(ts) && is_delimiter(d));
        assert(all_normal_parts(rest_parts)) by {
            assert forall|k: int| 0 <= k < rest_parts.len() implies is_normal_phrase(
                #[trigger] rest_parts[k].0,
            ) && is_delimiter(rest_parts[k].1) by {
                assert(rest_parts[k] == parts[k + 1]);
            }
        }
        let r2 = render_parts(rest_parts) + rest;
        let after = seq![d] + r2;
        assert(render_parts(parts) + rest =~= render(ts) + after);
        assert(seq![] + ts =~= ts);
        lemma_scan_tokens(ts, after, out, seq![]);
        lemma_normalize_normal(ts);
        assert(after.skip(1) =~= r2);
        let out2 = out + render(ts).push(d);
        assert(scan(after, out, ts) == scan(r2, out2, seq![]));
        lemma_scan_normal_parts(rest_parts, rest, out2);
        assert(out2 + render_parts(rest_parts) =~= out + render_parts(parts));
    }
}

/// Every string that sanitising accepts is written entirely of normalised
/// phrases, each closed by a delimiter: only defined readings, at most 255 of
/// them and at most one accent per phrase, no leading prolonged sound, no
/// sokuon before a sokuon or a prolonged sound or at the end of a phrase, and
/// no devoiced reading before a reading that may not follow one.
pub proof fn lemma_sanitized_shape(input: Seq<char>)
    requires
        sanitized(input) is Ok,
    ensures
        sanitized(input) == Ok::<Seq<char>, SanitizeFailure>(render_parts(scan_parts(input, seq![]))),
        all_normal_parts(scan_parts(input, seq![])),
        scan_parts(input, seq![]).len() > 0,
{
    assert(all_valid(seq![]));
    lemma_scan_ok_shape(input, seq![], seq![]);
    let parts = scan_parts(input, seq![]);
    assert(seq![] + render_parts(parts) =~= render_parts(parts));
}

/// Sanitising is idempotent: a string that sanitising accepts comes out in a
/// form that sanitising accepts again and gives back unchanged.
pub proof fn lemma_sanitize_idempotent(input: Seq<char>)
    requires
        sanitized(input) is Ok,
    ensures
        sanitized(sanitized(input)->Ok_0) == sanitized(input),
{
    assert(all_valid(seq![]));
    lemma_scan_ok_shape(input, seq![], seq![]);
    let parts = scan_parts(input, seq![]);
    let y = render_parts(parts);
    assert(seq![] + y =~= y);
    lemma_scan_normal_parts(parts, seq![], seq![]);
    assert(y + seq![] =~= y);
}

} // verus!
