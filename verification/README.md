# aqkanji2koe

Turns analysed Japanese text into AquesTalk phoneme strings, in kana notation
(hiragana with half-width marks) or roman notation (ASCII only).

- `src/` is the verified library (Verus): the reading table of AquesTalk 1.8
  (`mora`), romanisation and devoiced forms of moras (`phoneme`), the
  phrase builder (`converter`), validation and normalisation of kana strings
  (`aquestalk`) with the proof that it is idempotent (`normal_form`), the
  replacement of ASCII words by katakana readings (`english`), and the
  converter front (`lib.rs`).
- `app/` holds what the library cannot: morphological analysis with
  jpreprocess and its bundled dictionary, and the WebAssembly bindings.
- `tests/` runs the library on concrete inputs.
