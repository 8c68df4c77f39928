# karukan

The text-processing core of a Japanese input method, written in Verus:
every function in `src/` carries a contract that Verus proves.

## Layout

- `src/text.rs`: crossing between strings and character vectors.
- `src/kana.rs`: hiragana/katakana conversion, half-width katakana,
  full-width ASCII, NFKC normalisation.
- `src/width.rs`: which width (half or full) a symbol or digit settles at.
- `src/romaji/`: the romaji rule table, its punctuation/bracket styles, and
  the converter from keystrokes to kana.
- `src/engine/`: the composition buffer (live keystrokes and settled text),
  chunking of a reading for live conversion and manual chunk breaks, the
  conversion cache (least-recently-used eviction) and the plan of a
  conversion around it, the choice of conversion strategy, the key
  bindings of each input state (`keys`), what Return and Escape do
  (`composing`), the merged candidate list and the dictionary and
  learning hits behind it (`candidates`), and the aux and context lines.
  The model, dictionaries and learning store are outside: their results
  come in as arguments.
- `src/rewriter/`: candidate rewriters (alphabet widths and cases,
  half-width katakana, number styles, symbols, emoji, dates).
- `src/state.rs`: the input state (idle, composing, converting) with its
  preedit and candidate list, and what committing a conversion takes.
- `src/keycode.rs`: key symbols, modifiers and key events.
- `src/kanji.rs`: small helpers around the kana-to-kanji model's tokens.
- `tests/`: tests run against the compiled library.
- `app/`: serde/thiserror copies of library types for configuration files
  and error reporting.

Laws that relate several operations (a lookup right after an insertion
finds what was inserted, katakana of hiragana turns back into the
hiragana, chunks laid end to end give back the reading, and so on) are
public proof functions beside the code they speak of.
