# rcantonese

The logic of a Cantonese (Jyutping) input method for Windows, written in
Verus: each function carries a contract, and Verus proves that the code
meets it.

## Layout

- `src/` — the verified library.
  - `settings`, `config`, `settings_form`, `settings_menu`, `color`: the
    settings, their text file, the settings center's form, the language-bar
    menu and color conversions.
  - `modifiers`, `input_key`, `keytable`, `key_events`, `preserved_keys`,
    `punctuation`: which keys the input method takes, as what, and what
    each does.
  - `candidate_pages`, `candidate_items`, `window_layout`,
    `display_attributes`: the candidate list, its pages and selection, its
    rows, where its window goes, and how the composition is drawn.
  - `pattern`, `database`, `segmenter`, `split`, `engine`, `pinyin`,
    `lexicon`, `apostrophe_filter`, `pinyin_lookup`, `memory`,
    `memory_ranking`: the lexicon tables and their queries (spelling,
    anchors, shape codes, symbols), syllable segmentation, candidates from
    lexicon rows, anchors and a word's romanizations, which candidates fit
    input typed with apostrophes, the pinyin candidates of a reverse lookup
    (by spelling, by anchors and by leading slices of the input), the
    learned-word memory and the order in which learned words are offered.
  - `text`: character-sequence helpers.
- `tests/` — tests run against the compiled library.
- `app/` — the Windows side that the library leaves out: the settings file
  and registry, the SQLite files, and the process-wide keyboard state.

## Not here

The full Jyutping search that merges these candidate lists, the tone
filter, the search of the learned-word memory, the pinyin search with
joined candidates, the shape-code reverse lookups and the conversion of
text between character variants are not part of this library: they rest
on definitions (how candidates compare and sort, how syllable schemes are
spelled, how two candidates are joined, the character-variant tables) that
this project does not include.
