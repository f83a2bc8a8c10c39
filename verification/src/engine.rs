//! The input engine: the lexicon database with the segmenter built from it,
//! the pinyin syllables, reverse lookup of a word's romanization, and the
//! text helpers that the searches share.
use vstd::prelude::*;

use crate::database::{romanizations_of, ImeDatabase, LexiconEntry, PinyinSyllableRow};
use crate::database::{limited, LexiconRow};
use crate::input_key::{codes_in_range, combined_code, combined_code_of, key_codes, letter_key, VirtualInputKey};
use crate::lexicon::{lexicon_views, lexicons_from_rows, optional_chars, row_lexicon, Lexicon, LexiconView};
use crate::segmenter::{segment_spec, Segmenter, Syllable};
use crate::text::{append_chars, chars_of, split_char, split_chars, string_from_chars};

verus! {

/// The parts of `s` between occurrences of `sep`, empty parts dropped.
pub open spec fn nonempty_parts(s: Seq<char>, sep: char) -> Seq<Seq<char>> {
    split_char(s, sep).filter(|p: Seq<char>| p.len() > 0)
}

/// Splits `text` at `separator`, dropping empty parts.
pub fn split(text: &str, separator: char) -> (parts: Vec<String>)
    ensures
        parts@.map_values(|p: String| p@) == nonempty_parts(text@, separator),
{
    let chars = chars_of(text);
    let pieces = split_chars(chars.as_slice(), separator);
    let ghost all = split_char(text@, separator);
    let ghost keep = |p: Seq<char>| p.len() > 0;
    let mut parts: Vec<String> = Vec::new();
    let mut i: usize = 0;
    while i < pieces.len()
        invariant
            0 <= i <= pieces@.len(),
            pieces@.len() == all.len(),
            forall|j: int| 0 <= j < all.len() ==> #[trigger] pieces@[j]@ == all[j],
            keep == (|p: Seq<char>| p.len() > 0),
            parts@.map_values(|p: String| p@) == all.take(i as int).filter(keep),
        decreases pieces.len() - i,
    {
        proof {
            assert(all.take(i as int + 1) =~= all.take(i as int).push(all[i as int]));
            all.take(i as int).lemma_filter_push(all[i as int], keep);
        }
        if pieces[i].len() > 0 {
            let part = string_from_chars(pieces[i].as_slice());
            proof {
                assert(parts@.push(part).map_values(|p: String| p@) =~= parts@.map_values(
                    |p: String| p@,
                ).push(part@));
            }
            parts.push(part);
        }
        i += 1;
    }
    proof {
        assert(all.take(i as int) =~= all);
    }
    parts
}


// ---------------------------------------------------------------------
// Pinyin schemes
// ---------------------------------------------------------------------

/// A pinyin syllable: its code, the keys that spell it and its text.
pub struct PinyinSyllable {
    pub code: i64,
    pub keys: Vec<VirtualInputKey>,
    pub text: String,
}

/// The keys of a code's digit pairs that are letters (20 for `a` to 45 for
/// `z`), in order.
pub open spec fn letter_keys_of_codes(codes: Seq<i64>) -> Seq<VirtualInputKey>
    decreases codes.len(),
{
    if codes.len() == 0 {
        Seq::empty()
    } else {
        let init = letter_keys_of_codes(codes.drop_last());
        if 20 <= codes.last() <= 45 {
            init.push(letter_key(codes.last() - 20))
        } else {
            init
        }
    }
}

/// The number of keys of a scheme.
pub open spec fn scheme_length_of(scheme: Seq<PinyinSyllable>) -> int
    decreases scheme.len(),
{
    if scheme.len() == 0 {
        0
    } else {
        scheme_length_of(scheme.drop_last()) + scheme.last().keys@.len()
    }
}

/// The key counts of the syllables as decimal digits (with wrap-around).
pub open spec fn scheme_complexity_of(scheme: Seq<PinyinSyllable>) -> i64
    decreases scheme.len(),
{
    if scheme.len() == 0 {
        0
    } else {
        scheme_complexity_of(scheme.drop_last()).wrapping_mul(10).wrapping_add(
            scheme.last().keys@.len() as i64,
        )
    }
}

/// The keys of the syllables, one after another.
pub open spec fn scheme_keys_of(scheme: Seq<PinyinSyllable>) -> Seq<VirtualInputKey>
    decreases scheme.len(),
{
    if scheme.len() == 0 {
        Seq::empty()
    } else {
        scheme_keys_of(scheme.drop_last()) + scheme.last().keys@
    }
}

/// The texts of the syllables, one after another.
pub open spec fn scheme_text_of(scheme: Seq<PinyinSyllable>) -> Seq<char>
    decreases scheme.len(),
{
    if scheme.len() == 0 {
        Seq::empty()
    } else {
        scheme_text_of(scheme.drop_last()) + scheme.last().text@
    }
}

/// Texts joined by `sep`.
pub open spec fn joined(parts: Seq<Seq<char>>, sep: char) -> Seq<char>
    decreases parts.len(),
{
    if parts.len() == 0 {
        Seq::empty()
    } else if parts.len() == 1 {
        parts[0]
    } else {
        joined(parts.drop_last(), sep).push(sep) + parts.last()
    }
}

/// The number of keys of a pinyin scheme.
pub fn pinyin_scheme_length(scheme: &Vec<PinyinSyllable>) -> (n: usize)
    requires
        scheme_length_of(scheme@) <= usize::MAX,
    ensures
        n == scheme_length_of(scheme@),
{
    let mut n: usize = 0;
    let mut i: usize = 0;
    while i < scheme.len()
        invariant
            0 <= i <= scheme@.len(),
            scheme_length_of(scheme@) <= usize::MAX,
            n == scheme_length_of(scheme@.take(i as int)),
        decreases scheme.len() - i,
    {
        proof {
            assert(scheme@.take(i as int + 1).drop_last() =~= scheme@.take(i as int));
            lemma_scheme_length_monotone(scheme@, i as int + 1);
        }
        n = n + scheme[i].keys.len();
        i += 1;
    }
    proof {
        assert(scheme@.take(i as int) =~= scheme@);
    }
    n
}

proof fn lemma_scheme_length_monotone(scheme: Seq<PinyinSyllable>, i: int)
    requires
        0 <= i <= scheme.len(),
    ensures
        0 <= scheme_length_of(scheme.take(i)) <= scheme_length_of(scheme),
    decreases scheme.len() - i,
{
    if i < scheme.len() {
        lemma_scheme_length_monotone(scheme, i + 1);
        assert(scheme.take(i + 1).drop_last() =~= scheme.take(i));
    } else {
        assert(scheme.take(i) =~= scheme);
    }
    lemma_scheme_length_nonnegative(scheme.take(i));
}

proof fn lemma_scheme_length_nonnegative(scheme: Seq<PinyinSyllable>)
    ensures
        scheme_length_of(scheme) >= 0,
    decreases scheme.len(),
{
    if scheme.len() > 0 {
        lemma_scheme_length_nonnegative(scheme.drop_last());
    }
}

/// The length of two schemes one after the other is the sum of their
/// lengths, and a scheme's length is the number of its keys.
pub proof fn lemma_scheme_length_concat(a: Seq<PinyinSyllable>, b: Seq<PinyinSyllable>)
    ensures
        scheme_length_of(a + b) == scheme_length_of(a) + scheme_length_of(b),
        scheme_length_of(a) == scheme_keys_of(a).len(),
    decreases b.len(),
{
    if b.len() == 0 {
        assert(a + b =~= a);
    } else {
        lemma_scheme_length_concat(a, b.drop_last());
        assert((a + b).drop_last() =~= a + b.drop_last());
        assert((a + b).last() == b.last());
    }
    lemma_scheme_length_is_key_count(a);
}

proof fn lemma_scheme_length_is_key_count(a: Seq<PinyinSyllable>)
    ensures
        scheme_length_of(a) == scheme_keys_of(a).len(),
    decreases a.len(),
{
    if a.len() > 0 {
        lemma_scheme_length_is_key_count(a.drop_last());
    }
}

/// The key counts of a pinyin scheme's syllables as decimal digits.
pub fn pinyin_scheme_complexity(scheme: &Vec<PinyinSyllable>) -> (c: i64)
    ensures
        c == scheme_complexity_of(scheme@),
{
    let mut c: i64 = 0;
    let mut i: usize = 0;
    while i < scheme.len()
        invariant
            0 <= i <= scheme@.len(),
            c == scheme_complexity_of(scheme@.take(i as int)),
        decreases scheme.len() - i,
    {
        proof {
            assert(scheme@.take(i as int + 1).drop_last() =~= scheme@.take(i as int));
        }
        c = c.wrapping_mul(10).wrapping_add(scheme[i].keys.len() as i64);
        i += 1;
    }
    proof {
        assert(scheme@.take(i as int) =~= scheme@);
    }
    c
}

/// The keys of a pinyin scheme.
pub fn pinyin_scheme_keys(scheme: &Vec<PinyinSyllable>) -> (keys: Vec<VirtualInputKey>)
    ensures
        keys@ == scheme_keys_of(scheme@),
{
    let mut keys: Vec<VirtualInputKey> = Vec::new();
    let mut i: usize = 0;
    while i < scheme.len()
        invariant
            0 <= i <= scheme@.len(),
            keys@ == scheme_keys_of(scheme@.take(i as int)),
        decreases scheme.len() - i,
    {
        proof {
            assert(scheme@.take(i as int + 1).drop_last() =~= scheme@.take(i as int));
        }
        let ks = &scheme[i].keys;
        let mut j: usize = 0;
        let ghost before = keys@;
        while j < ks.len()
            invariant
                0 <= j <= ks@.len(),
                keys@ == before + ks@.take(j as int),
            decreases ks.len() - j,
        {
            keys.push(ks[j]);
            proof {
                assert(ks@.take(j as int + 1) =~= ks@.take(j as int).push(ks@[j as int]));
                assert(before + ks@.take(j as int + 1) =~= (before + ks@.take(j as int)).push(ks@[j as int]));
            }
            j += 1;
        }
        proof {
            assert(ks@.take(j as int) =~= ks@);
        }
        i += 1;
    }
    proof {
        assert(scheme@.take(i as int) =~= scheme@);
    }
    keys
}

/// The texts of a pinyin scheme's syllables, one after another.
pub fn pinyin_scheme_text(scheme: &Vec<PinyinSyllable>) -> (text: String)
    ensures
        text@ == scheme_text_of(scheme@),
{
    let mut chars: Vec<char> = Vec::new();
    let mut i: usize = 0;
    while i < scheme.len()
        invariant
            0 <= i <= scheme@.len(),
            chars@ == scheme_text_of(scheme@.take(i as int)),
        decreases scheme.len() - i,
    {
        proof {
            assert(scheme@.take(i as int + 1).drop_last() =~= scheme@.take(i as int));
        }
        let t = chars_of(scheme[i].text.as_str());
        append_chars(&mut chars, t.as_slice());
        i += 1;
    }
    proof {
        assert(scheme@.take(i as int) =~= scheme@);
    }
    string_from_chars(chars.as_slice())
}

/// The texts of a pinyin scheme's syllables separated by spaces.
pub fn pinyin_scheme_mark(scheme: &Vec<PinyinSyllable>) -> (mark: String)
    ensures
        mark@ == joined(scheme@.map_values(|s: PinyinSyllable| s.text@), ' '),
{
    let ghost texts = scheme@.map_values(|s: PinyinSyllable| s.text@);
    let mut chars: Vec<char> = Vec::new();
    let mut i: usize = 0;
    while i < scheme.len()
        invariant
            0 <= i <= scheme@.len(),
            texts == scheme@.map_values(|s: PinyinSyllable| s.text@),
            chars@ == joined(texts.take(i as int), ' '),
        decreases scheme.len() - i,
    {
        proof {
            assert(texts.take(i as int + 1).drop_last() =~= texts.take(i as int));
        }
        if i > 0 {
            chars.push(' ');
        }
        let t = chars_of(scheme[i].text.as_str());
        append_chars(&mut chars, t.as_slice());
        proof {
            if i == 0 {
                assert(texts.take(1)[0] == t@);
                assert(chars@ =~= Seq::<char>::empty() + t@);
            }
        }
        i += 1;
    }
    proof {
        assert(texts.take(i as int) =~= texts);
    }
    string_from_chars(chars.as_slice())
}

// ---------------------------------------------------------------------
// Reverse lookup of a word's romanization
// ---------------------------------------------------------------------

/// The romanizations of a word in the lexicon, in row-id order.
pub open spec fn lexicon_romanizations(lexicon: Seq<LexiconEntry>, word: Seq<char>) -> Seq<Seq<char>> {
    lexicon.filter_map(romanizations_of(word))
}

/// The longest word of at most `length` characters at `start` that the
/// lexicon knows, with its first romanization.
pub open spec fn longest_known(lexicon: Seq<LexiconEntry>, w: Seq<char>, start: int, length: int) -> Option<(Seq<char>, int)>
    decreases length,
{
    if length <= 0 {
        None
    } else if lexicon_romanizations(lexicon, w.subrange(start, start + length)).len() > 0 {
        Some((lexicon_romanizations(lexicon, w.subrange(start, start + length))[0], length))
    } else {
        longest_known(lexicon, w, start, length - 1)
    }
}

/// The romanizations of the longest known words that cover the word from
/// `start` on, each chosen greedily; none if some part is unknown.
pub open spec fn greedy_romanizations(lexicon: Seq<LexiconEntry>, w: Seq<char>, start: int) -> Option<Seq<Seq<char>>>
    decreases w.len() - start,
{
    if start >= w.len() {
        Some(Seq::empty())
    } else {
        match longest_known(lexicon, w, start, w.len() - start) {
            None => None,
            Some(found) => if 1 <= found.1 && start + found.1 <= w.len() {
                match greedy_romanizations(lexicon, w, start + found.1) {
                    Some(rest) => Some(seq![found.0] + rest),
                    None => None,
                }
            } else {
                None
            },
        }
    }
}

/// The romanizations of a word: those the lexicon holds for it; failing
/// that, for a word of two or more characters, the romanizations of the
/// longest known words that cover it, joined by spaces.
pub open spec fn word_romanizations(lexicon: Seq<LexiconEntry>, w: Seq<char>) -> Seq<Seq<char>> {
    if w.len() == 0 {
        Seq::empty()
    } else if lexicon_romanizations(lexicon, w).len() > 0 {
        lexicon_romanizations(lexicon, w)
    } else if w.len() <= 1 {
        Seq::empty()
    } else {
        match greedy_romanizations(lexicon, w, 0) {
            Some(parts) => if parts.len() > 0 {
                seq![joined(parts, ' ')]
            } else {
                Seq::empty()
            },
            None => Seq::empty(),
        }
    }
}

proof fn lemma_longest_known_range(lexicon: Seq<LexiconEntry>, w: Seq<char>, start: int, length: int)
    ensures
        match longest_known(lexicon, w, start, length) {
            Some(found) => 1 <= found.1 <= length,
            None => true,
        },
    decreases length,
{
    if length > 0 {
        lemma_longest_known_range(lexicon, w, start, length - 1);
    }
}

fn join_with_spaces(parts: &Vec<String>) -> (text: String)
    ensures
        text@ == joined(parts@.map_values(|p: String| p@), ' '),
{
    let ghost texts = parts@.map_values(|p: String| p@);
    let mut chars: Vec<char> = Vec::new();
    let mut i: usize = 0;
    while i < parts.len()
        invariant
            0 <= i <= parts@.len(),
            texts == parts@.map_values(|p: String| p@),
            chars@ == joined(texts.take(i as int), ' '),
        decreases parts.len() - i,
    {
        proof {
            assert(texts.take(i as int + 1).drop_last() =~= texts.take(i as int));
        }
        if i > 0 {
            chars.push(' ');
        }
        let t = chars_of(parts[i].as_str());
        append_chars(&mut chars, t.as_slice());
        proof {
            if i == 0 {
                assert(texts.take(1)[0] == t@);
                assert(chars@ =~= Seq::<char>::empty() + t@);
            }
        }
        i += 1;
    }
    proof {
        assert(texts.take(i as int) =~= texts);
    }
    string_from_chars(chars.as_slice())
}

/// The candidate of a word with one of its romanizations, answering
/// `input` with reading `mark`, numbered 0.
pub open spec fn reverse_lexicon(word: Seq<char>, romanization: Seq<char>, input: Seq<char>, mark: Option<Seq<char>>) -> LexiconView {
    crate::lexicon::cantonese_lexicon(word, romanization, input, mark, 0)
}

/// The characters that keys type, one after another.
pub open spec fn keys_text(keys: Seq<VirtualInputKey>) -> Seq<char> {
    keys.map_values(|k: VirtualInputKey| k.character)
}

/// The text that keys type.
pub fn text_of_keys(keys: &[VirtualInputKey]) -> (text: String)
    ensures
        text@ == keys_text(keys@),
{
    let mut chars: Vec<char> = Vec::new();
    let mut i: usize = 0;
    while i < keys.len()
        invariant
            0 <= i <= keys@.len(),
            chars@ == keys_text(keys@.take(i as int)),
        decreases keys.len() - i,
    {
        chars.push(keys[i].character);
        assert(keys_text(keys@.take(i + 1)) =~= keys_text(keys@.take(i as int)).push(keys@[i as int].character));
        i += 1;
    }
    assert(keys@.take(keys@.len() as int) =~= keys@);
    string_from_chars(chars.as_slice())
}

/// The text answered: `input`, or else the keys' text.
pub open spec fn text_or_keys(input: Option<Seq<char>>, keys: Seq<VirtualInputKey>) -> Seq<char> {
    match input {
        Some(t) => t,
        None => keys_text(keys),
    }
}

/// A key as the anchor (first letter) of a syllable: "y" stands for the
/// anchor "j"; any other key for itself.
pub open spec fn anchor_key(key: VirtualInputKey) -> VirtualInputKey {
    if key == letter_key(24) {
        letter_key(9)
    } else {
        key
    }
}

/// Keys as syllable anchors.
pub open spec fn anchor_keys(keys: Seq<VirtualInputKey>) -> Seq<VirtualInputKey> {
    keys.map_values(|k: VirtualInputKey| anchor_key(k))
}

pub(crate) fn anchor_key_list(keys: &[VirtualInputKey]) -> (anchors: Vec<VirtualInputKey>)
    requires
        codes_in_range(key_codes(keys@)),
    ensures
        anchors@ == anchor_keys(keys@),
        codes_in_range(key_codes(anchors@)),
{
    let y = VirtualInputKey { key_code: 0x59, code: 44, character: 'y' };
    let j = VirtualInputKey { key_code: 0x4A, code: 29, character: 'j' };
    assert(y == letter_key(24));
    assert(j == letter_key(9));
    let mut anchors: Vec<VirtualInputKey> = Vec::new();
    let mut i: usize = 0;
    while i < keys.len()
        invariant
            0 <= i <= keys@.len(),
            y == letter_key(24),
            j == letter_key(9),
            codes_in_range(key_codes(keys@)),
            anchors@ == anchor_keys(keys@.take(i as int)),
            codes_in_range(key_codes(anchors@)),
        decreases keys.len() - i,
    {
        let k = keys[i];
        let a = if k == y {
            j
        } else {
            k
        };
        assert(key_codes(keys@)[i as int] == k.code);
        let ghost before = anchors@;
        anchors.push(a);
        assert(anchor_keys(keys@.take(i + 1)) =~= anchor_keys(keys@.take(i as int)).push(anchor_key(k)));
        assert forall|t: int| 0 <= t < anchors@.len() implies 0 <= #[trigger] key_codes(anchors@)[t] < 100 by {
            if t < i {
                assert(anchors@[t] == before[t]);
                assert(key_codes(before)[t] == before[t].code);
            } else {
                assert(anchors@[t] == a);
            }
        }
        i += 1;
    }
    assert(keys@.take(keys@.len() as int) =~= keys@);
    anchors
}

/// The most rows an anchors query gives when no limit is asked for.
pub const ANCHORS_DEFAULT_LIMIT: i32 = 100;

/// The candidates the lexicon offers for keys read as the anchors (first
/// letters) of as many syllables, "y" read as "j": the rows with that
/// anchors number and that many characters, at most `limit` of them (100
/// when none is given), answering `input` (the keys' text when none is
/// given), the input shown as their reading. None for no key or more than
/// nine.
pub open spec fn anchors_matched(
    lexicon: Seq<LexiconEntry>,
    keys: Seq<VirtualInputKey>,
    input: Option<Seq<char>>,
    limit: Option<i32>,
) -> Seq<LexiconView> {
    if keys.len() == 0 || keys.len() > 9 {
        Seq::empty()
    } else {
        let text = match input {
            Some(t) => t,
            None => keys_text(keys),
        };
        limited(
            lexicon.filter_map(
                crate::database::lexicon_by_anchors(
                    combined_code_of(key_codes(anchor_keys(keys))) as i64,
                    keys.len() as i64,
                ),
            ),
            match limit {
                Some(n) => n,
                None => ANCHORS_DEFAULT_LIMIT,
            },
        ).map_values(|row: (i64, Seq<char>, Seq<char>)| row_lexicon(row, text, Some(text)))
    }
}

// ---------------------------------------------------------------------
// The engine
// ---------------------------------------------------------------------

pub struct CoreImeEngine {
    pub database: ImeDatabase,
    pub segmenter: Segmenter,
    pub pinyin_syllables: Vec<PinyinSyllable>,
}

impl CoreImeEngine {
    /// An engine over the database: its syllables learned by the
    /// segmenter, its pinyin syllables read; none when the database holds no
    /// syllable.
    pub fn prepare_with(database: ImeDatabase) -> (engine: Option<CoreImeEngine>)
        ensures
            database@.syllables.len() == 0 ==> engine is None,
            database@.syllables.len() > 0 ==> match engine {
                Some(e) => e.database@ == database@ && e.segmenter@.syllables.len() > 0
                    && e.segmenter@.syllables == crate::segmenter::syllable_map(
                    database@.syllables.map_values(|s: crate::database::SyllableRow| s@),
                ) && e.segmenter@.prefixes == crate::segmenter::prefix_set(
                    database@.syllables.map_values(|s: crate::database::SyllableRow| s@),
                ) && crate::database::is_pinyin_syllable_result(
                    database@.pinyin_syllables,
                    e.pinyin_syllables@.map_values(|p: PinyinSyllable| (p.code, p.text@)),
                ) && forall|i: int|
                    0 <= i < e.pinyin_syllables@.len() ==> (#[trigger] e.pinyin_syllables@[i]).keys@
                        == letter_keys_of_codes(crate::segmenter::code_keys(e.pinyin_syllables@[i].code)),
                None => false,
            },
    {
        let mut segmenter = Segmenter::new();
        if !segmenter.prepare(&database) {
            return None;
        }
        proof {
            crate::segmenter::lemma_syllable_map_nonempty(
                database@.syllables.map_values(|s: crate::database::SyllableRow| s@),
            );
        }
        let rows = database.query_pinyin_syllables();
        let mut pinyin_syllables: Vec<PinyinSyllable> = Vec::new();
        let mut i: usize = 0;
        while i < rows.len()
            invariant
                0 <= i <= rows@.len(),
                pinyin_syllables@.map_values(|p: PinyinSyllable| (p.code, p.text@)) =~= rows@.map_values(
                    |r: PinyinSyllableRow| r@,
                ).take(i as int),
                forall|j: int|
                    0 <= j < pinyin_syllables@.len() ==> (#[trigger] pinyin_syllables@[j]).keys@
                        == letter_keys_of_codes(crate::segmenter::code_keys(pinyin_syllables@[j].code)),
            decreases rows.len() - i,
        {
            let code = rows[i].code;
            let keys = input_keys_from_code(code);
            let syllable = PinyinSyllable { code, keys, text: rows[i].syllable.clone() };
            proof {
                assert(pinyin_syllables@.push(syllable).map_values(|p: PinyinSyllable| (p.code, p.text@))
                    =~= pinyin_syllables@.map_values(|p: PinyinSyllable| (p.code, p.text@)).push(
                    (syllable.code, syllable.text@),
                ));
            }
            pinyin_syllables.push(syllable);
            i += 1;
        }
        proof {
            assert(rows@.map_values(|r: PinyinSyllableRow| r@).take(i as int) =~= rows@.map_values(
                |r: PinyinSyllableRow| r@,
            ));
        }
        Some(CoreImeEngine { database, segmenter, pinyin_syllables })
    }

    /// Whether the engine knows any syllable.
    pub fn is_prepared(&self) -> (r: bool)
        ensures
            r == (self.segmenter@.syllables.len() > 0),
    {
        self.segmenter.is_prepared()
    }

    /// The ways the keys split into known syllables.
    pub fn segment(&self, keys: &[VirtualInputKey]) -> (schemes: Vec<Vec<Syllable>>)
        requires
            codes_in_range(key_codes(keys@)),
        ensures
            schemes@.map_values(|s: Vec<Syllable>| s@) == segment_spec(self.segmenter@, keys@),
    {
        self.segmenter.segment(keys)
    }

    fn longest_known_at(&self, chars: &Vec<char>, index: usize) -> (m: Option<(String, usize)>)
        requires
            index < chars@.len(),
        ensures
            longest_known(self.database@.lexicon, chars@, index as int, chars@.len() - index) == match m {
                Some(found) => Some((found.0@, found.1 as int)),
                None => None,
            },
    {
        let ghost lex = self.database@.lexicon;
        let ghost w = chars@;
        let n = chars.len();
        let mut length = n - index;
        while length > 0
            invariant
                chars@ == w,
                n == w.len(),
                lex == self.database@.lexicon,
                0 <= index < n,
                0 <= length <= n - index,
                longest_known(lex, w, index as int, n - index) == longest_known(
                    lex,
                    w,
                    index as int,
                    length as int,
                ),
            decreases length,
        {
            let leading = string_from_chars(&chars.as_slice()[index..index + length]);
            proof {
                assert(leading@ == w.subrange(index as int, index + length));
            }
            let found = self.database.lookup_romanizations_for_word(leading.as_str());
            proof {
                assert(found@.map_values(|r: String| r@) == lexicon_romanizations(
                    lex,
                    w.subrange(index as int, index + length),
                ));
            }
            if found.len() > 0 {
                let first = found[0].clone();
                proof {
                    assert(first@ == found@.map_values(|r: String| r@)[0]);
                }
                return Some((first, length));
            }
            length -= 1;
        }
        None
    }

    /// The candidates of a word answering `input` with reading `mark`: one
    /// for each romanization of the word (see `word_romanizations`), each
    /// numbered 0.
    pub fn reverse_lookup_word(&self, word: &str, input: &str, mark: Option<String>) -> (lexicons: Vec<Lexicon>)
        ensures
            lexicon_views(lexicons@) == word_romanizations(self.database@.lexicon, word@).map_values(
                |r: Seq<char>| reverse_lexicon(word@, r, input@, optional_chars(mark)),
            ),
    {
        let romanizations = self.word_romanization_list(word);
        let ghost rs = romanizations@.map_values(|r: String| r@);
        let mut result: Vec<Lexicon> = Vec::new();
        let mut i: usize = 0;
        while i < romanizations.len()
            invariant
                0 <= i <= romanizations@.len(),
                rs == romanizations@.map_values(|r: String| r@),
                lexicon_views(result@) == rs.take(i as int).map_values(
                    |r: Seq<char>| reverse_lexicon(word@, r, input@, optional_chars(mark)),
                ),
            decreases romanizations.len() - i,
        {
            let item = Lexicon::cantonese(
                word.to_string(),
                romanizations[i].clone(),
                input.to_string(),
                crate::lexicon::copy_optional(&mark),
                0,
            );
            let ghost before = lexicon_views(result@);
            result.push(item);
            proof {
                assert(lexicon_views(result@) =~= before.push(item@));
                assert(rs.take(i + 1) =~= rs.take(i as int).push(rs[i as int]));
                assert(rs.take(i + 1).map_values(
                    |r: Seq<char>| reverse_lexicon(word@, r, input@, optional_chars(mark)),
                ) =~= rs.take(i as int).map_values(
                    |r: Seq<char>| reverse_lexicon(word@, r, input@, optional_chars(mark)),
                ).push(reverse_lexicon(word@, rs[i as int], input@, optional_chars(mark))));
            }
            i += 1;
        }
        proof {
            assert(rs.take(rs.len() as int) =~= rs);
        }
        result
    }

    /// The candidates of the lexicon rows with the spelling number of `keys`
    /// and the given complexity, answering `input` with reading `mark` (each
    /// row's romanization without tones when there is none); at most
    /// `limit` of them when it is given and positive.
    pub fn spell_match(
        &self,
        keys: &[VirtualInputKey],
        complexity: i64,
        input: String,
        mark: Option<String>,
        limit: Option<i32>,
    ) -> (lexicons: Vec<Lexicon>)
        requires
            keys@.len() <= 9,
            codes_in_range(key_codes(keys@)),
        ensures
            lexicon_views(lexicons@) == limited(
                self.database@.lexicon.filter_map(
                    crate::database::lexicon_by_spell(combined_code_of(key_codes(keys@)) as i64, complexity),
                ),
                match limit {
                    Some(n) => n,
                    None => -1i32,
                },
            ).map_values(|row: (i64, Seq<char>, Seq<char>)| row_lexicon(row, input@, optional_chars(mark))),
    {
        let count = match limit {
            Some(n) => n,
            None => -1,
        };
        let rows = self.database.query_lexicon_by_spell(combined_code(keys), complexity, count);
        let ghost row_views = rows@.map_values(|r: LexiconRow| r@);
        let lexicons = lexicons_from_rows(rows, input.as_str(), &mark);
        proof {
            assert(rows@.map_values(|r: LexiconRow| row_lexicon(r@, input@, optional_chars(mark))) =~= row_views.map_values(
                |row: (i64, Seq<char>, Seq<char>)| row_lexicon(row, input@, optional_chars(mark)),
            ));
        }
        lexicons
    }

    /// The candidates for keys read as syllable anchors (see
    /// `anchors_matched`).
    pub fn anchors_match(&self, keys: &[VirtualInputKey], input: Option<String>, limit: Option<i32>) -> (lexicons:
        Vec<Lexicon>)
        requires
            codes_in_range(key_codes(keys@)),
        ensures
            lexicon_views(lexicons@) == anchors_matched(
                self.database@.lexicon,
                keys@,
                optional_chars(input),
                limit,
            ),
    {
        if keys.len() == 0 || keys.len() > 9 {
            let r: Vec<Lexicon> = Vec::new();
            assert(lexicon_views(r@) =~= Seq::<LexiconView>::empty());
            return r;
        }
        let anchors = anchor_key_list(keys);
        assert(anchors@.len() == keys@.len());
        let code = combined_code(anchors.as_slice());
        let text = match input {
            Some(t) => t,
            None => text_of_keys(keys),
        };
        let count = match limit {
            Some(n) => n,
            None => ANCHORS_DEFAULT_LIMIT,
        };
        let rows = self.database.query_lexicon_by_anchors(code, keys.len(), count);
        let ghost row_views = rows@.map_values(|r: LexiconRow| r@);
        let mark = Some(text.clone());
        let lexicons = lexicons_from_rows(rows, text.as_str(), &mark);
        proof {
            assert(rows@.map_values(|r: LexiconRow| row_lexicon(r@, text@, optional_chars(mark))) =~= row_views.map_values(
                |row: (i64, Seq<char>, Seq<char>)| row_lexicon(row, text@, Some(text@)),
            ));
        }
        lexicons
    }

    /// The romanizations of a word (see `word_romanizations`).
    fn word_romanization_list(&self, word: &str) -> (romanizations: Vec<String>)
        ensures
            romanizations@.map_values(|r: String| r@) == word_romanizations(self.database@.lexicon, word@),
    {
        let ghost lex = self.database@.lexicon;
        let chars = chars_of(word);
        if chars.len() == 0 {
            let r: Vec<String> = Vec::new();
            proof {
                assert(r@.map_values(|r: String| r@) =~= Seq::empty());
            }
            return r;
        }
        let exact = self.database.lookup_romanizations_for_word(word);
        if exact.len() > 0 {
            return exact;
        }
        if chars.len() <= 1 {
            let r: Vec<String> = Vec::new();
            proof {
                assert(r@.map_values(|r: String| r@) =~= Seq::empty());
            }
            return r;
        }
        let ghost w = word@;
        proof {
            assert(exact@.map_values(|r: String| r@).len() == 0);
            assert(lexicon_romanizations(lex, w).len() == 0);
        }
        let mut parts: Vec<String> = Vec::new();
        let mut index: usize = 0;
        let mut failed = false;
        while index < chars.len() && !failed
            invariant
                chars@ == w,
                w == word@,
                lex == self.database@.lexicon,
                0 <= index <= w.len(),
                !failed ==> match greedy_romanizations(lex, w, 0) {
                    Some(all) => match greedy_romanizations(lex, w, index as int) {
                        Some(rest) => all == parts@.map_values(|p: String| p@) + rest,
                        None => false,
                    },
                    None => greedy_romanizations(lex, w, index as int) is None,
                },
                failed ==> greedy_romanizations(lex, w, 0) is None,
            decreases w.len() - index + (if failed { 0int } else { 1int }),
        {
            let matched = self.longest_known_at(&chars, index);
            proof {
                lemma_longest_known_range(lex, w, index as int, w.len() - index);
            }
            match matched {
                None => {
                    proof {
                        assert(longest_known(lex, w, index as int, w.len() - index) is None);
                        assert(greedy_romanizations(lex, w, index as int) is None);
                    }
                    failed = true;
                },
                Some((romanization, matched_len)) => {
                    proof {
                        assert(parts@.push(romanization).map_values(|p: String| p@) =~= parts@.map_values(
                            |p: String| p@,
                        ).push(romanization@));
                        let next = index + matched_len;
                        assert(1 <= matched_len <= w.len() - index);
                        match greedy_romanizations(lex, w, 0) {
                            Some(all) => {
                                let rest = greedy_romanizations(lex, w, index as int)->0;
                                let rest2 = greedy_romanizations(lex, w, next);
                                assert(rest2 is Some);
                                assert(rest == seq![romanization@] + rest2->0);
                                assert(all =~= parts@.map_values(|p: String| p@).push(romanization@) + rest2->0);
                            },
                            None => {
                                assert(greedy_romanizations(lex, w, next) is None);
                            },
                        }
                    }
                    parts.push(romanization);
                    index = index + matched_len;
                },
            }
        }
        if failed || parts.len() == 0 {
            proof {
                if !failed {
                    assert(index == w.len());
                    assert(greedy_romanizations(lex, w, w.len() as int) == Some(Seq::<Seq<char>>::empty()));
                    let all = greedy_romanizations(lex, w, 0)->0;
                    assert(all =~= parts@.map_values(|p: String| p@));
                }
            }
            let r: Vec<String> = Vec::new();
            proof {
                assert(r@.map_values(|r: String| r@) =~= Seq::empty());
            }
            return r;
        }
        let text = join_with_spaces(&parts);
        let mut r: Vec<String> = Vec::new();
        r.push(text);
        proof {
            assert(index == w.len());
            assert(greedy_romanizations(lex, w, w.len() as int) == Some(Seq::<Seq<char>>::empty()));
            assert(parts@.map_values(|p: String| p@) + Seq::<Seq<char>>::empty() =~= parts@.map_values(|p: String| p@));
            assert(r@.map_values(|r: String| r@) =~= seq![text@]);
        }
        r
    }
}

/// The letter keys of a code's digit pairs.
pub fn input_keys_from_code(code: i64) -> (keys: Vec<VirtualInputKey>)
    ensures
        keys@ == letter_keys_of_codes(crate::segmenter::code_keys(code)),
{
    let codes = crate::segmenter::code_key_codes(code);
    let mut keys: Vec<VirtualInputKey> = Vec::new();
    let mut i: usize = 0;
    while i < codes.len()
        invariant
            0 <= i <= codes@.len(),
            codes@ == crate::segmenter::code_keys(code),
            keys@ == letter_keys_of_codes(codes@.take(i as int)),
        decreases codes.len() - i,
    {
        proof {
            assert(codes@.take(i as int + 1).drop_last() =~= codes@.take(i as int));
        }
        let k = codes[i];
        if 20 <= k && k <= 45 {
            let index = (k - 20) as u32;
            match VirtualInputKey::for_key_code(0x41 + index) {
                Some(key) => keys.push(key),
                None => {},
            }
        }
        i += 1;
    }
    proof {
        assert(codes@.take(i as int) =~= codes@);
    }
    keys
}


// ---------------------------------------------------------------------
// Key groups and anchors
// ---------------------------------------------------------------------

/// The runs of `s` between occurrences of `sep`, empty runs included.
pub open spec fn key_runs(s: Seq<VirtualInputKey>, sep: VirtualInputKey) -> Seq<Seq<VirtualInputKey>>
    decreases s.len(),
{
    if s.len() == 0 {
        seq![Seq::<VirtualInputKey>::empty()]
    } else {
        let init = key_runs(s.drop_last(), sep);
        if s.last() == sep {
            init.push(Seq::<VirtualInputKey>::empty())
        } else {
            init.update(init.len() - 1, init.last().push(s.last()))
        }
    }
}

pub proof fn lemma_key_runs_nonempty(s: Seq<VirtualInputKey>, sep: VirtualInputKey)
    ensures
        key_runs(s, sep).len() >= 1,
    decreases s.len(),
{
    if s.len() > 0 {
        lemma_key_runs_nonempty(s.drop_last(), sep);
    }
}

/// The key sequences held by a vector of key vectors.
pub open spec fn key_seqs(v: Seq<Vec<VirtualInputKey>>) -> Seq<Seq<VirtualInputKey>> {
    v.map_values(|x: Vec<VirtualInputKey>| x@)
}

/// The keys between separators, each group non-empty, in order.
pub fn split_keys(keys: &[VirtualInputKey], separator: VirtualInputKey) -> (parts: Vec<Vec<VirtualInputKey>>)
    ensures
        key_seqs(parts@) == key_runs(keys@, separator).filter(|p: Seq<VirtualInputKey>| p.len() > 0),
{
    let ghost keep = |p: Seq<VirtualInputKey>| p.len() > 0;
    let mut parts: Vec<Vec<VirtualInputKey>> = Vec::new();
    let mut part: Vec<VirtualInputKey> = Vec::new();
    let mut i: usize = 0;
    assert(keys@.take(0) =~= Seq::<VirtualInputKey>::empty());
    proof {
        assert(key_runs(Seq::<VirtualInputKey>::empty(), separator).drop_last() =~= Seq::<Seq<VirtualInputKey>>::empty());
        reveal(Seq::filter);
    }
    while i < keys.len()
        invariant
            i <= keys.len(),
            keep == (|p: Seq<VirtualInputKey>| p.len() > 0),
            key_runs(keys@.take(i as int), separator).drop_last().filter(keep) == key_seqs(parts@),
            key_runs(keys@.take(i as int), separator).last() == part@,
            key_runs(keys@.take(i as int), separator).len() >= 1,
        decreases keys.len() - i,
    {
        let key = keys[i];
        let ghost before = keys@.take(i as int);
        let ghost runs = key_runs(before, separator);
        assert(keys@.take(i + 1).drop_last() =~= before);
        assert(keys@.take(i + 1).last() == key);
        if key == separator {
            proof {
                let next = runs.push(Seq::<VirtualInputKey>::empty());
                assert(next.drop_last() =~= runs);
                assert(runs =~= runs.drop_last().push(runs.last()));
                runs.drop_last().lemma_filter_push(runs.last(), keep);
            }
            if part.len() > 0 {
                let finished = part;
                let ghost old_parts = key_seqs(parts@);
                parts.push(finished);
                assert(key_seqs(parts@) =~= old_parts.push(finished@));
                part = Vec::new();
            } else {
                part = Vec::new();
            }
        } else {
            part.push(key);
            proof {
                let next = runs.update(runs.len() - 1, runs.last().push(key));
                assert(next.drop_last() =~= runs.drop_last());
            }
        }
        i += 1;
    }
    assert(keys@.take(keys.len() as int) =~= keys@);
    let ghost runs = key_runs(keys@, separator);
    proof {
        assert(runs =~= runs.drop_last().push(runs.last()));
        runs.drop_last().lemma_filter_push(runs.last(), keep);
    }
    if part.len() > 0 {
        let ghost old_parts = key_seqs(parts@);
        let ghost last = part@;
        parts.push(part);
        assert(key_seqs(parts@) =~= old_parts.push(last));
    }
    parts
}

/// The first letter of each space-separated syllable of `romanization`
/// after its first `prefix_len` characters; nothing when it is shorter.
pub open spec fn suffix_anchors(romanization: Seq<char>, prefix_len: int) -> Seq<char> {
    if prefix_len > romanization.len() {
        Seq::empty()
    } else {
        nonempty_parts(romanization.skip(prefix_len), ' ').map_values(|p: Seq<char>| p[0])
    }
}

/// The anchors (first letters) of the syllables of `romanization` that
/// follow its first `prefix_len_chars` characters.
pub fn suffix_anchor_text(romanization: &str, prefix_len_chars: usize) -> (anchors: String)
    ensures
        anchors@ == suffix_anchors(romanization@, prefix_len_chars as int),
{
    let chars = chars_of(romanization);
    if prefix_len_chars > chars.len() {
        return String::new();
    }
    let tail = crate::text::sub_chars(chars.as_slice(), prefix_len_chars, chars.len());
    let suffix = string_from_chars(tail.as_slice());
    let parts = split(suffix.as_str(), ' ');
    let ghost views = parts@.map_values(|p: String| p@);
    let mut firsts: Vec<char> = Vec::new();
    let mut i: usize = 0;
    while i < parts.len()
        invariant
            0 <= i <= parts@.len(),
            views == parts@.map_values(|p: String| p@),
            views == nonempty_parts(romanization@.skip(prefix_len_chars as int), ' '),
            firsts@ == views.take(i as int).map_values(|p: Seq<char>| p[0]),
        decreases parts.len() - i,
    {
        let part_chars = chars_of(parts[i].as_str());
        proof {
            assert(views[i as int] == parts@[i as int]@);
            let keep = |p: Seq<char>| p.len() > 0;
            split_char(romanization@.skip(prefix_len_chars as int), ' ').lemma_filter_pred(keep, i as int);
        }
        firsts.push(part_chars[0]);
        assert(views.take(i + 1).map_values(|p: Seq<char>| p[0]) =~= views.take(i as int).map_values(
            |p: Seq<char>| p[0],
        ).push(views[i as int][0]));
        i += 1;
    }
    assert(views.take(parts@.len() as int) =~= views);
    string_from_chars(firsts.as_slice())
}

} // verus!
