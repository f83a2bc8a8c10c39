//! Mandarin pinyin candidates of a reverse lookup: the pinyin lexicon's
//! rows as candidates, how they are ordered and made distinct, how a
//! partial match is taken for the whole input, the search by leading
//! slices of the input, and which fit input typed with apostrophes.
use vstd::prelude::*;
use crate::apostrophe_filter::{
    apostrophe_count, count_apostrophes, ends_with_apostrophe, parts_as_chars, separated_input,
    separated_input_of,
};
use crate::engine::{keys_text, nonempty_parts, split, text_of_keys, CoreImeEngine};
use crate::input_key::{codes_in_range, key_codes, VirtualInputKey};
use crate::lexicon::optional_chars;
use crate::memory_ranking::{int_keys, stable_desc, stable_desc_order};
use crate::database::{lexicon_by_anchors, lexicon_by_spell, limited, LexiconRow};
use crate::input_key::{combined_code, combined_code_of};
use crate::memory_ranking::prefix_of;
use crate::text::{char_seqs, chars_equal, chars_of, has_prefix, starts_with_chars, string_from_chars, sub_chars};

verus! {

/// A pinyin candidate: the word, its pinyin, the input it answers and how
/// many keys that is, the reading shown for it and its number.
pub struct PinyinLexicon {
    pub text: String,
    pub pinyin: String,
    pub input: String,
    pub input_count: usize,
    pub mark: String,
    pub number: i64,
}

/// A pinyin candidate as values.
pub struct PinyinLexiconView {
    pub text: Seq<char>,
    pub pinyin: Seq<char>,
    pub input: Seq<char>,
    pub input_count: usize,
    pub mark: Seq<char>,
    pub number: i64,
}

impl View for PinyinLexicon {
    type V = PinyinLexiconView;

    open spec fn view(&self) -> PinyinLexiconView {
        PinyinLexiconView {
            text: self.text@,
            pinyin: self.pinyin@,
            input: self.input@,
            input_count: self.input_count,
            mark: self.mark@,
            number: self.number,
        }
    }
}

/// The views of pinyin candidates.
pub open spec fn pinyin_views(items: Seq<PinyinLexicon>) -> Seq<PinyinLexiconView> {
    items.map_values(|x: PinyinLexicon| x@)
}

/// A pinyin candidate answering `input` (its key count is the input's
/// length), its reading `mark` or else the input.
pub open spec fn pinyin_lexicon(
    text: Seq<char>,
    pinyin: Seq<char>,
    input: Seq<char>,
    mark: Option<Seq<char>>,
    number: i64,
) -> PinyinLexiconView {
    PinyinLexiconView {
        text,
        pinyin,
        input,
        input_count: input.len() as usize,
        mark: match mark {
            Some(m) => m,
            None => input,
        },
        number,
    }
}

/// The candidate answering another input, its reading kept.
pub open spec fn with_pinyin_input(item: PinyinLexiconView, input: Seq<char>) -> PinyinLexiconView {
    pinyin_lexicon(item.text, item.pinyin, input, Some(item.mark), item.number)
}

impl PinyinLexicon {
    /// A pinyin candidate (see `pinyin_lexicon`).
    pub fn new(text: String, pinyin: String, input: String, mark: Option<String>, number: i64) -> (lexicon: Self)
        ensures
            lexicon@ == pinyin_lexicon(text@, pinyin@, input@, optional_chars(mark), number),
    {
        let input_count = chars_of(input.as_str()).len();
        let mark = match mark {
            Some(m) => m,
            None => input.clone(),
        };
        PinyinLexicon { text, pinyin, input, input_count, mark, number }
    }

    /// The same candidate answering another input.
    pub fn replaced_input(&self, input: String) -> (lexicon: Self)
        ensures
            lexicon@ == with_pinyin_input(self@, input@),
    {
        PinyinLexicon::new(self.text.clone(), self.pinyin.clone(), input, Some(self.mark.clone()), self.number)
    }

    /// A copy of the candidate.
    pub fn copy(&self) -> (lexicon: Self)
        ensures
            lexicon@ == self@,
    {
        PinyinLexicon {
            text: self.text.clone(),
            pinyin: self.pinyin.clone(),
            input: self.input.clone(),
            input_count: self.input_count,
            mark: self.mark.clone(),
            number: self.number,
        }
    }
}

/// Whether two candidates are the same word with the same pinyin.
pub open spec fn same_pinyin_lexicon(a: PinyinLexiconView, b: PinyinLexiconView) -> bool {
    a.text == b.text && a.pinyin == b.pinyin
}

/// The candidates whose word (with its pinyin) has not come earlier.
pub open spec fn pinyin_first_occurrences(items: Seq<PinyinLexiconView>) -> Seq<PinyinLexiconView>
    decreases items.len(),
{
    if items.len() == 0 {
        Seq::empty()
    } else {
        let d = pinyin_first_occurrences(items.drop_last());
        if exists|t: int| 0 <= t < d.len() && same_pinyin_lexicon(#[trigger] d[t], items.last()) {
            d
        } else {
            d.push(items.last())
        }
    }
}

/// The candidates, each word (with its pinyin) once, where it first comes.
pub fn pinyin_distinct(items: &Vec<PinyinLexicon>) -> (result: Vec<PinyinLexicon>)
    ensures
        pinyin_views(result@) == pinyin_first_occurrences(pinyin_views(items@)),
{
    let ghost views = pinyin_views(items@);
    let mut result: Vec<PinyinLexicon> = Vec::new();
    let mut i: usize = 0;
    while i < items.len()
        invariant
            0 <= i <= items@.len(),
            views == pinyin_views(items@),
            pinyin_views(result@) == pinyin_first_occurrences(views.take(i as int)),
        decreases items.len() - i,
    {
        let item = &items[i];
        let ghost kept = pinyin_views(result@);
        let mut seen = false;
        let mut j: usize = 0;
        while j < result.len()
            invariant
                0 <= j <= result@.len(),
                kept == pinyin_views(result@),
                item@ == views[i as int],
                seen == exists|t: int| 0 <= t < j && same_pinyin_lexicon(#[trigger] kept[t], item@),
            decreases result.len() - j,
        {
            if result[j].text == item.text && result[j].pinyin == item.pinyin {
                seen = true;
            }
            proof {
                assert(kept[j as int] == result@[j as int]@);
                if same_pinyin_lexicon(kept[j as int], item@) {
                    assert(exists|t: int| 0 <= t < j + 1 && same_pinyin_lexicon(#[trigger] kept[t], item@));
                }
                if exists|t: int| 0 <= t < j + 1 && same_pinyin_lexicon(#[trigger] kept[t], item@) {
                    let t = choose|t: int| 0 <= t < j + 1 && same_pinyin_lexicon(#[trigger] kept[t], item@);
                    if t < j {
                        assert(exists|t: int| 0 <= t < j && same_pinyin_lexicon(#[trigger] kept[t], item@));
                    }
                }
            }
            j += 1;
        }
        proof {
            let taken = views.take(i + 1);
            assert(taken.drop_last() =~= views.take(i as int));
            assert(taken.last() == item@);
        }
        if !seen {
            let copy = item.copy();
            result.push(copy);
            proof {
                assert(pinyin_views(result@) =~= kept.push(copy@));
            }
        }
        i += 1;
    }
    proof {
        assert(views.take(items@.len() as int) =~= views);
    }
    result
}

/// The candidates at the given positions, in order.
pub open spec fn pinyin_picked(items: Seq<PinyinLexiconView>, order: Seq<usize>) -> Seq<PinyinLexiconView> {
    order.map_values(|i: usize| items[i as int])
}

/// The candidates by number, smallest first, equal numbers in their own
/// order.
pub open spec fn pinyin_by_number(items: Seq<PinyinLexiconView>) -> Seq<PinyinLexiconView> {
    pinyin_picked(items, stable_desc(items.map_values(|x: PinyinLexiconView| -(x.number as int)), items.len()))
}

/// The candidates by how many keys they consume, most first, equal counts
/// in their own order.
pub open spec fn pinyin_by_count(items: Seq<PinyinLexiconView>) -> Seq<PinyinLexiconView> {
    pinyin_picked(items, stable_desc(items.map_values(|x: PinyinLexiconView| x.input_count as int), items.len()))
}

/// The order of pinyin candidates: most keys consumed first, then smallest
/// number first, candidates equal in both in their own order.
pub open spec fn pinyin_ordered(items: Seq<PinyinLexiconView>) -> Seq<PinyinLexiconView> {
    pinyin_by_count(pinyin_by_number(items))
}

fn picked_copies(items: &Vec<PinyinLexicon>, order: &Vec<usize>) -> (result: Vec<PinyinLexicon>)
    requires
        forall|t: int| 0 <= t < order@.len() ==> #[trigger] order@[t] < items@.len(),
    ensures
        pinyin_views(result@) == pinyin_picked(pinyin_views(items@), order@),
{
    let ghost views = pinyin_views(items@);
    let mut result: Vec<PinyinLexicon> = Vec::new();
    let mut k: usize = 0;
    while k < order.len()
        invariant
            0 <= k <= order@.len(),
            views == pinyin_views(items@),
            forall|t: int| 0 <= t < order@.len() ==> #[trigger] order@[t] < items@.len(),
            pinyin_views(result@) == pinyin_picked(views, order@.take(k as int)),
        decreases order.len() - k,
    {
        let item = items[order[k]].copy();
        let ghost before = pinyin_views(result@);
        result.push(item);
        assert(pinyin_views(result@) =~= before.push(item@));
        assert(pinyin_picked(views, order@.take(k + 1)) =~= pinyin_picked(views, order@.take(k as int)).push(
            views[order@[k as int] as int],
        ));
        k += 1;
    }
    assert(order@.take(order@.len() as int) =~= order@);
    result
}

fn sorted_by_number(items: &Vec<PinyinLexicon>) -> (sorted: Vec<PinyinLexicon>)
    ensures
        pinyin_views(sorted@) == pinyin_by_number(pinyin_views(items@)),
{
    let ghost views = pinyin_views(items@);
    let mut keys: Vec<i128> = Vec::new();
    let mut i: usize = 0;
    while i < items.len()
        invariant
            0 <= i <= items@.len(),
            keys@.len() == i,
            forall|t: int| 0 <= t < i ==> #[trigger] keys@[t] == -(items@[t].number as i128),
        decreases items.len() - i,
    {
        keys.push(-(items[i].number as i128));
        i += 1;
    }
    assert(int_keys(keys@) =~= views.map_values(|x: PinyinLexiconView| -(x.number as int)));
    let order = stable_desc_order(&keys);
    picked_copies(items, &order)
}

fn sorted_by_count(items: &Vec<PinyinLexicon>) -> (sorted: Vec<PinyinLexicon>)
    ensures
        pinyin_views(sorted@) == pinyin_by_count(pinyin_views(items@)),
{
    let ghost views = pinyin_views(items@);
    let mut keys: Vec<i128> = Vec::new();
    let mut i: usize = 0;
    while i < items.len()
        invariant
            0 <= i <= items@.len(),
            keys@.len() == i,
            forall|t: int| 0 <= t < i ==> #[trigger] keys@[t] == items@[t].input_count as i128,
        decreases items.len() - i,
    {
        keys.push(items[i].input_count as i128);
        i += 1;
    }
    assert(int_keys(keys@) =~= views.map_values(|x: PinyinLexiconView| x.input_count as int));
    let order = stable_desc_order(&keys);
    picked_copies(items, &order)
}

/// The candidates in their order (see `pinyin_ordered`).
pub fn pinyin_sorted(items: &Vec<PinyinLexicon>) -> (sorted: Vec<PinyinLexicon>)
    ensures
        pinyin_views(sorted@) == pinyin_ordered(pinyin_views(items@)),
{
    let by_number = sorted_by_number(items);
    sorted_by_count(&by_number)
}

/// The pinyin candidates that fit keys typed with apostrophes (see
/// `separated_input`, their syllables taken as written), each answering
/// its new input, in their order; none when the input is empty or starts
/// with an apostrophe.
pub open spec fn pinyin_separated(keys: Seq<VirtualInputKey>, items: Seq<PinyinLexiconView>) -> Seq<
    PinyinLexiconView,
> {
    if keys.len() == 0 || keys[0].character == '\'' {
        Seq::empty()
    } else {
        pinyin_ordered(
            items.filter_map(
                |item: PinyinLexiconView|
                    match separated_input(
                        nonempty_parts(item.pinyin, ' '),
                        item.input,
                        item.input_count as int,
                        keys,
                    ) {
                        Some(input) => Some(with_pinyin_input(item, input)),
                        None => None,
                    },
            ),
        )
    }
}

impl CoreImeEngine {
    /// The pinyin candidates that fit keys typed with apostrophes (see
    /// `pinyin_separated`).
    pub fn filter_pinyin_syllable_separators(&self, keys: &[VirtualInputKey], lexicons: Vec<PinyinLexicon>) -> (r:
        Vec<PinyinLexicon>)
        ensures
            pinyin_views(r@) == pinyin_separated(keys@, pinyin_views(lexicons@)),
    {
        if keys.len() == 0 || keys[0].character == '\'' {
            let r: Vec<PinyinLexicon> = Vec::new();
            assert(pinyin_views(r@) =~= Seq::<PinyinLexiconView>::empty());
            return r;
        }
        let trailing = keys[keys.len() - 1].character == '\'';
        let separators = count_apostrophes(keys);
        let text = text_of_keys(keys);
        let part_strings = split(text.as_str(), '\'');
        let parts = parts_as_chars(&part_strings);
        let ghost views = pinyin_views(lexicons@);
        let ghost f = |item: PinyinLexiconView|
            match separated_input(nonempty_parts(item.pinyin, ' '), item.input, item.input_count as int, keys@) {
                Some(input) => Some(with_pinyin_input(item, input)),
                None => None,
            };
        let mut filtered: Vec<PinyinLexicon> = Vec::new();
        let mut i: usize = 0;
        proof {
            assert(views.take(0) =~= Seq::<PinyinLexiconView>::empty());
            reveal(Seq::filter_map);
        }
        while i < lexicons.len()
            invariant
                0 <= i <= lexicons@.len(),
                views == pinyin_views(lexicons@),
                text@ == keys_text(keys@),
                char_seqs(parts@) == nonempty_parts(keys_text(keys@), '\''),
                separators == apostrophe_count(keys@),
                trailing == ends_with_apostrophe(keys@),
                f == (|item: PinyinLexiconView|
                    match separated_input(
                        nonempty_parts(item.pinyin, ' '),
                        item.input,
                        item.input_count as int,
                        keys@,
                    ) {
                        Some(input) => Some(with_pinyin_input(item, input)),
                        None => None,
                    }),
                pinyin_views(filtered@) == views.take(i as int).filter_map(f),
            decreases lexicons.len() - i,
        {
            let item = &lexicons[i];
            proof {
                views.lemma_filter_map_take_succ(f, i as int);
                assert(views[i as int] == item@);
            }
            let syllable_strings = split(item.pinyin.as_str(), ' ');
            let syllables = parts_as_chars(&syllable_strings);
            match separated_input_of(&syllables, &item.input, item.input_count, keys, &text, &parts, separators, trailing) {
                Some(input) => {
                    let q = item.replaced_input(input);
                    let ghost before = pinyin_views(filtered@);
                    filtered.push(q);
                    assert(pinyin_views(filtered@) =~= before.push(q@));
                },
                None => {},
            }
            i += 1;
        }
        proof {
            assert(views.take(views.len() as int) =~= views);
        }
        pinyin_sorted(&filtered)
    }
}


/// The candidate of a pinyin lexicon row answering `input`: its reading
/// is `mark`, or else the row's pinyin.
pub open spec fn pinyin_row(row: (i64, Seq<char>, Seq<char>), input: Seq<char>, mark: Option<Seq<char>>) -> PinyinLexiconView {
    pinyin_lexicon(
        row.1,
        row.2,
        input,
        Some(
            match mark {
                Some(m) => m,
                None => row.2,
            },
        ),
        row.0,
    )
}

fn pinyin_lexicons_from_rows(rows: Vec<LexiconRow>, input: &String, mark: &Option<String>) -> (result: Vec<
    PinyinLexicon,
>)
    ensures
        pinyin_views(result@) == rows@.map_values(|r: LexiconRow| pinyin_row(r@, input@, optional_chars(*mark))),
{
    let mut result: Vec<PinyinLexicon> = Vec::new();
    let mut i: usize = 0;
    while i < rows.len()
        invariant
            0 <= i <= rows@.len(),
            pinyin_views(result@) == rows@.take(i as int).map_values(
                |r: LexiconRow| pinyin_row(r@, input@, optional_chars(*mark)),
            ),
        decreases rows.len() - i,
    {
        let row = &rows[i];
        let reading = match mark {
            Some(m) => m.clone(),
            None => row.romanization.clone(),
        };
        let item = PinyinLexicon::new(row.word.clone(), row.romanization.clone(), input.clone(), Some(reading), row.row_id);
        let ghost before = pinyin_views(result@);
        result.push(item);
        proof {
            assert(pinyin_views(result@) =~= before.push(item@));
            assert(rows@.take(i + 1).map_values(|r: LexiconRow| pinyin_row(r@, input@, optional_chars(*mark)))
                =~= rows@.take(i as int).map_values(
                |r: LexiconRow| pinyin_row(r@, input@, optional_chars(*mark)),
            ).push(pinyin_row(rows@[i as int]@, input@, optional_chars(*mark))));
        }
        i += 1;
    }
    proof {
        assert(rows@.take(rows@.len() as int) =~= rows@);
    }
    result
}

/// The pinyin candidates of the rows with the spelling number of `keys` and
/// the given complexity (at most `limit` when it is given and positive).
pub open spec fn pinyin_spell_matched(
    lexicon: Seq<crate::database::LexiconEntry>,
    keys: Seq<VirtualInputKey>,
    complexity: i64,
    input: Option<Seq<char>>,
    mark: Option<Seq<char>>,
    limit: Option<i32>,
) -> Seq<PinyinLexiconView> {
    limited(
        lexicon.filter_map(lexicon_by_spell(combined_code_of(key_codes(keys)) as i64, complexity)),
        match limit {
            Some(n) => n,
            None => -1i32,
        },
    ).map_values(|row: (i64, Seq<char>, Seq<char>)| pinyin_row(row, crate::engine::text_or_keys(input, keys), mark))
}

/// The pinyin candidates of the rows whose anchors are the keys' number
/// and that have as many characters as keys (at most `limit`, 100 when
/// none is given), the input shown as their reading.
pub open spec fn pinyin_anchors_matched(
    lexicon: Seq<crate::database::LexiconEntry>,
    keys: Seq<VirtualInputKey>,
    input: Option<Seq<char>>,
    limit: Option<i32>,
) -> Seq<PinyinLexiconView> {
    let text = crate::engine::text_or_keys(input, keys);
    limited(
        lexicon.filter_map(lexicon_by_anchors(combined_code_of(key_codes(keys)) as i64, keys.len() as i64)),
        match limit {
            Some(n) => n,
            None => 100i32,
        },
    ).map_values(|row: (i64, Seq<char>, Seq<char>)| pinyin_row(row, text, Some(text)))
}

impl CoreImeEngine {
    /// The pinyin candidates spelled by the keys (see `pinyin_spell_matched`).
    pub fn pinyin_rows_by_spell(
        &self,
        keys: &[VirtualInputKey],
        complexity: i64,
        input: Option<String>,
        mark: Option<String>,
        limit: Option<i32>,
    ) -> (r: Vec<PinyinLexicon>)
        requires
            keys@.len() <= 9,
            codes_in_range(key_codes(keys@)),
        ensures
            pinyin_views(r@) == pinyin_spell_matched(
                self.database@.pinyin_lexicon,
                keys@,
                complexity,
                optional_chars(input),
                optional_chars(mark),
                limit,
            ),
    {
        let text = match input {
            Some(t) => t,
            None => text_of_keys(keys),
        };
        let count = match limit {
            Some(n) => n,
            None => -1,
        };
        let rows = self.database.query_pinyin_by_spell(combined_code(keys), complexity, count);
        let ghost row_views = rows@.map_values(|r: LexiconRow| r@);
        let result = pinyin_lexicons_from_rows(rows, &text, &mark);
        proof {
            assert(rows@.map_values(|r: LexiconRow| pinyin_row(r@, text@, optional_chars(mark))) =~= row_views.map_values(
                |row: (i64, Seq<char>, Seq<char>)| pinyin_row(row, text@, optional_chars(mark)),
            ));
        }
        result
    }

    /// The pinyin candidates anchored by the keys (see
    /// `pinyin_anchors_matched`).
    pub fn pinyin_rows_by_anchors(&self, keys: &[VirtualInputKey], input: Option<String>, limit: Option<i32>) -> (r:
        Vec<PinyinLexicon>)
        requires
            keys@.len() <= 9,
            codes_in_range(key_codes(keys@)),
        ensures
            pinyin_views(r@) == pinyin_anchors_matched(
                self.database@.pinyin_lexicon,
                keys@,
                optional_chars(input),
                limit,
            ),
    {
        let code = combined_code(keys);
        let text = match input {
            Some(t) => t,
            None => text_of_keys(keys),
        };
        let count = match limit {
            Some(n) => n,
            None => 100,
        };
        let rows = self.database.query_pinyin_by_anchors(code, keys.len(), count);
        let ghost row_views = rows@.map_values(|r: LexiconRow| r@);
        let mark = Some(text.clone());
        let result = pinyin_lexicons_from_rows(rows, &text, &mark);
        proof {
            assert(rows@.map_values(|r: LexiconRow| pinyin_row(r@, text@, optional_chars(mark))) =~= row_views.map_values(
                |row: (i64, Seq<char>, Seq<char>)| pinyin_row(row, text@, Some(text@)),
            ));
        }
        result
    }
}


/// The characters other than spaces.
pub open spec fn without_spaces(s: Seq<char>) -> Seq<char> {
    s.filter(|c: char| c != ' ')
}

/// Whether `s` ends with `suffix`.
pub open spec fn has_suffix(s: Seq<char>, suffix: Seq<char>) -> bool {
    suffix.len() <= s.len() && s.subrange(s.len() - suffix.len(), s.len() as int) == suffix
}

/// A candidate taken for the whole input `text` of `n` keys when its
/// pinyin (without spaces) begins with the text, or when the text ends with
/// its last syllable and its syllables before the last (one key each) and
/// the last make up the `n` keys; else the candidate as it is. A candidate
/// that already answers `n` keys stays as it is.
pub open spec fn pinyin_modified(item: PinyinLexiconView, text: Seq<char>, n: nat) -> PinyinLexiconView {
    let converted = pinyin_lexicon(item.text, item.pinyin, text, Some(text), item.number);
    let syllables = nonempty_parts(item.pinyin, ' ');
    if item.input_count == n {
        item
    } else if has_prefix(without_spaces(item.pinyin), text) {
        converted
    } else if syllables.len() == 0 || !has_suffix(text, syllables.last()) {
        item
    } else if syllables.len() - 1 + syllables.last().len() == n {
        converted
    } else {
        item
    }
}

fn without_spaces_chars(s: &[char]) -> (r: Vec<char>)
    ensures
        r@ == without_spaces(s@),
{
    let ghost keep = |c: char| c != ' ';
    let mut r: Vec<char> = Vec::new();
    let mut i: usize = 0;
    proof {
        assert(s@.take(0) =~= Seq::<char>::empty());
        reveal(Seq::filter);
    }
    while i < s.len()
        invariant
            0 <= i <= s@.len(),
            keep == (|c: char| c != ' '),
            r@ == s@.take(i as int).filter(keep),
        decreases s.len() - i,
    {
        proof {
            assert(s@.take(i + 1) =~= s@.take(i as int).push(s@[i as int]));
            s@.take(i as int).lemma_filter_push(s@[i as int], keep);
        }
        if s[i] != ' ' {
            r.push(s[i]);
        }
        i += 1;
    }
    assert(s@.take(s@.len() as int) =~= s@);
    r
}

fn ends_with_chars(s: &[char], suffix: &[char]) -> (r: bool)
    ensures
        r == has_suffix(s@, suffix@),
{
    if suffix.len() > s.len() {
        return false;
    }
    let tail = sub_chars(s, s.len() - suffix.len(), s.len());
    chars_equal(tail.as_slice(), suffix)
}

fn pinyin_modify(item: &PinyinLexicon, text: &String, n: usize) -> (r: PinyinLexicon)
    ensures
        r@ == pinyin_modified(item@, text@, n as nat),
{
    if item.input_count == n {
        return item.copy();
    }
    let pinyin = chars_of(item.pinyin.as_str());
    let text_chars = chars_of(text.as_str());
    if starts_with_chars(without_spaces_chars(pinyin.as_slice()).as_slice(), text_chars.as_slice()) {
        return PinyinLexicon::new(item.text.clone(), item.pinyin.clone(), text.clone(), Some(text.clone()), item.number);
    }
    let syllable_strings = split(item.pinyin.as_str(), ' ');
    let syllables = parts_as_chars(&syllable_strings);
    let ghost sy = char_seqs(syllables@);
    assert(sy == nonempty_parts(item.pinyin@, ' '));
    if syllables.len() == 0 {
        return item.copy();
    }
    let last = &syllables[syllables.len() - 1];
    assert(sy.last() == last@);
    if !ends_with_chars(text_chars.as_slice(), last.as_slice()) {
        return item.copy();
    }
    if (syllables.len() - 1) as u128 + last.len() as u128 == n as u128 {
        PinyinLexicon::new(item.text.clone(), item.pinyin.clone(), text.clone(), Some(text.clone()), item.number)
    } else {
        item.copy()
    }
}

/// The candidates of the leading `len` keys: those spelled by them (with
/// complexity `len`), then at most 72 of those anchored by them, in their
/// order; each taken for the whole input where it can be (see
/// `pinyin_modified`).
pub open spec fn pinyin_slice(
    lexicon: Seq<crate::database::LexiconEntry>,
    keys: Seq<VirtualInputKey>,
    text: Seq<char>,
    limit: Option<i32>,
    len: int,
) -> Seq<PinyinLexiconView> {
    let leading = keys.take(len);
    let leading_text = keys_text(leading);
    let modify = |item: PinyinLexiconView| pinyin_modified(item, text, keys.len());
    let adjusted: i32 = if limit is Some { 100 } else { 300 };
    pinyin_spell_matched(lexicon, leading, len as i64, Some(leading_text), None, limit).map_values(modify)
        + prefix_of(
        pinyin_ordered(pinyin_anchors_matched(lexicon, leading, Some(leading_text), Some(adjusted)).map_values(modify)),
        72,
    )
}

/// The slices of the leading keys, all of them, then one fewer, and so on
/// down to the first `n - k + 1`.
pub open spec fn pinyin_slices_upto(
    lexicon: Seq<crate::database::LexiconEntry>,
    keys: Seq<VirtualInputKey>,
    text: Seq<char>,
    limit: Option<i32>,
    k: nat,
) -> Seq<PinyinLexiconView>
    decreases k,
{
    if k == 0 {
        Seq::empty()
    } else {
        pinyin_slices_upto(lexicon, keys, text, limit, (k - 1) as nat) + pinyin_slice(
            lexicon,
            keys,
            text,
            limit,
            keys.len() - (k - 1),
        )
    }
}

/// The candidates of all leading slices of the keys, longest first, each
/// word once, in their order.
pub open spec fn pinyin_slices(
    lexicon: Seq<crate::database::LexiconEntry>,
    keys: Seq<VirtualInputKey>,
    text: Seq<char>,
    limit: Option<i32>,
) -> Seq<PinyinLexiconView> {
    pinyin_ordered(pinyin_first_occurrences(pinyin_slices_upto(lexicon, keys, text, limit, keys.len())))
}

fn modified_all(items: Vec<PinyinLexicon>, text: &String, n: usize) -> (r: Vec<PinyinLexicon>)
    ensures
        pinyin_views(r@) == pinyin_views(items@).map_values(|item: PinyinLexiconView| pinyin_modified(item, text@, n as nat)),
{
    let mut r: Vec<PinyinLexicon> = Vec::new();
    let mut i: usize = 0;
    while i < items.len()
        invariant
            0 <= i <= items@.len(),
            pinyin_views(r@) == pinyin_views(items@).take(i as int).map_values(
                |item: PinyinLexiconView| pinyin_modified(item, text@, n as nat),
            ),
        decreases items.len() - i,
    {
        let m = pinyin_modify(&items[i], text, n);
        let ghost before = pinyin_views(r@);
        r.push(m);
        proof {
            assert(pinyin_views(r@) =~= before.push(m@));
            assert(pinyin_views(items@).take(i + 1) =~= pinyin_views(items@).take(i as int).push(items@[i as int]@));
            assert(pinyin_views(items@).take(i + 1).map_values(
                |item: PinyinLexiconView| pinyin_modified(item, text@, n as nat),
            ) =~= pinyin_views(items@).take(i as int).map_values(
                |item: PinyinLexiconView| pinyin_modified(item, text@, n as nat),
            ).push(pinyin_modified(items@[i as int]@, text@, n as nat)));
        }
        i += 1;
    }
    proof {
        assert(pinyin_views(items@).take(items@.len() as int) =~= pinyin_views(items@));
    }
    r
}

fn first_of(items: &Vec<PinyinLexicon>, k: usize) -> (r: Vec<PinyinLexicon>)
    ensures
        pinyin_views(r@) == prefix_of(pinyin_views(items@), k as int),
{
    let end = if items.len() < k {
        items.len()
    } else {
        k
    };
    let mut r: Vec<PinyinLexicon> = Vec::new();
    let mut i: usize = 0;
    while i < end
        invariant
            0 <= i <= end <= items@.len(),
            end == if items@.len() < k { items@.len() } else { k as nat },
            pinyin_views(r@) == pinyin_views(items@).take(i as int),
        decreases end - i,
    {
        let c = items[i].copy();
        let ghost before = pinyin_views(r@);
        r.push(c);
        assert(pinyin_views(r@) =~= before.push(c@));
        assert(pinyin_views(items@).take(i + 1) =~= pinyin_views(items@).take(i as int).push(items@[i as int]@));
        i += 1;
    }
    assert(pinyin_views(items@).take(end as int) =~= prefix_of(pinyin_views(items@), k as int));
    r
}

fn append_all(result: &mut Vec<PinyinLexicon>, more: Vec<PinyinLexicon>)
    ensures
        pinyin_views(final(result)@) == pinyin_views(old(result)@) + pinyin_views(more@),
{
    let ghost start = pinyin_views(result@);
    let mut i: usize = 0;
    while i < more.len()
        invariant
            0 <= i <= more@.len(),
            pinyin_views(result@) == start + pinyin_views(more@).take(i as int),
        decreases more.len() - i,
    {
        let c = more[i].copy();
        let ghost before = pinyin_views(result@);
        result.push(c);
        assert(pinyin_views(result@) =~= before.push(c@));
        assert(pinyin_views(more@).take(i + 1) =~= pinyin_views(more@).take(i as int).push(more@[i as int]@));
        i += 1;
    }
    assert(pinyin_views(more@).take(more@.len() as int) =~= pinyin_views(more@));
}

impl CoreImeEngine {
    /// The pinyin candidates of all leading slices of the keys (see
    /// `pinyin_slices`), `text` the whole input.
    pub fn process_pinyin_slices(&self, keys: &[VirtualInputKey], text: &String, limit: Option<i32>) -> (r: Vec<
        PinyinLexicon,
    >)
        requires
            keys@.len() <= 9,
            codes_in_range(key_codes(keys@)),
        ensures
            pinyin_views(r@) == pinyin_slices(self.database@.pinyin_lexicon, keys@, text@, limit),
    {
        let ghost lexicon = self.database@.pinyin_lexicon;
        let adjusted: i32 = if limit.is_some() {
            100
        } else {
            300
        };
        let n = keys.len();
        let mut result: Vec<PinyinLexicon> = Vec::new();
        let mut number: usize = 0;
        while number < n
            invariant
                0 <= number <= n,
                n == keys@.len(),
                n <= 9,
                codes_in_range(key_codes(keys@)),
                lexicon == self.database@.pinyin_lexicon,
                adjusted == (if limit is Some { 100i32 } else { 300i32 }),
                pinyin_views(result@) == pinyin_slices_upto(lexicon, keys@, text@, limit, number as nat),
            decreases n - number,
        {
            let leading_len = n - number;
            let leading = crate::input_key::sub_keys(keys, 0, leading_len);
            assert(leading@ =~= keys@.take(leading_len as int));
            assert(codes_in_range(key_codes(leading@))) by {
                assert forall|t: int| 0 <= t < key_codes(leading@).len() implies 0 <= #[trigger] key_codes(leading@)[t] < 100 by {
                    assert(key_codes(leading@)[t] == key_codes(keys@)[t]);
                }
            }
            let leading_text = text_of_keys(leading.as_slice());
            let spelled = self.pinyin_rows_by_spell(leading.as_slice(), leading_len as i64, Some(leading_text.clone()), None, limit);
            let spelled = modified_all(spelled, text, n);
            let anchored = self.pinyin_rows_by_anchors(leading.as_slice(), Some(leading_text), Some(adjusted));
            let anchored = modified_all(anchored, text, n);
            let anchored = pinyin_sorted(&anchored);
            let anchored = first_of(&anchored, 72);
            let ghost before = pinyin_views(result@);
            append_all(&mut result, spelled);
            append_all(&mut result, anchored);
            proof {
                assert(pinyin_views(result@) =~= before + pinyin_slice(lexicon, keys@, text@, limit, leading_len as int));
            }
            number += 1;
        }
        let unique = pinyin_distinct(&result);
        pinyin_sorted(&unique)
    }
}

} // verus!
