//! Which candidates fit input typed with apostrophes between syllables,
//! and the input each then answers.
use vstd::prelude::*;
use crate::database::LexiconEntry;
use crate::engine::{
    anchors_matched, key_runs, keys_text, nonempty_parts, split, split_keys, text_of_keys, CoreImeEngine,
};
use crate::input_key::{apostrophe_key, codes_in_range, key_codes, VirtualInputKey};
use crate::lexicon::{
    cantonese_lexicon, copy_optional, distinct, first_occurrences, lexicon_views, optional_chars,
    stripped_tones, Lexicon, LexiconView,
};
use crate::memory::tone_free;
use crate::memory_ranking::{int_keys, stable_desc, stable_desc_order};
use crate::text::{char_seqs, chars_equal, chars_of, has_prefix, starts_with_chars, string_from_chars};

verus! {

/// How many of the keys type an apostrophe.
pub open spec fn apostrophe_count(keys: Seq<VirtualInputKey>) -> nat {
    keys.filter(|k: VirtualInputKey| k.character == '\'').len()
}

/// Whether the last key types an apostrophe.
pub open spec fn ends_with_apostrophe(keys: Seq<VirtualInputKey>) -> bool {
    keys.len() > 0 && keys.last().character == '\''
}

/// `n` letters "i".
pub open spec fn letters_i(n: nat) -> Seq<char> {
    Seq::new(n, |k: int| 'i')
}

/// Whether the first two syllables fit the first two typed parts: the
/// first equal, or (when the input is not `short` keys long) the first part
/// a single letter that begins the first syllable and the second part
/// fitting the second syllable (`exact`: equal to it; else beginning with
/// it).
pub open spec fn first_two_fit(
    syllables: Seq<Seq<char>>,
    parts: Seq<Seq<char>>,
    n: nat,
    short: nat,
    exact: bool,
) -> bool {
    if n != short && syllables[0] != parts[0] {
        &&& parts[0].len() == 1
        &&& syllables[0].len() > 0
        &&& parts[0][0] == syllables[0][0]
        &&& if exact { parts[1] == syllables[1] } else { has_prefix(parts[1], syllables[1]) }
    } else {
        true
    }
}

/// The input that a candidate with the given syllables, answering `input`
/// (`count` keys), answers when it fits keys typed with apostrophes;
/// `None` when it does not fit. `parts` are the typed parts between
/// apostrophes.
pub open spec fn separated_input(
    syllables: Seq<Seq<char>>,
    input: Seq<char>,
    count: int,
    keys: Seq<VirtualInputKey>,
) -> Option<Seq<char>> {
    let text = keys_text(keys);
    let parts = nonempty_parts(text, '\'');
    let separators = apostrophe_count(keys);
    let trailing = ends_with_apostrophe(keys);
    let n = keys.len();
    let with_quote = input + seq!['\''];
    if syllables == parts {
        Some(text)
    } else if separators == 1 && trailing {
        if syllables.len() == 1 && count == n - 1 { Some(text) } else { None }
    } else if separators == 1 {
        if syllables.len() == 1 {
            if parts.len() > 0 && count == parts[0].len() { Some(with_quote) } else { None }
        } else if syllables.len() == 2 && parts.len() >= 2 {
            if first_two_fit(syllables, parts, n, 3, false) { Some(with_quote) } else { None }
        } else {
            None
        }
    } else if separators == 2 && trailing {
        if syllables.len() == 1 {
            if parts.len() > 0 && count == parts[0].len() { Some(with_quote) } else { None }
        } else if syllables.len() == 2 && parts.len() >= 2 && count == n - 2 {
            if first_two_fit(syllables, parts, n, 4, true) { Some(text) } else { None }
        } else {
            None
        }
    } else if ((separators == 2 && n == 5) || (separators == 3 && n == 6)) && parts.len() == 3 {
        if syllables.len() == 1 {
            if count == 1 { Some(with_quote) } else { None }
        } else if syllables.len() == 2 {
            if count == 2 { Some(input + seq!['\'', '\'']) } else { None }
        } else if syllables.len() == 3 {
            Some(text)
        } else {
            None
        }
    } else if 0 < syllables.len() < parts.len() && syllables == parts.take(syllables.len() as int) {
        Some(input + letters_i((syllables.len() - 1) as nat))
    } else {
        None
    }
}

/// The input a Jyutping candidate answers when it fits keys typed with
/// apostrophes (its syllables taken without tones), `None` when it does
/// not fit.
pub open spec fn apostrophe_input(item: LexiconView, keys: Seq<VirtualInputKey>) -> Option<Seq<char>> {
    separated_input(
        nonempty_parts(tone_free(item.romanization), ' '),
        item.input,
        item.input_count as int,
        keys,
    )
}

/// The candidate answering another input.
pub open spec fn with_input(item: LexiconView, input: Seq<char>) -> LexiconView {
    cantonese_lexicon(item.text, item.romanization, input, item.mark, item.number)
}

/// The candidates that fit, each answering its new input.
pub open spec fn apostrophe_qualified(items: Seq<LexiconView>, keys: Seq<VirtualInputKey>) -> Seq<LexiconView> {
    items.filter_map(
        |item: LexiconView|
            match apostrophe_input(item, keys) {
                Some(input) => Some(with_input(item, input)),
                None => None,
            },
    )
}

/// Candidates ordered by how many keys they consume, most first, those
/// with equal counts in their own order.
pub open spec fn by_input_count(items: Seq<LexiconView>) -> Seq<LexiconView> {
    stable_desc(items.map_values(|x: LexiconView| x.input_count as int), items.len()).map_values(
        |i: usize| items[i as int],
    )
}

/// The first key of each apostrophe-separated part of the keys.
pub open spec fn part_anchor_keys(keys: Seq<VirtualInputKey>) -> Seq<VirtualInputKey> {
    key_runs(keys, apostrophe_key()).filter(|p: Seq<VirtualInputKey>| p.len() > 0).map_values(
        |p: Seq<VirtualInputKey>| p[0],
    )
}

/// Whether a candidate's syllables fit the typed parts one for one: a
/// part of one letter begins its syllable (without tones), a longer part
/// equals it.
pub open spec fn fits_parts(item: LexiconView, parts: Seq<Seq<char>>, count: nat) -> bool {
    let syllables = nonempty_parts(item.romanization, ' ');
    &&& syllables.len() == count
    &&& parts.len() == count
    &&& forall|i: int|
        0 <= i < count ==> if (#[trigger] parts[i]).len() == 1 {
            has_prefix(tone_free(syllables[i]), parts[i])
        } else {
            tone_free(syllables[i]) == parts[i]
        }
}

/// When no candidate fits: the lexicon's candidates for the first letters
/// of the parts read as anchors whose syllables fit the parts, each
/// answering the whole input.
pub open spec fn anchor_fallback(lexicon: Seq<LexiconEntry>, keys: Seq<VirtualInputKey>) -> Seq<LexiconView> {
    let text = keys_text(keys);
    let parts = nonempty_parts(text, '\'');
    let anchors = part_anchor_keys(keys);
    anchors_matched(lexicon, anchors, None, None).filter_map(
        |item: LexiconView|
            if fits_parts(item, parts, anchors.len()) {
                Some(with_input(item, text))
            } else {
                None
            },
    )
}

/// The candidates that fit keys typed with apostrophes: none when the
/// input is empty or starts with an apostrophe; else those that fit (see
/// `apostrophe_input`), each word once, most keys consumed first; else
/// the anchor matches of the parts (see `anchor_fallback`).
pub open spec fn apostrophe_filtered(
    lexicon: Seq<LexiconEntry>,
    keys: Seq<VirtualInputKey>,
    items: Seq<LexiconView>,
) -> Seq<LexiconView> {
    if keys.len() == 0 || keys[0].character == '\'' {
        Seq::empty()
    } else {
        let qualified = apostrophe_qualified(items, keys);
        if qualified.len() > 0 {
            by_input_count(first_occurrences(qualified))
        } else {
            anchor_fallback(lexicon, keys)
        }
    }
}


// ---------------------------------------------------------------------
// Computing the filter
// ---------------------------------------------------------------------

pub(crate) fn parts_as_chars(v: &Vec<String>) -> (r: Vec<Vec<char>>)
    ensures
        char_seqs(r@) == v@.map_values(|s: String| s@),
{
    let mut r: Vec<Vec<char>> = Vec::new();
    let mut i: usize = 0;
    while i < v.len()
        invariant
            0 <= i <= v@.len(),
            char_seqs(r@) == v@.take(i as int).map_values(|s: String| s@),
        decreases v.len() - i,
    {
        let c = chars_of(v[i].as_str());
        let ghost before = r@;
        r.push(c);
        assert(char_seqs(r@) =~= char_seqs(before).push(c@));
        assert(v@.take(i + 1).map_values(|s: String| s@) =~= v@.take(i as int).map_values(|s: String| s@).push(v@[i as int]@));
        i += 1;
    }
    assert(v@.take(v@.len() as int) =~= v@);
    r
}

pub(crate) fn leading_parts_equal(a: &Vec<Vec<char>>, b: &Vec<Vec<char>>, count: usize) -> (r: bool)
    requires
        count <= a@.len(),
        count <= b@.len(),
    ensures
        r == (char_seqs(a@).take(count as int) == char_seqs(b@).take(count as int)),
{
    let mut i: usize = 0;
    while i < count
        invariant
            0 <= i <= count <= a@.len(),
            count <= b@.len(),
            char_seqs(a@).take(i as int) == char_seqs(b@).take(i as int),
        decreases count - i,
    {
        if !chars_equal(a[i].as_slice(), b[i].as_slice()) {
            assert(char_seqs(a@).take(count as int)[i as int] == a@[i as int]@);
            assert(char_seqs(b@).take(count as int)[i as int] == b@[i as int]@);
            return false;
        }
        assert(char_seqs(a@).take(i + 1) =~= char_seqs(a@).take(i as int).push(a@[i as int]@));
        assert(char_seqs(b@).take(i + 1) =~= char_seqs(b@).take(i as int).push(b@[i as int]@));
        i += 1;
    }
    true
}

fn parts_equal(a: &Vec<Vec<char>>, b: &Vec<Vec<char>>) -> (r: bool)
    ensures
        r == (char_seqs(a@) == char_seqs(b@)),
{
    if a.len() != b.len() {
        assert(char_seqs(a@).len() != char_seqs(b@).len());
        return false;
    }
    let r = leading_parts_equal(a, b, a.len());
    assert(char_seqs(a@).take(a@.len() as int) =~= char_seqs(a@));
    assert(char_seqs(b@).take(b@.len() as int) =~= char_seqs(b@));
    r
}

pub(crate) fn count_apostrophes(keys: &[VirtualInputKey]) -> (n: usize)
    ensures
        n == apostrophe_count(keys@),
{
    let ghost keep = |k: VirtualInputKey| k.character == '\'';
    let mut n: usize = 0;
    let mut i: usize = 0;
    proof {
        assert(keys@.take(0) =~= Seq::<VirtualInputKey>::empty());
        reveal(Seq::filter);
    }
    while i < keys.len()
        invariant
            0 <= i <= keys@.len(),
            keep == (|k: VirtualInputKey| k.character == '\''),
            n == keys@.take(i as int).filter(keep).len(),
            n <= i,
        decreases keys.len() - i,
    {
        proof {
            assert(keys@.take(i + 1) =~= keys@.take(i as int).push(keys@[i as int]));
            keys@.take(i as int).lemma_filter_push(keys@[i as int], keep);
        }
        if keys[i].character == '\'' {
            n += 1;
        }
        i += 1;
    }
    assert(keys@.take(keys@.len() as int) =~= keys@);
    n
}

fn input_with(input: &String, tail: &[char]) -> (r: String)
    ensures
        r@ == input@ + tail@,
{
    let mut chars = chars_of(input.as_str());
    crate::text::append_chars(&mut chars, tail);
    string_from_chars(chars.as_slice())
}

fn letters_i_chars(n: usize) -> (r: Vec<char>)
    ensures
        r@ == letters_i(n as nat),
{
    let mut r: Vec<char> = Vec::new();
    let mut i: usize = 0;
    while i < n
        invariant
            0 <= i <= n,
            r@ == letters_i(i as nat),
        decreases n - i,
    {
        r.push('i');
        assert(r@ =~= letters_i((i + 1) as nat));
        i += 1;
    }
    r
}

fn first_two_fit_exec(syllables: &Vec<Vec<char>>, parts: &Vec<Vec<char>>, n: usize, short: usize, exact: bool) -> (r:
    bool)
    requires
        syllables@.len() >= 2,
        parts@.len() >= 2,
    ensures
        r == first_two_fit(char_seqs(syllables@), char_seqs(parts@), n as nat, short as nat, exact),
{
    let ghost sy = char_seqs(syllables@);
    let ghost pa = char_seqs(parts@);
    assert(sy[0] == syllables@[0]@ && sy[1] == syllables@[1]@);
    assert(pa[0] == parts@[0]@ && pa[1] == parts@[1]@);
    if n != short && !chars_equal(syllables[0].as_slice(), parts[0].as_slice()) {
        if parts[0].len() != 1 || syllables[0].len() == 0 {
            return false;
        }
        if parts[0][0] != syllables[0][0] {
            return false;
        }
        if exact {
            chars_equal(parts[1].as_slice(), syllables[1].as_slice())
        } else {
            starts_with_chars(parts[1].as_slice(), syllables[1].as_slice())
        }
    } else {
        true
    }
}

pub(crate) fn separated_input_of(
    syllables: &Vec<Vec<char>>,
    input: &String,
    count: usize,
    keys: &[VirtualInputKey],
    text: &String,
    parts: &Vec<Vec<char>>,
    separators: usize,
    trailing: bool,
) -> (r: Option<String>)
    requires
        text@ == keys_text(keys@),
        char_seqs(parts@) == nonempty_parts(keys_text(keys@), '\''),
        separators == apostrophe_count(keys@),
        trailing == ends_with_apostrophe(keys@),
    ensures
        optional_chars(r) == separated_input(char_seqs(syllables@), input@, count as int, keys@),
{
    let ghost sy = char_seqs(syllables@);
    let ghost pa = char_seqs(parts@);
    let n = keys.len();
    let quote: [char; 1] = ['\''];
    let quotes: [char; 2] = ['\'', '\''];
    assert(quote@ =~= seq!['\'']);
    assert(quotes@ =~= seq!['\'', '\'']);
    if parts_equal(syllables, parts) {
        return Some(text.clone());
    }
    if separators == 1 && trailing {
        if syllables.len() == 1 && n >= 1 && count == n - 1 {
            return Some(text.clone());
        }
        return None;
    }
    if separators == 1 {
        if syllables.len() == 1 {
            if parts.len() > 0 && count == parts[0].len() {
                assert(pa[0] == parts@[0]@);
                return Some(input_with(input, &quote));
            }
            return None;
        } else if syllables.len() == 2 && parts.len() >= 2 {
            if first_two_fit_exec(syllables, parts, n, 3, false) {
                return Some(input_with(input, &quote));
            }
            return None;
        }
        return None;
    }
    if separators == 2 && trailing {
        if syllables.len() == 1 {
            if parts.len() > 0 && count == parts[0].len() {
                assert(pa[0] == parts@[0]@);
                return Some(input_with(input, &quote));
            }
            return None;
        } else if syllables.len() == 2 && parts.len() >= 2 && n >= 2 && count == n - 2 {
            if first_two_fit_exec(syllables, parts, n, 4, true) {
                return Some(text.clone());
            }
            return None;
        }
        return None;
    }
    if ((separators == 2 && n == 5) || (separators == 3 && n == 6)) && parts.len() == 3 {
        if syllables.len() == 1 {
            if count == 1 {
                return Some(input_with(input, &quote));
            }
            return None;
        } else if syllables.len() == 2 {
            if count == 2 {
                return Some(input_with(input, &quotes));
            }
            return None;
        } else if syllables.len() == 3 {
            return Some(text.clone());
        }
        return None;
    }
    let syllable_count = syllables.len();
    if syllable_count < parts.len() && syllable_count > 0 {
        let matched = leading_parts_equal(syllables, parts, syllable_count);
        assert(sy.take(syllable_count as int) =~= sy);
        if matched {
            let tail = letters_i_chars(syllable_count - 1);
            return Some(input_with(input, tail.as_slice()));
        }
    }
    None
}

fn apostrophe_input_of(
    item: &Lexicon,
    keys: &[VirtualInputKey],
    text: &String,
    parts: &Vec<Vec<char>>,
    separators: usize,
    trailing: bool,
) -> (r: Option<String>)
    requires
        text@ == keys_text(keys@),
        char_seqs(parts@) == nonempty_parts(keys_text(keys@), '\''),
        separators == apostrophe_count(keys@),
        trailing == ends_with_apostrophe(keys@),
    ensures
        optional_chars(r) == apostrophe_input(item@, keys@),
{
    let syllable_strings = split(stripped_tones(item.romanization.as_str()).as_str(), ' ');
    let syllables = parts_as_chars(&syllable_strings);
    separated_input_of(&syllables, &item.input, item.input_count, keys, text, parts, separators, trailing)
}

fn sorted_by_input_count(items: &Vec<Lexicon>) -> (sorted: Vec<Lexicon>)
    ensures
        lexicon_views(sorted@) == by_input_count(lexicon_views(items@)),
{
    let ghost views = lexicon_views(items@);
    let mut keys: Vec<i128> = Vec::new();
    let mut i: usize = 0;
    while i < items.len()
        invariant
            0 <= i <= items@.len(),
            keys@.len() == i,
            forall|t: int| 0 <= t < i ==> #[trigger] keys@[t] == items@[t].input_count as i128,
        decreases items.len() - i,
    {
        keys.push(items[i].input_count as i128);
        i += 1;
    }
    assert(int_keys(keys@) =~= views.map_values(|x: LexiconView| x.input_count as int));
    let order = stable_desc_order(&keys);
    let mut sorted: Vec<Lexicon> = Vec::new();
    let mut k: usize = 0;
    while k < order.len()
        invariant
            0 <= k <= order@.len(),
            order@.len() == items@.len(),
            views == lexicon_views(items@),
            forall|t: int| 0 <= t < order@.len() ==> #[trigger] order@[t] < items@.len(),
            lexicon_views(sorted@) == order@.take(k as int).map_values(|j: usize| views[j as int]),
        decreases order.len() - k,
    {
        let item = items[order[k]].copy();
        let ghost before = lexicon_views(sorted@);
        sorted.push(item);
        assert(lexicon_views(sorted@) =~= before.push(item@));
        assert(order@.take(k + 1).map_values(|j: usize| views[j as int]) =~= order@.take(k as int).map_values(
            |j: usize| views[j as int],
        ).push(views[order@[k as int] as int]));
        k += 1;
    }
    assert(order@.take(order@.len() as int) =~= order@);
    sorted
}

proof fn lemma_key_runs_members(s: Seq<VirtualInputKey>, sep: VirtualInputKey)
    ensures
        forall|k: int, j: int|
            0 <= k < key_runs(s, sep).len() && 0 <= j < key_runs(s, sep)[k].len() ==> s.contains(
                #[trigger] key_runs(s, sep)[k][j],
            ),
    decreases s.len(),
{
    if s.len() > 0 {
        let init = key_runs(s.drop_last(), sep);
        lemma_key_runs_members(s.drop_last(), sep);
        crate::engine::lemma_key_runs_nonempty(s.drop_last(), sep);
        let runs = key_runs(s, sep);
        assert forall|k: int, j: int| 0 <= k < runs.len() && 0 <= j < runs[k].len() implies s.contains(
            #[trigger] runs[k][j],
        ) by {
            if s.last() == sep {
                assert(k < init.len());
                assert(runs[k] == init[k]);
                assert(s.drop_last().contains(init[k][j]));
                let u = choose|u: int| 0 <= u < s.drop_last().len() && s.drop_last()[u] == init[k][j];
                assert(s[u] == init[k][j]);
            } else if k < init.len() - 1 {
                assert(runs[k] == init[k]);
                assert(s.drop_last().contains(init[k][j]));
                let u = choose|u: int| 0 <= u < s.drop_last().len() && s.drop_last()[u] == init[k][j];
                assert(s[u] == init[k][j]);
            } else {
                assert(runs[k] == init.last().push(s.last()));
                if j < init.last().len() {
                    assert(runs[k][j] == init[init.len() - 1][j]);
                    assert(s.drop_last().contains(init[init.len() - 1][j]));
                    let u = choose|u: int| 0 <= u < s.drop_last().len() && s.drop_last()[u] == init[init.len() - 1][j];
                    assert(s[u] == runs[k][j]);
                } else {
                    assert(runs[k][j] == s.last());
                    assert(s[s.len() - 1] == s.last());
                }
            }
        }
    }
}

fn part_anchor_key_list(keys: &[VirtualInputKey]) -> (anchors: Vec<VirtualInputKey>)
    requires
        codes_in_range(key_codes(keys@)),
    ensures
        anchors@ == part_anchor_keys(keys@),
        codes_in_range(key_codes(anchors@)),
{
    let apostrophe = VirtualInputKey { key_code: crate::input_key::VK_APOSTROPHE, code: crate::input_key::APOSTROPHE_CODE, character: '\'' };
    assert(apostrophe == apostrophe_key());
    let parts = split_keys(keys, apostrophe);
    let ghost keep = |p: Seq<VirtualInputKey>| p.len() > 0;
    let ghost runs = key_runs(keys@, apostrophe);
    let ghost kept = runs.filter(keep);
    proof {
        lemma_key_runs_members(keys@, apostrophe);
    }
    let mut anchors: Vec<VirtualInputKey> = Vec::new();
    let mut i: usize = 0;
    while i < parts.len()
        invariant
            0 <= i <= parts@.len(),
            kept == runs.filter(keep),
            keep == (|p: Seq<VirtualInputKey>| p.len() > 0),
            runs == key_runs(keys@, apostrophe_key()),
            crate::engine::key_seqs(parts@) == kept,
            codes_in_range(key_codes(keys@)),
            forall|k: int, j: int|
                0 <= k < runs.len() && 0 <= j < runs[k].len() ==> keys@.contains(#[trigger] runs[k][j]),
            anchors@ == kept.take(i as int).map_values(|p: Seq<VirtualInputKey>| p[0]),
            codes_in_range(key_codes(anchors@)),
        decreases parts.len() - i,
    {
        proof {
            runs.lemma_filter_pred(keep, i as int);
            assert(kept[i as int] == parts@[i as int]@);
            runs.lemma_filter_contains_rev(keep, kept[i as int]);
            assert(kept.contains(kept[i as int]));
        }
        let first = parts[i][0];
        proof {
            let r = choose|r: int| 0 <= r < runs.len() && runs[r] == kept[i as int];
            assert(runs[r][0] == first);
            assert(keys@.contains(runs[r][0]));
            let u = choose|u: int| 0 <= u < keys@.len() && keys@[u] == first;
            assert(key_codes(keys@)[u] == first.code);
        }
        let ghost before = anchors@;
        anchors.push(first);
        proof {
            assert(kept.take(i + 1).map_values(|p: Seq<VirtualInputKey>| p[0]) =~= kept.take(i as int).map_values(
                |p: Seq<VirtualInputKey>| p[0],
            ).push(kept[i as int][0]));
            assert forall|t: int| 0 <= t < anchors@.len() implies 0 <= #[trigger] key_codes(anchors@)[t] < 100 by {
                if t < i {
                    assert(anchors@[t] == before[t]);
                    assert(key_codes(before)[t] == before[t].code);
                } else {
                    assert(anchors@[t] == first);
                }
            }
        }
        i += 1;
    }
    assert(kept.take(kept.len() as int) =~= kept);
    anchors
}


fn fits_parts_exec(item: &Lexicon, parts: &Vec<Vec<char>>, count: usize) -> (r: bool)
    ensures
        r == fits_parts(item@, char_seqs(parts@), count as nat),
{
    let syllable_strings = split(item.romanization.as_str(), ' ');
    let syllables = parts_as_chars(&syllable_strings);
    let ghost sy = char_seqs(syllables@);
    let ghost pa = char_seqs(parts@);
    if syllables.len() != count || parts.len() != count {
        return false;
    }
    let mut i: usize = 0;
    while i < count
        invariant
            0 <= i <= count,
            syllables@.len() == count,
            parts@.len() == count,
            sy == char_seqs(syllables@),
            pa == char_seqs(parts@),
            sy == nonempty_parts(item.romanization@, ' '),
            forall|t: int|
                0 <= t < i ==> if (#[trigger] pa[t]).len() == 1 {
                    has_prefix(tone_free(sy[t]), pa[t])
                } else {
                    tone_free(sy[t]) == pa[t]
                },
        decreases count - i,
    {
        let syllable = crate::memory::tone_free_chars(syllables[i].as_slice());
        let part = &parts[i];
        assert(sy[i as int] == syllables@[i as int]@);
        assert(pa[i as int] == part@);
        let ok = if part.len() == 1 {
            starts_with_chars(syllable.as_slice(), part.as_slice())
        } else {
            chars_equal(syllable.as_slice(), part.as_slice())
        };
        if !ok {
            return false;
        }
        i += 1;
    }
    true
}

impl CoreImeEngine {
    /// The candidates that fit keys typed with apostrophes (see
    /// `apostrophe_filtered`).
    pub fn filter_apostrophe_suggestions(&self, keys: &[VirtualInputKey], lexicons: Vec<Lexicon>) -> (r: Vec<Lexicon>)
        requires
            codes_in_range(key_codes(keys@)),
        ensures
            lexicon_views(r@) == apostrophe_filtered(self.database@.lexicon, keys@, lexicon_views(lexicons@)),
    {
        if keys.len() == 0 || keys[0].character == '\'' {
            let r: Vec<Lexicon> = Vec::new();
            assert(lexicon_views(r@) =~= Seq::<LexiconView>::empty());
            return r;
        }
        let trailing = keys[keys.len() - 1].character == '\'';
        let separators = count_apostrophes(keys);
        let text = text_of_keys(keys);
        let part_strings = split(text.as_str(), '\'');
        let parts = parts_as_chars(&part_strings);
        let ghost views = lexicon_views(lexicons@);
        let ghost f = |item: LexiconView|
            match apostrophe_input(item, keys@) {
                Some(input) => Some(with_input(item, input)),
                None => None,
            };
        let mut qualified: Vec<Lexicon> = Vec::new();
        let mut i: usize = 0;
        proof {
            assert(views.take(0) =~= Seq::<LexiconView>::empty());
            reveal(Seq::filter_map);
        }
        while i < lexicons.len()
            invariant
                0 <= i <= lexicons@.len(),
                views == lexicon_views(lexicons@),
                text@ == keys_text(keys@),
                char_seqs(parts@) == nonempty_parts(keys_text(keys@), '\''),
                separators == apostrophe_count(keys@),
                trailing == ends_with_apostrophe(keys@),
                f == (|item: LexiconView|
                    match apostrophe_input(item, keys@) {
                        Some(input) => Some(with_input(item, input)),
                        None => None,
                    }),
                lexicon_views(qualified@) == views.take(i as int).filter_map(f),
            decreases lexicons.len() - i,
        {
            let item = &lexicons[i];
            proof {
                views.lemma_filter_map_take_succ(f, i as int);
                assert(views[i as int] == item@);
            }
            match apostrophe_input_of(item, keys, &text, &parts, separators, trailing) {
                Some(input) => {
                    let q = item.replaced_input(input);
                    let ghost before = lexicon_views(qualified@);
                    qualified.push(q);
                    assert(lexicon_views(qualified@) =~= before.push(q@));
                },
                None => {},
            }
            i += 1;
        }
        proof {
            assert(views.take(views.len() as int) =~= views);
        }
        if qualified.len() > 0 {
            let unique = distinct(qualified);
            return sorted_by_input_count(&unique);
        }
        let anchors = part_anchor_key_list(keys);
        let matched = self.anchors_match(anchors.as_slice(), None, None);
        let ghost mv = lexicon_views(matched@);
        let ghost g = |item: LexiconView|
            if fits_parts(item, char_seqs(parts@), anchors@.len()) {
                Some(with_input(item, text@))
            } else {
                None
            };
        let mut result: Vec<Lexicon> = Vec::new();
        let mut k: usize = 0;
        proof {
            assert(mv.take(0) =~= Seq::<LexiconView>::empty());
            reveal(Seq::filter_map);
        }
        while k < matched.len()
            invariant
                0 <= k <= matched@.len(),
                mv == lexicon_views(matched@),
                g == (|item: LexiconView|
                    if fits_parts(item, char_seqs(parts@), anchors@.len()) {
                        Some(with_input(item, text@))
                    } else {
                        None
                    }),
                lexicon_views(result@) == mv.take(k as int).filter_map(g),
            decreases matched.len() - k,
        {
            let item = &matched[k];
            proof {
                mv.lemma_filter_map_take_succ(g, k as int);
                assert(mv[k as int] == item@);
            }
            if fits_parts_exec(item, &parts, anchors.len()) {
                let q = item.replaced_input(text.clone());
                let ghost before = lexicon_views(result@);
                result.push(q);
                assert(lexicon_views(result@) =~= before.push(q@));
            }
            k += 1;
        }
        proof {
            assert(mv.take(mv.len() as int) =~= mv);
        }
        result
    }
}


/// Whether a learned-word candidate fits keys typed with apostrophes: its
/// syllables (without tones) are the typed parts; or, after one trailing
/// apostrophe, it is one syllable answering the keys before it; or, with
/// one apostrophe, it is two syllables that fit the first two parts; or,
/// after a second, trailing apostrophe, two syllables answering the keys
/// before both apostrophes, fitting the parts exactly; or three syllables
/// for three parts of five or six keys.
pub open spec fn memory_apostrophe_fits(item: LexiconView, keys: Seq<VirtualInputKey>) -> bool {
    let parts = nonempty_parts(keys_text(keys), '\'');
    let syllables = nonempty_parts(tone_free(item.romanization), ' ');
    let separators = apostrophe_count(keys);
    let trailing = ends_with_apostrophe(keys);
    let n = keys.len();
    let count = item.input_count as int;
    if syllables == parts {
        true
    } else if separators == 1 && trailing {
        syllables.len() == 1 && count == n - 1
    } else if separators == 1 {
        syllables.len() == 2 && parts.len() >= 2 && first_two_fit(syllables, parts, n, 3, false)
    } else if separators == 2 && trailing {
        syllables.len() == 2 && parts.len() >= 2 && count == n - 2 && first_two_fit(syllables, parts, n, 4, true)
    } else {
        ((separators == 2 && n == 5) || (separators == 3 && n == 6)) && parts.len() == 3 && syllables.len() == 3
    }
}

/// The learned-word candidates that fit keys typed with apostrophes, in
/// order, each answering the whole input; none when the input is empty or
/// starts with an apostrophe.
pub open spec fn memory_apostrophe_filtered(keys: Seq<VirtualInputKey>, items: Seq<LexiconView>) -> Seq<LexiconView> {
    if keys.len() == 0 || keys[0].character == '\'' {
        Seq::empty()
    } else {
        items.filter_map(
            |item: LexiconView|
                if memory_apostrophe_fits(item, keys) {
                    Some(with_input(item, keys_text(keys)))
                } else {
                    None
                },
        )
    }
}

fn memory_apostrophe_fits_exec(
    item: &Lexicon,
    keys: &[VirtualInputKey],
    parts: &Vec<Vec<char>>,
    separators: usize,
    trailing: bool,
) -> (r: bool)
    requires
        char_seqs(parts@) == nonempty_parts(keys_text(keys@), '\''),
        separators == apostrophe_count(keys@),
        trailing == ends_with_apostrophe(keys@),
    ensures
        r == memory_apostrophe_fits(item@, keys@),
{
    let syllable_strings = split(stripped_tones(item.romanization.as_str()).as_str(), ' ');
    let syllables = parts_as_chars(&syllable_strings);
    let n = keys.len();
    let count = item.input_count;
    if parts_equal(&syllables, parts) {
        return true;
    }
    if separators == 1 && trailing {
        return syllables.len() == 1 && n >= 1 && count == n - 1;
    }
    if separators == 1 {
        return syllables.len() == 2 && parts.len() >= 2 && first_two_fit_exec(&syllables, parts, n, 3, false);
    }
    if separators == 2 && trailing {
        return syllables.len() == 2 && parts.len() >= 2 && n >= 2 && count == n - 2 && first_two_fit_exec(
            &syllables,
            parts,
            n,
            4,
            true,
        );
    }
    ((separators == 2 && n == 5) || (separators == 3 && n == 6)) && parts.len() == 3 && syllables.len() == 3
}

impl crate::memory::InputMemory {
    /// The learned-word candidates that fit keys typed with apostrophes
    /// (see `memory_apostrophe_filtered`).
    pub fn filter_apostrophe_suggestions(&self, keys: &[VirtualInputKey], candidates: Vec<Lexicon>) -> (r: Vec<
        Lexicon,
    >)
        ensures
            lexicon_views(r@) == memory_apostrophe_filtered(keys@, lexicon_views(candidates@)),
    {
        if keys.len() == 0 || keys[0].character == '\'' {
            let r: Vec<Lexicon> = Vec::new();
            assert(lexicon_views(r@) =~= Seq::<LexiconView>::empty());
            return r;
        }
        let trailing = keys[keys.len() - 1].character == '\'';
        let separators = count_apostrophes(keys);
        let text = text_of_keys(keys);
        let part_strings = split(text.as_str(), '\'');
        let parts = parts_as_chars(&part_strings);
        let ghost views = lexicon_views(candidates@);
        let ghost f = |item: LexiconView|
            if memory_apostrophe_fits(item, keys@) {
                Some(with_input(item, keys_text(keys@)))
            } else {
                None
            };
        let mut qualified: Vec<Lexicon> = Vec::new();
        let mut i: usize = 0;
        proof {
            assert(views.take(0) =~= Seq::<LexiconView>::empty());
            reveal(Seq::filter_map);
        }
        while i < candidates.len()
            invariant
                0 <= i <= candidates@.len(),
                views == lexicon_views(candidates@),
                text@ == keys_text(keys@),
                char_seqs(parts@) == nonempty_parts(keys_text(keys@), '\''),
                separators == apostrophe_count(keys@),
                trailing == ends_with_apostrophe(keys@),
                f == (|item: LexiconView|
                    if memory_apostrophe_fits(item, keys@) {
                        Some(with_input(item, keys_text(keys@)))
                    } else {
                        None
                    }),
                lexicon_views(qualified@) == views.take(i as int).filter_map(f),
            decreases candidates.len() - i,
        {
            let item = &candidates[i];
            proof {
                views.lemma_filter_map_take_succ(f, i as int);
                assert(views[i as int] == item@);
            }
            if memory_apostrophe_fits_exec(item, keys, &parts, separators, trailing) {
                let q = item.replaced_input(text.clone());
                let ghost before = lexicon_views(qualified@);
                qualified.push(q);
                assert(lexicon_views(qualified@) =~= before.push(q@));
            }
            i += 1;
        }
        proof {
            assert(views.take(views.len() as int) =~= views);
        }
        qualified
    }
}

} // verus!
