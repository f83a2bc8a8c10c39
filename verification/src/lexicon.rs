//! Candidates of the lexicon: a word with its romanization, the input it
//! answers, the reading shown for it and its number in the lexicon; and
//! the list operations that the searches share.
use vstd::prelude::*;
use crate::database::LexiconRow;
use crate::memory::{tone_free, tone_free_chars};
use crate::text::{chars_of, string_from_chars};

verus! {

/// A Cantonese candidate: the word, its romanization, the input it
/// answers and how many keys that is, the reading shown for it (if any)
/// and its number in the lexicon.
pub struct Lexicon {
    pub text: String,
    pub romanization: String,
    pub input: String,
    pub input_count: usize,
    pub mark: Option<String>,
    pub number: i64,
}

/// A candidate as values.
pub struct LexiconView {
    pub text: Seq<char>,
    pub romanization: Seq<char>,
    pub input: Seq<char>,
    pub input_count: usize,
    pub mark: Option<Seq<char>>,
    pub number: i64,
}

/// A Cantonese candidate as values; it consumes as many keys as its input
/// has characters.
pub open spec fn cantonese_lexicon(
    text: Seq<char>,
    romanization: Seq<char>,
    input: Seq<char>,
    mark: Option<Seq<char>>,
    number: i64,
) -> LexiconView {
    LexiconView { text, romanization, input, input_count: input.len() as usize, mark, number }
}

/// The view of an optional string.
pub open spec fn optional_chars(s: Option<String>) -> Option<Seq<char>> {
    match s {
        Some(t) => Some(t@),
        None => None,
    }
}

impl View for Lexicon {
    type V = LexiconView;

    open spec fn view(&self) -> LexiconView {
        LexiconView {
            text: self.text@,
            romanization: self.romanization@,
            input: self.input@,
            input_count: self.input_count,
            mark: optional_chars(self.mark),
            number: self.number,
        }
    }
}

/// The views of a list of candidates.
pub open spec fn lexicon_views(items: Seq<Lexicon>) -> Seq<LexiconView> {
    items.map_values(|x: Lexicon| x@)
}

/// A copy of an optional string.
pub fn copy_optional(s: &Option<String>) -> (r: Option<String>)
    ensures
        optional_chars(r) == optional_chars(*s),
{
    match s {
        Some(t) => Some(t.clone()),
        None => None,
    }
}

impl Lexicon {
    /// A Cantonese candidate answering `input` (its key count is the
    /// input's length).
    pub fn cantonese(text: String, romanization: String, input: String, mark: Option<String>, number: i64) -> (
        lexicon: Self)
        ensures
            lexicon@ == cantonese_lexicon(text@, romanization@, input@, optional_chars(mark), number),
    {
        let input_count = chars_of(input.as_str()).len();
        Lexicon { text, romanization, input, input_count, mark, number }
    }

    /// The same candidate answering another input.
    pub fn replaced_input(&self, input: String) -> (lexicon: Self)
        ensures
            lexicon@ == cantonese_lexicon(self.text@, self.romanization@, input@, optional_chars(self.mark), self.number),
    {
        Lexicon::cantonese(self.text.clone(), self.romanization.clone(), input, copy_optional(&self.mark), self.number)
    }

    /// A copy of the candidate.
    pub fn copy(&self) -> (lexicon: Self)
        ensures
            lexicon@ == self@,
    {
        Lexicon {
            text: self.text.clone(),
            romanization: self.romanization.clone(),
            input: self.input.clone(),
            input_count: self.input_count,
            mark: copy_optional(&self.mark),
            number: self.number,
        }
    }
}

/// Whether two candidates are the same word with the same romanization.
pub open spec fn same_lexicon(a: LexiconView, b: LexiconView) -> bool {
    a.text == b.text && a.romanization == b.romanization
}

/// The candidates whose word (with its romanization) has not come earlier,
/// in order.
pub open spec fn first_occurrences(items: Seq<LexiconView>) -> Seq<LexiconView>
    decreases items.len(),
{
    if items.len() == 0 {
        Seq::empty()
    } else {
        let d = first_occurrences(items.drop_last());
        if exists|t: int| 0 <= t < d.len() && same_lexicon(#[trigger] d[t], items.last()) {
            d
        } else {
            d.push(items.last())
        }
    }
}

/// Whether no two of the candidates are the same word with the same
/// romanization.
pub open spec fn no_repeats(items: Seq<LexiconView>) -> bool {
    forall|i: int, j: int| 0 <= i < j < items.len() ==> !same_lexicon(#[trigger] items[i], #[trigger] items[j])
}

proof fn lemma_first_occurrences_no_repeats(items: Seq<LexiconView>)
    ensures
        no_repeats(first_occurrences(items)),
    decreases items.len(),
{
    if items.len() > 0 {
        let d = first_occurrences(items.drop_last());
        lemma_first_occurrences_no_repeats(items.drop_last());
        let dd = first_occurrences(items);
        if !(exists|t: int| 0 <= t < d.len() && same_lexicon(#[trigger] d[t], items.last())) {
            assert forall|i: int, j: int| 0 <= i < j < dd.len() implies !same_lexicon(
                #[trigger] dd[i],
                #[trigger] dd[j],
            ) by {
                assert(dd[i] == d[i]);
                if j < d.len() {
                    assert(dd[j] == d[j]);
                } else {
                    assert(dd[j] == items.last());
                    assert(!same_lexicon(d[i], items.last()));
                }
            }
        }
    }
}

proof fn lemma_first_occurrences_cover(items: Seq<LexiconView>, t: int) -> (k: int)
    requires
        0 <= t < items.len(),
    ensures
        0 <= k < first_occurrences(items).len(),
        same_lexicon(first_occurrences(items)[k], items[t]),
    decreases items.len(),
{
    let prev = items.drop_last();
    let d = first_occurrences(prev);
    let dd = first_occurrences(items);
    if t < prev.len() {
        let k = lemma_first_occurrences_cover(prev, t);
        assert(dd[k] == d[k]);
        k
    } else if exists|u: int| 0 <= u < d.len() && same_lexicon(#[trigger] d[u], items.last()) {
        let u = choose|u: int| 0 <= u < d.len() && same_lexicon(#[trigger] d[u], items.last());
        assert(dd[u] == d[u]);
        u
    } else {
        assert(dd[d.len() as int] == items.last());
        d.len() as int
    }
}

proof fn lemma_first_occurrences_of_no_repeats(items: Seq<LexiconView>)
    requires
        no_repeats(items),
    ensures
        first_occurrences(items) == items,
    decreases items.len(),
{
    if items.len() > 0 {
        let prev = items.drop_last();
        assert(no_repeats(prev)) by {
            assert forall|i: int, j: int| 0 <= i < j < prev.len() implies !same_lexicon(
                #[trigger] prev[i],
                #[trigger] prev[j],
            ) by {
                assert(prev[i] == items[i] && prev[j] == items[j]);
            }
        }
        lemma_first_occurrences_of_no_repeats(prev);
        let d = first_occurrences(prev);
        if exists|t: int| 0 <= t < d.len() && same_lexicon(#[trigger] d[t], items.last()) {
            let t = choose|t: int| 0 <= t < d.len() && same_lexicon(#[trigger] d[t], items.last());
            assert(items[t] == d[t]);
            assert(!same_lexicon(items[t], items[items.len() - 1]));
        }
        assert(prev.push(items.last()) =~= items);
    }
}

/// The result of `distinct` holds no word (with its romanization) twice,
/// holds every candidate's word, and is left as it is by `distinct`.
pub proof fn lemma_distinct_laws(items: Seq<LexiconView>)
    ensures
        no_repeats(first_occurrences(items)),
        forall|t: int|
            0 <= t < items.len() ==> exists|k: int|
                0 <= k < first_occurrences(items).len() && same_lexicon(
                    first_occurrences(items)[k],
                    #[trigger] items[t],
                ),
        first_occurrences(first_occurrences(items)) == first_occurrences(items),
{
    lemma_first_occurrences_no_repeats(items);
    lemma_first_occurrences_of_no_repeats(first_occurrences(items));
    assert forall|t: int| 0 <= t < items.len() implies exists|k: int|
        0 <= k < first_occurrences(items).len() && same_lexicon(
            first_occurrences(items)[k],
            #[trigger] items[t],
        ) by {
        let k = lemma_first_occurrences_cover(items, t);
    }
}

/// The candidates, each word (with its romanization) once, where it first
/// comes.
pub fn distinct(items: Vec<Lexicon>) -> (result: Vec<Lexicon>)
    ensures
        lexicon_views(result@) == first_occurrences(lexicon_views(items@)),
{
    let ghost views = lexicon_views(items@);
    let mut result: Vec<Lexicon> = Vec::new();
    let mut i: usize = 0;
    while i < items.len()
        invariant
            0 <= i <= items@.len(),
            views == lexicon_views(items@),
            lexicon_views(result@) == first_occurrences(views.take(i as int)),
        decreases items.len() - i,
    {
        let item = &items[i];
        let ghost kept = lexicon_views(result@);
        let mut seen = false;
        let mut j: usize = 0;
        while j < result.len()
            invariant
                0 <= j <= result@.len(),
                kept == lexicon_views(result@),
                item@ == views[i as int],
                seen == exists|t: int| 0 <= t < j && same_lexicon(#[trigger] kept[t], item@),
            decreases result.len() - j,
        {
            if result[j].text == item.text && result[j].romanization == item.romanization {
                seen = true;
            }
            proof {
                assert(kept[j as int] == result@[j as int]@);
                if same_lexicon(kept[j as int], item@) {
                    assert(exists|t: int| 0 <= t < j + 1 && same_lexicon(#[trigger] kept[t], item@));
                }
                if exists|t: int| 0 <= t < j + 1 && same_lexicon(#[trigger] kept[t], item@) {
                    let t = choose|t: int| 0 <= t < j + 1 && same_lexicon(#[trigger] kept[t], item@);
                    if t < j {
                        assert(exists|t: int| 0 <= t < j && same_lexicon(#[trigger] kept[t], item@));
                    }
                }
            }
            j += 1;
        }
        proof {
            let taken = views.take(i + 1);
            assert(taken.drop_last() =~= views.take(i as int));
            assert(taken.last() == item@);
        }
        if !seen {
            let copy = item.copy();
            result.push(copy);
            proof {
                assert(lexicon_views(result@) =~= kept.push(copy@));
            }
        }
        i += 1;
    }
    proof {
        assert(views.take(items@.len() as int) =~= views);
    }
    result
}

/// A romanization without its tone digits.
pub fn stripped_tones(romanization: &str) -> (r: String)
    ensures
        r@ == tone_free(romanization@),
{
    let chars = chars_of(romanization);
    string_from_chars(tone_free_chars(chars.as_slice()).as_slice())
}

/// The candidate of a lexicon row answering `input`: its reading is `mark`,
/// or the row's romanization without tones when there is none.
pub open spec fn row_lexicon(row: (i64, Seq<char>, Seq<char>), input: Seq<char>, mark: Option<Seq<char>>) -> LexiconView {
    cantonese_lexicon(
        row.1,
        row.2,
        input,
        Some(
            match mark {
                Some(m) => m,
                None => tone_free(row.2),
            },
        ),
        row.0,
    )
}

/// The candidates of lexicon rows, in order.
pub fn lexicons_from_rows(rows: Vec<LexiconRow>, input: &str, mark: &Option<String>) -> (result: Vec<Lexicon>)
    ensures
        lexicon_views(result@) == rows@.map_values(
            |r: LexiconRow| row_lexicon(r@, input@, optional_chars(*mark)),
        ),
{
    let mut result: Vec<Lexicon> = Vec::new();
    let mut i: usize = 0;
    while i < rows.len()
        invariant
            0 <= i <= rows@.len(),
            lexicon_views(result@) == rows@.take(i as int).map_values(
                |r: LexiconRow| row_lexicon(r@, input@, optional_chars(*mark)),
            ),
        decreases rows.len() - i,
    {
        let row = &rows[i];
        let reading = match mark {
            Some(m) => m.clone(),
            None => stripped_tones(row.romanization.as_str()),
        };
        let item = Lexicon::cantonese(
            row.word.clone(),
            row.romanization.clone(),
            input.to_string(),
            Some(reading),
            row.row_id,
        );
        let ghost before = lexicon_views(result@);
        result.push(item);
        proof {
            assert(lexicon_views(result@) =~= before.push(item@));
            assert(rows@.take(i + 1) =~= rows@.take(i as int).push(rows@[i as int]));
            assert(rows@.take(i + 1).map_values(|r: LexiconRow| row_lexicon(r@, input@, optional_chars(*mark)))
                =~= rows@.take(i as int).map_values(
                |r: LexiconRow| row_lexicon(r@, input@, optional_chars(*mark)),
            ).push(row_lexicon(rows@[i as int]@, input@, optional_chars(*mark))));
        }
        i += 1;
    }
    proof {
        assert(rows@.take(rows@.len() as int) =~= rows@);
    }
    result
}

} // verus!
