//! How learned words are ranked among themselves: a few most chosen, then
//! a few most recent, then the rest by how often they were chosen; and,
//! for input matched in pieces, groups by how many keys they consume.
use vstd::prelude::*;
use crate::database::MemoryRow;
use crate::engine::{anchor_keys, keys_text, text_of_keys};
use crate::input_key::{codes_in_range, combined_code, combined_code_of, key_codes, VirtualInputKey};
use crate::memory::{anchors_selector, is_memory_selection, spell_selector, tone_free, InputMemory};

verus! {

/// The place in `order` before which an element with key `k` goes so that
/// it stays after every element whose key is at least `k`: the first place
/// whose key is smaller.
pub open spec fn first_smaller(order: Seq<usize>, k: int, keys: Seq<int>) -> nat
    decreases order.len(),
{
    if order.len() == 0 {
        0
    } else if keys[order[0] as int] < k {
        0
    } else {
        1 + first_smaller(order.drop_first(), k, keys)
    }
}

/// The positions `0..n` ordered by their keys, largest first, positions
/// with equal keys in their own order (a stable sort): each position is
/// inserted after all earlier ones whose key is at least its own.
pub open spec fn stable_desc(keys: Seq<int>, n: nat) -> Seq<usize>
    decreases n,
{
    if n == 0 {
        Seq::empty()
    } else {
        let prev = stable_desc(keys, (n - 1) as nat);
        prev.insert(first_smaller(prev, keys[n - 1], keys) as int, (n - 1) as usize)
    }
}

/// Keys as mathematical integers.
pub open spec fn int_keys(keys: Seq<i128>) -> Seq<int> {
    keys.map_values(|k: i128| k as int)
}

proof fn lemma_first_smaller_bound(order: Seq<usize>, k: int, keys: Seq<int>)
    ensures
        first_smaller(order, k, keys) <= order.len(),
    decreases order.len(),
{
    if order.len() > 0 {
        lemma_first_smaller_bound(order.drop_first(), k, keys);
    }
}

proof fn lemma_stable_desc_len(keys: Seq<int>, n: nat)
    ensures
        stable_desc(keys, n).len() == n,
        forall|t: int| 0 <= t < n ==> #[trigger] stable_desc(keys, n)[t] < n,
    decreases n,
{
    if n > 0 {
        let prev = stable_desc(keys, (n - 1) as nat);
        lemma_stable_desc_len(keys, (n - 1) as nat);
        lemma_first_smaller_bound(prev, keys[n - 1], keys);
        let p = first_smaller(prev, keys[n - 1], keys) as int;
        let cur = prev.insert(p, (n - 1) as usize);
        assert forall|t: int| 0 <= t < n implies #[trigger] cur[t] < n by {
            if t < p {
                assert(cur[t] == prev[t]);
            } else if t > p {
                assert(cur[t] == prev[t - 1]);
            }
        }
    }
}

/// The positions of `keys` ordered by key, largest first, equal keys in
/// their own order.
pub fn stable_desc_order(keys: &Vec<i128>) -> (order: Vec<usize>)
    ensures
        order@ == stable_desc(int_keys(keys@), keys@.len()),
        order@.len() == keys@.len(),
        forall|t: int| 0 <= t < order@.len() ==> #[trigger] order@[t] < keys@.len(),
{
    let ghost ks = int_keys(keys@);
    let mut order: Vec<usize> = Vec::new();
    let mut i: usize = 0;
    while i < keys.len()
        invariant
            0 <= i <= keys@.len(),
            ks == int_keys(keys@),
            order@ == stable_desc(ks, i as nat),
            order@.len() == i,
            forall|t: int| 0 <= t < i ==> #[trigger] order@[t] < i,
        decreases keys.len() - i,
    {
        let k = keys[i];
        let mut p: usize = 0;
        proof {
            assert(order@.skip(0) =~= order@);
        }
        while p < order.len() && keys[order[p]] >= k
            invariant
                0 <= p <= order@.len(),
                i < keys@.len(),
                k == keys@[i as int],
                ks == int_keys(keys@),
                order@.len() == i,
                forall|t: int| 0 <= t < i ==> #[trigger] order@[t] < i,
                first_smaller(order@, ks[i as int], ks) == p + first_smaller(order@.skip(p as int), ks[i as int], ks),
            decreases order.len() - p,
        {
            proof {
                assert(order@.skip(p as int)[0] == order@[p as int]);
                assert(order@.skip(p as int).drop_first() =~= order@.skip(p + 1));
                assert(ks[order@[p as int] as int] == keys@[order@[p as int] as int] as int);
            }
            p += 1;
        }
        proof {
            if p < order@.len() {
                assert(order@.skip(p as int)[0] == order@[p as int]);
                assert(ks[order@[p as int] as int] == keys@[order@[p as int] as int] as int);
            }
            assert(first_smaller(order@, ks[i as int], ks) == p);
            lemma_stable_desc_len(ks, i as nat);
        }
        let ghost before = order@;
        order.insert(p, i);
        proof {
            assert(order@ == before.insert(p as int, i));
            assert(stable_desc(ks, (i + 1) as nat) == before.insert(
                first_smaller(before, ks[i as int], ks) as int,
                i as usize,
            ));
            assert forall|t: int| 0 <= t < i + 1 implies #[trigger] order@[t] < i + 1 by {
                if t < p {
                    assert(order@[t] == before[t]);
                } else if t > p {
                    assert(order@[t] == before[t - 1]);
                }
            }
        }
        i += 1;
    }
    proof {
        lemma_stable_desc_len(ks, keys@.len());
    }
    order
}

/// A learned word as a candidate: the word and its romanization, how often
/// and when it was last chosen, the input it answers (and how many keys
/// that is), and the reading shown for it.
pub struct MemoryLexicon {
    pub word: String,
    pub romanization: String,
    pub frequency: i64,
    pub latest: i64,
    pub input: String,
    pub input_count: usize,
    pub mark: String,
}

/// A learned-word candidate as values.
pub struct MemoryLexiconView {
    pub word: Seq<char>,
    pub romanization: Seq<char>,
    pub frequency: i64,
    pub latest: i64,
    pub input: Seq<char>,
    pub input_count: usize,
    pub mark: Seq<char>,
}

impl View for MemoryLexicon {
    type V = MemoryLexiconView;

    open spec fn view(&self) -> MemoryLexiconView {
        MemoryLexiconView {
            word: self.word@,
            romanization: self.romanization@,
            frequency: self.frequency,
            latest: self.latest,
            input: self.input@,
            input_count: self.input_count,
            mark: self.mark@,
        }
    }
}

/// The views of a list of learned-word candidates.
pub open spec fn lexicon_views(items: Seq<MemoryLexicon>) -> Seq<MemoryLexiconView> {
    items.map_values(|x: MemoryLexicon| x@)
}

impl MemoryLexicon {
    /// A candidate answering `input` (its key count is the input's length).
    pub fn new(word: String, romanization: String, frequency: i64, latest: i64, input: String, mark: String) -> (
        lexicon: Self)
        ensures
            lexicon@ == (MemoryLexiconView {
                word: word@,
                romanization: romanization@,
                frequency,
                latest,
                input: input@,
                input_count: input@.len() as usize,
                mark: mark@,
            }),
    {
        let input_count = crate::text::chars_of(input.as_str()).len();
        MemoryLexicon { word, romanization, frequency, latest, input, input_count, mark }
    }

    /// The same word answering another input, with another reading.
    pub fn replaced(&self, input: String, mark: String) -> (lexicon: Self)
        ensures
            lexicon@ == (MemoryLexiconView {
                input: input@,
                input_count: input@.len() as usize,
                mark: mark@,
                ..self@
            }),
    {
        MemoryLexicon::new(self.word.clone(), self.romanization.clone(), self.frequency, self.latest, input, mark)
    }

    /// The learned word as a lexicon candidate with the given number, its
    /// reading shown.
    pub fn to_lexicon(&self, number: i64) -> (lexicon: crate::lexicon::Lexicon)
        ensures
            lexicon@ == crate::lexicon::cantonese_lexicon(
                self.word@,
                self.romanization@,
                self.input@,
                Some(self.mark@),
                number,
            ),
    {
        crate::lexicon::Lexicon::cantonese(
            self.word.clone(),
            self.romanization.clone(),
            self.input.clone(),
            Some(self.mark.clone()),
            number,
        )
    }

    /// A copy of the candidate.
    pub fn copy(&self) -> (lexicon: Self)
        ensures
            lexicon@ == self@,
    {
        MemoryLexicon {
            word: self.word.clone(),
            romanization: self.romanization.clone(),
            frequency: self.frequency,
            latest: self.latest,
            input: self.input.clone(),
            input_count: self.input_count,
            mark: self.mark.clone(),
        }
    }
}

/// Whether two candidates are the same word with the same romanization.
pub open spec fn same_entry(a: MemoryLexiconView, b: MemoryLexiconView) -> bool {
    a.word == b.word && a.romanization == b.romanization
}

/// The positions of `order` whose word (with its romanization) has not come
/// earlier in `order`.
pub open spec fn distinct_entries(items: Seq<MemoryLexiconView>, order: Seq<usize>) -> Seq<usize>
    decreases order.len(),
{
    if order.len() == 0 {
        Seq::empty()
    } else {
        let d = distinct_entries(items, order.drop_last());
        if exists|t: int| 0 <= t < d.len() && same_entry(items[d[t] as int], items[order.last() as int]) {
            d
        } else {
            d.push(order.last())
        }
    }
}

/// At most the first `k` of `s`.
pub open spec fn prefix_of<A>(s: Seq<A>, k: int) -> Seq<A> {
    if s.len() <= k {
        s
    } else {
        s.take(k)
    }
}

/// The positions `0..n` in their own order.
pub open spec fn identity_order(n: nat) -> Seq<usize> {
    Seq::new(n, |i: int| i as usize)
}

/// How often each candidate was chosen.
pub open spec fn frequency_keys(items: Seq<MemoryLexiconView>) -> Seq<int> {
    items.map_values(|x: MemoryLexiconView| x.frequency as int)
}

/// When each candidate was last chosen.
pub open spec fn latest_keys(items: Seq<MemoryLexiconView>) -> Seq<int> {
    items.map_values(|x: MemoryLexiconView| x.latest as int)
}

/// The positions of the candidates, most chosen first (`is_ordered`: they
/// already come in that order).
pub open spec fn frequency_order(items: Seq<MemoryLexiconView>, is_ordered: bool) -> Seq<usize> {
    if is_ordered {
        identity_order(items.len())
    } else {
        stable_desc(frequency_keys(items), items.len())
    }
}

/// The regular ranking of candidates, as positions: the three most chosen,
/// then the five most recently chosen, then all of them by how often they
/// were chosen, each word once, where it first comes (`is_ordered`: the
/// candidates already come most chosen first).
pub open spec fn regular_order(items: Seq<MemoryLexiconView>, is_ordered: bool) -> Seq<usize> {
    let n = items.len();
    let by_frequency = frequency_order(items, is_ordered);
    let by_date = stable_desc(latest_keys(items), n);
    distinct_entries(items, prefix_of(by_frequency, 3) + prefix_of(by_date, 5) + by_frequency)
}

/// The candidates at the given positions, in order.
pub open spec fn picked(items: Seq<MemoryLexiconView>, order: Seq<usize>) -> Seq<MemoryLexiconView> {
    order.map_values(|i: usize| items[i as int])
}

fn distinct_entry_order(items: &Vec<MemoryLexicon>, order: &Vec<usize>) -> (kept: Vec<usize>)
    requires
        forall|t: int| 0 <= t < order@.len() ==> #[trigger] order@[t] < items@.len(),
    ensures
        kept@ == distinct_entries(lexicon_views(items@), order@),
        forall|t: int| 0 <= t < kept@.len() ==> #[trigger] kept@[t] < items@.len(),
{
    let ghost views = lexicon_views(items@);
    let mut kept: Vec<usize> = Vec::new();
    let mut i: usize = 0;
    while i < order.len()
        invariant
            0 <= i <= order@.len(),
            views == lexicon_views(items@),
            forall|t: int| 0 <= t < order@.len() ==> #[trigger] order@[t] < items@.len(),
            kept@ == distinct_entries(views, order@.take(i as int)),
            forall|t: int| 0 <= t < kept@.len() ==> #[trigger] kept@[t] < items@.len(),
        decreases order.len() - i,
    {
        let candidate = order[i];
        let mut seen = false;
        let mut j: usize = 0;
        while j < kept.len()
            invariant
                0 <= j <= kept@.len(),
                candidate < items@.len(),
                views == lexicon_views(items@),
                forall|t: int| 0 <= t < kept@.len() ==> #[trigger] kept@[t] < items@.len(),
                seen == exists|t: int| 0 <= t < j && same_entry(views[kept@[t] as int], views[candidate as int]),
            decreases kept.len() - j,
        {
            let other = kept[j];
            if items[other].word == items[candidate].word && items[other].romanization
                == items[candidate].romanization {
                seen = true;
            }
            proof {
                assert(views[other as int] == items@[other as int]@);
                assert(views[candidate as int] == items@[candidate as int]@);
                if same_entry(views[kept@[j as int] as int], views[candidate as int]) {
                    assert(exists|t: int| 0 <= t < j + 1 && same_entry(views[kept@[t] as int], views[candidate as int]));
                }
                if exists|t: int| 0 <= t < j + 1 && same_entry(views[kept@[t] as int], views[candidate as int]) {
                    let t = choose|t: int| 0 <= t < j + 1 && same_entry(views[kept@[t] as int], views[candidate as int]);
                    if t < j {
                        assert(exists|t: int| 0 <= t < j && same_entry(views[kept@[t] as int], views[candidate as int]));
                    }
                }
            }
            j += 1;
        }
        proof {
            let taken = order@.take(i + 1);
            assert(taken.drop_last() =~= order@.take(i as int));
            assert(taken.last() == candidate);
        }
        if !seen {
            kept.push(candidate);
        }
        i += 1;
    }
    proof {
        assert(order@.take(order@.len() as int) =~= order@);
    }
    kept
}

fn frequency_key_list(items: &Vec<MemoryLexicon>) -> (keys: Vec<i128>)
    ensures
        int_keys(keys@) == frequency_keys(lexicon_views(items@)),
        keys@.len() == items@.len(),
{
    let mut keys: Vec<i128> = Vec::new();
    let mut i: usize = 0;
    while i < items.len()
        invariant
            0 <= i <= items@.len(),
            keys@.len() == i,
            forall|t: int| 0 <= t < i ==> #[trigger] keys@[t] == items@[t].frequency as i128,
        decreases items.len() - i,
    {
        keys.push(items[i].frequency as i128);
        i += 1;
    }
    assert(int_keys(keys@) =~= frequency_keys(lexicon_views(items@)));
    keys
}

fn latest_key_list(items: &Vec<MemoryLexicon>) -> (keys: Vec<i128>)
    ensures
        int_keys(keys@) == latest_keys(lexicon_views(items@)),
        keys@.len() == items@.len(),
{
    let mut keys: Vec<i128> = Vec::new();
    let mut i: usize = 0;
    while i < items.len()
        invariant
            0 <= i <= items@.len(),
            keys@.len() == i,
            forall|t: int| 0 <= t < i ==> #[trigger] keys@[t] == items@[t].latest as i128,
        decreases items.len() - i,
    {
        keys.push(items[i].latest as i128);
        i += 1;
    }
    assert(int_keys(keys@) =~= latest_keys(lexicon_views(items@)));
    keys
}

fn prefix_positions(order: &Vec<usize>, k: usize, out: &mut Vec<usize>)
    ensures
        final(out)@ == old(out)@ + prefix_of(order@, k as int),
{
    let mut i: usize = 0;
    let end = if order.len() <= k {
        order.len()
    } else {
        k
    };
    while i < end
        invariant
            0 <= i <= end <= order@.len(),
            end == if order@.len() <= k { order@.len() } else { k as nat },
            out@ == old(out)@ + order@.take(i as int),
        decreases end - i,
    {
        out.push(order[i]);
        assert(order@.take(i + 1) =~= order@.take(i as int).push(order@[i as int]));
        i += 1;
    }
    assert(order@.take(end as int) =~= prefix_of(order@, k as int));
}

fn picked_copies(items: &Vec<MemoryLexicon>, order: &Vec<usize>) -> (result: Vec<MemoryLexicon>)
    requires
        forall|t: int| 0 <= t < order@.len() ==> #[trigger] order@[t] < items@.len(),
    ensures
        lexicon_views(result@) == picked(lexicon_views(items@), order@),
{
    let mut result: Vec<MemoryLexicon> = Vec::new();
    let mut i: usize = 0;
    while i < order.len()
        invariant
            0 <= i <= order@.len(),
            forall|t: int| 0 <= t < order@.len() ==> #[trigger] order@[t] < items@.len(),
            lexicon_views(result@) == picked(lexicon_views(items@), order@.take(i as int)),
        decreases order.len() - i,
    {
        let item = items[order[i]].copy();
        let ghost before = result@;
        result.push(item);
        proof {
            assert(result@ == before.push(item));
            assert(lexicon_views(result@) =~= lexicon_views(before).push(item@));
            assert(order@.take(i + 1) =~= order@.take(i as int).push(order@[i as int]));
            assert(picked(lexicon_views(items@), order@.take(i + 1)) =~= picked(
                lexicon_views(items@),
                order@.take(i as int),
            ).push(lexicon_views(items@)[order@[i as int] as int]));
        }
        i += 1;
    }
    proof {
        assert(order@.take(order@.len() as int) =~= order@);
    }
    result
}

/// The candidates in their regular ranking: the three most chosen, then
/// the five most recently chosen, then all of them by how often they were
/// chosen, each word once (`is_ordered`: they already come most chosen
/// first).
pub fn regular_sorted(items: &Vec<MemoryLexicon>, is_ordered: bool) -> (result: Vec<MemoryLexicon>)
    ensures
        lexicon_views(result@) == picked(lexicon_views(items@), regular_order(lexicon_views(items@), is_ordered)),
{
    let ghost views = lexicon_views(items@);
    let n = items.len();
    let by_frequency: Vec<usize> = if is_ordered {
        let mut order: Vec<usize> = Vec::new();
        let mut i: usize = 0;
        while i < n
            invariant
                0 <= i <= n,
                n == items@.len(),
                order@ == identity_order(i as nat),
            decreases n - i,
        {
            order.push(i);
            assert(order@ =~= identity_order((i + 1) as nat));
            i += 1;
        }
        order
    } else {
        let keys = frequency_key_list(items);
        stable_desc_order(&keys)
    };
    let date_keys = latest_key_list(items);
    let by_date = stable_desc_order(&date_keys);
    proof {
        lemma_stable_desc_len(frequency_keys(views), n as nat);
        lemma_stable_desc_len(latest_keys(views), n as nat);
        assert(views.len() == n);
    }
    let mut combined: Vec<usize> = Vec::new();
    prefix_positions(&by_frequency, 3, &mut combined);
    prefix_positions(&by_date, 5, &mut combined);
    prefix_positions(&by_frequency, usize::MAX, &mut combined);
    proof {
        assert(prefix_of(by_frequency@, usize::MAX as int) == by_frequency@);
        assert(Seq::<usize>::empty() + prefix_of(by_frequency@, 3) =~= prefix_of(by_frequency@, 3));
        assert forall|t: int| 0 <= t < by_frequency@.len() implies #[trigger] by_frequency@[t] < items@.len() by {
            if !is_ordered {
                assert(stable_desc(frequency_keys(views), n as nat)[t] < n);
            }
        }
        assert forall|t: int| 0 <= t < by_date@.len() implies #[trigger] by_date@[t] < items@.len() by {
            assert(stable_desc(latest_keys(views), n as nat)[t] < n);
        }
        assert forall|t: int| 0 <= t < combined@.len() implies #[trigger] combined@[t] < items@.len() by {
            let a = prefix_of(by_frequency@, 3);
            let b = prefix_of(by_date@, 5);
            if t < a.len() {
                assert(combined@[t] == by_frequency@[t]);
            } else if t < a.len() + b.len() {
                assert(combined@[t] == by_date@[t - a.len()]);
            } else {
                assert(combined@[t] == by_frequency@[t - a.len() - b.len()]);
            }
        }
    }
    let kept = distinct_entry_order(items, &combined);
    picked_copies(items, &kept)
}

/// The key counts of the candidates, each once, in the order they first
/// come.
pub open spec fn distinct_counts(items: Seq<MemoryLexiconView>) -> Seq<usize>
    decreases items.len(),
{
    if items.len() == 0 {
        Seq::empty()
    } else {
        let d = distinct_counts(items.drop_last());
        if d.contains(items.last().input_count) {
            d
        } else {
            d.push(items.last().input_count)
        }
    }
}

/// The key counts of the candidates, each once, largest first.
pub open spec fn counts_desc(items: Seq<MemoryLexiconView>) -> Seq<usize> {
    let d = distinct_counts(items);
    stable_desc(d.map_values(|c: usize| c as int), d.len()).map_values(|j: usize| d[j as int])
}

/// The candidates that consume `count` keys, in order.
pub open spec fn group_of(items: Seq<MemoryLexiconView>, count: usize) -> Seq<MemoryLexiconView> {
    items.filter(|x: MemoryLexiconView| x.input_count == count)
}

/// The candidates that consume `count` keys, in their regular ranking.
pub open spec fn ranked_group(items: Seq<MemoryLexiconView>, count: usize) -> Seq<MemoryLexiconView> {
    let group = group_of(items, count);
    picked(group, regular_order(group, false))
}

/// The ranked groups of the given key counts, one after the other.
pub open spec fn ranked_groups(items: Seq<MemoryLexiconView>, counts: Seq<usize>) -> Seq<MemoryLexiconView>
    decreases counts.len(),
{
    if counts.len() == 0 {
        Seq::empty()
    } else {
        ranked_groups(items, counts.drop_last()) + ranked_group(items, counts.last())
    }
}

/// The ranking of candidates matched in pieces: grouped by how many keys
/// they consume, most first, each group in its regular ranking.
pub open spec fn peculiar_ranking(items: Seq<MemoryLexiconView>) -> Seq<MemoryLexiconView> {
    ranked_groups(items, counts_desc(items))
}

fn distinct_count_list(items: &Vec<MemoryLexicon>) -> (counts: Vec<usize>)
    ensures
        counts@ == distinct_counts(lexicon_views(items@)),
{
    let ghost views = lexicon_views(items@);
    let mut counts: Vec<usize> = Vec::new();
    let mut i: usize = 0;
    while i < items.len()
        invariant
            0 <= i <= items@.len(),
            views == lexicon_views(items@),
            counts@ == distinct_counts(views.take(i as int)),
        decreases items.len() - i,
    {
        let c = items[i].input_count;
        let mut found = false;
        let mut j: usize = 0;
        while j < counts.len()
            invariant
                0 <= j <= counts@.len(),
                found == exists|t: int| 0 <= t < j && counts@[t] == c,
            decreases counts.len() - j,
        {
            if counts[j] == c {
                found = true;
            }
            j += 1;
        }
        proof {
            let taken = views.take(i + 1);
            assert(taken.drop_last() =~= views.take(i as int));
            assert(taken.last() == items@[i as int]@);
            if found {
                let t = choose|t: int| 0 <= t < j && counts@[t] == c;
                assert(counts@.contains(c));
            } else {
                assert(!counts@.contains(c));
            }
        }
        if !found {
            counts.push(c);
        }
        i += 1;
    }
    proof {
        assert(views.take(items@.len() as int) =~= views);
    }
    counts
}

fn group_copies(items: &Vec<MemoryLexicon>, count: usize) -> (group: Vec<MemoryLexicon>)
    ensures
        lexicon_views(group@) == group_of(lexicon_views(items@), count),
{
    let ghost views = lexicon_views(items@);
    let ghost pred = |x: MemoryLexiconView| x.input_count == count;
    let mut group: Vec<MemoryLexicon> = Vec::new();
    let mut i: usize = 0;
    while i < items.len()
        invariant
            0 <= i <= items@.len(),
            views == lexicon_views(items@),
            pred == (|x: MemoryLexiconView| x.input_count == count),
            lexicon_views(group@) == views.take(i as int).filter(pred),
        decreases items.len() - i,
    {
        proof {
            assert(views.take(i + 1) =~= views.take(i as int).push(items@[i as int]@));
            views.take(i as int).lemma_filter_push(items@[i as int]@, pred);
            assert(pred(items@[i as int]@) == (items@[i as int].input_count == count));
        }
        if items[i].input_count == count {
            let item = items[i].copy();
            let ghost before = group@;
            group.push(item);
            proof {
                assert(lexicon_views(group@) =~= lexicon_views(before).push(item@));
            }
        }
        i += 1;
    }
    proof {
        assert(views.take(items@.len() as int) =~= views);
    }
    group
}

fn append_copies(result: &mut Vec<MemoryLexicon>, more: &Vec<MemoryLexicon>)
    ensures
        lexicon_views(final(result)@) == lexicon_views(old(result)@) + lexicon_views(more@),
{
    let ghost start = lexicon_views(result@);
    let mut i: usize = 0;
    while i < more.len()
        invariant
            0 <= i <= more@.len(),
            lexicon_views(result@) == start + lexicon_views(more@).take(i as int),
        decreases more.len() - i,
    {
        let item = more[i].copy();
        let ghost before = result@;
        result.push(item);
        proof {
            assert(lexicon_views(result@) =~= lexicon_views(before).push(item@));
            assert(lexicon_views(more@).take(i + 1) =~= lexicon_views(more@).take(i as int).push(more@[i as int]@));
        }
        i += 1;
    }
    proof {
        assert(lexicon_views(more@).take(more@.len() as int) =~= lexicon_views(more@));
    }
}

fn count_keys(counts: &Vec<usize>) -> (keys: Vec<i128>)
    ensures
        int_keys(keys@) == counts@.map_values(|c: usize| c as int),
        keys@.len() == counts@.len(),
{
    let mut keys: Vec<i128> = Vec::new();
    let mut i: usize = 0;
    while i < counts.len()
        invariant
            0 <= i <= counts@.len(),
            keys@.len() == i,
            forall|t: int| 0 <= t < i ==> #[trigger] keys@[t] == counts@[t] as i128,
        decreases counts.len() - i,
    {
        keys.push(counts[i] as i128);
        i += 1;
    }
    assert(int_keys(keys@) =~= counts@.map_values(|c: usize| c as int));
    keys
}

/// The key counts of the candidates, each once, largest first.
fn sorted_count_list(items: &Vec<MemoryLexicon>) -> (sorted: Vec<usize>)
    ensures
        sorted@ == counts_desc(lexicon_views(items@)),
{
    let counts = distinct_count_list(items);
    let keys = count_keys(&counts);
    let order = stable_desc_order(&keys);
    proof {
        lemma_stable_desc_len(int_keys(keys@), keys@.len() as nat);
    }
    let mut sorted: Vec<usize> = Vec::new();
    let mut k: usize = 0;
    while k < order.len()
        invariant
            0 <= k <= order@.len(),
            order@.len() == counts@.len(),
            forall|t: int| 0 <= t < order@.len() ==> #[trigger] order@[t] < counts@.len(),
            sorted@ == order@.take(k as int).map_values(|j: usize| counts@[j as int]),
        decreases order.len() - k,
    {
        sorted.push(counts[order[k]]);
        assert(order@.take(k + 1).map_values(|j: usize| counts@[j as int]) =~= order@.take(k as int).map_values(
            |j: usize| counts@[j as int],
        ).push(counts@[order@[k as int] as int]));
        k += 1;
    }
    assert(order@.take(order@.len() as int) =~= order@);
    sorted
}

/// The candidates matched in pieces, grouped by how many keys they
/// consume (most first), each group in its regular ranking.
pub fn peculiar_sorted(items: &Vec<MemoryLexicon>) -> (result: Vec<MemoryLexicon>)
    ensures
        lexicon_views(result@) == peculiar_ranking(lexicon_views(items@)),
{
    let ghost views = lexicon_views(items@);
    let sorted = sorted_count_list(items);
    let mut result: Vec<MemoryLexicon> = Vec::new();
    let mut k: usize = 0;
    while k < sorted.len()
        invariant
            0 <= k <= sorted@.len(),
            views == lexicon_views(items@),
            sorted@ == counts_desc(views),
            lexicon_views(result@) == ranked_groups(views, sorted@.take(k as int)),
        decreases sorted.len() - k,
    {
        let count = sorted[k];
        let group = group_copies(items, count);
        let ranked = regular_sorted(&group, false);
        append_copies(&mut result, &ranked);
        proof {
            let taken = sorted@.take(k + 1);
            assert(taken.drop_last() =~= sorted@.take(k as int));
            assert(taken.last() == count);
        }
        k += 1;
    }
    proof {
        assert(sorted@.take(sorted@.len() as int) =~= sorted@);
    }
    result
}


proof fn lemma_distinct_entries_distinct(items: Seq<MemoryLexiconView>, order: Seq<usize>)
    ensures
        forall|i: int, j: int|
            0 <= i < j < distinct_entries(items, order).len() ==> !same_entry(
                #[trigger] items[distinct_entries(items, order)[i] as int],
                #[trigger] items[distinct_entries(items, order)[j] as int],
            ),
    decreases order.len(),
{
    if order.len() > 0 {
        let prev = order.drop_last();
        lemma_distinct_entries_distinct(items, prev);
        let d = distinct_entries(items, prev);
        let dd = distinct_entries(items, order);
        let last = order.last();
        if !(exists|u: int| 0 <= u < d.len() && same_entry(items[d[u] as int], items[last as int])) {
            assert forall|i: int, j: int| 0 <= i < j < dd.len() implies !same_entry(
                #[trigger] items[dd[i] as int],
                #[trigger] items[dd[j] as int],
            ) by {
                assert(dd[i] == d[i]);
                if j < d.len() {
                    assert(dd[j] == d[j]);
                } else {
                    assert(dd[j] == last);
                    assert(!same_entry(items[d[i] as int], items[last as int]));
                }
            }
        }
    }
}

proof fn lemma_distinct_entries_cover(items: Seq<MemoryLexiconView>, order: Seq<usize>, t: int) -> (k: int)
    requires
        0 <= t < order.len(),
    ensures
        0 <= k < distinct_entries(items, order).len(),
        same_entry(items[distinct_entries(items, order)[k] as int], items[order[t] as int]),
    decreases order.len(),
{
    let prev = order.drop_last();
    let d = distinct_entries(items, prev);
    let dd = distinct_entries(items, order);
    let last = order.last();
    if t < prev.len() {
        assert(order[t] == prev[t]);
        let k = lemma_distinct_entries_cover(items, prev, t);
        assert(dd[k] == d[k]);
        k
    } else if exists|u: int| 0 <= u < d.len() && same_entry(items[d[u] as int], items[last as int]) {
        let u = choose|u: int| 0 <= u < d.len() && same_entry(items[d[u] as int], items[last as int]);
        assert(dd[u] == d[u]);
        u
    } else {
        assert(dd[d.len() as int] == last);
        d.len() as int
    }
}

/// Each word (with its romanization) stands once in the regular ranking,
/// and every candidate's word stands there.
pub proof fn lemma_regular_ranking_each_word_once(items: Seq<MemoryLexiconView>, is_ordered: bool)
    requires
        items.len() <= usize::MAX,
    ensures
        forall|i: int, j: int|
            0 <= i < j < picked(items, regular_order(items, is_ordered)).len() ==> !same_entry(
                #[trigger] picked(items, regular_order(items, is_ordered))[i],
                #[trigger] picked(items, regular_order(items, is_ordered))[j],
            ),
        forall|t: int|
            0 <= t < items.len() ==> exists|k: int|
                0 <= k < picked(items, regular_order(items, is_ordered)).len() && same_entry(
                    picked(items, regular_order(items, is_ordered))[k],
                    #[trigger] items[t],
                ),
{
    let n = items.len();
    let by_frequency = frequency_order(items, is_ordered);
    let by_date = stable_desc(latest_keys(items), n);
    let combined = prefix_of(by_frequency, 3) + prefix_of(by_date, 5) + by_frequency;
    let order = regular_order(items, is_ordered);
    assert(order == distinct_entries(items, combined));
    lemma_distinct_entries_distinct(items, combined);
    let result = picked(items, order);
    assert forall|i: int, j: int| 0 <= i < j < result.len() implies !same_entry(
        #[trigger] result[i],
        #[trigger] result[j],
    ) by {
        assert(result[i] == items[order[i] as int]);
        assert(result[j] == items[order[j] as int]);
    }
    assert forall|t: int| 0 <= t < items.len() implies exists|k: int|
        0 <= k < result.len() && same_entry(result[k], #[trigger] items[t]) by {
        lemma_order_contains_all(items, is_ordered, t);
        let u = choose|u: int| 0 <= u < by_frequency.len() && by_frequency[u] == t;
        let a = prefix_of(by_frequency, 3);
        let b = prefix_of(by_date, 5);
        assert(combined[a.len() + b.len() + u] == by_frequency[u]);
        let k = lemma_distinct_entries_cover(items, combined, a.len() + b.len() + u);
        assert(result[k] == items[order[k] as int]);
    }
}

proof fn lemma_stable_desc_contains(keys: Seq<int>, n: nat, t: int)
    requires
        0 <= t < n <= usize::MAX,
    ensures
        exists|u: int| 0 <= u < stable_desc(keys, n).len() && stable_desc(keys, n)[u] == t,
    decreases n,
{
    let prev = stable_desc(keys, (n - 1) as nat);
    lemma_stable_desc_len(keys, (n - 1) as nat);
    lemma_first_smaller_bound(prev, keys[n - 1], keys);
    let p = first_smaller(prev, keys[n - 1], keys) as int;
    let cur = prev.insert(p, (n - 1) as usize);
    assert(stable_desc(keys, n) == cur);
    if t == n - 1 {
        assert(stable_desc(keys, n)[p] == t);
    } else {
        lemma_stable_desc_contains(keys, (n - 1) as nat, t);
        let u = choose|u: int| 0 <= u < prev.len() && prev[u] == t;
        if u < p {
            assert(stable_desc(keys, n)[u] == t);
        } else {
            assert(stable_desc(keys, n)[u + 1] == t);
        }
    }
}

proof fn lemma_order_contains_all(items: Seq<MemoryLexiconView>, is_ordered: bool, t: int)
    requires
        0 <= t < items.len() <= usize::MAX,
    ensures
        exists|u: int|
            0 <= u < frequency_order(items, is_ordered).len() && #[trigger] frequency_order(items, is_ordered)[u] == t,
{
    if is_ordered {
        assert(frequency_order(items, is_ordered)[t] == t);
    } else {
        lemma_stable_desc_contains(frequency_keys(items), items.len(), t);
        let u = choose|u: int|
            0 <= u < stable_desc(frequency_keys(items), items.len()).len() && stable_desc(
                frequency_keys(items),
                items.len(),
            )[u] == t;
        assert(frequency_order(items, is_ordered)[u] == t);
    }
}


/// A learned word of a memory query as a candidate answering `input`,
/// with reading `mark`.
pub open spec fn memory_row_lexicon(row: (Seq<char>, Seq<char>, i64, i64), input: Seq<char>, mark: Seq<char>) -> MemoryLexiconView {
    MemoryLexiconView {
        word: row.0,
        romanization: row.1,
        frequency: row.2,
        latest: row.3,
        input,
        input_count: input.len() as usize,
        mark,
    }
}

/// The reading of a row: `mark`, or else its romanization without tones.
pub open spec fn row_mark(row: (Seq<char>, Seq<char>, i64, i64), mark: Option<Seq<char>>) -> Seq<char> {
    match mark {
        Some(m) => m,
        None => tone_free(row.1),
    }
}

fn rows_to_lexicons(rows: Vec<MemoryRow>, input: &String, mark: &Option<String>) -> (result: Vec<MemoryLexicon>)
    ensures
        lexicon_views(result@) == rows@.map_values(
            |r: MemoryRow| memory_row_lexicon(r@, input@, row_mark(r@, crate::lexicon::optional_chars(*mark))),
        ),
{
    let mut result: Vec<MemoryLexicon> = Vec::new();
    let mut i: usize = 0;
    while i < rows.len()
        invariant
            0 <= i <= rows@.len(),
            lexicon_views(result@) == rows@.take(i as int).map_values(
                |r: MemoryRow| memory_row_lexicon(r@, input@, row_mark(r@, crate::lexicon::optional_chars(*mark))),
            ),
        decreases rows.len() - i,
    {
        let row = &rows[i];
        let reading = match mark {
            Some(m) => m.clone(),
            None => crate::lexicon::stripped_tones(row.romanization.as_str()),
        };
        let item = MemoryLexicon::new(row.word.clone(), row.romanization.clone(), row.frequency, row.latest, input.clone(), reading);
        let ghost before = lexicon_views(result@);
        result.push(item);
        proof {
            assert(lexicon_views(result@) =~= before.push(item@));
            assert(rows@.take(i + 1).map_values(
                |r: MemoryRow| memory_row_lexicon(r@, input@, row_mark(r@, crate::lexicon::optional_chars(*mark))),
            ) =~= rows@.take(i as int).map_values(
                |r: MemoryRow| memory_row_lexicon(r@, input@, row_mark(r@, crate::lexicon::optional_chars(*mark))),
            ).push(memory_row_lexicon(rows@[i as int]@, input@, row_mark(rows@[i as int]@, crate::lexicon::optional_chars(*mark)))));
        }
        i += 1;
    }
    proof {
        assert(rows@.take(rows@.len() as int) =~= rows@);
    }
    result
}

impl InputMemory {
    /// The learned words for keys read as the anchors of as many syllables
    /// ("y" read as "j"), most chosen first, at most `limit` when it is
    /// positive, each answering `input` (the keys' text when none is given)
    /// with that as its reading; none when the memory is not open.
    pub fn memory_anchors_match(&self, keys: &[VirtualInputKey], input: Option<String>, limit: i32) -> (r: Vec<
        MemoryLexicon,
    >)
        requires
            keys@.len() <= 9,
            codes_in_range(key_codes(keys@)),
        ensures
            !self@.prepared ==> r@.len() == 0,
            self@.prepared ==> exists|rows: Seq<(Seq<char>, Seq<char>, i64, i64)>|
                #[trigger] is_memory_selection(
                    self@.entries,
                    anchors_selector(combined_code_of(key_codes(anchor_keys(keys@))) as i64, keys@.len() as i64),
                    limit,
                    rows,
                ) && lexicon_views(r@) == rows.map_values(
                    |row: (Seq<char>, Seq<char>, i64, i64)|
                        memory_row_lexicon(
                            row,
                            crate::engine::text_or_keys(crate::lexicon::optional_chars(input), keys@),
                            crate::engine::text_or_keys(crate::lexicon::optional_chars(input), keys@),
                        ),
                ),
    {
        if !self.is_prepared() {
            return Vec::new();
        }
        let anchors = crate::engine::anchor_key_list(keys);
        let code = combined_code(anchors.as_slice());
        let text = match input {
            Some(t) => t,
            None => text_of_keys(keys),
        };
        let rows = self.match_anchors(code, keys.len() as i64, limit);
        let ghost row_views = rows@.map_values(|r: MemoryRow| r@);
        let mark = Some(text.clone());
        let result = rows_to_lexicons(rows, &text, &mark);
        proof {
            assert(lexicon_views(result@) =~= row_views.map_values(
                |row: (Seq<char>, Seq<char>, i64, i64)| memory_row_lexicon(row, text@, text@),
            ));
            assert(text@ == crate::engine::text_or_keys(crate::lexicon::optional_chars(input), keys@));
            assert(is_memory_selection(
                self@.entries,
                anchors_selector(combined_code_of(key_codes(anchor_keys(keys@))) as i64, keys@.len() as i64),
                limit,
                row_views,
            ));
        }
        result
    }

    /// The learned words spelled by the keys with the given complexity,
    /// most chosen first, at most `limit` when it is positive, each
    /// answering `input` (the keys' text when none is given) with reading
    /// `mark` (its romanization without tones when none is given); none
    /// when the memory is not open.
    pub fn memory_spell_match(
        &self,
        keys: &[VirtualInputKey],
        complexity: i64,
        input: Option<String>,
        mark: Option<String>,
        limit: i32,
    ) -> (r: Vec<MemoryLexicon>)
        requires
            keys@.len() <= 9,
            codes_in_range(key_codes(keys@)),
        ensures
            !self@.prepared ==> r@.len() == 0,
            self@.prepared ==> exists|rows: Seq<(Seq<char>, Seq<char>, i64, i64)>|
                #[trigger] is_memory_selection(
                    self@.entries,
                    spell_selector(combined_code_of(key_codes(keys@)) as i64, keys@.len() as i64, complexity),
                    limit,
                    rows,
                ) && lexicon_views(r@) == rows.map_values(
                    |row: (Seq<char>, Seq<char>, i64, i64)|
                        memory_row_lexicon(
                            row,
                            crate::engine::text_or_keys(crate::lexicon::optional_chars(input), keys@),
                            row_mark(row, crate::lexicon::optional_chars(mark)),
                        ),
                ),
    {
        if !self.is_prepared() {
            return Vec::new();
        }
        let spell = combined_code(keys);
        let text = match input {
            Some(t) => t,
            None => text_of_keys(keys),
        };
        let rows = self.match_spell(spell, keys.len() as i64, complexity, limit);
        let ghost row_views = rows@.map_values(|r: MemoryRow| r@);
        let result = rows_to_lexicons(rows, &text, &mark);
        proof {
            assert(lexicon_views(result@) =~= row_views.map_values(
                |row: (Seq<char>, Seq<char>, i64, i64)| memory_row_lexicon(row, text@, row_mark(row, crate::lexicon::optional_chars(mark))),
            ));
            assert(text@ == crate::engine::text_or_keys(crate::lexicon::optional_chars(input), keys@));
            assert(is_memory_selection(
                self@.entries,
                spell_selector(combined_code_of(key_codes(keys@)) as i64, keys@.len() as i64, complexity),
                limit,
                row_views,
            ));
        }
        result
    }
}

} // verus!
