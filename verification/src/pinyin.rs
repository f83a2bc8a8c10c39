//! Pinyin segmentation: the ways a run of letter keys splits into the
//! pinyin syllables that the engine knows.
use vstd::prelude::*;

use crate::engine::{CoreImeEngine, PinyinSyllable};
use crate::input_key::{codes_in_range, key_codes, lemma_combined_code_bound, lemma_pow100_monotone, pow100, VirtualInputKey};
use crate::segmenter::{span_code, syllable_key_codes, MAX_SYLLABLE_KEY_COUNT};
use crate::split::{all_splits, all_splits_of, copy_pieces, edge_table_views, edge_views};

verus! {

/// The columns of a pinyin syllable.
pub open spec fn pinyin_view(p: PinyinSyllable) -> (i64, Seq<VirtualInputKey>, Seq<char>) {
    (p.code, p.keys@, p.text@)
}

/// The position of the pinyin syllable with this code: the last one listed
/// with it (a later syllable with the same code replaces an earlier one).
pub open spec fn pinyin_index(list: Seq<PinyinSyllable>, code: i64) -> Option<int>
    decreases list.len(),
{
    if list.len() == 0 {
        None
    } else if list.last().code == code {
        Some(list.len() - 1)
    } else {
        pinyin_index(list.drop_last(), code)
    }
}

/// The pinyin syllable spelled by the letter keys `start..end`, if any (at
/// most six keys), with its end.
pub open spec fn pinyin_edge_at(list: Seq<PinyinSyllable>, c: Seq<i64>, start: int, end: int) -> Option<
    (usize, int),
> {
    if 0 <= start < end <= c.len() && end - start <= MAX_SYLLABLE_KEY_COUNT {
        match pinyin_index(list, span_code(c, start, end)) {
            Some(k) => Some((k as usize, end)),
            None => None,
        }
    } else {
        None
    }
}

/// The pinyin syllables that start at `start`, shortest first.
pub open spec fn pinyin_edges(list: Seq<PinyinSyllable>, c: Seq<i64>, start: int) -> Seq<(usize, int)> {
    Seq::new(MAX_SYLLABLE_KEY_COUNT as nat, |d: int| start + 1 + d).filter_map(
        |end: int| pinyin_edge_at(list, c, start, end),
    )
}

/// The pinyin segmentation of keys, as positions in the syllable list:
/// every way to split a prefix of the letter keys into known syllables,
/// those covering more keys first, breadth-first among those covering as
/// many; none without letter keys or known syllables.
pub open spec fn pinyin_segmentation(list: Seq<PinyinSyllable>, keys: Seq<VirtualInputKey>) -> Seq<Seq<usize>> {
    let c = syllable_key_codes(keys);
    if c.len() == 0 || list.len() == 0 {
        Seq::empty()
    } else {
        all_splits(Seq::new(c.len(), |s: int| pinyin_edges(list, c, s)))
    }
}

fn copy_syllable(p: &PinyinSyllable) -> (r: PinyinSyllable)
    ensures
        pinyin_view(r) == pinyin_view(*p),
{
    PinyinSyllable { code: p.code, keys: copy_pieces(&p.keys), text: p.text.clone() }
}

impl CoreImeEngine {
    fn pinyin_position(&self, code: i64) -> (k: Option<usize>)
        ensures
            match k {
                Some(k) => pinyin_index(self.pinyin_syllables@, code) == Some(k as int),
                None => pinyin_index(self.pinyin_syllables@, code) is None,
            },
    {
        let list = &self.pinyin_syllables;
        let mut i: usize = list.len();
        proof {
            assert(list@.take(i as int) =~= list@);
        }
        while i > 0
            invariant
                0 <= i <= list@.len(),
                list@ == self.pinyin_syllables@,
                pinyin_index(list@, code) == pinyin_index(list@.take(i as int), code),
            decreases i,
        {
            proof {
                assert(list@.take(i as int).drop_last() =~= list@.take(i - 1));
            }
            if list[i - 1].code == code {
                proof {
                    assert(list@.take(i as int).last() == list@[i - 1]);
                    assert(list@[i - 1].code == code);
                    assert(list@.take(i as int).len() == i);
                    assert(pinyin_index(list@.take(i as int), code) == Some(i - 1));
                    assert(pinyin_index(list@, code) == Some(i - 1));
                    assert(pinyin_index(self.pinyin_syllables@, code) == Some((i - 1) as int));
                }
                return Some(i - 1);
            }
            i -= 1;
        }
        None
    }

    fn pinyin_edges_from(&self, codes: &Vec<i64>, start: usize) -> (edges: Vec<(usize, usize)>)
        requires
            start < codes@.len(),
            codes_in_range(codes@),
        ensures
            edge_views(edges@) == pinyin_edges(self.pinyin_syllables@, codes@, start as int),
    {
        let n = codes.len();
        let ghost c = codes@;
        let ghost s = start as int;
        let ghost list = self.pinyin_syllables@;
        let ghost ends = Seq::new(MAX_SYLLABLE_KEY_COUNT as nat, |d: int| s + 1 + d);
        let ghost g = |end: int| pinyin_edge_at(list, c, s, end);
        let mut edges: Vec<(usize, usize)> = Vec::new();
        let mut code: i64 = 0;
        let mut d: usize = 0;
        proof {
            assert(c.subrange(s, s) =~= Seq::<i64>::empty());
        }
        while d < MAX_SYLLABLE_KEY_COUNT
            invariant
                n == c.len(),
                c == codes@,
                s == start as int,
                list == self.pinyin_syllables@,
                0 <= s < n,
                codes_in_range(c),
                0 <= d <= MAX_SYLLABLE_KEY_COUNT,
                ends == Seq::new(MAX_SYLLABLE_KEY_COUNT as nat, |d: int| s + 1 + d),
                g == (|end: int| pinyin_edge_at(list, c, s, end)),
                edge_views(edges@) == ends.take(d as int).filter_map(g),
                s + d <= n ==> code == span_code(c, s, s + d),
            decreases MAX_SYLLABLE_KEY_COUNT - d,
        {
            let ghost end = s + d + 1;
            proof {
                ends.lemma_filter_map_take_succ(g, d as int);
                assert(ends[d as int] == end);
            }
            if d < n - start {
                proof {
                    let sub = c.subrange(s, end);
                    assert(sub.drop_last() =~= c.subrange(s, s + d));
                    assert(codes_in_range(sub));
                    lemma_combined_code_bound(sub);
                    lemma_pow100_monotone(sub.len(), 6);
                    reveal_with_fuel(pow100, 7);
                }
                code = code * 100 + codes[start + d];
                match self.pinyin_position(code) {
                    Some(k) => {
                        let e = (k, start + d + 1);
                        proof {
                            assert(g(end) == Some((k, end)));
                            assert(edge_views(edges@.push(e)) =~= edge_views(edges@).push((e.0, e.1 as int)));
                        }
                        edges.push(e);
                    },
                    None => {
                        proof {
                            assert(g(end) is None);
                        }
                    },
                }
            } else {
                proof {
                    assert(g(end) is None);
                }
            }
            d += 1;
        }
        proof {
            assert(ends.take(MAX_SYLLABLE_KEY_COUNT as int) =~= ends);
        }
        edges
    }

    /// The ways the letter keys split into known pinyin syllables (see
    /// `pinyin_segmentation`).
    pub fn pinyin_segment(&self, keys: &[VirtualInputKey]) -> (schemes: Vec<Vec<PinyinSyllable>>)
        requires
            codes_in_range(key_codes(keys@)),
        ensures
            schemes@.len() == pinyin_segmentation(self.pinyin_syllables@, keys@).len(),
            forall|i: int|
                0 <= i < schemes@.len() ==> (#[trigger] schemes@[i])@.map_values(
                    |p: PinyinSyllable| pinyin_view(p),
                ) == pinyin_segmentation(self.pinyin_syllables@, keys@)[i].map_values(
                    |k: usize| pinyin_view(self.pinyin_syllables@[k as int]),
                ),
    {
        let ghost list = self.pinyin_syllables@;
        let ghost f = |k: VirtualInputKey|
            if 'a' <= k.character <= 'z' {
                Some(k.code)
            } else {
                None
            };
        let mut codes: Vec<i64> = Vec::new();
        let mut i: usize = 0;
        while i < keys.len()
            invariant
                0 <= i <= keys@.len(),
                codes_in_range(key_codes(keys@)),
                f == (|k: VirtualInputKey|
                    if 'a' <= k.character <= 'z' {
                        Some(k.code)
                    } else {
                        None
                    }),
                codes@ == keys@.take(i as int).filter_map(f),
                codes_in_range(codes@),
            decreases keys.len() - i,
        {
            proof {
                keys@.lemma_filter_map_take_succ(f, i as int);
            }
            if keys[i].is_letter() {
                proof {
                    assert(key_codes(keys@)[i as int] == keys@[i as int].code);
                }
                codes.push(keys[i].code);
            }
            i += 1;
        }
        proof {
            assert(keys@.take(i as int) =~= keys@);
            assert(codes@ == syllable_key_codes(keys@));
        }
        if codes.len() == 0 || self.pinyin_syllables.len() == 0 {
            return Vec::new();
        }
        let n = codes.len();
        let mut edges: Vec<Vec<(usize, usize)>> = Vec::new();
        let mut s: usize = 0;
        while s < n
            invariant
                n == codes@.len(),
                codes_in_range(codes@),
                0 <= s <= n,
                list == self.pinyin_syllables@,
                edge_table_views(edges@) =~= Seq::new(n as nat, |x: int| pinyin_edges(list, codes@, x)).take(
                    s as int,
                ),
            decreases n - s,
        {
            let es = self.pinyin_edges_from(&codes, s);
            proof {
                assert(edge_table_views(edges@.push(es)) =~= edge_table_views(edges@).push(edge_views(es@)));
            }
            edges.push(es);
            s += 1;
        }
        proof {
            assert(edge_table_views(edges@) =~= Seq::new(n as nat, |x: int| pinyin_edges(list, codes@, x)));
        }
        let splits = all_splits_of(&edges);
        let ghost spec = pinyin_segmentation(list, keys@);
        proof {
            assert(splits@.map_values(|s: Vec<usize>| s@) == spec);
            crate::pinyin::lemma_split_positions(list, codes@, spec);
        }
        let mut schemes: Vec<Vec<PinyinSyllable>> = Vec::new();
        let mut t: usize = 0;
        while t < splits.len()
            invariant
                0 <= t <= splits@.len(),
                list == self.pinyin_syllables@,
                splits@.map_values(|s: Vec<usize>| s@) == spec,
                forall|a: int, b: int|
                    0 <= a < spec.len() && 0 <= b < spec[a].len() ==> (#[trigger] spec[a][b]) < list.len(),
                schemes@.len() == t,
                forall|a: int|
                    0 <= a < t ==> (#[trigger] schemes@[a])@.map_values(|p: PinyinSyllable| pinyin_view(p))
                        == spec[a].map_values(|k: usize| pinyin_view(list[k as int])),
            decreases splits.len() - t,
        {
            let positions = &splits[t];
            proof {
                assert(positions@ == spec[t as int]);
            }
            let mut scheme: Vec<PinyinSyllable> = Vec::new();
            let mut u: usize = 0;
            while u < positions.len()
                invariant
                    0 <= u <= positions@.len(),
                    list == self.pinyin_syllables@,
                    forall|b: int| 0 <= b < positions@.len() ==> (#[trigger] positions@[b]) < list.len(),
                    scheme@.map_values(|p: PinyinSyllable| pinyin_view(p)) =~= positions@.take(u as int).map_values(
                        |k: usize| pinyin_view(list[k as int]),
                    ),
                decreases positions.len() - u,
            {
                let syllable = copy_syllable(&self.pinyin_syllables[positions[u]]);
                proof {
                    assert(scheme@.push(syllable).map_values(|p: PinyinSyllable| pinyin_view(p)) =~= scheme@.map_values(
                        |p: PinyinSyllable| pinyin_view(p),
                    ).push(pinyin_view(syllable)));
                    assert(positions@.take(u as int + 1) =~= positions@.take(u as int).push(positions@[u as int]));
                }
                scheme.push(syllable);
                u += 1;
            }
            proof {
                assert(positions@.take(u as int) =~= positions@);
            }
            schemes.push(scheme);
            t += 1;
        }
        schemes
    }
}

proof fn lemma_pinyin_index_bound(list: Seq<PinyinSyllable>, code: i64)
    ensures
        pinyin_index(list, code) matches Some(k) ==> 0 <= k < list.len(),
    decreases list.len(),
{
    if list.len() > 0 {
        lemma_pinyin_index_bound(list.drop_last(), code);
    }
}

/// The positions in a pinyin segmentation are positions of the list.
proof fn lemma_split_positions(list: Seq<PinyinSyllable>, c: Seq<i64>, splits: Seq<Seq<usize>>)
    requires
        c.len() > 0,
        list.len() > 0,
        splits == all_splits(Seq::new(c.len(), |s: int| pinyin_edges(list, c, s))),
    ensures
        forall|a: int, b: int|
            0 <= a < splits.len() && 0 <= b < splits[a].len() ==> (#[trigger] splits[a][b]) < list.len(),
{
    let edges = Seq::new(c.len(), |s: int| pinyin_edges(list, c, s));
    assert forall|s: int, t: int| 0 <= s < edges.len() && 0 <= t < edges[s].len() implies (#[trigger] edges[s][t]).0 < list.len() by {
        let ends = Seq::new(MAX_SYLLABLE_KEY_COUNT as nat, |d: int| s + 1 + d);
        let g = |end: int| pinyin_edge_at(list, c, s, end);
        let p2 = |e: (usize, int)| e.0 < list.len();
        assert forall|end: int| (#[trigger] g(end)) is Some implies p2(g(end)->0) by {
            if 0 <= s < end <= c.len() && end - s <= MAX_SYLLABLE_KEY_COUNT {
                lemma_pinyin_index_bound(list, span_code(c, s, end));
            }
        }
        lemma_filter_map_values(ends, g, p2);
        assert(edges[s] == ends.filter_map(g));
        assert(p2(ends.filter_map(g)[t]));
    }
    crate::split::lemma_pieces_from_edges(edges, |x: usize| x < list.len());
}

/// Each item of `s.filter_map(f)` comes from some item of `s`.
proof fn lemma_filter_map_values<A, B>(s: Seq<A>, f: spec_fn(A) -> Option<B>, p: spec_fn(B) -> bool)
    requires
        forall|a: A| (#[trigger] f(a)) is Some ==> p(f(a)->0),
    ensures
        forall|i: int| 0 <= i < s.filter_map(f).len() ==> p(#[trigger] s.filter_map(f)[i]),
    decreases s.len(),
{
    if s.len() > 0 {
        lemma_filter_map_values(s.drop_last(), f, p);
        let rest = s.drop_last().filter_map(f);
        assert forall|i: int| 0 <= i < s.filter_map(f).len() implies p(#[trigger] s.filter_map(f)[i]) by {
            if i < rest.len() {
                assert(s.filter_map(f)[i] == rest[i]);
            } else {
                assert(f(s.last()) is Some);
            }
        }
    }
}

} // verus!
