//! Jyutping syllable segmentation: the known syllables (each under the key
//! codes of its spelling, possibly an alias of its standard spelling) and
//! the ways a key sequence splits into them.
use vstd::prelude::*;

use crate::database::{ImeDatabase, SyllableRow};
use crate::input_key::{
    codes_in_range, combined_code, combined_code_of, key_codes, lemma_combined_code_bound,
    lemma_pow100_monotone, pow100, VirtualInputKey,
};
use crate::split::{all_splits, all_splits_of, edge_table_views, edge_views};
use crate::text::string_from_chars;

verus! {

broadcast use vstd::std_specs::hash::group_hash_axioms;

/// The longest syllable, in keys.
pub const MAX_SYLLABLE_KEY_COUNT: usize = 6;

/// A syllable: the code of the keys that spell it and the code of its
/// standard spelling.
#[derive(Clone, Copy, PartialEq, Eq, Structural, Debug)]
pub struct Syllable {
    pub alias_code: i64,
    pub origin_code: i64,
}

impl Syllable {
    pub fn new(alias_code: i64, origin_code: i64) -> (s: Self)
        ensures
            s == (Syllable { alias_code, origin_code }),
    {
        Syllable { alias_code, origin_code }
    }

    /// The standard spelling of the syllable.
    pub fn origin_text(&self) -> (text: String)
        ensures
            text@ == code_text(self.origin_code),
    {
        let keys = code_key_codes(self.origin_code);
        let mut chars: Vec<char> = Vec::new();
        let mut i: usize = 0;
        while i < keys.len()
            invariant
                0 <= i <= keys@.len(),
                keys@ == code_keys(self.origin_code),
                chars@ == letters_of_codes(keys@.take(i as int)),
            decreases keys.len() - i,
        {
            proof {
                assert(keys@.take(i as int + 1).drop_last() =~= keys@.take(i as int));
            }
            let k = keys[i];
            if 20 <= k && k <= 45 {
                let b: u8 = (k + 77) as u8;
                chars.push(b as char);
            }
            i += 1;
        }
        proof {
            assert(keys@.take(i as int) =~= keys@);
        }
        string_from_chars(chars.as_slice())
    }
}

/// The base-100 digits of a code, most significant first (none for a code
/// that is not positive).
pub open spec fn code_keys(code: i64) -> Seq<i64>
    decreases code,
{
    if code <= 0 {
        Seq::empty()
    } else {
        code_keys((code / 100) as i64).push((code % 100) as i64)
    }
}

/// The letters of input codes (20 for `a` to 45 for `z`); other codes type
/// no letter.
pub open spec fn letters_of_codes(codes: Seq<i64>) -> Seq<char>
    decreases codes.len(),
{
    if codes.len() == 0 {
        Seq::empty()
    } else {
        let init = letters_of_codes(codes.drop_last());
        if 20 <= codes.last() <= 45 {
            init.push((codes.last() + 77) as char)
        } else {
            init
        }
    }
}

/// The letters that a code spells.
pub open spec fn code_text(code: i64) -> Seq<char> {
    letters_of_codes(code_keys(code))
}

pub(crate) fn code_key_codes(code: i64) -> (keys: Vec<i64>)
    ensures
        keys@ == code_keys(code),
    decreases code,
{
    if code <= 0 {
        Vec::new()
    } else {
        let mut keys = code_key_codes(code / 100);
        keys.push(code % 100);
        keys
    }
}

/// The codes of the leading parts of a code: the code, then the code without
/// its last digit pair, and so on while positive.
pub open spec fn is_leading_part(part: int, code: int) -> bool {
    part > 0 && exists|j: nat| #[trigger] pow100(j) > 0 && part == code / pow100(j)
}

/// The syllables of the rows, each under its alias code (a later row with
/// the same alias code replaces an earlier one).
pub open spec fn syllable_map(rows: Seq<(i64, i64, Seq<char>, Seq<char>)>) -> Map<i64, Syllable>
    decreases rows.len(),
{
    if rows.len() == 0 {
        Map::empty()
    } else {
        syllable_map(rows.drop_last()).insert(
            rows.last().0,
            Syllable { alias_code: rows.last().0, origin_code: rows.last().1 },
        )
    }
}

/// The leading parts of the rows' alias codes.
pub open spec fn prefix_set(rows: Seq<(i64, i64, Seq<char>, Seq<char>)>) -> Set<i64> {
    Set::new(
        |p: i64|
            exists|r: int| 0 <= r < rows.len() && #[trigger] is_leading_part(p as int, rows[r].0 as int),
    )
}

/// Rows give a nonempty syllable map exactly when there is a row.
pub proof fn lemma_syllable_map_nonempty(rows: Seq<(i64, i64, Seq<char>, Seq<char>)>)
    ensures
        syllable_map(rows).len() > 0 <==> rows.len() > 0,
        syllable_map(rows).dom().finite(),
    decreases rows.len(),
{
    if rows.len() > 0 {
        lemma_syllable_map_nonempty(rows.drop_last());
        let m = syllable_map(rows.drop_last());
        let k = rows.last().0;
        assert(m.insert(k, Syllable { alias_code: k, origin_code: rows.last().1 }).dom().contains(k));
        vstd::set_lib::lemma_set_empty_equivalency_len(
            m.insert(k, Syllable { alias_code: k, origin_code: rows.last().1 }).dom(),
        );
    } else {
        assert(syllable_map(rows).dom() =~= Set::empty());
    }
}

pub struct Segmenter {
    syllables: std::collections::HashMap<i64, Syllable>,
    prefixes: std::collections::HashSet<i64>,
}

/// The known syllables by alias code, and the leading parts of the alias
/// codes.
pub struct SegmenterView {
    pub syllables: Map<i64, Syllable>,
    pub prefixes: Set<i64>,
}

impl View for Segmenter {
    type V = SegmenterView;

    closed spec fn view(&self) -> SegmenterView {
        SegmenterView { syllables: self.syllables@, prefixes: self.prefixes@ }
    }
}

impl Segmenter {
    /// A segmenter that knows no syllable.
    pub fn new() -> (s: Self)
        ensures
            s@.syllables == Map::<i64, Syllable>::empty(),
            s@.prefixes == Set::<i64>::empty(),
    {
        Segmenter {
            syllables: std::collections::HashMap::new(),
            prefixes: std::collections::HashSet::new(),
        }
    }

    /// Learns the syllables of the database; with none there, forgets all
    /// and returns `false`.
    pub fn prepare(&mut self, database: &ImeDatabase) -> (r: bool)
        ensures
            r == (database@.syllables.len() > 0),
            final(self)@.syllables == syllable_map(
                database@.syllables.map_values(|s: SyllableRow| s@),
            ),
            final(self)@.prefixes == prefix_set(database@.syllables.map_values(|s: SyllableRow| s@)),
    {
        let rows = database.query_syllables();
        let ghost rv = rows@.map_values(|s: SyllableRow| s@);
        let mut syllables: std::collections::HashMap<i64, Syllable> = std::collections::HashMap::new();
        let mut prefixes: std::collections::HashSet<i64> = std::collections::HashSet::new();
        let mut i: usize = 0;
        while i < rows.len()
            invariant
                0 <= i <= rows@.len(),
                rv == rows@.map_values(|s: SyllableRow| s@),
                syllables@ == syllable_map(rv.take(i as int)),
                prefixes@ == prefix_set(rv.take(i as int)),
            decreases rows.len() - i,
        {
            let alias_code = rows[i].alias_code;
            let origin_code = rows[i].origin_code;
            proof {
                assert(rv.take(i as int + 1).drop_last() =~= rv.take(i as int));
                assert(rv[i as int].0 == alias_code);
            }
            syllables.insert(alias_code, Syllable { alias_code, origin_code });
            let ghost before = prefixes@;
            let mut code = alias_code;
            let ghost mut j: nat = 0;
            proof {
                lemma_leading_part_bound(alias_code as int);
            }
            while code > 0
                invariant
                    pow100(j) > 0,
                    code == (alias_code as int) / pow100(j),
                    alias_code > 0 ==> code >= 0,
                    forall|p: int| #[trigger] is_leading_part(p, alias_code as int) ==> p <= alias_code,
                    alias_code <= 0 ==> forall|p: int| !#[trigger] is_leading_part(p, alias_code as int),
                    forall|p: i64|
                        #[trigger] prefixes@.contains(p) <==> before.contains(p) || (p > code && is_leading_part(p as int, alias_code as int)),
                decreases code,
            {
                let ghost old_code = code;
                let ghost old_prefixes = prefixes@;
                prefixes.insert(code);
                proof {
                    assert(alias_code > 0) by {
                        if alias_code <= 0 {
                            lemma_div_nonpositive(alias_code as int, pow100(j));
                        }
                    }
                    assert(is_leading_part(code as int, alias_code as int));
                    assert(pow100(j + 1) == pow100(j) * 100);
                    assert(((alias_code as int) / pow100(j)) / 100 == (alias_code as int) / (pow100(j) * 100)) by (nonlinear_arith)
                        requires pow100(j) > 0;
                    assert forall|p: int| #[trigger] is_leading_part(p, alias_code as int) && p <= code
                        implies p == code || p <= code / 100 by {
                        let jj = choose|jj: nat| #[trigger] pow100(jj) > 0 && p == (alias_code as int) / pow100(jj);
                        lemma_leading_parts_ordered(alias_code as int, j, jj);
                    }
                }
                code = code / 100;
                proof {
                    j = j + 1;
                    assert(prefixes@ == old_prefixes.insert(old_code));
                    assert forall|p: i64|
                        #[trigger] prefixes@.contains(p) <==> before.contains(p) || (p > code
                            && is_leading_part(p as int, alias_code as int)) by {
                        assert(old_prefixes.contains(p) <==> before.contains(p) || (p > old_code
                            && is_leading_part(p as int, alias_code as int)));
                        if p > code && is_leading_part(p as int, alias_code as int) && p <= old_code {
                            assert(p as int == old_code || p as int <= old_code / 100);
                        }
                        if p == old_code {
                            assert(p > code);
                        }
                    }
                }
            }
            proof {
                let nrv = rv.take(i as int + 1);
                assert forall|p: i64| prefixes@.contains(p) <==> prefix_set(nrv).contains(p) by {
                    if prefix_set(nrv).contains(p) {
                        let r = choose|r: int| 0 <= r < nrv.len() && #[trigger] is_leading_part(p as int, nrv[r].0 as int);
                        if r < i {
                            assert(rv.take(i as int)[r] == nrv[r]);
                            assert(prefix_set(rv.take(i as int)).contains(p));
                        }
                    }
                    if before.contains(p) {
                        let r = choose|r: int| 0 <= r < rv.take(i as int).len() && #[trigger] is_leading_part(p as int, rv.take(i as int)[r].0 as int);
                        assert(nrv[r] == rv.take(i as int)[r]);
                    }
                    if is_leading_part(p as int, alias_code as int) {
                        assert(is_leading_part(p as int, nrv[i as int].0 as int));
                    }
                }
                assert(prefixes@ =~= prefix_set(nrv));
            }
            i += 1;
        }
        proof {
            assert(rv.take(i as int) =~= rv);
        }
        let found = rows.len() > 0;
        self.syllables = syllables;
        self.prefixes = prefixes;
        found
    }

    /// Whether any syllable is known.
    pub fn is_prepared(&self) -> (r: bool)
        ensures
            r == (self@.syllables.len() > 0),
    {
        self.syllables.len() > 0
    }

    /// The syllable spelled by the keys with this code.
    pub fn lookup(&self, code: i64) -> (s: Option<&Syllable>)
        ensures
            match s {
                Some(s) => self@.syllables.contains_key(code) && *s == self@.syllables[code],
                None => !self@.syllables.contains_key(code),
            },
    {
        self.syllables.get(&code)
    }

    /// The number of known syllable spellings.
    pub fn syllable_count(&self) -> (n: usize)
        ensures
            n == self@.syllables.len(),
    {
        self.syllables.len()
    }

    /// The standard spelling of the syllable that the keys spell, if they
    /// spell one (at most six keys).
    pub fn syllable_text(&self, keys: &[VirtualInputKey]) -> (text: Option<String>)
        requires
            codes_in_range(key_codes(keys@)),
        ensures
            keys@.len() > MAX_SYLLABLE_KEY_COUNT ==> text is None,
            keys@.len() <= MAX_SYLLABLE_KEY_COUNT ==> match text {
                Some(t) => self@.syllables.contains_key(combined_code_of(key_codes(keys@)) as i64)
                    && t@ == code_text(self@.syllables[combined_code_of(key_codes(keys@)) as i64].origin_code),
                None => !self@.syllables.contains_key(combined_code_of(key_codes(keys@)) as i64),
            },
    {
        if keys.len() > MAX_SYLLABLE_KEY_COUNT {
            return None;
        }
        let code = combined_code(keys);
        match self.lookup(code) {
            Some(s) => Some(s.origin_text()),
            None => None,
        }
    }
}

/// Leading parts of a code: dividing by a higher power of 100 gives a part
/// no larger, and one above the next smaller part is the same part.
proof fn lemma_leading_parts_ordered(code: int, j: nat, jj: nat)
    requires
        code > 0,
        pow100(j) > 0,
        pow100(jj) > 0,
        code / pow100(jj) <= code / pow100(j),
        code / pow100(jj) > 0,
    ensures
        code / pow100(jj) == code / pow100(j) || code / pow100(jj) <= (code / pow100(j)) / 100,
{
    lemma_pow100_monotone(0, j);
    lemma_pow100_monotone(0, jj);
    if jj <= j {
        lemma_pow100_monotone(jj, j);
        lemma_div_antitone(code, pow100(jj), pow100(j));
    } else {
        lemma_pow100_monotone(j + 1, jj);
        assert(pow100(j + 1) == pow100(j) * 100);
        lemma_div_antitone(code, pow100(j + 1), pow100(jj));
        assert((code / pow100(j)) / 100 == code / (pow100(j) * 100)) by (nonlinear_arith)
            requires
                pow100(j) > 0,
        ;
    }
}

proof fn lemma_leading_part_bound(code: int)
    ensures
        forall|p: int| #[trigger] is_leading_part(p, code) ==> p <= code,
        code <= 0 ==> forall|p: int| !#[trigger] is_leading_part(p, code),
{
    assert forall|p: int| #[trigger] is_leading_part(p, code) implies p <= code && code > 0 by {
        let jj = choose|jj: nat| #[trigger] pow100(jj) > 0 && p == code / pow100(jj);
        if code <= 0 {
            lemma_div_nonpositive(code, pow100(jj));
        } else {
            lemma_pow100_monotone(0, jj);
            lemma_div_antitone(code, 1, pow100(jj));
        }
    }
}

proof fn lemma_div_nonpositive(x: int, a: int)
    requires
        x <= 0,
        a > 0,
    ensures
        x / a <= 0,
{
    assert(x / a <= 0) by (nonlinear_arith)
        requires
            x <= 0,
            a > 0,
    ;
}

proof fn lemma_div_antitone(x: int, a: int, b: int)
    requires
        x >= 0,
        0 < a <= b,
    ensures
        x / b <= x / a,
{
    assert(x / b <= x / a) by (nonlinear_arith)
        requires
            x >= 0,
            0 < a <= b,
    ;
}


// ---------------------------------------------------------------------
// Segmentation
// ---------------------------------------------------------------------

/// The code of the keys `start..end`.
pub open spec fn span_code(c: Seq<i64>, start: int, end: int) -> i64 {
    combined_code_of(c.subrange(start, end)) as i64
}

/// Whether the keys `start..end` spell a known syllable, each of their
/// leading parts being a known leading part (at most six keys).
pub open spec fn is_split_edge(v: SegmenterView, c: Seq<i64>, start: int, end: int) -> bool {
    &&& 0 <= start < end <= c.len()
    &&& end - start <= MAX_SYLLABLE_KEY_COUNT
    &&& forall|m: int| start < m <= end ==> v.prefixes.contains(#[trigger] span_code(c, start, m))
    &&& v.syllables.contains_key(span_code(c, start, end))
}

/// The syllable of an edge that ends at `end`, if there is one.
pub open spec fn edge_at(v: SegmenterView, c: Seq<i64>, start: int, end: int) -> Option<(Syllable, int)> {
    if is_split_edge(v, c, start, end) {
        Some((v.syllables[span_code(c, start, end)], end))
    } else {
        None
    }
}

/// The syllables that start at `start`, shortest first, with their ends.
pub open spec fn split_edges(v: SegmenterView, c: Seq<i64>, start: int) -> Seq<(Syllable, int)> {
    Seq::new(MAX_SYLLABLE_KEY_COUNT as nat, |d: int| start + 1 + d).filter_map(
        |end: int| edge_at(v, c, start, end),
    )
}

/// The syllables that may start at each key.
pub open spec fn edge_table(v: SegmenterView, c: Seq<i64>) -> Seq<Seq<(Syllable, int)>> {
    Seq::new(c.len(), |s: int| split_edges(v, c, s))
}

/// The segmentation of the syllable keys: every way to split a prefix of
/// them into known syllables, those covering more keys first, and
/// breadth-first among those that cover as many.
pub open spec fn segmentation_of(v: SegmenterView, c: Seq<i64>) -> Seq<Seq<Syllable>> {
    all_splits(edge_table(v, c))
}

/// The codes of the letter keys among the keys.
pub open spec fn syllable_key_codes(keys: Seq<VirtualInputKey>) -> Seq<i64> {
    keys.filter_map(
        |k: VirtualInputKey|
            if 'a' <= k.character <= 'z' {
                Some(k.code)
            } else {
                None
            },
    )
}

/// The segmentation of a key sequence: none for no key; for one key only
/// the syllables `a`, `o` and `m`; else that of its letter keys.
pub open spec fn segment_spec(v: SegmenterView, keys: Seq<VirtualInputKey>) -> Seq<Seq<Syllable>> {
    if keys.len() == 0 {
        Seq::empty()
    } else if keys.len() == 1 {
        if keys[0] == crate::input_key::letter_key(0) {
            seq![seq![Syllable { alias_code: 20, origin_code: 2020 }]]
        } else if keys[0] == crate::input_key::letter_key(14) {
            seq![seq![Syllable { alias_code: 34, origin_code: 34 }]]
        } else if keys[0] == crate::input_key::letter_key(12) {
            seq![seq![Syllable { alias_code: 32, origin_code: 32 }]]
        } else {
            Seq::empty()
        }
    } else if syllable_key_codes(keys).len() == 0 || v.syllables.len() == 0 {
        Seq::empty()
    } else {
        segmentation_of(v, syllable_key_codes(keys))
    }
}

impl Segmenter {
    fn edges_from(&self, codes: &Vec<i64>, start: usize) -> (edges: Vec<(Syllable, usize)>)
        requires
            start < codes@.len(),
            codes_in_range(codes@),
        ensures
            edge_views(edges@) == split_edges(self@, codes@, start as int),
            forall|t: int| 0 <= t < edges@.len() ==> start < #[trigger] edges@[t].1 <= codes@.len(),
    {
        let n = codes.len();
        let ghost c = codes@;
        let ghost s = start as int;
        let ghost ends = Seq::new(MAX_SYLLABLE_KEY_COUNT as nat, |d: int| s + 1 + d);
        let ghost g = |end: int| edge_at(self@, c, s, end);
        let mut edges: Vec<(Syllable, usize)> = Vec::new();
        let mut code: i64 = 0;
        let mut stopped = false;
        let mut d: usize = 0;
        proof {
            assert(c.subrange(s, s) =~= Seq::<i64>::empty());
        }
        while d < MAX_SYLLABLE_KEY_COUNT
            invariant
                n == c.len(),
                c == codes@,
                s == start as int,
                0 <= s < n,
                codes_in_range(c),
                0 <= d <= MAX_SYLLABLE_KEY_COUNT,
                ends == Seq::new(MAX_SYLLABLE_KEY_COUNT as nat, |d: int| s + 1 + d),
                g == (|end: int| edge_at(self@, c, s, end)),
                edge_views(edges@) == ends.take(d as int).filter_map(g),
                forall|t: int| 0 <= t < edges@.len() ==> start < #[trigger] edges@[t].1 <= n,
                !stopped ==> s + d <= n && code == span_code(c, s, s + d)
                    && forall|m: int| s < m <= s + d ==> self@.prefixes.contains(#[trigger] span_code(c, s, m)),
                stopped ==> forall|end: int| s + d < end ==> !#[trigger] is_split_edge(self@, c, s, end),
            decreases MAX_SYLLABLE_KEY_COUNT - d,
        {
            let ghost end = s + d + 1;
            proof {
                ends.lemma_filter_map_take_succ(g, d as int);
                assert(ends[d as int] == end);
            }
            if !stopped {
                if start + d >= n {
                    stopped = true;
                    proof {
                        assert(!is_split_edge(self@, c, s, end));
                    }
                } else {
                    proof {
                        let sub = c.subrange(s, end);
                        assert(sub.drop_last() =~= c.subrange(s, s + d));
                        assert(codes_in_range(sub));
                        lemma_combined_code_bound(sub);
                        lemma_pow100_monotone(sub.len(), 6);
                        reveal_with_fuel(pow100, 7);
                    }
                    code = code * 100 + codes[start + d];
                    if !self.prefixes.contains(&code) {
                        stopped = true;
                        proof {
                            assert forall|e2: int| s + d < e2 implies !#[trigger] is_split_edge(self@, c, s, e2) by {
                                if e2 <= n && e2 - s <= MAX_SYLLABLE_KEY_COUNT {
                                    assert(!self@.prefixes.contains(span_code(c, s, end)));
                                }
                            }
                        }
                    } else {
                        match self.syllables.get(&code) {
                            Some(syllable) => {
                                proof {
                                    assert(is_split_edge(self@, c, s, end));
                                    assert(g(end) == Some((*syllable, end)));
                                }
                                let e = (*syllable, start + d + 1);
                                proof {
                                    assert(edge_views(edges@.push(e)) =~= edge_views(edges@).push((e.0, e.1 as int)));
                                }
                                edges.push(e);
                            },
                            None => {
                                proof {
                                    assert(!is_split_edge(self@, c, s, end));
                                }
                            },
                        }
                    }
                }
            } else {
                proof {
                    assert(!is_split_edge(self@, c, s, end));
                }
            }
            d += 1;
        }
        proof {
            assert(ends.take(MAX_SYLLABLE_KEY_COUNT as int) =~= ends);
        }
        edges
    }

    fn segmentation_of_codes(&self, codes: &Vec<i64>) -> (schemes: Vec<Vec<Syllable>>)
        requires
            codes_in_range(codes@),
        ensures
            schemes@.map_values(|s: Vec<Syllable>| s@) == segmentation_of(self@, codes@),
    {
        let n = codes.len();
        let ghost c = codes@;
        let mut edges: Vec<Vec<(Syllable, usize)>> = Vec::new();
        let mut s: usize = 0;
        while s < n
            invariant
                n == c.len(),
                c == codes@,
                codes_in_range(c),
                0 <= s <= n,
                edge_table_views(edges@) =~= edge_table(self@, c).take(s as int),
            decreases n - s,
        {
            let es = self.edges_from(codes, s);
            proof {
                assert(edge_table_views(edges@.push(es)) =~= edge_table_views(edges@).push(edge_views(es@)));
            }
            edges.push(es);
            s += 1;
        }
        proof {
            assert(edge_table_views(edges@) =~= edge_table(self@, c));
        }
        all_splits_of(&edges)
    }

    /// The ways the keys split into known syllables (see `segment_spec`).
    pub fn segment(&self, keys: &[VirtualInputKey]) -> (schemes: Vec<Vec<Syllable>>)
        requires
            codes_in_range(key_codes(keys@)),
        ensures
            schemes@.map_values(|s: Vec<Syllable>| s@) == segment_spec(self@, keys@),
    {
        if keys.len() == 0 {
            let r: Vec<Vec<Syllable>> = Vec::new();
            proof {
                assert(r@.map_values(|s: Vec<Syllable>| s@) =~= Seq::empty());
            }
            return r;
        }
        if keys.len() == 1 {
            let key = keys[0];
            let single: Option<Syllable> = if key.key_code == 0x41 && key.code == 20 && key.character == 'a' {
                Some(Syllable { alias_code: 20, origin_code: 2020 })
            } else if key.key_code == 0x4F && key.code == 34 && key.character == 'o' {
                Some(Syllable { alias_code: 34, origin_code: 34 })
            } else if key.key_code == 0x4D && key.code == 32 && key.character == 'm' {
                Some(Syllable { alias_code: 32, origin_code: 32 })
            } else {
                None
            };
            let mut r: Vec<Vec<Syllable>> = Vec::new();
            match single {
                Some(syllable) => {
                    let mut scheme: Vec<Syllable> = Vec::new();
                    scheme.push(syllable);
                    r.push(scheme);
                    proof {
                        assert(r@.map_values(|s: Vec<Syllable>| s@) =~= seq![seq![syllable]]);
                    }
                },
                None => {
                    proof {
                        assert(r@.map_values(|s: Vec<Syllable>| s@) =~= Seq::empty());
                    }
                },
            }
            return r;
        }
        let ghost f = |k: VirtualInputKey|
            if 'a' <= k.character <= 'z' {
                Some(k.code)
            } else {
                None
            };
        let mut codes: Vec<i64> = Vec::new();
        let mut i: usize = 0;
        while i < keys.len()
            invariant
                0 <= i <= keys@.len(),
                codes_in_range(key_codes(keys@)),
                f == (|k: VirtualInputKey|
                    if 'a' <= k.character <= 'z' {
                        Some(k.code)
                    } else {
                        None
                    }),
                codes@ == keys@.take(i as int).filter_map(f),
                codes_in_range(codes@),
            decreases keys.len() - i,
        {
            proof {
                keys@.lemma_filter_map_take_succ(f, i as int);
            }
            if keys[i].is_letter() {
                proof {
                    assert(key_codes(keys@)[i as int] == keys@[i as int].code);
                }
                codes.push(keys[i].code);
            }
            i += 1;
        }
        proof {
            assert(keys@.take(i as int) =~= keys@);
        }
        if codes.len() == 0 || !self.is_prepared() {
            let r: Vec<Vec<Syllable>> = Vec::new();
            proof {
                assert(r@.map_values(|s: Vec<Syllable>| s@) =~= Seq::empty());
            }
            return r;
        }
        self.segmentation_of_codes(&codes)
    }
}


/// A single key is segmented on its own: "a" is the one scheme of the
/// syllable "aa" typed as "a", "o" and "m" the one scheme of their own
/// syllable; no other single key, and no key at all, has a scheme.
pub proof fn lemma_single_key_segmentation(v: SegmenterView, key: VirtualInputKey)
    ensures
        segment_spec(v, seq![crate::input_key::letter_key(0)]) == seq![
            seq![Syllable { alias_code: 20, origin_code: 2020 }],
        ],
        segment_spec(v, seq![crate::input_key::letter_key(14)]) == seq![
            seq![Syllable { alias_code: 34, origin_code: 34 }],
        ],
        segment_spec(v, seq![crate::input_key::letter_key(12)]) == seq![
            seq![Syllable { alias_code: 32, origin_code: 32 }],
        ],
        segment_spec(v, seq![crate::input_key::letter_key(12)]).len() == 1,
        key != crate::input_key::letter_key(0) && key != crate::input_key::letter_key(14) && key
            != crate::input_key::letter_key(12) ==> segment_spec(v, seq![key]).len() == 0,
        segment_spec(v, Seq::empty()).len() == 0,
{
    assert(seq![crate::input_key::letter_key(0)][0] == crate::input_key::letter_key(0));
    assert(seq![crate::input_key::letter_key(14)][0] == crate::input_key::letter_key(14));
    assert(seq![crate::input_key::letter_key(12)][0] == crate::input_key::letter_key(12));
    assert(seq![key][0] == key);
    assert(crate::input_key::letter_key(0) != crate::input_key::letter_key(14));
    assert(crate::input_key::letter_key(0) != crate::input_key::letter_key(12));
    assert(crate::input_key::letter_key(14) != crate::input_key::letter_key(12));
}

} // verus!
