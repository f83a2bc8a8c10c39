//! The lexicon database: its tables held in memory, each in row-id order,
//! and the queries that the input method runs on them. Every query is a
//! selection (rows whose columns have given values, or whose code matches a
//! GLOB or LIKE pattern) in a stated order, cut to a limit.
use vstd::prelude::*;

use crate::pattern::{matches_pattern, pattern_matches};
use crate::text::chars_of;

verus! {

// ---------------------------------------------------------------------
// Rows that the queries return
// ---------------------------------------------------------------------

pub struct LexiconRow {
    pub row_id: i64,
    pub word: String,
    pub romanization: String,
}

impl View for LexiconRow {
    type V = (i64, Seq<char>, Seq<char>);

    open spec fn view(&self) -> (i64, Seq<char>, Seq<char>) {
        (self.row_id, self.word@, self.romanization@)
    }
}

pub struct SyllableRow {
    pub alias_code: i64,
    pub origin_code: i64,
    pub alias: String,
    pub origin: String,
}

impl View for SyllableRow {
    type V = (i64, i64, Seq<char>, Seq<char>);

    open spec fn view(&self) -> (i64, i64, Seq<char>, Seq<char>) {
        (self.alias_code, self.origin_code, self.alias@, self.origin@)
    }
}

pub struct ShapeRow {
    pub row_id: i64,
    pub word: String,
    pub complex: i64,
}

impl View for ShapeRow {
    type V = (i64, Seq<char>, i64);

    open spec fn view(&self) -> (i64, Seq<char>, i64) {
        (self.row_id, self.word@, self.complex)
    }
}

pub struct StructureRow {
    pub word: String,
    pub romanization: String,
}

impl View for StructureRow {
    type V = (Seq<char>, Seq<char>);

    open spec fn view(&self) -> (Seq<char>, Seq<char>) {
        (self.word@, self.romanization@)
    }
}

pub struct SymbolRow {
    pub row_id: i64,
    pub category: i32,
    pub unicode_version: i32,
    pub code_point: String,
    pub cantonese: String,
    pub romanization: String,
}

/// The columns of a symbol row.
pub struct SymbolRowView {
    pub row_id: i64,
    pub category: i32,
    pub unicode_version: i32,
    pub code_point: Seq<char>,
    pub cantonese: Seq<char>,
    pub romanization: Seq<char>,
}

impl View for SymbolRow {
    type V = SymbolRowView;

    open spec fn view(&self) -> SymbolRowView {
        SymbolRowView {
            row_id: self.row_id,
            category: self.category,
            unicode_version: self.unicode_version,
            code_point: self.code_point@,
            cantonese: self.cantonese@,
            romanization: self.romanization@,
        }
    }
}

pub struct PinyinSyllableRow {
    pub code: i64,
    pub syllable: String,
}

impl View for PinyinSyllableRow {
    type V = (i64, Seq<char>);

    open spec fn view(&self) -> (i64, Seq<char>) {
        (self.code, self.syllable@)
    }
}

/// A learned word as a memory query returns it.
pub struct MemoryRow {
    pub word: String,
    pub romanization: String,
    pub frequency: i64,
    pub latest: i64,
}

impl View for MemoryRow {
    type V = (Seq<char>, Seq<char>, i64, i64);

    open spec fn view(&self) -> (Seq<char>, Seq<char>, i64, i64) {
        (self.word@, self.romanization@, self.frequency, self.latest)
    }
}

#[derive(Clone, Copy, PartialEq, Eq, Structural, Debug)]
pub enum CangjieVariant {
    Cangjie5,
    Cangjie3,
    Quick5,
    Quick3,
}

// ---------------------------------------------------------------------
// Stored rows
// ---------------------------------------------------------------------

/// A row of a lexicon table (Jyutping or pinyin): the word, its
/// romanization, and the numbers it is found by.
pub struct LexiconEntry {
    pub row_id: i64,
    pub word: String,
    pub romanization: String,
    pub anchors: i64,
    pub char_count: i64,
    pub spell: i64,
    pub complexity: i64,
}

/// A row of a shape table (a Cangjie or Quick version, or strokes): the
/// word, its code as a number and as text, and how complex it is.
pub struct ShapeEntry {
    pub row_id: i64,
    pub word: String,
    pub code: i64,
    pub text: String,
    pub complex: i64,
}

pub struct StructureEntry {
    pub row_id: i64,
    pub word: String,
    pub romanization: String,
    pub spell: i64,
    pub complexity: i64,
}

pub struct PlainTextEntry {
    pub row_id: i64,
    pub word: String,
    pub spell: i64,
    pub letter_count: i64,
}

pub struct SymbolEntry {
    pub row_id: i64,
    pub category: i32,
    pub unicode_version: i32,
    pub code_point: String,
    pub cantonese: String,
    pub romanization: String,
    pub spell: i64,
    pub complexity: i64,
}

/// A pair of the emoji skin-tone map.
pub struct EmojiSkinEntry {
    pub source: String,
    pub target: String,
}

// ---------------------------------------------------------------------
// The database
// ---------------------------------------------------------------------

pub struct ImeDatabase {
    lexicon: Vec<LexiconEntry>,
    syllables: Vec<SyllableRow>,
    pinyin_lexicon: Vec<LexiconEntry>,
    pinyin_syllables: Vec<PinyinSyllableRow>,
    cangjie5: Vec<ShapeEntry>,
    cangjie3: Vec<ShapeEntry>,
    quick5: Vec<ShapeEntry>,
    quick3: Vec<ShapeEntry>,
    strokes: Vec<ShapeEntry>,
    structures: Vec<StructureEntry>,
    plain_texts: Vec<PlainTextEntry>,
    symbols: Vec<SymbolEntry>,
    emoji_skins: Vec<EmojiSkinEntry>,
}

/// The tables of a database.
pub struct DatabaseView {
    pub lexicon: Seq<LexiconEntry>,
    pub syllables: Seq<SyllableRow>,
    pub pinyin_lexicon: Seq<LexiconEntry>,
    pub pinyin_syllables: Seq<PinyinSyllableRow>,
    pub cangjie5: Seq<ShapeEntry>,
    pub cangjie3: Seq<ShapeEntry>,
    pub quick5: Seq<ShapeEntry>,
    pub quick3: Seq<ShapeEntry>,
    pub strokes: Seq<ShapeEntry>,
    pub structures: Seq<StructureEntry>,
    pub plain_texts: Seq<PlainTextEntry>,
    pub symbols: Seq<SymbolEntry>,
    pub emoji_skins: Seq<EmojiSkinEntry>,
}

impl View for ImeDatabase {
    type V = DatabaseView;

    closed spec fn view(&self) -> DatabaseView {
        DatabaseView {
            lexicon: self.lexicon@,
            syllables: self.syllables@,
            pinyin_lexicon: self.pinyin_lexicon@,
            pinyin_syllables: self.pinyin_syllables@,
            cangjie5: self.cangjie5@,
            cangjie3: self.cangjie3@,
            quick5: self.quick5@,
            quick3: self.quick3@,
            strokes: self.strokes@,
            structures: self.structures@,
            plain_texts: self.plain_texts@,
            symbols: self.symbols@,
            emoji_skins: self.emoji_skins@,
        }
    }
}

/// Row ids that strictly increase: a table in row-id order.
pub open spec fn increasing(ids: Seq<i64>) -> bool {
    forall|a: int, b: int| 0 <= a < b < ids.len() ==> ids[a] < ids[b]
}

pub open spec fn lexicon_ids(t: Seq<LexiconEntry>) -> Seq<i64> {
    t.map_values(|e: LexiconEntry| e.row_id)
}

pub open spec fn shape_ids(t: Seq<ShapeEntry>) -> Seq<i64> {
    t.map_values(|e: ShapeEntry| e.row_id)
}

pub open spec fn structure_ids(t: Seq<StructureEntry>) -> Seq<i64> {
    t.map_values(|e: StructureEntry| e.row_id)
}

pub open spec fn plain_text_ids(t: Seq<PlainTextEntry>) -> Seq<i64> {
    t.map_values(|e: PlainTextEntry| e.row_id)
}

pub open spec fn symbol_ids(t: Seq<SymbolEntry>) -> Seq<i64> {
    t.map_values(|e: SymbolEntry| e.row_id)
}

/// Each table with row ids is in row-id order.
pub open spec fn database_wf(v: DatabaseView) -> bool {
    &&& increasing(lexicon_ids(v.lexicon))
    &&& increasing(lexicon_ids(v.pinyin_lexicon))
    &&& increasing(shape_ids(v.cangjie5))
    &&& increasing(shape_ids(v.cangjie3))
    &&& increasing(shape_ids(v.quick5))
    &&& increasing(shape_ids(v.quick3))
    &&& increasing(shape_ids(v.strokes))
    &&& increasing(structure_ids(v.structures))
    &&& increasing(plain_text_ids(v.plain_texts))
    &&& increasing(symbol_ids(v.symbols))
    &&& v.pinyin_syllables.len() <= i64::MAX
}

/// Whether a row id may follow the last row id of a table.
pub open spec fn may_follow(ids: Seq<i64>, row_id: i64) -> bool {
    ids.len() == 0 || ids.last() < row_id
}

proof fn lemma_push_increasing(ids: Seq<i64>, row_id: i64)
    requires
        increasing(ids),
        may_follow(ids, row_id),
    ensures
        increasing(ids.push(row_id)),
{
}

impl ImeDatabase {
    #[verifier::type_invariant]
    spec fn inv(&self) -> bool {
        database_wf(self@)
    }

    /// A database with empty tables.
    pub fn new() -> (db: Self)
        ensures
            db@.lexicon.len() == 0,
            db@.syllables.len() == 0,
            db@.pinyin_lexicon.len() == 0,
            db@.pinyin_syllables.len() == 0,
            db@.cangjie5.len() == 0,
            db@.cangjie3.len() == 0,
            db@.quick5.len() == 0,
            db@.quick3.len() == 0,
            db@.strokes.len() == 0,
            db@.structures.len() == 0,
            db@.plain_texts.len() == 0,
            db@.symbols.len() == 0,
            db@.emoji_skins.len() == 0,
    {
        ImeDatabase {
            lexicon: Vec::new(),
            syllables: Vec::new(),
            pinyin_lexicon: Vec::new(),
            pinyin_syllables: Vec::new(),
            cangjie5: Vec::new(),
            cangjie3: Vec::new(),
            quick5: Vec::new(),
            quick3: Vec::new(),
            strokes: Vec::new(),
            structures: Vec::new(),
            plain_texts: Vec::new(),
            symbols: Vec::new(),
            emoji_skins: Vec::new(),
        }
    }


    /// Appends a row of the Jyutping lexicon; refused (and `false` returned) unless its row id is
    /// above the last one.
    pub fn add_lexicon(&mut self, entry: LexiconEntry) -> (added: bool)
        ensures
            added == may_follow(lexicon_ids(old(self)@.lexicon), entry.row_id),
            final(self)@ == (if added {
                DatabaseView { lexicon: old(self)@.lexicon.push(entry), ..old(self)@ }
            } else {
                old(self)@
            }),
    {
        proof {
            use_type_invariant(&*self);
        }
        let n = self.lexicon.len();
        if n > 0 && self.lexicon[n - 1].row_id >= entry.row_id {
            return false;
        }
        proof {
            let ghost ids = lexicon_ids(self.lexicon@);
            assert(lexicon_ids(self.lexicon@.push(entry)) =~= ids.push(entry.row_id));
            lemma_push_increasing(ids, entry.row_id);
        }
        let mut table = Vec::new();
        std::mem::swap(&mut table, &mut self.lexicon);
        table.push(entry);
        std::mem::swap(&mut table, &mut self.lexicon);
        true
    }

    /// Appends a syllable with its spelling aliases.
    pub fn add_syllable(&mut self, entry: SyllableRow)
        ensures
            final(self)@ == (DatabaseView { syllables: old(self)@.syllables.push(entry), ..old(self)@ }),
    {
        proof {
            use_type_invariant(&*self);
        }
        let mut table = Vec::new();
        std::mem::swap(&mut table, &mut self.syllables);
        table.push(entry);
        std::mem::swap(&mut table, &mut self.syllables);
    }

    /// Appends a row of the pinyin lexicon; refused (and `false` returned) unless its row id is
    /// above the last one.
    pub fn add_pinyin_lexicon(&mut self, entry: LexiconEntry) -> (added: bool)
        ensures
            added == may_follow(lexicon_ids(old(self)@.pinyin_lexicon), entry.row_id),
            final(self)@ == (if added {
                DatabaseView { pinyin_lexicon: old(self)@.pinyin_lexicon.push(entry), ..old(self)@ }
            } else {
                old(self)@
            }),
    {
        proof {
            use_type_invariant(&*self);
        }
        let n = self.pinyin_lexicon.len();
        if n > 0 && self.pinyin_lexicon[n - 1].row_id >= entry.row_id {
            return false;
        }
        proof {
            let ghost ids = lexicon_ids(self.pinyin_lexicon@);
            assert(lexicon_ids(self.pinyin_lexicon@.push(entry)) =~= ids.push(entry.row_id));
            lemma_push_increasing(ids, entry.row_id);
        }
        let mut table = Vec::new();
        std::mem::swap(&mut table, &mut self.pinyin_lexicon);
        table.push(entry);
        std::mem::swap(&mut table, &mut self.pinyin_lexicon);
        true
    }

    /// Appends a pinyin syllable; refused (and `false` returned) when the
    /// table already holds as many rows as a row id can number.
    pub fn add_pinyin_syllable(&mut self, entry: PinyinSyllableRow) -> (added: bool)
        ensures
            added == (old(self)@.pinyin_syllables.len() < i64::MAX),
            final(self)@ == (if added {
                DatabaseView { pinyin_syllables: old(self)@.pinyin_syllables.push(entry), ..old(self)@ }
            } else {
                old(self)@
            }),
    {
        proof {
            use_type_invariant(&*self);
        }
        if self.pinyin_syllables.len() as u64 >= 0x7FFF_FFFF_FFFF_FFFF {
            return false;
        }
        let mut table = Vec::new();
        std::mem::swap(&mut table, &mut self.pinyin_syllables);
        table.push(entry);
        std::mem::swap(&mut table, &mut self.pinyin_syllables);
        true
    }

    /// Appends a row of the Cangjie 5 table; refused (and `false` returned) unless its row id is
    /// above the last one.
    pub fn add_cangjie5(&mut self, entry: ShapeEntry) -> (added: bool)
        ensures
            added == may_follow(shape_ids(old(self)@.cangjie5), entry.row_id),
            final(self)@ == (if added {
                DatabaseView { cangjie5: old(self)@.cangjie5.push(entry), ..old(self)@ }
            } else {
                old(self)@
            }),
    {
        proof {
            use_type_invariant(&*self);
        }
        let n = self.cangjie5.len();
        if n > 0 && self.cangjie5[n - 1].row_id >= entry.row_id {
            return false;
        }
        proof {
            let ghost ids = shape_ids(self.cangjie5@);
            assert(shape_ids(self.cangjie5@.push(entry)) =~= ids.push(entry.row_id));
            lemma_push_increasing(ids, entry.row_id);
        }
        let mut table = Vec::new();
        std::mem::swap(&mut table, &mut self.cangjie5);
        table.push(entry);
        std::mem::swap(&mut table, &mut self.cangjie5);
        true
    }

    /// Appends a row of the Cangjie 3 table; refused (and `false` returned) unless its row id is
    /// above the last one.
    pub fn add_cangjie3(&mut self, entry: ShapeEntry) -> (added: bool)
        ensures
            added == may_follow(shape_ids(old(self)@.cangjie3), entry.row_id),
            final(self)@ == (if added {
                DatabaseView { cangjie3: old(self)@.cangjie3.push(entry), ..old(self)@ }
            } else {
                old(self)@
            }),
    {
        proof {
            use_type_invariant(&*self);
        }
        let n = self.cangjie3.len();
        if n > 0 && self.cangjie3[n - 1].row_id >= entry.row_id {
            return false;
        }
        proof {
            let ghost ids = shape_ids(self.cangjie3@);
            assert(shape_ids(self.cangjie3@.push(entry)) =~= ids.push(entry.row_id));
            lemma_push_increasing(ids, entry.row_id);
        }
        let mut table = Vec::new();
        std::mem::swap(&mut table, &mut self.cangjie3);
        table.push(entry);
        std::mem::swap(&mut table, &mut self.cangjie3);
        true
    }

    /// Appends a row of the Quick 5 table; refused (and `false` returned) unless its row id is
    /// above the last one.
    pub fn add_quick5(&mut self, entry: ShapeEntry) -> (added: bool)
        ensures
            added == may_follow(shape_ids(old(self)@.quick5), entry.row_id),
            final(self)@ == (if added {
                DatabaseView { quick5: old(self)@.quick5.push(entry), ..old(self)@ }
            } else {
                old(self)@
            }),
    {
        proof {
            use_type_invariant(&*self);
        }
        let n = self.quick5.len();
        if n > 0 && self.quick5[n - 1].row_id >= entry.row_id {
            return false;
        }
        proof {
            let ghost ids = shape_ids(self.quick5@);
            assert(shape_ids(self.quick5@.push(entry)) =~= ids.push(entry.row_id));
            lemma_push_increasing(ids, entry.row_id);
        }
        let mut table = Vec::new();
        std::mem::swap(&mut table, &mut self.quick5);
        table.push(entry);
        std::mem::swap(&mut table, &mut self.quick5);
        true
    }

    /// Appends a row of the Quick 3 table; refused (and `false` returned) unless its row id is
    /// above the last one.
    pub fn add_quick3(&mut self, entry: ShapeEntry) -> (added: bool)
        ensures
            added == may_follow(shape_ids(old(self)@.quick3), entry.row_id),
            final(self)@ == (if added {
                DatabaseView { quick3: old(self)@.quick3.push(entry), ..old(self)@ }
            } else {
                old(self)@
            }),
    {
        proof {
            use_type_invariant(&*self);
        }
        let n = self.quick3.len();
        if n > 0 && self.quick3[n - 1].row_id >= entry.row_id {
            return false;
        }
        proof {
            let ghost ids = shape_ids(self.quick3@);
            assert(shape_ids(self.quick3@.push(entry)) =~= ids.push(entry.row_id));
            lemma_push_increasing(ids, entry.row_id);
        }
        let mut table = Vec::new();
        std::mem::swap(&mut table, &mut self.quick3);
        table.push(entry);
        std::mem::swap(&mut table, &mut self.quick3);
        true
    }

    /// Appends a row of the stroke table; refused (and `false` returned) unless its row id is
    /// above the last one.
    pub fn add_stroke(&mut self, entry: ShapeEntry) -> (added: bool)
        ensures
            added == may_follow(shape_ids(old(self)@.strokes), entry.row_id),
            final(self)@ == (if added {
                DatabaseView { strokes: old(self)@.strokes.push(entry), ..old(self)@ }
            } else {
                old(self)@
            }),
    {
        proof {
            use_type_invariant(&*self);
        }
        let n = self.strokes.len();
        if n > 0 && self.strokes[n - 1].row_id >= entry.row_id {
            return false;
        }
        proof {
            let ghost ids = shape_ids(self.strokes@);
            assert(shape_ids(self.strokes@.push(entry)) =~= ids.push(entry.row_id));
            lemma_push_increasing(ids, entry.row_id);
        }
        let mut table = Vec::new();
        std::mem::swap(&mut table, &mut self.strokes);
        table.push(entry);
        std::mem::swap(&mut table, &mut self.strokes);
        true
    }

    /// Appends a row of the structure table; refused (and `false` returned) unless its row id is
    /// above the last one.
    pub fn add_structure(&mut self, entry: StructureEntry) -> (added: bool)
        ensures
            added == may_follow(structure_ids(old(self)@.structures), entry.row_id),
            final(self)@ == (if added {
                DatabaseView { structures: old(self)@.structures.push(entry), ..old(self)@ }
            } else {
                old(self)@
            }),
    {
        proof {
            use_type_invariant(&*self);
        }
        let n = self.structures.len();
        if n > 0 && self.structures[n - 1].row_id >= entry.row_id {
            return false;
        }
        proof {
            let ghost ids = structure_ids(self.structures@);
            assert(structure_ids(self.structures@.push(entry)) =~= ids.push(entry.row_id));
            lemma_push_increasing(ids, entry.row_id);
        }
        let mut table = Vec::new();
        std::mem::swap(&mut table, &mut self.structures);
        table.push(entry);
        std::mem::swap(&mut table, &mut self.structures);
        true
    }

    /// Appends a row of the plain-text table; refused (and `false` returned) unless its row id is
    /// above the last one.
    pub fn add_plain_text(&mut self, entry: PlainTextEntry) -> (added: bool)
        ensures
            added == may_follow(plain_text_ids(old(self)@.plain_texts), entry.row_id),
            final(self)@ == (if added {
                DatabaseView { plain_texts: old(self)@.plain_texts.push(entry), ..old(self)@ }
            } else {
                old(self)@
            }),
    {
        proof {
            use_type_invariant(&*self);
        }
        let n = self.plain_texts.len();
        if n > 0 && self.plain_texts[n - 1].row_id >= entry.row_id {
            return false;
        }
        proof {
            let ghost ids = plain_text_ids(self.plain_texts@);
            assert(plain_text_ids(self.plain_texts@.push(entry)) =~= ids.push(entry.row_id));
            lemma_push_increasing(ids, entry.row_id);
        }
        let mut table = Vec::new();
        std::mem::swap(&mut table, &mut self.plain_texts);
        table.push(entry);
        std::mem::swap(&mut table, &mut self.plain_texts);
        true
    }

    /// Appends a row of the symbol table; refused (and `false` returned) unless its row id is
    /// above the last one.
    pub fn add_symbol(&mut self, entry: SymbolEntry) -> (added: bool)
        ensures
            added == may_follow(symbol_ids(old(self)@.symbols), entry.row_id),
            final(self)@ == (if added {
                DatabaseView { symbols: old(self)@.symbols.push(entry), ..old(self)@ }
            } else {
                old(self)@
            }),
    {
        proof {
            use_type_invariant(&*self);
        }
        let n = self.symbols.len();
        if n > 0 && self.symbols[n - 1].row_id >= entry.row_id {
            return false;
        }
        proof {
            let ghost ids = symbol_ids(self.symbols@);
            assert(symbol_ids(self.symbols@.push(entry)) =~= ids.push(entry.row_id));
            lemma_push_increasing(ids, entry.row_id);
        }
        let mut table = Vec::new();
        std::mem::swap(&mut table, &mut self.symbols);
        table.push(entry);
        std::mem::swap(&mut table, &mut self.symbols);
        true
    }

    /// Appends a pair of the emoji skin-tone map.
    pub fn add_emoji_skin(&mut self, entry: EmojiSkinEntry)
        ensures
            final(self)@ == (DatabaseView { emoji_skins: old(self)@.emoji_skins.push(entry), ..old(self)@ }),
    {
        proof {
            use_type_invariant(&*self);
        }
        let mut table = Vec::new();
        std::mem::swap(&mut table, &mut self.emoji_skins);
        table.push(entry);
        std::mem::swap(&mut table, &mut self.emoji_skins);
    }
}


/// The columns that a symbol query returns.
pub open spec fn symbol_row_of(e: SymbolEntry) -> SymbolRowView {
    SymbolRowView {
        row_id: e.row_id,
        category: e.category,
        unicode_version: e.unicode_version,
        code_point: e.code_point@,
        cantonese: e.cantonese@,
        romanization: e.romanization@,
    }
}

fn symbol_row(e: &SymbolEntry) -> (r: SymbolRow)
    ensures
        r@ == symbol_row_of(*e),
{
    SymbolRow {
        row_id: e.row_id,
        category: e.category,
        unicode_version: e.unicode_version,
        code_point: e.code_point.clone(),
        cantonese: e.cantonese.clone(),
        romanization: e.romanization.clone(),
    }
}

// ---------------------------------------------------------------------
// Selections in table order
// ---------------------------------------------------------------------

/// At most `limit` items, or all of them when `limit` is not positive (the
/// database treats such a limit as none).
pub open spec fn limited<B>(s: Seq<B>, limit: i32) -> Seq<B> {
    if limit <= 0 || s.len() <= limit {
        s
    } else {
        s.take(limit as int)
    }
}

/// What a selection over the first `i` rows gives is a prefix of what it
/// gives over all rows.
pub proof fn lemma_filter_map_prefix<A, B>(s: Seq<A>, f: spec_fn(A) -> Option<B>, i: int)
    requires
        0 <= i <= s.len(),
    ensures
        s.take(i).filter_map(f).len() <= s.filter_map(f).len(),
        s.filter_map(f).take(s.take(i).filter_map(f).len() as int) == s.take(i).filter_map(f),
    decreases s.len() - i,
{
    if i < s.len() {
        lemma_filter_map_prefix(s, f, i + 1);
        s.lemma_filter_map_take_succ(f, i);
        let a = s.take(i).filter_map(f);
        let b = s.take(i + 1).filter_map(f);
        assert(b.take(a.len() as int) =~= a);
        assert(s.filter_map(f).take(a.len() as int) =~= s.filter_map(f).take(b.len() as int).take(
            a.len() as int,
        ));
    } else {
        assert(s.take(i) =~= s);
    }
}

proof fn lemma_limited_done<A, B>(s: Seq<A>, f: spec_fn(A) -> Option<B>, i: int, limit: i32)
    requires
        0 <= i <= s.len(),
        i == s.len() || (limit > 0 && s.take(i).filter_map(f).len() == limit),
        limit <= 0 || s.take(i).filter_map(f).len() <= limit,
    ensures
        s.take(i).filter_map(f) == limited(s.filter_map(f), limit),
{
    lemma_filter_map_prefix(s, f, i);
    if i == s.len() {
        assert(s.take(i) =~= s);
    }
}

/// The rows that `query_lexicon_by_anchors` selects, as they are returned.
pub open spec fn lexicon_by_anchors(anchors: i64, char_count: i64) -> spec_fn(LexiconEntry) -> Option<(i64, Seq<char>, Seq<char>)> {
    |e: LexiconEntry|
        if e.anchors == anchors && e.char_count == char_count {
            Some((e.row_id, e.word@, e.romanization@))
        } else {
            None
        }
}

/// The rows that `query_lexicon_by_spell` selects, as they are returned.
pub open spec fn lexicon_by_spell(spell: i64, complexity: i64) -> spec_fn(LexiconEntry) -> Option<(i64, Seq<char>, Seq<char>)> {
    |e: LexiconEntry|
        if e.spell == spell && e.complexity == complexity {
            Some((e.row_id, e.word@, e.romanization@))
        } else {
            None
        }
}

/// The rows that `query_stroke_by_code` selects, as they are returned.
pub open spec fn stroke_by_code(code: i64, complex: i64) -> spec_fn(ShapeEntry) -> Option<(i64, Seq<char>, i64)> {
    |e: ShapeEntry|
        if e.code == code && e.complex == complex {
            Some((e.row_id, e.word@, e.complex))
        } else {
            None
        }
}

/// The rows that `query_structure_by_spell` selects, as they are returned.
pub open spec fn structure_by_spell(spell: i64, complexity: i64) -> spec_fn(StructureEntry) -> Option<(Seq<char>, Seq<char>)> {
    |e: StructureEntry|
        if e.spell == spell && e.complexity == complexity {
            Some((e.word@, e.romanization@))
        } else {
            None
        }
}

/// The rows that `query_symbols_by_spell` selects, as they are returned.
pub open spec fn symbols_by_spell(spell: i64, complexity: i64) -> spec_fn(SymbolEntry) -> Option<SymbolRowView> {
    |e: SymbolEntry|
        if e.spell == spell && e.complexity == complexity {
            Some(symbol_row_of(e))
        } else {
            None
        }
}

/// The rows that `query_emoji_sequence` selects, as they are returned.
pub open spec fn emoji_rows() -> spec_fn(SymbolEntry) -> Option<SymbolRowView> {
    |e: SymbolEntry|
        if 0 < e.category < 9 {
            Some(symbol_row_of(e))
        } else {
            None
        }
}

/// The rows that `query_default_frequent_emojis` selects, as they are returned.
pub open spec fn default_emoji_rows() -> spec_fn(SymbolEntry) -> Option<SymbolRowView> {
    |e: SymbolEntry|
        if e.category == 0 {
            Some(symbol_row_of(e))
        } else {
            None
        }
}

/// The rows that `query_plain_texts_by_spell` selects, as they are returned.
pub open spec fn plain_texts_by_spell(spell: i64, letter_count: i64) -> spec_fn(PlainTextEntry) -> Option<Seq<char>> {
    |e: PlainTextEntry|
        if e.spell == spell && e.letter_count == letter_count {
            Some(e.word@)
        } else {
            None
        }
}

/// The rows that `lookup_romanizations_for_word` selects, as they are returned.
pub open spec fn romanizations_of(word: Seq<char>) -> spec_fn(LexiconEntry) -> Option<Seq<char>> {
    |e: LexiconEntry|
        if e.word@ == word {
            Some(e.romanization@)
        } else {
            None
        }
}

impl ImeDatabase {
    /// Rows of the Jyutping lexicon with the given anchors and character count, in row-id order. At most `limit` rows when `limit` is positive.
    pub fn query_lexicon_by_anchors(&self, anchors: i64, char_count: usize, limit: i32) -> (rows: Vec<LexiconRow>)
        ensures
            rows@.map_values(|r: LexiconRow| r@) == limited(self@.lexicon.filter_map(lexicon_by_anchors(anchors, char_count as i64)), limit),
    {
        let ghost f = lexicon_by_anchors(anchors, char_count as i64);
        let table = &self.lexicon;
        let mut rows: Vec<LexiconRow> = Vec::new();
        let mut i: usize = 0;
        while i < table.len() && (limit <= 0 || rows.len() < limit as usize)
            invariant
                0 <= i <= table@.len(),
                table@ == self@.lexicon,
                f == lexicon_by_anchors(anchors, char_count as i64),
                rows@.map_values(|r: LexiconRow| r@) == table@.take(i as int).filter_map(f),
                limit <= 0 || rows@.len() <= limit,
            decreases table.len() - i,
        {
            let e = &table[i];
            proof {
                table@.lemma_filter_map_take_succ(f, i as int);
            }
            if e.anchors == anchors && e.char_count == char_count as i64 {
                let row = LexiconRow { row_id: e.row_id, word: e.word.clone(), romanization: e.romanization.clone() };
                proof {
                    assert(rows@.push(row).map_values(|r: LexiconRow| r@) =~= rows@.map_values(
                        |r: LexiconRow| r@,
                    ).push(row@));
                }
                rows.push(row);
            }
            i += 1;
        }
        proof {
            lemma_limited_done(table@, f, i as int, limit);
        }
        rows
    }
}

impl ImeDatabase {
    /// Rows of the Jyutping lexicon with the given spelling number and complexity, in row-id order. At most `limit` rows when `limit` is positive.
    pub fn query_lexicon_by_spell(&self, spell: i64, complexity: i64, limit: i32) -> (rows: Vec<LexiconRow>)
        ensures
            rows@.map_values(|r: LexiconRow| r@) == limited(self@.lexicon.filter_map(lexicon_by_spell(spell, complexity)), limit),
    {
        let ghost f = lexicon_by_spell(spell, complexity);
        let table = &self.lexicon;
        let mut rows: Vec<LexiconRow> = Vec::new();
        let mut i: usize = 0;
        while i < table.len() && (limit <= 0 || rows.len() < limit as usize)
            invariant
                0 <= i <= table@.len(),
                table@ == self@.lexicon,
                f == lexicon_by_spell(spell, complexity),
                rows@.map_values(|r: LexiconRow| r@) == table@.take(i as int).filter_map(f),
                limit <= 0 || rows@.len() <= limit,
            decreases table.len() - i,
        {
            let e = &table[i];
            proof {
                table@.lemma_filter_map_take_succ(f, i as int);
            }
            if e.spell == spell && e.complexity == complexity {
                let row = LexiconRow { row_id: e.row_id, word: e.word.clone(), romanization: e.romanization.clone() };
                proof {
                    assert(rows@.push(row).map_values(|r: LexiconRow| r@) =~= rows@.map_values(
                        |r: LexiconRow| r@,
                    ).push(row@));
                }
                rows.push(row);
            }
            i += 1;
        }
        proof {
            lemma_limited_done(table@, f, i as int, limit);
        }
        rows
    }
}

impl ImeDatabase {
    /// Rows of the pinyin lexicon with the given spelling number and complexity, in row-id order. At most `limit` rows when `limit` is positive.
    pub fn query_pinyin_by_spell(&self, spell: i64, complexity: i64, limit: i32) -> (rows: Vec<LexiconRow>)
        ensures
            rows@.map_values(|r: LexiconRow| r@) == limited(self@.pinyin_lexicon.filter_map(lexicon_by_spell(spell, complexity)), limit),
    {
        let ghost f = lexicon_by_spell(spell, complexity);
        let table = &self.pinyin_lexicon;
        let mut rows: Vec<LexiconRow> = Vec::new();
        let mut i: usize = 0;
        while i < table.len() && (limit <= 0 || rows.len() < limit as usize)
            invariant
                0 <= i <= table@.len(),
                table@ == self@.pinyin_lexicon,
                f == lexicon_by_spell(spell, complexity),
                rows@.map_values(|r: LexiconRow| r@) == table@.take(i as int).filter_map(f),
                limit <= 0 || rows@.len() <= limit,
            decreases table.len() - i,
        {
            let e = &table[i];
            proof {
                table@.lemma_filter_map_take_succ(f, i as int);
            }
            if e.spell == spell && e.complexity == complexity {
                let row = LexiconRow { row_id: e.row_id, word: e.word.clone(), romanization: e.romanization.clone() };
                proof {
                    assert(rows@.push(row).map_values(|r: LexiconRow| r@) =~= rows@.map_values(
                        |r: LexiconRow| r@,
                    ).push(row@));
                }
                rows.push(row);
            }
            i += 1;
        }
        proof {
            lemma_limited_done(table@, f, i as int, limit);
        }
        rows
    }
}

impl ImeDatabase {
    /// Rows of the pinyin lexicon with the given anchors and character count, in row-id order. At most `limit` rows when `limit` is positive.
    pub fn query_pinyin_by_anchors(&self, anchors: i64, char_count: usize, limit: i32) -> (rows: Vec<LexiconRow>)
        ensures
            rows@.map_values(|r: LexiconRow| r@) == limited(self@.pinyin_lexicon.filter_map(lexicon_by_anchors(anchors, char_count as i64)), limit),
    {
        let ghost f = lexicon_by_anchors(anchors, char_count as i64);
        let table = &self.pinyin_lexicon;
        let mut rows: Vec<LexiconRow> = Vec::new();
        let mut i: usize = 0;
        while i < table.len() && (limit <= 0 || rows.len() < limit as usize)
            invariant
                0 <= i <= table@.len(),
                table@ == self@.pinyin_lexicon,
                f == lexicon_by_anchors(anchors, char_count as i64),
                rows@.map_values(|r: LexiconRow| r@) == table@.take(i as int).filter_map(f),
                limit <= 0 || rows@.len() <= limit,
            decreases table.len() - i,
        {
            let e = &table[i];
            proof {
                table@.lemma_filter_map_take_succ(f, i as int);
            }
            if e.anchors == anchors && e.char_count == char_count as i64 {
                let row = LexiconRow { row_id: e.row_id, word: e.word.clone(), romanization: e.romanization.clone() };
                proof {
                    assert(rows@.push(row).map_values(|r: LexiconRow| r@) =~= rows@.map_values(
                        |r: LexiconRow| r@,
                    ).push(row@));
                }
                rows.push(row);
            }
            i += 1;
        }
        proof {
            lemma_limited_done(table@, f, i as int, limit);
        }
        rows
    }
}

impl ImeDatabase {
    /// Rows of the stroke table with the given code and complexity, in row-id order.
    pub fn query_stroke_by_code(&self, code: i64, complex: i64) -> (rows: Vec<ShapeRow>)
        ensures
            rows@.map_values(|r: ShapeRow| r@) == self@.strokes.filter_map(stroke_by_code(code, complex)),
    {
        let ghost f = stroke_by_code(code, complex);
        let table = &self.strokes;
        let mut rows: Vec<ShapeRow> = Vec::new();
        let mut i: usize = 0;
        while i < table.len()
            invariant
                0 <= i <= table@.len(),
                table@ == self@.strokes,
                f == stroke_by_code(code, complex),
                rows@.map_values(|r: ShapeRow| r@) == table@.take(i as int).filter_map(f),
            decreases table.len() - i,
        {
            let e = &table[i];
            proof {
                table@.lemma_filter_map_take_succ(f, i as int);
            }
            if e.code == code && e.complex == complex {
                let row = ShapeRow { row_id: e.row_id, word: e.word.clone(), complex: e.complex };
                proof {
                    assert(rows@.push(row).map_values(|r: ShapeRow| r@) =~= rows@.map_values(
                        |r: ShapeRow| r@,
                    ).push(row@));
                }
                rows.push(row);
            }
            i += 1;
        }
        proof {
            assert(table@.take(i as int) =~= table@);
        }
        rows
    }
}

impl ImeDatabase {
    /// Words of the structure table with the given spelling number and complexity, in row-id order. At most `limit` rows when `limit` is positive.
    pub fn query_structure_by_spell(&self, spell: i64, complexity: i64, limit: i32) -> (rows: Vec<StructureRow>)
        ensures
            rows@.map_values(|r: StructureRow| r@) == limited(self@.structures.filter_map(structure_by_spell(spell, complexity)), limit),
    {
        let ghost f = structure_by_spell(spell, complexity);
        let table = &self.structures;
        let mut rows: Vec<StructureRow> = Vec::new();
        let mut i: usize = 0;
        while i < table.len() && (limit <= 0 || rows.len() < limit as usize)
            invariant
                0 <= i <= table@.len(),
                table@ == self@.structures,
                f == structure_by_spell(spell, complexity),
                rows@.map_values(|r: StructureRow| r@) == table@.take(i as int).filter_map(f),
                limit <= 0 || rows@.len() <= limit,
            decreases table.len() - i,
        {
            let e = &table[i];
            proof {
                table@.lemma_filter_map_take_succ(f, i as int);
            }
            if e.spell == spell && e.complexity == complexity {
                let row = StructureRow { word: e.word.clone(), romanization: e.romanization.clone() };
                proof {
                    assert(rows@.push(row).map_values(|r: StructureRow| r@) =~= rows@.map_values(
                        |r: StructureRow| r@,
                    ).push(row@));
                }
                rows.push(row);
            }
            i += 1;
        }
        proof {
            lemma_limited_done(table@, f, i as int, limit);
        }
        rows
    }
}

impl ImeDatabase {
    /// Rows of the symbol table with the given spelling number and complexity, in row-id order.
    pub fn query_symbols_by_spell(&self, spell: i64, complexity: i64) -> (rows: Vec<SymbolRow>)
        ensures
            rows@.map_values(|r: SymbolRow| r@) == self@.symbols.filter_map(symbols_by_spell(spell, complexity)),
    {
        let ghost f = symbols_by_spell(spell, complexity);
        let table = &self.symbols;
        let mut rows: Vec<SymbolRow> = Vec::new();
        let mut i: usize = 0;
        while i < table.len()
            invariant
                0 <= i <= table@.len(),
                table@ == self@.symbols,
                f == symbols_by_spell(spell, complexity),
                rows@.map_values(|r: SymbolRow| r@) == table@.take(i as int).filter_map(f),
            decreases table.len() - i,
        {
            let e = &table[i];
            proof {
                table@.lemma_filter_map_take_succ(f, i as int);
            }
            if e.spell == spell && e.complexity == complexity {
                let row = symbol_row(e);
                proof {
                    assert(rows@.push(row).map_values(|r: SymbolRow| r@) =~= rows@.map_values(
                        |r: SymbolRow| r@,
                    ).push(row@));
                }
                rows.push(row);
            }
            i += 1;
        }
        proof {
            assert(table@.take(i as int) =~= table@);
        }
        rows
    }
}

impl ImeDatabase {
    /// The emoji of the symbol table (categories 1 to 8), in row-id order.
    pub fn query_emoji_sequence(&self) -> (rows: Vec<SymbolRow>)
        ensures
            rows@.map_values(|r: SymbolRow| r@) == self@.symbols.filter_map(emoji_rows()),
    {
        let ghost f = emoji_rows();
        let table = &self.symbols;
        let mut rows: Vec<SymbolRow> = Vec::new();
        let mut i: usize = 0;
        while i < table.len()
            invariant
                0 <= i <= table@.len(),
                table@ == self@.symbols,
                f == emoji_rows(),
                rows@.map_values(|r: SymbolRow| r@) == table@.take(i as int).filter_map(f),
            decreases table.len() - i,
        {
            let e = &table[i];
            proof {
                table@.lemma_filter_map_take_succ(f, i as int);
            }
            if 0 < e.category && e.category < 9 {
                let row = symbol_row(e);
                proof {
                    assert(rows@.push(row).map_values(|r: SymbolRow| r@) =~= rows@.map_values(
                        |r: SymbolRow| r@,
                    ).push(row@));
                }
                rows.push(row);
            }
            i += 1;
        }
        proof {
            assert(table@.take(i as int) =~= table@);
        }
        rows
    }
}

impl ImeDatabase {
    /// The emoji offered before any is used (category 0), in row-id order.
    pub fn query_default_frequent_emojis(&self) -> (rows: Vec<SymbolRow>)
        ensures
            rows@.map_values(|r: SymbolRow| r@) == self@.symbols.filter_map(default_emoji_rows()),
    {
        let ghost f = default_emoji_rows();
        let table = &self.symbols;
        let mut rows: Vec<SymbolRow> = Vec::new();
        let mut i: usize = 0;
        while i < table.len()
            invariant
                0 <= i <= table@.len(),
                table@ == self@.symbols,
                f == default_emoji_rows(),
                rows@.map_values(|r: SymbolRow| r@) == table@.take(i as int).filter_map(f),
            decreases table.len() - i,
        {
            let e = &table[i];
            proof {
                table@.lemma_filter_map_take_succ(f, i as int);
            }
            if e.category == 0 {
                let row = symbol_row(e);
                proof {
                    assert(rows@.push(row).map_values(|r: SymbolRow| r@) =~= rows@.map_values(
                        |r: SymbolRow| r@,
                    ).push(row@));
                }
                rows.push(row);
            }
            i += 1;
        }
        proof {
            assert(table@.take(i as int) =~= table@);
        }
        rows
    }
}

impl ImeDatabase {
    /// Words of the plain-text table with the given spelling number and letter count, in row-id order.
    pub fn query_plain_texts_by_spell(&self, spell: i64, letter_count: usize) -> (rows: Vec<String>)
        ensures
            rows@.map_values(|r: String| r@) == self@.plain_texts.filter_map(plain_texts_by_spell(spell, letter_count as i64)),
    {
        let ghost f = plain_texts_by_spell(spell, letter_count as i64);
        let table = &self.plain_texts;
        let mut rows: Vec<String> = Vec::new();
        let mut i: usize = 0;
        while i < table.len()
            invariant
                0 <= i <= table@.len(),
                table@ == self@.plain_texts,
                f == plain_texts_by_spell(spell, letter_count as i64),
                rows@.map_values(|r: String| r@) == table@.take(i as int).filter_map(f),
            decreases table.len() - i,
        {
            let e = &table[i];
            proof {
                table@.lemma_filter_map_take_succ(f, i as int);
            }
            if e.spell == spell && e.letter_count == letter_count as i64 {
                let row = e.word.clone();
                proof {
                    assert(rows@.push(row).map_values(|r: String| r@) =~= rows@.map_values(
                        |r: String| r@,
                    ).push(row@));
                }
                rows.push(row);
            }
            i += 1;
        }
        proof {
            assert(table@.take(i as int) =~= table@);
        }
        rows
    }
}

impl ImeDatabase {
    /// Romanizations of the word in the Jyutping lexicon, in row-id order.
    pub fn lookup_romanizations_for_word(&self, word: &str) -> (rows: Vec<String>)
        ensures
            rows@.map_values(|r: String| r@) == self@.lexicon.filter_map(romanizations_of(word@)),
    {
        let ghost f = romanizations_of(word@);
        let target = word.to_owned();
        let table = &self.lexicon;
        let mut rows: Vec<String> = Vec::new();
        let mut i: usize = 0;
        while i < table.len()
            invariant
                0 <= i <= table@.len(),
                target@ == word@,
                table@ == self@.lexicon,
                f == romanizations_of(word@),
                rows@.map_values(|r: String| r@) == table@.take(i as int).filter_map(f),
            decreases table.len() - i,
        {
            let e = &table[i];
            proof {
                table@.lemma_filter_map_take_succ(f, i as int);
            }
            if e.word == target {
                let row = e.romanization.clone();
                proof {
                    assert(rows@.push(row).map_values(|r: String| r@) =~= rows@.map_values(
                        |r: String| r@,
                    ).push(row@));
                }
                rows.push(row);
            }
            i += 1;
        }
        proof {
            assert(table@.take(i as int) =~= table@);
        }
        rows
    }
}

// ---------------------------------------------------------------------
// Selections in key order
// ---------------------------------------------------------------------

/// Key order of `ORDER BY first ASC, second ASC`, or of `ORDER BY first
/// DESC, second ASC` when `descending`.
pub open spec fn key_before(a: (i64, i64), b: (i64, i64), descending: bool) -> bool {
    (if descending {
        a.0 > b.0
    } else {
        a.0 < b.0
    }) || (a.0 == b.0 && a.1 < b.1)
}

pub open spec fn keys_distinct(keys: Seq<(i64, i64)>) -> bool {
    forall|a: int, b: int| 0 <= a < b < keys.len() ==> keys[a] != keys[b]
}

/// `order` lists selected positions in strictly increasing key order and
/// leaves out a selected position only where the list was cut at `limit`
/// (a positive limit) before it.
pub open spec fn is_ordered_selection(
    keys: Seq<(i64, i64)>,
    selected: Seq<bool>,
    limit: i32,
    descending: bool,
    order: Seq<usize>,
) -> bool {
    &&& forall|t: int| 0 <= t < order.len() ==> order[t] < keys.len() && selected[order[t] as int]
    &&& forall|t1: int, t2: int|
        0 <= t1 < t2 < order.len() ==> key_before(#[trigger] keys[order[t1] as int], #[trigger] keys[order[t2] as int], descending)
    &&& forall|k: int|
        0 <= k < keys.len() && #[trigger] selected[k] && !order.contains(k as usize) ==> (limit > 0
            && order.len() == limit && key_before(keys[order.last() as int], keys[k], descending))
    &&& limit > 0 ==> order.len() <= limit
}

proof fn lemma_distinct_bounded(s: Seq<usize>, n: usize)
    requires
        forall|t: int| 0 <= t < s.len() ==> s[t] < n,
        forall|a: int, b: int| 0 <= a < b < s.len() ==> s[a] != s[b],
    ensures
        s.len() <= n,
{
    let t = s.map_values(|x: usize| x as int);
    assert(t.no_duplicates()) by {
        assert forall|a: int, b: int| 0 <= a < t.len() && 0 <= b < t.len() && a != b implies t[a]
            != t[b] by {
            if a < b {
                assert(s[a] != s[b]);
            } else {
                assert(s[b] != s[a]);
            }
        }
    }
    t.unique_seq_to_set();
    vstd::set_lib::lemma_int_range(0, n as int);
    assert(t.to_set().subset_of(vstd::set_lib::set_int_range(0, n as int))) by {
        assert forall|x: int| t.to_set().contains(x) implies vstd::set_lib::set_int_range(
            0,
            n as int,
        ).contains(x) by {
            let i = choose|i: int| 0 <= i < t.len() && t[i] == x;
            assert(t[i] == s[i] as int);
        }
    }
    vstd::set_lib::lemma_len_subset(t.to_set(), vstd::set_lib::set_int_range(0, n as int));
}

/// The selected positions in key order, cut at `limit` when it is positive:
/// each round picks the least key after the last one picked.
pub(crate) fn ordered_selection(
    keys: &Vec<(i64, i64)>,
    selected: &Vec<bool>,
    limit: i32,
    descending: bool,
) -> (order: Vec<usize>)
    requires
        keys@.len() == selected@.len(),
        keys_distinct(keys@),
    ensures
        is_ordered_selection(keys@, selected@, limit, descending, order@),
{
    let n = keys.len();
    let mut order: Vec<usize> = Vec::new();
    loop
        invariant
            n == keys@.len(),
            keys@.len() == selected@.len(),
            keys_distinct(keys@),
            forall|t: int| 0 <= t < order@.len() ==> order@[t] < n && selected@[order@[t] as int],
            forall|t1: int, t2: int|
                0 <= t1 < t2 < order@.len() ==> key_before(#[trigger] keys@[order@[t1] as int], #[trigger] keys@[order@[t2] as int], descending),
            forall|k: int|
                0 <= k < n && #[trigger] selected@[k] && order@.len() > 0 && !key_before(keys@[order@.last() as int], keys@[k], descending) ==> order@.contains(k as usize),
            limit > 0 ==> order@.len() <= limit,
        ensures
            is_ordered_selection(keys@, selected@, limit, descending, order@),
        decreases n - order@.len(),
    {
        if limit > 0 && order.len() >= limit as usize {
            proof {
                assert forall|k: int|
                    0 <= k < keys@.len() && #[trigger] selected@[k] && !order@.contains(
                        k as usize,
                    ) implies (limit > 0 && order@.len() == limit && key_before(keys@[order@.last() as int], keys@[k], descending)) by {}
            }
            break;
        }
        let has_last = order.len() > 0;
        let last_key: (i64, i64) = if has_last {
            keys[order[order.len() - 1]]
        } else {
            (0, 0)
        };
        let mut best: Option<usize> = None;
        let mut k: usize = 0;
        while k < n
            invariant
                n == keys@.len(),
                keys@.len() == selected@.len(),
                0 <= k <= n,
                has_last == (order@.len() > 0),
                has_last ==> last_key == keys@[order@.last() as int],
                match best {
                    Some(b) => b < k && selected@[b as int] && (!has_last || key_before(last_key, keys@[b as int], descending)) && forall|j: int|
                        0 <= j < k && #[trigger] selected@[j] && (!has_last || key_before(last_key, keys@[j], descending)) ==> !key_before(keys@[j], keys@[b as int], descending),
                    None => forall|j: int|
                        0 <= j < k ==> !(#[trigger] selected@[j] && (!has_last || key_before(last_key, keys@[j], descending))),
                },
            decreases n - k,
        {
            let candidate = keys[k];
            let after_last = if descending {
                candidate.0 < last_key.0
            } else {
                candidate.0 > last_key.0
            } || (candidate.0 == last_key.0 && candidate.1 > last_key.1);
            if selected[k] && (!has_last || after_last) {
                match best {
                    Some(b) => {
                        let bk = keys[b];
                        let before_best = if descending {
                            candidate.0 > bk.0
                        } else {
                            candidate.0 < bk.0
                        } || (candidate.0 == bk.0 && candidate.1 < bk.1);
                        if before_best {
                            best = Some(k);
                        }
                    },
                    None => {
                        best = Some(k);
                    },
                }
            }
            k += 1;
        }
        match best {
            None => {
                proof {
                    assert forall|j: int|
                        0 <= j < keys@.len() && #[trigger] selected@[j] && !order@.contains(
                            j as usize,
                        ) implies (limit > 0 && order@.len() == limit && key_before(keys@[order@.last() as int], keys@[j], descending)) by {
                        assert(!(selected@[j] && (!has_last || key_before(last_key, keys@[j], descending))));
                    }
                }
                break;
            },
            Some(b) => {
                proof {
                    assert forall|t: int| 0 <= t < order@.len() implies order@[t] != b by {
                        if t < order@.len() - 1 {
                            assert(key_before(keys@[order@[t] as int], keys@[order@[order@.len() - 1] as int], descending));
                        }
                    }
                    let s = order@.push(b);
                    assert forall|a: int, c: int| 0 <= a < c < s.len() implies s[a] != s[c] by {
                        if c < order@.len() {
                            assert(key_before(keys@[order@[a] as int], keys@[order@[c] as int], descending));
                        }
                    }
                    lemma_distinct_bounded(s, n);
                }
                let ghost old_order = order@;
                order.push(b);
                proof {
                    assert forall|j: int|
                        0 <= j < n && #[trigger] selected@[j] && order@.len() > 0 && !key_before(keys@[order@.last() as int], keys@[j], descending) implies order@.contains(j as usize) by {
                        if has_last && !key_before(last_key, keys@[j], descending) {
                            assert(old_order.contains(j as usize));
                            let t = choose|t: int| 0 <= t < old_order.len() && old_order[t] == j as usize;
                            assert(order@[t] == j as usize);
                        } else {
                            if j != b as int {
                                assert(keys@[j] != keys@[b as int]) by {
                                    if j < b as int {
                                        assert(keys@[j] != keys@[b as int]);
                                    } else {
                                        assert(keys@[b as int] != keys@[j]);
                                    }
                                }
                            }
                            assert(order@[order@.len() - 1] == b);
                        }
                    }
                }
            },
        }
    }
    order
}


// ---------------------------------------------------------------------
// Whole tables, shape codes and patterns, the skin-tone map
// ---------------------------------------------------------------------

/// The shape table of a Cangjie or Quick version.
pub open spec fn variant_table(v: DatabaseView, variant: CangjieVariant) -> Seq<ShapeEntry> {
    match variant {
        CangjieVariant::Cangjie5 => v.cangjie5,
        CangjieVariant::Cangjie3 => v.cangjie3,
        CangjieVariant::Quick5 => v.quick5,
        CangjieVariant::Quick3 => v.quick3,
    }
}

pub open spec fn is_quick(variant: CangjieVariant) -> bool {
    variant == CangjieVariant::Quick5 || variant == CangjieVariant::Quick3
}

/// The rows that a code lookup in a shape table returns.
pub open spec fn shape_by_code(code: i64) -> spec_fn(ShapeEntry) -> Option<(i64, Seq<char>, i64)> {
    |e: ShapeEntry|
        if e.code == code {
            Some((e.row_id, e.word@, e.complex))
        } else {
            None
        }
}

/// Ordering keys of shape rows: complexity, then row id.
pub open spec fn shape_keys(t: Seq<ShapeEntry>) -> Seq<(i64, i64)> {
    t.map_values(|e: ShapeEntry| (e.complex, e.row_id))
}

/// Which shape rows have a code text that matches the pattern.
pub open spec fn shape_pattern_selected(t: Seq<ShapeEntry>, pattern: Seq<char>, like: bool) -> Seq<
    bool,
> {
    t.map_values(|e: ShapeEntry| pattern_matches(pattern, e.text@, like))
}

/// The returned columns of the shape rows at the positions in `order`.
pub open spec fn shape_rows_at(t: Seq<ShapeEntry>, order: Seq<usize>) -> Seq<(i64, Seq<char>, i64)> {
    order.map_values(|k: usize| (t[k as int].row_id, t[k as int].word@, t[k as int].complex))
}

/// `rows` are the shape rows whose code text matches the pattern, by
/// complexity then row id, at most `limit` of them when `limit` is positive.
pub open spec fn is_shape_pattern_result(
    t: Seq<ShapeEntry>,
    pattern: Seq<char>,
    like: bool,
    limit: i32,
    rows: Seq<(i64, Seq<char>, i64)>,
) -> bool {
    exists|order: Seq<usize>|
        #[trigger] is_ordered_selection(shape_keys(t), shape_pattern_selected(t, pattern, like), limit, false, order)
            && rows == shape_rows_at(t, order)
}

/// The GLOB pattern of a code prefix.
pub open spec fn prefix_pattern(prefix: Seq<char>) -> Seq<char> {
    prefix.push('*')
}

/// Ordering keys of the pinyin syllables: code, then position.
pub open spec fn pinyin_keys(t: Seq<PinyinSyllableRow>) -> Seq<(i64, i64)> {
    Seq::new(t.len(), |k: int| (t[k].code, k as i64))
}

/// Every row selected.
pub open spec fn all_selected(n: nat) -> Seq<bool> {
    Seq::new(n, |k: int| true)
}

/// `rows` are the pinyin syllables ordered by code (equal codes in table order).
pub open spec fn is_pinyin_syllable_result(t: Seq<PinyinSyllableRow>, rows: Seq<(i64, Seq<char>)>) -> bool {
    exists|order: Seq<usize>|
        #[trigger] is_ordered_selection(pinyin_keys(t), all_selected(t.len()), 0, false, order)
            && rows == order.map_values(|k: usize| t[k as int]@)
}

/// The targets of the skin-tone map entries for a source, in table order.
pub open spec fn skin_targets(t: Seq<EmojiSkinEntry>, source: Seq<char>) -> Seq<Seq<char>> {
    t.filter_map(skin_selector(source))
}

/// The target of a skin-tone map entry for `source`.
pub open spec fn skin_selector(source: Seq<char>) -> spec_fn(EmojiSkinEntry) -> Option<Seq<char>> {
    |e: EmojiSkinEntry|
        if e.source@ == source {
            Some(e.target@)
        } else {
            None
        }
}

fn select_shapes_by_code(table: &Vec<ShapeEntry>, code: i64) -> (rows: Vec<ShapeRow>)
    ensures
        rows@.map_values(|r: ShapeRow| r@) == table@.filter_map(shape_by_code(code)),
{
    let ghost f = shape_by_code(code);
    let mut rows: Vec<ShapeRow> = Vec::new();
    let mut i: usize = 0;
    while i < table.len()
        invariant
            0 <= i <= table@.len(),
            f == shape_by_code(code),
            rows@.map_values(|r: ShapeRow| r@) == table@.take(i as int).filter_map(f),
        decreases table.len() - i,
    {
        let e = &table[i];
        proof {
            table@.lemma_filter_map_take_succ(f, i as int);
        }
        if e.code == code {
            let row = ShapeRow { row_id: e.row_id, word: e.word.clone(), complex: e.complex };
            proof {
                assert(rows@.push(row).map_values(|r: ShapeRow| r@) =~= rows@.map_values(
                    |r: ShapeRow| r@,
                ).push(row@));
            }
            rows.push(row);
        }
        i += 1;
    }
    proof {
        assert(table@.take(i as int) =~= table@);
    }
    rows
}

fn select_shapes_by_pattern(table: &Vec<ShapeEntry>, pattern: &[char], like: bool, limit: i32) -> (rows:
    Vec<ShapeRow>)
    requires
        increasing(shape_ids(table@)),
    ensures
        is_shape_pattern_result(table@, pattern@, like, limit, rows@.map_values(|r: ShapeRow| r@)),
{
    let mut keys: Vec<(i64, i64)> = Vec::new();
    let mut selected: Vec<bool> = Vec::new();
    let mut i: usize = 0;
    while i < table.len()
        invariant
            0 <= i <= table@.len(),
            keys@ =~= shape_keys(table@).take(i as int),
            selected@ =~= shape_pattern_selected(table@, pattern@, like).take(i as int),
        decreases table.len() - i,
    {
        let e = &table[i];
        keys.push((e.complex, e.row_id));
        let text = chars_of(e.text.as_str());
        selected.push(matches_pattern(pattern, text.as_slice(), like));
        i += 1;
    }
    proof {
        assert(keys@ =~= shape_keys(table@));
        assert(selected@ =~= shape_pattern_selected(table@, pattern@, like));
        assert forall|a: int, b: int| 0 <= a < b < keys@.len() implies keys@[a] != keys@[b] by {
            assert(shape_ids(table@)[a] < shape_ids(table@)[b]);
        }
    }
    let order = ordered_selection(&keys, &selected, limit, false);
    let mut rows: Vec<ShapeRow> = Vec::new();
    let mut t: usize = 0;
    while t < order.len()
        invariant
            0 <= t <= order@.len(),
            forall|u: int| 0 <= u < order@.len() ==> order@[u] < table@.len(),
            rows@.map_values(|r: ShapeRow| r@) =~= shape_rows_at(table@, order@).take(t as int),
        decreases order.len() - t,
    {
        let e = &table[order[t]];
        let row = ShapeRow { row_id: e.row_id, word: e.word.clone(), complex: e.complex };
        proof {
            assert(rows@.push(row).map_values(|r: ShapeRow| r@) =~= rows@.map_values(|r: ShapeRow| r@).push(
                row@,
            ));
        }
        rows.push(row);
        t += 1;
    }
    proof {
        assert(rows@.map_values(|r: ShapeRow| r@) =~= shape_rows_at(table@, order@));
    }
    rows
}

fn prefix_pattern_chars(prefix: &str) -> (pattern: Vec<char>)
    ensures
        pattern@ == prefix_pattern(prefix@),
{
    let mut pattern = chars_of(prefix);
    pattern.push('*');
    pattern
}

impl ImeDatabase {
    /// The syllable table, every row in table order.
    pub fn query_syllables(&self) -> (rows: Vec<SyllableRow>)
        ensures
            rows@.map_values(|r: SyllableRow| r@) == self@.syllables.map_values(|r: SyllableRow| r@),
    {
        let table = &self.syllables;
        let mut rows: Vec<SyllableRow> = Vec::new();
        let mut i: usize = 0;
        while i < table.len()
            invariant
                0 <= i <= table@.len(),
                table@ == self@.syllables,
                rows@.map_values(|r: SyllableRow| r@) =~= table@.take(i as int).map_values(
                    |r: SyllableRow| r@,
                ),
            decreases table.len() - i,
        {
            let e = &table[i];
            let row = SyllableRow {
                alias_code: e.alias_code,
                origin_code: e.origin_code,
                alias: e.alias.clone(),
                origin: e.origin.clone(),
            };
            proof {
                assert(rows@.push(row).map_values(|r: SyllableRow| r@) =~= rows@.map_values(
                    |r: SyllableRow| r@,
                ).push(row@));
            }
            rows.push(row);
            i += 1;
        }
        proof {
            assert(table@.take(i as int) =~= table@);
        }
        rows
    }

    /// The pinyin syllables ordered by code.
    pub fn query_pinyin_syllables(&self) -> (rows: Vec<PinyinSyllableRow>)
        ensures
            is_pinyin_syllable_result(
                self@.pinyin_syllables,
                rows@.map_values(|r: PinyinSyllableRow| r@),
            ),
    {
        proof {
            use_type_invariant(self);
        }
        let table = &self.pinyin_syllables;
        let mut keys: Vec<(i64, i64)> = Vec::new();
        let mut selected: Vec<bool> = Vec::new();
        let mut i: usize = 0;
        while i < table.len()
            invariant
                0 <= i <= table@.len(),
                table@.len() <= i64::MAX,
                keys@ =~= pinyin_keys(table@).take(i as int),
                selected@ =~= all_selected(table@.len()).take(i as int),
            decreases table.len() - i,
        {
            keys.push((table[i].code, i as i64));
            selected.push(true);
            i += 1;
        }
        proof {
            assert(keys@ =~= pinyin_keys(table@));
            assert(selected@ =~= all_selected(table@.len()));
        }
        let order = ordered_selection(&keys, &selected, 0, false);
        let mut rows: Vec<PinyinSyllableRow> = Vec::new();
        let mut t: usize = 0;
        while t < order.len()
            invariant
                0 <= t <= order@.len(),
                forall|u: int| 0 <= u < order@.len() ==> order@[u] < table@.len(),
                rows@.map_values(|r: PinyinSyllableRow| r@) =~= order@.map_values(
                    |k: usize| table@[k as int]@,
                ).take(t as int),
            decreases order.len() - t,
        {
            let e = &table[order[t]];
            let row = PinyinSyllableRow { code: e.code, syllable: e.syllable.clone() };
            proof {
                assert(rows@.push(row).map_values(|r: PinyinSyllableRow| r@) =~= rows@.map_values(
                    |r: PinyinSyllableRow| r@,
                ).push(row@));
            }
            rows.push(row);
            t += 1;
        }
        proof {
            assert(rows@.map_values(|r: PinyinSyllableRow| r@) =~= order@.map_values(
                |k: usize| table@[k as int]@,
            ));
        }
        rows
    }

    /// Rows of a Quick table with the given code, in row-id order; none for
    /// a Cangjie version.
    pub fn query_quick_by_exact_code(&self, variant: CangjieVariant, code: i64) -> (rows: Vec<
        ShapeRow,
    >)
        ensures
            rows@.map_values(|r: ShapeRow| r@) == if is_quick(variant) {
                variant_table(self@, variant).filter_map(shape_by_code(code))
            } else {
                Seq::empty()
            },
    {
        match variant {
            CangjieVariant::Quick5 => select_shapes_by_code(&self.quick5, code),
            CangjieVariant::Quick3 => select_shapes_by_code(&self.quick3, code),
            _ => {
                let rows: Vec<ShapeRow> = Vec::new();
                assert(rows@.map_values(|r: ShapeRow| r@) =~= Seq::empty());
                rows
            },
        }
    }

    /// Rows of a Cangjie or Quick table with the given code, in row-id order.
    pub fn query_cangjie_by_exact_code(&self, variant: CangjieVariant, code: i64) -> (rows: Vec<
        ShapeRow,
    >)
        ensures
            rows@.map_values(|r: ShapeRow| r@) == variant_table(self@, variant).filter_map(
                shape_by_code(code),
            ),
    {
        match variant {
            CangjieVariant::Quick5 | CangjieVariant::Quick3 => self.query_quick_by_exact_code(
                variant,
                code,
            ),
            CangjieVariant::Cangjie5 => select_shapes_by_code(&self.cangjie5, code),
            CangjieVariant::Cangjie3 => select_shapes_by_code(&self.cangjie3, code),
        }
    }

    /// Rows of a Quick table whose code starts with `prefix` (GLOB
    /// `prefix*`), by complexity then row id, at most `limit` when it is
    /// positive; none for a Cangjie version.
    pub fn query_quick_by_prefix(&self, variant: CangjieVariant, prefix: &str, limit: i32) -> (rows:
        Vec<ShapeRow>)
        ensures
            is_quick(variant) ==> is_shape_pattern_result(
                variant_table(self@, variant),
                prefix_pattern(prefix@),
                false,
                limit,
                rows@.map_values(|r: ShapeRow| r@),
            ),
            !is_quick(variant) ==> rows@.len() == 0,
    {
        proof {
            use_type_invariant(self);
        }
        match variant {
            CangjieVariant::Quick5 => {
                let pattern = prefix_pattern_chars(prefix);
                select_shapes_by_pattern(&self.quick5, pattern.as_slice(), false, limit)
            },
            CangjieVariant::Quick3 => {
                let pattern = prefix_pattern_chars(prefix);
                select_shapes_by_pattern(&self.quick3, pattern.as_slice(), false, limit)
            },
            _ => Vec::new(),
        }
    }

    /// Rows of a Cangjie or Quick table whose code starts with `prefix` (GLOB
    /// `prefix*`), by complexity then row id, at most `limit` when it is
    /// positive.
    pub fn query_cangjie_by_prefix(&self, variant: CangjieVariant, prefix: &str, limit: i32) -> (rows:
        Vec<ShapeRow>)
        ensures
            is_shape_pattern_result(
                variant_table(self@, variant),
                prefix_pattern(prefix@),
                false,
                limit,
                rows@.map_values(|r: ShapeRow| r@),
            ),
    {
        proof {
            use_type_invariant(self);
        }
        match variant {
            CangjieVariant::Quick5 | CangjieVariant::Quick3 => self.query_quick_by_prefix(
                variant,
                prefix,
                limit,
            ),
            CangjieVariant::Cangjie5 => {
                let pattern = prefix_pattern_chars(prefix);
                select_shapes_by_pattern(&self.cangjie5, pattern.as_slice(), false, limit)
            },
            CangjieVariant::Cangjie3 => {
                let pattern = prefix_pattern_chars(prefix);
                select_shapes_by_pattern(&self.cangjie3, pattern.as_slice(), false, limit)
            },
        }
    }

    /// Rows of the stroke table whose strokes match the pattern (LIKE when
    /// `is_like`, else GLOB), by complexity then row id, at most `limit` when
    /// it is positive.
    pub fn query_stroke_by_pattern(&self, pattern: &str, is_like: bool, limit: i32) -> (rows: Vec<
        ShapeRow,
    >)
        ensures
            is_shape_pattern_result(
                self@.strokes,
                pattern@,
                is_like,
                limit,
                rows@.map_values(|r: ShapeRow| r@),
            ),
    {
        proof {
            use_type_invariant(self);
        }
        let chars = chars_of(pattern);
        select_shapes_by_pattern(&self.strokes, chars.as_slice(), is_like, limit)
    }

    /// The skin-tone form of an emoji: the target of the first entry for
    /// `source`, if any.
    pub fn query_emoji_skin_target(&self, source: &str) -> (target: Option<String>)
        ensures
            match target {
                Some(t) => skin_targets(self@.emoji_skins, source@).len() > 0 && t@ == skin_targets(
                    self@.emoji_skins,
                    source@,
                )[0],
                None => skin_targets(self@.emoji_skins, source@).len() == 0,
            },
    {
        let key = source.to_owned();
        let table = &self.emoji_skins;
        let ghost f = skin_selector(source@);
        let mut i: usize = 0;
        while i < table.len()
            invariant
                0 <= i <= table@.len(),
                table@ == self@.emoji_skins,
                key@ == source@,
                f == skin_selector(source@),
                table@.take(i as int).filter_map(f).len() == 0,
            decreases table.len() - i,
        {
            proof {
                table@.lemma_filter_map_take_succ(f, i as int);
                lemma_filter_map_prefix(table@, f, i as int + 1);
            }
            if table[i].source == key {
                let target = table[i].target.clone();
                proof {
                    assert(f(table@[i as int]) == Some(target@));
                    assert(table@.take(i as int + 1).filter_map(f) =~= seq![target@]);
                    assert(table@.filter_map(f).take(1) == seq![target@]);
                    assert(table@.filter_map(f)[0] == table@.filter_map(f).take(1)[0]);
                }
                return Some(target);
            }
            i += 1;
        }
        proof {
            assert(table@.take(i as int) =~= table@);
        }
        None
    }
}


/// Each Cangjie and Quick version is looked up in its own table only: a
/// code lookup gives exactly that table's rows with the code, in order;
/// Quick3 and Quick5 are the Quick versions; and two databases that agree
/// on a version's table agree on its lookups, whatever their other tables.
pub proof fn lemma_shape_lookups_read_their_own_table(v: DatabaseView, w: DatabaseView, code: i64)
    ensures
        variant_table(v, CangjieVariant::Quick3).filter_map(shape_by_code(code)) == v.quick3.filter_map(
            shape_by_code(code),
        ),
        variant_table(v, CangjieVariant::Quick5).filter_map(shape_by_code(code)) == v.quick5.filter_map(
            shape_by_code(code),
        ),
        variant_table(v, CangjieVariant::Cangjie3).filter_map(shape_by_code(code)) == v.cangjie3.filter_map(
            shape_by_code(code),
        ),
        variant_table(v, CangjieVariant::Cangjie5).filter_map(shape_by_code(code)) == v.cangjie5.filter_map(
            shape_by_code(code),
        ),
        is_quick(CangjieVariant::Quick3) && is_quick(CangjieVariant::Quick5),
        !is_quick(CangjieVariant::Cangjie3) && !is_quick(CangjieVariant::Cangjie5),
        v.quick3 == w.quick3 ==> variant_table(v, CangjieVariant::Quick3) == variant_table(
            w,
            CangjieVariant::Quick3,
        ),
        v.quick5 == w.quick5 ==> variant_table(v, CangjieVariant::Quick5) == variant_table(
            w,
            CangjieVariant::Quick5,
        ),
        v.cangjie3 == w.cangjie3 ==> variant_table(v, CangjieVariant::Cangjie3) == variant_table(
            w,
            CangjieVariant::Cangjie3,
        ),
        v.cangjie5 == w.cangjie5 ==> variant_table(v, CangjieVariant::Cangjie5) == variant_table(
            w,
            CangjieVariant::Cangjie5,
        ),
{
}

} // verus!
