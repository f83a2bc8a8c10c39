//! The input memory: the words that the user chose, with how often and when
//! they were last chosen, and the numbers they are found by. A word and its
//! romanization are stored at most once.
use vstd::prelude::*;

use crate::database::{is_ordered_selection, key_before, ordered_selection, MemoryRow};
use crate::engine::{nonempty_parts, split};
use crate::input_key::key_for_character;
use crate::text::chars_of;

verus! {

// ---------------------------------------------------------------------
// The numbers a learned word is found by
// ---------------------------------------------------------------------

/// The numbers under which a learned word is stored.
#[derive(Clone, Copy, PartialEq, Eq, Structural, Debug)]
pub struct SerialFields {
    pub char_count: i64,
    pub letter_count: i64,
    pub complexity: i64,
    pub anchors: i64,
    pub spell: i64,
}

/// The romanization without its tone digits.
pub open spec fn tone_free(r: Seq<char>) -> Seq<char> {
    r.filter(|c: char| !('0' <= c <= '9'))
}

/// The lowercase basic Latin letters of the romanization.
pub open spec fn basic_letters(r: Seq<char>) -> Seq<char> {
    r.filter(|c: char| 'a' <= c <= 'z')
}

/// The syllable lengths as decimal digits (with wrap-around, as 64-bit
/// arithmetic has it).
pub open spec fn complexity_of(phones: Seq<Seq<char>>) -> i64
    decreases phones.len(),
{
    if phones.len() == 0 {
        0
    } else {
        complexity_of(phones.drop_last()).wrapping_mul(10).wrapping_add(phones.last().len() as i64)
    }
}

/// Input codes as base-100 digits (with wrap-around, as 64-bit arithmetic
/// has it).
pub open spec fn wrapped_code_of(codes: Seq<i64>) -> i64
    decreases codes.len(),
{
    if codes.len() == 0 {
        0
    } else {
        wrapped_code_of(codes.drop_last()).wrapping_mul(100).wrapping_add(codes.last())
    }
}

/// The input code of the first character of a syllable, if it types one.
pub open spec fn anchor_code(phone: Seq<char>) -> Option<i64> {
    if phone.len() > 0 {
        match key_for_character(phone[0]) {
            Some(k) => Some(k.code),
            None => None,
        }
    } else {
        None
    }
}

/// The input code of a letter.
pub open spec fn letter_code(c: char) -> i64 {
    (c as int - 77) as i64
}

/// The numbers of a word and its romanization: its character count; the
/// count of letters of the romanization and their codes as one number; the
/// lengths of its toneless syllables; and the codes of their first letters.
pub open spec fn serial_fields_of(word: Seq<char>, romanization: Seq<char>) -> SerialFields {
    let phones = nonempty_parts(tone_free(romanization), ' ');
    let letters = basic_letters(romanization);
    SerialFields {
        char_count: word.len() as i64,
        letter_count: letters.len() as i64,
        complexity: complexity_of(phones),
        anchors: wrapped_code_of(phones.filter_map(|p: Seq<char>| anchor_code(p))),
        spell: wrapped_code_of(letters.map_values(|c: char| letter_code(c))),
    }
}

pub(crate) fn tone_free_chars(r: &[char]) -> (t: Vec<char>)
    ensures
        t@ == tone_free(r@),
{
    let ghost keep = |c: char| !('0' <= c <= '9');
    let mut t: Vec<char> = Vec::new();
    let mut i: usize = 0;
    while i < r.len()
        invariant
            0 <= i <= r@.len(),
            keep == (|c: char| !('0' <= c <= '9')),
            t@ == r@.take(i as int).filter(keep),
        decreases r.len() - i,
    {
        proof {
            assert(r@.take(i as int + 1) =~= r@.take(i as int).push(r@[i as int]));
            r@.take(i as int).lemma_filter_push(r@[i as int], keep);
        }
        let c = r[i];
        if !('0' <= c && c <= '9') {
            t.push(c);
        }
        i += 1;
    }
    proof {
        assert(r@.take(i as int) =~= r@);
    }
    t
}

fn letter_chars(r: &[char]) -> (t: Vec<char>)
    ensures
        t@ == basic_letters(r@),
{
    let ghost keep = |c: char| 'a' <= c <= 'z';
    let mut t: Vec<char> = Vec::new();
    let mut i: usize = 0;
    while i < r.len()
        invariant
            0 <= i <= r@.len(),
            keep == (|c: char| 'a' <= c <= 'z'),
            t@ == r@.take(i as int).filter(keep),
        decreases r.len() - i,
    {
        proof {
            assert(r@.take(i as int + 1) =~= r@.take(i as int).push(r@[i as int]));
            r@.take(i as int).lemma_filter_push(r@[i as int], keep);
        }
        let c = r[i];
        if 'a' <= c && c <= 'z' {
            t.push(c);
        }
        i += 1;
    }
    proof {
        assert(r@.take(i as int) =~= r@);
    }
    t
}

fn complexity_of_phones(phones: &Vec<String>) -> (complexity: i64)
    ensures
        complexity == complexity_of(phones@.map_values(|p: String| p@)),
{
    let ghost phone_seqs = phones@.map_values(|p: String| p@);
    let mut complexity: i64 = 0;
    let mut i: usize = 0;
    while i < phones.len()
        invariant
            0 <= i <= phones@.len(),
            phone_seqs == phones@.map_values(|p: String| p@),
            complexity == complexity_of(phone_seqs.take(i as int)),
        decreases phones.len() - i,
    {
        let phone = chars_of(phones[i].as_str());
        proof {
            assert(phone_seqs.take(i as int + 1).drop_last() =~= phone_seqs.take(i as int));
            assert(phone_seqs.take(i as int + 1).last() == phone@);
        }
        complexity = complexity.wrapping_mul(10).wrapping_add(phone.len() as i64);
        i += 1;
    }
    proof {
        assert(phone_seqs.take(i as int) =~= phone_seqs);
    }
    complexity
}

fn anchors_of_phones(phones: &Vec<String>) -> (anchors: i64)
    ensures
        anchors == wrapped_code_of(
            phones@.map_values(|p: String| p@).filter_map(|p: Seq<char>| anchor_code(p)),
        ),
{
    let ghost phone_seqs = phones@.map_values(|p: String| p@);
    let ghost anchor_of = |p: Seq<char>| anchor_code(p);
    let mut anchors: i64 = 0;
    let mut i: usize = 0;
    while i < phones.len()
        invariant
            0 <= i <= phones@.len(),
            phone_seqs == phones@.map_values(|p: String| p@),
            anchor_of == (|p: Seq<char>| anchor_code(p)),
            anchors == wrapped_code_of(phone_seqs.take(i as int).filter_map(anchor_of)),
        decreases phones.len() - i,
    {
        let phone = chars_of(phones[i].as_str());
        proof {
            phone_seqs.lemma_filter_map_take_succ(anchor_of, i as int);
            assert(phone_seqs[i as int] == phone@);
        }
        let ghost before = phone_seqs.take(i as int).filter_map(anchor_of);
        if phone.len() > 0 {
            if let Some(key) = crate::input_key::VirtualInputKey::for_character(phone[0]) {
                proof {
                    assert(anchor_of(phone@) == Some(key.code));
                    assert(before.push(key.code).drop_last() =~= before);
                    assert(phone_seqs.take(i as int + 1).filter_map(anchor_of) =~= before.push(key.code));
                }
                anchors = anchors.wrapping_mul(100).wrapping_add(key.code);
            } else {
                proof {
                    assert(phone_seqs.take(i as int + 1).filter_map(anchor_of) =~= before);
                }
            }
        } else {
            proof {
                assert(phone_seqs.take(i as int + 1).filter_map(anchor_of) =~= before);
            }
        }
        i += 1;
    }
    proof {
        assert(phone_seqs.take(i as int) =~= phone_seqs);
    }
    anchors
}

/// The numbers under which a word and its romanization are stored.
pub fn derive_serial_fields(word: &str, romanization: &str) -> (fields: SerialFields)
    ensures
        fields == serial_fields_of(word@, romanization@),
{
    let word_chars = chars_of(word);
    let roman = chars_of(romanization);
    let tone_free_text = tone_free_chars(roman.as_slice());
    let letters = letter_chars(roman.as_slice());
    let tone_free_string = crate::text::string_from_chars(tone_free_text.as_slice());
    let phones = split(tone_free_string.as_str(), ' ');
    let complexity = complexity_of_phones(&phones);
    let anchors = anchors_of_phones(&phones);
    let ghost codes = letters@.map_values(|c: char| letter_code(c));
    let mut spell: i64 = 0;
    let mut j: usize = 0;
    while j < letters.len()
        invariant
            0 <= j <= letters@.len(),
            codes == letters@.map_values(|c: char| letter_code(c)),
            letters@ == basic_letters(roman@),
            spell == wrapped_code_of(codes.take(j as int)),
        decreases letters.len() - j,
    {
        proof {
            assert(codes.take(j as int + 1).drop_last() =~= codes.take(j as int));
            assert(basic_letters(roman@).contains(letters@[j as int]));
            assert('a' <= letters@[j as int] <= 'z');
        }
        let c = letters[j];
        let code: i64 = (c as u32 - 77) as i64;
        spell = spell.wrapping_mul(100).wrapping_add(code);
        j += 1;
    }
    proof {
        assert(codes.take(j as int) =~= codes);
    }
    SerialFields {
        char_count: word_chars.len() as i64,
        letter_count: letters.len() as i64,
        complexity,
        anchors,
        spell,
    }
}


// ---------------------------------------------------------------------
// The memory table
// ---------------------------------------------------------------------

/// A learned word: its id, the word and its romanization, how often and
/// when (in milliseconds) it was last chosen, and its numbers.
pub struct MemoryEntry {
    pub id: i64,
    pub word: String,
    pub romanization: String,
    pub frequency: i64,
    pub latest: i64,
    pub fields: SerialFields,
}

/// A learned word as values.
pub struct MemoryEntryView {
    pub id: i64,
    pub word: Seq<char>,
    pub romanization: Seq<char>,
    pub frequency: i64,
    pub latest: i64,
    pub fields: SerialFields,
}

impl View for MemoryEntry {
    type V = MemoryEntryView;

    open spec fn view(&self) -> MemoryEntryView {
        MemoryEntryView {
            id: self.id,
            word: self.word@,
            romanization: self.romanization@,
            frequency: self.frequency,
            latest: self.latest,
            fields: self.fields,
        }
    }
}

pub struct InputMemory {
    prepared: bool,
    entries: Vec<MemoryEntry>,
    next_id: i64,
}

/// Whether the memory is open, the learned words in id order, and the id
/// that the next new word gets.
pub struct MemoryView {
    pub prepared: bool,
    pub entries: Seq<MemoryEntryView>,
    pub next_id: i64,
}

impl View for InputMemory {
    type V = MemoryView;

    closed spec fn view(&self) -> MemoryView {
        MemoryView {
            prepared: self.prepared,
            entries: self.entries@.map_values(|e: MemoryEntry| e@),
            next_id: self.next_id,
        }
    }
}

pub open spec fn same_word(e: MemoryEntryView, word: Seq<char>, romanization: Seq<char>) -> bool {
    e.word == word && e.romanization == romanization
}

/// Ids increase, stay below the next id, and no word is stored twice with
/// the same romanization.
pub open spec fn memory_wf(m: MemoryView) -> bool {
    &&& m.next_id >= 1
    &&& forall|a: int, b: int|
        0 <= a < b < m.entries.len() ==> #[trigger] m.entries[a].id < #[trigger] m.entries[b].id
    &&& forall|a: int| 0 <= a < m.entries.len() ==> #[trigger] m.entries[a].id < m.next_id
    &&& forall|a: int, b: int|
        0 <= a < m.entries.len() && 0 <= b < m.entries.len() && a != b ==> !same_word(
            #[trigger] m.entries[a],
            #[trigger] m.entries[b].word,
            m.entries[b].romanization,
        )
}

/// The position of the word with this romanization, if it is stored.
pub open spec fn word_index(entries: Seq<MemoryEntryView>, word: Seq<char>, romanization: Seq<char>) -> Option<int> {
    if exists|k: int| 0 <= k < entries.len() && #[trigger] same_word(entries[k], word, romanization) {
        Some(choose|k: int| 0 <= k < entries.len() && #[trigger] same_word(entries[k], word, romanization))
    } else {
        None
    }
}

/// The memory after the word was chosen at time `now`: a stored word counts
/// once more and is dated `now`; a new word is stored once, dated `now`,
/// under the next id (unless the ids are used up).
pub open spec fn handled(m: MemoryView, word: Seq<char>, romanization: Seq<char>, now: i64) -> MemoryView {
    match word_index(m.entries, word, romanization) {
        Some(k) => MemoryView {
            entries: m.entries.update(
                k,
                MemoryEntryView {
                    frequency: m.entries[k].frequency.wrapping_add(1),
                    latest: now,
                    ..m.entries[k]
                },
            ),
            ..m
        },
        None => if m.next_id < i64::MAX {
            MemoryView {
                entries: m.entries.push(
                    MemoryEntryView {
                        id: m.next_id,
                        word,
                        romanization,
                        frequency: 1,
                        latest: now,
                        fields: serial_fields_of(word, romanization),
                    },
                ),
                next_id: (m.next_id + 1) as i64,
                ..m
            }
        } else {
            m
        },
    }
}

/// The memory without the word with this romanization.
pub open spec fn forgotten(m: MemoryView, word: Seq<char>, romanization: Seq<char>) -> MemoryView {
    match word_index(m.entries, word, romanization) {
        Some(k) => MemoryView { entries: m.entries.remove(k), ..m },
        None => m,
    }
}

/// Ordering keys of learned words: frequency (most frequent first), then id.
pub open spec fn memory_keys(entries: Seq<MemoryEntryView>) -> Seq<(i64, i64)> {
    entries.map_values(|e: MemoryEntryView| (e.frequency, e.id))
}

/// `rows` are the learned words whose numbers satisfy `pred`, most frequent
/// first (then by id), at most `limit` of them when it is positive.
pub open spec fn is_memory_selection(
    entries: Seq<MemoryEntryView>,
    pred: spec_fn(SerialFields) -> bool,
    limit: i32,
    rows: Seq<(Seq<char>, Seq<char>, i64, i64)>,
) -> bool {
    exists|order: Seq<usize>|
        #[trigger] is_ordered_selection(
            memory_keys(entries),
            memory_selected(entries, pred),
            limit,
            true,
            order,
        ) && rows == order.map_values(
            |k: usize|
                (
                    entries[k as int].word,
                    entries[k as int].romanization,
                    entries[k as int].frequency,
                    entries[k as int].latest,
                ),
        )
}

/// Which learned words have numbers that satisfy `pred`.
pub open spec fn memory_selected(entries: Seq<MemoryEntryView>, pred: spec_fn(SerialFields) -> bool) -> Seq<bool> {
    entries.map_values(|e: MemoryEntryView| pred(e.fields))
}

pub open spec fn anchors_selector(anchors: i64, char_count: i64) -> spec_fn(SerialFields) -> bool {
    |f: SerialFields| f.anchors == anchors && f.char_count == char_count
}

pub open spec fn spell_selector(spell: i64, letter_count: i64, complexity: i64) -> spec_fn(
    SerialFields,
) -> bool {
    |f: SerialFields| f.spell == spell && f.letter_count == letter_count && f.complexity == complexity
}

/// A time of the system clock.
#[verifier::external_type_specification]
#[verifier::external_body]
pub struct ExSystemTime(std::time::SystemTime);

/// The current time of the system clock (`SystemTime::now`). Nothing is
/// promised of it: it is the clock's.
#[verifier::external_body]
fn system_time_now() -> std::time::SystemTime {
    std::time::SystemTime::now()
}

/// How long after the Unix epoch a time is
/// (`SystemTime::duration_since(UNIX_EPOCH)`), `None` for a time before the
/// epoch. Nothing is promised of the duration.
#[verifier::external_body]
fn duration_since_epoch(time: std::time::SystemTime) -> Option<core::time::Duration> {
    time.duration_since(std::time::UNIX_EPOCH).ok()
}

/// The whole milliseconds of a duration (`Duration::as_millis`). Nothing is
/// promised of the number.
#[verifier::external_body]
fn duration_millis(duration: core::time::Duration) -> u128 {
    duration.as_millis()
}

/// The time stamp of a clock reading: its whole milliseconds since the
/// Unix epoch as an `i64` (truncated), 0 for a reading before the epoch.
pub fn epoch_milliseconds(millis: Option<u128>) -> (stamp: i64)
    ensures
        stamp == match millis {
            Some(m) => m as i64,
            None => 0i64,
        },
{
    match millis {
        Some(m) => m as i64,
        None => 0,
    }
}

/// The current time in milliseconds since the Unix epoch, 0 when the clock
/// is before the epoch. The reading is the clock's: no clause can say which
/// it is.
fn current_time_milliseconds() -> i64 {
    let millis = match duration_since_epoch(system_time_now()) {
        Some(duration) => Some(duration_millis(duration)),
        None => None,
    };
    epoch_milliseconds(millis)
}

impl InputMemory {
    #[verifier::type_invariant]
    spec fn inv(&self) -> bool {
        memory_wf(self@)
    }

    /// A memory that is not open yet.
    pub fn new() -> (m: Self)
        ensures
            !m@.prepared,
            m@.entries.len() == 0,
    {
        let m = InputMemory { prepared: false, entries: Vec::new(), next_id: 1 };
        assert(m@.entries =~= Seq::empty());
        m
    }

    /// Opens the memory with no learned word.
    pub fn open(&mut self)
        ensures
            final(self)@.prepared,
            final(self)@.entries.len() == 0,
            final(self)@.next_id == 1,
    {
        *self = InputMemory { prepared: true, entries: Vec::new(), next_id: 1 };
        assert(self@.entries =~= Seq::empty());
    }

    pub fn is_prepared(&self) -> (r: bool)
        ensures
            r == self@.prepared,
    {
        self.prepared
    }

    /// The stored words, in id order.
    pub fn entries(&self) -> (entries: &[MemoryEntry])
        ensures
            entries@.map_values(|e: MemoryEntry| e@) == self@.entries,
    {
        self.entries.as_slice()
    }

    fn position_of(&self, word: &String, romanization: &String) -> (k: Option<usize>)
        ensures
            match k {
                Some(k) => word_index(self@.entries, word@, romanization@) == Some(k as int),
                None => word_index(self@.entries, word@, romanization@) is None,
            },
    {
        proof {
            use_type_invariant(self);
        }
        let ghost es = self@.entries;
        let mut i: usize = 0;
        while i < self.entries.len()
            invariant
                0 <= i <= self.entries@.len(),
                es == self@.entries,
                es.len() == self.entries@.len(),
                memory_wf(self@),
                forall|j: int| 0 <= j < i ==> !#[trigger] same_word(es[j], word@, romanization@),
            decreases self.entries.len() - i,
        {
            let e = &self.entries[i];
            if e.word == *word && e.romanization == *romanization {
                proof {
                    assert(es[i as int] == e@);
                    assert(same_word(es[i as int], word@, romanization@));
                    let c = choose|c: int| 0 <= c < es.len() && #[trigger] same_word(es[c], word@, romanization@);
                    assert(c == i) by {
                        if c != i {
                            assert(!same_word(es[c], es[i as int].word, es[i as int].romanization));
                        }
                    }
                }
                return Some(i);
            }
            proof {
                assert(es[i as int] == e@);
            }
            i += 1;
        }
        None
    }

    /// Brings back a stored word, as read from storage: refused (and `false`
    /// returned) unless the memory is open, the word is not stored yet, and
    /// its id is above the ids stored and below the largest id.
    pub fn restore(&mut self, entry: MemoryEntry) -> (added: bool)
        ensures
            added == (old(self)@.prepared && word_index(old(self)@.entries, entry.word@, entry.romanization@) is None
                && (old(self)@.entries.len() == 0 || old(self)@.entries.last().id < entry.id) && 1 <= entry.id < i64::MAX),
            added ==> final(self)@ == (MemoryView {
                prepared: true,
                entries: old(self)@.entries.push(entry@),
                next_id: if entry.id >= old(self)@.next_id { (entry.id + 1) as i64 } else { old(self)@.next_id },
            }),
            !added ==> final(self)@ == old(self)@,
    {
        proof {
            use_type_invariant(&*self);
        }
        if !self.prepared || entry.id < 1 || entry.id == i64::MAX {
            return false;
        }
        let n = self.entries.len();
        if n > 0 && self.entries[n - 1].id >= entry.id {
            return false;
        }
        if self.position_of(&entry.word, &entry.romanization).is_some() {
            return false;
        }
        let ghost m = self@;
        let ghost ev = entry@;
        let next_id = if entry.id >= self.next_id { entry.id + 1 } else { self.next_id };
        let mut table: Vec<MemoryEntry> = Vec::new();
        std::mem::swap(&mut table, &mut self.entries);
        table.push(entry);
        proof {
            let es = table@.map_values(|e: MemoryEntry| e@);
            assert(es =~= m.entries.push(ev));
            let k = m.entries.len() as int;
            assert forall|a: int, b: int|
                0 <= a < es.len() && 0 <= b < es.len() && a != b implies !same_word(
                #[trigger] es[a],
                #[trigger] es[b].word,
                es[b].romanization,
            ) by {
                if a < k && b < k {
                    assert(es[a] == m.entries[a]);
                    assert(es[b] == m.entries[b]);
                } else if a == k {
                    assert(es[b] == m.entries[b]);
                    if same_word(es[a], es[b].word, es[b].romanization) {
                        assert(same_word(m.entries[b], ev.word, ev.romanization));
                    }
                } else {
                    assert(es[a] == m.entries[a]);
                    assert(!same_word(m.entries[a], ev.word, ev.romanization));
                }
            }
            assert forall|a: int, b: int| 0 <= a < b < es.len() implies #[trigger] es[a].id
                < #[trigger] es[b].id by {
                if b < k {
                    assert(es[a] == m.entries[a]);
                    assert(es[b] == m.entries[b]);
                } else {
                    assert(es[a] == m.entries[a]);
                    if a < k - 1 {
                        assert(m.entries[a].id < m.entries[k - 1].id);
                    }
                }
            }
        }
        *self = InputMemory { prepared: true, entries: table, next_id };
        true
    }

    /// Records that the word with this romanization was chosen at time `now`
    /// (milliseconds). Nothing is recorded, and `false` returned, when the
    /// memory is not open or the word is not Cantonese.
    pub fn handle_at(&mut self, word: &str, romanization: &str, is_cantonese: bool, now: i64) -> (r: bool)
        ensures
            r == (old(self)@.prepared && is_cantonese),
            r ==> final(self)@ == handled(old(self)@, word@, romanization@, now),
            !r ==> final(self)@ == old(self)@,
    {
        if !self.prepared || !is_cantonese {
            return false;
        }
        proof {
            use_type_invariant(&*self);
        }
        let word_s = word.to_owned();
        let roman_s = romanization.to_owned();
        let ghost m = self@;
        match self.position_of(&word_s, &roman_s) {
            Some(k) => {
                let mut table: Vec<MemoryEntry> = Vec::new();
                std::mem::swap(&mut table, &mut self.entries);
                let e = &table[k];
                let updated = MemoryEntry {
                    id: e.id,
                    word: e.word.clone(),
                    romanization: e.romanization.clone(),
                    frequency: e.frequency.wrapping_add(1),
                    latest: now,
                    fields: e.fields,
                };
                table.set(k, updated);
                proof {
                    assert(table@.map_values(|e: MemoryEntry| e@) =~= m.entries.update(
                        k as int,
                        MemoryEntryView {
                            frequency: m.entries[k as int].frequency.wrapping_add(1),
                            latest: now,
                            ..m.entries[k as int]
                        },
                    ));
                }
                std::mem::swap(&mut table, &mut self.entries);
                true
            },
            None => {
                if self.next_id == i64::MAX {
                    return true;
                }
                let fields = derive_serial_fields(word, romanization);
                let entry = MemoryEntry {
                    id: self.next_id,
                    word: word_s,
                    romanization: roman_s,
                    frequency: 1,
                    latest: now,
                    fields,
                };
                let mut table: Vec<MemoryEntry> = Vec::new();
                std::mem::swap(&mut table, &mut self.entries);
                table.push(entry);
                proof {
                    let es = table@.map_values(|e: MemoryEntry| e@);
                    assert(es =~= m.entries.push(entry@));
                    let n = m.entries.len() as int;
                    assert forall|a: int, b: int|
                        0 <= a < es.len() && 0 <= b < es.len() && a != b implies !same_word(
                        #[trigger] es[a],
                        #[trigger] es[b].word,
                        es[b].romanization,
                    ) by {
                        if a < n && b < n {
                            assert(es[a] == m.entries[a]);
                            assert(es[b] == m.entries[b]);
                        } else if a == n {
                            assert(es[b] == m.entries[b]);
                            if same_word(es[a], es[b].word, es[b].romanization) {
                                assert(same_word(m.entries[b], word@, romanization@));
                            }
                        } else {
                            assert(es[a] == m.entries[a]);
                            assert(!same_word(m.entries[a], word@, romanization@));
                        }
                    }
                    assert forall|a: int, b: int| 0 <= a < b < es.len() implies #[trigger] es[a].id
                        < #[trigger] es[b].id by {
                        if b < n {
                            assert(es[a] == m.entries[a]);
                            assert(es[b] == m.entries[b]);
                        } else {
                            assert(es[a] == m.entries[a]);
                        }
                    }
                }
                *self = InputMemory { prepared: true, entries: table, next_id: self.next_id + 1 };
                true
            },
        }
    }

    /// Records that the word with this romanization was chosen now.
    pub fn handle(&mut self, word: &str, romanization: &str, is_cantonese: bool) -> (r: bool)
        ensures
            r == (old(self)@.prepared && is_cantonese),
            r ==> exists|now: i64| final(self)@ == handled(old(self)@, word@, romanization@, now),
            !r ==> final(self)@ == old(self)@,
    {
        let now = current_time_milliseconds();
        self.handle_at(word, romanization, is_cantonese, now)
    }

    /// Removes the word with this romanization. Nothing is removed, and
    /// `false` returned, when the memory is not open or the word is not
    /// Cantonese.
    pub fn forget(&mut self, word: &str, romanization: &str, is_cantonese: bool) -> (r: bool)
        ensures
            r == (old(self)@.prepared && is_cantonese),
            r ==> final(self)@ == forgotten(old(self)@, word@, romanization@),
            !r ==> final(self)@ == old(self)@,
    {
        if !self.prepared || !is_cantonese {
            return false;
        }
        proof {
            use_type_invariant(&*self);
        }
        let word_s = word.to_owned();
        let roman_s = romanization.to_owned();
        let ghost m = self@;
        match self.position_of(&word_s, &roman_s) {
            Some(k) => {
                let mut table: Vec<MemoryEntry> = Vec::new();
                std::mem::swap(&mut table, &mut self.entries);
                let ghost before = table@;
                let _removed = table.remove(k);
                proof {
                    assert(table@ =~= before.remove(k as int));
                    assert(table@.map_values(|e: MemoryEntry| e@) =~= m.entries.remove(k as int));
                }
                std::mem::swap(&mut table, &mut self.entries);
                true
            },
            None => true,
        }
    }

    /// Removes every learned word; `false` when the memory is not open.
    pub fn delete_all(&mut self) -> (r: bool)
        ensures
            r == old(self)@.prepared,
            r ==> final(self)@ == (MemoryView { entries: Seq::empty(), ..old(self)@ }),
            !r ==> final(self)@ == old(self)@,
    {
        if !self.prepared {
            return false;
        }
        proof {
            use_type_invariant(&*self);
        }
        let mut table: Vec<MemoryEntry> = Vec::new();
        std::mem::swap(&mut table, &mut self.entries);
        proof {
            assert(self@.entries =~= Seq::empty());
        }
        true
    }

    fn select(&self, pred_kind: bool, first: i64, second: i64, third: i64, limit: i32) -> (rows: Vec<MemoryRow>)
        ensures
            is_memory_selection(
                self@.entries,
                if pred_kind {
                    spell_selector(first, second, third)
                } else {
                    anchors_selector(first, second)
                },
                limit,
                rows@.map_values(|r: MemoryRow| r@),
            ),
    {
        proof {
            use_type_invariant(self);
        }
        let ghost es = self@.entries;
        let ghost pred = if pred_kind {
            spell_selector(first, second, third)
        } else {
            anchors_selector(first, second)
        };
        let mut keys: Vec<(i64, i64)> = Vec::new();
        let mut selected: Vec<bool> = Vec::new();
        let mut i: usize = 0;
        while i < self.entries.len()
            invariant
                0 <= i <= self.entries@.len(),
                es == self@.entries,
                es.len() == self.entries@.len(),
                keys@ =~= memory_keys(es).take(i as int),
                selected@ =~= memory_selected(es, pred).take(i as int),
                pred == (if pred_kind {
                    spell_selector(first, second, third)
                } else {
                    anchors_selector(first, second)
                }),
            decreases self.entries.len() - i,
        {
            let e = &self.entries[i];
            proof {
                assert(es[i as int] == e@);
            }
            keys.push((e.frequency, e.id));
            let f = e.fields;
            let chosen = if pred_kind {
                f.spell == first && f.letter_count == second && f.complexity == third
            } else {
                f.anchors == first && f.char_count == second
            };
            selected.push(chosen);
            i += 1;
        }
        proof {
            assert(keys@ =~= memory_keys(es));
            assert(selected@ =~= memory_selected(es, pred));
            assert forall|a: int, b: int| 0 <= a < b < keys@.len() implies keys@[a] != keys@[b] by {
                assert(es[a].id < es[b].id);
            }
        }
        let order = ordered_selection(&keys, &selected, limit, true);
        let mut rows: Vec<MemoryRow> = Vec::new();
        let mut t: usize = 0;
        let ghost target = order@.map_values(
            |k: usize| (es[k as int].word, es[k as int].romanization, es[k as int].frequency, es[k as int].latest),
        );
        while t < order.len()
            invariant
                0 <= t <= order@.len(),
                es == self@.entries,
                es.len() == self.entries@.len(),
                forall|u: int| 0 <= u < order@.len() ==> order@[u] < es.len(),
                target == order@.map_values(
                    |k: usize| (es[k as int].word, es[k as int].romanization, es[k as int].frequency, es[k as int].latest),
                ),
                rows@.map_values(|r: MemoryRow| r@) =~= target.take(t as int),
            decreases order.len() - t,
        {
            let e = &self.entries[order[t]];
            proof {
                assert(es[order@[t as int] as int] == e@);
            }
            let row = MemoryRow {
                word: e.word.clone(),
                romanization: e.romanization.clone(),
                frequency: e.frequency,
                latest: e.latest,
            };
            proof {
                assert(rows@.push(row).map_values(|r: MemoryRow| r@) =~= rows@.map_values(|r: MemoryRow| r@).push(row@));
            }
            rows.push(row);
            t += 1;
        }
        proof {
            assert(rows@.map_values(|r: MemoryRow| r@) =~= target);
        }
        rows
    }

    /// Learned words with the given anchors and character count, most
    /// frequent first, at most `limit` when it is positive.
    pub fn match_anchors(&self, anchors: i64, char_count: i64, limit: i32) -> (rows: Vec<MemoryRow>)
        ensures
            is_memory_selection(
                self@.entries,
                anchors_selector(anchors, char_count),
                limit,
                rows@.map_values(|r: MemoryRow| r@),
            ),
    {
        self.select(false, anchors, char_count, 0, limit)
    }

    /// Learned words with the given spelling number, letter count and
    /// complexity, most frequent first, at most `limit` when it is positive.
    pub fn match_spell(&self, spell: i64, letter_count: i64, complexity: i64, limit: i32) -> (rows: Vec<MemoryRow>)
        ensures
            is_memory_selection(
                self@.entries,
                spell_selector(spell, letter_count, complexity),
                limit,
                rows@.map_values(|r: MemoryRow| r@),
            ),
    {
        self.select(true, spell, letter_count, complexity, limit)
    }
}


// ---------------------------------------------------------------------
// What the memory operations promise together
// ---------------------------------------------------------------------

/// The stored entry of the word with this romanization, if any.
pub open spec fn entry_of(m: MemoryView, word: Seq<char>, romanization: Seq<char>) -> Option<MemoryEntryView> {
    match word_index(m.entries, word, romanization) {
        Some(k) => Some(m.entries[k]),
        None => None,
    }
}

proof fn lemma_word_index_unique(m: MemoryView, word: Seq<char>, romanization: Seq<char>, k: int)
    requires
        memory_wf(m),
        0 <= k < m.entries.len(),
        same_word(m.entries[k], word, romanization),
    ensures
        word_index(m.entries, word, romanization) == Some(k),
{
    let c = choose|c: int| 0 <= c < m.entries.len() && #[trigger] same_word(m.entries[c], word, romanization);
    if c != k {
        assert(!same_word(m.entries[c], m.entries[k].word, m.entries[k].romanization));
    }
}

/// Choosing a word makes it stored once more often (once, if it was new),
/// dated at the time it was chosen; no other word changes.
pub proof fn lemma_handle_counts(m: MemoryView, word: Seq<char>, romanization: Seq<char>, now: i64)
    requires
        memory_wf(m),
        entry_of(m, word, romanization) is Some || m.next_id < i64::MAX,
    ensures
        entry_of(handled(m, word, romanization, now), word, romanization) matches Some(e) && e.latest
            == now && e.frequency == match entry_of(m, word, romanization) {
            Some(old) => old.frequency.wrapping_add(1),
            None => 1,
        },
        forall|w: Seq<char>, r: Seq<char>|
            !(w == word && r == romanization) ==> #[trigger] entry_of(handled(m, word, romanization, now), w, r)
                == entry_of(m, w, r),
{
    let h = handled(m, word, romanization, now);
    match word_index(m.entries, word, romanization) {
        Some(k) => {
            assert(same_word(h.entries[k], word, romanization));
            assert(memory_wf(h)) by {
                assert forall|a: int, b: int|
                    0 <= a < h.entries.len() && 0 <= b < h.entries.len() && a != b implies !same_word(
                    #[trigger] h.entries[a],
                    #[trigger] h.entries[b].word,
                    h.entries[b].romanization,
                ) by {
                    assert(!same_word(m.entries[a], m.entries[b].word, m.entries[b].romanization));
                }
            }
            lemma_word_index_unique(h, word, romanization, k);
            assert forall|w: Seq<char>, r: Seq<char>|
                !(w == word && r == romanization) implies #[trigger] entry_of(h, w, r) == entry_of(m, w, r) by {
                match word_index(m.entries, w, r) {
                    Some(j) => {
                        assert(same_word(h.entries[j], w, r));
                        lemma_word_index_unique(h, w, r, j);
                    },
                    None => {
                        if exists|j: int| 0 <= j < h.entries.len() && #[trigger] same_word(h.entries[j], w, r) {
                            let j = choose|j: int| 0 <= j < h.entries.len() && #[trigger] same_word(h.entries[j], w, r);
                            assert(same_word(m.entries[j], w, r));
                        }
                    },
                }
            }
        },
        None => {
            let n = m.entries.len() as int;
            assert(same_word(h.entries[n], word, romanization));
            assert(memory_wf(h)) by {
                assert forall|a: int, b: int|
                    0 <= a < h.entries.len() && 0 <= b < h.entries.len() && a != b implies !same_word(
                    #[trigger] h.entries[a],
                    #[trigger] h.entries[b].word,
                    h.entries[b].romanization,
                ) by {
                    if a < n && b < n {
                        assert(!same_word(m.entries[a], m.entries[b].word, m.entries[b].romanization));
                    } else if a == n {
                        assert(!same_word(m.entries[b], word, romanization));
                    } else {
                        assert(!same_word(m.entries[a], word, romanization));
                    }
                }
                assert forall|a: int, b: int| 0 <= a < b < h.entries.len() implies #[trigger] h.entries[a].id
                    < #[trigger] h.entries[b].id by {
                    if b < n {
                        assert(m.entries[a].id < m.entries[b].id);
                    } else {
                        assert(m.entries[a].id < m.next_id);
                    }
                }
            }
            lemma_word_index_unique(h, word, romanization, n);
            assert forall|w: Seq<char>, r: Seq<char>|
                !(w == word && r == romanization) implies #[trigger] entry_of(h, w, r) == entry_of(m, w, r) by {
                match word_index(m.entries, w, r) {
                    Some(j) => {
                        assert(same_word(h.entries[j], w, r));
                        lemma_word_index_unique(h, w, r, j);
                    },
                    None => {
                        if exists|j: int| 0 <= j < h.entries.len() && #[trigger] same_word(h.entries[j], w, r) {
                            let j = choose|j: int| 0 <= j < h.entries.len() && #[trigger] same_word(h.entries[j], w, r);
                            assert(j < n);
                            assert(same_word(m.entries[j], w, r));
                        }
                    },
                }
            }
        },
    }
}

/// A forgotten word is no longer stored.
pub proof fn lemma_forget_removes(m: MemoryView, word: Seq<char>, romanization: Seq<char>)
    requires
        memory_wf(m),
    ensures
        entry_of(forgotten(m, word, romanization), word, romanization) is None,
{
    match word_index(m.entries, word, romanization) {
        Some(k) => {
            let f = forgotten(m, word, romanization);
            if exists|j: int| 0 <= j < f.entries.len() && #[trigger] same_word(f.entries[j], word, romanization) {
                let j = choose|j: int| 0 <= j < f.entries.len() && #[trigger] same_word(f.entries[j], word, romanization);
                if j < k {
                    assert(f.entries[j] == m.entries[j]);
                    assert(!same_word(m.entries[j], m.entries[k].word, m.entries[k].romanization));
                } else {
                    assert(f.entries[j] == m.entries[j + 1]);
                    assert(!same_word(m.entries[j + 1], m.entries[k].word, m.entries[k].romanization));
                }
            }
        },
        None => {},
    }
}

/// A new word that is chosen and then forgotten leaves the stored words as
/// they were.
pub proof fn lemma_handle_then_forget(m: MemoryView, word: Seq<char>, romanization: Seq<char>, now: i64)
    requires
        memory_wf(m),
        entry_of(m, word, romanization) is None,
    ensures
        forgotten(handled(m, word, romanization, now), word, romanization).entries == m.entries,
{
    if m.next_id < i64::MAX {
        let h = handled(m, word, romanization, now);
        let n = m.entries.len() as int;
        assert(same_word(h.entries[n], word, romanization));
        assert forall|j: int| 0 <= j < n implies !#[trigger] same_word(h.entries[j], word, romanization) by {
            assert(h.entries[j] == m.entries[j]);
        }
        assert(word_index(h.entries, word, romanization) == Some(n));
        assert(h.entries.remove(n) =~= m.entries);
    }
}

/// The most chosen of the learned words that a query selects comes first:
/// when one selected word has been chosen more often than every other
/// selected word, it heads the rows (a positive limit leaves room for it).
pub proof fn lemma_most_chosen_first(
    entries: Seq<MemoryEntryView>,
    pred: spec_fn(SerialFields) -> bool,
    limit: i32,
    rows: Seq<(Seq<char>, Seq<char>, i64, i64)>,
    k: int,
)
    requires
        is_memory_selection(entries, pred, limit, rows),
        limit != 0,
        entries.len() <= usize::MAX,
        0 <= k < entries.len(),
        pred(entries[k].fields),
        forall|j: int| 0 <= j < entries.len() && j != k && pred(#[trigger] entries[j].fields) ==> entries[j].frequency
            < entries[k].frequency,
    ensures
        rows.len() > 0,
        rows[0] == (entries[k].word, entries[k].romanization, entries[k].frequency, entries[k].latest),
{
    let keys = memory_keys(entries);
    let selected = memory_selected(entries, pred);
    let order = choose|order: Seq<usize>|
        #[trigger] is_ordered_selection(keys, selected, limit, true, order) && rows == order.map_values(
            |i: usize|
                (
                    entries[i as int].word,
                    entries[i as int].romanization,
                    entries[i as int].frequency,
                    entries[i as int].latest,
                ),
        );
    assert(selected[k]);
    if !order.contains(k as usize) {
        let last = order.last();
        assert(order.len() == limit);
        assert(order.len() > 0);
        assert(order[order.len() - 1] == last);
        assert(selected[last as int]);
        assert(key_before(keys[last as int], keys[k], true));
        assert(keys[last as int] == (entries[last as int].frequency, entries[last as int].id));
        assert(keys[k] == (entries[k].frequency, entries[k].id));
        assert(last as int != k);
        assert(entries[last as int].frequency < entries[k].frequency);
        assert(false);
    }
    let t = choose|t: int| 0 <= t < order.len() && order[t] == k as usize;
    if t > 0 {
        let first = order[0];
        assert(key_before(keys[order[0] as int], keys[order[t] as int], true));
        assert(keys[first as int] == (entries[first as int].frequency, entries[first as int].id));
        assert(keys[k] == (entries[k].frequency, entries[k].id));
        assert(selected[first as int]);
        assert(first as int != k);
        assert(entries[first as int].frequency < entries[k].frequency);
        assert(false);
    }
    assert(order[0] == k as usize);
}

} // verus!
