//! The keys that take part in Jyutping input: the letters, the apostrophe
//! that separates syllables, the digits that mark tones and the grave accent
//! that starts a reverse lookup. Each has its virtual-key code, the character
//! it types and an input code; a letter's input code is 20 for `a` up to 45
//! for `z`, and a key sequence is numbered by writing the codes of its keys
//! as base-100 digits.
use vstd::prelude::*;

verus! {

pub const VK_APOSTROPHE: u32 = 0xDE;

pub const VK_GRAVE: u32 = 0xC0;

/// Input code of the apostrophe.
pub const APOSTROPHE_CODE: i64 = 46;

/// Input code of the grave accent.
pub const GRAVE_CODE: i64 = 47;

#[derive(Clone, Copy, PartialEq, Eq, Structural, Debug)]
pub struct VirtualInputKey {
    pub key_code: u32,
    pub code: i64,
    pub character: char,
}

/// The ways to look up a word by something other than its Jyutping.
#[derive(Clone, Copy, PartialEq, Eq, Structural, Debug)]
pub enum ReverseLookupMethod {
    Nothing,
    Pinyin,
    Cangjie,
    Stroke,
    Structure,
}

/// The letter key with index `i` (0 for `a`).
pub open spec fn letter_key(i: int) -> VirtualInputKey {
    VirtualInputKey {
        key_code: (0x41 + i) as u32,
        code: (20 + i) as i64,
        character: (97 + i) as char,
    }
}

/// The digit key for `d`.
pub open spec fn digit_key(d: int) -> VirtualInputKey {
    VirtualInputKey { key_code: (0x30 + d) as u32, code: (10 + d) as i64, character: (48 + d) as char }
}

pub open spec fn apostrophe_key() -> VirtualInputKey {
    VirtualInputKey { key_code: VK_APOSTROPHE, code: APOSTROPHE_CODE, character: '\'' }
}

pub open spec fn grave_key() -> VirtualInputKey {
    VirtualInputKey { key_code: VK_GRAVE, code: GRAVE_CODE, character: '`' }
}

/// The key that a virtual-key code stands for, if it is an input key.
pub open spec fn key_for_key_code(code: u32) -> Option<VirtualInputKey> {
    if 0x41 <= code <= 0x5A {
        Some(letter_key(code - 0x41))
    } else if 0x30 <= code <= 0x39 {
        Some(digit_key(code - 0x30))
    } else if code == VK_APOSTROPHE {
        Some(apostrophe_key())
    } else if code == VK_GRAVE {
        Some(grave_key())
    } else {
        None
    }
}

/// The key that types a character, if it is an input key.
pub open spec fn key_for_character(c: char) -> Option<VirtualInputKey> {
    if 'a' <= c <= 'z' {
        Some(letter_key(c as int - 97))
    } else if '0' <= c <= '9' {
        Some(digit_key(c as int - 48))
    } else if c == '\'' {
        Some(apostrophe_key())
    } else if c == '`' {
        Some(grave_key())
    } else {
        None
    }
}

impl VirtualInputKey {
    pub fn for_key_code(code: u32) -> (key: Option<VirtualInputKey>)
        ensures
            key == key_for_key_code(code),
    {
        if 0x41 <= code && code <= 0x5A {
            let i = code - 0x41;
            Some(
                VirtualInputKey {
                    key_code: code,
                    code: 20 + i as i64,
                    character: char_of_code(97 + i),
                },
            )
        } else if 0x30 <= code && code <= 0x39 {
            let d = code - 0x30;
            Some(VirtualInputKey { key_code: code, code: 10 + d as i64, character: char_of_code(48 + d) })
        } else if code == VK_APOSTROPHE {
            Some(VirtualInputKey { key_code: VK_APOSTROPHE, code: APOSTROPHE_CODE, character: '\'' })
        } else if code == VK_GRAVE {
            Some(VirtualInputKey { key_code: VK_GRAVE, code: GRAVE_CODE, character: '`' })
        } else {
            None
        }
    }

    pub fn for_character(c: char) -> (key: Option<VirtualInputKey>)
        ensures
            key == key_for_character(c),
    {
        if 'a' <= c && c <= 'z' {
            let i = (c as u32) - 97;
            Some(VirtualInputKey { key_code: 0x41 + i, code: 20 + i as i64, character: c })
        } else if '0' <= c && c <= '9' {
            let d = (c as u32) - 48;
            Some(VirtualInputKey { key_code: 0x30 + d, code: 10 + d as i64, character: c })
        } else if c == '\'' {
            Some(VirtualInputKey { key_code: VK_APOSTROPHE, code: APOSTROPHE_CODE, character: '\'' })
        } else if c == '`' {
            Some(VirtualInputKey { key_code: VK_GRAVE, code: GRAVE_CODE, character: '`' })
        } else {
            None
        }
    }

    /// Whether a virtual-key code is one of the letter keys.
    pub fn is_matched_letter(code: u32) -> (r: bool)
        ensures
            r == (0x41 <= code <= 0x5A),
    {
        0x41 <= code && code <= 0x5A
    }

    pub fn is_letter(&self) -> (r: bool)
        ensures
            r == ('a' <= self.character <= 'z'),
    {
        'a' <= self.character && self.character <= 'z'
    }

    pub fn is_apostrophe(&self) -> (r: bool)
        ensures
            r == (self.character == '\''),
    {
        self.character == '\''
    }

    /// A digit that marks one of the six Jyutping tones.
    pub fn is_tone_number(&self) -> (r: bool)
        ensures
            r == ('1' <= self.character <= '6'),
    {
        '1' <= self.character && self.character <= '6'
    }
}

/// The reverse-lookup method a first key starts: "`" Mandarin pinyin, `v`
/// Cangjie, `x` strokes, `q` structure (none of them begins a Jyutping
/// syllable); any other key starts none.
pub open spec fn method_of_first_key(key: VirtualInputKey) -> ReverseLookupMethod {
    if key.character == '`' {
        ReverseLookupMethod::Pinyin
    } else if key.character == 'v' {
        ReverseLookupMethod::Cangjie
    } else if key.character == 'x' {
        ReverseLookupMethod::Stroke
    } else if key.character == 'q' {
        ReverseLookupMethod::Structure
    } else {
        ReverseLookupMethod::Nothing
    }
}

/// The reverse-lookup method of an input: the one its first key starts.
pub open spec fn method_of_keys(keys: Seq<VirtualInputKey>) -> ReverseLookupMethod {
    if keys.len() == 0 {
        ReverseLookupMethod::Nothing
    } else {
        method_of_first_key(keys[0])
    }
}

impl ReverseLookupMethod {
    /// The reverse-lookup method a first key starts.
    pub fn from_first_key(key: VirtualInputKey) -> (method: ReverseLookupMethod)
        ensures
            method == method_of_first_key(key),
    {
        if key.character == '`' {
            ReverseLookupMethod::Pinyin
        } else if key.character == 'v' {
            ReverseLookupMethod::Cangjie
        } else if key.character == 'x' {
            ReverseLookupMethod::Stroke
        } else if key.character == 'q' {
            ReverseLookupMethod::Structure
        } else {
            ReverseLookupMethod::Nothing
        }
    }
}

/// The reverse-lookup method of an input.
pub fn reverse_lookup_method_from_keys(keys: &[VirtualInputKey]) -> (method: ReverseLookupMethod)
    ensures
        method == method_of_keys(keys@),
{
    if keys.len() == 0 {
        ReverseLookupMethod::Nothing
    } else {
        ReverseLookupMethod::from_first_key(keys[0])
    }
}

/// Whether a method is Mandarin pinyin or structure, whose queries are
/// letters.
pub fn is_pinyin_or_structure(method: ReverseLookupMethod) -> (r: bool)
    ensures
        r == (method == ReverseLookupMethod::Pinyin || method == ReverseLookupMethod::Structure),
{
    method == ReverseLookupMethod::Pinyin || method == ReverseLookupMethod::Structure
}

/// The keys a reverse lookup queries: all but the first key that chose the
/// method; none for an input that is no reverse lookup.
pub fn reverse_lookup_query_keys(keys: &[VirtualInputKey]) -> (query: Vec<VirtualInputKey>)
    ensures
        query@ == if keys@.len() == 0 || method_of_keys(keys@) == ReverseLookupMethod::Nothing {
            Seq::empty()
        } else {
            keys@.skip(1)
        },
{
    let mut query: Vec<VirtualInputKey> = Vec::new();
    if keys.len() == 0 || reverse_lookup_method_from_keys(keys) == ReverseLookupMethod::Nothing {
        return query;
    }
    let mut i: usize = 1;
    while i < keys.len()
        invariant
            1 <= i <= keys@.len(),
            query@ == keys@.subrange(1, i as int),
        decreases keys.len() - i,
    {
        query.push(keys[i]);
        assert(keys@.subrange(1, i + 1) =~= keys@.subrange(1, i as int).push(keys@[i as int]));
        i += 1;
    }
    assert(keys@.subrange(1, keys@.len() as int) =~= keys@.skip(1));
    query
}

/// The character with the given ASCII code.
fn char_of_code(n: u32) -> (c: char)
    requires
        n < 128,
    ensures
        c == n as char,
{
    let b: u8 = n as u8;
    b as char
}

/// The number of a key sequence: its input codes as base-100 digits.
pub open spec fn combined_code_of(codes: Seq<i64>) -> int
    decreases codes.len(),
{
    if codes.len() == 0 {
        0
    } else {
        combined_code_of(codes.drop_last()) * 100 + codes.last()
    }
}

/// The input codes of keys.
pub open spec fn key_codes(keys: Seq<VirtualInputKey>) -> Seq<i64> {
    keys.map_values(|k: VirtualInputKey| k.code)
}

/// Whether each code is an input code (a two-digit number).
pub open spec fn codes_in_range(codes: Seq<i64>) -> bool {
    forall|i: int| 0 <= i < codes.len() ==> 0 <= #[trigger] codes[i] < 100
}

pub proof fn lemma_combined_code_bound(codes: Seq<i64>)
    requires
        codes_in_range(codes),
    ensures
        0 <= combined_code_of(codes),
        combined_code_of(codes) < pow100(codes.len()),
    decreases codes.len(),
{
    if codes.len() > 0 {
        lemma_combined_code_bound(codes.drop_last());
        let p = pow100(codes.drop_last().len());
        let c = combined_code_of(codes.drop_last());
        assert(c * 100 + codes.last() < p * 100) by (nonlinear_arith)
            requires
                c < p,
                0 <= codes.last() < 100,
        ;
        assert(c * 100 >= 0) by (nonlinear_arith)
            requires
                c >= 0,
        ;
    }
}

/// `100` to the power `n`.
pub open spec fn pow100(n: nat) -> int
    decreases n,
{
    if n == 0 {
        1
    } else {
        pow100((n - 1) as nat) * 100
    }
}

pub proof fn lemma_pow100_monotone(a: nat, b: nat)
    requires
        a <= b,
    ensures
        pow100(a) <= pow100(b),
        pow100(a) >= 1,
    decreases b,
{
    if a < b {
        lemma_pow100_monotone(a, (b - 1) as nat);
    } else if a > 0 {
        lemma_pow100_monotone((a - 1) as nat, (a - 1) as nat);
    }
}

/// The number of a key sequence of at most nine input keys.
pub fn combined_code(keys: &[VirtualInputKey]) -> (code: i64)
    requires
        keys@.len() <= 9,
        codes_in_range(key_codes(keys@)),
    ensures
        code == combined_code_of(key_codes(keys@)),
{
    let mut code: i64 = 0;
    let mut i: usize = 0;
    while i < keys.len()
        invariant
            0 <= i <= keys@.len() <= 9,
            codes_in_range(key_codes(keys@)),
            code == combined_code_of(key_codes(keys@).take(i as int)),
        decreases keys.len() - i,
    {
        let ghost prefix = key_codes(keys@).take(i as int + 1);
        proof {
            assert(prefix.drop_last() =~= key_codes(keys@).take(i as int));
            assert(codes_in_range(prefix));
            lemma_combined_code_bound(prefix);
            lemma_pow100_monotone(prefix.len(), 9);
            reveal_with_fuel(pow100, 10);
            assert(pow100(9) == 1_000_000_000_000_000_000);
        }
        code = code * 100 + keys[i].code;
        i += 1;
    }
    proof {
        assert(key_codes(keys@).take(i as int) =~= key_codes(keys@));
    }
    code
}


/// The keys from index `start` to index `end`.
pub fn sub_keys(keys: &[VirtualInputKey], start: usize, end: usize) -> (r: Vec<VirtualInputKey>)
    requires
        start <= end <= keys@.len(),
    ensures
        r@ == keys@.subrange(start as int, end as int),
{
    let mut r: Vec<VirtualInputKey> = Vec::new();
    let mut i: usize = start;
    while i < end
        invariant
            start <= i <= end <= keys@.len(),
            r@ == keys@.subrange(start as int, i as int),
        decreases end - i,
    {
        r.push(keys[i]);
        assert(keys@.subrange(start as int, i + 1) =~= keys@.subrange(start as int, i as int).push(keys@[i as int]));
        i += 1;
    }
    r
}

} // verus!
