//! Character-sequence helpers shared by the settings format, the key model and
//! the lexicon queries. Text is handled as `Vec<char>` inside the library and
//! as `String`/`&str` at its edges.
use vstd::prelude::*;

verus! {

// ---------------------------------------------------------------------
// Conversions between strings and character vectors
// ---------------------------------------------------------------------

/// The characters of `s`, in order.
pub fn chars_of(s: &str) -> (v: Vec<char>)
    ensures
        v@ == s@,
{
    let mut v: Vec<char> = Vec::new();
    for c in it: s.chars()
        invariant
            v@ == it.history(),
    {
        v.push(c);
    }
    v
}

/// Appends one character to a string (`String::push`): the string's
/// characters gain `c` at the end.
#[verifier::external_body]
pub(crate) fn push_char(s: &mut String, c: char)
    ensures
        final(s)@ == old(s)@.push(c),
{
    s.push(c);
}

/// Whether `code` is a Unicode scalar value: no surrogate, at most 0x10FFFF.
pub open spec fn is_char_code(code: u32) -> bool {
    code < 0xD800 || (0xE000 <= code && code <= 0x10FFFF)
}

/// The character of a code point (`char::from_u32`): `None` for a surrogate
/// or a number beyond 0x10FFFF, as its documentation states.
#[verifier::external_body]
pub(crate) fn char_from_u32(code: u32) -> (c: Option<char>)
    ensures
        c == if is_char_code(code) { Some(code as char) } else { None },
{
    char::from_u32(code)
}

/// A string with the characters of `s`.
pub fn string_of(s: &str) -> (r: String)
    ensures
        r@ == s@,
{
    proof {
        broadcast use vstd::string::to_string_from_display_ensures_for_str;
    }
    s.to_string()
}

/// The string made of the characters of `v`.
pub fn string_from_chars(v: &[char]) -> (s: String)
    ensures
        s@ == v@,
{
    let mut s = String::new();
    let mut i: usize = 0;
    while i < v.len()
        invariant
            i <= v.len(),
            s@ == v@.take(i as int),
        decreases v.len() - i,
    {
        push_char(&mut s, v[i]);
        assert(v@.take(i + 1) =~= v@.take(i as int).push(v@[i as int]));
        i = i + 1;
    }
    assert(v@.take(v.len() as int) =~= v@);
    s
}

/// The characters of `v` followed by the characters of `tail`.
pub fn append_chars(v: &mut Vec<char>, tail: &[char])
    ensures
        final(v)@ == old(v)@ + tail@,
{
    let mut i: usize = 0;
    while i < tail.len()
        invariant
            i <= tail.len(),
            v@ == old(v)@ + tail@.take(i as int),
        decreases tail.len() - i,
    {
        v.push(tail[i]);
        assert(tail@.take(i + 1) =~= tail@.take(i as int).push(tail@[i as int]));
        i = i + 1;
    }
    assert(tail@.take(tail.len() as int) =~= tail@);
}

/// Whether two character slices hold the same characters.
pub fn chars_equal(a: &[char], b: &[char]) -> (r: bool)
    ensures
        r == (a@ == b@),
{
    if a.len() != b.len() {
        return false;
    }
    let mut i: usize = 0;
    while i < a.len()
        invariant
            a.len() == b.len(),
            i <= a.len(),
            a@.take(i as int) == b@.take(i as int),
        decreases a.len() - i,
    {
        if a[i] != b[i] {
            return false;
        }
        assert(a@.take(i + 1) =~= a@.take(i as int).push(a@[i as int]));
        assert(b@.take(i + 1) =~= b@.take(i as int).push(b@[i as int]));
        i = i + 1;
    }
    assert(a@.take(a.len() as int) =~= a@);
    assert(b@.take(b.len() as int) =~= b@);
    true
}

/// Whether `s` begins with `prefix`.
pub open spec fn has_prefix(s: Seq<char>, prefix: Seq<char>) -> bool {
    prefix.len() <= s.len() && s.take(prefix.len() as int) == prefix
}

/// Whether `s` begins with `prefix`.
pub fn starts_with_chars(s: &[char], prefix: &[char]) -> (r: bool)
    ensures
        r == has_prefix(s@, prefix@),
{
    if prefix.len() > s.len() {
        return false;
    }
    let mut i: usize = 0;
    while i < prefix.len()
        invariant
            prefix.len() <= s.len(),
            i <= prefix.len(),
            s@.take(i as int) == prefix@.take(i as int),
        decreases prefix.len() - i,
    {
        if s[i] != prefix[i] {
            assert(s@.take(prefix.len() as int)[i as int] == s@[i as int]);
            return false;
        }
        assert(s@.take(i + 1) =~= s@.take(i as int).push(s@[i as int]));
        assert(prefix@.take(i + 1) =~= prefix@.take(i as int).push(prefix@[i as int]));
        i = i + 1;
    }
    assert(prefix@.take(prefix.len() as int) =~= prefix@);
    true
}

/// The characters of `s` from index `start` to index `end`.
pub fn sub_chars(s: &[char], start: usize, end: usize) -> (r: Vec<char>)
    requires
        start <= end <= s.len(),
    ensures
        r@ == s@.subrange(start as int, end as int),
{
    let mut r: Vec<char> = Vec::new();
    let mut i: usize = start;
    while i < end
        invariant
            start <= i <= end <= s.len(),
            r@ == s@.subrange(start as int, i as int),
        decreases end - i,
    {
        r.push(s[i]);
        assert(s@.subrange(start as int, i + 1) =~= s@.subrange(start as int, i as int).push(
            s@[i as int],
        ));
        i = i + 1;
    }
    r
}

// ---------------------------------------------------------------------
// White space and trimming
// ---------------------------------------------------------------------

/// Unicode `White_Space`: the characters that `char::is_whitespace` accepts.
pub open spec fn is_white_space(c: char) -> bool {
    ||| ('\u{9}' <= c && c <= '\u{d}')
    ||| c == ' '
    ||| c == '\u{85}'
    ||| c == '\u{a0}'
    ||| c == '\u{1680}'
    ||| ('\u{2000}' <= c && c <= '\u{200a}')
    ||| c == '\u{2028}'
    ||| c == '\u{2029}'
    ||| c == '\u{202f}'
    ||| c == '\u{205f}'
    ||| c == '\u{3000}'
}

pub fn white_space(c: char) -> (r: bool)
    ensures
        r == is_white_space(c),
{
    ('\u{9}' <= c && c <= '\u{d}') || c == ' ' || c == '\u{85}' || c == '\u{a0}' || c == '\u{1680}'
        || ('\u{2000}' <= c && c <= '\u{200a}') || c == '\u{2028}' || c == '\u{2029}' || c
        == '\u{202f}' || c == '\u{205f}' || c == '\u{3000}'
}

/// `s` without its leading white space.
pub open spec fn trim_start(s: Seq<char>) -> Seq<char>
    decreases s.len(),
{
    if s.len() > 0 && is_white_space(s[0]) {
        trim_start(s.drop_first())
    } else {
        s
    }
}

/// `s` without its trailing white space.
pub open spec fn trim_end(s: Seq<char>) -> Seq<char>
    decreases s.len(),
{
    if s.len() > 0 && is_white_space(s.last()) {
        trim_end(s.drop_last())
    } else {
        s
    }
}

/// `s` without leading and trailing white space.
pub open spec fn trim(s: Seq<char>) -> Seq<char> {
    trim_end(trim_start(s))
}

/// Index of the first character of `s` that survives `trim_start`.
fn trim_start_index(s: &[char]) -> (i: usize)
    ensures
        i <= s.len(),
        trim_start(s@) == s@.skip(i as int),
{
    let mut i: usize = 0;
    assert(s@.skip(0) =~= s@);
    while i < s.len() && white_space(s[i])
        invariant
            i <= s.len(),
            trim_start(s@) == trim_start(s@.skip(i as int)),
        decreases s.len() - i,
    {
        assert(s@.skip(i as int).drop_first() =~= s@.skip(i + 1));
        i = i + 1;
    }
    i
}

/// Number of characters of `s` that survive `trim_end`.
fn trim_end_index(s: &[char]) -> (i: usize)
    ensures
        i <= s.len(),
        trim_end(s@) == s@.take(i as int),
{
    let mut i: usize = s.len();
    assert(s@.take(s.len() as int) =~= s@);
    while i > 0 && white_space(s[i - 1])
        invariant
            i <= s.len(),
            trim_end(s@) == trim_end(s@.take(i as int)),
        decreases i,
    {
        assert(s@.take(i as int).drop_last() =~= s@.take(i - 1));
        i = i - 1;
    }
    i
}

pub fn trim_start_chars(s: &[char]) -> (r: Vec<char>)
    ensures
        r@ == trim_start(s@),
{
    let i = trim_start_index(s);
    sub_chars(s, i, s.len())
}

pub fn trim_end_chars(s: &[char]) -> (r: Vec<char>)
    ensures
        r@ == trim_end(s@),
{
    let i = trim_end_index(s);
    sub_chars(s, 0, i)
}

pub fn trim_chars(s: &[char]) -> (r: Vec<char>)
    ensures
        r@ == trim(s@),
{
    let t = trim_start_chars(s);
    trim_end_chars(&t)
}

// ---------------------------------------------------------------------
// ASCII case
// ---------------------------------------------------------------------

pub open spec fn ascii_lower_char(c: char) -> char {
    if 'A' <= c && c <= 'Z' {
        ((c as u32) + 32) as char
    } else {
        c
    }
}

/// `s` with ASCII upper-case letters turned to lower case.
pub open spec fn ascii_lower(s: Seq<char>) -> Seq<char> {
    s.map_values(|c: char| ascii_lower_char(c))
}

pub fn lower_char(c: char) -> (r: char)
    ensures
        r == ascii_lower_char(c),
{
    if 'A' <= c && c <= 'Z' {
        let code: u32 = (c as u32) + 32;
        char_from_ascii(code)
    } else {
        c
    }
}

/// The ASCII character with the given code.
pub fn char_from_ascii(code: u32) -> (c: char)
    requires
        code < 128,
    ensures
        c == code as char,
{
    (code as u8) as char
}

pub fn ascii_lower_chars(s: &[char]) -> (r: Vec<char>)
    ensures
        r@ == ascii_lower(s@),
{
    let mut r: Vec<char> = Vec::new();
    let mut i: usize = 0;
    while i < s.len()
        invariant
            i <= s.len(),
            r@ == ascii_lower(s@.take(i as int)),
        decreases s.len() - i,
    {
        r.push(lower_char(s[i]));
        assert(ascii_lower(s@.take(i + 1)) =~= ascii_lower(s@.take(i as int)).push(
            ascii_lower_char(s@[i as int]),
        ));
        i = i + 1;
    }
    assert(s@.take(s.len() as int) =~= s@);
    r
}

// ---------------------------------------------------------------------
// Splitting and replacing
// ---------------------------------------------------------------------

/// The parts of `s` between occurrences of `sep`, empty parts included
/// (`str::split` with a character pattern).
pub open spec fn split_char(s: Seq<char>, sep: char) -> Seq<Seq<char>>
    decreases s.len(),
{
    if s.len() == 0 {
        seq![Seq::<char>::empty()]
    } else {
        let init = split_char(s.drop_last(), sep);
        if s.last() == sep {
            init.push(Seq::<char>::empty())
        } else {
            init.update(init.len() - 1, init.last().push(s.last()))
        }
    }
}

pub proof fn lemma_split_char_nonempty(s: Seq<char>, sep: char)
    ensures
        split_char(s, sep).len() >= 1,
    decreases s.len(),
{
    if s.len() > 0 {
        lemma_split_char_nonempty(s.drop_last(), sep);
    }
}

/// The character sequences held by a vector of character vectors.
pub open spec fn char_seqs(v: Seq<Vec<char>>) -> Seq<Seq<char>> {
    v.map_values(|x: Vec<char>| x@)
}

/// The parts of `s` between occurrences of `sep`, empty parts included.
pub fn split_chars(s: &[char], sep: char) -> (parts: Vec<Vec<char>>)
    ensures
        char_seqs(parts@) == split_char(s@, sep),
{
    let mut parts: Vec<Vec<char>> = Vec::new();
    let mut current: Vec<char> = Vec::new();
    let mut i: usize = 0;
    assert(s@.take(0) =~= Seq::<char>::empty());
    while i < s.len()
        invariant
            i <= s.len(),
            split_char(s@.take(i as int), sep) == char_seqs(parts@).push(current@),
        decreases s.len() - i,
    {
        let c = s[i];
        let ghost before = s@.take(i as int);
        let ghost old_parts = char_seqs(parts@);
        let ghost old_current = current@;
        assert(s@.take(i + 1).drop_last() =~= before);
        assert(s@.take(i + 1).last() == c);
        if c == sep {
            let finished = current;
            parts.push(finished);
            current = Vec::new();
            assert(char_seqs(parts@) =~= old_parts.push(old_current));
        } else {
            current.push(c);
            assert(old_parts.push(old_current).update(old_parts.len() as int, old_current.push(c))
                =~= old_parts.push(current@));
        }
        proof {
            lemma_split_char_nonempty(before, sep);
        }
        assert(split_char(s@.take(i + 1), sep) =~= char_seqs(parts@).push(current@));
        i = i + 1;
    }
    assert(s@.take(s.len() as int) =~= s@);
    let ghost old_parts = char_seqs(parts@);
    parts.push(current);
    assert(char_seqs(parts@) =~= old_parts.push(current@));
    parts
}

/// `s` with every occurrence of `pattern`, scanned left to right without
/// overlap, replaced by `replacement` (`str::replace`).
pub open spec fn replace_all(s: Seq<char>, pattern: Seq<char>, replacement: Seq<char>) -> Seq<char>
    decreases s.len(),
{
    if pattern.len() == 0 || s.len() < pattern.len() {
        s
    } else if s.take(pattern.len() as int) == pattern {
        replacement + replace_all(s.skip(pattern.len() as int), pattern, replacement)
    } else {
        seq![s[0]] + replace_all(s.skip(1), pattern, replacement)
    }
}

pub fn replace_chars(s: &[char], pattern: &[char], replacement: &[char]) -> (r: Vec<char>)
    requires
        pattern.len() > 0,
    ensures
        r@ == replace_all(s@, pattern@, replacement@),
{
    let mut r: Vec<char> = Vec::new();
    let mut i: usize = 0;
    assert(s@.skip(0) =~= s@);
    while i < s.len()
        invariant
            pattern.len() > 0,
            i <= s.len(),
            replace_all(s@, pattern@, replacement@) == r@ + replace_all(
                s@.skip(i as int),
                pattern@,
                replacement@,
            ),
        decreases s.len() - i,
    {
        let rest = sub_chars(s, i, s.len());
        assert(rest@ =~= s@.skip(i as int));
        let ghost old_r = r@;
        if starts_with_chars(&rest, pattern) {
            append_chars(&mut r, replacement);
            assert(s@.skip(i as int).skip(pattern.len() as int) =~= s@.skip(i + pattern.len()));
            assert(old_r + (replacement@ + replace_all(s@.skip(i + pattern.len()), pattern@, replacement@))
                =~= r@ + replace_all(s@.skip(i + pattern.len()), pattern@, replacement@));
            i = i + pattern.len();
        } else {
            r.push(s[i]);
            assert(s@.skip(i as int).skip(1) =~= s@.skip(i + 1));
            assert(old_r + (seq![s@[i as int]] + replace_all(s@.skip(i + 1), pattern@, replacement@))
                =~= r@ + replace_all(s@.skip(i + 1), pattern@, replacement@));
            assert(s@.skip(i as int)[0] == s@[i as int]);
            i = i + 1;
        }
    }
    assert(s@.skip(s.len() as int) =~= Seq::<char>::empty());
    assert(r@ + Seq::<char>::empty() =~= r@);
    r
}

} // verus!

verus! {

// ---------------------------------------------------------------------
// Numbers in text
// ---------------------------------------------------------------------

/// Value of a digit in base 10 or 16 (letters of either case), or -1.
pub open spec fn digit_value(c: char, radix: int) -> int {
    if '0' <= c && c <= '9' {
        (c as int) - ('0' as int)
    } else if radix == 16 && 'a' <= c && c <= 'f' {
        (c as int) - ('a' as int) + 10
    } else if radix == 16 && 'A' <= c && c <= 'F' {
        (c as int) - ('A' as int) + 10
    } else {
        -1
    }
}

pub open spec fn all_digits(s: Seq<char>, radix: int) -> bool {
    forall|i: int| 0 <= i < s.len() ==> digit_value(#[trigger] s[i], radix) >= 0
}

/// The number that the digits `s` denote in base `radix`.
pub open spec fn digits_value(s: Seq<char>, radix: int) -> int
    decreases s.len(),
{
    if s.len() == 0 {
        0
    } else {
        digits_value(s.drop_last(), radix) * radix + digit_value(s.last(), radix)
    }
}

/// `u32` parsing in base 10 or 16 (`str::parse::<u32>`, `u32::from_str_radix`):
/// an optional `+`, then at least one digit, and a value that fits.
pub open spec fn parse_unsigned(s: Seq<char>, radix: int) -> Option<u32> {
    let t = if s.len() > 0 && s[0] == '+' {
        s.drop_first()
    } else {
        s
    };
    if t.len() > 0 && all_digits(t, radix) && digits_value(t, radix) <= u32::MAX {
        Some(digits_value(t, radix) as u32)
    } else {
        None
    }
}

proof fn lemma_digits_value_grows(s: Seq<char>, radix: int, i: int)
    requires
        0 <= i <= s.len(),
        radix == 10 || radix == 16,
        all_digits(s, radix),
    ensures
        digits_value(s, radix) >= digits_value(s.take(i), radix) >= 0,
    decreases s.len(),
{
    if s.len() > 0 {
        assert(all_digits(s.drop_last(), radix)) by {
            assert forall|k: int| 0 <= k < s.drop_last().len() implies digit_value(
                #[trigger] s.drop_last()[k],
                radix,
            ) >= 0 by {
                assert(s.drop_last()[k] == s[k]);
            }
        }
        assert(digit_value(s[s.len() - 1], radix) >= 0);
        if i == s.len() {
            assert(s.take(i) =~= s);
            lemma_digits_value_grows(s.drop_last(), radix, 0);
        } else {
            assert(s.drop_last().take(i) =~= s.take(i));
            lemma_digits_value_grows(s.drop_last(), radix, i);
        }
        assert(digits_value(s.drop_last(), radix) * radix >= digits_value(s.drop_last(), radix))
            by (nonlinear_arith)
            requires
                digits_value(s.drop_last(), radix) >= 0,
                radix >= 1,
        ;
    }
}

fn digit_of(c: char, radix: u32) -> (d: i32)
    requires
        radix == 10 || radix == 16,
    ensures
        d == digit_value(c, radix as int),
{
    if '0' <= c && c <= '9' {
        (c as u32 - '0' as u32) as i32
    } else if radix == 16 && 'a' <= c && c <= 'f' {
        (c as u32 - 'a' as u32 + 10) as i32
    } else if radix == 16 && 'A' <= c && c <= 'F' {
        (c as u32 - 'A' as u32 + 10) as i32
    } else {
        -1
    }
}

/// Parses an unsigned 32-bit number in base 10 or 16.
pub fn parse_unsigned_chars(s: &[char], radix: u32) -> (r: Option<u32>)
    requires
        radix == 10 || radix == 16,
    ensures
        r == parse_unsigned(s@, radix as int),
{
    let start: usize = if s.len() > 0 && s[0] == '+' {
        1
    } else {
        0
    };
    let ghost t = if s@.len() > 0 && s@[0] == '+' {
        s@.drop_first()
    } else {
        s@
    };
    assert(t =~= s@.skip(start as int));
    if start == s.len() {
        return None;
    }
    let mut value: u64 = 0;
    let mut i: usize = start;
    assert(s@.subrange(start as int, start as int) =~= Seq::<char>::empty());
    while i < s.len()
        invariant
            radix == 10 || radix == 16,
            start <= i <= s.len(),
            t =~= s@.skip(start as int),
            t == (if s@.len() > 0 && s@[0] == '+' {
                s@.drop_first()
            } else {
                s@
            }),
            all_digits(s@.subrange(start as int, i as int), radix as int),
            value == digits_value(s@.subrange(start as int, i as int), radix as int),
            value <= u32::MAX,
        decreases s.len() - i,
    {
        let d = digit_of(s[i], radix);
        let ghost prefix = s@.subrange(start as int, i + 1);
        assert(prefix.drop_last() =~= s@.subrange(start as int, i as int));
        assert(prefix.last() == s@[i as int]);
        if d < 0 {
            assert(t[i - start] == s@[i as int]);
            assert(!all_digits(t, radix as int));
            return None;
        }
        assert(all_digits(prefix, radix as int)) by {
            assert forall|k: int| 0 <= k < prefix.len() implies digit_value(
                #[trigger] prefix[k],
                radix as int,
            ) >= 0 by {
                if k < prefix.len() - 1 {
                    assert(prefix[k] == s@.subrange(start as int, i as int)[k]);
                }
            }
        }
        assert(d < 16);
        assert(value * (radix as u64) <= 0xFFFF_FFFFu64 * 16) by (nonlinear_arith)
            requires
                value <= 0xFFFF_FFFFu64,
                radix <= 16,
        ;
        let next: u64 = value * (radix as u64) + (d as u64);
        assert(next == digits_value(prefix, radix as int));
        if next > 0xFFFF_FFFF {
            proof {
                if all_digits(t, radix as int) {
                    assert(t.take(prefix.len() as int) =~= prefix);
                    lemma_digits_value_grows(t, radix as int, prefix.len() as int);
                }
            }
            return None;
        }
        value = next;
        i = i + 1;
    }
    assert(s@.subrange(start as int, s.len() as int) =~= t);
    Some(value as u32)
}

/// Decimal digits of `n`, without leading zeros.
pub open spec fn decimal_text(n: nat) -> Seq<char>
    decreases n,
{
    if n < 10 {
        seq![(('0' as nat) + n) as char]
    } else {
        decimal_text(n / 10).push((('0' as nat) + n % 10) as char)
    }
}

/// Writes `n` in decimal.
pub fn decimal_chars(n: u32) -> (r: Vec<char>)
    ensures
        r@ == decimal_text(n as nat),
    decreases n,
{
    if n < 10 {
        let mut r = Vec::new();
        r.push(char_from_ascii(48 + n));
        r
    } else {
        let mut r = decimal_chars(n / 10);
        r.push(char_from_ascii(48 + n % 10));
        r
    }
}

/// Writes a count in decimal.
pub fn decimal_chars_usize(n: usize) -> (r: Vec<char>)
    ensures
        r@ == decimal_text(n as nat),
    decreases n,
{
    if n < 10 {
        let mut r = Vec::new();
        r.push(char_from_ascii(48 + n as u32));
        r
    } else {
        let mut r = decimal_chars_usize(n / 10);
        r.push(char_from_ascii(48 + (n % 10) as u32));
        r
    }
}

/// Upper-case hexadecimal digit.
pub open spec fn hex_upper_digit(d: nat) -> char {
    if d < 10 {
        (('0' as nat) + d) as char
    } else {
        (('A' as nat) + d - 10) as char
    }
}

/// Lower-case hexadecimal digit.
pub open spec fn hex_lower_digit(d: nat) -> char {
    if d < 10 {
        (('0' as nat) + d) as char
    } else {
        (('a' as nat) + d - 10) as char
    }
}

/// Two upper-case hexadecimal digits of a byte (`{:02X}`).
pub open spec fn hex_byte_upper(b: nat) -> Seq<char> {
    seq![hex_upper_digit(b / 16), hex_upper_digit(b % 16)]
}

/// Lower-case hexadecimal digits of `n`, without leading zeros (`{:x}`).
pub open spec fn hex_lower_text(n: nat) -> Seq<char>
    decreases n,
{
    if n < 16 {
        seq![hex_lower_digit(n)]
    } else {
        hex_lower_text(n / 16).push(hex_lower_digit(n % 16))
    }
}

fn hex_digit_char(d: u32, upper: bool) -> (c: char)
    requires
        d < 16,
    ensures
        upper ==> c == hex_upper_digit(d as nat),
        !upper ==> c == hex_lower_digit(d as nat),
{
    if d < 10 {
        char_from_ascii(48 + d)
    } else if upper {
        char_from_ascii(55 + d)
    } else {
        char_from_ascii(87 + d)
    }
}

pub fn hex_byte_upper_chars(b: u32) -> (r: Vec<char>)
    requires
        b < 256,
    ensures
        r@ == hex_byte_upper(b as nat),
{
    let mut r = Vec::new();
    r.push(hex_digit_char(b / 16, true));
    r.push(hex_digit_char(b % 16, true));
    assert(r@ =~= hex_byte_upper(b as nat));
    r
}

pub fn hex_lower_chars(n: u32) -> (r: Vec<char>)
    ensures
        r@ == hex_lower_text(n as nat),
    decreases n,
{
    if n < 16 {
        let mut r = Vec::new();
        r.push(hex_digit_char(n, false));
        r
    } else {
        let mut r = hex_lower_chars(n / 16);
        r.push(hex_digit_char(n % 16, false));
        r
    }
}

} // verus!
