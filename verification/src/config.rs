//! The settings file: a small line-oriented `key = value` format with
//! quoted strings, integers, colors and hotkey lists, its reading and its
//! canonical writing.
use vstd::prelude::*;

use crate::settings::{
    candidate_font_size_from_raw, candidate_page_size_from_raw, clamped, default_settings_model,
    CharacterForm, CharacterVariant, ImeSettings, InputMethodMode, PunctuationForm, SettingsModel,
    MAXIMUM_CANDIDATE_FONT_SIZE, MAXIMUM_CANDIDATE_PAGE_SIZE, MINIMUM_CANDIDATE_FONT_SIZE,
    MINIMUM_CANDIDATE_PAGE_SIZE, TF_MOD_ALT, TF_MOD_CONTROL, TF_MOD_SHIFT,
};
use crate::text::{
    all_digits, append_chars, ascii_lower, digit_value, digits_value, trim_start, ascii_lower_chars, char_from_ascii, char_seqs, decimal_chars,
    decimal_text, hex_lower_chars, hex_lower_text, lemma_split_char_nonempty, chars_equal, chars_of, has_prefix, hex_byte_upper, hex_byte_upper_chars, hex_upper_digit,
    is_white_space, parse_unsigned, parse_unsigned_chars, replace_all, replace_chars, split_char,
    split_chars, starts_with_chars, string_from_chars, sub_chars, trim, trim_chars, trim_end,
    trim_end_chars,
};

verus! {

// ---------------------------------------------------------------------
// Names of the enumerated settings
// ---------------------------------------------------------------------

/// The name under which a input method mode is written.
pub open spec fn input_method_mode_text(value: InputMethodMode) -> Seq<char> {
    match value {
        InputMethodMode::Cantonese => seq!['c', 'a', 'n', 't', 'o', 'n', 'e', 's', 'e'],
        InputMethodMode::Abc => seq!['a', 'b', 'c'],
    }
}

/// The input method mode that a name denotes, if any.
pub open spec fn input_method_mode_named(name: Seq<char>) -> Option<InputMethodMode> {
    if name == seq!['c', 'a', 'n', 't', 'o', 'n', 'e', 's', 'e'] {
        Some(InputMethodMode::Cantonese)
    } else if name == seq!['a', 'b', 'c'] {
        Some(InputMethodMode::Abc)
    } else {
        None
    }
}

pub fn input_method_mode_name(value: InputMethodMode) -> (name: &'static str)
    ensures
        name@ == input_method_mode_text(value),
{
    match value {
        InputMethodMode::Cantonese => {
            proof {
                reveal_strlit("cantonese");
            }
            "cantonese"
        },
        InputMethodMode::Abc => {
            proof {
                reveal_strlit("abc");
            }
            "abc"
        },
    }
}

pub fn input_method_mode_from_name(name: &str) -> (value: Option<InputMethodMode>)
    ensures
        value == input_method_mode_named(name@),
{
    let n = chars_of(name);
    input_method_mode_from_chars(&n)
}

fn input_method_mode_from_chars(n: &[char]) -> (value: Option<InputMethodMode>)
    ensures
        value == input_method_mode_named(n@),
{
    if chars_equal(n, &['c', 'a', 'n', 't', 'o', 'n', 'e', 's', 'e']) {
        Some(InputMethodMode::Cantonese)
    } else if chars_equal(n, &['a', 'b', 'c']) {
        Some(InputMethodMode::Abc)
    } else {
        None
    }
}

/// The name under which a character form is written.
pub open spec fn character_form_text(value: CharacterForm) -> Seq<char> {
    match value {
        CharacterForm::HalfWidth => seq!['h', 'a', 'l', 'f'],
        CharacterForm::FullWidth => seq!['f', 'u', 'l', 'l'],
    }
}

/// The character form that a name denotes, if any.
pub open spec fn character_form_named(name: Seq<char>) -> Option<CharacterForm> {
    if name == seq!['h', 'a', 'l', 'f'] {
        Some(CharacterForm::HalfWidth)
    } else if name == seq!['f', 'u', 'l', 'l'] {
        Some(CharacterForm::FullWidth)
    } else {
        None
    }
}

pub fn character_form_name(value: CharacterForm) -> (name: &'static str)
    ensures
        name@ == character_form_text(value),
{
    match value {
        CharacterForm::HalfWidth => {
            proof {
                reveal_strlit("half");
            }
            "half"
        },
        CharacterForm::FullWidth => {
            proof {
                reveal_strlit("full");
            }
            "full"
        },
    }
}

pub fn character_form_from_name(name: &str) -> (value: Option<CharacterForm>)
    ensures
        value == character_form_named(name@),
{
    let n = chars_of(name);
    character_form_from_chars(&n)
}

fn character_form_from_chars(n: &[char]) -> (value: Option<CharacterForm>)
    ensures
        value == character_form_named(n@),
{
    if chars_equal(n, &['h', 'a', 'l', 'f']) {
        Some(CharacterForm::HalfWidth)
    } else if chars_equal(n, &['f', 'u', 'l', 'l']) {
        Some(CharacterForm::FullWidth)
    } else {
        None
    }
}

/// The name under which a punctuation form is written.
pub open spec fn punctuation_form_text(value: PunctuationForm) -> Seq<char> {
    match value {
        PunctuationForm::Cantonese => seq!['c', 'a', 'n', 't', 'o', 'n', 'e', 's', 'e'],
        PunctuationForm::English => seq!['e', 'n', 'g', 'l', 'i', 's', 'h'],
    }
}

/// The punctuation form that a name denotes, if any.
pub open spec fn punctuation_form_named(name: Seq<char>) -> Option<PunctuationForm> {
    if name == seq!['c', 'a', 'n', 't', 'o', 'n', 'e', 's', 'e'] {
        Some(PunctuationForm::Cantonese)
    } else if name == seq!['e', 'n', 'g', 'l', 'i', 's', 'h'] {
        Some(PunctuationForm::English)
    } else {
        None
    }
}

pub fn punctuation_form_name(value: PunctuationForm) -> (name: &'static str)
    ensures
        name@ == punctuation_form_text(value),
{
    match value {
        PunctuationForm::Cantonese => {
            proof {
                reveal_strlit("cantonese");
            }
            "cantonese"
        },
        PunctuationForm::English => {
            proof {
                reveal_strlit("english");
            }
            "english"
        },
    }
}

pub fn punctuation_form_from_name(name: &str) -> (value: Option<PunctuationForm>)
    ensures
        value == punctuation_form_named(name@),
{
    let n = chars_of(name);
    punctuation_form_from_chars(&n)
}

fn punctuation_form_from_chars(n: &[char]) -> (value: Option<PunctuationForm>)
    ensures
        value == punctuation_form_named(n@),
{
    if chars_equal(n, &['c', 'a', 'n', 't', 'o', 'n', 'e', 's', 'e']) {
        Some(PunctuationForm::Cantonese)
    } else if chars_equal(n, &['e', 'n', 'g', 'l', 'i', 's', 'h']) {
        Some(PunctuationForm::English)
    } else {
        None
    }
}

/// The name under which a character variant is written.
pub open spec fn character_variant_text(value: CharacterVariant) -> Seq<char> {
    match value {
        CharacterVariant::Traditional => seq!['t', 'r', 'a', 'd', 'i', 't', 'i', 'o', 'n', 'a', 'l'],
        CharacterVariant::HongKong => seq!['h', 'o', 'n', 'g', 'k', 'o', 'n', 'g'],
        CharacterVariant::Taiwan => seq!['t', 'a', 'i', 'w', 'a', 'n'],
        CharacterVariant::Simplified => seq!['s', 'i', 'm', 'p', 'l', 'i', 'f', 'i', 'e', 'd'],
    }
}

/// The character variant that a name denotes, if any.
pub open spec fn character_variant_named(name: Seq<char>) -> Option<CharacterVariant> {
    if name == seq!['t', 'r', 'a', 'd', 'i', 't', 'i', 'o', 'n', 'a', 'l'] {
        Some(CharacterVariant::Traditional)
    } else if name == seq!['h', 'o', 'n', 'g', 'k', 'o', 'n', 'g'] || name == seq!['h', 'o', 'n', 'g', '_', 'k', 'o', 'n', 'g'] || name == seq!['h', 'k'] {
        Some(CharacterVariant::HongKong)
    } else if name == seq!['t', 'a', 'i', 'w', 'a', 'n'] || name == seq!['t', 'w'] {
        Some(CharacterVariant::Taiwan)
    } else if name == seq!['s', 'i', 'm', 'p', 'l', 'i', 'f', 'i', 'e', 'd'] || name == seq!['s', 'i', 'm'] {
        Some(CharacterVariant::Simplified)
    } else {
        None
    }
}

pub fn character_variant_name(value: CharacterVariant) -> (name: &'static str)
    ensures
        name@ == character_variant_text(value),
{
    match value {
        CharacterVariant::Traditional => {
            proof {
                reveal_strlit("traditional");
            }
            "traditional"
        },
        CharacterVariant::HongKong => {
            proof {
                reveal_strlit("hongkong");
            }
            "hongkong"
        },
        CharacterVariant::Taiwan => {
            proof {
                reveal_strlit("taiwan");
            }
            "taiwan"
        },
        CharacterVariant::Simplified => {
            proof {
                reveal_strlit("simplified");
            }
            "simplified"
        },
    }
}

pub fn character_variant_from_name(name: &str) -> (value: Option<CharacterVariant>)
    ensures
        value == character_variant_named(name@),
{
    let n = chars_of(name);
    character_variant_from_chars(&n)
}

fn character_variant_from_chars(n: &[char]) -> (value: Option<CharacterVariant>)
    ensures
        value == character_variant_named(n@),
{
    if chars_equal(n, &['t', 'r', 'a', 'd', 'i', 't', 'i', 'o', 'n', 'a', 'l']) {
        Some(CharacterVariant::Traditional)
    } else if chars_equal(n, &['h', 'o', 'n', 'g', 'k', 'o', 'n', 'g']) || chars_equal(n, &['h', 'o', 'n', 'g', '_', 'k', 'o', 'n', 'g']) || chars_equal(n, &['h', 'k']) {
        Some(CharacterVariant::HongKong)
    } else if chars_equal(n, &['t', 'a', 'i', 'w', 'a', 'n']) || chars_equal(n, &['t', 'w']) {
        Some(CharacterVariant::Taiwan)
    } else if chars_equal(n, &['s', 'i', 'm', 'p', 'l', 'i', 'f', 'i', 'e', 'd']) || chars_equal(n, &['s', 'i', 'm']) {
        Some(CharacterVariant::Simplified)
    } else {
        None
    }
}
} // verus!

verus! {

// ---------------------------------------------------------------------
// Values
// ---------------------------------------------------------------------

/// Index of the first `c` in `s`, if any.
pub open spec fn find_char(s: Seq<char>, c: char) -> Option<int>
    decreases s.len(),
{
    if s.len() == 0 {
        None
    } else if s[0] == c {
        Some(0)
    } else {
        match find_char(s.drop_first(), c) {
            Some(i) => Some(i + 1),
            None => None,
        }
    }
}

proof fn lemma_find_char(s: Seq<char>, c: char, i: int)
    requires
        0 <= i <= s.len(),
        forall|j: int| 0 <= j < i ==> s[j] != c,
    ensures
        i < s.len() && s[i] == c ==> find_char(s, c) == Some(i),
        i == s.len() ==> find_char(s, c) is None,
    decreases i,
{
    if i > 0 {
        lemma_find_char(s.drop_first(), c, i - 1);
    } else if s.len() > 0 {
    }
}

pub proof fn lemma_find_char_bounds(s: Seq<char>, c: char)
    ensures
        find_char(s, c) matches Some(i) ==> 0 <= i < s.len() && s[i] == c && forall|j: int|
            0 <= j < i ==> s[j] != c,
        find_char(s, c) is None ==> forall|j: int| 0 <= j < s.len() ==> s[j] != c,
    decreases s.len(),
{
    if s.len() > 0 {
        lemma_find_char_bounds(s.drop_first(), c);
        if s[0] != c {
            assert forall|j: int| 1 <= j < s.len() implies #[trigger] s[j] == s.drop_first()[j - 1] by {}
        }
    }
}

/// Index of the first `c` in `s`, if any.
pub fn find_char_index(s: &[char], c: char) -> (r: Option<usize>)
    ensures
        match r {
            Some(i) => find_char(s@, c) == Some(i as int),
            None => find_char(s@, c) is None,
        },
{
    let mut i: usize = 0;
    while i < s.len()
        invariant
            i <= s.len(),
            forall|j: int| 0 <= j < i ==> s@[j] != c,
        decreases s.len() - i,
    {
        if s[i] == c {
            proof {
                lemma_find_char(s@, c, i as int);
            }
            return Some(i);
        }
        i = i + 1;
    }
    proof {
        lemma_find_char(s@, c, i as int);
    }
    None
}

/// The part of a line before its first `#`, without trailing white space.
pub open spec fn comment_stripped(line: Seq<char>) -> Seq<char> {
    match find_char(line, '#') {
        Some(i) => trim_end(line.take(i)),
        None => trim_end(line),
    }
}

fn comment_stripped_chars(line: &[char]) -> (r: Vec<char>)
    ensures
        r@ == comment_stripped(line@),
{
    let end = match find_char_index(line, '#') {
        Some(i) => i,
        None => line.len(),
    };
    proof {
        lemma_find_char_bounds(line@, '#');
    }
    let before = sub_chars(line, 0, end);
    assert(before@ =~= line@.take(end as int));
    if end == line.len() {
        assert(line@.take(end as int) =~= line@);
    }
    trim_end_chars(&before)
}

/// The line without its `#` comment and trailing white space.
pub fn strip_comment(line: &str) -> (r: &str)
    ensures
        r@ == comment_stripped(line@),
{
    let chars = chars_of(line);
    let end = match find_char_index(&chars, '#') {
        Some(i) => i,
        None => chars.len(),
    };
    proof {
        lemma_find_char_bounds(line@, '#');
    }
    let before = sub_chars(&chars, 0, end);
    let kept = trim_end_chars(&before);
    proof {
        assert(before@ =~= line@.take(end as int));
        if end == chars.len() {
            assert(line@.take(end as int) =~= line@);
        }
        lemma_trim_end_is_prefix(before@);
    }
    line.substring_char(0, kept.len())
}

proof fn lemma_trim_end_is_prefix(s: Seq<char>)
    ensures
        trim_end(s).len() <= s.len(),
        trim_end(s) == s.take(trim_end(s).len() as int),
    decreases s.len(),
{
    if s.len() > 0 && is_white_space(s.last()) {
        lemma_trim_end_is_prefix(s.drop_last());
        assert(s.drop_last().take(trim_end(s).len() as int) =~= s.take(trim_end(s).len() as int));
    } else {
        assert(s.take(s.len() as int) =~= s);
    }
}

/// The text of a quoted value: white space trimmed, the surrounding quotes
/// removed, then `\"` turned into `"` and `\\` into `\`.
pub open spec fn unquoted(value: Seq<char>) -> Option<Seq<char>> {
    let v = trim(value);
    if v.len() >= 2 && v[0] == '"' && v.last() == '"' {
        Some(
            replace_all(
                replace_all(v.subrange(1, v.len() - 1), seq!['\\', '"'], seq!['"']),
                seq!['\\', '\\'],
                seq!['\\'],
            ),
        )
    } else {
        None
    }
}

/// `s` in quotes, with `\` written `\\` and `"` written `\"`.
pub open spec fn quoted(s: Seq<char>) -> Seq<char> {
    seq!['"'] + replace_all(replace_all(s, seq!['\\'], seq!['\\', '\\']), seq!['"'], seq!['\\', '"'])
        + seq!['"']
}

/// A string's characters, or nothing.
pub open spec fn string_option(o: Option<String>) -> Option<Seq<char>> {
    match o {
        Some(s) => Some(s@),
        None => None,
    }
}

fn unquote_chars(value: &[char]) -> (r: Option<Vec<char>>)
    ensures
        match r {
            Some(x) => unquoted(value@) == Some(x@),
            None => unquoted(value@) is None,
        },
{
    let v = trim_chars(value);
    if v.len() >= 2 && v[0] == '"' && v[v.len() - 1] == '"' {
        let inner = sub_chars(&v, 1, v.len() - 1);
        let escaped_quote = ['\\', '"'];
        let plain_quote = ['"'];
        let escaped_backslash = ['\\', '\\'];
        let plain_backslash = ['\\'];
        assert(escaped_quote@ =~= seq!['\\', '"']);
        assert(plain_quote@ =~= seq!['"']);
        assert(escaped_backslash@ =~= seq!['\\', '\\']);
        assert(plain_backslash@ =~= seq!['\\']);
        let once = replace_chars(&inner, &escaped_quote, &plain_quote);
        let twice = replace_chars(&once, &escaped_backslash, &plain_backslash);
        Some(twice)
    } else {
        None
    }
}

/// The text of a quoted value (see `unquoted`).
pub fn unquote(value: &str) -> (r: Option<String>)
    ensures
        string_option(r) == unquoted(value@),
{
    let chars = chars_of(value);
    match unquote_chars(&chars) {
        Some(x) => Some(string_from_chars(&x)),
        None => None,
    }
}

fn quote_chars(s: &[char]) -> (r: Vec<char>)
    ensures
        r@ == quoted(s@),
{
    let escaped_quote = ['\\', '"'];
    let plain_quote = ['"'];
    let escaped_backslash = ['\\', '\\'];
    let plain_backslash = ['\\'];
    assert(escaped_quote@ =~= seq!['\\', '"']);
    assert(plain_quote@ =~= seq!['"']);
    assert(escaped_backslash@ =~= seq!['\\', '\\']);
    assert(plain_backslash@ =~= seq!['\\']);
    let once = replace_chars(s, &plain_backslash, &escaped_backslash);
    let twice = replace_chars(&once, &plain_quote, &escaped_quote);
    let mut r = Vec::new();
    r.push('"');
    append_chars(&mut r, &twice);
    r.push('"');
    assert(r@ =~= quoted(s@));
    r
}

/// `s` written as a quoted value.
pub fn quote(s: &str) -> (r: String)
    ensures
        r@ == quoted(s@),
{
    let chars = chars_of(s);
    let q = quote_chars(&chars);
    string_from_chars(&q)
}

/// A decimal number, white space around it ignored.
pub open spec fn number_of_text(value: Seq<char>) -> Option<u32> {
    parse_unsigned(trim(value), 10)
}

/// A decimal number, white space around it ignored.
pub fn parse_u32(value: &str) -> (r: Option<u32>)
    ensures
        r == number_of_text(value@),
{
    let chars = chars_of(value);
    let t = trim_chars(&chars);
    parse_unsigned_chars(&t, 10)
}

/// `s` without every leading repetition of `p`.
pub open spec fn strip_prefix_repeated(s: Seq<char>, p: Seq<char>) -> Seq<char>
    decreases s.len(),
{
    if p.len() > 0 && has_prefix(s, p) {
        strip_prefix_repeated(s.skip(p.len() as int), p)
    } else {
        s
    }
}

fn strip_prefix_repeated_chars(s: &[char], p: &[char]) -> (r: Vec<char>)
    ensures
        r@ == strip_prefix_repeated(s@, p@),
{
    let mut i: usize = 0;
    assert(s@.skip(0) =~= s@);
    loop
        invariant
            i <= s.len(),
            strip_prefix_repeated(s@, p@) == strip_prefix_repeated(s@.skip(i as int), p@),
        decreases s.len() - i,
    {
        let rest = sub_chars(s, i, s.len());
        assert(rest@ =~= s@.skip(i as int));
        if p.len() > 0 && starts_with_chars(&rest, p) {
            assert(s@.skip(i as int).skip(p.len() as int) =~= s@.skip(i + p.len()));
            i = i + p.len();
        } else {
            return rest;
        }
    }
}

/// COLORREF (0x00BBGGRR) of a color written `0xRRGGBB`: white space is
/// ignored, every leading `0x` and then every leading `0X` is removed, the rest
/// is read as hexadecimal; red, green and blue trade places on the way in.
pub open spec fn color_of_text(value: Seq<char>) -> Option<u32> {
    match parse_unsigned(
        strip_prefix_repeated(strip_prefix_repeated(trim(value), seq!['0', 'x']), seq!['0', 'X']),
        16,
    ) {
        Some(rgb) => Some(
            ((rgb >> 16u32) & 0xFFu32) | (((rgb >> 8u32) & 0xFFu32) << 8u32) | ((rgb & 0xFFu32)
                << 16u32),
        ),
        None => None,
    }
}

/// Reads a color written `0xRRGGBB` into a COLORREF (0x00BBGGRR).
pub fn parse_color(value: &str) -> (r: Option<u32>)
    ensures
        r == color_of_text(value@),
{
    let chars = chars_of(value);
    color_of_chars(&chars)
}

fn color_of_chars(value: &[char]) -> (r: Option<u32>)
    ensures
        r == color_of_text(value@),
{
    let t = trim_chars(value);
    let a = strip_prefix_repeated_chars(&t, &['0', 'x']);
    let b = strip_prefix_repeated_chars(&a, &['0', 'X']);
    match parse_unsigned_chars(&b, 16) {
        Some(rgb) => {
            let red = (rgb >> 16) & 0xFF;
            let green = (rgb >> 8) & 0xFF;
            let blue = rgb & 0xFF;
            Some(red | (green << 8) | (blue << 16))
        },
        None => None,
    }
}

/// A COLORREF (0x00BBGGRR) written `0xRRGGBB`, upper-case digits.
pub open spec fn color_text(colorref: u32) -> Seq<char> {
    seq!['0', 'x'] + hex_byte_upper((colorref & 0xFFu32) as nat) + hex_byte_upper(
        ((colorref >> 8u32) & 0xFFu32) as nat,
    ) + hex_byte_upper(((colorref >> 16u32) & 0xFFu32) as nat)
}

fn color_chars(colorref: u32) -> (r: Vec<char>)
    ensures
        r@ == color_text(colorref),
{
    let red = colorref & 0xFF;
    let green = (colorref >> 8) & 0xFF;
    let blue = (colorref >> 16) & 0xFF;
    assert(red < 256 && green < 256 && blue < 256) by (bit_vector)
        requires
            red == colorref & 0xFF,
            green == (colorref >> 8) & 0xFF,
            blue == (colorref >> 16) & 0xFF,
    ;
    let mut r = Vec::new();
    r.push('0');
    r.push('x');
    append_chars(&mut r, &hex_byte_upper_chars(red));
    append_chars(&mut r, &hex_byte_upper_chars(green));
    append_chars(&mut r, &hex_byte_upper_chars(blue));
    assert(r@ =~= color_text(colorref));
    r
}

/// Writes a COLORREF (0x00BBGGRR) as `0xRRGGBB`.
pub fn color_to_hex(colorref: u32) -> (r: String)
    ensures
        r@ == color_text(colorref),
{
    string_from_chars(&color_chars(colorref))
}

/// The unquoted parts of a list of comma-separated parts; parts that are
/// not quoted are dropped.
pub open spec fn unquoted_parts(parts: Seq<Seq<char>>) -> Seq<Seq<char>>
    decreases parts.len(),
{
    if parts.len() == 0 {
        Seq::empty()
    } else {
        unquoted_parts(parts.drop_last()) + match unquoted(parts.last()) {
            Some(x) => seq![x],
            None => Seq::<Seq<char>>::empty(),
        }
    }
}

/// The quoted strings of a `[...]` list.
pub open spec fn string_array_items(value: Seq<char>) -> Seq<Seq<char>> {
    let v = trim(value);
    if v.len() >= 2 && v[0] == '[' && v.last() == ']' {
        unquoted_parts(split_char(v.subrange(1, v.len() - 1), ','))
    } else {
        Seq::empty()
    }
}

/// The characters of each string.
pub open spec fn string_seqs(v: Seq<String>) -> Seq<Seq<char>> {
    v.map_values(|s: String| s@)
}

fn string_array_item_chars(value: &[char]) -> (r: Vec<Vec<char>>)
    ensures
        char_seqs(r@) == string_array_items(value@),
{
    let v = trim_chars(value);
    let mut r: Vec<Vec<char>> = Vec::new();
    if v.len() >= 2 && v[0] == '[' && v[v.len() - 1] == ']' {
        let inner = sub_chars(&v, 1, v.len() - 1);
        let parts = split_chars(&inner, ',');
        let mut i: usize = 0;
        assert(char_seqs(parts@).take(0) =~= Seq::<Seq<char>>::empty());
        while i < parts.len()
            invariant
                i <= parts.len(),
                char_seqs(r@) == unquoted_parts(char_seqs(parts@).take(i as int)),
            decreases parts.len() - i,
        {
            let ghost before = char_seqs(r@);
            assert(char_seqs(parts@).take(i + 1).drop_last() =~= char_seqs(parts@).take(i as int));
            assert(char_seqs(parts@).take(i + 1).last() == parts@[i as int]@);
            match unquote_chars(&parts[i]) {
                Some(x) => {
                    r.push(x);
                    assert(char_seqs(r@) =~= before + seq![r@[r@.len() - 1]@]);
                },
                None => {
                    assert(before + Seq::<Seq<char>>::empty() =~= before);
                },
            }
            i = i + 1;
        }
        assert(char_seqs(parts@).take(parts.len() as int) =~= char_seqs(parts@));
    }
    r
}

/// The quoted strings of a `[...]` list; anything else gives no strings.
pub fn parse_string_array(value: &str) -> (r: Vec<String>)
    ensures
        string_seqs(r@) == string_array_items(value@),
{
    let chars = chars_of(value);
    let items = string_array_item_chars(&chars);
    let mut r: Vec<String> = Vec::new();
    let mut i: usize = 0;
    while i < items.len()
        invariant
            i <= items.len(),
            string_seqs(r@) == char_seqs(items@).take(i as int),
        decreases items.len() - i,
    {
        r.push(string_from_chars(&items[i]));
        assert(char_seqs(items@).take(i + 1) =~= char_seqs(items@).take(i as int).push(
            items@[i as int]@,
        ));
        assert(string_seqs(r@) =~= char_seqs(items@).take(i + 1));
        i = i + 1;
    }
    assert(char_seqs(items@).take(items.len() as int) =~= char_seqs(items@));
    r
}
} // verus!

verus! {

// ---------------------------------------------------------------------
// Hotkeys: "ctrl+shift+f4" and the like. The last '+'-separated token is the
// key, the others are modifiers.
// ---------------------------------------------------------------------

/// The virtual key that a key name denotes: white space around it and letter
/// case are ignored; `f1`..`f12`, single letters and digits are understood too.
pub open spec fn key_code_of_name(name: Seq<char>) -> Option<u32> {
    let lower = ascii_lower(trim(name));
    if lower == seq!['s', 'p', 'a', 'c', 'e'] {
        Some(0x20u32)
    } else if lower == seq!['t', 'a', 'b'] {
        Some(0x09u32)
    } else if lower == seq!['e', 'n', 't', 'e', 'r'] || lower == seq!['r', 'e', 't', 'u', 'r', 'n'] {
        Some(0x0du32)
    } else if lower == seq!['e', 's', 'c'] || lower == seq!['e', 's', 'c', 'a', 'p', 'e'] {
        Some(0x1bu32)
    } else if lower == seq!['b', 'a', 'c', 'k', 's', 'p', 'a', 'c', 'e'] {
        Some(0x08u32)
    } else if lower == seq!['`'] || lower == seq!['o', 'e', 'm', '_', '3'] || lower == seq!['b', 'a', 'c', 'k', 'q', 'u', 'o', 't', 'e'] {
        Some(0xc0u32)
    } else if lower == seq!['\''] || lower == seq!['o', 'e', 'm', '_', '7'] {
        Some(0xdeu32)
    } else if lower.len() > 0 && lower[0] == 'f' && parse_unsigned(lower.drop_first(), 10) is Some
        && 1 <= parse_unsigned(lower.drop_first(), 10)->0 <= 12 {
        Some((0x6Fu32 + parse_unsigned(lower.drop_first(), 10)->0) as u32)
    } else if lower.len() == 1 && 'a' <= lower[0] && lower[0] <= 'z' {
        Some(((lower[0] as u32) - 32) as u32)
    } else if lower.len() == 1 && '0' <= lower[0] && lower[0] <= '9' {
        Some(lower[0] as u32)
    } else {
        None
    }
}

fn key_code_of_chars(name: &[char]) -> (r: Option<u32>)
    ensures
        r == key_code_of_name(name@),
{
    let t = trim_chars(name);
    let lower = ascii_lower_chars(&t);
    let name1 = ['s', 'p', 'a', 'c', 'e'];
    assert(name1@ =~= seq!['s', 'p', 'a', 'c', 'e']);
    if chars_equal(&lower, &name1) {
        return Some(0x20);
    }
    let name2 = ['t', 'a', 'b'];
    assert(name2@ =~= seq!['t', 'a', 'b']);
    if chars_equal(&lower, &name2) {
        return Some(0x09);
    }
    let name3 = ['e', 'n', 't', 'e', 'r'];
    assert(name3@ =~= seq!['e', 'n', 't', 'e', 'r']);
    let name4 = ['r', 'e', 't', 'u', 'r', 'n'];
    assert(name4@ =~= seq!['r', 'e', 't', 'u', 'r', 'n']);
    if chars_equal(&lower, &name3) || chars_equal(&lower, &name4) {
        return Some(0x0d);
    }
    let name5 = ['e', 's', 'c'];
    assert(name5@ =~= seq!['e', 's', 'c']);
    let name6 = ['e', 's', 'c', 'a', 'p', 'e'];
    assert(name6@ =~= seq!['e', 's', 'c', 'a', 'p', 'e']);
    if chars_equal(&lower, &name5) || chars_equal(&lower, &name6) {
        return Some(0x1b);
    }
    let name7 = ['b', 'a', 'c', 'k', 's', 'p', 'a', 'c', 'e'];
    assert(name7@ =~= seq!['b', 'a', 'c', 'k', 's', 'p', 'a', 'c', 'e']);
    if chars_equal(&lower, &name7) {
        return Some(0x08);
    }
    let name8 = ['`'];
    assert(name8@ =~= seq!['`']);
    let name9 = ['o', 'e', 'm', '_', '3'];
    assert(name9@ =~= seq!['o', 'e', 'm', '_', '3']);
    let name10 = ['b', 'a', 'c', 'k', 'q', 'u', 'o', 't', 'e'];
    assert(name10@ =~= seq!['b', 'a', 'c', 'k', 'q', 'u', 'o', 't', 'e']);
    if chars_equal(&lower, &name8) || chars_equal(&lower, &name9) || chars_equal(&lower, &name10) {
        return Some(0xc0);
    }
    let name11 = ['\''];
    assert(name11@ =~= seq!['\'']);
    let name12 = ['o', 'e', 'm', '_', '7'];
    assert(name12@ =~= seq!['o', 'e', 'm', '_', '7']);
    if chars_equal(&lower, &name11) || chars_equal(&lower, &name12) {
        return Some(0xde);
    }
    if lower.len() > 0 && lower[0] == 'f' {
        let rest = sub_chars(&lower, 1, lower.len());
        assert(rest@ =~= lower@.drop_first());
        if let Some(n) = parse_unsigned_chars(&rest, 10) {
            if 1 <= n && n <= 12 {
                return Some(0x6F + n);
            }
        }
    }
    if lower.len() == 1 {
        let c = lower[0];
        if 'a' <= c && c <= 'z' {
            return Some((c as u32) - 32);
        }
        if '0' <= c && c <= '9' {
            return Some(c as u32);
        }
    }
    None
}

/// The virtual key that a key name denotes (see `key_code_of_name`).
pub fn key_name_to_vk(name: &str) -> (r: Option<u32>)
    ensures
        r == key_code_of_name(name@),
{
    let chars = chars_of(name);
    key_code_of_chars(&chars)
}

/// The modifier flag that a modifier name denotes, white space and case ignored.
pub open spec fn modifier_flag_of_name(name: Seq<char>) -> Option<u32> {
    let lower = ascii_lower(trim(name));
    if lower == seq!['c', 't', 'r', 'l'] || lower == seq!['c', 'o', 'n', 't', 'r', 'o', 'l'] {
        Some(TF_MOD_CONTROL)
    } else if lower == seq!['s', 'h', 'i', 'f', 't'] {
        Some(TF_MOD_SHIFT)
    } else if lower == seq!['a', 'l', 't'] {
        Some(TF_MOD_ALT)
    } else {
        None
    }
}

fn modifier_flag_of_chars(name: &[char]) -> (r: Option<u32>)
    ensures
        r == modifier_flag_of_name(name@),
{
    let t = trim_chars(name);
    let lower = ascii_lower_chars(&t);
    if chars_equal(&lower, &['c', 't', 'r', 'l']) || chars_equal(&lower, &['c', 'o', 'n', 't', 'r', 'o', 'l']) {
        Some(TF_MOD_CONTROL)
    } else if chars_equal(&lower, &['s', 'h', 'i', 'f', 't']) {
        Some(TF_MOD_SHIFT)
    } else if chars_equal(&lower, &['a', 'l', 't']) {
        Some(TF_MOD_ALT)
    } else {
        None
    }
}

/// The modifier flag that a modifier name denotes.
pub fn modifier_name_to_flag(name: &str) -> (r: Option<u32>)
    ensures
        r == modifier_flag_of_name(name@),
{
    let chars = chars_of(name);
    modifier_flag_of_chars(&chars)
}

/// The union of the flags that the names denote, if every name is a modifier.
pub open spec fn modifiers_of_names(names: Seq<Seq<char>>) -> Option<u32>
    decreases names.len(),
{
    if names.len() == 0 {
        Some(0)
    } else {
        match modifiers_of_names(names.drop_last()) {
            Some(m) => match modifier_flag_of_name(names.last()) {
                Some(f) => Some(m | f),
                None => None,
            },
            None => None,
        }
    }
}

/// The key and modifiers that a hotkey text denotes. A text without `+` is a
/// bare key; a trailing `+` stands for the `+` key itself.
pub open spec fn hotkey_of_text(text: Seq<char>) -> Option<(u32, u32)> {
    let parts = split_char(text, '+');
    if parts.len() < 2 {
        match key_code_of_name(trim(parts[0])) {
            Some(vk) => Some((vk, 0u32)),
            None => None,
        }
    } else {
        let key = if parts.last().len() == 0 {
            seq!['+']
        } else {
            parts.last()
        };
        match key_code_of_name(key) {
            Some(vk) => match modifiers_of_names(parts.drop_last()) {
                Some(m) => Some((vk, m)),
                None => None,
            },
            None => None,
        }
    }
}

fn hotkey_of_chars(text: &[char]) -> (r: Option<(u32, u32)>)
    ensures
        r == hotkey_of_text(text@),
{
    let parts = split_chars(text, '+');
    proof {
        lemma_split_char_nonempty(text@, '+');
    }
    if parts.len() < 2 {
        let t = trim_chars(&parts[0]);
        return match key_code_of_chars(&t) {
            Some(vk) => Some((vk, 0)),
            None => None,
        };
    }
    let last = parts.len() - 1;
    let plus = ['+'];
    assert(plus@ =~= seq!['+']);
    let key: &[char] = if parts[last].len() == 0 {
        &plus
    } else {
        &parts[last]
    };
    let vk = match key_code_of_chars(key) {
        Some(vk) => vk,
        None => {
            return None;
        },
    };
    let mut modifiers: u32 = 0;
    let mut i: usize = 0;
    let ghost names = char_seqs(parts@).drop_last();
    assert(names.take(0) =~= Seq::<Seq<char>>::empty());
    assert(hotkey_of_text(text@) == match modifiers_of_names(names) {
        Some(m) => Some((vk, m)),
        None => None,
    });
    while i < last
        invariant
            hotkey_of_text(text@) == match modifiers_of_names(names) {
                Some(m) => Some((vk, m)),
                None => None,
            },
            last == parts.len() - 1,
            names == char_seqs(parts@).drop_last(),
            i <= last,
            modifiers_of_names(names.take(i as int)) == Some(modifiers),
        decreases last - i,
    {
        assert(names.take(i + 1).drop_last() =~= names.take(i as int));
        assert(names.take(i + 1).last() == parts@[i as int]@);
        match modifier_flag_of_chars(&parts[i]) {
            Some(flag) => {
                modifiers = modifiers | flag;
            },
            None => {
                assert(modifiers_of_names(names.take(i + 1)) is None);
                proof {
                    lemma_modifiers_none_extends(names, i as int + 1);
                }
                return None;
            },
        }
        i = i + 1;
    }
    assert(names.take(last as int) =~= names);
    Some((vk, modifiers))
}

proof fn lemma_modifiers_none_extends(names: Seq<Seq<char>>, i: int)
    requires
        0 <= i <= names.len(),
        modifiers_of_names(names.take(i)) is None,
    ensures
        modifiers_of_names(names) is None,
    decreases names.len() - i,
{
    if i < names.len() {
        assert(names.take(i + 1).drop_last() =~= names.take(i));
        lemma_modifiers_none_extends(names, i + 1);
    } else {
        assert(names.take(i) =~= names);
    }
}

/// The key and modifiers of a hotkey text such as `ctrl+shift+f4`.
pub fn parse_hotkey(text: &str) -> (r: Option<(u32, u32)>)
    ensures
        r == hotkey_of_text(text@),
{
    let chars = chars_of(text);
    hotkey_of_chars(&chars)
}

/// The name under which a virtual key is written.
pub open spec fn key_text(vk: u32) -> Seq<char> {
    if vk == 0x20 {
        seq!['s', 'p', 'a', 'c', 'e']
    } else if vk == 0x09 {
        seq!['t', 'a', 'b']
    } else if vk == 0x0d {
        seq!['e', 'n', 't', 'e', 'r']
    } else if vk == 0x1b {
        seq!['e', 's', 'c']
    } else if vk == 0x08 {
        seq!['b', 'a', 'c', 'k', 's', 'p', 'a', 'c', 'e']
    } else if vk == 0xc0 {
        seq!['`']
    } else if vk == 0xde {
        seq!['\'']
    } else if 0x70 <= vk && vk <= 0x7B {
        seq!['f'] + decimal_text((vk - 0x6F) as nat)
    } else if 0x30 <= vk && vk <= 0x39 {
        decimal_text((vk - 0x30) as nat)
    } else if 0x41 <= vk && vk <= 0x5A {
        seq![((vk as nat) + 32) as char]
    } else {
        seq!['0', 'x'] + hex_lower_text(vk as nat)
    }
}

/// A hotkey written as text: the modifier names (control, shift, alt, in that
/// order), each followed by `+`, then the key name.
pub open spec fn hotkey_text(vk: u32, modifiers: u32) -> Seq<char> {
    (if modifiers & TF_MOD_CONTROL != 0 {
        seq!['c', 't', 'r', 'l', '+']
    } else {
        Seq::<char>::empty()
    }) + (if modifiers & TF_MOD_SHIFT != 0 {
        seq!['s', 'h', 'i', 'f', 't', '+']
    } else {
        Seq::<char>::empty()
    }) + (if modifiers & TF_MOD_ALT != 0 {
        seq!['a', 'l', 't', '+']
    } else {
        Seq::<char>::empty()
    }) + key_text(vk)
}

fn key_text_chars(vk: u32) -> (r: Vec<char>)
    ensures
        r@ == key_text(vk),
{
    let mut r: Vec<char> = Vec::new();
    if vk == 0x20 {
        let name = ['s', 'p', 'a', 'c', 'e'];
        append_chars(&mut r, &name);
    } else if vk == 0x09 {
        let name = ['t', 'a', 'b'];
        append_chars(&mut r, &name);
    } else if vk == 0x0d {
        let name = ['e', 'n', 't', 'e', 'r'];
        append_chars(&mut r, &name);
    } else if vk == 0x1b {
        let name = ['e', 's', 'c'];
        append_chars(&mut r, &name);
    } else if vk == 0x08 {
        let name = ['b', 'a', 'c', 'k', 's', 'p', 'a', 'c', 'e'];
        append_chars(&mut r, &name);
    } else if vk == 0xc0 {
        let name = ['`'];
        append_chars(&mut r, &name);
    } else if vk == 0xde {
        let name = ['\''];
        append_chars(&mut r, &name);
    } else if 0x70 <= vk && vk <= 0x7B {
        r.push('f');
        append_chars(&mut r, &decimal_chars(vk - 0x6F));
    } else if 0x30 <= vk && vk <= 0x39 {
        append_chars(&mut r, &decimal_chars(vk - 0x30));
    } else if 0x41 <= vk && vk <= 0x5A {
        r.push(char_from_ascii(vk + 32));
    } else {
        r.push('0');
        r.push('x');
        append_chars(&mut r, &hex_lower_chars(vk));
    }
    assert(r@ =~= key_text(vk));
    r
}

fn hotkey_text_chars(vk: u32, modifiers: u32) -> (r: Vec<char>)
    ensures
        r@ == hotkey_text(vk, modifiers),
{
    let mut r: Vec<char> = Vec::new();
    let ctrl = ['c', 't', 'r', 'l', '+'];
    let shift = ['s', 'h', 'i', 'f', 't', '+'];
    let alt = ['a', 'l', 't', '+'];
    if modifiers & TF_MOD_CONTROL != 0 {
        append_chars(&mut r, &ctrl);
    }
    if modifiers & TF_MOD_SHIFT != 0 {
        append_chars(&mut r, &shift);
    }
    if modifiers & TF_MOD_ALT != 0 {
        append_chars(&mut r, &alt);
    }
    append_chars(&mut r, &key_text_chars(vk));
    assert(r@ =~= hotkey_text(vk, modifiers));
    r
}

/// A hotkey written as text, such as `ctrl+shift+f4`.
pub fn hotkey_to_spec(vk: u32, modifiers: u32) -> (r: String)
    ensures
        r@ == hotkey_text(vk, modifiers),
{
    string_from_chars(&hotkey_text_chars(vk, modifiers))
}
} // verus!

verus! {

// ---------------------------------------------------------------------
// Reading back what was written
// ---------------------------------------------------------------------

pub proof fn lemma_split_char_concat(s: Seq<char>, t: Seq<char>, sep: char)
    ensures
        split_char(s + seq![sep] + t, sep) == split_char(s, sep) + split_char(t, sep),
    decreases t.len(),
{
    if t.len() == 0 {
        assert(s + seq![sep] + t =~= s.push(sep));
        assert((s + seq![sep] + t).drop_last() =~= s);
        lemma_split_char_nonempty(s, sep);
        assert(split_char(s, sep) + split_char(t, sep) =~= split_char(s, sep).push(
            Seq::<char>::empty(),
        ));
    } else {
        let u = s + seq![sep] + t;
        assert(u.drop_last() =~= s + seq![sep] + t.drop_last());
        assert(u.last() == t.last());
        lemma_split_char_concat(s, t.drop_last(), sep);
        lemma_split_char_nonempty(t.drop_last(), sep);
        let a = split_char(s, sep);
        let b = split_char(t.drop_last(), sep);
        if t.last() == sep {
            assert((a + b).push(Seq::<char>::empty()) =~= a + b.push(Seq::<char>::empty()));
        } else {
            assert((a + b).update((a + b).len() - 1, (a + b).last().push(t.last())) =~= a
                + b.update(b.len() - 1, b.last().push(t.last())));
        }
    }
}

pub proof fn lemma_split_char_without_sep(s: Seq<char>, sep: char)
    requires
        forall|i: int| 0 <= i < s.len() ==> s[i] != sep,
    ensures
        split_char(s, sep) == seq![s],
    decreases s.len(),
{
    if s.len() > 0 {
        lemma_split_char_without_sep(s.drop_last(), sep);
        assert(s.drop_last().push(s.last()) =~= s);
    } else {
        assert(s =~= Seq::<char>::empty());
    }
}

/// The words, each followed by `+`.
pub open spec fn plus_joined(words: Seq<Seq<char>>) -> Seq<char>
    decreases words.len(),
{
    if words.len() == 0 {
        Seq::empty()
    } else {
        plus_joined(words.drop_last()) + words.last() + seq!['+']
    }
}

pub open spec fn without_plus(s: Seq<char>) -> bool {
    forall|i: int| 0 <= i < s.len() ==> s[i] != '+'
}

proof fn lemma_split_plus_joined(words: Seq<Seq<char>>, key: Seq<char>)
    requires
        forall|i: int| 0 <= i < words.len() ==> without_plus(#[trigger] words[i]),
        without_plus(key),
    ensures
        split_char(plus_joined(words) + key, '+') == words.push(key),
    decreases words.len(),
{
    if words.len() == 0 {
        assert(plus_joined(words) + key =~= key);
        lemma_split_char_without_sep(key, '+');
        assert(words.push(key) =~= seq![key]);
    } else {
        let init = words.drop_last();
        assert forall|i: int| 0 <= i < init.len() implies without_plus(#[trigger] init[i]) by {
            assert(init[i] == words[i]);
        }
        assert(without_plus(words.last()));
        lemma_split_plus_joined(init, words.last());
        assert(plus_joined(words) + key =~= (plus_joined(init) + words.last()) + seq!['+'] + key);
        lemma_split_char_concat(plus_joined(init) + words.last(), key, '+');
        lemma_split_char_without_sep(key, '+');
        assert(init.push(words.last()) + seq![key] =~= words.push(key));
    }
}

proof fn lemma_decimal_text(n: nat)
    ensures
        decimal_text(n).len() > 0,
        all_digits(decimal_text(n), 10),
        digits_value(decimal_text(n), 10) == n,
        '0' <= decimal_text(n)[0] <= '9',
        n < 10 ==> decimal_text(n) == seq![(('0' as nat) + n) as char],
    decreases n,
{
    if n >= 10 {
        lemma_decimal_text(n / 10);
        let p = decimal_text(n / 10);
        let s = decimal_text(n);
        assert(s.drop_last() =~= p);
        assert((((('0' as nat) + n % 10) as char) as int) == 48 + n % 10);
        assert(digit_value(s.last(), 10) == n % 10);
        assert(digits_value(s, 10) == (n / 10) * 10 + n % 10);
        assert((n / 10) * 10 + n % 10 == n) by (nonlinear_arith);
        assert forall|i: int| 0 <= i < s.len() implies digit_value(#[trigger] s[i], 10) >= 0 by {
            if i < p.len() {
                assert(s[i] == p[i]);
            }
        }
    } else {
        let s = decimal_text(n);
        assert(s.drop_last() =~= Seq::<char>::empty());
        assert((((('0' as nat) + n) as char) as int) == 48 + n);
        assert(digit_value(s.last(), 10) == n);
        assert(digits_value(s.drop_last(), 10) == 0);
    }
}

pub proof fn lemma_decimal_roundtrip(n: u32)
    ensures
        parse_unsigned(decimal_text(n as nat), 10) == Some(n),
{
    lemma_decimal_text(n as nat);
}

proof fn lemma_trim_unchanged(s: Seq<char>)
    requires
        forall|i: int| 0 <= i < s.len() ==> !is_white_space(#[trigger] s[i]),
    ensures
        trim(s) == s,
{
    if s.len() > 0 {
        assert(!is_white_space(s[0]));
        assert(trim_start(s) == s);
        assert(!is_white_space(s.last()));
    }
}

proof fn lemma_lower_unchanged(s: Seq<char>)
    requires
        forall|i: int| 0 <= i < s.len() ==> !('A' <= #[trigger] s[i] && s[i] <= 'Z'),
    ensures
        ascii_lower(s) == s,
{
    assert(ascii_lower(s) =~= s);
}

/// Virtual keys that have a name the hotkey reader understands.
pub open spec fn is_named_key(vk: u32) -> bool {
    ||| vk == 0x20 || vk == 0x09 || vk == 0x0D || vk == 0x1B || vk == 0x08 || vk == 0xC0 || vk == 0xDE
    ||| (0x70 <= vk && vk <= 0x7B)
    ||| (0x30 <= vk && vk <= 0x39)
    ||| (0x41 <= vk && vk <= 0x5A)
}

proof fn lemma_key_text(vk: u32)
    requires
        is_named_key(vk),
    ensures
        key_text(vk).len() > 0,
        without_plus(key_text(vk)),
        trim(key_text(vk)) == key_text(vk),
        key_code_of_name(key_text(vk)) == Some(vk),
{
    let k = key_text(vk);
    if 0x70 <= vk && vk <= 0x7B {
        lemma_decimal_text((vk - 0x6F) as nat);
        let d = decimal_text((vk - 0x6F) as nat);
        assert(k =~= seq!['f'] + d);
        assert(k.drop_first() =~= d);
        assert(k[0] == 'f');
        assert forall|i: int| 0 <= i < k.len() implies !is_white_space(#[trigger] k[i]) && k[i]
            != '+' && !('A' <= k[i] && k[i] <= 'Z') by {
            if i > 0 {
                assert(k[i] == d[i - 1]);
                assert(digit_value(d[i - 1], 10) >= 0);
            }
        }
    } else if 0x30 <= vk && vk <= 0x39 {
        lemma_decimal_text((vk - 0x30) as nat);
    } else {
    }
    assert forall|i: int| 0 <= i < k.len() implies !is_white_space(#[trigger] k[i]) && k[i] != '+'
        && !('A' <= k[i] && k[i] <= 'Z') by {
        if 0x70 <= vk && vk <= 0x7B {
            if i > 0 {
                let d = decimal_text((vk - 0x6F) as nat);
                assert(k[i] == d[i - 1]);
                assert(digit_value(d[i - 1], 10) >= 0);
            }
        }
    }
    lemma_trim_unchanged(k);
    lemma_lower_unchanged(k);
    assert(ascii_lower(trim(k)) == k);

    assert(seq!['s', 'p', 'a', 'c', 'e'][0] == 's');
    assert(seq!['t', 'a', 'b'][0] == 't');
    assert(seq!['e', 'n', 't', 'e', 'r'][0] == 'e');
    assert(seq!['r', 'e', 't', 'u', 'r', 'n'][0] == 'r');
    assert(seq!['e', 's', 'c'][0] == 'e');
    assert(seq!['e', 's', 'c', 'a', 'p', 'e'][0] == 'e');
    assert(seq!['b', 'a', 'c', 'k', 's', 'p', 'a', 'c', 'e'][0] == 'b');
    assert(seq!['`'][0] == '`');
    assert(seq!['o', 'e', 'm', '_', '3'][0] == 'o');
    assert(seq!['b', 'a', 'c', 'k', 'q', 'u', 'o', 't', 'e'][0] == 'b');
    assert(seq!['\''][0] == '\'');
    assert(seq!['o', 'e', 'm', '_', '7'][0] == 'o');
    if 0x70 <= vk && vk <= 0x7B {
        assert(k[0] == 'f');
    } else if 0x30 <= vk && vk <= 0x39 {
        assert('0' <= k[0] <= '9');
    } else if 0x41 <= vk && vk <= 0x5A {
        assert('a' <= k[0] <= 'z');
    }

}

/// The modifier names, in the order in which a hotkey text writes them.
pub open spec fn modifier_words(modifiers: u32) -> Seq<Seq<char>> {
    (if modifiers & TF_MOD_CONTROL != 0 {
        seq![seq!['c', 't', 'r', 'l']]
    } else {
        Seq::<Seq<char>>::empty()
    }) + (if modifiers & TF_MOD_SHIFT != 0 {
        seq![seq!['s', 'h', 'i', 'f', 't']]
    } else {
        Seq::<Seq<char>>::empty()
    }) + (if modifiers & TF_MOD_ALT != 0 {
        seq![seq!['a', 'l', 't']]
    } else {
        Seq::<Seq<char>>::empty()
    })
}

proof fn lemma_modifier_word(word: Seq<char>, flag: u32)
    requires
        (word == seq!['c', 't', 'r', 'l'] && flag == TF_MOD_CONTROL) || (word == seq!['s', 'h', 'i', 'f', 't'] && flag
            == TF_MOD_SHIFT) || (word == seq!['a', 'l', 't'] && flag == TF_MOD_ALT),
    ensures
        modifier_flag_of_name(word) == Some(flag),
        without_plus(word),
{
    assert forall|i: int| 0 <= i < word.len() implies !is_white_space(#[trigger] word[i]) && word[i]
        != '+' && !('A' <= word[i] && word[i] <= 'Z') by {}
    lemma_trim_unchanged(word);
    lemma_lower_unchanged(word);
    assert(seq!['c', 't', 'r', 'l'][0] == 'c');
    assert(seq!['s', 'h', 'i', 'f', 't'][0] == 's');
    assert(seq!['a', 'l', 't'][0] == 'a');
}

#[verifier::spinoff_prover]
#[verifier::rlimit(50)]
/// A hotkey written by `hotkey_to_spec` reads back with `parse_hotkey` as the
/// same key and modifiers, for every key that has a name and every
/// combination of control, shift and alt.
pub proof fn lemma_hotkey_roundtrip(vk: u32, modifiers: u32)
    requires
        is_named_key(vk),
        modifiers <= 7,
    ensures
        hotkey_of_text(hotkey_text(vk, modifiers)) == Some((vk, modifiers)),
{
    lemma_key_text(vk);
    let k = key_text(vk);
    let words = modifier_words(modifiers);
    let ctrl = seq!['c', 't', 'r', 'l'];
    let shift = seq!['s', 'h', 'i', 'f', 't'];
    let alt = seq!['a', 'l', 't'];
    lemma_modifier_word(ctrl, TF_MOD_CONTROL);
    lemma_modifier_word(shift, TF_MOD_SHIFT);
    lemma_modifier_word(alt, TF_MOD_ALT);
    let c = modifiers & TF_MOD_CONTROL != 0;
    let s = modifiers & TF_MOD_SHIFT != 0;
    let a = modifiers & TF_MOD_ALT != 0;
    reveal_with_fuel(plus_joined, 4);
    reveal_with_fuel(modifiers_of_names, 4);
    let expected = (if c { 2u32 } else { 0u32 }) | (if s { 4u32 } else { 0u32 }) | (if a { 1u32 } else { 0u32 });
    assert(expected == modifiers) by (bit_vector)
        requires
            modifiers <= 7,
            c == (modifiers & 2 != 0),
            s == (modifiers & 4 != 0),
            a == (modifiers & 1 != 0),
            expected == (if c { 2u32 } else { 0u32 }) | (if s { 4u32 } else { 0u32 }) | (if a { 1u32 } else { 0u32 }),
    ;
    assert forall|i: int| 0 <= i < words.len() implies without_plus(#[trigger] words[i]) by {}
    assert(hotkey_text(vk, modifiers) =~= plus_joined(words) + k) by {
        if c {
            if s {
                if a {
                    assert(words =~= seq![ctrl, shift, alt]);
                } else {
                    assert(words =~= seq![ctrl, shift]);
                }
            } else {
                if a {
                    assert(words =~= seq![ctrl, alt]);
                } else {
                    assert(words =~= seq![ctrl]);
                }
            }
        } else {
            if s {
                if a {
                    assert(words =~= seq![shift, alt]);
                } else {
                    assert(words =~= seq![shift]);
                }
            } else {
                if a {
                    assert(words =~= seq![alt]);
                } else {
                    assert(words =~= Seq::<Seq<char>>::empty());
                }
            }
        }
        assert(plus_joined(words) =~= (if c { ctrl + seq!['+'] } else { Seq::<char>::empty() }) + (if s {
            shift + seq!['+']
        } else {
            Seq::<char>::empty()
        }) + (if a { alt + seq!['+'] } else { Seq::<char>::empty() }));
    }
    lemma_split_plus_joined(words, k);
    assert(modifiers_of_names(words) == Some(expected)) by {
        if c {
            if s {
                if a {
                    assert(words =~= seq![ctrl, shift, alt]);
                    assert(words.drop_last() =~= seq![ctrl, shift]);
                    assert(words.drop_last().drop_last() =~= seq![ctrl]);
                    assert(words.drop_last().drop_last().drop_last() =~= Seq::<Seq<char>>::empty());
                } else {
                    assert(words =~= seq![ctrl, shift]);
                    assert(words.drop_last() =~= seq![ctrl]);
                    assert(words.drop_last().drop_last() =~= Seq::<Seq<char>>::empty());
                }
            } else {
                if a {
                    assert(words =~= seq![ctrl, alt]);
                    assert(words.drop_last() =~= seq![ctrl]);
                    assert(words.drop_last().drop_last() =~= Seq::<Seq<char>>::empty());
                } else {
                    assert(words =~= seq![ctrl]);
                    assert(words.drop_last() =~= Seq::<Seq<char>>::empty());
                }
            }
        } else {
            if s {
                if a {
                    assert(words =~= seq![shift, alt]);
                    assert(words.drop_last() =~= seq![shift]);
                    assert(words.drop_last().drop_last() =~= Seq::<Seq<char>>::empty());
                } else {
                    assert(words =~= seq![shift]);
                    assert(words.drop_last() =~= Seq::<Seq<char>>::empty());
                }
            } else {
                if a {
                    assert(words =~= seq![alt]);
                    assert(words.drop_last() =~= Seq::<Seq<char>>::empty());
                } else {
                    assert(words =~= Seq::<Seq<char>>::empty());
                }
            }
        }
        assert((0u32 | 2u32) == 2u32 && (0u32 | 4u32) == 4u32 && (0u32 | 1u32) == 1u32) by (bit_vector);
        assert((2u32 | 4u32) == 6u32 && (2u32 | 1u32) == 3u32 && (4u32 | 1u32) == 5u32 && (6u32 | 1u32) == 7u32) by (bit_vector);
        assert(((2u32 | 0u32) | 0u32) == 2u32 && ((0u32 | 4u32) | 0u32) == 4u32 && ((0u32 | 0u32) | 1u32) == 1u32) by (bit_vector);
        assert(((2u32 | 4u32) | 0u32) == 6u32 && ((2u32 | 0u32) | 1u32) == 3u32 && ((0u32 | 4u32) | 1u32) == 5u32 && ((2u32 | 4u32) | 1u32) == 7u32 && ((0u32 | 0u32) | 0u32) == 0u32) by (bit_vector);
    }
    let parts = words.push(k);
    assert(parts.last() == k);
    assert(parts.drop_last() =~= words);
    if words.len() == 0 {
        assert(expected == 0);
    }
}

proof fn lemma_digits_value_concat(a: Seq<char>, b: Seq<char>, radix: int)
    ensures
        digits_value(a + b, radix) == digits_value(a, radix) * pow_int(radix, b.len()) + digits_value(
            b,
            radix,
        ),
    decreases b.len(),
{
    if b.len() == 0 {
        assert(a + b =~= a);
    } else {
        lemma_digits_value_concat(a, b.drop_last(), radix);
        assert((a + b).drop_last() =~= a + b.drop_last());
        assert((a + b).last() == b.last());
        let x = digits_value(a, radix);
        let p = pow_int(radix, (b.len() - 1) as nat);
        let y = digits_value(b.drop_last(), radix);
        assert((x * p + y) * radix == x * (p * radix) + y * radix) by (nonlinear_arith);
    }
}

/// `base` to the power `e`.
pub open spec fn pow_int(base: int, e: nat) -> int
    decreases e,
{
    if e == 0 {
        1
    } else {
        pow_int(base, (e - 1) as nat) * base
    }
}

proof fn lemma_hex_byte(x: nat)
    requires
        x < 256,
    ensures
        hex_byte_upper(x).len() == 2,
        all_digits(hex_byte_upper(x), 16),
        digits_value(hex_byte_upper(x), 16) == x,
        hex_byte_upper(x)[0] != '+' && hex_byte_upper(x)[0] != 'x' && hex_byte_upper(x)[0] != 'X',
        hex_byte_upper(x)[1] != 'x' && hex_byte_upper(x)[1] != 'X',
        forall|i: int| 0 <= i < 2 ==> !is_white_space(#[trigger] hex_byte_upper(x)[i]),
{
    let h = hex_byte_upper(x);
    let hi = x / 16;
    let lo = x % 16;
    assert(digit_value(hex_upper_digit(hi), 16) == hi);
    assert(digit_value(hex_upper_digit(lo), 16) == lo);
    assert(h.drop_last() =~= seq![hex_upper_digit(hi)]);
    assert(h.drop_last().drop_last() =~= Seq::<char>::empty());
    assert(h.drop_last().last() == hex_upper_digit(hi));
    assert(h.last() == hex_upper_digit(lo));
    assert(digits_value(h.drop_last().drop_last(), 16) == 0);
    assert(digits_value(h.drop_last(), 16) == hi);
    assert(hi * 16 + lo == x);
}

#[verifier::spinoff_prover]
/// A color written by `color_to_hex` reads back with `parse_color` as the
/// same COLORREF, less the unused high byte.
pub proof fn lemma_color_roundtrip(colorref: u32)
    ensures
        color_of_text(color_text(colorref)) == Some(colorref & 0x00FF_FFFFu32),
{
    let red = colorref & 0xFFu32;
    let green = (colorref >> 8u32) & 0xFFu32;
    let blue = (colorref >> 16u32) & 0xFFu32;
    assert(red < 256 && green < 256 && blue < 256) by (bit_vector)
        requires
            red == colorref & 0xFFu32,
            green == (colorref >> 8u32) & 0xFFu32,
            blue == (colorref >> 16u32) & 0xFFu32,
    ;
    lemma_hex_byte(red as nat);
    lemma_hex_byte(green as nat);
    lemma_hex_byte(blue as nat);
    let hr = hex_byte_upper(red as nat);
    let hg = hex_byte_upper(green as nat);
    let hb = hex_byte_upper(blue as nat);
    let digits = hr + hg + hb;
    let text = color_text(colorref);
    assert(text =~= seq!['0', 'x'] + digits);
    assert forall|i: int| 0 <= i < text.len() implies !is_white_space(#[trigger] text[i]) by {
        if i >= 2 && i < 4 {
            assert(text[i] == hr[i - 2]);
        } else if i >= 4 && i < 6 {
            assert(text[i] == hg[i - 4]);
        } else if i >= 6 {
            assert(text[i] == hb[i - 6]);
        }
    }
    lemma_trim_unchanged(text);
    assert(text.take(2) =~= seq!['0', 'x']);
    assert(text.skip(2) =~= digits);
    assert(digits[1] == hr[1]);
    assert(digits.take(2) != seq!['0', 'x']) by {
        assert(digits.take(2)[1] == hr[1]);
    }
    assert(strip_prefix_repeated(digits, seq!['0', 'x']) == digits);
    assert(digits.take(2) != seq!['0', 'X']) by {
        assert(digits.take(2)[1] == hr[1]);
    }
    assert(strip_prefix_repeated(digits, seq!['0', 'X']) == digits);
    assert(strip_prefix_repeated(text, seq!['0', 'x']) == digits);
    assert(all_digits(digits, 16)) by {
        assert forall|i: int| 0 <= i < digits.len() implies digit_value(#[trigger] digits[i], 16) >= 0 by {
            if i < 2 {
                assert(digits[i] == hr[i]);
            } else if i < 4 {
                assert(digits[i] == hg[i - 2]);
            } else {
                assert(digits[i] == hb[i - 4]);
            }
        }
    }
    lemma_digits_value_concat(hr, hg, 16);
    lemma_digits_value_concat(hr + hg, hb, 16);
    reveal_with_fuel(pow_int, 3);
    assert(pow_int(16, 2) == 256);
    assert(digits_value(hr + hg, 16) == (red as int) * 256 + (green as int));
    assert(hb.len() == 2);
    assert(digits_value(hr + hg + hb, 16) == digits_value(hr + hg, 16) * 256 + (blue as int));
    let rgb = (red as int) * 65536 + (green as int) * 256 + (blue as int);
    assert(digits_value(digits, 16) == rgb);
    assert(digits[0] == hr[0]);
    let v = rgb as u32;
    assert(((v >> 16u32) & 0xFFu32) | (((v >> 8u32) & 0xFFu32) << 8u32) | ((v & 0xFFu32) << 16u32)
        == colorref & 0x00FF_FFFFu32) by (bit_vector)
        requires
            red == colorref & 0xFFu32,
            green == (colorref >> 8u32) & 0xFFu32,
            blue == (colorref >> 16u32) & 0xFFu32,
            v == red * 65536 + green * 256 + blue,
    ;
}
} // verus!

verus! {

// ---------------------------------------------------------------------
// The settings file
// ---------------------------------------------------------------------

/// A line without one trailing carriage return.
pub open spec fn without_carriage_return(s: Seq<char>) -> Seq<char> {
    if s.len() > 0 && s.last() == '\r' {
        s.drop_last()
    } else {
        s
    }
}

/// The lines of a text (`str::lines`): split at `\n`, a `\r` before the `\n`
/// dropped, no empty line after a final `\n`.
pub open spec fn file_lines(content: Seq<char>) -> Seq<Seq<char>> {
    let parts = split_char(content, '\n');
    let ended = Seq::new(
        (parts.len() - 1) as nat,
        |i: int| without_carriage_return(parts[i]),
    );
    if parts.last().len() == 0 {
        ended
    } else {
        ended.push(parts.last())
    }
}

/// The hotkeys that the texts denote; texts that denote none are dropped.
pub open spec fn hotkeys_of_texts(texts: Seq<Seq<char>>) -> Seq<(u32, u32)>
    decreases texts.len(),
{
    if texts.len() == 0 {
        Seq::empty()
    } else {
        hotkeys_of_texts(texts.drop_last()) + match hotkey_of_text(texts.last()) {
            Some(h) => seq![h],
            None => Seq::<(u32, u32)>::empty(),
        }
    }
}

/// Languages that the interface can be set to.
pub open spec fn is_ui_language(v: Seq<char>) -> bool {
    v == seq!['a', 'u', 't', 'o'] || v == seq!['e', 'n'] || v == seq!['z', 'h']
}

/// The effect of one `key = value` pair on the settings and on the hotkey list
/// read so far. Unknown keys and values that do not parse change nothing.
pub open spec fn setting_applied(
    m: SettingsModel,
    hotkeys: Seq<(u32, u32)>,
    key: Seq<char>,
    value: Seq<char>,
) -> (SettingsModel, Seq<(u32, u32)>) {
    if key == seq!['v', 'e', 'r', 's', 'i', 'o', 'n'] {
        match number_of_text(value) {
            Some(v) => (SettingsModel { version: v, ..m }, hotkeys),
            None => (m, hotkeys),
        }
    } else if key == seq!['i', 'n', 'p', 'u', 't', '_', 'm', 'e', 't', 'h', 'o', 'd', '_', 'm', 'o', 'd', 'e'] {
        match unquoted(value) {
            Some(v) => match input_method_mode_named(v) {
                Some(x) => (SettingsModel { input_method_mode: x, ..m }, hotkeys),
                None => (m, hotkeys),
            },
            None => (m, hotkeys),
        }
    } else if key == seq!['c', 'h', 'a', 'r', 'a', 'c', 't', 'e', 'r', '_', 'f', 'o', 'r', 'm'] {
        match unquoted(value) {
            Some(v) => match character_form_named(v) {
                Some(x) => (SettingsModel { character_form: x, ..m }, hotkeys),
                None => (m, hotkeys),
            },
            None => (m, hotkeys),
        }
    } else if key == seq!['p', 'u', 'n', 'c', 't', 'u', 'a', 't', 'i', 'o', 'n', '_', 'f', 'o', 'r', 'm'] {
        match unquoted(value) {
            Some(v) => match punctuation_form_named(v) {
                Some(x) => (SettingsModel { punctuation_form: x, ..m }, hotkeys),
                None => (m, hotkeys),
            },
            None => (m, hotkeys),
        }
    } else if key == seq!['c', 'h', 'a', 'r', 'a', 'c', 't', 'e', 'r', '_', 'v', 'a', 'r', 'i', 'a', 'n', 't'] {
        match unquoted(value) {
            Some(v) => match character_variant_named(v) {
                Some(x) => (SettingsModel { character_variant: x, ..m }, hotkeys),
                None => (m, hotkeys),
            },
            None => (m, hotkeys),
        }
    } else if key == seq!['c', 'a', 'n', 'd', 'i', 'd', 'a', 't', 'e', '_', 'p', 'a', 'g', 'e', '_', 's', 'i', 'z', 'e'] {
        match number_of_text(value) {
            Some(v) => (SettingsModel { candidate_page_size: clamped(v, MINIMUM_CANDIDATE_PAGE_SIZE, MAXIMUM_CANDIDATE_PAGE_SIZE), ..m }, hotkeys),
            None => (m, hotkeys),
        }
    } else if key == seq!['c', 'a', 'n', 'd', 'i', 'd', 'a', 't', 'e', '_', 'f', 'o', 'n', 't', '_', 's', 'i', 'z', 'e'] {
        match number_of_text(value) {
            Some(v) => (SettingsModel { candidate_font_size: clamped(v, MINIMUM_CANDIDATE_FONT_SIZE, MAXIMUM_CANDIDATE_FONT_SIZE), ..m }, hotkeys),
            None => (m, hotkeys),
        }
    } else if key == seq!['c', 'a', 'n', 'd', 'i', 'd', 'a', 't', 'e', '_', 'n', 'u', 'm', 'b', 'e', 'r', '_', 'f', 'o', 'n', 't', '_', 's', 'i', 'z', 'e'] {
        match number_of_text(value) {
            Some(v) => (SettingsModel { candidate_number_font_size: clamped(v, MINIMUM_CANDIDATE_FONT_SIZE, MAXIMUM_CANDIDATE_FONT_SIZE), ..m }, hotkeys),
            None => (m, hotkeys),
        }
    } else if key == seq!['c', 'a', 'n', 'd', 'i', 'd', 'a', 't', 'e', '_', 'c', 'o', 'm', 'm', 'e', 'n', 't', '_', 'f', 'o', 'n', 't', '_', 's', 'i', 'z', 'e'] {
        match number_of_text(value) {
            Some(v) => (SettingsModel { candidate_comment_font_size: clamped(v, MINIMUM_CANDIDATE_FONT_SIZE, MAXIMUM_CANDIDATE_FONT_SIZE), ..m }, hotkeys),
            None => (m, hotkeys),
        }
    } else if key == seq!['c', 'a', 'n', 'd', 'i', 'd', 'a', 't', 'e', '_', 't', 'e', 'x', 't', '_', 'c', 'o', 'l', 'o', 'r'] {
        match color_of_text(value) {
            Some(v) => (SettingsModel { candidate_text_color: v, ..m }, hotkeys),
            None => (m, hotkeys),
        }
    } else if key == seq!['c', 'a', 'n', 'd', 'i', 'd', 'a', 't', 'e', '_', 'b', 'a', 'c', 'k', '_', 'c', 'o', 'l', 'o', 'r'] {
        match color_of_text(value) {
            Some(v) => (SettingsModel { candidate_back_color: v, ..m }, hotkeys),
            None => (m, hotkeys),
        }
    } else if key == seq!['c', 'a', 'n', 'd', 'i', 'd', 'a', 't', 'e', '_', 's', 'e', 'l', 'e', 'c', 't', '_', 'c', 'o', 'l', 'o', 'r'] {
        match color_of_text(value) {
            Some(v) => (SettingsModel { candidate_select_color: v, ..m }, hotkeys),
            None => (m, hotkeys),
        }
    } else if key == seq!['c', 'a', 'n', 'd', 'i', 'd', 'a', 't', 'e', '_', 'c', 'o', 'm', 'm', 'e', 'n', 't', '_', 'c', 'o', 'l', 'o', 'r'] {
        match color_of_text(value) {
            Some(v) => (SettingsModel { candidate_comment_color: v, ..m }, hotkeys),
            None => (m, hotkeys),
        }
    } else if key == seq!['o', 'p', 't', 'i', 'o', 'n', 's', '_', 'm', 'e', 'n', 'u', '_', 'k', 'e', 'y', 's'] {
        (m, hotkeys_of_texts(string_array_items(value)))
    } else if key == seq!['u', 'i', '_', 'l', 'a', 'n', 'g', 'u', 'a', 'g', 'e'] {
        match unquoted(value) {
            Some(v) => if is_ui_language(v) {
                (SettingsModel { ui_language: v, ..m }, hotkeys)
            } else {
                (m, hotkeys)
            },
            None => (m, hotkeys),
        }
    } else {
        (m, hotkeys)
    }
}

/// The effect of one line: comments, blank lines, `[section]` lines and
/// lines without `=` change nothing.
pub open spec fn setting_line_applied(
    m: SettingsModel,
    hotkeys: Seq<(u32, u32)>,
    line: Seq<char>,
) -> (SettingsModel, Seq<(u32, u32)>) {
    let l = comment_stripped(line);
    if l.len() == 0 || l[0] == '[' {
        (m, hotkeys)
    } else {
        match find_char(l, '=') {
            Some(i) => setting_applied(m, hotkeys, trim(l.take(i)), trim(l.skip(i + 1))),
            None => (m, hotkeys),
        }
    }
}

/// The effect of the lines, in order.
pub open spec fn setting_lines_applied(
    m: SettingsModel,
    hotkeys: Seq<(u32, u32)>,
    lines: Seq<Seq<char>>,
) -> (SettingsModel, Seq<(u32, u32)>)
    decreases lines.len(),
{
    if lines.len() == 0 {
        (m, hotkeys)
    } else {
        let (m1, h1) = setting_lines_applied(m, hotkeys, lines.drop_last());
        setting_line_applied(m1, h1, lines.last())
    }
}

/// The settings that a settings file holds: the defaults, changed by each
/// line in turn; the hotkey list of the last `options_menu_keys` line
/// replaces the default one unless it is empty.
pub open spec fn settings_of_text(content: Seq<char>) -> SettingsModel {
    let (m, hotkeys) = setting_lines_applied(
        default_settings_model(),
        Seq::empty(),
        file_lines(content),
    );
    if hotkeys.len() > 0 {
        SettingsModel { options_menu_keys: hotkeys, ..m }
    } else {
        m
    }
}

fn hotkeys_of_item_chars(items: &Vec<Vec<char>>) -> (r: Vec<(u32, u32)>)
    ensures
        r@ == hotkeys_of_texts(char_seqs(items@)),
{
    let mut r: Vec<(u32, u32)> = Vec::new();
    let mut i: usize = 0;
    assert(char_seqs(items@).take(0) =~= Seq::<Seq<char>>::empty());
    while i < items.len()
        invariant
            i <= items.len(),
            r@ == hotkeys_of_texts(char_seqs(items@).take(i as int)),
        decreases items.len() - i,
    {
        let ghost before = r@;
        assert(char_seqs(items@).take(i + 1).drop_last() =~= char_seqs(items@).take(i as int));
        assert(char_seqs(items@).take(i + 1).last() == items@[i as int]@);
        match hotkey_of_chars(&items[i]) {
            Some(h) => {
                r.push(h);
                assert(r@ =~= before + seq![h]);
            },
            None => {
                assert(before + Seq::<(u32, u32)>::empty() =~= before);
            },
        }
        i = i + 1;
    }
    assert(char_seqs(items@).take(items.len() as int) =~= char_seqs(items@));
    r
}

fn apply_setting(settings: &mut ImeSettings, hotkeys: &mut Vec<(u32, u32)>, key: &[char], value: &[char])
    ensures
        (final(settings)@, final(hotkeys)@) == setting_applied(old(settings)@, old(hotkeys)@, key@, value@),
{
    let k_version = ['v', 'e', 'r', 's', 'i', 'o', 'n'];
    assert(k_version@ =~= seq!['v', 'e', 'r', 's', 'i', 'o', 'n']);
    if chars_equal(key, &k_version) {
        let t = trim_chars(value);
        if let Some(v) = parse_unsigned_chars(&t, 10) {
            settings.version = v;
        }
        return;
    }
    let k_input_method_mode = ['i', 'n', 'p', 'u', 't', '_', 'm', 'e', 't', 'h', 'o', 'd', '_', 'm', 'o', 'd', 'e'];
    assert(k_input_method_mode@ =~= seq!['i', 'n', 'p', 'u', 't', '_', 'm', 'e', 't', 'h', 'o', 'd', '_', 'm', 'o', 'd', 'e']);
    if chars_equal(key, &k_input_method_mode) {
        if let Some(v) = unquote_chars(value) {
            if let Some(x) = input_method_mode_from_chars(&v) {
                settings.input_method_mode = x;
            }
        }
        return;
    }
    let k_character_form = ['c', 'h', 'a', 'r', 'a', 'c', 't', 'e', 'r', '_', 'f', 'o', 'r', 'm'];
    assert(k_character_form@ =~= seq!['c', 'h', 'a', 'r', 'a', 'c', 't', 'e', 'r', '_', 'f', 'o', 'r', 'm']);
    if chars_equal(key, &k_character_form) {
        if let Some(v) = unquote_chars(value) {
            if let Some(x) = character_form_from_chars(&v) {
                settings.character_form = x;
            }
        }
        return;
    }
    let k_punctuation_form = ['p', 'u', 'n', 'c', 't', 'u', 'a', 't', 'i', 'o', 'n', '_', 'f', 'o', 'r', 'm'];
    assert(k_punctuation_form@ =~= seq!['p', 'u', 'n', 'c', 't', 'u', 'a', 't', 'i', 'o', 'n', '_', 'f', 'o', 'r', 'm']);
    if chars_equal(key, &k_punctuation_form) {
        if let Some(v) = unquote_chars(value) {
            if let Some(x) = punctuation_form_from_chars(&v) {
                settings.punctuation_form = x;
            }
        }
        return;
    }
    let k_character_variant = ['c', 'h', 'a', 'r', 'a', 'c', 't', 'e', 'r', '_', 'v', 'a', 'r', 'i', 'a', 'n', 't'];
    assert(k_character_variant@ =~= seq!['c', 'h', 'a', 'r', 'a', 'c', 't', 'e', 'r', '_', 'v', 'a', 'r', 'i', 'a', 'n', 't']);
    if chars_equal(key, &k_character_variant) {
        if let Some(v) = unquote_chars(value) {
            if let Some(x) = character_variant_from_chars(&v) {
                settings.character_variant = x;
            }
        }
        return;
    }
    let k_candidate_page_size = ['c', 'a', 'n', 'd', 'i', 'd', 'a', 't', 'e', '_', 'p', 'a', 'g', 'e', '_', 's', 'i', 'z', 'e'];
    assert(k_candidate_page_size@ =~= seq!['c', 'a', 'n', 'd', 'i', 'd', 'a', 't', 'e', '_', 'p', 'a', 'g', 'e', '_', 's', 'i', 'z', 'e']);
    if chars_equal(key, &k_candidate_page_size) {
        let t = trim_chars(value);
        if let Some(v) = parse_unsigned_chars(&t, 10) {
            settings.candidate_page_size = candidate_page_size_from_raw(v);
        }
        return;
    }
    let k_candidate_font_size = ['c', 'a', 'n', 'd', 'i', 'd', 'a', 't', 'e', '_', 'f', 'o', 'n', 't', '_', 's', 'i', 'z', 'e'];
    assert(k_candidate_font_size@ =~= seq!['c', 'a', 'n', 'd', 'i', 'd', 'a', 't', 'e', '_', 'f', 'o', 'n', 't', '_', 's', 'i', 'z', 'e']);
    if chars_equal(key, &k_candidate_font_size) {
        let t = trim_chars(value);
        if let Some(v) = parse_unsigned_chars(&t, 10) {
            settings.candidate_font_size = candidate_font_size_from_raw(v);
        }
        return;
    }
    let k_candidate_number_font_size = ['c', 'a', 'n', 'd', 'i', 'd', 'a', 't', 'e', '_', 'n', 'u', 'm', 'b', 'e', 'r', '_', 'f', 'o', 'n', 't', '_', 's', 'i', 'z', 'e'];
    assert(k_candidate_number_font_size@ =~= seq!['c', 'a', 'n', 'd', 'i', 'd', 'a', 't', 'e', '_', 'n', 'u', 'm', 'b', 'e', 'r', '_', 'f', 'o', 'n', 't', '_', 's', 'i', 'z', 'e']);
    if chars_equal(key, &k_candidate_number_font_size) {
        let t = trim_chars(value);
        if let Some(v) = parse_unsigned_chars(&t, 10) {
            settings.candidate_number_font_size = candidate_font_size_from_raw(v);
        }
        return;
    }
    let k_candidate_comment_font_size = ['c', 'a', 'n', 'd', 'i', 'd', 'a', 't', 'e', '_', 'c', 'o', 'm', 'm', 'e', 'n', 't', '_', 'f', 'o', 'n', 't', '_', 's', 'i', 'z', 'e'];
    assert(k_candidate_comment_font_size@ =~= seq!['c', 'a', 'n', 'd', 'i', 'd', 'a', 't', 'e', '_', 'c', 'o', 'm', 'm', 'e', 'n', 't', '_', 'f', 'o', 'n', 't', '_', 's', 'i', 'z', 'e']);
    if chars_equal(key, &k_candidate_comment_font_size) {
        let t = trim_chars(value);
        if let Some(v) = parse_unsigned_chars(&t, 10) {
            settings.candidate_comment_font_size = candidate_font_size_from_raw(v);
        }
        return;
    }
    let k_candidate_text_color = ['c', 'a', 'n', 'd', 'i', 'd', 'a', 't', 'e', '_', 't', 'e', 'x', 't', '_', 'c', 'o', 'l', 'o', 'r'];
    assert(k_candidate_text_color@ =~= seq!['c', 'a', 'n', 'd', 'i', 'd', 'a', 't', 'e', '_', 't', 'e', 'x', 't', '_', 'c', 'o', 'l', 'o', 'r']);
    if chars_equal(key, &k_candidate_text_color) {
        if let Some(v) = color_of_chars(value) {
            settings.candidate_text_color = v;
        }
        return;
    }
    let k_candidate_back_color = ['c', 'a', 'n', 'd', 'i', 'd', 'a', 't', 'e', '_', 'b', 'a', 'c', 'k', '_', 'c', 'o', 'l', 'o', 'r'];
    assert(k_candidate_back_color@ =~= seq!['c', 'a', 'n', 'd', 'i', 'd', 'a', 't', 'e', '_', 'b', 'a', 'c', 'k', '_', 'c', 'o', 'l', 'o', 'r']);
    if chars_equal(key, &k_candidate_back_color) {
        if let Some(v) = color_of_chars(value) {
            settings.candidate_back_color = v;
        }
        return;
    }
    let k_candidate_select_color = ['c', 'a', 'n', 'd', 'i', 'd', 'a', 't', 'e', '_', 's', 'e', 'l', 'e', 'c', 't', '_', 'c', 'o', 'l', 'o', 'r'];
    assert(k_candidate_select_color@ =~= seq!['c', 'a', 'n', 'd', 'i', 'd', 'a', 't', 'e', '_', 's', 'e', 'l', 'e', 'c', 't', '_', 'c', 'o', 'l', 'o', 'r']);
    if chars_equal(key, &k_candidate_select_color) {
        if let Some(v) = color_of_chars(value) {
            settings.candidate_select_color = v;
        }
        return;
    }
    let k_candidate_comment_color = ['c', 'a', 'n', 'd', 'i', 'd', 'a', 't', 'e', '_', 'c', 'o', 'm', 'm', 'e', 'n', 't', '_', 'c', 'o', 'l', 'o', 'r'];
    assert(k_candidate_comment_color@ =~= seq!['c', 'a', 'n', 'd', 'i', 'd', 'a', 't', 'e', '_', 'c', 'o', 'm', 'm', 'e', 'n', 't', '_', 'c', 'o', 'l', 'o', 'r']);
    if chars_equal(key, &k_candidate_comment_color) {
        if let Some(v) = color_of_chars(value) {
            settings.candidate_comment_color = v;
        }
        return;
    }
    let k_options_menu_keys = ['o', 'p', 't', 'i', 'o', 'n', 's', '_', 'm', 'e', 'n', 'u', '_', 'k', 'e', 'y', 's'];
    assert(k_options_menu_keys@ =~= seq!['o', 'p', 't', 'i', 'o', 'n', 's', '_', 'm', 'e', 'n', 'u', '_', 'k', 'e', 'y', 's']);
    if chars_equal(key, &k_options_menu_keys) {
        let items = string_array_item_chars(value);
        *hotkeys = hotkeys_of_item_chars(&items);
        return;
    }
    let k_ui_language = ['u', 'i', '_', 'l', 'a', 'n', 'g', 'u', 'a', 'g', 'e'];
    assert(k_ui_language@ =~= seq!['u', 'i', '_', 'l', 'a', 'n', 'g', 'u', 'a', 'g', 'e']);
    if chars_equal(key, &k_ui_language) {
        if let Some(v) = unquote_chars(value) {
            if chars_equal(&v, &['a', 'u', 't', 'o']) || chars_equal(&v, &['e', 'n']) || chars_equal(
                &v,
                &['z', 'h'],
            ) {
                settings.ui_language = string_from_chars(&v);
            }
        }
        return;
    }
}

fn apply_setting_line(settings: &mut ImeSettings, hotkeys: &mut Vec<(u32, u32)>, line: &[char])
    ensures
        (final(settings)@, final(hotkeys)@) == setting_line_applied(old(settings)@, old(hotkeys)@, line@),
{
    let l = comment_stripped_chars(line);
    if l.len() == 0 || l[0] == '[' {
        return;
    }
    match find_char_index(&l, '=') {
        Some(i) => {
            proof {
                lemma_find_char_bounds(l@, '=');
            }
            let before = sub_chars(&l, 0, i);
            let after = sub_chars(&l, i + 1, l.len());
            assert(before@ =~= l@.take(i as int));
            assert(after@ =~= l@.skip(i + 1));
            let key = trim_chars(&before);
            let value = trim_chars(&after);
            apply_setting(settings, hotkeys, &key, &value);
        },
        None => {},
    }
}

fn file_line_chars(content: &[char]) -> (lines: Vec<Vec<char>>)
    ensures
        char_seqs(lines@) == file_lines(content@),
{
    let parts = split_chars(content, '\n');
    proof {
        lemma_split_char_nonempty(content@, '\n');
    }
    let mut lines: Vec<Vec<char>> = Vec::new();
    let last = parts.len() - 1;
    let mut i: usize = 0;
    let ghost p = char_seqs(parts@);
    while i < last
        invariant
            p == char_seqs(parts@),
            p == split_char(content@, '\n'),
            last == parts.len() - 1,
            i <= last,
            char_seqs(lines@) == Seq::new(i as nat, |k: int| without_carriage_return(p[k])),
        decreases last - i,
    {
        let part = &parts[i];
        assert(part@ == p[i as int]);
        let line = if part.len() > 0 && part[part.len() - 1] == '\r' {
            let l = sub_chars(part, 0, part.len() - 1);
            assert(l@ =~= part@.drop_last());
            l
        } else {
            let l = sub_chars(part, 0, part.len());
            assert(l@ =~= part@);
            l
        };
        assert(line@ == without_carriage_return(p[i as int]));
        let ghost before = char_seqs(lines@);
        lines.push(line);
        assert(char_seqs(lines@) =~= before.push(line@));
        assert(char_seqs(lines@) =~= Seq::new((i + 1) as nat, |k: int| without_carriage_return(p[k])));
        i = i + 1;
    }
    if parts[last].len() > 0 {
        let tail = sub_chars(&parts[last], 0, parts[last].len());
        assert(tail@ =~= p.last());
        lines.push(tail);
    }
    assert(char_seqs(lines@) =~= file_lines(content@));
    lines
}

/// The settings that a settings file holds (see `settings_of_text`).
pub fn parse_settings(content: &str) -> (settings: ImeSettings)
    ensures
        settings@ == settings_of_text(content@),
{
    let chars = chars_of(content);
    let lines = file_line_chars(&chars);
    let mut settings = ImeSettings::default();
    let mut hotkeys: Vec<(u32, u32)> = Vec::new();
    let mut i: usize = 0;
    let ghost all = char_seqs(lines@);
    assert(all.take(0) =~= Seq::<Seq<char>>::empty());
    while i < lines.len()
        invariant
            all == char_seqs(lines@),
            i <= lines.len(),
            (settings@, hotkeys@) == setting_lines_applied(default_settings_model(), Seq::empty(), all.take(i as int)),
        decreases lines.len() - i,
    {
        assert(all.take(i + 1).drop_last() =~= all.take(i as int));
        assert(all.take(i + 1).last() == lines@[i as int]@);
        apply_setting_line(&mut settings, &mut hotkeys, &lines[i]);
        i = i + 1;
    }
    assert(all.take(lines.len() as int) =~= all);
    if hotkeys.len() > 0 {
        settings.options_menu_keys = hotkeys;
    }
    settings
}
} // verus!

verus! {

/// The first line of a written settings file.
pub open spec fn settings_header() -> Seq<char> {
    seq!['#', ' ', 'R', '-', 'C', 'a', 'n', 't', 'o', 'n', 'e', 's', 'e', ' ', 's', 'e', 't', 't', 'i', 'n', 'g', 's', ' ', '\u{2014}', ' ', 'e', 'd', 'i', 't', 'e', 'd', ' ', 'b', 'y', ' ', 'h', 'a', 'n', 'd', ' ', 'o', 'r', ' ', 'b', 'y', ' ', 't', 'h', 'e', ' ', 'c', 'o', 'n', 'f', 'i', 'g', ' ', 'c', 'e', 'n', 't', 'e', 'r', '.']
}

/// The hotkeys written as a comma-separated list of quoted texts.
pub open spec fn quoted_hotkeys(keys: Seq<(u32, u32)>) -> Seq<char>
    decreases keys.len(),
{
    if keys.len() == 0 {
        Seq::empty()
    } else if keys.len() == 1 {
        quoted(hotkey_text(keys[0].0, keys[0].1))
    } else {
        quoted_hotkeys(keys.drop_last()) + seq![',', ' '] + quoted(
            hotkey_text(keys.last().0, keys.last().1),
        )
    }
}

/// A `key = value` line without its line break.
pub open spec fn setting_line(key: Seq<char>, value: Seq<char>) -> Seq<char> {
    key + seq![' ', '=', ' '] + value
}

/// The lines of a written settings file, in canonical order.
pub open spec fn settings_lines(m: SettingsModel) -> Seq<Seq<char>> {
    seq![
        settings_header(),
        setting_line(seq!['v', 'e', 'r', 's', 'i', 'o', 'n'], decimal_text(m.version as nat)),
        setting_line(seq!['i', 'n', 'p', 'u', 't', '_', 'm', 'e', 't', 'h', 'o', 'd', '_', 'm', 'o', 'd', 'e'], quoted(input_method_mode_text(m.input_method_mode))),
        setting_line(seq!['c', 'h', 'a', 'r', 'a', 'c', 't', 'e', 'r', '_', 'f', 'o', 'r', 'm'], quoted(character_form_text(m.character_form))),
        setting_line(seq!['p', 'u', 'n', 'c', 't', 'u', 'a', 't', 'i', 'o', 'n', '_', 'f', 'o', 'r', 'm'], quoted(punctuation_form_text(m.punctuation_form))),
        setting_line(seq!['c', 'h', 'a', 'r', 'a', 'c', 't', 'e', 'r', '_', 'v', 'a', 'r', 'i', 'a', 'n', 't'], quoted(character_variant_text(m.character_variant))),
        setting_line(seq!['c', 'a', 'n', 'd', 'i', 'd', 'a', 't', 'e', '_', 'p', 'a', 'g', 'e', '_', 's', 'i', 'z', 'e'], decimal_text(m.candidate_page_size as nat)),
        setting_line(seq!['c', 'a', 'n', 'd', 'i', 'd', 'a', 't', 'e', '_', 'f', 'o', 'n', 't', '_', 's', 'i', 'z', 'e'], decimal_text(m.candidate_font_size as nat)),
        setting_line(seq!['c', 'a', 'n', 'd', 'i', 'd', 'a', 't', 'e', '_', 'n', 'u', 'm', 'b', 'e', 'r', '_', 'f', 'o', 'n', 't', '_', 's', 'i', 'z', 'e'], decimal_text(m.candidate_number_font_size as nat)),
        setting_line(seq!['c', 'a', 'n', 'd', 'i', 'd', 'a', 't', 'e', '_', 'c', 'o', 'm', 'm', 'e', 'n', 't', '_', 'f', 'o', 'n', 't', '_', 's', 'i', 'z', 'e'], decimal_text(m.candidate_comment_font_size as nat)),
        setting_line(seq!['c', 'a', 'n', 'd', 'i', 'd', 'a', 't', 'e', '_', 't', 'e', 'x', 't', '_', 'c', 'o', 'l', 'o', 'r'], color_text(m.candidate_text_color)),
        setting_line(seq!['c', 'a', 'n', 'd', 'i', 'd', 'a', 't', 'e', '_', 'b', 'a', 'c', 'k', '_', 'c', 'o', 'l', 'o', 'r'], color_text(m.candidate_back_color)),
        setting_line(seq!['c', 'a', 'n', 'd', 'i', 'd', 'a', 't', 'e', '_', 's', 'e', 'l', 'e', 'c', 't', '_', 'c', 'o', 'l', 'o', 'r'], color_text(m.candidate_select_color)),
        setting_line(seq!['c', 'a', 'n', 'd', 'i', 'd', 'a', 't', 'e', '_', 'c', 'o', 'm', 'm', 'e', 'n', 't', '_', 'c', 'o', 'l', 'o', 'r'], color_text(m.candidate_comment_color)),
        setting_line(seq!['o', 'p', 't', 'i', 'o', 'n', 's', '_', 'm', 'e', 'n', 'u', '_', 'k', 'e', 'y', 's'], seq!['['] + quoted_hotkeys(m.options_menu_keys) + seq![']']),
        setting_line(seq!['u', 'i', '_', 'l', 'a', 'n', 'g', 'u', 'a', 'g', 'e'], quoted(m.ui_language)),
    ]
}

/// The lines, each followed by `sep`.
pub open spec fn sep_joined(lines: Seq<Seq<char>>, sep: char) -> Seq<char>
    decreases lines.len(),
{
    if lines.len() == 0 {
        Seq::empty()
    } else {
        sep_joined(lines.drop_last(), sep) + lines.last() + seq![sep]
    }
}

/// The text of a settings file that holds the settings.
pub open spec fn settings_text(m: SettingsModel) -> Seq<char> {
    sep_joined(settings_lines(m), '\n')
}

fn push_setting_line(out: &mut Vec<char>, key: &[char], value: &[char])
    ensures
        final(out)@ == old(out)@ + setting_line(key@, value@) + seq!['\n'],
{
    append_chars(out, key);
    out.push(' ');
    out.push('=');
    out.push(' ');
    append_chars(out, value);
    out.push('\n');
    assert(final(out)@ =~= old(out)@ + setting_line(key@, value@) + seq!['\n']);
}

fn quoted_hotkey_chars(keys: &Vec<(u32, u32)>) -> (r: Vec<char>)
    ensures
        r@ == quoted_hotkeys(keys@),
{
    let mut r: Vec<char> = Vec::new();
    let mut i: usize = 0;
    assert(keys@.take(0) =~= Seq::<(u32, u32)>::empty());
    while i < keys.len()
        invariant
            i <= keys.len(),
            r@ == quoted_hotkeys(keys@.take(i as int)),
        decreases keys.len() - i,
    {
        let (vk, modifiers) = keys[i];
        let text = hotkey_text_chars(vk, modifiers);
        let q = quote_chars(&text);
        assert(keys@.take(i + 1).drop_last() =~= keys@.take(i as int));
        assert(keys@.take(i + 1).last() == keys@[i as int]);
        if i > 0 {
            r.push(',');
            r.push(' ');
        } else {
            assert(keys@.take(1) =~= seq![keys@[0]]);
        }
        let ghost before = r@;
        append_chars(&mut r, &q);
        i = i + 1;
    }
    assert(keys@.take(keys.len() as int) =~= keys@);
    r
}

fn quote_text_chars(text: &[char]) -> (r: Vec<char>)
    ensures
        r@ == quoted(text@),
{
    quote_chars(text)
}

/// The text of a settings file that holds the settings, in canonical order.
pub fn render_settings(settings: &ImeSettings) -> (text: String)
    ensures
        text@ == settings_text(settings@),
{
    let mut out: Vec<char> = Vec::new();
    let header = ['#', ' ', 'R', '-', 'C', 'a', 'n', 't', 'o', 'n', 'e', 's', 'e', ' ', 's', 'e', 't', 't', 'i', 'n', 'g', 's', ' ', '\u{2014}', ' ', 'e', 'd', 'i', 't', 'e', 'd', ' ', 'b', 'y', ' ', 'h', 'a', 'n', 'd', ' ', 'o', 'r', ' ', 'b', 'y', ' ', 't', 'h', 'e', ' ', 'c', 'o', 'n', 'f', 'i', 'g', ' ', 'c', 'e', 'n', 't', 'e', 'r', '.'];
    append_chars(&mut out, &header);
    out.push('\n');
    let ghost m = settings@;
    let ghost lines = settings_lines(m);
    assert(header@ =~= settings_header());
    assert(lines.take(1).drop_last() =~= Seq::<Seq<char>>::empty());
    assert(lines.take(1).last() == settings_header());
    assert(sep_joined(Seq::<Seq<char>>::empty(), '\n') == Seq::<char>::empty());
    assert(out@ =~= sep_joined(lines.take(1), '\n'));
    let key = ['v', 'e', 'r', 's', 'i', 'o', 'n'];
    let value = decimal_chars(settings.version);
    assert(key@ =~= seq!['v', 'e', 'r', 's', 'i', 'o', 'n']);
    assert(setting_line(key@, value@) == lines[1]);
    push_setting_line(&mut out, &key, &value);
    assert(lines.take(2).drop_last() =~= lines.take(1));
    assert(lines.take(2).last() == lines[1]);
    assert(out@ =~= sep_joined(lines.take(2), '\n'));
    let key = ['i', 'n', 'p', 'u', 't', '_', 'm', 'e', 't', 'h', 'o', 'd', '_', 'm', 'o', 'd', 'e'];
    let value = quote_text_chars(&chars_of(input_method_mode_name(settings.input_method_mode)));
    assert(key@ =~= seq!['i', 'n', 'p', 'u', 't', '_', 'm', 'e', 't', 'h', 'o', 'd', '_', 'm', 'o', 'd', 'e']);
    assert(setting_line(key@, value@) == lines[2]);
    push_setting_line(&mut out, &key, &value);
    assert(lines.take(3).drop_last() =~= lines.take(2));
    assert(lines.take(3).last() == lines[2]);
    assert(out@ =~= sep_joined(lines.take(3), '\n'));
    let key = ['c', 'h', 'a', 'r', 'a', 'c', 't', 'e', 'r', '_', 'f', 'o', 'r', 'm'];
    let value = quote_text_chars(&chars_of(character_form_name(settings.character_form)));
    assert(key@ =~= seq!['c', 'h', 'a', 'r', 'a', 'c', 't', 'e', 'r', '_', 'f', 'o', 'r', 'm']);
    assert(setting_line(key@, value@) == lines[3]);
    push_setting_line(&mut out, &key, &value);
    assert(lines.take(4).drop_last() =~= lines.take(3));
    assert(lines.take(4).last() == lines[3]);
    assert(out@ =~= sep_joined(lines.take(4), '\n'));
    let key = ['p', 'u', 'n', 'c', 't', 'u', 'a', 't', 'i', 'o', 'n', '_', 'f', 'o', 'r', 'm'];
    let value = quote_text_chars(&chars_of(punctuation_form_name(settings.punctuation_form)));
    assert(key@ =~= seq!['p', 'u', 'n', 'c', 't', 'u', 'a', 't', 'i', 'o', 'n', '_', 'f', 'o', 'r', 'm']);
    assert(setting_line(key@, value@) == lines[4]);
    push_setting_line(&mut out, &key, &value);
    assert(lines.take(5).drop_last() =~= lines.take(4));
    assert(lines.take(5).last() == lines[4]);
    assert(out@ =~= sep_joined(lines.take(5), '\n'));
    let key = ['c', 'h', 'a', 'r', 'a', 'c', 't', 'e', 'r', '_', 'v', 'a', 'r', 'i', 'a', 'n', 't'];
    let value = quote_text_chars(&chars_of(character_variant_name(settings.character_variant)));
    assert(key@ =~= seq!['c', 'h', 'a', 'r', 'a', 'c', 't', 'e', 'r', '_', 'v', 'a', 'r', 'i', 'a', 'n', 't']);
    assert(setting_line(key@, value@) == lines[5]);
    push_setting_line(&mut out, &key, &value);
    assert(lines.take(6).drop_last() =~= lines.take(5));
    assert(lines.take(6).last() == lines[5]);
    assert(out@ =~= sep_joined(lines.take(6), '\n'));
    let key = ['c', 'a', 'n', 'd', 'i', 'd', 'a', 't', 'e', '_', 'p', 'a', 'g', 'e', '_', 's', 'i', 'z', 'e'];
    let value = decimal_chars(settings.candidate_page_size);
    assert(key@ =~= seq!['c', 'a', 'n', 'd', 'i', 'd', 'a', 't', 'e', '_', 'p', 'a', 'g', 'e', '_', 's', 'i', 'z', 'e']);
    assert(setting_line(key@, value@) == lines[6]);
    push_setting_line(&mut out, &key, &value);
    assert(lines.take(7).drop_last() =~= lines.take(6));
    assert(lines.take(7).last() == lines[6]);
    assert(out@ =~= sep_joined(lines.take(7), '\n'));
    let key = ['c', 'a', 'n', 'd', 'i', 'd', 'a', 't', 'e', '_', 'f', 'o', 'n', 't', '_', 's', 'i', 'z', 'e'];
    let value = decimal_chars(settings.candidate_font_size);
    assert(key@ =~= seq!['c', 'a', 'n', 'd', 'i', 'd', 'a', 't', 'e', '_', 'f', 'o', 'n', 't', '_', 's', 'i', 'z', 'e']);
    assert(setting_line(key@, value@) == lines[7]);
    push_setting_line(&mut out, &key, &value);
    assert(lines.take(8).drop_last() =~= lines.take(7));
    assert(lines.take(8).last() == lines[7]);
    assert(out@ =~= sep_joined(lines.take(8), '\n'));
    let key = ['c', 'a', 'n', 'd', 'i', 'd', 'a', 't', 'e', '_', 'n', 'u', 'm', 'b', 'e', 'r', '_', 'f', 'o', 'n', 't', '_', 's', 'i', 'z', 'e'];
    let value = decimal_chars(settings.candidate_number_font_size);
    assert(key@ =~= seq!['c', 'a', 'n', 'd', 'i', 'd', 'a', 't', 'e', '_', 'n', 'u', 'm', 'b', 'e', 'r', '_', 'f', 'o', 'n', 't', '_', 's', 'i', 'z', 'e']);
    assert(setting_line(key@, value@) == lines[8]);
    push_setting_line(&mut out, &key, &value);
    assert(lines.take(9).drop_last() =~= lines.take(8));
    assert(lines.take(9).last() == lines[8]);
    assert(out@ =~= sep_joined(lines.take(9), '\n'));
    let key = ['c', 'a', 'n', 'd', 'i', 'd', 'a', 't', 'e', '_', 'c', 'o', 'm', 'm', 'e', 'n', 't', '_', 'f', 'o', 'n', 't', '_', 's', 'i', 'z', 'e'];
    let value = decimal_chars(settings.candidate_comment_font_size);
    assert(key@ =~= seq!['c', 'a', 'n', 'd', 'i', 'd', 'a', 't', 'e', '_', 'c', 'o', 'm', 'm', 'e', 'n', 't', '_', 'f', 'o', 'n', 't', '_', 's', 'i', 'z', 'e']);
    assert(setting_line(key@, value@) == lines[9]);
    push_setting_line(&mut out, &key, &value);
    assert(lines.take(10).drop_last() =~= lines.take(9));
    assert(lines.take(10).last() == lines[9]);
    assert(out@ =~= sep_joined(lines.take(10), '\n'));
    let key = ['c', 'a', 'n', 'd', 'i', 'd', 'a', 't', 'e', '_', 't', 'e', 'x', 't', '_', 'c', 'o', 'l', 'o', 'r'];
    let value = color_chars(settings.candidate_text_color);
    assert(key@ =~= seq!['c', 'a', 'n', 'd', 'i', 'd', 'a', 't', 'e', '_', 't', 'e', 'x', 't', '_', 'c', 'o', 'l', 'o', 'r']);
    assert(setting_line(key@, value@) == lines[10]);
    push_setting_line(&mut out, &key, &value);
    assert(lines.take(11).drop_last() =~= lines.take(10));
    assert(lines.take(11).last() == lines[10]);
    assert(out@ =~= sep_joined(lines.take(11), '\n'));
    let key = ['c', 'a', 'n', 'd', 'i', 'd', 'a', 't', 'e', '_', 'b', 'a', 'c', 'k', '_', 'c', 'o', 'l', 'o', 'r'];
    let value = color_chars(settings.candidate_back_color);
    assert(key@ =~= seq!['c', 'a', 'n', 'd', 'i', 'd', 'a', 't', 'e', '_', 'b', 'a', 'c', 'k', '_', 'c', 'o', 'l', 'o', 'r']);
    assert(setting_line(key@, value@) == lines[11]);
    push_setting_line(&mut out, &key, &value);
    assert(lines.take(12).drop_last() =~= lines.take(11));
    assert(lines.take(12).last() == lines[11]);
    assert(out@ =~= sep_joined(lines.take(12), '\n'));
    let key = ['c', 'a', 'n', 'd', 'i', 'd', 'a', 't', 'e', '_', 's', 'e', 'l', 'e', 'c', 't', '_', 'c', 'o', 'l', 'o', 'r'];
    let value = color_chars(settings.candidate_select_color);
    assert(key@ =~= seq!['c', 'a', 'n', 'd', 'i', 'd', 'a', 't', 'e', '_', 's', 'e', 'l', 'e', 'c', 't', '_', 'c', 'o', 'l', 'o', 'r']);
    assert(setting_line(key@, value@) == lines[12]);
    push_setting_line(&mut out, &key, &value);
    assert(lines.take(13).drop_last() =~= lines.take(12));
    assert(lines.take(13).last() == lines[12]);
    assert(out@ =~= sep_joined(lines.take(13), '\n'));
    let key = ['c', 'a', 'n', 'd', 'i', 'd', 'a', 't', 'e', '_', 'c', 'o', 'm', 'm', 'e', 'n', 't', '_', 'c', 'o', 'l', 'o', 'r'];
    let value = color_chars(settings.candidate_comment_color);
    assert(key@ =~= seq!['c', 'a', 'n', 'd', 'i', 'd', 'a', 't', 'e', '_', 'c', 'o', 'm', 'm', 'e', 'n', 't', '_', 'c', 'o', 'l', 'o', 'r']);
    assert(setting_line(key@, value@) == lines[13]);
    push_setting_line(&mut out, &key, &value);
    assert(lines.take(14).drop_last() =~= lines.take(13));
    assert(lines.take(14).last() == lines[13]);
    assert(out@ =~= sep_joined(lines.take(14), '\n'));
    let key = ['o', 'p', 't', 'i', 'o', 'n', 's', '_', 'm', 'e', 'n', 'u', '_', 'k', 'e', 'y', 's'];
    let mut value: Vec<char> = Vec::new();
    value.push('[');
    append_chars(&mut value, &quoted_hotkey_chars(&settings.options_menu_keys));
    value.push(']');
    assert(key@ =~= seq!['o', 'p', 't', 'i', 'o', 'n', 's', '_', 'm', 'e', 'n', 'u', '_', 'k', 'e', 'y', 's']);
    assert(setting_line(key@, value@) == lines[14]);
    push_setting_line(&mut out, &key, &value);
    assert(lines.take(15).drop_last() =~= lines.take(14));
    assert(lines.take(15).last() == lines[14]);
    assert(out@ =~= sep_joined(lines.take(15), '\n'));
    let key = ['u', 'i', '_', 'l', 'a', 'n', 'g', 'u', 'a', 'g', 'e'];
    let value = quote_text_chars(&chars_of(settings.ui_language.as_str()));
    assert(key@ =~= seq!['u', 'i', '_', 'l', 'a', 'n', 'g', 'u', 'a', 'g', 'e']);
    assert(setting_line(key@, value@) == lines[15]);
    push_setting_line(&mut out, &key, &value);
    assert(lines.take(16).drop_last() =~= lines.take(15));
    assert(lines.take(16).last() == lines[15]);
    assert(out@ =~= sep_joined(lines.take(16), '\n'));
    assert(lines.take(16) =~= lines);
    string_from_chars(&out)
}
} // verus!

verus! {

// ---------------------------------------------------------------------
// A written settings file reads back as the same settings
// ---------------------------------------------------------------------

proof fn lemma_split_sep_joined(lines: Seq<Seq<char>>, tail: Seq<char>, sep: char)
    requires
        forall|i: int| 0 <= i < lines.len() ==> !lines[i].contains(sep),
        !tail.contains(sep),
    ensures
        split_char(sep_joined(lines, sep) + tail, sep) == lines.push(tail),
    decreases lines.len(),
{
    if lines.len() == 0 {
        assert(sep_joined(lines, sep) + tail =~= tail);
        assert forall|i: int| 0 <= i < tail.len() implies tail[i] != sep by {
            if tail[i] == sep {
                assert(tail.contains(sep));
            }
        }
        lemma_split_char_without_sep(tail, sep);
        assert(lines.push(tail) =~= seq![tail]);
    } else {
        let init = lines.drop_last();
        assert forall|i: int| 0 <= i < init.len() implies !init[i].contains(sep) by {
            assert(init[i] == lines[i]);
        }
        assert(!lines.last().contains(sep));
        lemma_split_sep_joined(init, lines.last(), sep);
        assert(sep_joined(lines, sep) + tail =~= (sep_joined(init, sep) + lines.last()) + seq![sep]
            + tail);
        lemma_split_char_concat(sep_joined(init, sep) + lines.last(), tail, sep);
        assert forall|i: int| 0 <= i < tail.len() implies tail[i] != sep by {
            if tail[i] == sep {
                assert(tail.contains(sep));
            }
        }
        lemma_split_char_without_sep(tail, sep);
        assert(init.push(lines.last()) + seq![tail] =~= lines.push(tail));
    }
}

proof fn lemma_replace_absent(s: Seq<char>, pattern: Seq<char>, replacement: Seq<char>)
    requires
        pattern.len() > 0,
        !s.contains(pattern[0]),
    ensures
        replace_all(s, pattern, replacement) == s,
    decreases s.len(),
{
    if s.len() >= pattern.len() {
        assert(s.take(pattern.len() as int)[0] == s[0]);
        assert(s.take(pattern.len() as int) != pattern);
        assert(!s.skip(1).contains(pattern[0])) by {
            if s.skip(1).contains(pattern[0]) {
                let j = choose|j: int| 0 <= j < s.skip(1).len() && s.skip(1)[j] == pattern[0];
                assert(s[j + 1] == pattern[0]);
            }
        }
        lemma_replace_absent(s.skip(1), pattern, replacement);
        assert(seq![s[0]] + s.skip(1) =~= s);
    }
}

/// Text that a quoted value keeps as it is: no quote and no backslash.
pub open spec fn plain_text(s: Seq<char>) -> bool {
    !s.contains('"') && !s.contains('\\')
}

/// Characters that a written value may hold: printable ASCII other than `#`.
pub open spec fn is_value_char(c: char) -> bool {
    ' ' <= c && c <= '~' && c != '#'
}

/// A written value: not empty, no white space at either end, and value
/// characters only.
pub open spec fn is_line_value(v: Seq<char>) -> bool {
    &&& v.len() > 0
    &&& !is_white_space(v[0])
    &&& !is_white_space(v.last())
    &&& forall|j: int| 0 <= j < v.len() ==> is_value_char(#[trigger] v[j])
}

proof fn lemma_quoted_plain(s: Seq<char>)
    requires
        plain_text(s),
    ensures
        quoted(s) == seq!['"'] + s + seq!['"'],
        unquoted(quoted(s)) == Some(s),
        unquoted(seq![' '] + quoted(s)) == Some(s),
{
    lemma_replace_absent(s, seq!['\\'], seq!['\\', '\\']);
    lemma_replace_absent(s, seq!['"'], seq!['\\', '"']);
    let q = seq!['"'] + s + seq!['"'];
    assert(quoted(s) =~= q);
    assert(!is_white_space(q[0]) && !is_white_space(q.last()));
    assert(trim_start(q) == q);
    assert(trim(q) == q);
    assert(q.subrange(1, q.len() - 1) =~= s);
    lemma_replace_absent(s, seq!['\\', '"'], seq!['"']);
    lemma_replace_absent(s, seq!['\\', '\\'], seq!['\\']);
    let sq = seq![' '] + q;
    assert(sq.drop_first() =~= q);
    assert(trim_start(sq) == trim_start(q));
}


/// Characters of the names that a hotkey text is made of.
pub open spec fn is_hotkey_char(c: char) -> bool {
    ('a' <= c && c <= 'z') || ('0' <= c && c <= '9') || c == '+' || c == '`' || c == '\''
}

pub(crate) proof fn lemma_hotkey_text_chars(vk: u32, modifiers: u32)
    requires
        is_named_key(vk),
    ensures
        forall|i: int| 0 <= i < hotkey_text(vk, modifiers).len() ==> is_hotkey_char(#[trigger] hotkey_text(vk, modifiers)[i]),
        hotkey_text(vk, modifiers).len() > 0,
{
    let k = key_text(vk);
    lemma_key_text(vk);
    assert forall|i: int| 0 <= i < k.len() implies is_hotkey_char(#[trigger] k[i]) by {
        if 0x70 <= vk && vk <= 0x7B {
            lemma_decimal_text((vk - 0x6F) as nat);
            let d = decimal_text((vk - 0x6F) as nat);
            if i > 0 {
                assert(k[i] == d[i - 1]);
                assert(digit_value(d[i - 1], 10) >= 0);
            }
        } else if 0x30 <= vk && vk <= 0x39 {
            lemma_decimal_text((vk - 0x30) as nat);
        }
    }
    let ctrl = seq!['c', 't', 'r', 'l', '+'];
    let shift = seq!['s', 'h', 'i', 'f', 't', '+'];
    let alt = seq!['a', 'l', 't', '+'];
    let c = if modifiers & TF_MOD_CONTROL != 0 { ctrl } else { Seq::<char>::empty() };
    let s = if modifiers & TF_MOD_SHIFT != 0 { shift } else { Seq::<char>::empty() };
    let a = if modifiers & TF_MOD_ALT != 0 { alt } else { Seq::<char>::empty() };
    let t = hotkey_text(vk, modifiers);
    assert(t =~= c + s + a + k);
    assert forall|i: int| 0 <= i < t.len() implies is_hotkey_char(#[trigger] t[i]) by {
        if i < c.len() {
            assert(t[i] == c[i]);
        } else if i < c.len() + s.len() {
            assert(t[i] == s[i - c.len()]);
        } else if i < c.len() + s.len() + a.len() {
            assert(t[i] == a[i - c.len() - s.len()]);
        } else {
            assert(t[i] == k[i - c.len() - s.len() - a.len()]);
        }
    }
}

proof fn lemma_not_contains(s: Seq<char>, c: char)
    requires
        forall|i: int| 0 <= i < s.len() ==> s[i] != c,
    ensures
        !s.contains(c),
{
}

/// Hotkeys that `render_settings` writes and `parse_settings` reads back:
/// named keys with any of control, shift and alt.
pub open spec fn is_written_hotkey(h: (u32, u32)) -> bool {
    is_named_key(h.0) && h.1 <= 7
}

/// The pieces between the commas of a written hotkey list.
pub open spec fn hotkey_pieces(keys: Seq<(u32, u32)>) -> Seq<Seq<char>> {
    Seq::new(
        keys.len(),
        |i: int|
            if i == 0 {
                quoted(hotkey_text(keys[i].0, keys[i].1))
            } else {
                seq![' '] + quoted(hotkey_text(keys[i].0, keys[i].1))
            },
    )
}

proof fn lemma_quoted_hotkey(h: (u32, u32))
    requires
        is_written_hotkey(h),
    ensures
        plain_text(hotkey_text(h.0, h.1)),
        quoted(hotkey_text(h.0, h.1)) == seq!['"'] + hotkey_text(h.0, h.1) + seq!['"'],
        !quoted(hotkey_text(h.0, h.1)).contains(','),
        forall|i: int| 0 <= i < quoted(hotkey_text(h.0, h.1)).len() ==> is_value_char(#[trigger] quoted(hotkey_text(h.0, h.1))[i]),
        unquoted(quoted(hotkey_text(h.0, h.1))) == Some(hotkey_text(h.0, h.1)),
        unquoted(seq![' '] + quoted(hotkey_text(h.0, h.1))) == Some(hotkey_text(h.0, h.1)),
        hotkey_of_text(hotkey_text(h.0, h.1)) == Some(h),
{
    let t = hotkey_text(h.0, h.1);
    lemma_hotkey_text_chars(h.0, h.1);
    lemma_not_contains(t, '"');
    lemma_not_contains(t, '\\');
    lemma_quoted_plain(t);
    let q = quoted(t);
    assert forall|i: int| 0 <= i < q.len() implies q[i] != ',' && is_value_char(#[trigger] q[i]) by {
        if 0 < i < q.len() - 1 {
            assert(q[i] == t[i - 1]);
        }
    }
    lemma_not_contains(q, ',');
    lemma_hotkey_roundtrip(h.0, h.1);
}

proof fn lemma_quoted_hotkeys_split(keys: Seq<(u32, u32)>)
    requires
        keys.len() > 0,
        forall|i: int| 0 <= i < keys.len() ==> is_written_hotkey(#[trigger] keys[i]),
    ensures
        split_char(quoted_hotkeys(keys), ',') == hotkey_pieces(keys),
        forall|i: int| 0 <= i < quoted_hotkeys(keys).len() ==> is_value_char(#[trigger] quoted_hotkeys(keys)[i]),
        hotkeys_of_texts(unquoted_parts(hotkey_pieces(keys))) == keys,
    decreases keys.len(),
{
    let last = keys.last();
    assert(is_written_hotkey(keys[keys.len() - 1]));
    lemma_quoted_hotkey(last);
    let ql = quoted(hotkey_text(last.0, last.1));
    if keys.len() == 1 {
        assert forall|i: int| 0 <= i < ql.len() implies ql[i] != ',' by {
            if ql[i] == ',' {
                assert(ql.contains(','));
            }
        }
        lemma_split_char_without_sep(ql, ',');
        assert(hotkey_pieces(keys) =~= seq![ql]);
        let t = hotkey_text(last.0, last.1);
        assert(seq![ql].drop_last() =~= Seq::<Seq<char>>::empty());
        assert(seq![ql].last() == ql);
        assert(unquoted(ql) == Some(t));
        assert(unquoted_parts(Seq::<Seq<char>>::empty()) == Seq::<Seq<char>>::empty());
        assert(Seq::<Seq<char>>::empty() + seq![t] =~= seq![t]);
        assert(unquoted_parts(seq![ql]) =~= seq![t]);
        assert(seq![t].drop_last() =~= Seq::<Seq<char>>::empty());
        assert(seq![t].last() == t);
        assert(hotkey_of_text(t) == Some(last));
        assert(hotkeys_of_texts(Seq::<Seq<char>>::empty()) == Seq::<(u32, u32)>::empty());
        assert(Seq::<(u32, u32)>::empty() + seq![last] =~= seq![last]);
        assert(hotkeys_of_texts(seq![hotkey_text(last.0, last.1)]) =~= seq![last]);
        assert(keys =~= seq![last]);
    } else {
        let init = keys.drop_last();
        assert forall|i: int| 0 <= i < init.len() implies is_written_hotkey(#[trigger] init[i]) by {
            assert(init[i] == keys[i]);
        }
        lemma_quoted_hotkeys_split(init);
        let piece = seq![' '] + ql;
        assert(quoted_hotkeys(keys) =~= quoted_hotkeys(init) + seq![','] + piece);
        assert forall|i: int| 0 <= i < piece.len() implies piece[i] != ',' && is_value_char(#[trigger] piece[i]) by {
            if i > 0 {
                assert(piece[i] == ql[i - 1]);
                if ql[i - 1] == ',' {
                    assert(ql.contains(','));
                }
            }
        }
        lemma_split_char_concat(quoted_hotkeys(init), piece, ',');
        lemma_split_char_without_sep(piece, ',');
        assert(hotkey_pieces(keys) =~= hotkey_pieces(init).push(piece));
        let all = quoted_hotkeys(keys);
        assert forall|i: int| 0 <= i < all.len() implies is_value_char(#[trigger] all[i]) by {
            let n = quoted_hotkeys(init).len();
            if i < n {
                assert(all[i] == quoted_hotkeys(init)[i]);
            } else if i > n {
                assert(all[i] == piece[i - n - 1]);
            }
        }
        assert(hotkey_pieces(keys).drop_last() =~= hotkey_pieces(init));
        assert(hotkey_pieces(keys).last() == piece);
        let texts = unquoted_parts(hotkey_pieces(keys));
        assert(texts =~= unquoted_parts(hotkey_pieces(init)).push(hotkey_text(last.0, last.1)));
        assert(texts.drop_last() =~= unquoted_parts(hotkey_pieces(init)));
        assert(hotkeys_of_texts(texts) =~= init.push(last));
        assert(init.push(last) =~= keys);
    }
}


proof fn lemma_setting_line_parsed(
    m: SettingsModel,
    hotkeys: Seq<(u32, u32)>,
    key: Seq<char>,
    value: Seq<char>,
)
    requires
        key.len() > 0,
        key[0] != '[',
        forall|i: int| 0 <= i < key.len() ==> !is_white_space(#[trigger] key[i]) && key[i] != '#' && key[i] != '=',
        is_line_value(value),
    ensures
        setting_line_applied(m, hotkeys, setting_line(key, value)) == setting_applied(m, hotkeys, key, value),
{
    let line = setting_line(key, value);
    let n = key.len() as int;
    assert(line =~= key + seq![' ', '=', ' '] + value);
    assert forall|j: int| 0 <= j < line.len() implies line[j] != '#' by {
        if j >= n + 3 {
            assert(line[j] == value[j - n - 3]);
            assert(is_value_char(value[j - n - 3]));
        } else if j < n {
            assert(line[j] == key[j]);
        }
    }
    lemma_find_char(line, '#', line.len() as int);
    assert(line.last() == value.last());
    assert(comment_stripped(line) == line);
    assert forall|j: int| 0 <= j < n + 1 implies line[j] != '=' by {
        if j < n {
            assert(line[j] == key[j]);
        }
    }
    lemma_find_char(line, '=', n + 1);
    let before = line.take(n + 1);
    let after = line.skip(n + 2);
    assert(before =~= key.push(' '));
    assert(before.drop_last() =~= key);
    assert(trim_start(before) == before);
    assert(trim_end(before) == trim_end(key));
    assert(trim_end(key) == key);
    assert(after =~= seq![' '] + value);
    assert(after.drop_first() =~= value);
    assert(trim_start(after) == trim_start(value));
    assert(trim_start(value) == value);
    assert(trim_end(value) == value);
}

/// Settings that `render_settings` writes and `parse_settings` reads back
/// unchanged: sizes in their ranges, colors without a high byte, at least one
/// hotkey and only hotkeys that can be written, a known interface language,
/// and no tray icon (the file does not hold that setting).
pub open spec fn is_writable_settings(m: SettingsModel) -> bool {
    &&& MINIMUM_CANDIDATE_PAGE_SIZE <= m.candidate_page_size <= MAXIMUM_CANDIDATE_PAGE_SIZE
    &&& MINIMUM_CANDIDATE_FONT_SIZE <= m.candidate_font_size <= MAXIMUM_CANDIDATE_FONT_SIZE
    &&& MINIMUM_CANDIDATE_FONT_SIZE <= m.candidate_number_font_size <= MAXIMUM_CANDIDATE_FONT_SIZE
    &&& MINIMUM_CANDIDATE_FONT_SIZE <= m.candidate_comment_font_size <= MAXIMUM_CANDIDATE_FONT_SIZE
    &&& m.candidate_text_color <= 0x00FF_FFFF
    &&& m.candidate_back_color <= 0x00FF_FFFF
    &&& m.candidate_select_color <= 0x00FF_FFFF
    &&& m.candidate_comment_color <= 0x00FF_FFFF
    &&& m.options_menu_keys.len() > 0
    &&& forall|i: int| 0 <= i < m.options_menu_keys.len() ==> is_written_hotkey(#[trigger] m.options_menu_keys[i])
    &&& is_ui_language(m.ui_language)
    &&& !m.display_tray_icon
}

proof fn lemma_decimal_value_line(n: u32)
    ensures
        number_of_text(decimal_text(n as nat)) == Some(n),
        is_line_value(decimal_text(n as nat)),
{
    lemma_decimal_text(n as nat);
    let d = decimal_text(n as nat);
    assert forall|i: int| 0 <= i < d.len() implies is_value_char(#[trigger] d[i]) by {
        assert(digit_value(d[i], 10) >= 0);
    }
    lemma_trim_unchanged(d);
}

proof fn lemma_color_value_line(c: u32)
    requires
        c <= 0x00FF_FFFF,
    ensures
        color_of_text(color_text(c)) == Some(c),
        is_line_value(color_text(c)),
{
    lemma_color_roundtrip(c);
    assert(c & 0x00FF_FFFFu32 == c) by (bit_vector)
        requires
            c <= 0x00FF_FFFF,
    ;
    let red = c & 0xFFu32;
    let green = (c >> 8u32) & 0xFFu32;
    let blue = (c >> 16u32) & 0xFFu32;
    assert(red < 256 && green < 256 && blue < 256) by (bit_vector)
        requires
            red == c & 0xFFu32,
            green == (c >> 8u32) & 0xFFu32,
            blue == (c >> 16u32) & 0xFFu32,
    ;
    let t = color_text(c);
    let hr = hex_byte_upper(red as nat);
    let hg = hex_byte_upper(green as nat);
    let hb = hex_byte_upper(blue as nat);
    assert(t =~= seq!['0', 'x'] + hr + hg + hb);
    assert forall|i: int| 0 <= i < t.len() implies is_value_char(#[trigger] t[i]) by {
        if i >= 2 && i < 4 {
            assert(t[i] == hr[i - 2]);
        } else if i >= 4 && i < 6 {
            assert(t[i] == hg[i - 4]);
        } else if i >= 6 {
            assert(t[i] == hb[i - 6]);
        }
    }
}

proof fn lemma_name_value_line(name: Seq<char>)
    requires
        name.len() > 0,
        forall|i: int| 0 <= i < name.len() ==> 'a' <= #[trigger] name[i] <= 'z',
    ensures
        unquoted(quoted(name)) == Some(name),
        is_line_value(quoted(name)),
{
    assert forall|i: int| 0 <= i < name.len() implies name[i] != '"' && name[i] != '\\' by {}
    lemma_not_contains(name, '"');
    lemma_not_contains(name, '\\');
    lemma_quoted_plain(name);
    let q = quoted(name);
    assert forall|i: int| 0 <= i < q.len() implies is_value_char(#[trigger] q[i]) by {
        if 0 < i < q.len() - 1 {
            assert(q[i] == name[i - 1]);
        }
    }
}

proof fn lemma_enum_names(m: SettingsModel)
    ensures
        unquoted(quoted(input_method_mode_text(m.input_method_mode))) == Some(input_method_mode_text(m.input_method_mode)),
        is_line_value(quoted(input_method_mode_text(m.input_method_mode))),
        input_method_mode_named(input_method_mode_text(m.input_method_mode)) == Some(m.input_method_mode),
        unquoted(quoted(character_form_text(m.character_form))) == Some(character_form_text(m.character_form)),
        is_line_value(quoted(character_form_text(m.character_form))),
        character_form_named(character_form_text(m.character_form)) == Some(m.character_form),
        unquoted(quoted(punctuation_form_text(m.punctuation_form))) == Some(punctuation_form_text(m.punctuation_form)),
        is_line_value(quoted(punctuation_form_text(m.punctuation_form))),
        punctuation_form_named(punctuation_form_text(m.punctuation_form)) == Some(m.punctuation_form),
        unquoted(quoted(character_variant_text(m.character_variant))) == Some(character_variant_text(m.character_variant)),
        is_line_value(quoted(character_variant_text(m.character_variant))),
        character_variant_named(character_variant_text(m.character_variant)) == Some(m.character_variant),
{
    let a = input_method_mode_text(m.input_method_mode);
    let b = character_form_text(m.character_form);
    let c = punctuation_form_text(m.punctuation_form);
    let v = character_variant_text(m.character_variant);
    assert forall|i: int| 0 <= i < a.len() implies 'a' <= #[trigger] a[i] <= 'z' by {}
    assert forall|i: int| 0 <= i < b.len() implies 'a' <= #[trigger] b[i] <= 'z' by {}
    assert forall|i: int| 0 <= i < c.len() implies 'a' <= #[trigger] c[i] <= 'z' by {}
    assert forall|i: int| 0 <= i < v.len() implies 'a' <= #[trigger] v[i] <= 'z' by {}
    lemma_name_value_line(a);
    lemma_name_value_line(b);
    lemma_name_value_line(c);
    lemma_name_value_line(v);
}

proof fn lemma_ui_language_value(lang: Seq<char>)
    requires
        is_ui_language(lang),
    ensures
        unquoted(quoted(lang)) == Some(lang),
        is_line_value(quoted(lang)),
{
    assert forall|i: int| 0 <= i < lang.len() implies 'a' <= #[trigger] lang[i] <= 'z' by {}
    lemma_name_value_line(lang);
}

proof fn lemma_options_value(keys: Seq<(u32, u32)>)
    requires
        keys.len() > 0,
        forall|i: int| 0 <= i < keys.len() ==> is_written_hotkey(#[trigger] keys[i]),
    ensures
        hotkeys_of_texts(string_array_items(seq!['['] + quoted_hotkeys(keys) + seq![']'])) == keys,
        is_line_value(seq!['['] + quoted_hotkeys(keys) + seq![']']),
{
    lemma_quoted_hotkeys_split(keys);
    let inner = quoted_hotkeys(keys);
    let v = seq!['['] + inner + seq![']'];
    assert(!is_white_space(v[0]) && !is_white_space(v.last()));
    assert(trim_start(v) == v);
    assert(trim(v) == v);
    assert(v.subrange(1, v.len() - 1) =~= inner);
    assert forall|i: int| 0 <= i < v.len() implies is_value_char(#[trigger] v[i]) by {
        if 0 < i < v.len() - 1 {
            assert(v[i] == inner[i - 1]);
        }
    }
}

/// Names of the settings, in the order in which the file writes them.
pub open spec fn setting_key(i: int) -> Seq<char> {
    if i == 0 {
        seq!['v', 'e', 'r', 's', 'i', 'o', 'n']
    } else if i == 1 {
        seq!['i', 'n', 'p', 'u', 't', '_', 'm', 'e', 't', 'h', 'o', 'd', '_', 'm', 'o', 'd', 'e']
    } else if i == 2 {
        seq!['c', 'h', 'a', 'r', 'a', 'c', 't', 'e', 'r', '_', 'f', 'o', 'r', 'm']
    } else if i == 3 {
        seq!['p', 'u', 'n', 'c', 't', 'u', 'a', 't', 'i', 'o', 'n', '_', 'f', 'o', 'r', 'm']
    } else if i == 4 {
        seq!['c', 'h', 'a', 'r', 'a', 'c', 't', 'e', 'r', '_', 'v', 'a', 'r', 'i', 'a', 'n', 't']
    } else if i == 5 {
        seq!['c', 'a', 'n', 'd', 'i', 'd', 'a', 't', 'e', '_', 'p', 'a', 'g', 'e', '_', 's', 'i', 'z', 'e']
    } else if i == 6 {
        seq!['c', 'a', 'n', 'd', 'i', 'd', 'a', 't', 'e', '_', 'f', 'o', 'n', 't', '_', 's', 'i', 'z', 'e']
    } else if i == 7 {
        seq!['c', 'a', 'n', 'd', 'i', 'd', 'a', 't', 'e', '_', 'n', 'u', 'm', 'b', 'e', 'r', '_', 'f', 'o', 'n', 't', '_', 's', 'i', 'z', 'e']
    } else if i == 8 {
        seq!['c', 'a', 'n', 'd', 'i', 'd', 'a', 't', 'e', '_', 'c', 'o', 'm', 'm', 'e', 'n', 't', '_', 'f', 'o', 'n', 't', '_', 's', 'i', 'z', 'e']
    } else if i == 9 {
        seq!['c', 'a', 'n', 'd', 'i', 'd', 'a', 't', 'e', '_', 't', 'e', 'x', 't', '_', 'c', 'o', 'l', 'o', 'r']
    } else if i == 10 {
        seq!['c', 'a', 'n', 'd', 'i', 'd', 'a', 't', 'e', '_', 'b', 'a', 'c', 'k', '_', 'c', 'o', 'l', 'o', 'r']
    } else if i == 11 {
        seq!['c', 'a', 'n', 'd', 'i', 'd', 'a', 't', 'e', '_', 's', 'e', 'l', 'e', 'c', 't', '_', 'c', 'o', 'l', 'o', 'r']
    } else if i == 12 {
        seq!['c', 'a', 'n', 'd', 'i', 'd', 'a', 't', 'e', '_', 'c', 'o', 'm', 'm', 'e', 'n', 't', '_', 'c', 'o', 'l', 'o', 'r']
    } else if i == 13 {
        seq!['o', 'p', 't', 'i', 'o', 'n', 's', '_', 'm', 'e', 'n', 'u', '_', 'k', 'e', 'y', 's']
    } else if i == 14 {
        seq!['u', 'i', '_', 'l', 'a', 'n', 'g', 'u', 'a', 'g', 'e']
    } else {
        Seq::empty()
    }
}

/// The value that the file writes for the `i`-th setting.
pub open spec fn setting_value(m: SettingsModel, i: int) -> Seq<char> {
    if i == 0 {
        decimal_text(m.version as nat)
    } else if i == 1 {
        quoted(input_method_mode_text(m.input_method_mode))
    } else if i == 2 {
        quoted(character_form_text(m.character_form))
    } else if i == 3 {
        quoted(punctuation_form_text(m.punctuation_form))
    } else if i == 4 {
        quoted(character_variant_text(m.character_variant))
    } else if i == 5 {
        decimal_text(m.candidate_page_size as nat)
    } else if i == 6 {
        decimal_text(m.candidate_font_size as nat)
    } else if i == 7 {
        decimal_text(m.candidate_number_font_size as nat)
    } else if i == 8 {
        decimal_text(m.candidate_comment_font_size as nat)
    } else if i == 9 {
        color_text(m.candidate_text_color)
    } else if i == 10 {
        color_text(m.candidate_back_color)
    } else if i == 11 {
        color_text(m.candidate_select_color)
    } else if i == 12 {
        color_text(m.candidate_comment_color)
    } else if i == 13 {
        seq!['['] + quoted_hotkeys(m.options_menu_keys) + seq![']']
    } else {
        quoted(m.ui_language)
    }
}

proof fn lemma_key_chars(key: Seq<char>)
    requires
        key.len() > 0,
        forall|i: int| 0 <= i < key.len() ==> ('a' <= #[trigger] key[i] <= 'z' || key[i] == '_'),
    ensures
        key[0] != '[',
        forall|i: int| 0 <= i < key.len() ==> !is_white_space(#[trigger] key[i]) && key[i] != '#' && key[i] != '=' && key[i] != '\n',
{
}

proof fn lemma_settings_values(m: SettingsModel)
    requires
        is_writable_settings(m),
    ensures
        forall|i: int| 0 <= i < 15 ==> is_line_value(#[trigger] setting_value(m, i)),
{
    lemma_decimal_value_line(m.version);
    lemma_decimal_value_line(m.candidate_page_size);
    lemma_decimal_value_line(m.candidate_font_size);
    lemma_decimal_value_line(m.candidate_number_font_size);
    lemma_decimal_value_line(m.candidate_comment_font_size);
    lemma_color_value_line(m.candidate_text_color);
    lemma_color_value_line(m.candidate_back_color);
    lemma_color_value_line(m.candidate_select_color);
    lemma_color_value_line(m.candidate_comment_color);
    lemma_enum_names(m);
    lemma_options_value(m.options_menu_keys);
    lemma_ui_language_value(m.ui_language);
}


proof fn lemma_setting_key_chars(i: int)
    requires
        0 <= i < 15,
    ensures
        setting_key(i).len() > 0,
        setting_key(i)[0] != '[',
        forall|j: int|
            0 <= j < setting_key(i).len() ==> !is_white_space(#[trigger] setting_key(i)[j])
                && setting_key(i)[j] != '#' && setting_key(i)[j] != '=' && setting_key(i)[j]
                != '\n',
{
    let key = setting_key(i);
    if i == 0 {
        let k = seq!['v', 'e', 'r', 's', 'i', 'o', 'n'];
        assert(key == k);
        assert(forall|j: int| 0 <= j < k.len() ==> ('a' <= #[trigger] k[j] <= 'z' || k[j] == '_'));
    } else if i == 1 {
        let k = seq!['i', 'n', 'p', 'u', 't', '_', 'm', 'e', 't', 'h', 'o', 'd', '_', 'm', 'o', 'd', 'e'];
        assert(key == k);
        assert(forall|j: int| 0 <= j < k.len() ==> ('a' <= #[trigger] k[j] <= 'z' || k[j] == '_'));
    } else if i == 2 {
        let k = seq!['c', 'h', 'a', 'r', 'a', 'c', 't', 'e', 'r', '_', 'f', 'o', 'r', 'm'];
        assert(key == k);
        assert(forall|j: int| 0 <= j < k.len() ==> ('a' <= #[trigger] k[j] <= 'z' || k[j] == '_'));
    } else if i == 3 {
        let k = seq!['p', 'u', 'n', 'c', 't', 'u', 'a', 't', 'i', 'o', 'n', '_', 'f', 'o', 'r', 'm'];
        assert(key == k);
        assert(forall|j: int| 0 <= j < k.len() ==> ('a' <= #[trigger] k[j] <= 'z' || k[j] == '_'));
    } else if i == 4 {
        let k = seq!['c', 'h', 'a', 'r', 'a', 'c', 't', 'e', 'r', '_', 'v', 'a', 'r', 'i', 'a', 'n', 't'];
        assert(key == k);
        assert(forall|j: int| 0 <= j < k.len() ==> ('a' <= #[trigger] k[j] <= 'z' || k[j] == '_'));
    } else if i == 5 {
        let k = seq!['c', 'a', 'n', 'd', 'i', 'd', 'a', 't', 'e', '_', 'p', 'a', 'g', 'e', '_', 's', 'i', 'z', 'e'];
        assert(key == k);
        assert(forall|j: int| 0 <= j < k.len() ==> ('a' <= #[trigger] k[j] <= 'z' || k[j] == '_'));
    } else if i == 6 {
        let k = seq!['c', 'a', 'n', 'd', 'i', 'd', 'a', 't', 'e', '_', 'f', 'o', 'n', 't', '_', 's', 'i', 'z', 'e'];
        assert(key == k);
        assert(forall|j: int| 0 <= j < k.len() ==> ('a' <= #[trigger] k[j] <= 'z' || k[j] == '_'));
    } else if i == 7 {
        let k = seq!['c', 'a', 'n', 'd', 'i', 'd', 'a', 't', 'e', '_', 'n', 'u', 'm', 'b', 'e', 'r', '_', 'f', 'o', 'n', 't', '_', 's', 'i', 'z', 'e'];
        assert(key == k);
        assert(forall|j: int| 0 <= j < k.len() ==> ('a' <= #[trigger] k[j] <= 'z' || k[j] == '_'));
    } else if i == 8 {
        let k = seq!['c', 'a', 'n', 'd', 'i', 'd', 'a', 't', 'e', '_', 'c', 'o', 'm', 'm', 'e', 'n', 't', '_', 'f', 'o', 'n', 't', '_', 's', 'i', 'z', 'e'];
        assert(key == k);
        assert(forall|j: int| 0 <= j < k.len() ==> ('a' <= #[trigger] k[j] <= 'z' || k[j] == '_'));
    } else if i == 9 {
        let k = seq!['c', 'a', 'n', 'd', 'i', 'd', 'a', 't', 'e', '_', 't', 'e', 'x', 't', '_', 'c', 'o', 'l', 'o', 'r'];
        assert(key == k);
        assert(forall|j: int| 0 <= j < k.len() ==> ('a' <= #[trigger] k[j] <= 'z' || k[j] == '_'));
    } else if i == 10 {
        let k = seq!['c', 'a', 'n', 'd', 'i', 'd', 'a', 't', 'e', '_', 'b', 'a', 'c', 'k', '_', 'c', 'o', 'l', 'o', 'r'];
        assert(key == k);
        assert(forall|j: int| 0 <= j < k.len() ==> ('a' <= #[trigger] k[j] <= 'z' || k[j] == '_'));
    } else if i == 11 {
        let k = seq!['c', 'a', 'n', 'd', 'i', 'd', 'a', 't', 'e', '_', 's', 'e', 'l', 'e', 'c', 't', '_', 'c', 'o', 'l', 'o', 'r'];
        assert(key == k);
        assert(forall|j: int| 0 <= j < k.len() ==> ('a' <= #[trigger] k[j] <= 'z' || k[j] == '_'));
    } else if i == 12 {
        let k = seq!['c', 'a', 'n', 'd', 'i', 'd', 'a', 't', 'e', '_', 'c', 'o', 'm', 'm', 'e', 'n', 't', '_', 'c', 'o', 'l', 'o', 'r'];
        assert(key == k);
        assert(forall|j: int| 0 <= j < k.len() ==> ('a' <= #[trigger] k[j] <= 'z' || k[j] == '_'));
    } else if i == 13 {
        let k = seq!['o', 'p', 't', 'i', 'o', 'n', 's', '_', 'm', 'e', 'n', 'u', '_', 'k', 'e', 'y', 's'];
        assert(key == k);
        assert(forall|j: int| 0 <= j < k.len() ==> ('a' <= #[trigger] k[j] <= 'z' || k[j] == '_'));
    } else if i == 14 {
        let k = seq!['u', 'i', '_', 'l', 'a', 'n', 'g', 'u', 'a', 'g', 'e'];
        assert(key == k);
        assert(forall|j: int| 0 <= j < k.len() ==> ('a' <= #[trigger] k[j] <= 'z' || k[j] == '_'));
    }
    lemma_key_chars(key);
}

proof fn lemma_settings_lines_at(m: SettingsModel, i: int)
    requires
        0 <= i < 15,
    ensures
        settings_lines(m).len() == 16,
        settings_lines(m)[0] == settings_header(),
        settings_lines(m)[i + 1] == setting_line(setting_key(i), setting_value(m, i)),
{
    let l = settings_lines(m);
    if i == 0 {
        assert(l[1] == setting_line(setting_key(0), setting_value(m, 0)));
    } else if i == 1 {
        assert(l[2] == setting_line(setting_key(1), setting_value(m, 1)));
    } else if i == 2 {
        assert(l[3] == setting_line(setting_key(2), setting_value(m, 2)));
    } else if i == 3 {
        assert(l[4] == setting_line(setting_key(3), setting_value(m, 3)));
    } else if i == 4 {
        assert(l[5] == setting_line(setting_key(4), setting_value(m, 4)));
    } else if i == 5 {
        assert(l[6] == setting_line(setting_key(5), setting_value(m, 5)));
    } else if i == 6 {
        assert(l[7] == setting_line(setting_key(6), setting_value(m, 6)));
    } else if i == 7 {
        assert(l[8] == setting_line(setting_key(7), setting_value(m, 7)));
    } else if i == 8 {
        assert(l[9] == setting_line(setting_key(8), setting_value(m, 8)));
    } else if i == 9 {
        assert(l[10] == setting_line(setting_key(9), setting_value(m, 9)));
    } else if i == 10 {
        assert(l[11] == setting_line(setting_key(10), setting_value(m, 10)));
    } else if i == 11 {
        assert(l[12] == setting_line(setting_key(11), setting_value(m, 11)));
    } else if i == 12 {
        assert(l[13] == setting_line(setting_key(12), setting_value(m, 12)));
    } else if i == 13 {
        assert(l[14] == setting_line(setting_key(13), setting_value(m, 13)));
    } else if i == 14 {
        assert(l[15] == setting_line(setting_key(14), setting_value(m, 14)));
    }
}

proof fn lemma_settings_line_shape(m: SettingsModel, i: int)
    requires
        is_writable_settings(m),
        0 <= i < 16,
    ensures
        !settings_lines(m)[i].contains('\n'),
        settings_lines(m)[i].len() > 0,
        settings_lines(m)[i].last() != '\r',
{
    lemma_settings_lines_at(m, 0);
    let line = settings_lines(m)[i];
    if i == 0 {
        assert forall|j: int| 0 <= j < line.len() implies line[j] != '\n' by {}
        lemma_not_contains(line, '\n');
    } else {
        lemma_settings_lines_at(m, i - 1);
        lemma_setting_key_chars(i - 1);
        lemma_settings_values(m);
        let key = setting_key(i - 1);
        let value = setting_value(m, i - 1);
        assert(is_line_value(value));
        let n = key.len() as int;
        assert forall|j: int| 0 <= j < line.len() implies line[j] != '\n' by {
            if j >= n + 3 {
                assert(line[j] == value[j - n - 3]);
                assert(is_value_char(value[j - n - 3]));
            } else if j < n {
                assert(line[j] == key[j]);
            }
        }
        lemma_not_contains(line, '\n');
        assert(line.last() == value.last());
        assert(is_value_char(value[value.len() - 1]));
    }
}

proof fn lemma_lines_applied_step(
    m: SettingsModel,
    hotkeys: Seq<(u32, u32)>,
    lines: Seq<Seq<char>>,
    n: int,
)
    requires
        0 <= n < lines.len(),
    ensures
        setting_lines_applied(m, hotkeys, lines.take(n + 1)) == setting_line_applied(
            setting_lines_applied(m, hotkeys, lines.take(n)).0,
            setting_lines_applied(m, hotkeys, lines.take(n)).1,
            lines[n],
        ),
{
    assert(lines.take(n + 1).drop_last() =~= lines.take(n));
    assert(lines.take(n + 1).last() == lines[n]);
}

proof fn lemma_reads_version(s: SettingsModel, h: Seq<(u32, u32)>, m: SettingsModel)
    requires
        is_writable_settings(m),
    ensures
        setting_line_applied(s, h, setting_line(setting_key(0), setting_value(m, 0))) == (SettingsModel { version: m.version, ..s }, h),
{
    lemma_setting_key_chars(0);
    lemma_settings_values(m);
    lemma_setting_line_parsed(s, h, setting_key(0), setting_value(m, 0));
    lemma_decimal_value_line(m.version);
    let key = seq!['v', 'e', 'r', 's', 'i', 'o', 'n'];
    assert(setting_key(0) == key);
}

proof fn lemma_reads_input_method_mode(s: SettingsModel, h: Seq<(u32, u32)>, m: SettingsModel)
    requires
        is_writable_settings(m),
    ensures
        setting_line_applied(s, h, setting_line(setting_key(1), setting_value(m, 1))) == (SettingsModel { input_method_mode: m.input_method_mode, ..s }, h),
{
    lemma_setting_key_chars(1);
    lemma_settings_values(m);
    lemma_setting_line_parsed(s, h, setting_key(1), setting_value(m, 1));
    lemma_enum_names(m);
    let key = seq!['i', 'n', 'p', 'u', 't', '_', 'm', 'e', 't', 'h', 'o', 'd', '_', 'm', 'o', 'd', 'e'];
    assert(setting_key(1) == key);
}

proof fn lemma_reads_character_form(s: SettingsModel, h: Seq<(u32, u32)>, m: SettingsModel)
    requires
        is_writable_settings(m),
    ensures
        setting_line_applied(s, h, setting_line(setting_key(2), setting_value(m, 2))) == (SettingsModel { character_form: m.character_form, ..s }, h),
{
    lemma_setting_key_chars(2);
    lemma_settings_values(m);
    lemma_setting_line_parsed(s, h, setting_key(2), setting_value(m, 2));
    lemma_enum_names(m);
    let key = seq!['c', 'h', 'a', 'r', 'a', 'c', 't', 'e', 'r', '_', 'f', 'o', 'r', 'm'];
    assert(setting_key(2) == key);
}

proof fn lemma_reads_punctuation_form(s: SettingsModel, h: Seq<(u32, u32)>, m: SettingsModel)
    requires
        is_writable_settings(m),
    ensures
        setting_line_applied(s, h, setting_line(setting_key(3), setting_value(m, 3))) == (SettingsModel { punctuation_form: m.punctuation_form, ..s }, h),
{
    lemma_setting_key_chars(3);
    lemma_settings_values(m);
    lemma_setting_line_parsed(s, h, setting_key(3), setting_value(m, 3));
    lemma_enum_names(m);
    let key = seq!['p', 'u', 'n', 'c', 't', 'u', 'a', 't', 'i', 'o', 'n', '_', 'f', 'o', 'r', 'm'];
    assert(setting_key(3) == key);
}

proof fn lemma_reads_character_variant(s: SettingsModel, h: Seq<(u32, u32)>, m: SettingsModel)
    requires
        is_writable_settings(m),
    ensures
        setting_line_applied(s, h, setting_line(setting_key(4), setting_value(m, 4))) == (SettingsModel { character_variant: m.character_variant, ..s }, h),
{
    lemma_setting_key_chars(4);
    lemma_settings_values(m);
    lemma_setting_line_parsed(s, h, setting_key(4), setting_value(m, 4));
    lemma_enum_names(m);
    let key = seq!['c', 'h', 'a', 'r', 'a', 'c', 't', 'e', 'r', '_', 'v', 'a', 'r', 'i', 'a', 'n', 't'];
    assert(setting_key(4) == key);
    assert(key[0] != seq!['i', 'n', 'p', 'u', 't', '_', 'm', 'e', 't', 'h', 'o', 'd', '_', 'm', 'o', 'd', 'e'][0]);
}

proof fn lemma_reads_candidate_page_size(s: SettingsModel, h: Seq<(u32, u32)>, m: SettingsModel)
    requires
        is_writable_settings(m),
    ensures
        setting_line_applied(s, h, setting_line(setting_key(5), setting_value(m, 5))) == (SettingsModel { candidate_page_size: m.candidate_page_size, ..s }, h),
{
    lemma_setting_key_chars(5);
    lemma_settings_values(m);
    lemma_setting_line_parsed(s, h, setting_key(5), setting_value(m, 5));
    lemma_decimal_value_line(m.candidate_page_size);
    let key = seq!['c', 'a', 'n', 'd', 'i', 'd', 'a', 't', 'e', '_', 'p', 'a', 'g', 'e', '_', 's', 'i', 'z', 'e'];
    assert(setting_key(5) == key);
}

proof fn lemma_reads_candidate_font_size(s: SettingsModel, h: Seq<(u32, u32)>, m: SettingsModel)
    requires
        is_writable_settings(m),
    ensures
        setting_line_applied(s, h, setting_line(setting_key(6), setting_value(m, 6))) == (SettingsModel { candidate_font_size: m.candidate_font_size, ..s }, h),
{
    lemma_setting_key_chars(6);
    lemma_settings_values(m);
    lemma_setting_line_parsed(s, h, setting_key(6), setting_value(m, 6));
    lemma_decimal_value_line(m.candidate_font_size);
    let key = seq!['c', 'a', 'n', 'd', 'i', 'd', 'a', 't', 'e', '_', 'f', 'o', 'n', 't', '_', 's', 'i', 'z', 'e'];
    assert(setting_key(6) == key);
    assert(key[10] != seq!['c', 'a', 'n', 'd', 'i', 'd', 'a', 't', 'e', '_', 'p', 'a', 'g', 'e', '_', 's', 'i', 'z', 'e'][10]);
}

proof fn lemma_reads_candidate_number_font_size(s: SettingsModel, h: Seq<(u32, u32)>, m: SettingsModel)
    requires
        is_writable_settings(m),
    ensures
        setting_line_applied(s, h, setting_line(setting_key(7), setting_value(m, 7))) == (SettingsModel { candidate_number_font_size: m.candidate_number_font_size, ..s }, h),
{
    lemma_setting_key_chars(7);
    lemma_settings_values(m);
    lemma_setting_line_parsed(s, h, setting_key(7), setting_value(m, 7));
    lemma_decimal_value_line(m.candidate_number_font_size);
    let key = seq!['c', 'a', 'n', 'd', 'i', 'd', 'a', 't', 'e', '_', 'n', 'u', 'm', 'b', 'e', 'r', '_', 'f', 'o', 'n', 't', '_', 's', 'i', 'z', 'e'];
    assert(setting_key(7) == key);
}

proof fn lemma_reads_candidate_comment_font_size(s: SettingsModel, h: Seq<(u32, u32)>, m: SettingsModel)
    requires
        is_writable_settings(m),
    ensures
        setting_line_applied(s, h, setting_line(setting_key(8), setting_value(m, 8))) == (SettingsModel { candidate_comment_font_size: m.candidate_comment_font_size, ..s }, h),
{
    lemma_setting_key_chars(8);
    lemma_settings_values(m);
    lemma_setting_line_parsed(s, h, setting_key(8), setting_value(m, 8));
    lemma_decimal_value_line(m.candidate_comment_font_size);
    let key = seq!['c', 'a', 'n', 'd', 'i', 'd', 'a', 't', 'e', '_', 'c', 'o', 'm', 'm', 'e', 'n', 't', '_', 'f', 'o', 'n', 't', '_', 's', 'i', 'z', 'e'];
    assert(setting_key(8) == key);
}

proof fn lemma_reads_candidate_text_color(s: SettingsModel, h: Seq<(u32, u32)>, m: SettingsModel)
    requires
        is_writable_settings(m),
    ensures
        setting_line_applied(s, h, setting_line(setting_key(9), setting_value(m, 9))) == (SettingsModel { candidate_text_color: m.candidate_text_color, ..s }, h),
{
    lemma_setting_key_chars(9);
    lemma_settings_values(m);
    lemma_setting_line_parsed(s, h, setting_key(9), setting_value(m, 9));
    lemma_color_value_line(m.candidate_text_color);
    let key = seq!['c', 'a', 'n', 'd', 'i', 'd', 'a', 't', 'e', '_', 't', 'e', 'x', 't', '_', 'c', 'o', 'l', 'o', 'r'];
    assert(setting_key(9) == key);
}

proof fn lemma_reads_candidate_back_color(s: SettingsModel, h: Seq<(u32, u32)>, m: SettingsModel)
    requires
        is_writable_settings(m),
    ensures
        setting_line_applied(s, h, setting_line(setting_key(10), setting_value(m, 10))) == (SettingsModel { candidate_back_color: m.candidate_back_color, ..s }, h),
{
    lemma_setting_key_chars(10);
    lemma_settings_values(m);
    lemma_setting_line_parsed(s, h, setting_key(10), setting_value(m, 10));
    lemma_color_value_line(m.candidate_back_color);
    let key = seq!['c', 'a', 'n', 'd', 'i', 'd', 'a', 't', 'e', '_', 'b', 'a', 'c', 'k', '_', 'c', 'o', 'l', 'o', 'r'];
    assert(setting_key(10) == key);
    assert(key[10] != seq!['c', 'a', 'n', 'd', 'i', 'd', 'a', 't', 'e', '_', 't', 'e', 'x', 't', '_', 'c', 'o', 'l', 'o', 'r'][10]);
}

proof fn lemma_reads_candidate_select_color(s: SettingsModel, h: Seq<(u32, u32)>, m: SettingsModel)
    requires
        is_writable_settings(m),
    ensures
        setting_line_applied(s, h, setting_line(setting_key(11), setting_value(m, 11))) == (SettingsModel { candidate_select_color: m.candidate_select_color, ..s }, h),
{
    lemma_setting_key_chars(11);
    lemma_settings_values(m);
    lemma_setting_line_parsed(s, h, setting_key(11), setting_value(m, 11));
    lemma_color_value_line(m.candidate_select_color);
    let key = seq!['c', 'a', 'n', 'd', 'i', 'd', 'a', 't', 'e', '_', 's', 'e', 'l', 'e', 'c', 't', '_', 'c', 'o', 'l', 'o', 'r'];
    assert(setting_key(11) == key);
}

proof fn lemma_reads_candidate_comment_color(s: SettingsModel, h: Seq<(u32, u32)>, m: SettingsModel)
    requires
        is_writable_settings(m),
    ensures
        setting_line_applied(s, h, setting_line(setting_key(12), setting_value(m, 12))) == (SettingsModel { candidate_comment_color: m.candidate_comment_color, ..s }, h),
{
    lemma_setting_key_chars(12);
    lemma_settings_values(m);
    lemma_setting_line_parsed(s, h, setting_key(12), setting_value(m, 12));
    lemma_color_value_line(m.candidate_comment_color);
    let key = seq!['c', 'a', 'n', 'd', 'i', 'd', 'a', 't', 'e', '_', 'c', 'o', 'm', 'm', 'e', 'n', 't', '_', 'c', 'o', 'l', 'o', 'r'];
    assert(setting_key(12) == key);
}

proof fn lemma_reads_options_menu_keys(s: SettingsModel, h: Seq<(u32, u32)>, m: SettingsModel)
    requires
        is_writable_settings(m),
    ensures
        setting_line_applied(s, h, setting_line(setting_key(13), setting_value(m, 13))) == (s, m.options_menu_keys),
{
    lemma_setting_key_chars(13);
    lemma_settings_values(m);
    lemma_setting_line_parsed(s, h, setting_key(13), setting_value(m, 13));
    lemma_options_value(m.options_menu_keys);
    let key = seq!['o', 'p', 't', 'i', 'o', 'n', 's', '_', 'm', 'e', 'n', 'u', '_', 'k', 'e', 'y', 's'];
    assert(setting_key(13) == key);
    assert(key[0] != seq!['i', 'n', 'p', 'u', 't', '_', 'm', 'e', 't', 'h', 'o', 'd', '_', 'm', 'o', 'd', 'e'][0]);
    assert(key[0] != seq!['c', 'h', 'a', 'r', 'a', 'c', 't', 'e', 'r', '_', 'v', 'a', 'r', 'i', 'a', 'n', 't'][0]);
}

proof fn lemma_reads_ui_language(s: SettingsModel, h: Seq<(u32, u32)>, m: SettingsModel)
    requires
        is_writable_settings(m),
    ensures
        setting_line_applied(s, h, setting_line(setting_key(14), setting_value(m, 14))) == (SettingsModel { ui_language: m.ui_language, ..s }, h),
{
    lemma_setting_key_chars(14);
    lemma_settings_values(m);
    lemma_setting_line_parsed(s, h, setting_key(14), setting_value(m, 14));
    lemma_ui_language_value(m.ui_language);
    let key = seq!['u', 'i', '_', 'l', 'a', 'n', 'g', 'u', 'a', 'g', 'e'];
    assert(setting_key(14) == key);
}

#[verifier::spinoff_prover]
#[verifier::rlimit(50)]
/// A settings file written by `render_settings` reads back with
/// `parse_settings` as the same settings, for every settings value that the
/// file format can hold (see `is_writable_settings`).
pub proof fn lemma_settings_roundtrip(m: SettingsModel)
    requires
        is_writable_settings(m),
    ensures
        settings_of_text(settings_text(m)) == m,
{
    let lines = settings_lines(m);
    assert forall|i: int| 0 <= i < lines.len() implies !lines[i].contains('\n') && lines[i].len() > 0
        && lines[i].last() != '\r' by {
        lemma_settings_line_shape(m, i);
    }
    lemma_split_sep_joined(lines, Seq::empty(), '\n');
    assert(settings_text(m) + Seq::<char>::empty() =~= settings_text(m));
    assert(file_lines(settings_text(m)) =~= lines);
    let d = default_settings_model();
    let e = Seq::<(u32, u32)>::empty();
    lemma_settings_lines_at(m, 0);
    assert(find_char(settings_header(), '#') == Some(0int));
    assert(comment_stripped(settings_header()) =~= Seq::<char>::empty());
    assert(setting_line_applied(d, e, lines[0]) == (d, e));
    assert(lines.take(0) =~= Seq::<Seq<char>>::empty());
    lemma_lines_applied_step(d, e, lines, 0);
    let s1 = d;
    lemma_settings_lines_at(m, 0);
    lemma_reads_version(s1, e, m);
    lemma_lines_applied_step(d, e, lines, 1);
    let s2 = SettingsModel { version: m.version, ..s1 };
    assert(setting_lines_applied(d, e, lines.take(2)) == (s2, e));
    lemma_settings_lines_at(m, 1);
    lemma_reads_input_method_mode(s2, e, m);
    lemma_lines_applied_step(d, e, lines, 2);
    let s3 = SettingsModel { input_method_mode: m.input_method_mode, ..s2 };
    assert(setting_lines_applied(d, e, lines.take(3)) == (s3, e));
    lemma_settings_lines_at(m, 2);
    lemma_reads_character_form(s3, e, m);
    lemma_lines_applied_step(d, e, lines, 3);
    let s4 = SettingsModel { character_form: m.character_form, ..s3 };
    assert(setting_lines_applied(d, e, lines.take(4)) == (s4, e));
    lemma_settings_lines_at(m, 3);
    lemma_reads_punctuation_form(s4, e, m);
    lemma_lines_applied_step(d, e, lines, 4);
    let s5 = SettingsModel { punctuation_form: m.punctuation_form, ..s4 };
    assert(setting_lines_applied(d, e, lines.take(5)) == (s5, e));
    lemma_settings_lines_at(m, 4);
    lemma_reads_character_variant(s5, e, m);
    lemma_lines_applied_step(d, e, lines, 5);
    let s6 = SettingsModel { character_variant: m.character_variant, ..s5 };
    assert(setting_lines_applied(d, e, lines.take(6)) == (s6, e));
    lemma_settings_lines_at(m, 5);
    lemma_reads_candidate_page_size(s6, e, m);
    lemma_lines_applied_step(d, e, lines, 6);
    let s7 = SettingsModel { candidate_page_size: m.candidate_page_size, ..s6 };
    assert(setting_lines_applied(d, e, lines.take(7)) == (s7, e));
    lemma_settings_lines_at(m, 6);
    lemma_reads_candidate_font_size(s7, e, m);
    lemma_lines_applied_step(d, e, lines, 7);
    let s8 = SettingsModel { candidate_font_size: m.candidate_font_size, ..s7 };
    assert(setting_lines_applied(d, e, lines.take(8)) == (s8, e));
    lemma_settings_lines_at(m, 7);
    lemma_reads_candidate_number_font_size(s8, e, m);
    lemma_lines_applied_step(d, e, lines, 8);
    let s9 = SettingsModel { candidate_number_font_size: m.candidate_number_font_size, ..s8 };
    assert(setting_lines_applied(d, e, lines.take(9)) == (s9, e));
    lemma_settings_lines_at(m, 8);
    lemma_reads_candidate_comment_font_size(s9, e, m);
    lemma_lines_applied_step(d, e, lines, 9);
    let s10 = SettingsModel { candidate_comment_font_size: m.candidate_comment_font_size, ..s9 };
    assert(setting_lines_applied(d, e, lines.take(10)) == (s10, e));
    lemma_settings_lines_at(m, 9);
    lemma_reads_candidate_text_color(s10, e, m);
    lemma_lines_applied_step(d, e, lines, 10);
    let s11 = SettingsModel { candidate_text_color: m.candidate_text_color, ..s10 };
    assert(setting_lines_applied(d, e, lines.take(11)) == (s11, e));
    lemma_settings_lines_at(m, 10);
    lemma_reads_candidate_back_color(s11, e, m);
    lemma_lines_applied_step(d, e, lines, 11);
    let s12 = SettingsModel { candidate_back_color: m.candidate_back_color, ..s11 };
    assert(setting_lines_applied(d, e, lines.take(12)) == (s12, e));
    lemma_settings_lines_at(m, 11);
    lemma_reads_candidate_select_color(s12, e, m);
    lemma_lines_applied_step(d, e, lines, 12);
    let s13 = SettingsModel { candidate_select_color: m.candidate_select_color, ..s12 };
    assert(setting_lines_applied(d, e, lines.take(13)) == (s13, e));
    lemma_settings_lines_at(m, 12);
    lemma_reads_candidate_comment_color(s13, e, m);
    lemma_lines_applied_step(d, e, lines, 13);
    let s14 = SettingsModel { candidate_comment_color: m.candidate_comment_color, ..s13 };
    assert(setting_lines_applied(d, e, lines.take(14)) == (s14, e));
    lemma_settings_lines_at(m, 13);
    lemma_reads_options_menu_keys(s14, e, m);
    lemma_lines_applied_step(d, e, lines, 14);
    let s15 = s14;
    let h15 = m.options_menu_keys;
    assert(setting_lines_applied(d, e, lines.take(15)) == (s15, h15));
    lemma_settings_lines_at(m, 14);
    lemma_reads_ui_language(s15, h15, m);
    lemma_lines_applied_step(d, e, lines, 15);
    let s16 = SettingsModel { ui_language: m.ui_language, ..s15 };
    assert(setting_lines_applied(d, e, lines.take(16)) == (s16, h15));
    assert(lines.take(16) =~= lines);
    assert(SettingsModel { options_menu_keys: m.options_menu_keys, ..s16 } == m);
}
/// `s` with each backslash doubled.
spec fn doubled_backslashes(s: Seq<char>) -> Seq<char>
    decreases s.len(),
{
    if s.len() == 0 {
        s
    } else {
        (if s[0] == '\\' { seq!['\\', '\\'] } else { seq![s[0]] }) + doubled_backslashes(s.drop_first())
    }
}

/// `s` with each backslash doubled and each quote preceded by a backslash.
spec fn escaped(s: Seq<char>) -> Seq<char>
    decreases s.len(),
{
    if s.len() == 0 {
        s
    } else {
        (if s[0] == '\\' {
            seq!['\\', '\\']
        } else if s[0] == '"' {
            seq!['\\', '"']
        } else {
            seq![s[0]]
        }) + escaped(s.drop_first())
    }
}

/// Replacing one character by a text is done character by character.
proof fn lemma_replace_char_concat(x: Seq<char>, y: Seq<char>, c: char, r: Seq<char>)
    ensures
        replace_all(x + y, seq![c], r) == replace_all(x, seq![c], r) + replace_all(y, seq![c], r),
    decreases x.len(),
{
    if x.len() == 0 {
        assert(x + y =~= y);
        assert(replace_all(x, seq![c], r) =~= Seq::<char>::empty());
        assert(Seq::<char>::empty() + replace_all(y, seq![c], r) =~= replace_all(y, seq![c], r));
    } else {
        let xy = x + y;
        assert(xy.take(1) =~= seq![x[0]]);
        assert(x.take(1) =~= seq![x[0]]);
        assert(xy.skip(1) =~= x.skip(1) + y);
        lemma_replace_char_concat(x.skip(1), y, c, r);
        if x[0] == c {
            assert(replace_all(xy, seq![c], r) =~= r + replace_all(x.skip(1) + y, seq![c], r));
            assert(replace_all(x, seq![c], r) =~= r + replace_all(x.skip(1), seq![c], r));
        } else {
            assert(seq![x[0]] != seq![c]) by {
                assert(seq![x[0]][0] != seq![c][0]);
            }
            assert(replace_all(xy, seq![c], r) =~= seq![xy[0]] + replace_all(xy.skip(1), seq![c], r));
            assert(replace_all(x, seq![c], r) =~= seq![x[0]] + replace_all(x.skip(1), seq![c], r));
        }
    }
}

/// Doubling backslashes, then escaping quotes, is `escaped`.
proof fn lemma_escape_steps(s: Seq<char>)
    ensures
        replace_all(s, seq!['\\'], seq!['\\', '\\']) == doubled_backslashes(s),
        replace_all(doubled_backslashes(s), seq!['"'], seq!['\\', '"']) == escaped(s),
    decreases s.len(),
{
    if s.len() > 0 {
        lemma_escape_steps(s.drop_first());
        assert(s.take(1) =~= seq![s[0]]);
        assert(s.skip(1) =~= s.drop_first());
        if s[0] != '\\' {
            assert(seq![s[0]] != seq!['\\']) by {
                assert(seq![s[0]][0] != seq!['\\'][0]);
            }
        }
        let head: Seq<char> = if s[0] == '\\' { seq!['\\', '\\'] } else { seq![s[0]] };
        lemma_replace_char_concat(head, doubled_backslashes(s.drop_first()), '"', seq!['\\', '"']);
        if s[0] == '\\' {
            let h = seq!['\\', '\\'];
            assert(h.take(1) =~= seq!['\\']);
            assert(h.skip(1) =~= seq!['\\']);
            assert(seq!['\\'] != seq!['"']) by {
                assert(seq!['\\'][0] != seq!['"'][0]);
            }
            let one = seq!['\\'];
            assert(one.take(1) =~= one);
            assert(one.skip(1) =~= Seq::<char>::empty());
            assert(replace_all(Seq::<char>::empty(), seq!['"'], seq!['\\', '"']) =~= Seq::<char>::empty());
            assert(replace_all(one, seq!['"'], seq!['\\', '"']) =~= one);
            assert(replace_all(h, seq!['"'], seq!['\\', '"']) =~= h);
        } else {
            let h = seq![s[0]];
            assert(h.take(1) =~= h);
            assert(h.skip(1) =~= Seq::<char>::empty());
            assert(replace_all(Seq::<char>::empty(), seq!['"'], seq!['\\', '"']) =~= Seq::<char>::empty());
            if s[0] == '"' {
                assert(replace_all(h, seq!['"'], seq!['\\', '"']) =~= seq!['\\', '"']);
            } else {
                assert(h != seq!['"']) by {
                    assert(h[0] != seq!['"'][0]);
                }
                assert(replace_all(h, seq!['"'], seq!['\\', '"']) =~= h);
            }
        }
    }
}

/// An escaped text never starts with a quote.
proof fn lemma_escaped_start(s: Seq<char>)
    ensures
        escaped(s).len() > 0 ==> escaped(s)[0] != '"',
        escaped(s).len() == 0 <==> s.len() == 0,
{
}

/// Unescaping quotes in an escaped text leaves its backslashes doubled.
proof fn lemma_unescape_quotes(s: Seq<char>)
    ensures
        replace_all(escaped(s), seq!['\\', '"'], seq!['"']) == doubled_backslashes(s),
    decreases s.len(),
{
    let p = seq!['\\', '"'];
    if s.len() > 0 {
        let rest = s.drop_first();
        lemma_unescape_quotes(rest);
        lemma_escaped_start(rest);
        let er = escaped(rest);
        if s[0] == '\\' {
            let e = seq!['\\', '\\'] + er;
            assert(escaped(s) =~= e);
            assert(e.take(2) =~= seq!['\\', '\\']);
            assert(e.take(2) != p) by {
                assert(e.take(2)[1] != p[1]);
            }
            let e1 = e.skip(1);
            assert(e1 =~= seq!['\\'] + er);
            if e1.len() >= 2 {
                assert(e1.take(2)[1] == er[0]);
                assert(e1.take(2) != p) by {
                    assert(e1.take(2)[1] != p[1]);
                }
                assert(e1.skip(1) =~= er);
                assert(replace_all(e1, p, seq!['"']) =~= seq!['\\'] + replace_all(er, p, seq!['"']));
            } else {
                assert(er.len() == 0);
                assert(replace_all(er, p, seq!['"']) =~= er);
                assert(replace_all(e1, p, seq!['"']) =~= e1);
            }
            assert(replace_all(e, p, seq!['"']) =~= seq![e[0]] + replace_all(e1, p, seq!['"']));
            assert(doubled_backslashes(s) =~= seq!['\\', '\\'] + doubled_backslashes(rest));
        } else if s[0] == '"' {
            let e = seq!['\\', '"'] + er;
            assert(escaped(s) =~= e);
            assert(e.take(2) =~= p);
            assert(e.skip(2) =~= er);
            assert(doubled_backslashes(s) =~= seq!['"'] + doubled_backslashes(rest));
        } else {
            let e = seq![s[0]] + er;
            assert(escaped(s) =~= e);
            assert(e.skip(1) =~= er);
            if e.len() >= 2 {
                assert(e.take(2) != p) by {
                    assert(e.take(2)[0] != p[0]);
                }
            }
            assert(replace_all(e, p, seq!['"']) =~= seq![s[0]] + replace_all(er, p, seq!['"']));
            assert(doubled_backslashes(s) =~= seq![s[0]] + doubled_backslashes(rest));
        }
    }
}

/// Halving doubled backslashes gives the text back.
proof fn lemma_undouble(s: Seq<char>)
    ensures
        replace_all(doubled_backslashes(s), seq!['\\', '\\'], seq!['\\']) == s,
    decreases s.len(),
{
    let p = seq!['\\', '\\'];
    if s.len() > 0 {
        let rest = s.drop_first();
        lemma_undouble(rest);
        let dr = doubled_backslashes(rest);
        if s[0] == '\\' {
            let d = p + dr;
            assert(doubled_backslashes(s) =~= d);
            assert(d.take(2) =~= p);
            assert(d.skip(2) =~= dr);
            assert(seq!['\\'] + rest =~= s);
        } else {
            let d = seq![s[0]] + dr;
            assert(doubled_backslashes(s) =~= d);
            assert(d.skip(1) =~= dr);
            if d.len() >= 2 {
                assert(d.take(2) != p) by {
                    assert(d.take(2)[0] != p[0]);
                }
            }
            assert(replace_all(d, p, seq!['\\']) =~= seq![s[0]] + replace_all(dr, p, seq!['\\']));
            assert(seq![s[0]] + rest =~= s);
        }
    }
}

/// Any text, quoted as the settings file writes it, is read back unchanged.
pub proof fn lemma_quote_roundtrip(s: Seq<char>)
    ensures
        unquoted(quoted(s)) == Some(s),
{
    lemma_escape_steps(s);
    let e = escaped(s);
    let q = seq!['"'] + e + seq!['"'];
    assert(quoted(s) =~= q);
    assert(!is_white_space(q[0]) && !is_white_space(q.last()));
    assert(trim_start(q) == q);
    assert(trim_end(q) == q);
    assert(trim(q) == q);
    assert(q.subrange(1, q.len() - 1) =~= e);
    lemma_unescape_quotes(s);
    lemma_undouble(s);
}

} // verus!
