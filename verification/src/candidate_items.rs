//! The rows the candidate window shows for symbol lists, the "/x" symbol
//! query and the options menu, and what a punctuation key types.
use vstd::prelude::*;
use crate::keytable::VK_BACK;
use crate::punctuation::{
    key_symbol_list, letter_variant_list, letter_variants, numeral_variant_list, numeral_variants,
    slash_key, PunctuationKey, PunctuationSymbol, VK_OEM_2, VK_OEM_3,
};
use crate::settings::{CharacterForm, CharacterVariant, ImeSettings, PunctuationForm};
use crate::settings_menu::MenuCommand;
use crate::text::{
    append_chars, ascii_lower_char, char_from_u32, chars_of, is_char_code, lower_char,
    string_from_chars, string_of,
};

verus! {

/// A row of the candidate window: its text, a comment beside it, how many
/// input keys it consumes, and whether it is a separator line.
pub struct CandidateItem {
    pub text: String,
    pub comment: String,
    pub input_count: usize,
    pub separator: bool,
}

/// The comment shown beside a symbol: its comment and second comment
/// separated by a space, its comment alone, or nothing.
pub open spec fn symbol_comment(symbol: PunctuationSymbol) -> Seq<char> {
    match (symbol.comment, symbol.secondary_comment) {
        (Some(a), Some(b)) => a@ + seq![' '] + b@,
        (Some(a), None) => a@,
        _ => Seq::empty(),
    }
}

/// The row of a symbol.
pub open spec fn is_symbol_item(item: CandidateItem, symbol: PunctuationSymbol) -> bool {
    &&& item.text@ == symbol.text@
    &&& item.comment@ == symbol_comment(symbol)
    &&& item.input_count == 0
    &&& !item.separator
}

/// The row of a symbol.
pub fn symbol_item(symbol: &PunctuationSymbol) -> (item: CandidateItem)
    ensures
        is_symbol_item(item, *symbol),
{
    let comment = match (symbol.comment, symbol.secondary_comment) {
        (Some(a), Some(b)) => {
            let mut chars = chars_of(a);
            chars.push(' ');
            append_chars(&mut chars, &chars_of(b));
            assert(chars@ =~= a@ + seq![' '] + b@);
            string_from_chars(&chars)
        },
        (Some(a), None) => string_of(a),
        _ => String::new(),
    };
    CandidateItem { text: string_of(symbol.text), comment, input_count: 0, separator: false }
}

/// The rows of a symbol list, in order.
pub fn symbol_items(symbols: &Vec<PunctuationSymbol>) -> (items: Vec<CandidateItem>)
    ensures
        items.len() == symbols.len(),
        forall|i: int| 0 <= i < items.len() ==> is_symbol_item(#[trigger] items[i], symbols[i]),
{
    let mut items: Vec<CandidateItem> = Vec::new();
    let mut i: usize = 0;
    while i < symbols.len()
        invariant
            0 <= i <= symbols.len(),
            items.len() == i,
            forall|j: int| 0 <= j < i ==> is_symbol_item(#[trigger] items[j], symbols[j]),
        decreases symbols.len() - i,
    {
        items.push(symbol_item(&symbols[i]));
        i += 1;
    }
    items
}

/// What a punctuation key types at once: with Cantonese punctuation its
/// instant symbol (if any), with English punctuation its own text; `None`
/// when it opens its symbol list instead.
pub fn punctuation_output(key: &PunctuationKey, is_shifting: bool, is_cantonese: bool) -> (output:
    Option<&'static str>)
    ensures
        output == if is_cantonese {
            if is_shifting { key.instant_shifting_symbol } else { key.instant_symbol }
        } else {
            Some(if is_shifting { key.shifting_key_text } else { key.key_text })
        },
{
    if is_cantonese {
        key.instant_symbol(is_shifting)
    } else {
        Some(key.text(is_shifting))
    }
}

/// The symbol query a symbol list opens with: the "/" key without Shift
/// opens an empty query, any other list none.
pub fn symbol_query_for_key(key_code: u32, is_shifting: bool) -> (query: Option<String>)
    ensures
        query is Some <==> (key_code == VK_OEM_2 && !is_shifting),
        query matches Some(q) ==> q@.len() == 0,
{
    if key_code == VK_OEM_2 && !is_shifting {
        Some(String::new())
    } else {
        None
    }
}

/// The query after a key: backspace removes its last character; any other
/// key adds its character, in ASCII lower case, when the key code is a
/// character.
pub open spec fn query_after_key(query: Seq<char>, code: u32) -> Seq<char> {
    if code == VK_BACK {
        if query.len() == 0 {
            query
        } else {
            query.drop_last()
        }
    } else if is_char_code(code) {
        query.push(ascii_lower_char(code as char))
    } else {
        query
    }
}

/// The "/x" symbol query after a key.
pub fn symbol_query_after_key(query: &str, code: u32) -> (next: String)
    ensures
        next@ == query_after_key(query@, code),
{
    let mut chars = chars_of(query);
    if code == VK_BACK {
        if chars.len() > 0 {
            chars.pop();
            assert(chars@ =~= query@.drop_last());
        }
    } else if let Some(c) = char_from_u32(code) {
        chars.push(lower_char(c));
    }
    string_from_chars(&chars)
}

/// The text the composition shows for a symbol query: "/" and the query.
pub fn symbol_query_reading(query: &str) -> (reading: String)
    ensures
        reading@ == seq!['/'] + query@,
{
    let mut chars: Vec<char> = Vec::new();
    chars.push('/');
    append_chars(&mut chars, &chars_of(query));
    string_from_chars(&chars)
}

/// The list a symbol query shows.
#[derive(Clone, Copy, PartialEq, Eq, Structural, Debug)]
pub enum SymbolQueryList {
    /// The symbols of the "/" key.
    Slash,
    /// The variants of a digit.
    Numerals(char),
    /// The variants of a letter.
    Letters(char),
}

/// Whether every character is an ASCII digit.
pub open spec fn all_ascii_digits(s: Seq<char>) -> bool {
    forall|i: int| 0 <= i < s.len() ==> '0' <= #[trigger] s[i] <= '9'
}

/// The list a symbol query shows: the "/" symbols for the empty query, the
/// variants of the last digit for a query of digits, else the variants of
/// its first letter (further letters are ignored).
pub open spec fn symbol_query_list_of(query: Seq<char>) -> SymbolQueryList {
    if query.len() == 0 {
        SymbolQueryList::Slash
    } else if all_ascii_digits(query) {
        SymbolQueryList::Numerals(query.last())
    } else {
        SymbolQueryList::Letters(query[0])
    }
}

/// The list a symbol query shows.
pub fn symbol_query_list(query: &str) -> (list: SymbolQueryList)
    ensures
        list == symbol_query_list_of(query@),
{
    let chars = chars_of(query);
    if chars.len() == 0 {
        return SymbolQueryList::Slash;
    }
    let mut i: usize = 0;
    while i < chars.len()
        invariant
            0 <= i <= chars@.len(),
            chars@ == query@,
            forall|j: int| 0 <= j < i ==> '0' <= #[trigger] chars@[j] <= '9',
        decreases chars.len() - i,
    {
        if !('0' <= chars[i] && chars[i] <= '9') {
            return SymbolQueryList::Letters(chars[0]);
        }
        i += 1;
    }
    SymbolQueryList::Numerals(chars[chars.len() - 1])
}

/// The symbols a list holds.
pub open spec fn symbol_query_list_symbols(list: SymbolQueryList) -> Seq<PunctuationSymbol> {
    match list {
        SymbolQueryList::Slash => key_symbol_list(VK_OEM_2),
        SymbolQueryList::Numerals(c) => numeral_variant_list(c),
        SymbolQueryList::Letters(c) => letter_variant_list(c),
    }
}

/// The symbols of a list.
pub fn symbol_query_symbols(list: SymbolQueryList) -> (symbols: Vec<PunctuationSymbol>)
    ensures
        symbols@ == symbol_query_list_symbols(list),
{
    match list {
        SymbolQueryList::Slash => slash_key().symbols,
        SymbolQueryList::Numerals(c) => numeral_variants(c),
        SymbolQueryList::Letters(c) => letter_variants(c),
    }
}

/// The full-width form of a printable ASCII character: the ideographic
/// space for a space, else the character moved into the full-width block.
pub fn full_width_char(wch: u16) -> (full: u16)
    requires
        wch == 0x20 || wch + 0xFEE0 <= u16::MAX,
    ensures
        full == if wch == 0x20 { 0x3000 } else { wch + 0xFEE0 },
{
    if wch == 0x20 {
        0x3000
    } else {
        wch + 0xFEE0
    }
}

/// A selectable row of the options menu, its check mark when `selected`.
pub open spec fn is_option_row(item: CandidateItem, text: Seq<char>, selected: bool) -> bool {
    &&& item.text@ == text
    &&& item.comment@ == if selected { seq!['\u{2713}'] } else { Seq::empty() }
    &&& item.input_count == 0
    &&& !item.separator
}

/// A separator row.
pub open spec fn is_separator_row(item: CandidateItem) -> bool {
    &&& item.text@.len() == 0
    &&& item.comment@.len() == 0
    &&& item.input_count == 0
    &&& item.separator
}

fn option_row(text: &str, selected: bool) -> (item: CandidateItem)
    ensures
        is_option_row(item, text@, selected),
{
    let comment = if selected {
        let mut s = String::new();
        crate::text::push_char(&mut s, '\u{2713}');
        s
    } else {
        String::new()
    };
    CandidateItem { text: string_of(text), comment, input_count: 0, separator: false }
}

fn separator_row() -> (item: CandidateItem)
    ensures
        is_separator_row(item),
{
    CandidateItem { text: String::new(), comment: String::new(), input_count: 0, separator: true }
}

/// The rows of the options menu, the current settings checked: the three
/// character variants other than plain traditional, a separator, the two
/// character forms, a separator and the two punctuation forms.
pub fn options_rows(settings: &ImeSettings) -> (rows: Vec<CandidateItem>)
    ensures
        rows.len() == 9,
        is_option_row(rows[0], "Traditional Chinese (Hong Kong)"@, settings.character_variant == CharacterVariant::HongKong),
        is_option_row(rows[1], "Traditional Chinese (Taiwan)"@, settings.character_variant == CharacterVariant::Taiwan),
        is_option_row(rows[2], "Simplified Chinese"@, settings.character_variant == CharacterVariant::Simplified),
        is_separator_row(rows[3]),
        is_option_row(rows[4], "Half-width Symbols"@, settings.character_form == CharacterForm::HalfWidth),
        is_option_row(rows[5], "Full-width Symbols"@, settings.character_form == CharacterForm::FullWidth),
        is_separator_row(rows[6]),
        is_option_row(rows[7], "Chinese Punctuation"@, settings.punctuation_form == PunctuationForm::Cantonese),
        is_option_row(rows[8], "English Punctuation"@, settings.punctuation_form == PunctuationForm::English),
{
    let variant = settings.character_variant;
    let form = settings.character_form;
    let punctuation = settings.punctuation_form;
    let mut rows: Vec<CandidateItem> = Vec::new();
    rows.push(option_row("Traditional Chinese (Hong Kong)", variant == CharacterVariant::HongKong));
    rows.push(option_row("Traditional Chinese (Taiwan)", variant == CharacterVariant::Taiwan));
    rows.push(option_row("Simplified Chinese", variant == CharacterVariant::Simplified));
    rows.push(separator_row());
    rows.push(option_row("Half-width Symbols", form == CharacterForm::HalfWidth));
    rows.push(option_row("Full-width Symbols", form == CharacterForm::FullWidth));
    rows.push(separator_row());
    rows.push(option_row("Chinese Punctuation", punctuation == PunctuationForm::Cantonese));
    rows.push(option_row("English Punctuation", punctuation == PunctuationForm::English));
    rows
}

/// What picking the options-menu entry at `pos` (separators not counted)
/// does.
pub open spec fn option_command_of(pos: usize) -> MenuCommand {
    if pos == 0 {
        MenuCommand::SetCharacterVariant(CharacterVariant::HongKong)
    } else if pos == 1 {
        MenuCommand::SetCharacterVariant(CharacterVariant::Taiwan)
    } else if pos == 2 {
        MenuCommand::SetCharacterVariant(CharacterVariant::Simplified)
    } else if pos == 3 {
        MenuCommand::SetCharacterForm(CharacterForm::HalfWidth)
    } else if pos == 4 {
        MenuCommand::SetCharacterForm(CharacterForm::FullWidth)
    } else if pos == 5 {
        MenuCommand::SetPunctuationForm(PunctuationForm::Cantonese)
    } else if pos == 6 {
        MenuCommand::SetPunctuationForm(PunctuationForm::English)
    } else {
        MenuCommand::Nothing
    }
}

/// What picking the options-menu entry at `pos` (separators not counted)
/// does.
pub fn option_command(pos: usize) -> (command: MenuCommand)
    ensures
        command == option_command_of(pos),
{
    match pos {
        0 => MenuCommand::SetCharacterVariant(CharacterVariant::HongKong),
        1 => MenuCommand::SetCharacterVariant(CharacterVariant::Taiwan),
        2 => MenuCommand::SetCharacterVariant(CharacterVariant::Simplified),
        3 => MenuCommand::SetCharacterForm(CharacterForm::HalfWidth),
        4 => MenuCommand::SetCharacterForm(CharacterForm::FullWidth),
        5 => MenuCommand::SetPunctuationForm(PunctuationForm::Cantonese),
        6 => MenuCommand::SetPunctuationForm(PunctuationForm::English),
        _ => MenuCommand::Nothing,
    }
}

/// The row of a symbol that consumes `input_count` keys, with its first
/// comment only.
pub open spec fn is_symbol_row(item: CandidateItem, symbol: PunctuationSymbol, input_count: usize) -> bool {
    &&& item.text@ == symbol.text@
    &&& item.comment@ == match symbol.comment {
        Some(c) => c@,
        None => Seq::empty(),
    }
    &&& item.input_count == input_count
    &&& !item.separator
}

/// The rows of symbols that each consume `input_count` keys, with their
/// first comments only.
pub fn symbol_rows(symbols: &Vec<PunctuationSymbol>, input_count: usize) -> (items: Vec<CandidateItem>)
    ensures
        items.len() == symbols.len(),
        forall|i: int| 0 <= i < items.len() ==> is_symbol_row(#[trigger] items[i], symbols[i], input_count),
{
    let mut items: Vec<CandidateItem> = Vec::new();
    let mut i: usize = 0;
    while i < symbols.len()
        invariant
            0 <= i <= symbols.len(),
            items.len() == i,
            forall|j: int| 0 <= j < i ==> is_symbol_row(#[trigger] items[j], symbols[j], input_count),
        decreases symbols.len() - i,
    {
        let symbol = &symbols[i];
        let comment = match symbol.comment {
            Some(c) => string_of(c),
            None => String::new(),
        };
        items.push(CandidateItem { text: string_of(symbol.text), comment, input_count, separator: false });
        i += 1;
    }
    items
}

/// The candidates of an input that is "`" alone (the pinyin prefix with no
/// query yet): the symbols of the "`" key, each consuming that one key.
pub fn lone_grave_candidates() -> (items: Vec<CandidateItem>)
    ensures
        items.len() == key_symbol_list(VK_OEM_3).len(),
        forall|i: int|
            0 <= i < items.len() ==> is_symbol_row(#[trigger] items[i], key_symbol_list(VK_OEM_3)[i], 1),
{
    let key = crate::punctuation::grave_key();
    symbol_rows(&key.symbols, 1)
}

/// How many keys a candidate consumes as the window counts them: for a
/// reverse lookup, the prefix key and at most the whole query.
pub fn displayed_input_count(input_count: usize, is_reverse: bool, query_length: usize) -> (n: usize)
    requires
        is_reverse ==> query_length < usize::MAX,
    ensures
        n == if is_reverse {
            (if input_count < query_length { input_count } else { query_length }) + 1
        } else {
            input_count as int
        },
{
    if is_reverse {
        let counted = if input_count < query_length {
            input_count
        } else {
            query_length
        };
        counted + 1
    } else {
        input_count
    }
}

} // verus!
