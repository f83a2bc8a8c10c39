//! The punctuation keys: what each one types at once, the symbol lists it
//! opens (plain and with Shift), and the letter and numeral variant lists of
//! the "/" symbol query.
use vstd::prelude::*;

verus! {

/// `VK_OEM_1`, the ";:" key.
pub const VK_OEM_1: u32 = 0xBA;

/// `VK_OEM_COMMA`, the ",<" key.
pub const VK_OEM_COMMA: u32 = 0xBC;

/// `VK_OEM_PERIOD`, the ".>" key.
pub const VK_OEM_PERIOD: u32 = 0xBE;

/// `VK_OEM_2`, the "/?" key.
pub const VK_OEM_2: u32 = 0xBF;

/// `VK_OEM_3`, the "`~" key.
pub const VK_OEM_3: u32 = 0xC0;

/// `VK_OEM_5`, the "\|" key.
pub const VK_OEM_5: u32 = 0xDC;

/// `VK_OEM_7`, the "'\"" key.
pub const VK_OEM_7: u32 = 0xDE;

/// A symbol of a list: its text, a comment shown beside it, and a second
/// comment.
#[derive(Clone, Copy, Debug)]
pub struct PunctuationSymbol {
    pub text: &'static str,
    pub comment: Option<&'static str>,
    pub secondary_comment: Option<&'static str>,
}

/// A punctuation key: its key code, the text it shows plain and with
/// Shift, the symbol it types at once (if any) plain and with Shift, and
/// the symbol lists it opens plain and with Shift.
pub struct PunctuationKey {
    pub key_code: u32,
    pub key_text: &'static str,
    pub shifting_key_text: &'static str,
    pub instant_symbol: Option<&'static str>,
    pub instant_shifting_symbol: Option<&'static str>,
    pub symbols: Vec<PunctuationSymbol>,
    pub shifting_symbols: Vec<PunctuationSymbol>,
}

/// The texts of a punctuation key: plain, with Shift, and the symbols it
/// types at once plain and with Shift.
pub type KeyTexts = (&'static str, &'static str, Option<&'static str>, Option<&'static str>);

/// The punctuation key of a key code, by its texts; `None` for a key code
/// that is no punctuation key.
pub open spec fn punctuation_key_texts(code: u32) -> Option<KeyTexts> {
    if code == 0xBC {
        Some((",", "<", Some("，"), None))
    } else if code == 0xBE {
        Some((".", ">", Some("。"), None))
    } else if code == 0xBF {
        Some(("/", "?", None, Some("？")))
    } else if code == 0xBA {
        Some((";", ":", Some("；"), Some("：")))
    } else if code == 0xDE {
        Some(("'", "\"", None, None))
    } else if code == 0xDB {
        Some(("[", "{", None, None))
    } else if code == 0xDD {
        Some(("]", "}", None, None))
    } else if code == 0xDC {
        Some(("\\", "|", None, None))
    } else if code == 0xC0 {
        Some(("`", "~", None, None))
    } else if code == 0xBD {
        Some(("-", "_", Some("-"), Some("——")))
    } else if code == 0xBB {
        Some(("=", "+", None, Some("+")))
    } else if code == 0x30 {
        Some(("0", ")", Some("0"), Some("）")))
    } else if code == 0x31 {
        Some(("1", "!", Some("1"), Some("！")))
    } else if code == 0x32 {
        Some(("2", "@", Some("2"), None))
    } else if code == 0x33 {
        Some(("3", "#", Some("3"), None))
    } else if code == 0x34 {
        Some(("4", "$", Some("4"), None))
    } else if code == 0x35 {
        Some(("5", "%", Some("5"), None))
    } else if code == 0x36 {
        Some(("6", "^", Some("6"), None))
    } else if code == 0x37 {
        Some(("7", "&", Some("7"), None))
    } else if code == 0x38 {
        Some(("8", "*", Some("8"), None))
    } else if code == 0x39 {
        Some(("9", "(", Some("9"), Some("（")))
    } else {
        None
    }
}

/// Whether the key matches the row of its key code in the table.
pub open spec fn key_has_texts(key: PunctuationKey, code: u32) -> bool {
    &&& key.key_code == code
    &&& punctuation_key_texts(code) == Some(
        (key.key_text, key.shifting_key_text, key.instant_symbol, key.instant_shifting_symbol),
    )
}

fn symbol(text: &'static str, comment: Option<&'static str>, secondary_comment: Option<&'static str>) -> (s:
    PunctuationSymbol)
    ensures
        s.text == text,
        s.comment == comment,
        s.secondary_comment == secondary_comment,
{
    PunctuationSymbol { text, comment, secondary_comment }
}

/// The symbol list of the "," key.
pub open spec fn comma_symbols_list() -> Seq<PunctuationSymbol> {
    seq![
        PunctuationSymbol { text: "，", comment: None, secondary_comment: None },
    ]
}

fn comma_symbols() -> (v: Vec<PunctuationSymbol>)
    ensures
        v@ == comma_symbols_list(),
{
    vec![symbol("，", None, None)]
}

/// The symbol list of the "," key with Shift.
pub open spec fn comma_shifting_list() -> Seq<PunctuationSymbol> {
    seq![
        PunctuationSymbol { text: "《", comment: None, secondary_comment: None },
        PunctuationSymbol { text: "〈", comment: None, secondary_comment: None },
        PunctuationSymbol { text: "«", comment: None, secondary_comment: None },
        PunctuationSymbol { text: "‹", comment: None, secondary_comment: None },
        PunctuationSymbol { text: "⟨", comment: None, secondary_comment: None },
        PunctuationSymbol { text: "˂", comment: None, secondary_comment: None },
        PunctuationSymbol { text: "˱", comment: None, secondary_comment: None },
    ]
}

fn comma_shifting() -> (v: Vec<PunctuationSymbol>)
    ensures
        v@ == comma_shifting_list(),
{
    vec![
        symbol("《", None, None),
        symbol("〈", None, None),
        symbol("«", None, None),
        symbol("‹", None, None),
        symbol("⟨", None, None),
        symbol("˂", None, None),
        symbol("˱", None, None),
    ]
}

/// The symbol list of the "." key.
pub open spec fn period_symbols_list() -> Seq<PunctuationSymbol> {
    seq![
        PunctuationSymbol { text: "。", comment: None, secondary_comment: None },
    ]
}

fn period_symbols() -> (v: Vec<PunctuationSymbol>)
    ensures
        v@ == period_symbols_list(),
{
    vec![symbol("。", None, None)]
}

/// The symbol list of the "." key with Shift.
pub open spec fn period_shifting_list() -> Seq<PunctuationSymbol> {
    seq![
        PunctuationSymbol { text: "》", comment: None, secondary_comment: None },
        PunctuationSymbol { text: "〉", comment: None, secondary_comment: None },
        PunctuationSymbol { text: "»", comment: None, secondary_comment: None },
        PunctuationSymbol { text: "›", comment: None, secondary_comment: None },
        PunctuationSymbol { text: "⟩", comment: None, secondary_comment: None },
        PunctuationSymbol { text: "˃", comment: None, secondary_comment: None },
        PunctuationSymbol { text: "˲", comment: None, secondary_comment: None },
    ]
}

fn period_shifting() -> (v: Vec<PunctuationSymbol>)
    ensures
        v@ == period_shifting_list(),
{
    vec![
        symbol("》", None, None),
        symbol("〉", None, None),
        symbol("»", None, None),
        symbol("›", None, None),
        symbol("⟩", None, None),
        symbol("˃", None, None),
        symbol("˲", None, None),
    ]
}

/// The symbol list of the "/" key.
pub open spec fn slash_symbols_list() -> Seq<PunctuationSymbol> {
    seq![
        PunctuationSymbol { text: "、", comment: None, secondary_comment: None },
        PunctuationSymbol { text: "､", comment: Some("半寬頓號"), secondary_comment: None },
        PunctuationSymbol { text: "/", comment: Some("半寬"), secondary_comment: None },
        PunctuationSymbol { text: "／", comment: Some("全寬"), secondary_comment: None },
        PunctuationSymbol { text: "÷", comment: None, secondary_comment: None },
        PunctuationSymbol { text: "≠", comment: None, secondary_comment: None },
        PunctuationSymbol { text: "　", comment: Some("全寬空格"), secondary_comment: None },
    ]
}

fn slash_symbols() -> (v: Vec<PunctuationSymbol>)
    ensures
        v@ == slash_symbols_list(),
{
    vec![
        symbol("、", None, None),
        symbol("､", Some("半寬頓號"), None),
        symbol("/", Some("半寬"), None),
        symbol("／", Some("全寬"), None),
        symbol("÷", None, None),
        symbol("≠", None, None),
        symbol("　", Some("全寬空格"), None),
    ]
}

/// The symbol list of the "/" key with Shift.
pub open spec fn slash_shifting_list() -> Seq<PunctuationSymbol> {
    seq![
        PunctuationSymbol { text: "？", comment: None, secondary_comment: None },
    ]
}

fn slash_shifting() -> (v: Vec<PunctuationSymbol>)
    ensures
        v@ == slash_shifting_list(),
{
    vec![symbol("？", None, None)]
}

/// The symbol list of the ";" key.
pub open spec fn semicolon_symbols_list() -> Seq<PunctuationSymbol> {
    seq![
        PunctuationSymbol { text: "；", comment: None, secondary_comment: None },
    ]
}

fn semicolon_symbols() -> (v: Vec<PunctuationSymbol>)
    ensures
        v@ == semicolon_symbols_list(),
{
    vec![symbol("；", None, None)]
}

/// The symbol list of the ";" key with Shift.
pub open spec fn semicolon_shifting_list() -> Seq<PunctuationSymbol> {
    seq![
        PunctuationSymbol { text: "：", comment: None, secondary_comment: None },
    ]
}

fn semicolon_shifting() -> (v: Vec<PunctuationSymbol>)
    ensures
        v@ == semicolon_shifting_list(),
{
    vec![symbol("：", None, None)]
}

/// The symbol list of the "'" key.
pub open spec fn quote_symbols_list() -> Seq<PunctuationSymbol> {
    seq![
        PunctuationSymbol { text: "‘", comment: Some("左單引號"), secondary_comment: None },
        PunctuationSymbol { text: "’", comment: Some("右單引號"), secondary_comment: None },
        PunctuationSymbol { text: "'", comment: Some("半寬"), secondary_comment: None },
        PunctuationSymbol { text: "＇", comment: Some("全寬"), secondary_comment: None },
    ]
}

fn quote_symbols() -> (v: Vec<PunctuationSymbol>)
    ensures
        v@ == quote_symbols_list(),
{
    vec![
        symbol("‘", Some("左單引號"), None),
        symbol("’", Some("右單引號"), None),
        symbol("'", Some("半寬"), None),
        symbol("＇", Some("全寬"), None),
    ]
}

/// The symbol list of the "'" key with Shift.
pub open spec fn quote_shifting_list() -> Seq<PunctuationSymbol> {
    seq![
        PunctuationSymbol { text: "“", comment: Some("左雙引號"), secondary_comment: None },
        PunctuationSymbol { text: "”", comment: Some("右雙引號"), secondary_comment: None },
        PunctuationSymbol { text: "\"", comment: Some("半寬"), secondary_comment: None },
        PunctuationSymbol { text: "＂", comment: Some("全寬"), secondary_comment: None },
    ]
}

fn quote_shifting() -> (v: Vec<PunctuationSymbol>)
    ensures
        v@ == quote_shifting_list(),
{
    vec![
        symbol("“", Some("左雙引號"), None),
        symbol("”", Some("右雙引號"), None),
        symbol("\"", Some("半寬"), None),
        symbol("＂", Some("全寬"), None),
    ]
}

/// The symbol list of the "[" key.
pub open spec fn bracket_left_symbols_list() -> Seq<PunctuationSymbol> {
    seq![
        PunctuationSymbol { text: "「", comment: None, secondary_comment: None },
        PunctuationSymbol { text: "【", comment: None, secondary_comment: None },
        PunctuationSymbol { text: "〔", comment: None, secondary_comment: None },
        PunctuationSymbol { text: "［", comment: Some("全寬"), secondary_comment: None },
        PunctuationSymbol { text: "〚", comment: None, secondary_comment: None },
        PunctuationSymbol { text: "〘", comment: None, secondary_comment: None },
    ]
}

fn bracket_left_symbols() -> (v: Vec<PunctuationSymbol>)
    ensures
        v@ == bracket_left_symbols_list(),
{
    vec![
        symbol("「", None, None),
        symbol("【", None, None),
        symbol("〔", None, None),
        symbol("［", Some("全寬"), None),
        symbol("〚", None, None),
        symbol("〘", None, None),
    ]
}

/// The symbol list of the "[" key with Shift.
pub open spec fn bracket_left_shifting_list() -> Seq<PunctuationSymbol> {
    seq![
        PunctuationSymbol { text: "『", comment: None, secondary_comment: None },
        PunctuationSymbol { text: "〖", comment: None, secondary_comment: None },
        PunctuationSymbol { text: "｛", comment: Some("全寬"), secondary_comment: None },
    ]
}

fn bracket_left_shifting() -> (v: Vec<PunctuationSymbol>)
    ensures
        v@ == bracket_left_shifting_list(),
{
    vec![
        symbol("『", None, None),
        symbol("〖", None, None),
        symbol("｛", Some("全寬"), None),
    ]
}

/// The symbol list of the "]" key.
pub open spec fn bracket_right_symbols_list() -> Seq<PunctuationSymbol> {
    seq![
        PunctuationSymbol { text: "」", comment: None, secondary_comment: None },
        PunctuationSymbol { text: "】", comment: None, secondary_comment: None },
        PunctuationSymbol { text: "〕", comment: None, secondary_comment: None },
        PunctuationSymbol { text: "］", comment: Some("全寬"), secondary_comment: None },
        PunctuationSymbol { text: "〛", comment: None, secondary_comment: None },
        PunctuationSymbol { text: "〙", comment: None, secondary_comment: None },
    ]
}

fn bracket_right_symbols() -> (v: Vec<PunctuationSymbol>)
    ensures
        v@ == bracket_right_symbols_list(),
{
    vec![
        symbol("」", None, None),
        symbol("】", None, None),
        symbol("〕", None, None),
        symbol("］", Some("全寬"), None),
        symbol("〛", None, None),
        symbol("〙", None, None),
    ]
}

/// The symbol list of the "]" key with Shift.
pub open spec fn bracket_right_shifting_list() -> Seq<PunctuationSymbol> {
    seq![
        PunctuationSymbol { text: "』", comment: None, secondary_comment: None },
        PunctuationSymbol { text: "〗", comment: None, secondary_comment: None },
        PunctuationSymbol { text: "｝", comment: Some("全寬"), secondary_comment: None },
    ]
}

fn bracket_right_shifting() -> (v: Vec<PunctuationSymbol>)
    ensures
        v@ == bracket_right_shifting_list(),
{
    vec![
        symbol("』", None, None),
        symbol("〗", None, None),
        symbol("｝", Some("全寬"), None),
    ]
}

/// The symbol list of the "\\" key.
pub open spec fn backslash_symbols_list() -> Seq<PunctuationSymbol> {
    seq![
        PunctuationSymbol { text: "、", comment: None, secondary_comment: None },
        PunctuationSymbol { text: "\\", comment: Some("半寬"), secondary_comment: None },
        PunctuationSymbol { text: "＼", comment: Some("全寬"), secondary_comment: None },
    ]
}

fn backslash_symbols() -> (v: Vec<PunctuationSymbol>)
    ensures
        v@ == backslash_symbols_list(),
{
    vec![
        symbol("、", None, None),
        symbol("\\", Some("半寬"), None),
        symbol("＼", Some("全寬"), None),
    ]
}

/// The symbol list of the "\\" key with Shift.
pub open spec fn backslash_shifting_list() -> Seq<PunctuationSymbol> {
    seq![
        PunctuationSymbol { text: "·", comment: Some("間隔號"), secondary_comment: None },
        PunctuationSymbol { text: "・", comment: Some("中點"), secondary_comment: None },
        PunctuationSymbol { text: "|", comment: Some("半寬"), secondary_comment: None },
        PunctuationSymbol { text: "｜", comment: Some("全寬"), secondary_comment: None },
        PunctuationSymbol { text: "§", comment: None, secondary_comment: None },
        PunctuationSymbol { text: "¦", comment: None, secondary_comment: None },
        PunctuationSymbol { text: "‖", comment: None, secondary_comment: None },
        PunctuationSymbol { text: "︴", comment: None, secondary_comment: None },
    ]
}

fn backslash_shifting() -> (v: Vec<PunctuationSymbol>)
    ensures
        v@ == backslash_shifting_list(),
{
    vec![
        symbol("·", Some("間隔號"), None),
        symbol("・", Some("中點"), None),
        symbol("|", Some("半寬"), None),
        symbol("｜", Some("全寬"), None),
        symbol("§", None, None),
        symbol("¦", None, None),
        symbol("‖", None, None),
        symbol("︴", None, None),
    ]
}

/// The symbol list of the "`" key.
pub open spec fn grave_symbols_list() -> Seq<PunctuationSymbol> {
    seq![
        PunctuationSymbol { text: "`", comment: Some("重音符"), secondary_comment: None },
        PunctuationSymbol { text: "‵", comment: None, secondary_comment: None },
        PunctuationSymbol { text: "‶", comment: None, secondary_comment: None },
        PunctuationSymbol { text: "‷", comment: None, secondary_comment: None },
        PunctuationSymbol { text: "′", comment: Some("撇號"), secondary_comment: None },
        PunctuationSymbol { text: "″", comment: Some("雙撇"), secondary_comment: None },
        PunctuationSymbol { text: "‴", comment: None, secondary_comment: None },
        PunctuationSymbol { text: "⁗", comment: None, secondary_comment: None },
    ]
}

fn grave_symbols() -> (v: Vec<PunctuationSymbol>)
    ensures
        v@ == grave_symbols_list(),
{
    vec![
        symbol("`", Some("重音符"), None),
        symbol("‵", None, None),
        symbol("‶", None, None),
        symbol("‷", None, None),
        symbol("′", Some("撇號"), None),
        symbol("″", Some("雙撇"), None),
        symbol("‴", None, None),
        symbol("⁗", None, None),
    ]
}

/// The symbol list of the "`" key with Shift.
pub open spec fn grave_shifting_list() -> Seq<PunctuationSymbol> {
    seq![
        PunctuationSymbol { text: "~", comment: Some("半寬"), secondary_comment: None },
        PunctuationSymbol { text: "～", comment: Some("全寬"), secondary_comment: None },
        PunctuationSymbol { text: "˜", comment: None, secondary_comment: None },
        PunctuationSymbol { text: "˷", comment: None, secondary_comment: None },
        PunctuationSymbol { text: "ⸯ", comment: None, secondary_comment: None },
        PunctuationSymbol { text: "≈", comment: None, secondary_comment: None },
        PunctuationSymbol { text: "≋", comment: None, secondary_comment: None },
        PunctuationSymbol { text: "≃", comment: None, secondary_comment: None },
        PunctuationSymbol { text: "≅", comment: None, secondary_comment: None },
        PunctuationSymbol { text: "≇", comment: None, secondary_comment: None },
        PunctuationSymbol { text: "∽", comment: None, secondary_comment: None },
        PunctuationSymbol { text: "⋍", comment: None, secondary_comment: None },
        PunctuationSymbol { text: "≌", comment: None, secondary_comment: None },
        PunctuationSymbol { text: "﹏", comment: None, secondary_comment: None },
        PunctuationSymbol { text: "﹋", comment: None, secondary_comment: None },
        PunctuationSymbol { text: "﹌", comment: None, secondary_comment: None },
        PunctuationSymbol { text: "︴", comment: None, secondary_comment: None },
    ]
}

fn grave_shifting() -> (v: Vec<PunctuationSymbol>)
    ensures
        v@ == grave_shifting_list(),
{
    vec![
        symbol("~", Some("半寬"), None),
        symbol("～", Some("全寬"), None),
        symbol("˜", None, None),
        symbol("˷", None, None),
        symbol("ⸯ", None, None),
        symbol("≈", None, None),
        symbol("≋", None, None),
        symbol("≃", None, None),
        symbol("≅", None, None),
        symbol("≇", None, None),
        symbol("∽", None, None),
        symbol("⋍", None, None),
        symbol("≌", None, None),
        symbol("﹏", None, None),
        symbol("﹋", None, None),
        symbol("﹌", None, None),
        symbol("︴", None, None),
    ]
}

/// The symbol list of the "-" key.
pub open spec fn minus_symbols_list() -> Seq<PunctuationSymbol> {
    seq![
        PunctuationSymbol { text: "-", comment: None, secondary_comment: None },
    ]
}

fn minus_symbols() -> (v: Vec<PunctuationSymbol>)
    ensures
        v@ == minus_symbols_list(),
{
    vec![symbol("-", None, None)]
}

/// The symbol list of the "-" key with Shift.
pub open spec fn minus_shifting_list() -> Seq<PunctuationSymbol> {
    seq![
        PunctuationSymbol { text: "——", comment: None, secondary_comment: None },
    ]
}

fn minus_shifting() -> (v: Vec<PunctuationSymbol>)
    ensures
        v@ == minus_shifting_list(),
{
    vec![symbol("——", None, None)]
}

/// The symbol list of the "=" key.
pub open spec fn equal_symbols_list() -> Seq<PunctuationSymbol> {
    seq![
        PunctuationSymbol { text: "=", comment: None, secondary_comment: None },
        PunctuationSymbol { text: "々", comment: None, secondary_comment: None },
        PunctuationSymbol { text: "〃", comment: None, secondary_comment: None },
    ]
}

fn equal_symbols() -> (v: Vec<PunctuationSymbol>)
    ensures
        v@ == equal_symbols_list(),
{
    vec![
        symbol("=", None, None),
        symbol("々", None, None),
        symbol("〃", None, None),
    ]
}

/// The symbol list of the "=" key with Shift.
pub open spec fn equal_shifting_list() -> Seq<PunctuationSymbol> {
    seq![
        PunctuationSymbol { text: "+", comment: None, secondary_comment: None },
    ]
}

fn equal_shifting() -> (v: Vec<PunctuationSymbol>)
    ensures
        v@ == equal_shifting_list(),
{
    vec![symbol("+", None, None)]
}

/// The symbol list of the "0" key.
pub open spec fn number0_symbols_list() -> Seq<PunctuationSymbol> {
    seq![
        PunctuationSymbol { text: "0", comment: None, secondary_comment: None },
    ]
}

fn number0_symbols() -> (v: Vec<PunctuationSymbol>)
    ensures
        v@ == number0_symbols_list(),
{
    vec![symbol("0", None, None)]
}

/// The symbol list of the "0" key with Shift.
pub open spec fn number0_shifting_list() -> Seq<PunctuationSymbol> {
    seq![
        PunctuationSymbol { text: "）", comment: None, secondary_comment: None },
    ]
}

fn number0_shifting() -> (v: Vec<PunctuationSymbol>)
    ensures
        v@ == number0_shifting_list(),
{
    vec![symbol("）", None, None)]
}

/// The symbol list of the "1" key.
pub open spec fn number1_symbols_list() -> Seq<PunctuationSymbol> {
    seq![
        PunctuationSymbol { text: "1", comment: None, secondary_comment: None },
    ]
}

fn number1_symbols() -> (v: Vec<PunctuationSymbol>)
    ensures
        v@ == number1_symbols_list(),
{
    vec![symbol("1", None, None)]
}

/// The symbol list of the "1" key with Shift.
pub open spec fn number1_shifting_list() -> Seq<PunctuationSymbol> {
    seq![
        PunctuationSymbol { text: "！", comment: None, secondary_comment: None },
    ]
}

fn number1_shifting() -> (v: Vec<PunctuationSymbol>)
    ensures
        v@ == number1_shifting_list(),
{
    vec![symbol("！", None, None)]
}

/// The symbol list of the "2" key.
pub open spec fn number2_symbols_list() -> Seq<PunctuationSymbol> {
    seq![
        PunctuationSymbol { text: "2", comment: None, secondary_comment: None },
    ]
}

fn number2_symbols() -> (v: Vec<PunctuationSymbol>)
    ensures
        v@ == number2_symbols_list(),
{
    vec![symbol("2", None, None)]
}

/// The symbol list of the "2" key with Shift.
pub open spec fn number2_shifting_list() -> Seq<PunctuationSymbol> {
    seq![
        PunctuationSymbol { text: "@", comment: Some("半寬"), secondary_comment: None },
        PunctuationSymbol { text: "©", comment: None, secondary_comment: None },
        PunctuationSymbol { text: "®", comment: None, secondary_comment: None },
        PunctuationSymbol { text: "℗", comment: None, secondary_comment: None },
    ]
}

fn number2_shifting() -> (v: Vec<PunctuationSymbol>)
    ensures
        v@ == number2_shifting_list(),
{
    vec![
        symbol("@", Some("半寬"), None),
        symbol("©", None, None),
        symbol("®", None, None),
        symbol("℗", None, None),
    ]
}

/// The symbol list of the "3" key.
pub open spec fn number3_symbols_list() -> Seq<PunctuationSymbol> {
    seq![
        PunctuationSymbol { text: "3", comment: None, secondary_comment: None },
    ]
}

fn number3_symbols() -> (v: Vec<PunctuationSymbol>)
    ensures
        v@ == number3_symbols_list(),
{
    vec![symbol("3", None, None)]
}

/// The symbol list of the "3" key with Shift.
pub open spec fn number3_shifting_list() -> Seq<PunctuationSymbol> {
    seq![
        PunctuationSymbol { text: "#", comment: Some("半寬"), secondary_comment: None },
        PunctuationSymbol { text: "№", comment: None, secondary_comment: None },
    ]
}

fn number3_shifting() -> (v: Vec<PunctuationSymbol>)
    ensures
        v@ == number3_shifting_list(),
{
    vec![
        symbol("#", Some("半寬"), None),
        symbol("№", None, None),
    ]
}

/// The symbol list of the "4" key.
pub open spec fn number4_symbols_list() -> Seq<PunctuationSymbol> {
    seq![
        PunctuationSymbol { text: "4", comment: None, secondary_comment: None },
    ]
}

fn number4_symbols() -> (v: Vec<PunctuationSymbol>)
    ensures
        v@ == number4_symbols_list(),
{
    vec![symbol("4", None, None)]
}

/// The symbol list of the "4" key with Shift.
pub open spec fn number4_shifting_list() -> Seq<PunctuationSymbol> {
    seq![
        PunctuationSymbol { text: "￥", comment: None, secondary_comment: None },
        PunctuationSymbol { text: "$", comment: Some("半寬"), secondary_comment: None },
        PunctuationSymbol { text: "€", comment: None, secondary_comment: None },
        PunctuationSymbol { text: "£", comment: None, secondary_comment: None },
        PunctuationSymbol { text: "¥", comment: None, secondary_comment: None },
        PunctuationSymbol { text: "¢", comment: None, secondary_comment: None },
        PunctuationSymbol { text: "¤", comment: None, secondary_comment: None },
        PunctuationSymbol { text: "₩", comment: None, secondary_comment: None },
    ]
}

fn number4_shifting() -> (v: Vec<PunctuationSymbol>)
    ensures
        v@ == number4_shifting_list(),
{
    vec![
        symbol("￥", None, None),
        symbol("$", Some("半寬"), None),
        symbol("€", None, None),
        symbol("£", None, None),
        symbol("¥", None, None),
        symbol("¢", None, None),
        symbol("¤", None, None),
        symbol("₩", None, None),
    ]
}

/// The symbol list of the "5" key.
pub open spec fn number5_symbols_list() -> Seq<PunctuationSymbol> {
    seq![
        PunctuationSymbol { text: "5", comment: None, secondary_comment: None },
    ]
}

fn number5_symbols() -> (v: Vec<PunctuationSymbol>)
    ensures
        v@ == number5_symbols_list(),
{
    vec![symbol("5", None, None)]
}

/// The symbol list of the "5" key with Shift.
pub open spec fn number5_shifting_list() -> Seq<PunctuationSymbol> {
    seq![
        PunctuationSymbol { text: "%", comment: Some("半寬"), secondary_comment: None },
        PunctuationSymbol { text: "％", comment: Some("全寬"), secondary_comment: None },
        PunctuationSymbol { text: "°", comment: None, secondary_comment: None },
        PunctuationSymbol { text: "℃", comment: None, secondary_comment: None },
        PunctuationSymbol { text: "‰", comment: None, secondary_comment: None },
        PunctuationSymbol { text: "‱", comment: None, secondary_comment: None },
        PunctuationSymbol { text: "℉", comment: None, secondary_comment: None },
        PunctuationSymbol { text: "℅", comment: None, secondary_comment: None },
        PunctuationSymbol { text: "℆", comment: None, secondary_comment: None },
        PunctuationSymbol { text: "℀", comment: None, secondary_comment: None },
        PunctuationSymbol { text: "℁", comment: None, secondary_comment: None },
        PunctuationSymbol { text: "⅍", comment: None, secondary_comment: None },
        PunctuationSymbol { text: "∞", comment: None, secondary_comment: None },
    ]
}

fn number5_shifting() -> (v: Vec<PunctuationSymbol>)
    ensures
        v@ == number5_shifting_list(),
{
    vec![
        symbol("%", Some("半寬"), None),
        symbol("％", Some("全寬"), None),
        symbol("°", None, None),
        symbol("℃", None, None),
        symbol("‰", None, None),
        symbol("‱", None, None),
        symbol("℉", None, None),
        symbol("℅", None, None),
        symbol("℆", None, None),
        symbol("℀", None, None),
        symbol("℁", None, None),
        symbol("⅍", None, None),
        symbol("∞", None, None),
    ]
}

/// The symbol list of the "6" key.
pub open spec fn number6_symbols_list() -> Seq<PunctuationSymbol> {
    seq![
        PunctuationSymbol { text: "6", comment: None, secondary_comment: None },
    ]
}

fn number6_symbols() -> (v: Vec<PunctuationSymbol>)
    ensures
        v@ == number6_symbols_list(),
{
    vec![symbol("6", None, None)]
}

/// The symbol list of the "6" key with Shift.
pub open spec fn number6_shifting_list() -> Seq<PunctuationSymbol> {
    seq![
        PunctuationSymbol { text: "……", comment: None, secondary_comment: None },
        PunctuationSymbol { text: "…", comment: None, secondary_comment: None },
        PunctuationSymbol { text: "^", comment: Some("半寬"), secondary_comment: None },
        PunctuationSymbol { text: "＾", comment: Some("全寬"), secondary_comment: None },
    ]
}

fn number6_shifting() -> (v: Vec<PunctuationSymbol>)
    ensures
        v@ == number6_shifting_list(),
{
    vec![
        symbol("……", None, None),
        symbol("…", None, None),
        symbol("^", Some("半寬"), None),
        symbol("＾", Some("全寬"), None),
    ]
}

/// The symbol list of the "7" key.
pub open spec fn number7_symbols_list() -> Seq<PunctuationSymbol> {
    seq![
        PunctuationSymbol { text: "7", comment: None, secondary_comment: None },
    ]
}

fn number7_symbols() -> (v: Vec<PunctuationSymbol>)
    ensures
        v@ == number7_symbols_list(),
{
    vec![symbol("7", None, None)]
}

/// The symbol list of the "7" key with Shift.
pub open spec fn number7_shifting_list() -> Seq<PunctuationSymbol> {
    seq![
        PunctuationSymbol { text: "＆", comment: Some("全寬"), secondary_comment: None },
        PunctuationSymbol { text: "§", comment: None, secondary_comment: None },
        PunctuationSymbol { text: "¦", comment: None, secondary_comment: None },
        PunctuationSymbol { text: "&", comment: Some("半寬"), secondary_comment: None },
    ]
}

fn number7_shifting() -> (v: Vec<PunctuationSymbol>)
    ensures
        v@ == number7_shifting_list(),
{
    vec![
        symbol("＆", Some("全寬"), None),
        symbol("§", None, None),
        symbol("¦", None, None),
        symbol("&", Some("半寬"), None),
    ]
}

/// The symbol list of the "8" key.
pub open spec fn number8_symbols_list() -> Seq<PunctuationSymbol> {
    seq![
        PunctuationSymbol { text: "8", comment: None, secondary_comment: None },
    ]
}

fn number8_symbols() -> (v: Vec<PunctuationSymbol>)
    ensures
        v@ == number8_symbols_list(),
{
    vec![symbol("8", None, None)]
}

/// The symbol list of the "8" key with Shift.
pub open spec fn number8_shifting_list() -> Seq<PunctuationSymbol> {
    seq![
        PunctuationSymbol { text: "*", comment: Some("半寬"), secondary_comment: None },
        PunctuationSymbol { text: "＊", comment: Some("全寬"), secondary_comment: None },
        PunctuationSymbol { text: "·", comment: Some("間隔號"), secondary_comment: None },
        PunctuationSymbol { text: "・", comment: Some("中點"), secondary_comment: None },
        PunctuationSymbol { text: "×", comment: Some("乘號"), secondary_comment: None },
        PunctuationSymbol { text: "※", comment: Some("參攷號"), secondary_comment: None },
        PunctuationSymbol { text: "❂", comment: None, secondary_comment: None },
        PunctuationSymbol { text: "⁂", comment: None, secondary_comment: None },
        PunctuationSymbol { text: "☮", comment: None, secondary_comment: None },
        PunctuationSymbol { text: "☯", comment: None, secondary_comment: None },
        PunctuationSymbol { text: "☣", comment: None, secondary_comment: None },
    ]
}

fn number8_shifting() -> (v: Vec<PunctuationSymbol>)
    ensures
        v@ == number8_shifting_list(),
{
    vec![
        symbol("*", Some("半寬"), None),
        symbol("＊", Some("全寬"), None),
        symbol("·", Some("間隔號"), None),
        symbol("・", Some("中點"), None),
        symbol("×", Some("乘號"), None),
        symbol("※", Some("參攷號"), None),
        symbol("❂", None, None),
        symbol("⁂", None, None),
        symbol("☮", None, None),
        symbol("☯", None, None),
        symbol("☣", None, None),
    ]
}

/// The symbol list of the "9" key.
pub open spec fn number9_symbols_list() -> Seq<PunctuationSymbol> {
    seq![
        PunctuationSymbol { text: "9", comment: None, secondary_comment: None },
    ]
}

fn number9_symbols() -> (v: Vec<PunctuationSymbol>)
    ensures
        v@ == number9_symbols_list(),
{
    vec![symbol("9", None, None)]
}

/// The symbol list of the "9" key with Shift.
pub open spec fn number9_shifting_list() -> Seq<PunctuationSymbol> {
    seq![
        PunctuationSymbol { text: "（", comment: None, secondary_comment: None },
    ]
}

fn number9_shifting() -> (v: Vec<PunctuationSymbol>)
    ensures
        v@ == number9_shifting_list(),
{
    vec![symbol("（", None, None)]
}

/// The variants of the digit 0.
pub open spec fn numeral_0_list() -> Seq<PunctuationSymbol> {
    seq![
        PunctuationSymbol { text: "0", comment: Some("半寬"), secondary_comment: None },
        PunctuationSymbol { text: "０", comment: Some("全寬"), secondary_comment: None },
        PunctuationSymbol { text: "零", comment: Some("中文"), secondary_comment: None },
        PunctuationSymbol { text: "〇", comment: Some("中文"), secondary_comment: None },
        PunctuationSymbol { text: "⁰", comment: Some("上標"), secondary_comment: None },
        PunctuationSymbol { text: "₀", comment: Some("下標"), secondary_comment: None },
    ]
}

fn numeral_0() -> (v: Vec<PunctuationSymbol>)
    ensures
        v@ == numeral_0_list(),
{
    vec![
        symbol("0", Some("半寬"), None),
        symbol("０", Some("全寬"), None),
        symbol("零", Some("中文"), None),
        symbol("〇", Some("中文"), None),
        symbol("⁰", Some("上標"), None),
        symbol("₀", Some("下標"), None),
    ]
}

/// The variants of the digit 1.
pub open spec fn numeral_1_list() -> Seq<PunctuationSymbol> {
    seq![
        PunctuationSymbol { text: "1", comment: Some("半寬"), secondary_comment: None },
        PunctuationSymbol { text: "１", comment: Some("全寬"), secondary_comment: None },
        PunctuationSymbol { text: "一", comment: Some("中文"), secondary_comment: None },
        PunctuationSymbol { text: "壹", comment: Some("大寫"), secondary_comment: None },
        PunctuationSymbol { text: "¹", comment: Some("上標"), secondary_comment: None },
        PunctuationSymbol { text: "₁", comment: Some("下標"), secondary_comment: None },
        PunctuationSymbol { text: "Ⅰ", comment: Some("羅馬數字"), secondary_comment: None },
    ]
}

fn numeral_1() -> (v: Vec<PunctuationSymbol>)
    ensures
        v@ == numeral_1_list(),
{
    vec![
        symbol("1", Some("半寬"), None),
        symbol("１", Some("全寬"), None),
        symbol("一", Some("中文"), None),
        symbol("壹", Some("大寫"), None),
        symbol("¹", Some("上標"), None),
        symbol("₁", Some("下標"), None),
        symbol("Ⅰ", Some("羅馬數字"), None),
    ]
}

/// The variants of the digit 2.
pub open spec fn numeral_2_list() -> Seq<PunctuationSymbol> {
    seq![
        PunctuationSymbol { text: "2", comment: Some("半寬"), secondary_comment: None },
        PunctuationSymbol { text: "２", comment: Some("全寬"), secondary_comment: None },
        PunctuationSymbol { text: "二", comment: Some("中文"), secondary_comment: None },
        PunctuationSymbol { text: "貳", comment: Some("大寫"), secondary_comment: None },
        PunctuationSymbol { text: "²", comment: Some("上標"), secondary_comment: None },
        PunctuationSymbol { text: "₂", comment: Some("下標"), secondary_comment: None },
        PunctuationSymbol { text: "Ⅱ", comment: Some("羅馬數字"), secondary_comment: None },
    ]
}

fn numeral_2() -> (v: Vec<PunctuationSymbol>)
    ensures
        v@ == numeral_2_list(),
{
    vec![
        symbol("2", Some("半寬"), None),
        symbol("２", Some("全寬"), None),
        symbol("二", Some("中文"), None),
        symbol("貳", Some("大寫"), None),
        symbol("²", Some("上標"), None),
        symbol("₂", Some("下標"), None),
        symbol("Ⅱ", Some("羅馬數字"), None),
    ]
}

/// The variants of the digit 3.
pub open spec fn numeral_3_list() -> Seq<PunctuationSymbol> {
    seq![
        PunctuationSymbol { text: "3", comment: Some("半寬"), secondary_comment: None },
        PunctuationSymbol { text: "３", comment: Some("全寬"), secondary_comment: None },
        PunctuationSymbol { text: "三", comment: Some("中文"), secondary_comment: None },
        PunctuationSymbol { text: "叁", comment: Some("大寫"), secondary_comment: None },
        PunctuationSymbol { text: "³", comment: Some("上標"), secondary_comment: None },
        PunctuationSymbol { text: "₃", comment: Some("下標"), secondary_comment: None },
        PunctuationSymbol { text: "Ⅲ", comment: Some("羅馬數字"), secondary_comment: None },
    ]
}

fn numeral_3() -> (v: Vec<PunctuationSymbol>)
    ensures
        v@ == numeral_3_list(),
{
    vec![
        symbol("3", Some("半寬"), None),
        symbol("３", Some("全寬"), None),
        symbol("三", Some("中文"), None),
        symbol("叁", Some("大寫"), None),
        symbol("³", Some("上標"), None),
        symbol("₃", Some("下標"), None),
        symbol("Ⅲ", Some("羅馬數字"), None),
    ]
}

/// The variants of the digit 4.
pub open spec fn numeral_4_list() -> Seq<PunctuationSymbol> {
    seq![
        PunctuationSymbol { text: "4", comment: Some("半寬"), secondary_comment: None },
        PunctuationSymbol { text: "４", comment: Some("全寬"), secondary_comment: None },
        PunctuationSymbol { text: "四", comment: Some("中文"), secondary_comment: None },
        PunctuationSymbol { text: "肆", comment: Some("大寫"), secondary_comment: None },
        PunctuationSymbol { text: "⁴", comment: Some("上標"), secondary_comment: None },
        PunctuationSymbol { text: "₄", comment: Some("下標"), secondary_comment: None },
        PunctuationSymbol { text: "Ⅳ", comment: Some("羅馬數字"), secondary_comment: None },
    ]
}

fn numeral_4() -> (v: Vec<PunctuationSymbol>)
    ensures
        v@ == numeral_4_list(),
{
    vec![
        symbol("4", Some("半寬"), None),
        symbol("４", Some("全寬"), None),
        symbol("四", Some("中文"), None),
        symbol("肆", Some("大寫"), None),
        symbol("⁴", Some("上標"), None),
        symbol("₄", Some("下標"), None),
        symbol("Ⅳ", Some("羅馬數字"), None),
    ]
}

/// The variants of the digit 5.
pub open spec fn numeral_5_list() -> Seq<PunctuationSymbol> {
    seq![
        PunctuationSymbol { text: "5", comment: Some("半寬"), secondary_comment: None },
        PunctuationSymbol { text: "５", comment: Some("全寬"), secondary_comment: None },
        PunctuationSymbol { text: "五", comment: Some("中文"), secondary_comment: None },
        PunctuationSymbol { text: "伍", comment: Some("大寫"), secondary_comment: None },
        PunctuationSymbol { text: "⁵", comment: Some("上標"), secondary_comment: None },
        PunctuationSymbol { text: "₅", comment: Some("下標"), secondary_comment: None },
        PunctuationSymbol { text: "Ⅴ", comment: Some("羅馬數字"), secondary_comment: None },
    ]
}

fn numeral_5() -> (v: Vec<PunctuationSymbol>)
    ensures
        v@ == numeral_5_list(),
{
    vec![
        symbol("5", Some("半寬"), None),
        symbol("５", Some("全寬"), None),
        symbol("五", Some("中文"), None),
        symbol("伍", Some("大寫"), None),
        symbol("⁵", Some("上標"), None),
        symbol("₅", Some("下標"), None),
        symbol("Ⅴ", Some("羅馬數字"), None),
    ]
}

/// The variants of the digit 6.
pub open spec fn numeral_6_list() -> Seq<PunctuationSymbol> {
    seq![
        PunctuationSymbol { text: "6", comment: Some("半寬"), secondary_comment: None },
        PunctuationSymbol { text: "６", comment: Some("全寬"), secondary_comment: None },
        PunctuationSymbol { text: "六", comment: Some("中文"), secondary_comment: None },
        PunctuationSymbol { text: "陸", comment: Some("大寫"), secondary_comment: None },
        PunctuationSymbol { text: "⁶", comment: Some("上標"), secondary_comment: None },
        PunctuationSymbol { text: "₆", comment: Some("下標"), secondary_comment: None },
        PunctuationSymbol { text: "Ⅵ", comment: Some("羅馬數字"), secondary_comment: None },
    ]
}

fn numeral_6() -> (v: Vec<PunctuationSymbol>)
    ensures
        v@ == numeral_6_list(),
{
    vec![
        symbol("6", Some("半寬"), None),
        symbol("６", Some("全寬"), None),
        symbol("六", Some("中文"), None),
        symbol("陸", Some("大寫"), None),
        symbol("⁶", Some("上標"), None),
        symbol("₆", Some("下標"), None),
        symbol("Ⅵ", Some("羅馬數字"), None),
    ]
}

/// The variants of the digit 7.
pub open spec fn numeral_7_list() -> Seq<PunctuationSymbol> {
    seq![
        PunctuationSymbol { text: "7", comment: Some("半寬"), secondary_comment: None },
        PunctuationSymbol { text: "７", comment: Some("全寬"), secondary_comment: None },
        PunctuationSymbol { text: "七", comment: Some("中文"), secondary_comment: None },
        PunctuationSymbol { text: "柒", comment: Some("大寫"), secondary_comment: None },
        PunctuationSymbol { text: "⁷", comment: Some("上標"), secondary_comment: None },
        PunctuationSymbol { text: "₇", comment: Some("下標"), secondary_comment: None },
        PunctuationSymbol { text: "Ⅶ", comment: Some("羅馬數字"), secondary_comment: None },
    ]
}

fn numeral_7() -> (v: Vec<PunctuationSymbol>)
    ensures
        v@ == numeral_7_list(),
{
    vec![
        symbol("7", Some("半寬"), None),
        symbol("７", Some("全寬"), None),
        symbol("七", Some("中文"), None),
        symbol("柒", Some("大寫"), None),
        symbol("⁷", Some("上標"), None),
        symbol("₇", Some("下標"), None),
        symbol("Ⅶ", Some("羅馬數字"), None),
    ]
}

/// The variants of the digit 8.
pub open spec fn numeral_8_list() -> Seq<PunctuationSymbol> {
    seq![
        PunctuationSymbol { text: "8", comment: Some("半寬"), secondary_comment: None },
        PunctuationSymbol { text: "８", comment: Some("全寬"), secondary_comment: None },
        PunctuationSymbol { text: "八", comment: Some("中文"), secondary_comment: None },
        PunctuationSymbol { text: "捌", comment: Some("大寫"), secondary_comment: None },
        PunctuationSymbol { text: "⁸", comment: Some("上標"), secondary_comment: None },
        PunctuationSymbol { text: "₈", comment: Some("下標"), secondary_comment: None },
        PunctuationSymbol { text: "Ⅷ", comment: Some("羅馬數字"), secondary_comment: None },
    ]
}

fn numeral_8() -> (v: Vec<PunctuationSymbol>)
    ensures
        v@ == numeral_8_list(),
{
    vec![
        symbol("8", Some("半寬"), None),
        symbol("８", Some("全寬"), None),
        symbol("八", Some("中文"), None),
        symbol("捌", Some("大寫"), None),
        symbol("⁸", Some("上標"), None),
        symbol("₈", Some("下標"), None),
        symbol("Ⅷ", Some("羅馬數字"), None),
    ]
}

/// The variants of the digit 9.
pub open spec fn numeral_9_list() -> Seq<PunctuationSymbol> {
    seq![
        PunctuationSymbol { text: "9", comment: Some("半寬"), secondary_comment: None },
        PunctuationSymbol { text: "９", comment: Some("全寬"), secondary_comment: None },
        PunctuationSymbol { text: "九", comment: Some("中文"), secondary_comment: None },
        PunctuationSymbol { text: "玖", comment: Some("大寫"), secondary_comment: None },
        PunctuationSymbol { text: "⁹", comment: Some("上標"), secondary_comment: None },
        PunctuationSymbol { text: "₉", comment: Some("下標"), secondary_comment: None },
        PunctuationSymbol { text: "Ⅸ", comment: Some("羅馬數字"), secondary_comment: None },
    ]
}

fn numeral_9() -> (v: Vec<PunctuationSymbol>)
    ensures
        v@ == numeral_9_list(),
{
    vec![
        symbol("9", Some("半寬"), None),
        symbol("９", Some("全寬"), None),
        symbol("九", Some("中文"), None),
        symbol("玖", Some("大寫"), None),
        symbol("⁹", Some("上標"), None),
        symbol("₉", Some("下標"), None),
        symbol("Ⅸ", Some("羅馬數字"), None),
    ]
}

/// The variants of the letter a.
pub open spec fn letter_a_list() -> Seq<PunctuationSymbol> {
    seq![
        PunctuationSymbol { text: "ā", comment: Some("陰平"), secondary_comment: None },
        PunctuationSymbol { text: "á", comment: Some("陽平"), secondary_comment: None },
        PunctuationSymbol { text: "ǎ", comment: Some("上聲"), secondary_comment: None },
        PunctuationSymbol { text: "à", comment: Some("去聲"), secondary_comment: None },
        PunctuationSymbol { text: "â", comment: None, secondary_comment: None },
        PunctuationSymbol { text: "ä", comment: None, secondary_comment: None },
        PunctuationSymbol { text: "å", comment: None, secondary_comment: None },
        PunctuationSymbol { text: "æ", comment: None, secondary_comment: None },
        PunctuationSymbol { text: "Ā", comment: Some("大寫"), secondary_comment: None },
        PunctuationSymbol { text: "Á", comment: Some("大寫"), secondary_comment: None },
        PunctuationSymbol { text: "Ǎ", comment: Some("大寫"), secondary_comment: None },
        PunctuationSymbol { text: "À", comment: Some("大寫"), secondary_comment: None },
        PunctuationSymbol { text: "Â", comment: Some("大寫"), secondary_comment: None },
        PunctuationSymbol { text: "Ä", comment: Some("大寫"), secondary_comment: None },
        PunctuationSymbol { text: "Å", comment: Some("大寫"), secondary_comment: None },
        PunctuationSymbol { text: "Æ", comment: Some("大寫"), secondary_comment: None },
    ]
}

fn letter_a() -> (v: Vec<PunctuationSymbol>)
    ensures
        v@ == letter_a_list(),
{
    vec![
        symbol("ā", Some("陰平"), None),
        symbol("á", Some("陽平"), None),
        symbol("ǎ", Some("上聲"), None),
        symbol("à", Some("去聲"), None),
        symbol("â", None, None),
        symbol("ä", None, None),
        symbol("å", None, None),
        symbol("æ", None, None),
        symbol("Ā", Some("大寫"), None),
        symbol("Á", Some("大寫"), None),
        symbol("Ǎ", Some("大寫"), None),
        symbol("À", Some("大寫"), None),
        symbol("Â", Some("大寫"), None),
        symbol("Ä", Some("大寫"), None),
        symbol("Å", Some("大寫"), None),
        symbol("Æ", Some("大寫"), None),
    ]
}

/// The variants of the letter e.
pub open spec fn letter_e_list() -> Seq<PunctuationSymbol> {
    seq![
        PunctuationSymbol { text: "ē", comment: Some("陰平"), secondary_comment: None },
        PunctuationSymbol { text: "é", comment: Some("陽平"), secondary_comment: None },
        PunctuationSymbol { text: "ě", comment: Some("上聲"), secondary_comment: None },
        PunctuationSymbol { text: "è", comment: Some("去聲"), secondary_comment: None },
        PunctuationSymbol { text: "ê", comment: None, secondary_comment: None },
        PunctuationSymbol { text: "ë", comment: None, secondary_comment: None },
        PunctuationSymbol { text: "Ē", comment: Some("大寫"), secondary_comment: None },
        PunctuationSymbol { text: "É", comment: Some("大寫"), secondary_comment: None },
        PunctuationSymbol { text: "Ě", comment: Some("大寫"), secondary_comment: None },
        PunctuationSymbol { text: "È", comment: Some("大寫"), secondary_comment: None },
        PunctuationSymbol { text: "Ê", comment: Some("大寫"), secondary_comment: None },
        PunctuationSymbol { text: "Ë", comment: Some("大寫"), secondary_comment: None },
    ]
}

fn letter_e() -> (v: Vec<PunctuationSymbol>)
    ensures
        v@ == letter_e_list(),
{
    vec![
        symbol("ē", Some("陰平"), None),
        symbol("é", Some("陽平"), None),
        symbol("ě", Some("上聲"), None),
        symbol("è", Some("去聲"), None),
        symbol("ê", None, None),
        symbol("ë", None, None),
        symbol("Ē", Some("大寫"), None),
        symbol("É", Some("大寫"), None),
        symbol("Ě", Some("大寫"), None),
        symbol("È", Some("大寫"), None),
        symbol("Ê", Some("大寫"), None),
        symbol("Ë", Some("大寫"), None),
    ]
}

/// The variants of the letter i.
pub open spec fn letter_i_list() -> Seq<PunctuationSymbol> {
    seq![
        PunctuationSymbol { text: "ī", comment: Some("陰平"), secondary_comment: None },
        PunctuationSymbol { text: "í", comment: Some("陽平"), secondary_comment: None },
        PunctuationSymbol { text: "ǐ", comment: Some("上聲"), secondary_comment: None },
        PunctuationSymbol { text: "ì", comment: Some("去聲"), secondary_comment: None },
        PunctuationSymbol { text: "î", comment: None, secondary_comment: None },
        PunctuationSymbol { text: "ï", comment: None, secondary_comment: None },
        PunctuationSymbol { text: "Ī", comment: Some("大寫"), secondary_comment: None },
        PunctuationSymbol { text: "Í", comment: Some("大寫"), secondary_comment: None },
        PunctuationSymbol { text: "Ǐ", comment: Some("大寫"), secondary_comment: None },
        PunctuationSymbol { text: "Ì", comment: Some("大寫"), secondary_comment: None },
        PunctuationSymbol { text: "Î", comment: Some("大寫"), secondary_comment: None },
        PunctuationSymbol { text: "Ï", comment: Some("大寫"), secondary_comment: None },
    ]
}

fn letter_i() -> (v: Vec<PunctuationSymbol>)
    ensures
        v@ == letter_i_list(),
{
    vec![
        symbol("ī", Some("陰平"), None),
        symbol("í", Some("陽平"), None),
        symbol("ǐ", Some("上聲"), None),
        symbol("ì", Some("去聲"), None),
        symbol("î", None, None),
        symbol("ï", None, None),
        symbol("Ī", Some("大寫"), None),
        symbol("Í", Some("大寫"), None),
        symbol("Ǐ", Some("大寫"), None),
        symbol("Ì", Some("大寫"), None),
        symbol("Î", Some("大寫"), None),
        symbol("Ï", Some("大寫"), None),
    ]
}

/// The variants of the letter o.
pub open spec fn letter_o_list() -> Seq<PunctuationSymbol> {
    seq![
        PunctuationSymbol { text: "ō", comment: Some("陰平"), secondary_comment: None },
        PunctuationSymbol { text: "ó", comment: Some("陽平"), secondary_comment: None },
        PunctuationSymbol { text: "ǒ", comment: Some("上聲"), secondary_comment: None },
        PunctuationSymbol { text: "ò", comment: Some("去聲"), secondary_comment: None },
        PunctuationSymbol { text: "ô", comment: None, secondary_comment: None },
        PunctuationSymbol { text: "ö", comment: None, secondary_comment: None },
        PunctuationSymbol { text: "ø", comment: None, secondary_comment: None },
        PunctuationSymbol { text: "œ", comment: None, secondary_comment: None },
        PunctuationSymbol { text: "Ō", comment: Some("大寫"), secondary_comment: None },
        PunctuationSymbol { text: "Ó", comment: Some("大寫"), secondary_comment: None },
        PunctuationSymbol { text: "Ǒ", comment: Some("大寫"), secondary_comment: None },
        PunctuationSymbol { text: "Ò", comment: Some("大寫"), secondary_comment: None },
        PunctuationSymbol { text: "Ô", comment: Some("大寫"), secondary_comment: None },
        PunctuationSymbol { text: "Ö", comment: Some("大寫"), secondary_comment: None },
        PunctuationSymbol { text: "Ø", comment: Some("大寫"), secondary_comment: None },
        PunctuationSymbol { text: "Œ", comment: Some("大寫"), secondary_comment: None },
    ]
}

fn letter_o() -> (v: Vec<PunctuationSymbol>)
    ensures
        v@ == letter_o_list(),
{
    vec![
        symbol("ō", Some("陰平"), None),
        symbol("ó", Some("陽平"), None),
        symbol("ǒ", Some("上聲"), None),
        symbol("ò", Some("去聲"), None),
        symbol("ô", None, None),
        symbol("ö", None, None),
        symbol("ø", None, None),
        symbol("œ", None, None),
        symbol("Ō", Some("大寫"), None),
        symbol("Ó", Some("大寫"), None),
        symbol("Ǒ", Some("大寫"), None),
        symbol("Ò", Some("大寫"), None),
        symbol("Ô", Some("大寫"), None),
        symbol("Ö", Some("大寫"), None),
        symbol("Ø", Some("大寫"), None),
        symbol("Œ", Some("大寫"), None),
    ]
}

/// The variants of the letter u.
pub open spec fn letter_u_list() -> Seq<PunctuationSymbol> {
    seq![
        PunctuationSymbol { text: "ū", comment: Some("陰平"), secondary_comment: None },
        PunctuationSymbol { text: "ú", comment: Some("陽平"), secondary_comment: None },
        PunctuationSymbol { text: "ǔ", comment: Some("上聲"), secondary_comment: None },
        PunctuationSymbol { text: "ù", comment: Some("去聲"), secondary_comment: None },
        PunctuationSymbol { text: "û", comment: None, secondary_comment: None },
        PunctuationSymbol { text: "ü", comment: Some("德語"), secondary_comment: None },
        PunctuationSymbol { text: "Ū", comment: Some("大寫"), secondary_comment: None },
        PunctuationSymbol { text: "Ú", comment: Some("大寫"), secondary_comment: None },
        PunctuationSymbol { text: "Ǔ", comment: Some("大寫"), secondary_comment: None },
        PunctuationSymbol { text: "Ù", comment: Some("大寫"), secondary_comment: None },
        PunctuationSymbol { text: "Û", comment: Some("大寫"), secondary_comment: None },
        PunctuationSymbol { text: "Ü", comment: Some("大寫"), secondary_comment: None },
    ]
}

fn letter_u() -> (v: Vec<PunctuationSymbol>)
    ensures
        v@ == letter_u_list(),
{
    vec![
        symbol("ū", Some("陰平"), None),
        symbol("ú", Some("陽平"), None),
        symbol("ǔ", Some("上聲"), None),
        symbol("ù", Some("去聲"), None),
        symbol("û", None, None),
        symbol("ü", Some("德語"), None),
        symbol("Ū", Some("大寫"), None),
        symbol("Ú", Some("大寫"), None),
        symbol("Ǔ", Some("大寫"), None),
        symbol("Ù", Some("大寫"), None),
        symbol("Û", Some("大寫"), None),
        symbol("Ü", Some("大寫"), None),
    ]
}

/// The variants of the letter v.
pub open spec fn letter_v_list() -> Seq<PunctuationSymbol> {
    seq![
        PunctuationSymbol { text: "ǖ", comment: Some("ü 陰平"), secondary_comment: None },
        PunctuationSymbol { text: "ǘ", comment: Some("ü 陽平"), secondary_comment: None },
        PunctuationSymbol { text: "ǚ", comment: Some("ü 上聲"), secondary_comment: None },
        PunctuationSymbol { text: "ǜ", comment: Some("ü 去聲"), secondary_comment: None },
        PunctuationSymbol { text: "ü", comment: None, secondary_comment: None },
        PunctuationSymbol { text: "Ü", comment: Some("大寫"), secondary_comment: None },
    ]
}

fn letter_v() -> (v: Vec<PunctuationSymbol>)
    ensures
        v@ == letter_v_list(),
{
    vec![
        symbol("ǖ", Some("ü 陰平"), None),
        symbol("ǘ", Some("ü 陽平"), None),
        symbol("ǚ", Some("ü 上聲"), None),
        symbol("ǜ", Some("ü 去聲"), None),
        symbol("ü", None, None),
        symbol("Ü", Some("大寫"), None),
    ]
}

/// The variants of the letter c.
pub open spec fn letter_c_list() -> Seq<PunctuationSymbol> {
    seq![
        PunctuationSymbol { text: "ç", comment: None, secondary_comment: None },
        PunctuationSymbol { text: "č", comment: None, secondary_comment: None },
        PunctuationSymbol { text: "ć", comment: None, secondary_comment: None },
        PunctuationSymbol { text: "Ç", comment: Some("大寫"), secondary_comment: None },
        PunctuationSymbol { text: "Č", comment: Some("大寫"), secondary_comment: None },
        PunctuationSymbol { text: "Ć", comment: Some("大寫"), secondary_comment: None },
    ]
}

fn letter_c() -> (v: Vec<PunctuationSymbol>)
    ensures
        v@ == letter_c_list(),
{
    vec![
        symbol("ç", None, None),
        symbol("č", None, None),
        symbol("ć", None, None),
        symbol("Ç", Some("大寫"), None),
        symbol("Č", Some("大寫"), None),
        symbol("Ć", Some("大寫"), None),
    ]
}

/// The variants of the letter n.
pub open spec fn letter_n_list() -> Seq<PunctuationSymbol> {
    seq![
        PunctuationSymbol { text: "ń", comment: None, secondary_comment: None },
        PunctuationSymbol { text: "ň", comment: None, secondary_comment: None },
        PunctuationSymbol { text: "ǹ", comment: None, secondary_comment: None },
        PunctuationSymbol { text: "ñ", comment: None, secondary_comment: None },
        PunctuationSymbol { text: "Ń", comment: Some("大寫"), secondary_comment: None },
        PunctuationSymbol { text: "Ň", comment: Some("大寫"), secondary_comment: None },
        PunctuationSymbol { text: "Ǹ", comment: Some("大寫"), secondary_comment: None },
        PunctuationSymbol { text: "Ñ", comment: Some("大寫"), secondary_comment: None },
    ]
}

fn letter_n() -> (v: Vec<PunctuationSymbol>)
    ensures
        v@ == letter_n_list(),
{
    vec![
        symbol("ń", None, None),
        symbol("ň", None, None),
        symbol("ǹ", None, None),
        symbol("ñ", None, None),
        symbol("Ń", Some("大寫"), None),
        symbol("Ň", Some("大寫"), None),
        symbol("Ǹ", Some("大寫"), None),
        symbol("Ñ", Some("大寫"), None),
    ]
}

/// The variants of the letter s.
pub open spec fn letter_s_list() -> Seq<PunctuationSymbol> {
    seq![
        PunctuationSymbol { text: "ś", comment: None, secondary_comment: None },
        PunctuationSymbol { text: "š", comment: None, secondary_comment: None },
        PunctuationSymbol { text: "ß", comment: None, secondary_comment: None },
        PunctuationSymbol { text: "Ś", comment: Some("大寫"), secondary_comment: None },
        PunctuationSymbol { text: "Š", comment: Some("大寫"), secondary_comment: None },
    ]
}

fn letter_s() -> (v: Vec<PunctuationSymbol>)
    ensures
        v@ == letter_s_list(),
{
    vec![
        symbol("ś", None, None),
        symbol("š", None, None),
        symbol("ß", None, None),
        symbol("Ś", Some("大寫"), None),
        symbol("Š", Some("大寫"), None),
    ]
}

/// The variants of the letter y.
pub open spec fn letter_y_list() -> Seq<PunctuationSymbol> {
    seq![
        PunctuationSymbol { text: "ý", comment: None, secondary_comment: None },
        PunctuationSymbol { text: "ŷ", comment: None, secondary_comment: None },
        PunctuationSymbol { text: "ÿ", comment: None, secondary_comment: None },
        PunctuationSymbol { text: "Ý", comment: Some("大寫"), secondary_comment: None },
        PunctuationSymbol { text: "Ŷ", comment: Some("大寫"), secondary_comment: None },
        PunctuationSymbol { text: "Ÿ", comment: Some("大寫"), secondary_comment: None },
    ]
}

fn letter_y() -> (v: Vec<PunctuationSymbol>)
    ensures
        v@ == letter_y_list(),
{
    vec![
        symbol("ý", None, None),
        symbol("ŷ", None, None),
        symbol("ÿ", None, None),
        symbol("Ý", Some("大寫"), None),
        symbol("Ŷ", Some("大寫"), None),
        symbol("Ÿ", Some("大寫"), None),
    ]
}

/// The variants of the letter z.
pub open spec fn letter_z_list() -> Seq<PunctuationSymbol> {
    seq![
        PunctuationSymbol { text: "ź", comment: None, secondary_comment: None },
        PunctuationSymbol { text: "ž", comment: None, secondary_comment: None },
        PunctuationSymbol { text: "Ź", comment: Some("大寫"), secondary_comment: None },
        PunctuationSymbol { text: "Ž", comment: Some("大寫"), secondary_comment: None },
    ]
}

fn letter_z() -> (v: Vec<PunctuationSymbol>)
    ensures
        v@ == letter_z_list(),
{
    vec![
        symbol("ź", None, None),
        symbol("ž", None, None),
        symbol("Ź", Some("大寫"), None),
        symbol("Ž", Some("大寫"), None),
    ]
}

fn comma_key_row() -> (key: PunctuationKey)
    ensures
        key_has_texts(key, 0xBC),
        key.symbols@ == comma_symbols_list(),
        key.shifting_symbols@ == comma_shifting_list(),
{
    PunctuationKey {
        key_code: 0xBC,
        key_text: ",",
        shifting_key_text: "<",
        instant_symbol: Some("，"),
        instant_shifting_symbol: None,
        symbols: comma_symbols(),
        shifting_symbols: comma_shifting(),
    }
}

fn period_key_row() -> (key: PunctuationKey)
    ensures
        key_has_texts(key, 0xBE),
        key.symbols@ == period_symbols_list(),
        key.shifting_symbols@ == period_shifting_list(),
{
    PunctuationKey {
        key_code: 0xBE,
        key_text: ".",
        shifting_key_text: ">",
        instant_symbol: Some("。"),
        instant_shifting_symbol: None,
        symbols: period_symbols(),
        shifting_symbols: period_shifting(),
    }
}

fn slash_key_row() -> (key: PunctuationKey)
    ensures
        key_has_texts(key, 0xBF),
        key.symbols@ == slash_symbols_list(),
        key.shifting_symbols@ == slash_shifting_list(),
{
    PunctuationKey {
        key_code: 0xBF,
        key_text: "/",
        shifting_key_text: "?",
        instant_symbol: None,
        instant_shifting_symbol: Some("？"),
        symbols: slash_symbols(),
        shifting_symbols: slash_shifting(),
    }
}

fn semicolon_key_row() -> (key: PunctuationKey)
    ensures
        key_has_texts(key, 0xBA),
        key.symbols@ == semicolon_symbols_list(),
        key.shifting_symbols@ == semicolon_shifting_list(),
{
    PunctuationKey {
        key_code: 0xBA,
        key_text: ";",
        shifting_key_text: ":",
        instant_symbol: Some("；"),
        instant_shifting_symbol: Some("："),
        symbols: semicolon_symbols(),
        shifting_symbols: semicolon_shifting(),
    }
}

fn quote_key_row() -> (key: PunctuationKey)
    ensures
        key_has_texts(key, 0xDE),
        key.symbols@ == quote_symbols_list(),
        key.shifting_symbols@ == quote_shifting_list(),
{
    PunctuationKey {
        key_code: 0xDE,
        key_text: "'",
        shifting_key_text: "\"",
        instant_symbol: None,
        instant_shifting_symbol: None,
        symbols: quote_symbols(),
        shifting_symbols: quote_shifting(),
    }
}

fn bracket_left_key_row() -> (key: PunctuationKey)
    ensures
        key_has_texts(key, 0xDB),
        key.symbols@ == bracket_left_symbols_list(),
        key.shifting_symbols@ == bracket_left_shifting_list(),
{
    PunctuationKey {
        key_code: 0xDB,
        key_text: "[",
        shifting_key_text: "{",
        instant_symbol: None,
        instant_shifting_symbol: None,
        symbols: bracket_left_symbols(),
        shifting_symbols: bracket_left_shifting(),
    }
}

fn bracket_right_key_row() -> (key: PunctuationKey)
    ensures
        key_has_texts(key, 0xDD),
        key.symbols@ == bracket_right_symbols_list(),
        key.shifting_symbols@ == bracket_right_shifting_list(),
{
    PunctuationKey {
        key_code: 0xDD,
        key_text: "]",
        shifting_key_text: "}",
        instant_symbol: None,
        instant_shifting_symbol: None,
        symbols: bracket_right_symbols(),
        shifting_symbols: bracket_right_shifting(),
    }
}

fn backslash_key_row() -> (key: PunctuationKey)
    ensures
        key_has_texts(key, 0xDC),
        key.symbols@ == backslash_symbols_list(),
        key.shifting_symbols@ == backslash_shifting_list(),
{
    PunctuationKey {
        key_code: 0xDC,
        key_text: "\\",
        shifting_key_text: "|",
        instant_symbol: None,
        instant_shifting_symbol: None,
        symbols: backslash_symbols(),
        shifting_symbols: backslash_shifting(),
    }
}

fn grave_key_row() -> (key: PunctuationKey)
    ensures
        key_has_texts(key, 0xC0),
        key.symbols@ == grave_symbols_list(),
        key.shifting_symbols@ == grave_shifting_list(),
{
    PunctuationKey {
        key_code: 0xC0,
        key_text: "`",
        shifting_key_text: "~",
        instant_symbol: None,
        instant_shifting_symbol: None,
        symbols: grave_symbols(),
        shifting_symbols: grave_shifting(),
    }
}

fn minus_key_row() -> (key: PunctuationKey)
    ensures
        key_has_texts(key, 0xBD),
        key.symbols@ == minus_symbols_list(),
        key.shifting_symbols@ == minus_shifting_list(),
{
    PunctuationKey {
        key_code: 0xBD,
        key_text: "-",
        shifting_key_text: "_",
        instant_symbol: Some("-"),
        instant_shifting_symbol: Some("——"),
        symbols: minus_symbols(),
        shifting_symbols: minus_shifting(),
    }
}

fn equal_key_row() -> (key: PunctuationKey)
    ensures
        key_has_texts(key, 0xBB),
        key.symbols@ == equal_symbols_list(),
        key.shifting_symbols@ == equal_shifting_list(),
{
    PunctuationKey {
        key_code: 0xBB,
        key_text: "=",
        shifting_key_text: "+",
        instant_symbol: None,
        instant_shifting_symbol: Some("+"),
        symbols: equal_symbols(),
        shifting_symbols: equal_shifting(),
    }
}

fn number0_key_row() -> (key: PunctuationKey)
    ensures
        key_has_texts(key, 0x30),
        key.symbols@ == number0_symbols_list(),
        key.shifting_symbols@ == number0_shifting_list(),
{
    PunctuationKey {
        key_code: 0x30,
        key_text: "0",
        shifting_key_text: ")",
        instant_symbol: Some("0"),
        instant_shifting_symbol: Some("）"),
        symbols: number0_symbols(),
        shifting_symbols: number0_shifting(),
    }
}

fn number1_key_row() -> (key: PunctuationKey)
    ensures
        key_has_texts(key, 0x31),
        key.symbols@ == number1_symbols_list(),
        key.shifting_symbols@ == number1_shifting_list(),
{
    PunctuationKey {
        key_code: 0x31,
        key_text: "1",
        shifting_key_text: "!",
        instant_symbol: Some("1"),
        instant_shifting_symbol: Some("！"),
        symbols: number1_symbols(),
        shifting_symbols: number1_shifting(),
    }
}

fn number2_key_row() -> (key: PunctuationKey)
    ensures
        key_has_texts(key, 0x32),
        key.symbols@ == number2_symbols_list(),
        key.shifting_symbols@ == number2_shifting_list(),
{
    PunctuationKey {
        key_code: 0x32,
        key_text: "2",
        shifting_key_text: "@",
        instant_symbol: Some("2"),
        instant_shifting_symbol: None,
        symbols: number2_symbols(),
        shifting_symbols: number2_shifting(),
    }
}

fn number3_key_row() -> (key: PunctuationKey)
    ensures
        key_has_texts(key, 0x33),
        key.symbols@ == number3_symbols_list(),
        key.shifting_symbols@ == number3_shifting_list(),
{
    PunctuationKey {
        key_code: 0x33,
        key_text: "3",
        shifting_key_text: "#",
        instant_symbol: Some("3"),
        instant_shifting_symbol: None,
        symbols: number3_symbols(),
        shifting_symbols: number3_shifting(),
    }
}

fn number4_key_row() -> (key: PunctuationKey)
    ensures
        key_has_texts(key, 0x34),
        key.symbols@ == number4_symbols_list(),
        key.shifting_symbols@ == number4_shifting_list(),
{
    PunctuationKey {
        key_code: 0x34,
        key_text: "4",
        shifting_key_text: "$",
        instant_symbol: Some("4"),
        instant_shifting_symbol: None,
        symbols: number4_symbols(),
        shifting_symbols: number4_shifting(),
    }
}

fn number5_key_row() -> (key: PunctuationKey)
    ensures
        key_has_texts(key, 0x35),
        key.symbols@ == number5_symbols_list(),
        key.shifting_symbols@ == number5_shifting_list(),
{
    PunctuationKey {
        key_code: 0x35,
        key_text: "5",
        shifting_key_text: "%",
        instant_symbol: Some("5"),
        instant_shifting_symbol: None,
        symbols: number5_symbols(),
        shifting_symbols: number5_shifting(),
    }
}

fn number6_key_row() -> (key: PunctuationKey)
    ensures
        key_has_texts(key, 0x36),
        key.symbols@ == number6_symbols_list(),
        key.shifting_symbols@ == number6_shifting_list(),
{
    PunctuationKey {
        key_code: 0x36,
        key_text: "6",
        shifting_key_text: "^",
        instant_symbol: Some("6"),
        instant_shifting_symbol: None,
        symbols: number6_symbols(),
        shifting_symbols: number6_shifting(),
    }
}

fn number7_key_row() -> (key: PunctuationKey)
    ensures
        key_has_texts(key, 0x37),
        key.symbols@ == number7_symbols_list(),
        key.shifting_symbols@ == number7_shifting_list(),
{
    PunctuationKey {
        key_code: 0x37,
        key_text: "7",
        shifting_key_text: "&",
        instant_symbol: Some("7"),
        instant_shifting_symbol: None,
        symbols: number7_symbols(),
        shifting_symbols: number7_shifting(),
    }
}

fn number8_key_row() -> (key: PunctuationKey)
    ensures
        key_has_texts(key, 0x38),
        key.symbols@ == number8_symbols_list(),
        key.shifting_symbols@ == number8_shifting_list(),
{
    PunctuationKey {
        key_code: 0x38,
        key_text: "8",
        shifting_key_text: "*",
        instant_symbol: Some("8"),
        instant_shifting_symbol: None,
        symbols: number8_symbols(),
        shifting_symbols: number8_shifting(),
    }
}

fn number9_key_row() -> (key: PunctuationKey)
    ensures
        key_has_texts(key, 0x39),
        key.symbols@ == number9_symbols_list(),
        key.shifting_symbols@ == number9_shifting_list(),
{
    PunctuationKey {
        key_code: 0x39,
        key_text: "9",
        shifting_key_text: "(",
        instant_symbol: Some("9"),
        instant_shifting_symbol: Some("（"),
        symbols: number9_symbols(),
        shifting_symbols: number9_shifting(),
    }
}

/// The symbol list a punctuation key opens without Shift (empty for a key
/// code that is no punctuation key).
pub open spec fn key_symbol_list(code: u32) -> Seq<PunctuationSymbol> {
    if code == 0xBC {
        comma_symbols_list()
    } else if code == 0xBE {
        period_symbols_list()
    } else if code == 0xBF {
        slash_symbols_list()
    } else if code == 0xBA {
        semicolon_symbols_list()
    } else if code == 0xDE {
        quote_symbols_list()
    } else if code == 0xDB {
        bracket_left_symbols_list()
    } else if code == 0xDD {
        bracket_right_symbols_list()
    } else if code == 0xDC {
        backslash_symbols_list()
    } else if code == 0xC0 {
        grave_symbols_list()
    } else if code == 0xBD {
        minus_symbols_list()
    } else if code == 0xBB {
        equal_symbols_list()
    } else if code == 0x30 {
        number0_symbols_list()
    } else if code == 0x31 {
        number1_symbols_list()
    } else if code == 0x32 {
        number2_symbols_list()
    } else if code == 0x33 {
        number3_symbols_list()
    } else if code == 0x34 {
        number4_symbols_list()
    } else if code == 0x35 {
        number5_symbols_list()
    } else if code == 0x36 {
        number6_symbols_list()
    } else if code == 0x37 {
        number7_symbols_list()
    } else if code == 0x38 {
        number8_symbols_list()
    } else if code == 0x39 {
        number9_symbols_list()
    } else {
        Seq::empty()
    }
}

/// The symbol list a punctuation key opens with Shift (empty for a key
/// code that is no punctuation key).
pub open spec fn key_shifting_symbol_list(code: u32) -> Seq<PunctuationSymbol> {
    if code == 0xBC {
        comma_shifting_list()
    } else if code == 0xBE {
        period_shifting_list()
    } else if code == 0xBF {
        slash_shifting_list()
    } else if code == 0xBA {
        semicolon_shifting_list()
    } else if code == 0xDE {
        quote_shifting_list()
    } else if code == 0xDB {
        bracket_left_shifting_list()
    } else if code == 0xDD {
        bracket_right_shifting_list()
    } else if code == 0xDC {
        backslash_shifting_list()
    } else if code == 0xC0 {
        grave_shifting_list()
    } else if code == 0xBD {
        minus_shifting_list()
    } else if code == 0xBB {
        equal_shifting_list()
    } else if code == 0x30 {
        number0_shifting_list()
    } else if code == 0x31 {
        number1_shifting_list()
    } else if code == 0x32 {
        number2_shifting_list()
    } else if code == 0x33 {
        number3_shifting_list()
    } else if code == 0x34 {
        number4_shifting_list()
    } else if code == 0x35 {
        number5_shifting_list()
    } else if code == 0x36 {
        number6_shifting_list()
    } else if code == 0x37 {
        number7_shifting_list()
    } else if code == 0x38 {
        number8_shifting_list()
    } else if code == 0x39 {
        number9_shifting_list()
    } else {
        Seq::empty()
    }
}

/// The accented and diacritic variants of a letter for the "/" query.
pub open spec fn letter_variant_list(letter: char) -> Seq<PunctuationSymbol> {
    if letter == 'a' {
        letter_a_list()
    } else if letter == 'e' {
        letter_e_list()
    } else if letter == 'i' {
        letter_i_list()
    } else if letter == 'o' {
        letter_o_list()
    } else if letter == 'u' {
        letter_u_list()
    } else if letter == 'v' {
        letter_v_list()
    } else if letter == 'c' {
        letter_c_list()
    } else if letter == 'n' {
        letter_n_list()
    } else if letter == 's' {
        letter_s_list()
    } else if letter == 'y' {
        letter_y_list()
    } else if letter == 'z' {
        letter_z_list()
    } else {
        Seq::empty()
    }
}

/// The variants of a digit for the "/" query.
pub open spec fn numeral_variant_list(digit: char) -> Seq<PunctuationSymbol> {
    if digit == '0' {
        numeral_0_list()
    } else if digit == '1' {
        numeral_1_list()
    } else if digit == '2' {
        numeral_2_list()
    } else if digit == '3' {
        numeral_3_list()
    } else if digit == '4' {
        numeral_4_list()
    } else if digit == '5' {
        numeral_5_list()
    } else if digit == '6' {
        numeral_6_list()
    } else if digit == '7' {
        numeral_7_list()
    } else if digit == '8' {
        numeral_8_list()
    } else if digit == '9' {
        numeral_9_list()
    } else {
        Seq::empty()
    }
}


/// The "/" punctuation key, whose list the "/x" symbol query opens.
pub fn slash_key() -> (key: PunctuationKey)
    ensures
        key_has_texts(key, VK_OEM_2),
        key.symbols@ == key_symbol_list(VK_OEM_2),
        key.shifting_symbols@ == key_shifting_symbol_list(VK_OEM_2),
{
    slash_key_row()
}

/// The "`" punctuation key; its list is shown when "`" alone is typed.
pub fn grave_key() -> (key: PunctuationKey)
    ensures
        key_has_texts(key, VK_OEM_3),
        key.symbols@ == key_symbol_list(VK_OEM_3),
        key.shifting_symbols@ == key_shifting_symbol_list(VK_OEM_3),
{
    grave_key_row()
}

/// The accented and diacritic variants of a letter for the "/" query
/// (tone-marked vowels first), none for a letter without variants.
pub fn letter_variants(letter: char) -> (variants: Vec<PunctuationSymbol>)
    ensures
        variants@ == letter_variant_list(letter),
{
    match letter {
        'a' => letter_a(),
        'e' => letter_e(),
        'i' => letter_i(),
        'o' => letter_o(),
        'u' => letter_u(),
        'v' => letter_v(),
        'c' => letter_c(),
        'n' => letter_n(),
        's' => letter_s(),
        'y' => letter_y(),
        'z' => letter_z(),
        _ => Vec::new(),
    }
}

/// The variants of a digit for the "/" query (half-width, full-width,
/// Chinese, upper case, superscript, subscript, Roman; two Chinese forms
/// and no upper case or Roman form for 0), none for another character.
pub fn numeral_variants(digit: char) -> (variants: Vec<PunctuationSymbol>)
    ensures
        variants@ == numeral_variant_list(digit),
{
    match digit {
        '0' => numeral_0(),
        '1' => numeral_1(),
        '2' => numeral_2(),
        '3' => numeral_3(),
        '4' => numeral_4(),
        '5' => numeral_5(),
        '6' => numeral_6(),
        '7' => numeral_7(),
        '8' => numeral_8(),
        '9' => numeral_9(),
        _ => Vec::new(),
    }
}

impl PunctuationKey {
    /// Whether this is a digit key.
    pub fn is_number_key(&self) -> (r: bool)
        ensures
            r == (0x30 <= self.key_code <= 0x39),
    {
        0x30 <= self.key_code && self.key_code <= 0x39
    }

    /// A digit key is handled only with Shift; the others always.
    pub fn should_handle(&self, is_shifting: bool) -> (r: bool)
        ensures
            r == (!(0x30 <= self.key_code <= 0x39) || is_shifting),
    {
        !self.is_number_key() || is_shifting
    }

    /// The key's text, plain or with Shift.
    pub fn text(&self, is_shifting: bool) -> (text: &'static str)
        ensures
            text == if is_shifting { self.shifting_key_text } else { self.key_text },
    {
        if is_shifting {
            self.shifting_key_text
        } else {
            self.key_text
        }
    }

    /// The symbol the key types at once, plain or with Shift.
    pub fn instant_symbol(&self, is_shifting: bool) -> (symbol: Option<&'static str>)
        ensures
            symbol == if is_shifting { self.instant_shifting_symbol } else { self.instant_symbol },
    {
        if is_shifting {
            self.instant_shifting_symbol
        } else {
            self.instant_symbol
        }
    }

    /// The symbol list the key opens, plain or with Shift.
    pub fn symbols(&self, is_shifting: bool) -> (symbols: &Vec<PunctuationSymbol>)
        ensures
            symbols@ == if is_shifting { self.shifting_symbols@ } else { self.symbols@ },
    {
        if is_shifting {
            &self.shifting_symbols
        } else {
            &self.symbols
        }
    }

    /// The punctuation key of a key code, if it is one.
    pub fn for_virtual_key(key_code: u32) -> (key: Option<PunctuationKey>)
        ensures
            key is Some <==> punctuation_key_texts(key_code) is Some,
            key matches Some(k) ==> key_has_texts(k, key_code) && k.symbols@ == key_symbol_list(key_code)
                && k.shifting_symbols@ == key_shifting_symbol_list(key_code),
    {
        match key_code {
            0xBC => Some(comma_key_row()),
            0xBE => Some(period_key_row()),
            0xBF => Some(slash_key_row()),
            0xBA => Some(semicolon_key_row()),
            0xDE => Some(quote_key_row()),
            0xDB => Some(bracket_left_key_row()),
            0xDD => Some(bracket_right_key_row()),
            0xDC => Some(backslash_key_row()),
            0xC0 => Some(grave_key_row()),
            0xBD => Some(minus_key_row()),
            0xBB => Some(equal_key_row()),
            0x30 => Some(number0_key_row()),
            0x31 => Some(number1_key_row()),
            0x32 => Some(number2_key_row()),
            0x33 => Some(number3_key_row()),
            0x34 => Some(number4_key_row()),
            0x35 => Some(number5_key_row()),
            0x36 => Some(number6_key_row()),
            0x37 => Some(number7_key_row()),
            0x38 => Some(number8_key_row()),
            0x39 => Some(number9_key_row()),
            _ => None,
        }
    }
}

} // verus!
