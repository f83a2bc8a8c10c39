use rcantonese::candidate_items::{
    displayed_input_count, lone_grave_candidates, full_width_char, option_command, options_rows, punctuation_output, symbol_item, symbol_items,
    symbol_query_after_key, symbol_query_for_key, symbol_query_list, symbol_query_reading,
    symbol_query_symbols, SymbolQueryList,
};
use rcantonese::config::parse_settings;
use rcantonese::input_key::{
    is_pinyin_or_structure, reverse_lookup_method_from_keys, reverse_lookup_query_keys,
    ReverseLookupMethod, VirtualInputKey,
};
use rcantonese::punctuation::{PunctuationKey, PunctuationSymbol};
use rcantonese::settings::{CharacterForm, CharacterVariant, PunctuationForm};
use rcantonese::settings_menu::MenuCommand;

#[test]
fn symbol_rows_join_comments() {
    let both = PunctuationSymbol { text: "x", comment: Some("a"), secondary_comment: Some("b") };
    let item = symbol_item(&both);
    assert_eq!(item.text, "x");
    assert_eq!(item.comment, "a b");
    assert_eq!(item.input_count, 0);
    assert!(!item.separator);
    let one = PunctuationSymbol { text: "y", comment: Some("c"), secondary_comment: None };
    assert_eq!(symbol_item(&one).comment, "c");
    let second_only = PunctuationSymbol { text: "z", comment: None, secondary_comment: Some("d") };
    assert_eq!(symbol_item(&second_only).comment, "");
    let items = symbol_items(&vec![both, one]);
    assert_eq!(items.len(), 2);
    assert_eq!(items[1].text, "y");
}

#[test]
fn punctuation_key_output() {
    let comma = PunctuationKey::for_virtual_key(0xBC).unwrap();
    assert_eq!(punctuation_output(&comma, false, true), Some("，"));
    assert_eq!(punctuation_output(&comma, true, true), None);
    assert_eq!(punctuation_output(&comma, true, false), Some("<"));
    assert_eq!(punctuation_output(&comma, false, false), Some(","));
}

#[test]
fn slash_opens_the_symbol_query() {
    assert_eq!(symbol_query_for_key(0xBF, false), Some(String::new()));
    assert_eq!(symbol_query_for_key(0xBF, true), None);
    assert_eq!(symbol_query_for_key(0xBC, false), None);
}

#[test]
fn symbol_query_editing() {
    assert_eq!(symbol_query_after_key("", 0x41), "a");
    assert_eq!(symbol_query_after_key("a", 0x32), "a2");
    assert_eq!(symbol_query_after_key("ab", 0x08), "a");
    assert_eq!(symbol_query_after_key("", 0x08), "");
    assert_eq!(symbol_query_after_key("a", 0xD800), "a");
    assert_eq!(symbol_query_reading("nei"), "/nei");
    assert_eq!(symbol_query_reading(""), "/");
}

#[test]
fn symbol_query_lists() {
    assert_eq!(symbol_query_list(""), SymbolQueryList::Slash);
    assert_eq!(symbol_query_list("12"), SymbolQueryList::Numerals('2'));
    assert_eq!(symbol_query_list("a1"), SymbolQueryList::Letters('a'));
    assert_eq!(symbol_query_list("oe"), SymbolQueryList::Letters('o'));
    assert_eq!(symbol_query_symbols(SymbolQueryList::Slash).len(), 7);
    assert_eq!(symbol_query_symbols(SymbolQueryList::Numerals('0')).len(), 6);
    assert_eq!(symbol_query_symbols(SymbolQueryList::Letters('z')).len(), 4);
    assert_eq!(symbol_query_symbols(SymbolQueryList::Letters('b')).len(), 0);
}

#[test]
fn full_width_forms() {
    assert_eq!(full_width_char(0x20), 0x3000);
    assert_eq!(full_width_char(0x41), 0xFF21);
    assert_eq!(full_width_char(0x7E), 0xFF5E);
}

#[test]
fn options_rows_check_current_settings() {
    let mut settings = parse_settings("");
    settings.character_variant = CharacterVariant::Taiwan;
    settings.character_form = CharacterForm::FullWidth;
    settings.punctuation_form = PunctuationForm::Cantonese;
    let rows = options_rows(&settings);
    assert_eq!(rows.len(), 9);
    assert_eq!(rows[0].text, "Traditional Chinese (Hong Kong)");
    assert_eq!(rows[0].comment, "");
    assert_eq!(rows[1].comment, "\u{2713}");
    assert!(rows[3].separator);
    assert_eq!(rows[5].comment, "\u{2713}");
    assert!(rows[6].separator);
    assert_eq!(rows[7].text, "Chinese Punctuation");
    assert_eq!(rows[7].comment, "\u{2713}");
    assert_eq!(rows[8].comment, "");
}

#[test]
fn option_positions_pick_settings() {
    assert_eq!(option_command(0), MenuCommand::SetCharacterVariant(CharacterVariant::HongKong));
    assert_eq!(option_command(2), MenuCommand::SetCharacterVariant(CharacterVariant::Simplified));
    assert_eq!(option_command(4), MenuCommand::SetCharacterForm(CharacterForm::FullWidth));
    assert_eq!(option_command(6), MenuCommand::SetPunctuationForm(PunctuationForm::English));
    assert_eq!(option_command(7), MenuCommand::Nothing);
}

#[test]
fn lone_grave_offers_its_symbols() {
    let items = lone_grave_candidates();
    assert_eq!(items.len(), 8);
    assert_eq!(items[0].text, "`");
    assert_eq!(items[0].comment, "重音符");
    assert_eq!(items[1].comment, "");
    assert!(items.iter().all(|i| i.input_count == 1 && !i.separator));
}

#[test]
fn reverse_lookup_counts_the_prefix_key() {
    assert_eq!(displayed_input_count(3, true, 5), 4);
    assert_eq!(displayed_input_count(9, true, 5), 6);
    assert_eq!(displayed_input_count(9, false, 5), 9);
}

#[test]
fn reverse_lookup_prefixes() {
    let keys = |s: &str| -> Vec<VirtualInputKey> {
        s.chars().map(|c| VirtualInputKey::for_character(c).unwrap()).collect()
    };
    assert_eq!(reverse_lookup_method_from_keys(&keys("`nei")), ReverseLookupMethod::Pinyin);
    assert_eq!(reverse_lookup_method_from_keys(&keys("vabc")), ReverseLookupMethod::Cangjie);
    assert_eq!(reverse_lookup_method_from_keys(&keys("x12")), ReverseLookupMethod::Stroke);
    assert_eq!(reverse_lookup_method_from_keys(&keys("qab")), ReverseLookupMethod::Structure);
    assert_eq!(reverse_lookup_method_from_keys(&keys("neihou")), ReverseLookupMethod::Nothing);
    assert_eq!(reverse_lookup_method_from_keys(&[]), ReverseLookupMethod::Nothing);
    assert_eq!(reverse_lookup_query_keys(&keys("`nei")), keys("nei"));
    assert_eq!(reverse_lookup_query_keys(&keys("nei")), vec![]);
    assert!(is_pinyin_or_structure(ReverseLookupMethod::Structure));
    assert!(!is_pinyin_or_structure(ReverseLookupMethod::Stroke));
}
