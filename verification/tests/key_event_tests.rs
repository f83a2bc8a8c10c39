use rcantonese::config::parse_settings;
use rcantonese::input_key::ReverseLookupMethod;
use rcantonese::key_events::{
    candidate_index_from_code, is_arrow_function, is_options_hotkey, key_handler, test_key,
    KeyContext, KeyHandler, KeyVerdict,
};
use rcantonese::keytable::{
    CandidateMode, KeystrokeCategory, KeystrokeEngine, KeystrokeFunction, KeystrokeState,
};
use rcantonese::modifiers::{TF_MOD_CONTROL, TF_MOD_SHIFT};
use rcantonese::punctuation::{
    grave_key, letter_variants, numeral_variants, slash_key, PunctuationKey, VK_OEM_2, VK_OEM_3,
    VK_OEM_7,
};

fn context(code: u32, wch: u16) -> KeyContext {
    KeyContext {
        code,
        wch,
        is_key_down: true,
        caps_lock: false,
        composing: false,
        has_candidate_list: false,
        keyboard_disabled: false,
        keyboard_open: true,
        windows_key_down: false,
        modifiers: 0,
        candidate_mode: CandidateMode::Nothing,
        symbol_query_len: None,
        full_width: false,
    }
}

fn eat(category: KeystrokeCategory, function: KeystrokeFunction) -> KeyVerdict {
    KeyVerdict::Eat(KeystrokeState { category, function })
}

#[test]
fn letters_are_taken_as_input() {
    let engine = KeystrokeEngine::new();
    let settings = parse_settings("");
    let ctx = context(0x41, 'a' as u16);
    let verdict = test_key(&ctx, Some((&engine, &settings, ReverseLookupMethod::Nothing)));
    assert_eq!(verdict, eat(KeystrokeCategory::Composing, KeystrokeFunction::Input));
}

#[test]
fn caps_lock_passes_or_finalizes() {
    let engine = KeystrokeEngine::new();
    let settings = parse_settings("");
    let mut ctx = context(0x41, 'a' as u16);
    ctx.caps_lock = true;
    let p = Some((&engine, &settings, ReverseLookupMethod::Nothing));
    assert_eq!(test_key(&ctx, p), KeyVerdict::Pass);
    ctx.composing = true;
    assert_eq!(
        test_key(&ctx, p),
        eat(KeystrokeCategory::Composing, KeystrokeFunction::FinalizeTextStore)
    );
    ctx.is_key_down = false;
    assert_eq!(test_key(&ctx, p), KeyVerdict::Pass);
}

#[test]
fn windows_key_and_key_up_pass() {
    let engine = KeystrokeEngine::new();
    let settings = parse_settings("");
    let p = Some((&engine, &settings, ReverseLookupMethod::Nothing));
    let mut ctx = context(0x44, 'd' as u16);
    ctx.windows_key_down = true;
    assert_eq!(test_key(&ctx, p), KeyVerdict::Pass);
    let mut up = context(0x44, 'd' as u16);
    up.is_key_down = false;
    assert_eq!(test_key(&up, p), KeyVerdict::Pass);
    let zero = context(0, 0);
    assert_eq!(test_key(&zero, p), KeyVerdict::Pass);
}

#[test]
fn options_hotkey_toggles_even_in_abc_mode() {
    let engine = KeystrokeEngine::new();
    let settings = parse_settings("");
    assert!(is_options_hotkey(&settings.options_menu_keys, VK_OEM_3, TF_MOD_CONTROL));
    let mut ctx = context(VK_OEM_3, '`' as u16);
    ctx.modifiers = TF_MOD_CONTROL;
    ctx.keyboard_open = false;
    let p = Some((&engine, &settings, ReverseLookupMethod::Nothing));
    assert_eq!(
        test_key(&ctx, p),
        eat(KeystrokeCategory::Candidate, KeystrokeFunction::ToggleOptions)
    );
    let plain = KeyContext { keyboard_open: false, ..context(0x41, 'a' as u16) };
    assert_eq!(test_key(&plain, p), KeyVerdict::PassInAbcMode);
}

#[test]
fn options_menu_takes_every_key() {
    let engine = KeystrokeEngine::new();
    let settings = parse_settings("");
    let p = Some((&engine, &settings, ReverseLookupMethod::Nothing));
    let digit = KeyContext { candidate_mode: CandidateMode::Options, ..context(0x32, '2' as u16) };
    assert_eq!(
        test_key(&digit, p),
        eat(KeystrokeCategory::Candidate, KeystrokeFunction::SelectByNumber)
    );
    let pad = KeyContext { candidate_mode: CandidateMode::Options, ..context(0x63, 0) };
    assert_eq!(
        test_key(&pad, p),
        eat(KeystrokeCategory::Candidate, KeystrokeFunction::SelectByNumber)
    );
    let down = KeyContext { candidate_mode: CandidateMode::Options, ..context(0x28, 0) };
    assert_eq!(test_key(&down, p), eat(KeystrokeCategory::Candidate, KeystrokeFunction::MoveDown));
    let other = KeyContext { candidate_mode: CandidateMode::Options, ..context(0x41, 'a' as u16) };
    assert_eq!(test_key(&other, p), eat(KeystrokeCategory::Candidate, KeystrokeFunction::Cancel));
}

#[test]
fn punctuation_keys_are_taken() {
    let engine = KeystrokeEngine::new();
    let settings = parse_settings("");
    let p = Some((&engine, &settings, ReverseLookupMethod::Nothing));
    let comma = context(0xBC, ',' as u16);
    assert_eq!(
        test_key(&comma, p),
        eat(KeystrokeCategory::Composing, KeystrokeFunction::PunctuationKey)
    );
    // A digit key is punctuation only with Shift.
    let digit = context(0x31, '1' as u16);
    assert_eq!(test_key(&digit, p), KeyVerdict::Pass);
    let shifted = KeyContext { modifiers: TF_MOD_SHIFT, ..context(0x31, '!' as u16) };
    assert_eq!(
        test_key(&shifted, p),
        eat(KeystrokeCategory::Composing, KeystrokeFunction::PunctuationKey)
    );
    // The unshifted grave key is no punctuation key.
    let grave = context(VK_OEM_3, '`' as u16);
    assert_ne!(
        test_key(&grave, p),
        eat(KeystrokeCategory::Composing, KeystrokeFunction::PunctuationKey)
    );
}

#[test]
fn apostrophe_in_composition_separates_syllables() {
    let engine = KeystrokeEngine::new();
    let settings = parse_settings("");
    let p = Some((&engine, &settings, ReverseLookupMethod::Nothing));
    let composing = KeyContext { composing: true, ..context(VK_OEM_7, '\'' as u16) };
    assert_eq!(test_key(&composing, p), eat(KeystrokeCategory::Composing, KeystrokeFunction::Input));
    let idle = context(VK_OEM_7, '\'' as u16);
    assert_eq!(
        test_key(&idle, p),
        eat(KeystrokeCategory::Composing, KeystrokeFunction::PunctuationKey)
    );
}

#[test]
fn symbol_query_keys() {
    let engine = KeystrokeEngine::new();
    let settings = parse_settings("");
    let p = Some((&engine, &settings, ReverseLookupMethod::Nothing));
    let base = KeyContext {
        candidate_mode: CandidateMode::Punctuation,
        symbol_query_len: Some(0),
        composing: true,
        ..context(0x08, 0)
    };
    assert_eq!(test_key(&base, p), eat(KeystrokeCategory::Candidate, KeystrokeFunction::Cancel));
    let edit = KeyContext { symbol_query_len: Some(2), ..base };
    assert_eq!(test_key(&edit, p), eat(KeystrokeCategory::Candidate, KeystrokeFunction::SymbolQuery));
    let letter = KeyContext { code: 0x41, wch: 'a' as u16, ..edit };
    assert_eq!(
        test_key(&letter, p),
        eat(KeystrokeCategory::Candidate, KeystrokeFunction::SymbolQuery)
    );
    let digit = KeyContext { code: 0x32, wch: '2' as u16, ..base };
    assert_eq!(test_key(&digit, p), eat(KeystrokeCategory::Candidate, KeystrokeFunction::SymbolQuery));
}

#[test]
fn full_width_form_takes_printable_keys() {
    let engine = KeystrokeEngine::new();
    let settings = parse_settings("");
    let p = Some((&engine, &settings, ReverseLookupMethod::Nothing));
    let ctx = KeyContext { full_width: true, modifiers: TF_MOD_CONTROL, ..context(0x31, '1' as u16) };
    assert_eq!(test_key(&ctx, p), eat(KeystrokeCategory::Composing, KeystrokeFunction::CharacterForm));
}

#[test]
fn no_processor_passes_in_cantonese_mode() {
    let ctx = context(0x41, 'a' as u16);
    assert_eq!(test_key(&ctx, None), KeyVerdict::Pass);
}

#[test]
fn handlers_follow_category_and_function() {
    let st = |category, function| KeystrokeState { category, function };
    assert_eq!(
        key_handler(st(KeystrokeCategory::Composing, KeystrokeFunction::FinalizeTextStore), 0x0D, CandidateMode::Nothing),
        KeyHandler::FinalizeRaw
    );
    assert_eq!(
        key_handler(st(KeystrokeCategory::Composing, KeystrokeFunction::FinalizeTextStore), 0x1B, CandidateMode::Nothing),
        KeyHandler::Finalize
    );
    assert_eq!(
        key_handler(st(KeystrokeCategory::Candidate, KeystrokeFunction::Cancel), 0x1B, CandidateMode::Options),
        KeyHandler::CloseOptions
    );
    assert_eq!(
        key_handler(st(KeystrokeCategory::Candidate, KeystrokeFunction::Cancel), 0x1B, CandidateMode::Original),
        KeyHandler::Cancel
    );
    assert_eq!(
        key_handler(st(KeystrokeCategory::Phrase, KeystrokeFunction::MoveDown), 0x28, CandidateMode::Phrase),
        KeyHandler::ListArrow(KeystrokeFunction::MoveDown)
    );
    assert_eq!(
        key_handler(st(KeystrokeCategory::Composing, KeystrokeFunction::MoveLeft), 0x25, CandidateMode::Nothing),
        KeyHandler::CompositionArrow(KeystrokeFunction::MoveLeft)
    );
    assert_eq!(
        key_handler(st(KeystrokeCategory::Phrase, KeystrokeFunction::Convert), 0x20, CandidateMode::Phrase),
        KeyHandler::Invalid
    );
    assert!(is_arrow_function(KeystrokeFunction::MovePageBottom));
    assert!(!is_arrow_function(KeystrokeFunction::Input));
}

#[test]
fn digit_keys_pick_by_label() {
    let labels = [1u32, 2, 3, 4, 5, 6, 7, 8, 9];
    assert_eq!(candidate_index_from_code(&labels, 0x31), Some(0));
    assert_eq!(candidate_index_from_code(&labels, 0x69), Some(8));
    assert_eq!(candidate_index_from_code(&labels, 0x30), None);
    assert_eq!(candidate_index_from_code(&labels, 0x41), None);
}

#[test]
fn punctuation_table() {
    let comma = PunctuationKey::for_virtual_key(0xBC).unwrap();
    assert_eq!(comma.text(false), ",");
    assert_eq!(comma.text(true), "<");
    assert_eq!(comma.instant_symbol(false), Some("，"));
    assert_eq!(comma.symbols(true).len(), 7);
    assert_eq!(comma.symbols(true)[0].text, "《");
    assert!(comma.should_handle(false));
    let two = PunctuationKey::for_virtual_key(0x32).unwrap();
    assert!(two.is_number_key());
    assert!(!two.should_handle(false));
    assert!(two.should_handle(true));
    assert_eq!(two.symbols(true)[0].comment, Some("半寬"));
    assert!(PunctuationKey::for_virtual_key(0x41).is_none());
    let slash = slash_key();
    assert_eq!(slash.key_code, VK_OEM_2);
    assert_eq!(slash.symbols(false)[0].text, "、");
    assert_eq!(slash.instant_symbol(true), Some("？"));
    assert_eq!(grave_key().symbols(true).len(), 17);
}

#[test]
fn variant_lists() {
    let a = letter_variants('a');
    assert_eq!(a.len(), 16);
    assert_eq!(a[0].text, "ā");
    assert_eq!(a[0].comment, Some("陰平"));
    assert!(letter_variants('b').is_empty());
    assert_eq!(numeral_variants('0').len(), 6);
    assert_eq!(numeral_variants('9').len(), 7);
    assert_eq!(numeral_variants('9')[0].text, "9");
    assert_eq!(numeral_variants('9')[1].text, "９");
    assert!(numeral_variants('x').is_empty());
}
