use rcantonese::modifiers::{ModifierState, TF_MOD_CONTROL, TF_MOD_SHIFT};
use rcantonese::preserved_keys::{
    check_shift_key_only, input_method_mode_for_key, is_character_variant_key,
    preserved_key_action, preserved_keys, PreservedKeyAction, PreservedKeyId,
};
use rcantonese::settings::{CharacterVariant, InputMethodMode, PunctuationForm};

fn shift_alone(alone: bool) -> ModifierState {
    ModifierState { value: 0, shift_only: alone, ctrl_only: false, alt_only: false }
}

#[test]
fn documented_hotkeys_are_reserved() {
    let keys = preserved_keys();
    assert_eq!(keys.len(), 13);
    let find = |id| keys.iter().find(|k| k.id == id).unwrap();
    // Ctrl+. toggles the punctuation form.
    let punct = find(PreservedKeyId::PunctuationForm);
    assert_eq!((punct.vkey, punct.modifiers), (0xBE, TF_MOD_CONTROL));
    // Shift+Space toggles half and full width.
    let form = find(PreservedKeyId::CharacterForm);
    assert_eq!((form.vkey, form.modifiers), (0x20, TF_MOD_SHIFT));
    // Shift alone toggles the input mode on key up.
    let mode = find(PreservedKeyId::InputMode);
    assert_eq!((mode.vkey, mode.modifiers), (0x10, 0x0200));
    let abc = find(PreservedKeyId::ModeAbc);
    assert_eq!((abc.vkey, abc.modifiers), (0x30, TF_MOD_CONTROL | TF_MOD_SHIFT));
}

#[test]
fn shift_alone_toggles_the_mode() {
    let keys = preserved_keys();
    assert!(check_shift_key_only(&keys, PreservedKeyId::InputMode, &shift_alone(true)));
    assert!(!check_shift_key_only(&keys, PreservedKeyId::InputMode, &shift_alone(false)));
    assert!(check_shift_key_only(&keys, PreservedKeyId::CharacterForm, &shift_alone(false)));
    assert_eq!(
        preserved_key_action(&keys, PreservedKeyId::InputMode, &shift_alone(true), false),
        PreservedKeyAction::ToggleInputMode
    );
    assert_eq!(
        preserved_key_action(&keys, PreservedKeyId::InputMode, &shift_alone(true), true),
        PreservedKeyAction::Ignore
    );
    assert_eq!(
        preserved_key_action(&keys, PreservedKeyId::InputMode, &shift_alone(false), false),
        PreservedKeyAction::Ignore
    );
    assert_eq!(
        preserved_key_action(&keys, PreservedKeyId::PunctuationForm, &shift_alone(false), true),
        PreservedKeyAction::TogglePunctuationForm
    );
}

#[test]
fn direct_choices() {
    let keys = preserved_keys();
    let m = shift_alone(false);
    assert_eq!(
        preserved_key_action(&keys, PreservedKeyId::VariantTaiwan, &m, false),
        PreservedKeyAction::SetCharacterVariant(CharacterVariant::Taiwan)
    );
    assert_eq!(
        preserved_key_action(&keys, PreservedKeyId::PunctuationEnglish, &m, false),
        PreservedKeyAction::SetPunctuationForm(PunctuationForm::English)
    );
    assert_eq!(
        preserved_key_action(&keys, PreservedKeyId::ModeAbc, &m, false),
        PreservedKeyAction::SetInputMethodMode(InputMethodMode::Abc)
    );
    assert!(is_character_variant_key(PreservedKeyId::VariantHongKong));
    assert!(!is_character_variant_key(PreservedKeyId::ModeAbc));
    assert_eq!(input_method_mode_for_key(PreservedKeyId::ModeCantonese), Some(InputMethodMode::Cantonese));
    assert_eq!(input_method_mode_for_key(PreservedKeyId::InputMode), None);
}
