//! The hotkeys the input method reserves with the text services framework
//! (Shift alone toggles Cantonese and ABC, Shift+Space the character form,
//! Ctrl+. the punctuation form, Ctrl+Shift+digit a direct choice), and
//! what each does when pressed.
use vstd::prelude::*;
use crate::modifiers::{ModifierState, TF_MOD_CONTROL, TF_MOD_ON_KEYUP_SHIFT_ONLY, TF_MOD_SHIFT};
use crate::settings::{CharacterForm, CharacterVariant, InputMethodMode, PunctuationForm};

verus! {

/// The reserved hotkeys.
#[derive(Clone, Copy, PartialEq, Eq, Structural, Debug)]
pub enum PreservedKeyId {
    InputMode,
    CharacterForm,
    PunctuationForm,
    VariantTraditional,
    VariantHongKong,
    VariantTaiwan,
    VariantSimplified,
    CharacterFormHalf,
    CharacterFormFull,
    PunctuationCantonese,
    PunctuationEnglish,
    ModeCantonese,
    ModeAbc,
}

/// A reserved hotkey: which one, its virtual key and its modifier flags
/// (the low 16 bits).
#[derive(Clone, Copy, PartialEq, Eq, Structural, Debug)]
pub struct PreservedKey {
    pub id: PreservedKeyId,
    pub vkey: u32,
    pub modifiers: u32,
}

/// Control and Shift together.
pub const CONTROL_SHIFT: u32 = 0x0006;

/// The reserved hotkeys, in the order they are reserved.
pub open spec fn preserved_key_table() -> Seq<PreservedKey> {
    seq![
        PreservedKey { id: PreservedKeyId::InputMode, vkey: 0x10, modifiers: 0x0200 },
        PreservedKey { id: PreservedKeyId::CharacterForm, vkey: 0x20, modifiers: TF_MOD_SHIFT },
        PreservedKey { id: PreservedKeyId::PunctuationForm, vkey: 0xBE, modifiers: TF_MOD_CONTROL },
        PreservedKey { id: PreservedKeyId::VariantTraditional, vkey: 0x31, modifiers: CONTROL_SHIFT },
        PreservedKey { id: PreservedKeyId::VariantHongKong, vkey: 0x32, modifiers: CONTROL_SHIFT },
        PreservedKey { id: PreservedKeyId::VariantTaiwan, vkey: 0x33, modifiers: CONTROL_SHIFT },
        PreservedKey { id: PreservedKeyId::VariantSimplified, vkey: 0x34, modifiers: CONTROL_SHIFT },
        PreservedKey { id: PreservedKeyId::CharacterFormHalf, vkey: 0x35, modifiers: CONTROL_SHIFT },
        PreservedKey { id: PreservedKeyId::CharacterFormFull, vkey: 0x36, modifiers: CONTROL_SHIFT },
        PreservedKey { id: PreservedKeyId::PunctuationCantonese, vkey: 0x37, modifiers: CONTROL_SHIFT },
        PreservedKey { id: PreservedKeyId::PunctuationEnglish, vkey: 0x38, modifiers: CONTROL_SHIFT },
        PreservedKey { id: PreservedKeyId::ModeCantonese, vkey: 0x39, modifiers: CONTROL_SHIFT },
        PreservedKey { id: PreservedKeyId::ModeAbc, vkey: 0x30, modifiers: CONTROL_SHIFT },
    ]
}

fn key(id: PreservedKeyId, vkey: u32, modifiers: u32) -> (k: PreservedKey)
    ensures
        k == (PreservedKey { id, vkey, modifiers: modifiers & 0xffff }),
{
    PreservedKey { id, vkey, modifiers: modifiers & 0xffff }
}

/// The reserved hotkeys, their modifier flags cut to the low 16 bits.
pub fn preserved_keys() -> (keys: Vec<PreservedKey>)
    ensures
        keys@ == preserved_key_table(),
{
    let cs = TF_MOD_CONTROL | TF_MOD_SHIFT;
    assert(0x0002u32 | 0x0004u32 == 0x0006u32) by (bit_vector);
    assert(0x0001_0200u32 & 0xffffu32 == 0x0200u32) by (bit_vector);
    assert(0x0004u32 & 0xffffu32 == 0x0004u32) by (bit_vector);
    assert(0x0002u32 & 0xffffu32 == 0x0002u32) by (bit_vector);
    assert(0x0006u32 & 0xffffu32 == 0x0006u32) by (bit_vector);
    let keys = vec![
        key(PreservedKeyId::InputMode, 0x10, TF_MOD_ON_KEYUP_SHIFT_ONLY),
        key(PreservedKeyId::CharacterForm, 0x20, TF_MOD_SHIFT),
        key(PreservedKeyId::PunctuationForm, 0xBE, TF_MOD_CONTROL),
        key(PreservedKeyId::VariantTraditional, 0x31, cs),
        key(PreservedKeyId::VariantHongKong, 0x32, cs),
        key(PreservedKeyId::VariantTaiwan, 0x33, cs),
        key(PreservedKeyId::VariantSimplified, 0x34, cs),
        key(PreservedKeyId::CharacterFormHalf, 0x35, cs),
        key(PreservedKeyId::CharacterFormFull, 0x36, cs),
        key(PreservedKeyId::PunctuationCantonese, 0x37, cs),
        key(PreservedKeyId::PunctuationEnglish, 0x38, cs),
        key(PreservedKeyId::ModeCantonese, 0x39, cs),
        key(PreservedKeyId::ModeAbc, 0x30, cs),
    ];
    assert(keys@ =~= preserved_key_table());
    keys
}

/// The flags a reserved hotkey asks for: its modifier flags, with the
/// "Shift alone" marker for the input-mode key.
pub open spec fn asked_flags(key: PreservedKey) -> u32 {
    key.modifiers | (if key.id == PreservedKeyId::InputMode { 0x0001_0000u32 } else { 0u32 })
}

/// Whether a reserved hotkey's "alone" markers are met: a key that asks
/// for Shift (or Control, or Alt) alone fires only when that modifier was
/// pressed and released alone.
pub open spec fn alone_markers_met(key: PreservedKey, modifiers: ModifierState) -> bool {
    let flags = asked_flags(key);
    flags & 0xffff_0000 != 0 ==> {
        &&& (flags & 0x0001_0000 != 0 ==> modifiers.shift_only)
        &&& (flags & 0x0002_0000 != 0 ==> modifiers.ctrl_only)
        &&& (flags & 0x0004_0000 != 0 ==> modifiers.alt_only)
    }
}

/// Whether every reserved hotkey with this id has its "alone" markers met.
pub open spec fn shift_key_only_met(keys: Seq<PreservedKey>, id: PreservedKeyId, modifiers: ModifierState) -> bool {
    forall|i: int| 0 <= i < keys.len() && (#[trigger] keys[i]).id == id ==> alone_markers_met(keys[i], modifiers)
}

/// Whether the reserved hotkeys with this id have their "alone" markers
/// met by the modifiers last pressed.
pub fn check_shift_key_only(keys: &Vec<PreservedKey>, id: PreservedKeyId, modifiers: &ModifierState) -> (r: bool)
    ensures
        r == shift_key_only_met(keys@, id, *modifiers),
{
    let mut i: usize = 0;
    while i < keys.len()
        invariant
            0 <= i <= keys@.len(),
            forall|j: int| 0 <= j < i && (#[trigger] keys@[j]).id == id ==> alone_markers_met(keys@[j], *modifiers),
        decreases keys.len() - i,
    {
        let key = keys[i];
        if key.id == id {
            let extra: u32 = if key.id == PreservedKeyId::InputMode {
                0x0001_0000
            } else {
                0
            };
            let flags = key.modifiers | extra;
            if flags & 0xffff_0000 != 0 {
                if flags & 0x0001_0000 != 0 && !modifiers.shift_only {
                    return false;
                }
                if flags & 0x0002_0000 != 0 && !modifiers.ctrl_only {
                    return false;
                }
                if flags & 0x0004_0000 != 0 && !modifiers.alt_only {
                    return false;
                }
            }
        }
        i += 1;
    }
    true
}

/// What a reserved hotkey does.
#[derive(Clone, Copy, PartialEq, Eq, Structural, Debug)]
pub enum PreservedKeyAction {
    /// Nothing: the key is not taken.
    Ignore,
    /// Switches between Cantonese and ABC.
    ToggleInputMode,
    /// Switches between half and full width.
    ToggleCharacterForm,
    /// Switches between Cantonese and English punctuation.
    TogglePunctuationForm,
    SetCharacterVariant(CharacterVariant),
    SetCharacterForm(CharacterForm),
    SetPunctuationForm(PunctuationForm),
    SetInputMethodMode(InputMethodMode),
}

/// What a reserved hotkey does, given whether its "alone" markers are met
/// and whether Caps Lock is on: the three toggles need their markers met,
/// and the input-mode toggle does nothing under Caps Lock (English mode).
pub open spec fn preserved_key_action_of(id: PreservedKeyId, markers_met: bool, caps_lock: bool) -> PreservedKeyAction {
    match id {
        PreservedKeyId::InputMode => if markers_met && !caps_lock {
            PreservedKeyAction::ToggleInputMode
        } else {
            PreservedKeyAction::Ignore
        },
        PreservedKeyId::CharacterForm => if markers_met {
            PreservedKeyAction::ToggleCharacterForm
        } else {
            PreservedKeyAction::Ignore
        },
        PreservedKeyId::PunctuationForm => if markers_met {
            PreservedKeyAction::TogglePunctuationForm
        } else {
            PreservedKeyAction::Ignore
        },
        PreservedKeyId::VariantTraditional => PreservedKeyAction::SetCharacterVariant(CharacterVariant::Traditional),
        PreservedKeyId::VariantHongKong => PreservedKeyAction::SetCharacterVariant(CharacterVariant::HongKong),
        PreservedKeyId::VariantTaiwan => PreservedKeyAction::SetCharacterVariant(CharacterVariant::Taiwan),
        PreservedKeyId::VariantSimplified => PreservedKeyAction::SetCharacterVariant(CharacterVariant::Simplified),
        PreservedKeyId::CharacterFormHalf => PreservedKeyAction::SetCharacterForm(CharacterForm::HalfWidth),
        PreservedKeyId::CharacterFormFull => PreservedKeyAction::SetCharacterForm(CharacterForm::FullWidth),
        PreservedKeyId::PunctuationCantonese => PreservedKeyAction::SetPunctuationForm(PunctuationForm::Cantonese),
        PreservedKeyId::PunctuationEnglish => PreservedKeyAction::SetPunctuationForm(PunctuationForm::English),
        PreservedKeyId::ModeCantonese => PreservedKeyAction::SetInputMethodMode(InputMethodMode::Cantonese),
        PreservedKeyId::ModeAbc => PreservedKeyAction::SetInputMethodMode(InputMethodMode::Abc),
    }
}

/// What a reserved hotkey does, given the reserved keys, the modifiers
/// last pressed and whether Caps Lock is on.
pub fn preserved_key_action(
    keys: &Vec<PreservedKey>,
    id: PreservedKeyId,
    modifiers: &ModifierState,
    caps_lock: bool,
) -> (action: PreservedKeyAction)
    ensures
        action == preserved_key_action_of(id, shift_key_only_met(keys@, id, *modifiers), caps_lock),
{
    match id {
        PreservedKeyId::InputMode | PreservedKeyId::CharacterForm | PreservedKeyId::PunctuationForm => {
            let met = check_shift_key_only(keys, id, modifiers);
            if !met {
                return PreservedKeyAction::Ignore;
            }
            match id {
                PreservedKeyId::InputMode => if caps_lock {
                    PreservedKeyAction::Ignore
                } else {
                    PreservedKeyAction::ToggleInputMode
                },
                PreservedKeyId::CharacterForm => PreservedKeyAction::ToggleCharacterForm,
                _ => PreservedKeyAction::TogglePunctuationForm,
            }
        },
        PreservedKeyId::VariantTraditional => PreservedKeyAction::SetCharacterVariant(CharacterVariant::Traditional),
        PreservedKeyId::VariantHongKong => PreservedKeyAction::SetCharacterVariant(CharacterVariant::HongKong),
        PreservedKeyId::VariantTaiwan => PreservedKeyAction::SetCharacterVariant(CharacterVariant::Taiwan),
        PreservedKeyId::VariantSimplified => PreservedKeyAction::SetCharacterVariant(CharacterVariant::Simplified),
        PreservedKeyId::CharacterFormHalf => PreservedKeyAction::SetCharacterForm(CharacterForm::HalfWidth),
        PreservedKeyId::CharacterFormFull => PreservedKeyAction::SetCharacterForm(CharacterForm::FullWidth),
        PreservedKeyId::PunctuationCantonese => PreservedKeyAction::SetPunctuationForm(PunctuationForm::Cantonese),
        PreservedKeyId::PunctuationEnglish => PreservedKeyAction::SetPunctuationForm(PunctuationForm::English),
        PreservedKeyId::ModeCantonese => PreservedKeyAction::SetInputMethodMode(InputMethodMode::Cantonese),
        PreservedKeyId::ModeAbc => PreservedKeyAction::SetInputMethodMode(InputMethodMode::Abc),
    }
}

/// Whether the key is one of the four that choose a character variant.
pub fn is_character_variant_key(id: PreservedKeyId) -> (r: bool)
    ensures
        r == (id == PreservedKeyId::VariantTraditional || id == PreservedKeyId::VariantHongKong || id
            == PreservedKeyId::VariantTaiwan || id == PreservedKeyId::VariantSimplified),
{
    id == PreservedKeyId::VariantTraditional || id == PreservedKeyId::VariantHongKong || id
        == PreservedKeyId::VariantTaiwan || id == PreservedKeyId::VariantSimplified
}

/// The mode a mode-choosing key picks, if it is one.
pub fn input_method_mode_for_key(id: PreservedKeyId) -> (mode: Option<InputMethodMode>)
    ensures
        mode == if id == PreservedKeyId::ModeCantonese {
            Some(InputMethodMode::Cantonese)
        } else if id == PreservedKeyId::ModeAbc {
            Some(InputMethodMode::Abc)
        } else {
            None
        },
{
    if id == PreservedKeyId::ModeCantonese {
        Some(InputMethodMode::Cantonese)
    } else if id == PreservedKeyId::ModeAbc {
        Some(InputMethodMode::Abc)
    } else {
        None
    }
}

/// With the reserved hotkeys, Shift alone toggles Cantonese and ABC only
/// when it was pressed and released alone and Caps Lock is off; the
/// character-form and punctuation-form toggles always fire.
pub proof fn lemma_shift_alone_toggles_mode(modifiers: ModifierState, caps_lock: bool)
    ensures
        preserved_key_action_of(
            PreservedKeyId::InputMode,
            shift_key_only_met(preserved_key_table(), PreservedKeyId::InputMode, modifiers),
            caps_lock,
        ) == if modifiers.shift_only && !caps_lock {
            PreservedKeyAction::ToggleInputMode
        } else {
            PreservedKeyAction::Ignore
        },
        shift_key_only_met(preserved_key_table(), PreservedKeyId::CharacterForm, modifiers),
        shift_key_only_met(preserved_key_table(), PreservedKeyId::PunctuationForm, modifiers),
{
    let t = preserved_key_table();
    assert(0x0200u32 | 0x0001_0000u32 == 0x0001_0200u32) by (bit_vector);
    assert(0x0001_0200u32 & 0xffff_0000u32 != 0 && 0x0001_0200u32 & 0x0001_0000u32 != 0
        && 0x0001_0200u32 & 0x0002_0000u32 == 0 && 0x0001_0200u32 & 0x0004_0000u32 == 0) by (bit_vector);
    assert(0x0004u32 | 0u32 == 0x0004u32 && 0x0004u32 & 0xffff_0000u32 == 0) by (bit_vector);
    assert(0x0002u32 | 0u32 == 0x0002u32 && 0x0002u32 & 0xffff_0000u32 == 0) by (bit_vector);
    assert(asked_flags(t[0]) == 0x0001_0200u32);
    assert(t[0].id == PreservedKeyId::InputMode);
    assert forall|i: int| 1 <= i < t.len() implies (#[trigger] t[i]).id != PreservedKeyId::InputMode by {
    }
    assert forall|i: int| 0 <= i < t.len() && (#[trigger] t[i]).id == PreservedKeyId::CharacterForm
        implies alone_markers_met(t[i], modifiers) by {
        assert(i == 1);
    }
    assert forall|i: int| 0 <= i < t.len() && (#[trigger] t[i]).id == PreservedKeyId::PunctuationForm
        implies alone_markers_met(t[i], modifiers) by {
        assert(i == 2);
    }
    if modifiers.shift_only {
        assert forall|i: int| 0 <= i < t.len() && (#[trigger] t[i]).id == PreservedKeyId::InputMode
            implies alone_markers_met(t[i], modifiers) by {
            assert(i == 0);
        }
    } else {
        assert(!alone_markers_met(t[0], modifiers));
    }
}

} // verus!
