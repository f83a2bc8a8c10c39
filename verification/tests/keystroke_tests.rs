use rcantonese::input_key::{ReverseLookupMethod, VirtualInputKey};
use rcantonese::keytable::{
    CandidateMode, KeystrokeCategory, KeystrokeEngine, KeystrokeFunction, KeystrokeState, VK_BACK,
    VK_DOWN, VK_ESCAPE, VK_LEFT, VK_RETURN, VK_SPACE, VK_TAB,
};
use rcantonese::modifiers::{
    check_modifiers, dll_add_ref, dll_ref_count, dll_release, update_modifiers, DllRefCount,
    ModifierState, TF_MOD_ALT, TF_MOD_CONTROL, TF_MOD_IGNORE_ALL_MODIFIER, TF_MOD_LCONTROL,
    TF_MOD_LSHIFT, TF_MOD_RSHIFT, TF_MOD_SHIFT,
};

fn decide(
    engine: &KeystrokeEngine,
    code: u32,
    wch: u16,
    composing: bool,
    mode: CandidateMode,
    modifiers: u32,
) -> (bool, KeystrokeCategory, KeystrokeFunction) {
    let mut state = KeystrokeState::none();
    let taken = engine.is_virtual_key_need(code, wch, composing, mode, ReverseLookupMethod::Nothing, modifiers, &mut state);
    (taken, state.category, state.function)
}

#[test]
fn letters_start_a_composition() {
    let engine = KeystrokeEngine::new();
    assert_eq!(
        decide(&engine, 0x41, 'a' as u16, false, CandidateMode::Nothing, 0),
        (true, KeystrokeCategory::Composing, KeystrokeFunction::Input)
    );
    assert_eq!(
        decide(&engine, 0x5A, 'Z' as u16, true, CandidateMode::Nothing, TF_MOD_SHIFT),
        (true, KeystrokeCategory::Composing, KeystrokeFunction::Input)
    );
    // the grave accent starts a reverse lookup
    assert_eq!(
        decide(&engine, 0xC0, '`' as u16, false, CandidateMode::Nothing, 0),
        (true, KeystrokeCategory::Composing, KeystrokeFunction::Input)
    );
    // with Control held a letter is not input
    assert_eq!(
        decide(&engine, 0x41, 0, false, CandidateMode::Nothing, TF_MOD_CONTROL),
        (false, KeystrokeCategory::Nothing, KeystrokeFunction::Nothing)
    );
}

#[test]
fn composing_keys() {
    let engine = KeystrokeEngine::new();
    assert_eq!(
        decide(&engine, VK_RETURN, 13, true, CandidateMode::Nothing, 0),
        (true, KeystrokeCategory::Composing, KeystrokeFunction::FinalizeTextStore)
    );
    assert_eq!(
        decide(&engine, VK_BACK, 8, true, CandidateMode::Nothing, 0),
        (true, KeystrokeCategory::Composing, KeystrokeFunction::Backspace)
    );
    assert_eq!(
        decide(&engine, VK_SPACE, 32, true, CandidateMode::Incremental, 0),
        (true, KeystrokeCategory::Candidate, KeystrokeFunction::Convert)
    );
    assert_eq!(
        decide(&engine, VK_LEFT, 0, true, CandidateMode::Nothing, 0),
        (true, KeystrokeCategory::Composing, KeystrokeFunction::MoveLeft)
    );
    // an apostrophe separates syllables while composing
    assert_eq!(
        decide(&engine, 0xDE, '\'' as u16, true, CandidateMode::Nothing, 0),
        (true, KeystrokeCategory::Composing, KeystrokeFunction::Input)
    );
}

#[test]
fn candidate_list_keys() {
    let engine = KeystrokeEngine::new();
    assert_eq!(
        decide(&engine, VK_TAB, 9, false, CandidateMode::Original, 0),
        (true, KeystrokeCategory::Candidate, KeystrokeFunction::MoveDown)
    );
    assert_eq!(
        decide(&engine, VK_TAB, 9, false, CandidateMode::Original, TF_MOD_SHIFT),
        (true, KeystrokeCategory::Candidate, KeystrokeFunction::MoveUp)
    );
    assert_eq!(
        decide(&engine, VK_DOWN, 0, false, CandidateMode::Phrase, 0),
        (true, KeystrokeCategory::Phrase, KeystrokeFunction::MoveDown)
    );
    assert_eq!(
        decide(&engine, 0x33, '3' as u16, false, CandidateMode::Original, 0),
        (true, KeystrokeCategory::Candidate, KeystrokeFunction::SelectByNumber)
    );
    // keypad 3
    assert_eq!(
        decide(&engine, 0x63, 0, false, CandidateMode::Original, 0),
        (true, KeystrokeCategory::Candidate, KeystrokeFunction::SelectByNumber)
    );
    // 8 is beyond a page of 7
    assert_eq!(
        decide(&engine, 0x38, '8' as u16, false, CandidateMode::Original, 0),
        (false, KeystrokeCategory::InvokeCompositionEditSession, KeystrokeFunction::FinalizeTextStore)
    );
    assert_eq!(
        decide(&engine, VK_ESCAPE, 27, false, CandidateMode::WithNextComposition, 0),
        (true, KeystrokeCategory::InvokeCompositionEditSession, KeystrokeFunction::FinalizeTextStore)
    );
    assert_eq!(
        decide(&engine, VK_BACK, 8, false, CandidateMode::Original, TF_MOD_CONTROL | TF_MOD_SHIFT),
        (true, KeystrokeCategory::Candidate, KeystrokeFunction::ForgetCandidate)
    );
    assert_eq!(
        decide(&engine, 0x41, 'a' as u16, false, CandidateMode::Original, 0),
        (true, KeystrokeCategory::Candidate, KeystrokeFunction::FinalizeCandidateListAndInput)
    );
}

#[test]
fn punctuation_list_keys() {
    let engine = KeystrokeEngine::new();
    assert_eq!(
        decide(&engine, VK_SPACE, 32, false, CandidateMode::Punctuation, 0),
        (true, KeystrokeCategory::Candidate, KeystrokeFunction::FinalizeCandidateList)
    );
    assert_eq!(
        decide(&engine, VK_ESCAPE, 27, false, CandidateMode::Punctuation, 0),
        (true, KeystrokeCategory::Candidate, KeystrokeFunction::Cancel)
    );
    assert_eq!(
        decide(&engine, 0x42, 'b' as u16, false, CandidateMode::Punctuation, 0),
        (true, KeystrokeCategory::Candidate, KeystrokeFunction::FinalizeCandidateListAndInput)
    );
}

#[test]
fn phrase_numbers_need_the_phrase_modifier() {
    let mut engine = KeystrokeEngine::new();
    engine.set_phrase_modifier(TF_MOD_SHIFT);
    assert_eq!(engine.phrase_modifier(), TF_MOD_SHIFT);
    assert_eq!(
        decide(&engine, 0x31, '1' as u16, false, CandidateMode::Phrase, TF_MOD_SHIFT),
        (true, KeystrokeCategory::Phrase, KeystrokeFunction::SelectByNumber)
    );
    assert_eq!(
        decide(&engine, 0x31, '1' as u16, false, CandidateMode::Phrase, 0),
        (false, KeystrokeCategory::InvokeCompositionEditSession, KeystrokeFunction::FinalizeTextstoreAndInput)
    );
}

#[test]
fn candidate_labels_follow_the_page_size() {
    let mut engine = KeystrokeEngine::new();
    assert_eq!(engine.candidate_list_index_range(), &[1, 2, 3, 4, 5, 6, 7]);
    engine.set_candidate_list_range(10);
    assert_eq!(engine.candidate_list_index_range(), &[1, 2, 3, 4, 5, 6, 7, 8, 9, 0]);
    engine.set_candidate_list_range(0);
    assert!(engine.candidate_list_index_range().is_empty());
}

#[test]
fn input_keys() {
    let a = VirtualInputKey::for_character('a').unwrap();
    assert_eq!((a.key_code, a.code), (0x41, 20));
    assert_eq!(VirtualInputKey::for_key_code(0x5A).unwrap().character, 'z');
    assert!(VirtualInputKey::for_key_code(0xDE).unwrap().is_apostrophe());
    assert!(VirtualInputKey::for_character('3').unwrap().is_tone_number());
    assert!(!VirtualInputKey::for_character('9').unwrap().is_tone_number());
    assert!(VirtualInputKey::for_character('!').is_none());
    assert!(VirtualInputKey::is_matched_letter(0x4D));
    assert!(!VirtualInputKey::is_matched_letter(0x30));
}

#[test]
fn modifier_matching() {
    assert!(check_modifiers(0, 0));
    assert!(check_modifiers(TF_MOD_CONTROL | TF_MOD_LCONTROL, TF_MOD_CONTROL));
    assert!(!check_modifiers(TF_MOD_CONTROL, 0));
    assert!(!check_modifiers(0, TF_MOD_CONTROL));
    assert!(check_modifiers(TF_MOD_SHIFT | TF_MOD_LSHIFT, TF_MOD_SHIFT | TF_MOD_RSHIFT));
    assert!(!check_modifiers(TF_MOD_SHIFT | TF_MOD_LSHIFT, TF_MOD_RSHIFT));
    assert!(check_modifiers(TF_MOD_ALT, TF_MOD_IGNORE_ALL_MODIFIER));
}

#[test]
fn modifier_tracking() {
    let state = ModifierState::new();
    // left Shift pressed alone
    let shifted = update_modifiers(state, 0x10, 0x002A_0001, false, false, true);
    assert_eq!(shifted.value, TF_MOD_SHIFT | TF_MOD_LSHIFT);
    assert!(shifted.shift_only);
    // right Shift (scan code 0x36), auto-repeat
    let right = update_modifiers(state, 0x10, 0x4036_0001, false, false, true);
    assert_eq!(right.value, TF_MOD_SHIFT | TF_MOD_RSHIFT);
    assert!(!right.shift_only);
    // Control pressed while Shift is held: not alone
    let both = update_modifiers(shifted, 0x11, 0x001D_0001, false, true, true);
    assert_eq!(both.value, TF_MOD_SHIFT | TF_MOD_LSHIFT | TF_MOD_CONTROL | TF_MOD_LCONTROL);
    assert!(!both.ctrl_only);
    // everything released
    let released = update_modifiers(both, 0x41, 0, false, false, false);
    assert_eq!(released.value, 0);
    let alt = update_modifiers(state, 0x12, 0x0100_0000, true, false, false);
    assert_eq!(alt.value & TF_MOD_ALT, TF_MOD_ALT);
    assert!(alt.alt_only);
}

#[test]
fn reference_count() {
    let mut counter = DllRefCount::new();
    assert_eq!(dll_ref_count(&counter), -1);
    dll_add_ref(&mut counter);
    dll_add_ref(&mut counter);
    assert_eq!(dll_ref_count(&counter), 1);
    dll_release(&mut counter);
    assert_eq!(dll_ref_count(&counter), 0);
}
