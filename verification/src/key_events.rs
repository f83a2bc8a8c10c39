//! What the input method does with a key event: whether it takes the key
//! and as what, and which handler then runs for it.
use vstd::prelude::*;
use crate::input_key::ReverseLookupMethod;
use crate::keytable::{
    key_need, keystroke, CandidateMode, EngineView, KeystrokeCategory, KeystrokeEngine,
    KeystrokeFunction, KeystrokeState, VK_BACK, VK_DOWN, VK_RETURN, VK_SPACE, VK_UP,
};
use crate::modifiers::{check_modifiers, modifiers_match, TF_MOD_SHIFT};
use crate::punctuation::{punctuation_key_texts, PunctuationKey, VK_OEM_3, VK_OEM_7};
use crate::settings::ImeSettings;

verus! {

/// What a key event meets: the key, the keyboard, and the state of the
/// composition and of the candidate list.
pub struct KeyContext {
    /// The virtual key code.
    pub code: u32,
    /// The character the key types (0 for none).
    pub wch: u16,
    pub is_key_down: bool,
    pub caps_lock: bool,
    /// Whether a composition is in progress.
    pub composing: bool,
    /// Whether a candidate list is shown.
    pub has_candidate_list: bool,
    pub keyboard_disabled: bool,
    /// Whether the keyboard is open (Cantonese mode rather than ABC).
    pub keyboard_open: bool,
    /// Whether a Windows key is held.
    pub windows_key_down: bool,
    /// The modifier flags held.
    pub modifiers: u32,
    pub candidate_mode: CandidateMode,
    /// The length of the "/x" symbol query, while one is open.
    pub symbol_query_len: Option<usize>,
    /// Whether full-width characters are typed.
    pub full_width: bool,
}

/// What becomes of a key event.
#[derive(Clone, Copy, PartialEq, Eq, Structural, Debug)]
pub enum KeyVerdict {
    /// The input method takes the key, as the given keystroke.
    Eat(KeystrokeState),
    /// The key goes to the application.
    Pass,
    /// The keyboard is in ABC mode: the key goes to the application and the
    /// reading code of the composition is cleared.
    PassInAbcMode,
}

/// What the key test reads of the processor: its keystroke engine as a
/// view, the options-menu hotkeys and the reverse-lookup method of the input.
pub type ProcessorKeys = (EngineView, Seq<(u32, u32)>, ReverseLookupMethod);

/// Whether a hotkey (virtual key, modifier flags) is the key pressed.
pub open spec fn hotkey_matches(hotkey: (u32, u32), code: u32, modifiers: u32) -> bool {
    let (key, flags) = hotkey;
    key == code && modifiers_match(modifiers, flags)
}

/// Whether one of the hotkeys is the key pressed.
pub open spec fn hotkey_pressed(hotkeys: Seq<(u32, u32)>, code: u32, modifiers: u32) -> bool {
    exists|i: int| 0 <= i < hotkeys.len() && #[trigger] hotkey_matches(hotkeys[i], code, modifiers)
}

/// A digit key of the main row or of the number pad.
pub open spec fn is_digit_code(code: u32) -> bool {
    (0x30 <= code <= 0x39) || (0x60 <= code <= 0x69)
}

/// What a key does while the options menu is open: digits (without
/// modifiers) select, up and down move, anything else closes the menu.
pub open spec fn options_menu_function(code: u32, modifiers: u32) -> KeystrokeFunction {
    if is_digit_code(code) && modifiers_match(modifiers, 0) {
        KeystrokeFunction::SelectByNumber
    } else if code == VK_UP {
        KeystrokeFunction::MoveUp
    } else if code == VK_DOWN {
        KeystrokeFunction::MoveDown
    } else {
        KeystrokeFunction::Cancel
    }
}

/// Whether the key is handled as a punctuation key: a punctuation key
/// pressed with Shift, or without modifiers unless it is "`" (which starts
/// a composition); a digit key only with Shift.
pub open spec fn handles_punctuation(code: u32, modifiers: u32) -> bool {
    let no_modifier = modifiers_match(modifiers, 0);
    let shifting = modifiers_match(modifiers, TF_MOD_SHIFT);
    &&& (shifting || (no_modifier && code != VK_OEM_3))
    &&& punctuation_key_texts(code) is Some
    &&& (!(0x30 <= code <= 0x39) || shifting)
}

/// What a key does while the "/x" symbol query is open (no modifiers):
/// backspace cancels the bare "/" and edits a query; letters, and digits
/// on the bare "/", extend the query.
pub open spec fn symbol_query_keystroke(code: u32, query_len: usize) -> Option<KeystrokeState> {
    if code == VK_BACK {
        Some(
            keystroke(
                KeystrokeCategory::Candidate,
                if query_len == 0 {
                    KeystrokeFunction::Cancel
                } else {
                    KeystrokeFunction::SymbolQuery
                },
            ),
        )
    } else if (0x41 <= code <= 0x5a) || (0x30 <= code <= 0x39 && query_len == 0) {
        Some(keystroke(KeystrokeCategory::Candidate, KeystrokeFunction::SymbolQuery))
    } else {
        None
    }
}

/// What becomes of a key event, given the processor when there is one.
pub open spec fn key_verdict(ctx: KeyContext, processor: Option<ProcessorKeys>) -> KeyVerdict {
    let code = ctx.code;
    let modifiers = ctx.modifiers;
    if ctx.caps_lock {
        if ctx.is_key_down && (ctx.composing || ctx.has_candidate_list) {
            KeyVerdict::Eat(keystroke(KeystrokeCategory::Composing, KeystrokeFunction::FinalizeTextStore))
        } else {
            KeyVerdict::Pass
        }
    } else if code == 0 || code == u32::MAX || ctx.keyboard_disabled || !ctx.is_key_down
        || ctx.windows_key_down {
        KeyVerdict::Pass
    } else if processor matches Some((_, hotkeys, _)) && hotkey_pressed(hotkeys, code, modifiers) {
        KeyVerdict::Eat(keystroke(KeystrokeCategory::Candidate, KeystrokeFunction::ToggleOptions))
    } else if ctx.candidate_mode == CandidateMode::Options {
        KeyVerdict::Eat(keystroke(KeystrokeCategory::Candidate, options_menu_function(code, modifiers)))
    } else if !ctx.keyboard_open {
        KeyVerdict::PassInAbcMode
    } else {
        match processor {
            None => KeyVerdict::Pass,
            Some((engine, _, method)) => {
                let shifting = modifiers_match(modifiers, TF_MOD_SHIFT);
                let punctuation = handles_punctuation(code, modifiers);
                let unshifted_apostrophe = punctuation && !shifting && code == VK_OEM_7;
                let query = if ctx.candidate_mode == CandidateMode::Punctuation && modifiers_match(modifiers, 0) {
                    match ctx.symbol_query_len {
                        Some(len) => symbol_query_keystroke(code, len),
                        None => None,
                    }
                } else {
                    None
                };
                let (needed, state) = key_need(
                    engine,
                    code,
                    ctx.wch,
                    ctx.composing,
                    ctx.candidate_mode,
                    method,
                    modifiers,
                );
                if query is Some {
                    KeyVerdict::Eat(query->0)
                } else if needed && (!punctuation || (unshifted_apostrophe && state.function
                    == KeystrokeFunction::Input)) {
                    KeyVerdict::Eat(state)
                } else if needed && !shifting && (state.function == KeystrokeFunction::MovePageUp
                    || state.function == KeystrokeFunction::MovePageDown) {
                    KeyVerdict::Eat(state)
                } else if punctuation {
                    KeyVerdict::Eat(keystroke(KeystrokeCategory::Composing, KeystrokeFunction::PunctuationKey))
                } else if ctx.candidate_mode == CandidateMode::Nothing && 0x20 <= ctx.wch <= 0x7e
                    && ctx.full_width {
                    KeyVerdict::Eat(keystroke(KeystrokeCategory::Composing, KeystrokeFunction::CharacterForm))
                } else {
                    KeyVerdict::Pass
                }
            },
        }
    }
}

/// The view of a processor as the key test reads it.
pub open spec fn processor_keys(
    processor: Option<(&KeystrokeEngine, &ImeSettings, ReverseLookupMethod)>,
) -> Option<ProcessorKeys> {
    match processor {
        Some((engine, settings, method)) => Some((engine@, settings.options_menu_keys@, method)),
        None => None,
    }
}

/// Whether one of the hotkeys is the key pressed.
pub fn is_options_hotkey(hotkeys: &Vec<(u32, u32)>, code: u32, modifiers: u32) -> (r: bool)
    ensures
        r == hotkey_pressed(hotkeys@, code, modifiers),
{
    let mut i: usize = 0;
    while i < hotkeys.len()
        invariant
            0 <= i <= hotkeys@.len(),
            forall|j: int| 0 <= j < i ==> !#[trigger] hotkey_matches(hotkeys@[j], code, modifiers),
        decreases hotkeys.len() - i,
    {
        let (key, flags) = hotkeys[i];
        if key == code && check_modifiers(modifiers, flags) {
            assert(hotkey_matches(hotkeys@[i as int], code, modifiers));
            return true;
        }
        i += 1;
    }
    false
}

fn options_function(code: u32, modifiers: u32) -> (f: KeystrokeFunction)
    ensures
        f == options_menu_function(code, modifiers),
{
    if ((0x30 <= code && code <= 0x39) || (0x60 <= code && code <= 0x69)) && check_modifiers(modifiers, 0) {
        KeystrokeFunction::SelectByNumber
    } else if code == VK_UP {
        KeystrokeFunction::MoveUp
    } else if code == VK_DOWN {
        KeystrokeFunction::MoveDown
    } else {
        KeystrokeFunction::Cancel
    }
}

fn symbol_query_decision(code: u32, query_len: usize) -> (r: Option<KeystrokeState>)
    ensures
        r == symbol_query_keystroke(code, query_len),
{
    let c = KeystrokeCategory::Candidate;
    if code == VK_BACK {
        let function = if query_len == 0 {
            KeystrokeFunction::Cancel
        } else {
            KeystrokeFunction::SymbolQuery
        };
        return Some(KeystrokeState { category: c, function });
    }
    if (0x41 <= code && code <= 0x5a) || (0x30 <= code && code <= 0x39 && query_len == 0) {
        return Some(KeystrokeState { category: c, function: KeystrokeFunction::SymbolQuery });
    }
    None
}

/// Decides what becomes of a key event: the processor, when there is one,
/// gives its keystroke engine, its settings (for the options-menu hotkeys)
/// and the reverse-lookup method of the input.
pub fn test_key(
    ctx: &KeyContext,
    processor: Option<(&KeystrokeEngine, &ImeSettings, ReverseLookupMethod)>,
) -> (verdict: KeyVerdict)
    ensures
        verdict == key_verdict(*ctx, processor_keys(processor)),
{
    let code = ctx.code;
    let modifiers = ctx.modifiers;
    if ctx.caps_lock {
        if ctx.is_key_down && (ctx.composing || ctx.has_candidate_list) {
            return KeyVerdict::Eat(
                KeystrokeState {
                    category: KeystrokeCategory::Composing,
                    function: KeystrokeFunction::FinalizeTextStore,
                },
            );
        }
        return KeyVerdict::Pass;
    }
    if code == 0 || code == u32::MAX || ctx.keyboard_disabled || !ctx.is_key_down
        || ctx.windows_key_down {
        return KeyVerdict::Pass;
    }
    let options_hotkey = match processor {
        Some((_, settings, _)) => is_options_hotkey(&settings.options_menu_keys, code, modifiers),
        None => false,
    };
    if options_hotkey {
        return KeyVerdict::Eat(
            KeystrokeState {
                category: KeystrokeCategory::Candidate,
                function: KeystrokeFunction::ToggleOptions,
            },
        );
    }
    if ctx.candidate_mode == CandidateMode::Options {
        return KeyVerdict::Eat(
            KeystrokeState {
                category: KeystrokeCategory::Candidate,
                function: options_function(code, modifiers),
            },
        );
    }
    if !ctx.keyboard_open {
        return KeyVerdict::PassInAbcMode;
    }
    let (engine, method) = match processor {
        Some((engine, _, method)) => (engine, method),
        None => {
            return KeyVerdict::Pass;
        },
    };
    let no_modifier = check_modifiers(modifiers, 0);
    let shifting = check_modifiers(modifiers, TF_MOD_SHIFT);
    let punctuation_key = if shifting || (no_modifier && code != VK_OEM_3) {
        PunctuationKey::for_virtual_key(code)
    } else {
        None
    };
    let punctuation = match &punctuation_key {
        Some(key) => key.should_handle(shifting),
        None => false,
    };
    let unshifted_apostrophe = punctuation && !shifting && code == VK_OEM_7;
    if ctx.candidate_mode == CandidateMode::Punctuation && no_modifier {
        if let Some(len) = ctx.symbol_query_len {
            if let Some(state) = symbol_query_decision(code, len) {
                return KeyVerdict::Eat(state);
            }
        }
    }
    let mut state = KeystrokeState::none();
    let needed = engine.is_virtual_key_need(
        code,
        ctx.wch,
        ctx.composing,
        ctx.candidate_mode,
        method,
        modifiers,
        &mut state,
    );
    if needed {
        let syllable_separator = unshifted_apostrophe && state.function == KeystrokeFunction::Input;
        if !punctuation || syllable_separator {
            return KeyVerdict::Eat(state);
        }
        if !shifting && (state.function == KeystrokeFunction::MovePageUp || state.function
            == KeystrokeFunction::MovePageDown) {
            return KeyVerdict::Eat(state);
        }
    }
    if punctuation {
        return KeyVerdict::Eat(
            KeystrokeState {
                category: KeystrokeCategory::Composing,
                function: KeystrokeFunction::PunctuationKey,
            },
        );
    }
    if ctx.candidate_mode == CandidateMode::Nothing && 0x20 <= ctx.wch && ctx.wch <= 0x7e
        && ctx.full_width {
        return KeyVerdict::Eat(
            KeystrokeState {
                category: KeystrokeCategory::Composing,
                function: KeystrokeFunction::CharacterForm,
            },
        );
    }
    KeyVerdict::Pass
}

/// The functions that move through a list or a composition.
pub open spec fn is_arrow(f: KeystrokeFunction) -> bool {
    ||| f == KeystrokeFunction::MoveLeft
    ||| f == KeystrokeFunction::MoveRight
    ||| f == KeystrokeFunction::MoveUp
    ||| f == KeystrokeFunction::MoveDown
    ||| f == KeystrokeFunction::MovePageUp
    ||| f == KeystrokeFunction::MovePageDown
    ||| f == KeystrokeFunction::MovePageTop
    ||| f == KeystrokeFunction::MovePageBottom
}

/// Whether the function moves through a list or a composition.
pub fn is_arrow_function(f: KeystrokeFunction) -> (r: bool)
    ensures
        r == is_arrow(f),
{
    match f {
        KeystrokeFunction::MoveLeft | KeystrokeFunction::MoveRight | KeystrokeFunction::MoveUp
        | KeystrokeFunction::MoveDown | KeystrokeFunction::MovePageUp
        | KeystrokeFunction::MovePageDown | KeystrokeFunction::MovePageTop
        | KeystrokeFunction::MovePageBottom => true,
        _ => false,
    }
}

/// The handler that runs for a key the input method has taken.
#[derive(Clone, Copy, PartialEq, Eq, Structural, Debug)]
pub enum KeyHandler {
    /// Opens or closes the options menu.
    ToggleOptions,
    /// Picks an entry of the options menu by its digit.
    SelectOption,
    /// Closes the options menu.
    CloseOptions,
    /// Adds the key to the composition.
    Input,
    /// Finalizes the composition, then adds the key to a new one.
    FinalizeAndInput,
    /// Commits the raw input as typed.
    FinalizeRaw,
    /// Finalizes the composition.
    Finalize,
    /// Finalizes the candidate list, then adds the key to a new composition.
    FinalizeListAndInput,
    /// Finalizes the candidate list.
    FinalizeList,
    /// Converts the composition into a candidate list.
    Convert,
    /// Cancels the composition.
    Cancel,
    /// Deletes the last key of the composition.
    Backspace,
    /// Moves within the composition.
    CompositionArrow(KeystrokeFunction),
    /// Types the full-width form of the character.
    CharacterForm,
    /// Types or lists the symbols of a punctuation key.
    Punctuation,
    /// Commits the selected candidate.
    CandidateFinalize,
    /// Commits the selected candidate, then adds the key to a new composition.
    CandidateFinalizeAndInput,
    /// Converts again from the candidate list.
    CandidateConvert,
    /// Moves the selection of the shown list.
    ListArrow(KeystrokeFunction),
    /// Picks a candidate by its digit.
    CandidateSelectByNumber,
    /// Extends or edits the "/x" symbol query.
    SymbolQuery,
    /// Forgets the selected candidate from the learned words.
    ForgetCandidate,
    /// Commits the selected phrase.
    PhraseFinalize,
    /// Picks a phrase by its digit.
    PhraseSelectByNumber,
    /// No handler: the keystroke is refused.
    Invalid,
}

/// The handler of a keystroke, given its key code and the candidate mode.
pub open spec fn key_handler_of(state: KeystrokeState, code: u32, mode: CandidateMode) -> KeyHandler {
    let c = state.category;
    let f = state.function;
    let options = mode == CandidateMode::Options;
    if f == KeystrokeFunction::ToggleOptions {
        KeyHandler::ToggleOptions
    } else if c == KeystrokeCategory::Candidate && f == KeystrokeFunction::SelectByNumber && options {
        KeyHandler::SelectOption
    } else if c == KeystrokeCategory::Candidate && f == KeystrokeFunction::Cancel && options {
        KeyHandler::CloseOptions
    } else if c == KeystrokeCategory::Composing {
        if f == KeystrokeFunction::Input {
            KeyHandler::Input
        } else if f == KeystrokeFunction::FinalizeTextstoreAndInput {
            KeyHandler::FinalizeAndInput
        } else if f == KeystrokeFunction::FinalizeTextStore {
            if code == VK_RETURN || code == VK_SPACE {
                KeyHandler::FinalizeRaw
            } else {
                KeyHandler::Finalize
            }
        } else if f == KeystrokeFunction::FinalizeCandidateListAndInput {
            KeyHandler::FinalizeListAndInput
        } else if f == KeystrokeFunction::FinalizeCandidateList {
            KeyHandler::FinalizeList
        } else if f == KeystrokeFunction::Convert {
            KeyHandler::Convert
        } else if f == KeystrokeFunction::Cancel {
            KeyHandler::Cancel
        } else if f == KeystrokeFunction::Backspace {
            KeyHandler::Backspace
        } else if is_arrow(f) {
            KeyHandler::CompositionArrow(f)
        } else if f == KeystrokeFunction::CharacterForm {
            KeyHandler::CharacterForm
        } else if f == KeystrokeFunction::PunctuationKey {
            KeyHandler::Punctuation
        } else {
            KeyHandler::Invalid
        }
    } else if c == KeystrokeCategory::Candidate {
        if f == KeystrokeFunction::FinalizeCandidateList {
            KeyHandler::CandidateFinalize
        } else if f == KeystrokeFunction::FinalizeCandidateListAndInput {
            KeyHandler::CandidateFinalizeAndInput
        } else if f == KeystrokeFunction::Convert {
            KeyHandler::CandidateConvert
        } else if f == KeystrokeFunction::Cancel {
            KeyHandler::Cancel
        } else if is_arrow(f) {
            KeyHandler::ListArrow(f)
        } else if f == KeystrokeFunction::SelectByNumber {
            KeyHandler::CandidateSelectByNumber
        } else if f == KeystrokeFunction::SymbolQuery {
            KeyHandler::SymbolQuery
        } else if f == KeystrokeFunction::ForgetCandidate {
            KeyHandler::ForgetCandidate
        } else {
            KeyHandler::Invalid
        }
    } else if c == KeystrokeCategory::Phrase {
        if f == KeystrokeFunction::FinalizeCandidateList {
            KeyHandler::PhraseFinalize
        } else if f == KeystrokeFunction::Cancel {
            KeyHandler::Cancel
        } else if is_arrow(f) {
            KeyHandler::ListArrow(f)
        } else if f == KeystrokeFunction::SelectByNumber {
            KeyHandler::PhraseSelectByNumber
        } else {
            KeyHandler::Invalid
        }
    } else {
        KeyHandler::Invalid
    }
}

/// Picks the handler that runs for a keystroke, given its key code and
/// the candidate mode.
pub fn key_handler(state: KeystrokeState, code: u32, mode: CandidateMode) -> (handler: KeyHandler)
    ensures
        handler == key_handler_of(state, code, mode),
{
    let c = state.category;
    let f = state.function;
    let options = mode == CandidateMode::Options;
    if f == KeystrokeFunction::ToggleOptions {
        return KeyHandler::ToggleOptions;
    }
    if c == KeystrokeCategory::Candidate && f == KeystrokeFunction::SelectByNumber && options {
        return KeyHandler::SelectOption;
    }
    if c == KeystrokeCategory::Candidate && f == KeystrokeFunction::Cancel && options {
        return KeyHandler::CloseOptions;
    }
    match c {
        KeystrokeCategory::Composing => match f {
            KeystrokeFunction::Input => KeyHandler::Input,
            KeystrokeFunction::FinalizeTextstoreAndInput => KeyHandler::FinalizeAndInput,
            KeystrokeFunction::FinalizeTextStore => {
                if code == VK_RETURN || code == VK_SPACE {
                    KeyHandler::FinalizeRaw
                } else {
                    KeyHandler::Finalize
                }
            },
            KeystrokeFunction::FinalizeCandidateListAndInput => KeyHandler::FinalizeListAndInput,
            KeystrokeFunction::FinalizeCandidateList => KeyHandler::FinalizeList,
            KeystrokeFunction::Convert => KeyHandler::Convert,
            KeystrokeFunction::Cancel => KeyHandler::Cancel,
            KeystrokeFunction::Backspace => KeyHandler::Backspace,
            KeystrokeFunction::CharacterForm => KeyHandler::CharacterForm,
            KeystrokeFunction::PunctuationKey => KeyHandler::Punctuation,
            _ => {
                if is_arrow_function(f) {
                    KeyHandler::CompositionArrow(f)
                } else {
                    KeyHandler::Invalid
                }
            },
        },
        KeystrokeCategory::Candidate => match f {
            KeystrokeFunction::FinalizeCandidateList => KeyHandler::CandidateFinalize,
            KeystrokeFunction::FinalizeCandidateListAndInput => KeyHandler::CandidateFinalizeAndInput,
            KeystrokeFunction::Convert => KeyHandler::CandidateConvert,
            KeystrokeFunction::Cancel => KeyHandler::Cancel,
            KeystrokeFunction::SelectByNumber => KeyHandler::CandidateSelectByNumber,
            KeystrokeFunction::SymbolQuery => KeyHandler::SymbolQuery,
            KeystrokeFunction::ForgetCandidate => KeyHandler::ForgetCandidate,
            _ => {
                if is_arrow_function(f) {
                    KeyHandler::ListArrow(f)
                } else {
                    KeyHandler::Invalid
                }
            },
        },
        KeystrokeCategory::Phrase => match f {
            KeystrokeFunction::FinalizeCandidateList => KeyHandler::PhraseFinalize,
            KeystrokeFunction::Cancel => KeyHandler::Cancel,
            KeystrokeFunction::SelectByNumber => KeyHandler::PhraseSelectByNumber,
            _ => {
                if is_arrow_function(f) {
                    KeyHandler::ListArrow(f)
                } else {
                    KeyHandler::Invalid
                }
            },
        },
        _ => KeyHandler::Invalid,
    }
}

/// The digit a key types: main-row and number-pad digits.
pub open spec fn digit_of_code(code: u32) -> Option<u32> {
    if 0x30 <= code <= 0x39 {
        Some((code - 0x30) as u32)
    } else if 0x60 <= code <= 0x69 {
        Some((code - 0x60) as u32)
    } else {
        None
    }
}

/// The place in the page of the candidate the digit key `code` picks,
/// by the candidate labels of the page.
pub fn candidate_index_from_code(labels: &[u32], code: u32) -> (index: Option<usize>)
    ensures
        match digit_of_code(code) {
            None => index is None,
            Some(digit) => match index {
                Some(i) => i < labels@.len() && labels@[i as int] == digit && forall|j: int| 0 <= j < i ==> labels@[j] != digit,
                None => forall|j: int| 0 <= j < labels@.len() ==> labels@[j] != digit,
            },
        },
{
    let digit: u32 = if 0x30 <= code && code <= 0x39 {
        code - 0x30
    } else if 0x60 <= code && code <= 0x69 {
        code - 0x60
    } else {
        return None;
    };
    let mut i: usize = 0;
    while i < labels.len()
        invariant
            digit_of_code(code) == Some(digit),
            0 <= i <= labels@.len(),
            forall|j: int| 0 <= j < i ==> labels@[j] != digit,
        decreases labels.len() - i,
    {
        if labels[i] == digit {
            return Some(i);
        }
        i += 1;
    }
    None
}

/// Whether the key event reaches the input method at all: Caps Lock is
/// off, the key is pressed down, has a code, the keyboard is enabled and no
/// Windows key is held.
pub open spec fn reaches_input_method(ctx: KeyContext) -> bool {
    &&& !ctx.caps_lock
    &&& ctx.is_key_down
    &&& ctx.code != 0
    &&& ctx.code != u32::MAX
    &&& !ctx.keyboard_disabled
    &&& !ctx.windows_key_down
}

/// Caps Lock is English mode: a key passes untouched, except that a key
/// pressed during a composition or with a candidate list finalizes it.
pub proof fn lemma_caps_lock_passes(ctx: KeyContext, processor: Option<ProcessorKeys>)
    requires
        ctx.caps_lock,
    ensures
        key_verdict(ctx, processor) == if ctx.is_key_down && (ctx.composing || ctx.has_candidate_list) {
            KeyVerdict::Eat(keystroke(KeystrokeCategory::Composing, KeystrokeFunction::FinalizeTextStore))
        } else {
            KeyVerdict::Pass
        },
{
}

/// No key is taken while a Windows key is held (Caps Lock off).
pub proof fn lemma_windows_key_passes(ctx: KeyContext, processor: Option<ProcessorKeys>)
    requires
        !ctx.caps_lock,
        ctx.windows_key_down,
    ensures
        key_verdict(ctx, processor) == KeyVerdict::Pass,
{
}

/// An options-menu hotkey toggles the menu in Cantonese and in ABC mode
/// alike, whatever the candidate list.
pub proof fn lemma_options_hotkey_toggles(ctx: KeyContext, processor: ProcessorKeys)
    requires
        reaches_input_method(ctx),
        hotkey_pressed(processor.1, ctx.code, ctx.modifiers),
    ensures
        key_verdict(ctx, Some(processor)) == KeyVerdict::Eat(
            keystroke(KeystrokeCategory::Candidate, KeystrokeFunction::ToggleOptions),
        ),
{
}

/// While the options menu is open every key is taken, as a key of the
/// menu: digits select, up and down move, any other key closes it.
pub proof fn lemma_options_menu_takes_every_key(ctx: KeyContext, processor: Option<ProcessorKeys>)
    requires
        reaches_input_method(ctx),
        ctx.candidate_mode == CandidateMode::Options,
    ensures
        key_verdict(ctx, processor) matches KeyVerdict::Eat(state) && state.category
            == KeystrokeCategory::Candidate,
{
}

/// In ABC mode every key that is no options-menu hotkey goes to the
/// application, outside the options menu.
pub proof fn lemma_abc_mode_passes(ctx: KeyContext, processor: Option<ProcessorKeys>)
    requires
        reaches_input_method(ctx),
        !ctx.keyboard_open,
        ctx.candidate_mode != CandidateMode::Options,
        !(processor matches Some((_, hotkeys, _)) && hotkey_pressed(hotkeys, ctx.code, ctx.modifiers)),
    ensures
        key_verdict(ctx, processor) == KeyVerdict::PassInAbcMode,
{
}

/// The apostrophe is a punctuation key and an input key; typed without
/// modifiers where the keystroke engine takes it as input (a syllable
/// separator), it stays input.
pub proof fn lemma_apostrophe_stays_input(ctx: KeyContext, processor: ProcessorKeys)
    requires
        reaches_input_method(ctx),
        ctx.keyboard_open,
        ctx.candidate_mode != CandidateMode::Options,
        ctx.code == VK_OEM_7,
        ctx.modifiers == 0,
        !hotkey_pressed(processor.1, ctx.code, ctx.modifiers),
        key_need(processor.0, ctx.code, ctx.wch, ctx.composing, ctx.candidate_mode, processor.2, 0)
            == (true, keystroke(KeystrokeCategory::Composing, KeystrokeFunction::Input)),
    ensures
        key_verdict(ctx, Some(processor)) == KeyVerdict::Eat(
            keystroke(KeystrokeCategory::Composing, KeystrokeFunction::Input),
        ),
{
    assert(0u32 & !0x0200u32 == 0 && 0u32 & 0x0400u32 == 0) by (bit_vector);
    assert(0x0004u32 & !0x0200u32 == 0x0004 && 0x0004u32 & 0x0400u32 == 0 && 0x0004u32 & 0x0004u32 != 0
        && 0u32 & 0x0004u32 == 0) by (bit_vector);
    assert(modifiers_match(0, 0));
    assert(!modifiers_match(0, TF_MOD_SHIFT));
}


/// In the options menu the arrow keys move and never close it: up moves
/// up and down moves down (with any modifiers); a digit without modifiers
/// picks an entry; any other key closes the menu.
pub proof fn lemma_options_menu_keys(ctx: KeyContext, processor: Option<ProcessorKeys>)
    requires
        reaches_input_method(ctx),
        ctx.candidate_mode == CandidateMode::Options,
        !(processor matches Some((_, hotkeys, _)) && hotkey_pressed(hotkeys, ctx.code, ctx.modifiers)),
    ensures
        ctx.code == 0x26 ==> key_verdict(ctx, processor) == KeyVerdict::Eat(
            KeystrokeState { category: KeystrokeCategory::Candidate, function: KeystrokeFunction::MoveUp },
        ),
        ctx.code == 0x28 ==> key_verdict(ctx, processor) == KeyVerdict::Eat(
            KeystrokeState { category: KeystrokeCategory::Candidate, function: KeystrokeFunction::MoveDown },
        ),
        (0x30 <= ctx.code <= 0x39 || 0x60 <= ctx.code <= 0x69) && modifiers_match(ctx.modifiers, 0)
            ==> key_verdict(ctx, processor) == KeyVerdict::Eat(
            KeystrokeState { category: KeystrokeCategory::Candidate, function: KeystrokeFunction::SelectByNumber },
        ),
        !(0x30 <= ctx.code <= 0x39 || 0x60 <= ctx.code <= 0x69) && ctx.code != 0x26 && ctx.code != 0x28
            ==> key_verdict(ctx, processor) == KeyVerdict::Eat(
            KeystrokeState { category: KeystrokeCategory::Candidate, function: KeystrokeFunction::Cancel },
        ),
{
}

/// While the "/x" symbol query of a punctuation list is open (no
/// modifiers): a letter always extends the query; a digit extends it only
/// while it is empty, and once it holds something the digit is decided as
/// if no query were open (it then picks from the list); backspace cancels
/// the bare "/" and edits a query that holds something.
pub proof fn lemma_symbol_query_keys(ctx: KeyContext, processor: ProcessorKeys, len: usize)
    requires
        reaches_input_method(ctx),
        ctx.keyboard_open,
        ctx.candidate_mode == CandidateMode::Punctuation,
        ctx.modifiers == 0,
        ctx.symbol_query_len == Some(len),
        !hotkey_pressed(processor.1, ctx.code, ctx.modifiers),
    ensures
        0x41 <= ctx.code <= 0x5a ==> key_verdict(ctx, Some(processor)) == KeyVerdict::Eat(
            KeystrokeState { category: KeystrokeCategory::Candidate, function: KeystrokeFunction::SymbolQuery },
        ),
        0x30 <= ctx.code <= 0x39 && len == 0 ==> key_verdict(ctx, Some(processor)) == KeyVerdict::Eat(
            KeystrokeState { category: KeystrokeCategory::Candidate, function: KeystrokeFunction::SymbolQuery },
        ),
        0x30 <= ctx.code <= 0x39 && len > 0 ==> key_verdict(ctx, Some(processor)) == key_verdict(
            KeyContext { symbol_query_len: None, ..ctx },
            Some(processor),
        ),
        ctx.code == 0x08 ==> key_verdict(ctx, Some(processor)) == KeyVerdict::Eat(
            KeystrokeState {
                category: KeystrokeCategory::Candidate,
                function: if len == 0 { KeystrokeFunction::Cancel } else { KeystrokeFunction::SymbolQuery },
            },
        ),
{
    assert(0u32 & !0x0200u32 == 0 && 0u32 & 0x0400u32 == 0) by (bit_vector);
    assert(modifiers_match(0, 0));
}

/// A keystroke of the composition goes to the handler of its function,
/// whatever the key and the candidate mode: backspace deletes the last key
/// and never discards the composition, cancel discards it, input adds the
/// key, and a converted or finalized composition goes to its own handler.
pub proof fn lemma_composing_handlers(code: u32, mode: CandidateMode)
    ensures
        key_handler_of(
            KeystrokeState { category: KeystrokeCategory::Composing, function: KeystrokeFunction::Backspace },
            code,
            mode,
        ) == KeyHandler::Backspace,
        key_handler_of(
            KeystrokeState { category: KeystrokeCategory::Composing, function: KeystrokeFunction::Cancel },
            code,
            mode,
        ) == KeyHandler::Cancel,
        key_handler_of(
            KeystrokeState { category: KeystrokeCategory::Composing, function: KeystrokeFunction::Input },
            code,
            mode,
        ) == KeyHandler::Input,
        key_handler_of(
            KeystrokeState { category: KeystrokeCategory::Composing, function: KeystrokeFunction::Convert },
            code,
            mode,
        ) == KeyHandler::Convert,
        key_handler_of(
            KeystrokeState {
                category: KeystrokeCategory::Composing,
                function: KeystrokeFunction::FinalizeCandidateList,
            },
            code,
            mode,
        ) == KeyHandler::FinalizeList,
        key_handler_of(
            KeystrokeState { category: KeystrokeCategory::Composing, function: KeystrokeFunction::PunctuationKey },
            code,
            mode,
        ) == KeyHandler::Punctuation,
        key_handler_of(
            KeystrokeState { category: KeystrokeCategory::Composing, function: KeystrokeFunction::CharacterForm },
            code,
            mode,
        ) == KeyHandler::CharacterForm,
{
}


/// A keystroke of the candidate list goes to the handler of its function:
/// in the options menu a digit picks an entry and cancel closes the menu;
/// elsewhere a digit picks a candidate and cancel discards the
/// composition; committing, the symbol query and forgetting go to their own
/// handlers; the options hotkey toggles the menu from any keystroke kind;
/// a finalizing key of the composition commits the raw input on Return and
/// Space, and the composition otherwise.
pub proof fn lemma_candidate_handlers(code: u32, mode: CandidateMode, category: KeystrokeCategory)
    ensures
        key_handler_of(
            KeystrokeState { category: KeystrokeCategory::Candidate, function: KeystrokeFunction::SelectByNumber },
            code,
            mode,
        ) == if mode == CandidateMode::Options {
            KeyHandler::SelectOption
        } else {
            KeyHandler::CandidateSelectByNumber
        },
        key_handler_of(
            KeystrokeState { category: KeystrokeCategory::Candidate, function: KeystrokeFunction::Cancel },
            code,
            mode,
        ) == if mode == CandidateMode::Options {
            KeyHandler::CloseOptions
        } else {
            KeyHandler::Cancel
        },
        key_handler_of(
            KeystrokeState {
                category: KeystrokeCategory::Candidate,
                function: KeystrokeFunction::FinalizeCandidateList,
            },
            code,
            mode,
        ) == KeyHandler::CandidateFinalize,
        key_handler_of(
            KeystrokeState { category: KeystrokeCategory::Candidate, function: KeystrokeFunction::SymbolQuery },
            code,
            mode,
        ) == KeyHandler::SymbolQuery,
        key_handler_of(
            KeystrokeState { category: KeystrokeCategory::Candidate, function: KeystrokeFunction::ForgetCandidate },
            code,
            mode,
        ) == KeyHandler::ForgetCandidate,
        key_handler_of(KeystrokeState { category, function: KeystrokeFunction::ToggleOptions }, code, mode)
            == KeyHandler::ToggleOptions,
        key_handler_of(
            KeystrokeState { category: KeystrokeCategory::Composing, function: KeystrokeFunction::FinalizeTextStore },
            code,
            mode,
        ) == if code == 0x0D || code == 0x20 {
            KeyHandler::FinalizeRaw
        } else {
            KeyHandler::Finalize
        },
{
}

} // verus!
