//! Which keystrokes the input method takes, and as what: the decision that
//! is made for each key-down event from the composition state, the candidate
//! list's mode, the reverse-lookup method and the modifiers held.
use vstd::prelude::*;

use crate::input_key::{key_for_key_code, ReverseLookupMethod, VirtualInputKey, VK_GRAVE};
use crate::modifiers::{check_modifiers, modifiers_match, TF_MOD_CONTROL, TF_MOD_SHIFT};
use crate::settings::DEFAULT_CANDIDATE_PAGE_SIZE;

verus! {

pub const VK_BACK: u32 = 0x08;

pub const VK_TAB: u32 = 0x09;

pub const VK_RETURN: u32 = 0x0D;

pub const VK_ESCAPE: u32 = 0x1B;

pub const VK_SPACE: u32 = 0x20;

/// Page Up.
pub const VK_PRIOR: u32 = 0x21;

/// Page Down.
pub const VK_NEXT: u32 = 0x22;

pub const VK_END: u32 = 0x23;

pub const VK_HOME: u32 = 0x24;

pub const VK_LEFT: u32 = 0x25;

pub const VK_UP: u32 = 0x26;

pub const VK_RIGHT: u32 = 0x27;

pub const VK_DOWN: u32 = 0x28;

pub const VK_DELETE: u32 = 0x2E;

pub const VK_OEM_MINUS: u32 = 0xBD;

pub const VK_OEM_PLUS: u32 = 0xBB;

/// `[` and `{`.
pub const VK_OEM_4: u32 = 0xDB;

/// `]` and `}`.
pub const VK_OEM_6: u32 = 0xDD;

#[derive(Clone, Copy, PartialEq, Eq, Structural, Debug)]
pub enum KeystrokeCategory {
    Nothing,
    Composing,
    Candidate,
    Phrase,
    InvokeCompositionEditSession,
    InvokeQuickPhraseEditSession,
    InvokeWildcardCompositionEditSession,
}

#[derive(Clone, Copy, PartialEq, Eq, Structural, Debug)]
pub enum KeystrokeFunction {
    Nothing,
    Input,
    Cancel,
    FinalizeTextStore,
    FinalizeTextstoreAndInput,
    FinalizeCandidateList,
    FinalizeCandidateListAndInput,
    MoveUp,
    MoveDown,
    MoveLeft,
    MoveRight,
    MovePageUp,
    MovePageDown,
    MovePageTop,
    MovePageBottom,
    SelectByNumber,
    Convert,
    ConvertWildcard,
    Backspace,
    PunctuationKey,
    DoubleSingleByte,
    CharacterForm,
    ForgetCandidate,
    SymbolQuery,
    ToggleOptions,
}

/// What a keystroke is taken as.
#[derive(Clone, Copy, PartialEq, Eq, Structural, Debug)]
pub struct KeystrokeState {
    pub category: KeystrokeCategory,
    pub function: KeystrokeFunction,
}

/// The state of a keystroke that is taken as nothing.
pub open spec fn no_keystroke() -> KeystrokeState {
    KeystrokeState { category: KeystrokeCategory::Nothing, function: KeystrokeFunction::Nothing }
}

pub open spec fn keystroke(category: KeystrokeCategory, function: KeystrokeFunction) -> KeystrokeState {
    KeystrokeState { category, function }
}

impl KeystrokeState {
    pub fn none() -> (s: Self)
        ensures
            s == no_keystroke(),
    {
        KeystrokeState { category: KeystrokeCategory::Nothing, function: KeystrokeFunction::Nothing }
    }
}

#[derive(Clone, Copy, PartialEq, Eq, Structural, Debug)]
pub enum CandidateMode {
    Nothing,
    Original,
    Phrase,
    Incremental,
    WithNextComposition,
    Punctuation,
    Options,
}

/// A key of the composition table: a virtual key, the modifiers it needs
/// and what it does.
#[derive(Clone, Copy, PartialEq, Eq, Structural, Debug)]
pub struct Keystroke {
    pub virtual_key: u32,
    pub modifiers: u32,
    pub function: KeystrokeFunction,
}

/// The composition table: the letters `A` to `Z`, then the grave accent that
/// starts a reverse lookup; none needs a modifier and all are input.
pub open spec fn keystroke_table() -> Seq<Keystroke> {
    Seq::new(
        27,
        |i: int|
            Keystroke {
                virtual_key: if i < 26 {
                    (0x41 + i) as u32
                } else {
                    VK_GRAVE
                },
                modifiers: 0,
                function: KeystrokeFunction::Input,
            },
    )
}

fn keystroke_table_vec() -> (table: Vec<Keystroke>)
    ensures
        table@ == keystroke_table(),
{
    let mut table: Vec<Keystroke> = Vec::new();
    let mut i: u32 = 0;
    while i < 26
        invariant
            i <= 26,
            table@ =~= keystroke_table().take(i as int),
        decreases 26 - i,
    {
        table.push(Keystroke { virtual_key: 0x41 + i, modifiers: 0, function: KeystrokeFunction::Input });
        i += 1;
    }
    table.push(Keystroke { virtual_key: VK_GRAVE, modifiers: 0, function: KeystrokeFunction::Input });
    assert(table@ =~= keystroke_table());
    table
}

/// The digit shown for the `i`-th candidate of a page (`0` for the tenth).
pub open spec fn candidate_label(i: int) -> u32 {
    if i + 1 == 10 {
        0
    } else {
        (i + 1) as u32
    }
}

/// The labels of a page of `page_size` candidates.
pub open spec fn candidate_labels(page_size: nat) -> Seq<u32> {
    Seq::new(page_size, |i: int| candidate_label(i))
}

pub struct KeystrokeEngine {
    composition_keys: Vec<Keystroke>,
    candidate_index_range: Vec<u32>,
    phrase_modifier: u32,
}

/// What the keystroke decisions depend on in a `KeystrokeEngine`.
pub struct EngineView {
    pub candidate_index_range: Seq<u32>,
    pub phrase_modifier: u32,
}

impl View for KeystrokeEngine {
    type V = EngineView;

    closed spec fn view(&self) -> EngineView {
        EngineView {
            candidate_index_range: self.candidate_index_range@,
            phrase_modifier: self.phrase_modifier,
        }
    }
}

/// Whether a composition-table key matches the code, the modifiers and the
/// function asked for (`Nothing` asks for any function).
pub open spec fn composition_matches(
    code: u32,
    modifiers: u32,
    function: KeystrokeFunction,
) -> bool {
    exists|i: int|
        0 <= i < keystroke_table().len() && #[trigger] keystroke_table()[i].virtual_key == code
            && modifiers_match(modifiers, keystroke_table()[i].modifiers) && (function
            == KeystrokeFunction::Nothing || function == keystroke_table()[i].function)
}

/// Whether the code is the digit (top row or keypad) of a candidate label.
pub open spec fn is_key_in_range_spec(range: Seq<u32>, code: u32) -> bool {
    exists|i: int|
        0 <= i < range.len() && (#[trigger] range[i] == code.wrapping_sub(0x30) || (0x60 <= code
            <= 0x69 && code - 0x60 == range[i]))
}

/// Whether the modifiers allow choosing a candidate by its number.
pub open spec fn phrase_modifier_ok(phrase_modifier: u32, modifiers: u32) -> bool {
    (phrase_modifier == 0 && modifiers == 0) || (phrase_modifier != 0 && modifiers_match(
        modifiers,
        phrase_modifier,
    ))
}

/// The candidate-number lookup: whether it matched, and the state it leaves.
pub open spec fn keystroke_range(
    view: EngineView,
    code: u32,
    mode: CandidateMode,
    modifiers: u32,
) -> (bool, KeystrokeState) {
    if !is_key_in_range_spec(view.candidate_index_range, code) {
        (false, no_keystroke())
    } else {
        match mode {
            CandidateMode::Phrase => if phrase_modifier_ok(view.phrase_modifier, modifiers) {
                (true, keystroke(KeystrokeCategory::Phrase, KeystrokeFunction::SelectByNumber))
            } else {
                (
                    false,
                    keystroke(
                        KeystrokeCategory::InvokeCompositionEditSession,
                        KeystrokeFunction::FinalizeTextstoreAndInput,
                    ),
                )
            },
            CandidateMode::WithNextComposition => if phrase_modifier_ok(
                view.phrase_modifier,
                modifiers,
            ) {
                (true, keystroke(KeystrokeCategory::Candidate, KeystrokeFunction::SelectByNumber))
            } else {
                (false, no_keystroke())
            },
            CandidateMode::Nothing => (false, no_keystroke()),
            _ => (true, keystroke(KeystrokeCategory::Candidate, KeystrokeFunction::SelectByNumber)),
        }
    }
}

/// The navigation keys of a candidate list, if the code is one.
pub open spec fn navigation_function(code: u32, modifiers: u32) -> Option<KeystrokeFunction> {
    if code == VK_TAB {
        if modifiers_match(modifiers, 0) {
            Some(KeystrokeFunction::MoveDown)
        } else if modifiers_match(modifiers, TF_MOD_SHIFT) {
            Some(KeystrokeFunction::MoveUp)
        } else {
            None
        }
    } else if code == VK_UP {
        Some(KeystrokeFunction::MoveUp)
    } else if code == VK_DOWN {
        Some(KeystrokeFunction::MoveDown)
    } else if code == VK_LEFT || code == VK_PRIOR {
        Some(KeystrokeFunction::MovePageUp)
    } else if code == VK_RIGHT || code == VK_NEXT {
        Some(KeystrokeFunction::MovePageDown)
    } else if code == VK_HOME {
        Some(KeystrokeFunction::MovePageTop)
    } else if code == VK_END {
        Some(KeystrokeFunction::MovePageBottom)
    } else if code == VK_OEM_MINUS || code == VK_OEM_4 {
        if modifiers_match(modifiers, 0) {
            Some(KeystrokeFunction::MovePageUp)
        } else {
            None
        }
    } else if code == VK_OEM_PLUS || code == VK_OEM_6 {
        if modifiers_match(modifiers, 0) {
            Some(KeystrokeFunction::MovePageDown)
        } else {
            None
        }
    } else {
        None
    }
}

/// Control+Shift with Backspace or Delete removes a learned candidate.
pub open spec fn is_forget_key(code: u32, modifiers: u32) -> bool {
    (code == VK_BACK || code == VK_DELETE) && modifiers_match(modifiers, TF_MOD_CONTROL | TF_MOD_SHIFT)
}

/// A key that is input though it is no letter: the apostrophe (in Jyutping,
/// pinyin and structure input) and the tone digits (in stroke input).
pub open spec fn is_non_alphabetic_input(
    code: u32,
    method: ReverseLookupMethod,
    modifiers: u32,
) -> bool {
    modifiers == 0 && match key_for_key_code(code) {
        Some(key) => (key.character == '\'' && (method == ReverseLookupMethod::Nothing || method
            == ReverseLookupMethod::Pinyin || method == ReverseLookupMethod::Structure)) || (method
            == ReverseLookupMethod::Stroke && '1' <= key.character <= '6'),
        None => false,
    }
}

pub open spec fn is_letter_code(code: u32) -> bool {
    0x41 <= code <= 0x5A
}

pub open spec fn is_list_mode(mode: CandidateMode) -> bool {
    mode == CandidateMode::Original || mode == CandidateMode::Phrase || mode
        == CandidateMode::WithNextComposition
}

/// The decision while a punctuation list is shown.
pub open spec fn punctuation_keystroke(
    view: EngineView,
    code: u32,
    modifiers: u32,
) -> (bool, KeystrokeState) {
    if code == VK_RETURN || code == VK_SPACE {
        (true, keystroke(KeystrokeCategory::Candidate, KeystrokeFunction::FinalizeCandidateList))
    } else if code == VK_ESCAPE || code == VK_BACK {
        (true, keystroke(KeystrokeCategory::Candidate, KeystrokeFunction::Cancel))
    } else if navigation_function(code, modifiers) is Some {
        (true, keystroke(KeystrokeCategory::Candidate, navigation_function(code, modifiers)->0))
    } else if keystroke_range(view, code, CandidateMode::Punctuation, modifiers).0 {
        keystroke_range(view, code, CandidateMode::Punctuation, modifiers)
    } else if is_letter_code(code) && (modifiers_match(modifiers, 0) || modifiers_match(
        modifiers,
        TF_MOD_SHIFT,
    )) {
        (
            true,
            keystroke(KeystrokeCategory::Candidate, KeystrokeFunction::FinalizeCandidateListAndInput),
        )
    } else {
        (false, keystroke_range(view, code, CandidateMode::Punctuation, modifiers).1)
    }
}

/// The keys that the composition itself handles while composing.
pub open spec fn composing_key_function(code: u32, mode: CandidateMode) -> Option<KeystrokeState> {
    if mode != CandidateMode::Incremental {
        if code == VK_LEFT {
            Some(keystroke(KeystrokeCategory::Composing, KeystrokeFunction::MoveLeft))
        } else if code == VK_RIGHT {
            Some(keystroke(KeystrokeCategory::Composing, KeystrokeFunction::MoveRight))
        } else if code == VK_RETURN || code == VK_SPACE {
            Some(keystroke(KeystrokeCategory::Composing, KeystrokeFunction::FinalizeTextStore))
        } else if code == VK_ESCAPE {
            Some(keystroke(KeystrokeCategory::Composing, KeystrokeFunction::Cancel))
        } else if code == VK_BACK {
            Some(keystroke(KeystrokeCategory::Composing, KeystrokeFunction::Backspace))
        } else if code == VK_UP {
            Some(keystroke(KeystrokeCategory::Composing, KeystrokeFunction::MoveUp))
        } else if code == VK_DOWN {
            Some(keystroke(KeystrokeCategory::Composing, KeystrokeFunction::MoveDown))
        } else if code == VK_PRIOR {
            Some(keystroke(KeystrokeCategory::Composing, KeystrokeFunction::MovePageUp))
        } else if code == VK_NEXT {
            Some(keystroke(KeystrokeCategory::Composing, KeystrokeFunction::MovePageDown))
        } else if code == VK_HOME {
            Some(keystroke(KeystrokeCategory::Composing, KeystrokeFunction::MovePageTop))
        } else if code == VK_END {
            Some(keystroke(KeystrokeCategory::Composing, KeystrokeFunction::MovePageBottom))
        } else {
            None
        }
    } else {
        if code == VK_RETURN {
            Some(keystroke(KeystrokeCategory::Composing, KeystrokeFunction::FinalizeTextStore))
        } else if code == VK_ESCAPE {
            Some(keystroke(KeystrokeCategory::Candidate, KeystrokeFunction::Cancel))
        } else if code == VK_BACK {
            Some(keystroke(KeystrokeCategory::Composing, KeystrokeFunction::Backspace))
        } else if code == VK_SPACE {
            Some(keystroke(KeystrokeCategory::Candidate, KeystrokeFunction::Convert))
        } else {
            None
        }
    }
}

/// The keys that a candidate list of mode `Original` or
/// `WithNextComposition` handles.
pub open spec fn list_key_function(code: u32, mode: CandidateMode) -> Option<KeystrokeState> {
    if code == VK_RETURN {
        Some(keystroke(KeystrokeCategory::Candidate, KeystrokeFunction::FinalizeCandidateList))
    } else if code == VK_SPACE {
        Some(keystroke(KeystrokeCategory::Candidate, KeystrokeFunction::Convert))
    } else if code == VK_BACK {
        Some(keystroke(KeystrokeCategory::Candidate, KeystrokeFunction::Cancel))
    } else if code == VK_ESCAPE {
        if mode == CandidateMode::WithNextComposition {
            Some(
                keystroke(
                    KeystrokeCategory::InvokeCompositionEditSession,
                    KeystrokeFunction::FinalizeTextStore,
                ),
            )
        } else {
            Some(keystroke(KeystrokeCategory::Candidate, KeystrokeFunction::Cancel))
        }
    } else {
        None
    }
}

/// The keys that a phrase list handles.
pub open spec fn phrase_key_function(code: u32) -> Option<KeystrokeState> {
    if code == VK_RETURN {
        Some(keystroke(KeystrokeCategory::Phrase, KeystrokeFunction::FinalizeCandidateList))
    } else if code == VK_SPACE {
        Some(keystroke(KeystrokeCategory::Phrase, KeystrokeFunction::Convert))
    } else if code == VK_ESCAPE {
        Some(keystroke(KeystrokeCategory::Phrase, KeystrokeFunction::Cancel))
    } else if code == VK_BACK {
        Some(keystroke(KeystrokeCategory::Candidate, KeystrokeFunction::Cancel))
    } else {
        None
    }
}

/// The last steps, once no earlier rule has taken the key: candidate numbers,
/// then a typed character that ends the composition.
pub open spec fn final_keystroke(
    view: EngineView,
    code: u32,
    wch: u16,
    composing: bool,
    mode: CandidateMode,
    modifiers: u32,
) -> (bool, KeystrokeState) {
    let range = keystroke_range(view, code, mode, modifiers);
    if range.0 {
        range
    } else if range.1.category != KeystrokeCategory::Nothing {
        (false, range.1)
    } else if (composing || mode != CandidateMode::Nothing) && wch != 0 {
        if composition_matches(code, modifiers, KeystrokeFunction::Nothing) {
            (false, keystroke(KeystrokeCategory::Composing, KeystrokeFunction::Input))
        } else {
            (
                false,
                keystroke(
                    KeystrokeCategory::InvokeCompositionEditSession,
                    KeystrokeFunction::FinalizeTextStore,
                ),
            )
        }
    } else {
        (false, no_keystroke())
    }
}

/// The steps after the candidate-list rules: the composition's own keys, the
/// list's own keys, then `final_keystroke`.
pub open spec fn late_keystroke(
    view: EngineView,
    code: u32,
    wch: u16,
    composing: bool,
    mode: CandidateMode,
    modifiers: u32,
) -> (bool, KeystrokeState) {
    if composing && composing_key_function(code, mode) is Some {
        (true, composing_key_function(code, mode)->0)
    } else if (mode == CandidateMode::Original || mode == CandidateMode::WithNextComposition)
        && list_key_function(code, mode) is Some {
        (true, list_key_function(code, mode)->0)
    } else if mode == CandidateMode::WithNextComposition && composition_matches(
        code,
        modifiers,
        KeystrokeFunction::Nothing,
    ) {
        (
            true,
            keystroke(KeystrokeCategory::Composing, KeystrokeFunction::FinalizeTextstoreAndInput),
        )
    } else if mode == CandidateMode::Phrase && phrase_key_function(code) is Some {
        (true, phrase_key_function(code)->0)
    } else {
        final_keystroke(view, code, wch, composing, mode, modifiers)
    }
}

/// Whether the input method takes a keystroke, and as what.
pub open spec fn key_need(
    view: EngineView,
    code: u32,
    wch: u16,
    composing_in: bool,
    mode: CandidateMode,
    method: ReverseLookupMethod,
    modifiers: u32,
) -> (bool, KeystrokeState) {
    let composing = composing_in && !is_list_mode(mode);
    let input = keystroke(KeystrokeCategory::Composing, KeystrokeFunction::Input);
    if mode == CandidateMode::Punctuation {
        punctuation_keystroke(view, code, modifiers)
    } else if (composing || mode == CandidateMode::Incremental) && is_non_alphabetic_input(
        code,
        method,
        modifiers,
    ) {
        (true, input)
    } else if (composing || mode == CandidateMode::Incremental || mode == CandidateMode::Nothing)
        && is_letter_code(code) && (modifiers == 0 || modifiers_match(modifiers, TF_MOD_SHIFT)) {
        (true, input)
    } else if (composing || mode == CandidateMode::Incremental || mode == CandidateMode::Nothing)
        && composition_matches(code, modifiers, KeystrokeFunction::Nothing) {
        (true, input)
    } else if is_list_mode(mode) && mode != CandidateMode::Phrase && is_forget_key(code, modifiers) {
        (true, keystroke(KeystrokeCategory::Candidate, KeystrokeFunction::ForgetCandidate))
    } else if is_list_mode(mode) && navigation_function(code, modifiers) is Some {
        (
            true,
            keystroke(
                if mode == CandidateMode::Phrase {
                    KeystrokeCategory::Phrase
                } else {
                    KeystrokeCategory::Candidate
                },
                navigation_function(code, modifiers)->0,
            ),
        )
    } else if is_list_mode(mode) && composition_matches(code, modifiers, KeystrokeFunction::Input) {
        if mode != CandidateMode::Original {
            (true, input)
        } else {
            (
                true,
                keystroke(
                    KeystrokeCategory::Candidate,
                    KeystrokeFunction::FinalizeCandidateListAndInput,
                ),
            )
        }
    } else if mode == CandidateMode::Incremental && is_forget_key(code, modifiers) {
        (true, keystroke(KeystrokeCategory::Candidate, KeystrokeFunction::ForgetCandidate))
    } else if mode == CandidateMode::Incremental && navigation_function(code, modifiers) is Some {
        (true, keystroke(KeystrokeCategory::Candidate, navigation_function(code, modifiers)->0))
    } else if !composing && !is_list_mode(mode) && composition_matches(
        code,
        modifiers,
        KeystrokeFunction::Input,
    ) {
        (true, input)
    } else {
        late_keystroke(view, code, wch, composing, mode, modifiers)
    }
}

fn navigation_key(code: u32, modifiers: u32) -> (r: Option<KeystrokeFunction>)
    ensures
        r == navigation_function(code, modifiers),
{
    if code == VK_TAB {
        if check_modifiers(modifiers, 0) {
            Some(KeystrokeFunction::MoveDown)
        } else if check_modifiers(modifiers, TF_MOD_SHIFT) {
            Some(KeystrokeFunction::MoveUp)
        } else {
            None
        }
    } else if code == VK_UP {
        Some(KeystrokeFunction::MoveUp)
    } else if code == VK_DOWN {
        Some(KeystrokeFunction::MoveDown)
    } else if code == VK_LEFT || code == VK_PRIOR {
        Some(KeystrokeFunction::MovePageUp)
    } else if code == VK_RIGHT || code == VK_NEXT {
        Some(KeystrokeFunction::MovePageDown)
    } else if code == VK_HOME {
        Some(KeystrokeFunction::MovePageTop)
    } else if code == VK_END {
        Some(KeystrokeFunction::MovePageBottom)
    } else if code == VK_OEM_MINUS || code == VK_OEM_4 {
        if check_modifiers(modifiers, 0) {
            Some(KeystrokeFunction::MovePageUp)
        } else {
            None
        }
    } else if code == VK_OEM_PLUS || code == VK_OEM_6 {
        if check_modifiers(modifiers, 0) {
            Some(KeystrokeFunction::MovePageDown)
        } else {
            None
        }
    } else {
        None
    }
}

fn forget_key(code: u32, modifiers: u32) -> (r: bool)
    ensures
        r == is_forget_key(code, modifiers),
{
    (code == VK_BACK || code == VK_DELETE) && check_modifiers(modifiers, TF_MOD_CONTROL | TF_MOD_SHIFT)
}

fn non_alphabetic_input_key(code: u32, method: ReverseLookupMethod, modifiers: u32) -> (r: bool)
    ensures
        r == is_non_alphabetic_input(code, method, modifiers),
{
    if modifiers != 0 {
        return false;
    }
    match VirtualInputKey::for_key_code(code) {
        Some(input_key) => {
            if input_key.is_apostrophe() && (method == ReverseLookupMethod::Nothing || method
                == ReverseLookupMethod::Pinyin || method == ReverseLookupMethod::Structure) {
                return true;
            }
            method == ReverseLookupMethod::Stroke && input_key.is_tone_number()
        },
        None => false,
    }
}

fn composing_key(code: u32, mode: CandidateMode) -> (r: Option<KeystrokeState>)
    ensures
        r == composing_key_function(code, mode),
{
    let c = KeystrokeCategory::Composing;
    if mode != CandidateMode::Incremental {
        if code == VK_LEFT {
            Some(KeystrokeState { category: c, function: KeystrokeFunction::MoveLeft })
        } else if code == VK_RIGHT {
            Some(KeystrokeState { category: c, function: KeystrokeFunction::MoveRight })
        } else if code == VK_RETURN || code == VK_SPACE {
            Some(KeystrokeState { category: c, function: KeystrokeFunction::FinalizeTextStore })
        } else if code == VK_ESCAPE {
            Some(KeystrokeState { category: c, function: KeystrokeFunction::Cancel })
        } else if code == VK_BACK {
            Some(KeystrokeState { category: c, function: KeystrokeFunction::Backspace })
        } else if code == VK_UP {
            Some(KeystrokeState { category: c, function: KeystrokeFunction::MoveUp })
        } else if code == VK_DOWN {
            Some(KeystrokeState { category: c, function: KeystrokeFunction::MoveDown })
        } else if code == VK_PRIOR {
            Some(KeystrokeState { category: c, function: KeystrokeFunction::MovePageUp })
        } else if code == VK_NEXT {
            Some(KeystrokeState { category: c, function: KeystrokeFunction::MovePageDown })
        } else if code == VK_HOME {
            Some(KeystrokeState { category: c, function: KeystrokeFunction::MovePageTop })
        } else if code == VK_END {
            Some(KeystrokeState { category: c, function: KeystrokeFunction::MovePageBottom })
        } else {
            None
        }
    } else {
        if code == VK_RETURN {
            Some(KeystrokeState { category: c, function: KeystrokeFunction::FinalizeTextStore })
        } else if code == VK_ESCAPE {
            Some(
                KeystrokeState {
                    category: KeystrokeCategory::Candidate,
                    function: KeystrokeFunction::Cancel,
                },
            )
        } else if code == VK_BACK {
            Some(KeystrokeState { category: c, function: KeystrokeFunction::Backspace })
        } else if code == VK_SPACE {
            Some(
                KeystrokeState {
                    category: KeystrokeCategory::Candidate,
                    function: KeystrokeFunction::Convert,
                },
            )
        } else {
            None
        }
    }
}

fn list_key(code: u32, mode: CandidateMode) -> (r: Option<KeystrokeState>)
    ensures
        r == list_key_function(code, mode),
{
    let c = KeystrokeCategory::Candidate;
    if code == VK_RETURN {
        Some(KeystrokeState { category: c, function: KeystrokeFunction::FinalizeCandidateList })
    } else if code == VK_SPACE {
        Some(KeystrokeState { category: c, function: KeystrokeFunction::Convert })
    } else if code == VK_BACK {
        Some(KeystrokeState { category: c, function: KeystrokeFunction::Cancel })
    } else if code == VK_ESCAPE {
        if mode == CandidateMode::WithNextComposition {
            Some(
                KeystrokeState {
                    category: KeystrokeCategory::InvokeCompositionEditSession,
                    function: KeystrokeFunction::FinalizeTextStore,
                },
            )
        } else {
            Some(KeystrokeState { category: c, function: KeystrokeFunction::Cancel })
        }
    } else {
        None
    }
}

fn phrase_key(code: u32) -> (r: Option<KeystrokeState>)
    ensures
        r == phrase_key_function(code),
{
    let p = KeystrokeCategory::Phrase;
    if code == VK_RETURN {
        Some(KeystrokeState { category: p, function: KeystrokeFunction::FinalizeCandidateList })
    } else if code == VK_SPACE {
        Some(KeystrokeState { category: p, function: KeystrokeFunction::Convert })
    } else if code == VK_ESCAPE {
        Some(KeystrokeState { category: p, function: KeystrokeFunction::Cancel })
    } else if code == VK_BACK {
        Some(
            KeystrokeState {
                category: KeystrokeCategory::Candidate,
                function: KeystrokeFunction::Cancel,
            },
        )
    } else {
        None
    }
}

impl KeystrokeEngine {
    #[verifier::type_invariant]
    spec fn inv(&self) -> bool {
        self.composition_keys@ == keystroke_table()
    }

    /// A new engine with the default page size and no phrase modifier.
    pub fn new() -> (engine: Self)
        ensures
            engine@.candidate_index_range == candidate_labels(DEFAULT_CANDIDATE_PAGE_SIZE as nat),
            engine@.phrase_modifier == 0,
    {
        let mut engine = KeystrokeEngine {
            composition_keys: keystroke_table_vec(),
            candidate_index_range: Vec::new(),
            phrase_modifier: 0,
        };
        engine.set_candidate_list_range(DEFAULT_CANDIDATE_PAGE_SIZE);
        engine
    }

    /// Labels the candidates of a page of `page_size`: 1 to 9, then 0.
    pub fn set_candidate_list_range(&mut self, page_size: u32)
        ensures
            final(self)@.candidate_index_range == candidate_labels(page_size as nat),
            final(self)@.phrase_modifier == old(self)@.phrase_modifier,
    {
        let mut range: Vec<u32> = Vec::new();
        let mut i: u32 = 0;
        while i < page_size
            invariant
                i <= page_size,
                range@ =~= candidate_labels(page_size as nat).take(i as int),
            decreases page_size - i,
        {
            let label: u32 = if i + 1 == 10 {
                0
            } else {
                i + 1
            };
            range.push(label);
            i += 1;
        }
        assert(range@ =~= candidate_labels(page_size as nat));
        proof {
            use_type_invariant(&*self);
        }
        self.candidate_index_range = range;
    }

    pub fn candidate_list_index_range(&self) -> (range: &[u32])
        ensures
            range@ == self@.candidate_index_range,
    {
        self.candidate_index_range.as_slice()
    }

    pub fn set_phrase_modifier(&mut self, modifier: u32)
        ensures
            final(self)@.phrase_modifier == modifier,
            final(self)@.candidate_index_range == old(self)@.candidate_index_range,
    {
        proof {
            use_type_invariant(&*self);
        }
        self.phrase_modifier = modifier;
    }

    pub fn phrase_modifier(&self) -> (modifier: u32)
        ensures
            modifier == self@.phrase_modifier,
    {
        self.phrase_modifier
    }

    fn is_virtual_key_keystroke_composition(
        &self,
        code: u32,
        modifiers: u32,
        function: KeystrokeFunction,
    ) -> (r: bool)
        ensures
            r == composition_matches(code, modifiers, function),
    {
        proof {
            use_type_invariant(self);
        }
        let mut i: usize = 0;
        while i < self.composition_keys.len()
            invariant
                self.composition_keys@ == keystroke_table(),
                0 <= i <= self.composition_keys@.len(),
                forall|j: int|
                    0 <= j < i ==> !(#[trigger] keystroke_table()[j].virtual_key == code
                        && modifiers_match(modifiers, keystroke_table()[j].modifiers) && (function
                        == KeystrokeFunction::Nothing || function == keystroke_table()[j].function)),
            decreases self.composition_keys.len() - i,
        {
            let key = self.composition_keys[i];
            if key.virtual_key == code && check_modifiers(modifiers, key.modifiers) {
                if function == KeystrokeFunction::Nothing || function == key.function {
                    return true;
                }
            }
            i += 1;
        }
        false
    }

    fn is_key_in_range(&self, code: u32) -> (r: bool)
        ensures
            r == is_key_in_range_spec(self@.candidate_index_range, code),
    {
        let value = code.wrapping_sub(0x30);
        let mut i: usize = 0;
        while i < self.candidate_index_range.len()
            invariant
                0 <= i <= self.candidate_index_range@.len(),
                value == code.wrapping_sub(0x30),
                forall|j: int|
                    0 <= j < i ==> !(#[trigger] self.candidate_index_range@[j] == code.wrapping_sub(
                        0x30,
                    ) || (0x60 <= code <= 0x69 && code - 0x60 == self.candidate_index_range@[j])),
            decreases self.candidate_index_range.len() - i,
        {
            let r = self.candidate_index_range[i];
            if r == value || (0x60 <= code && code <= 0x69 && code - 0x60 == r) {
                return true;
            }
            i += 1;
        }
        false
    }

    fn is_keystroke_range(&self, code: u32, mode: CandidateMode, modifiers: u32) -> (r: (
        bool,
        KeystrokeState,
    ))
        ensures
            r == keystroke_range(self@, code, mode, modifiers),
    {
        let none = KeystrokeState::none();
        if !self.is_key_in_range(code) {
            return (false, none);
        }
        let modifier_ok = (self.phrase_modifier == 0 && modifiers == 0) || (self.phrase_modifier
            != 0 && check_modifiers(modifiers, self.phrase_modifier));
        match mode {
            CandidateMode::Phrase => {
                if modifier_ok {
                    (
                        true,
                        KeystrokeState {
                            category: KeystrokeCategory::Phrase,
                            function: KeystrokeFunction::SelectByNumber,
                        },
                    )
                } else {
                    (
                        false,
                        KeystrokeState {
                            category: KeystrokeCategory::InvokeCompositionEditSession,
                            function: KeystrokeFunction::FinalizeTextstoreAndInput,
                        },
                    )
                }
            },
            CandidateMode::WithNextComposition => {
                if modifier_ok {
                    (
                        true,
                        KeystrokeState {
                            category: KeystrokeCategory::Candidate,
                            function: KeystrokeFunction::SelectByNumber,
                        },
                    )
                } else {
                    (false, none)
                }
            },
            CandidateMode::Nothing => (false, none),
            _ => (
                true,
                KeystrokeState {
                    category: KeystrokeCategory::Candidate,
                    function: KeystrokeFunction::SelectByNumber,
                },
            ),
        }
    }

    /// Decides whether the input method takes the key `code` (`wch` is the
    /// character it types, 0 for none), given whether a composition is in
    /// progress, the candidate list's mode, the reverse-lookup method and the
    /// modifiers held; `state` is set to what the key is taken as.
    pub fn is_virtual_key_need(
        &self,
        code: u32,
        wch: u16,
        composing: bool,
        candidate_mode: CandidateMode,
        method: ReverseLookupMethod,
        modifiers: u32,
        state: &mut KeystrokeState,
    ) -> (r: bool)
        ensures
            (r, *final(state)) == key_need(
                self@,
                code,
                wch,
                composing,
                candidate_mode,
                method,
                modifiers,
            ),
    {
        let (r, s) = self.key_decision(code, wch, composing, candidate_mode, method, modifiers);
        *state = s;
        r
    }

    fn punctuation_decision(&self, code: u32, modifiers: u32) -> (r: (bool, KeystrokeState))
        ensures
            r == punctuation_keystroke(self@, code, modifiers),
    {
        let c = KeystrokeCategory::Candidate;
        if code == VK_RETURN || code == VK_SPACE {
            return (true, KeystrokeState { category: c, function: KeystrokeFunction::FinalizeCandidateList });
        }
        if code == VK_ESCAPE || code == VK_BACK {
            return (true, KeystrokeState { category: c, function: KeystrokeFunction::Cancel });
        }
        if let Some(f) = navigation_key(code, modifiers) {
            return (true, KeystrokeState { category: c, function: f });
        }
        let range = self.is_keystroke_range(code, CandidateMode::Punctuation, modifiers);
        if range.0 {
            return range;
        }
        if VirtualInputKey::is_matched_letter(code) && (check_modifiers(modifiers, 0)
            || check_modifiers(modifiers, TF_MOD_SHIFT)) {
            return (
                true,
                KeystrokeState { category: c, function: KeystrokeFunction::FinalizeCandidateListAndInput },
            );
        }
        (false, range.1)
    }

    fn late_decision(
        &self,
        code: u32,
        wch: u16,
        composing: bool,
        mode: CandidateMode,
        modifiers: u32,
    ) -> (r: (bool, KeystrokeState))
        ensures
            r == late_keystroke(self@, code, wch, composing, mode, modifiers),
    {
        if composing {
            if let Some(s) = composing_key(code, mode) {
                return (true, s);
            }
        }
        if mode == CandidateMode::Original || mode == CandidateMode::WithNextComposition {
            if let Some(s) = list_key(code, mode) {
                return (true, s);
            }
            if mode == CandidateMode::WithNextComposition && self.is_virtual_key_keystroke_composition(
                code,
                modifiers,
                KeystrokeFunction::Nothing,
            ) {
                return (
                    true,
                    KeystrokeState {
                        category: KeystrokeCategory::Composing,
                        function: KeystrokeFunction::FinalizeTextstoreAndInput,
                    },
                );
            }
        }
        if mode == CandidateMode::Phrase {
            if let Some(s) = phrase_key(code) {
                return (true, s);
            }
        }
        let range = self.is_keystroke_range(code, mode, modifiers);
        if range.0 {
            return range;
        }
        if range.1.category != KeystrokeCategory::Nothing {
            return (false, range.1);
        }
        let has_active_input = composing || mode != CandidateMode::Nothing;
        if has_active_input && wch != 0 {
            if self.is_virtual_key_keystroke_composition(code, modifiers, KeystrokeFunction::Nothing) {
                return (
                    false,
                    KeystrokeState {
                        category: KeystrokeCategory::Composing,
                        function: KeystrokeFunction::Input,
                    },
                );
            }
            return (
                false,
                KeystrokeState {
                    category: KeystrokeCategory::InvokeCompositionEditSession,
                    function: KeystrokeFunction::FinalizeTextStore,
                },
            );
        }
        (false, KeystrokeState::none())
    }

    fn key_decision(
        &self,
        code: u32,
        wch: u16,
        composing_in: bool,
        mode: CandidateMode,
        method: ReverseLookupMethod,
        modifiers: u32,
    ) -> (r: (bool, KeystrokeState))
        ensures
            r == key_need(self@, code, wch, composing_in, mode, method, modifiers),
    {
        if mode == CandidateMode::Punctuation {
            return self.punctuation_decision(code, modifiers);
        }
        let list_mode = mode == CandidateMode::Original || mode == CandidateMode::Phrase || mode
            == CandidateMode::WithNextComposition;
        let composing = composing_in && !list_mode;
        let input = KeystrokeState {
            category: KeystrokeCategory::Composing,
            function: KeystrokeFunction::Input,
        };
        if composing || mode == CandidateMode::Incremental || mode == CandidateMode::Nothing {
            if (composing || mode == CandidateMode::Incremental) && non_alphabetic_input_key(
                code,
                method,
                modifiers,
            ) {
                return (true, input);
            }
            if VirtualInputKey::is_matched_letter(code) && (modifiers == 0 || check_modifiers(
                modifiers,
                TF_MOD_SHIFT,
            )) {
                return (true, input);
            }
            if self.is_virtual_key_keystroke_composition(code, modifiers, KeystrokeFunction::Nothing) {
                return (true, input);
            }
        }
        if list_mode {
            let category = if mode == CandidateMode::Phrase {
                KeystrokeCategory::Phrase
            } else {
                KeystrokeCategory::Candidate
            };
            if mode != CandidateMode::Phrase && forget_key(code, modifiers) {
                return (
                    true,
                    KeystrokeState {
                        category: KeystrokeCategory::Candidate,
                        function: KeystrokeFunction::ForgetCandidate,
                    },
                );
            }
            if let Some(f) = navigation_key(code, modifiers) {
                return (true, KeystrokeState { category, function: f });
            }
            if self.is_virtual_key_keystroke_composition(code, modifiers, KeystrokeFunction::Input) {
                if mode != CandidateMode::Original {
                    return (true, input);
                }
                return (
                    true,
                    KeystrokeState {
                        category: KeystrokeCategory::Candidate,
                        function: KeystrokeFunction::FinalizeCandidateListAndInput,
                    },
                );
            }
        } else if mode == CandidateMode::Incremental {
            if forget_key(code, modifiers) {
                return (
                    true,
                    KeystrokeState {
                        category: KeystrokeCategory::Candidate,
                        function: KeystrokeFunction::ForgetCandidate,
                    },
                );
            }
            if let Some(f) = navigation_key(code, modifiers) {
                return (true, KeystrokeState { category: KeystrokeCategory::Candidate, function: f });
            }
        }
        if !composing && !list_mode && self.is_virtual_key_keystroke_composition(
            code,
            modifiers,
            KeystrokeFunction::Input,
        ) {
            return (true, input);
        }
        self.late_decision(code, wch, composing, mode, modifiers)
    }
}


/// A letter typed with no modifier while no candidate list is shown is
/// always taken as composition input.
pub proof fn lemma_letters_are_input(
    view: EngineView,
    code: u32,
    wch: u16,
    composing: bool,
    method: ReverseLookupMethod,
)
    requires
        is_letter_code(code),
    ensures
        key_need(view, code, wch, composing, CandidateMode::Nothing, method, 0) == (
            true,
            keystroke(KeystrokeCategory::Composing, KeystrokeFunction::Input),
        ),
{
}

/// A digit (top row or keypad) that labels a candidate of the page chooses
/// that candidate while a list of mode `Original` is shown and no modifier
/// is held.
pub proof fn lemma_label_digits_select(view: EngineView, label: u32, keypad: bool, wch: u16, composing: bool, method: ReverseLookupMethod)
    requires
        label <= 9,
        view.candidate_index_range.contains(label),
    ensures
        key_need(
            view,
            if keypad { (0x60 + label) as u32 } else { (0x30 + label) as u32 },
            wch,
            composing,
            CandidateMode::Original,
            method,
            0,
        ) == (true, keystroke(KeystrokeCategory::Candidate, KeystrokeFunction::SelectByNumber)),
{
    let code: u32 = if keypad { (0x60 + label) as u32 } else { (0x30 + label) as u32 };
    let i = choose|i: int| 0 <= i < view.candidate_index_range.len() && view.candidate_index_range[i] == label;
    if keypad {
        assert(0x60 <= code <= 0x69 && code - 0x60 == view.candidate_index_range[i]);
    } else {
        assert(code.wrapping_sub(0x30) == label);
        assert(view.candidate_index_range[i] == code.wrapping_sub(0x30));
    }
    assert(is_key_in_range_spec(view.candidate_index_range, code));
    assert(!composition_matches(code, 0, KeystrokeFunction::Input));
}

} // verus!
