use vstd::prelude::*;

verus! {

pub const CURRENT_SETTINGS_VERSION: u32 = 1;
pub const MINIMUM_CANDIDATE_FONT_SIZE: u32 = 11;
pub const MAXIMUM_CANDIDATE_FONT_SIZE: u32 = 24;
pub const DEFAULT_CANDIDATE_FONT_SIZE: u32 = 16;
pub const DEFAULT_CANDIDATE_NUMBER_FONT_SIZE: u32 = 13;
pub const DEFAULT_CANDIDATE_COMMENT_FONT_SIZE: u32 = 13;
pub const DEFAULT_CANDIDATE_PAGE_SIZE: u32 = 7;
pub const MINIMUM_CANDIDATE_PAGE_SIZE: u32 = 1;
pub const MAXIMUM_CANDIDATE_PAGE_SIZE: u32 = 10;

/// Modifier flag for either Alt key.
pub const TF_MOD_ALT: u32 = 0x0001;
/// Modifier flag for either Control key.
pub const TF_MOD_CONTROL: u32 = 0x0002;
/// Modifier flag for either Shift key.
pub const TF_MOD_SHIFT: u32 = 0x0004;

#[derive(Clone, Copy, PartialEq, Eq, Structural, Debug)]
pub enum InputMethodMode {
    Cantonese,
    Abc,
}

#[derive(Clone, Copy, PartialEq, Eq, Structural, Debug)]
pub enum CharacterForm {
    HalfWidth,
    FullWidth,
}

#[derive(Clone, Copy, PartialEq, Eq, Structural, Debug)]
pub enum PunctuationForm {
    Cantonese,
    English,
}

#[derive(Clone, Copy, PartialEq, Eq, Structural, Debug)]
pub enum CharacterVariant {
    Traditional,
    HongKong,
    Taiwan,
    Simplified,
}

impl CharacterVariant {
    /// The variant stored under a raw registry number; unknown numbers mean
    /// traditional characters.
    pub fn from_raw(value: u32) -> (variant: Self)
        ensures
            variant == (if value == 2 {
                CharacterVariant::HongKong
            } else if value == 3 {
                CharacterVariant::Taiwan
            } else if value == 4 {
                CharacterVariant::Simplified
            } else {
                CharacterVariant::Traditional
            }),
    {
        match value {
            2 => CharacterVariant::HongKong,
            3 => CharacterVariant::Taiwan,
            4 => CharacterVariant::Simplified,
            _ => CharacterVariant::Traditional,
        }
    }

    /// The raw registry number of the variant.
    pub fn to_raw(self) -> (value: u32)
        ensures
            value == (match self {
                CharacterVariant::Traditional => 1u32,
                CharacterVariant::HongKong => 2u32,
                CharacterVariant::Taiwan => 3u32,
                CharacterVariant::Simplified => 4u32,
            }),
    {
        match self {
            CharacterVariant::Traditional => 1,
            CharacterVariant::HongKong => 2,
            CharacterVariant::Taiwan => 3,
            CharacterVariant::Simplified => 4,
        }
    }
}

/// The settings of the input method.
pub struct ImeSettings {
    pub version: u32,
    pub input_method_mode: InputMethodMode,
    pub character_form: CharacterForm,
    pub punctuation_form: PunctuationForm,
    pub character_variant: CharacterVariant,
    pub candidate_page_size: u32,
    pub candidate_font_size: u32,
    pub candidate_number_font_size: u32,
    pub candidate_comment_font_size: u32,
    /// Hotkeys that toggle the options menu: (virtual key, modifier flags).
    pub options_menu_keys: Vec<(u32, u32)>,
    /// Candidate window colors as COLORREF (0x00BBGGRR).
    pub candidate_text_color: u32,
    pub candidate_back_color: u32,
    pub candidate_select_color: u32,
    pub candidate_comment_color: u32,
    /// User interface language: "auto" (system), "en" or "zh".
    pub ui_language: String,
    /// Whether the standalone tray icon is shown.
    pub display_tray_icon: bool,
}

/// The settings as mathematical values.
pub struct SettingsModel {
    pub version: u32,
    pub input_method_mode: InputMethodMode,
    pub character_form: CharacterForm,
    pub punctuation_form: PunctuationForm,
    pub character_variant: CharacterVariant,
    pub candidate_page_size: u32,
    pub candidate_font_size: u32,
    pub candidate_number_font_size: u32,
    pub candidate_comment_font_size: u32,
    pub options_menu_keys: Seq<(u32, u32)>,
    pub candidate_text_color: u32,
    pub candidate_back_color: u32,
    pub candidate_select_color: u32,
    pub candidate_comment_color: u32,
    pub ui_language: Seq<char>,
    pub display_tray_icon: bool,
}

impl View for ImeSettings {
    type V = SettingsModel;

    open spec fn view(&self) -> SettingsModel {
        SettingsModel {
            version: self.version,
            input_method_mode: self.input_method_mode,
            character_form: self.character_form,
            punctuation_form: self.punctuation_form,
            character_variant: self.character_variant,
            candidate_page_size: self.candidate_page_size,
            candidate_font_size: self.candidate_font_size,
            candidate_number_font_size: self.candidate_number_font_size,
            candidate_comment_font_size: self.candidate_comment_font_size,
            options_menu_keys: self.options_menu_keys@,
            candidate_text_color: self.candidate_text_color,
            candidate_back_color: self.candidate_back_color,
            candidate_select_color: self.candidate_select_color,
            candidate_comment_color: self.candidate_comment_color,
            ui_language: self.ui_language@,
            display_tray_icon: self.display_tray_icon,
        }
    }
}

/// The settings in force when nothing has been configured.
pub open spec fn default_settings_model() -> SettingsModel {
    SettingsModel {
        version: CURRENT_SETTINGS_VERSION,
        input_method_mode: InputMethodMode::Cantonese,
        character_form: CharacterForm::HalfWidth,
        punctuation_form: PunctuationForm::Cantonese,
        character_variant: CharacterVariant::Traditional,
        candidate_page_size: DEFAULT_CANDIDATE_PAGE_SIZE,
        candidate_font_size: DEFAULT_CANDIDATE_FONT_SIZE,
        candidate_number_font_size: DEFAULT_CANDIDATE_NUMBER_FONT_SIZE,
        candidate_comment_font_size: DEFAULT_CANDIDATE_COMMENT_FONT_SIZE,
        options_menu_keys: seq![(0xC0u32, TF_MOD_CONTROL)],
        candidate_text_color: 0x00000000,
        candidate_back_color: 0x00FFFFFF,
        candidate_select_color: 0x00F0D8B0,
        candidate_comment_color: 0x00606060,
        ui_language: seq!['a', 'u', 't', 'o'],
        display_tray_icon: false,
    }
}

impl Default for ImeSettings {
    fn default() -> (settings: Self)
        ensures
            settings@ == default_settings_model(),
    {
        let mut keys: Vec<(u32, u32)> = Vec::new();
        keys.push((0xC0, TF_MOD_CONTROL));
        let language = crate::text::string_from_chars(&['a', 'u', 't', 'o']);
        assert(keys@ =~= seq![(0xC0u32, TF_MOD_CONTROL)]);
        ImeSettings {
            version: CURRENT_SETTINGS_VERSION,
            input_method_mode: InputMethodMode::Cantonese,
            character_form: CharacterForm::HalfWidth,
            punctuation_form: PunctuationForm::Cantonese,
            character_variant: CharacterVariant::Traditional,
            candidate_page_size: DEFAULT_CANDIDATE_PAGE_SIZE,
            candidate_font_size: DEFAULT_CANDIDATE_FONT_SIZE,
            candidate_number_font_size: DEFAULT_CANDIDATE_NUMBER_FONT_SIZE,
            candidate_comment_font_size: DEFAULT_CANDIDATE_COMMENT_FONT_SIZE,
            options_menu_keys: keys,
            candidate_text_color: 0x00000000,
            candidate_back_color: 0x00FFFFFF,
            candidate_select_color: 0x00F0D8B0,
            candidate_comment_color: 0x00606060,
            ui_language: language,
            display_tray_icon: false,
        }
    }
}

/// `value` clamped to `[low, high]`.
pub open spec fn clamped(value: u32, low: u32, high: u32) -> u32 {
    if value < low {
        low
    } else if value > high {
        high
    } else {
        value
    }
}

/// A raw page size brought into the supported range.
pub fn candidate_page_size_from_raw(value: u32) -> (size: u32)
    ensures
        size == clamped(value, MINIMUM_CANDIDATE_PAGE_SIZE, MAXIMUM_CANDIDATE_PAGE_SIZE),
        MINIMUM_CANDIDATE_PAGE_SIZE <= size <= MAXIMUM_CANDIDATE_PAGE_SIZE,
{
    if value < MINIMUM_CANDIDATE_PAGE_SIZE {
        MINIMUM_CANDIDATE_PAGE_SIZE
    } else if value > MAXIMUM_CANDIDATE_PAGE_SIZE {
        MAXIMUM_CANDIDATE_PAGE_SIZE
    } else {
        value
    }
}

/// A raw font size brought into the supported range.
pub fn candidate_font_size_from_raw(value: u32) -> (size: u32)
    ensures
        size == clamped(value, MINIMUM_CANDIDATE_FONT_SIZE, MAXIMUM_CANDIDATE_FONT_SIZE),
        MINIMUM_CANDIDATE_FONT_SIZE <= size <= MAXIMUM_CANDIDATE_FONT_SIZE,
{
    if value < MINIMUM_CANDIDATE_FONT_SIZE {
        MINIMUM_CANDIDATE_FONT_SIZE
    } else if value > MAXIMUM_CANDIDATE_FONT_SIZE {
        MAXIMUM_CANDIDATE_FONT_SIZE
    } else {
        value
    }
}

/// The mode stored under a raw registry number (2 is ABC, all else Cantonese).
pub fn input_method_mode_from_raw(value: u32) -> (mode: InputMethodMode)
    ensures
        mode == (if value == 2 {
            InputMethodMode::Abc
        } else {
            InputMethodMode::Cantonese
        }),
{
    if value == 2 {
        InputMethodMode::Abc
    } else {
        InputMethodMode::Cantonese
    }
}

/// The form stored under a raw registry number (2 is full width, all else half).
pub fn character_form_from_raw(value: u32) -> (form: CharacterForm)
    ensures
        form == (if value == 2 {
            CharacterForm::FullWidth
        } else {
            CharacterForm::HalfWidth
        }),
{
    if value == 2 {
        CharacterForm::FullWidth
    } else {
        CharacterForm::HalfWidth
    }
}

/// The form stored under a raw registry number (2 is English, all else Cantonese).
pub fn punctuation_form_from_raw(value: u32) -> (form: PunctuationForm)
    ensures
        form == (if value == 2 {
            PunctuationForm::English
        } else {
            PunctuationForm::Cantonese
        }),
{
    if value == 2 {
        PunctuationForm::English
    } else {
        PunctuationForm::Cantonese
    }
}

impl InputMethodMode {
    /// The raw registry number of the mode.
    pub fn to_raw(self) -> (value: u32)
        ensures
            value == (if self == InputMethodMode::Abc { 2u32 } else { 1u32 }),
    {
        match self {
            InputMethodMode::Cantonese => 1,
            InputMethodMode::Abc => 2,
        }
    }
}

impl CharacterForm {
    /// The raw registry number of the form.
    pub fn to_raw(self) -> (value: u32)
        ensures
            value == (if self == CharacterForm::FullWidth { 2u32 } else { 1u32 }),
    {
        match self {
            CharacterForm::HalfWidth => 1,
            CharacterForm::FullWidth => 2,
        }
    }
}

impl PunctuationForm {
    /// The raw registry number of the form.
    pub fn to_raw(self) -> (value: u32)
        ensures
            value == (if self == PunctuationForm::English { 2u32 } else { 1u32 }),
    {
        match self {
            PunctuationForm::Cantonese => 1,
            PunctuationForm::English => 2,
        }
    }
}

/// Raw registry numbers that the settings store keeps, in the order
/// version, mode, character form, punctuation form, variant, page size,
/// font size, number font size, comment font size. Sizes are clamped.
pub fn settings_to_raw(settings: &ImeSettings) -> (raw: [u32; 9])
    ensures
        raw@ == seq![
            settings.version,
            if settings.input_method_mode == InputMethodMode::Abc { 2u32 } else { 1u32 },
            if settings.character_form == CharacterForm::FullWidth { 2u32 } else { 1u32 },
            if settings.punctuation_form == PunctuationForm::English { 2u32 } else { 1u32 },
            match settings.character_variant {
                CharacterVariant::Traditional => 1u32,
                CharacterVariant::HongKong => 2u32,
                CharacterVariant::Taiwan => 3u32,
                CharacterVariant::Simplified => 4u32,
            },
            clamped(settings.candidate_page_size, MINIMUM_CANDIDATE_PAGE_SIZE, MAXIMUM_CANDIDATE_PAGE_SIZE),
            clamped(settings.candidate_font_size, MINIMUM_CANDIDATE_FONT_SIZE, MAXIMUM_CANDIDATE_FONT_SIZE),
            clamped(settings.candidate_number_font_size, MINIMUM_CANDIDATE_FONT_SIZE, MAXIMUM_CANDIDATE_FONT_SIZE),
            clamped(settings.candidate_comment_font_size, MINIMUM_CANDIDATE_FONT_SIZE, MAXIMUM_CANDIDATE_FONT_SIZE),
        ],
{
    let raw = [
        settings.version,
        settings.input_method_mode.to_raw(),
        settings.character_form.to_raw(),
        settings.punctuation_form.to_raw(),
        settings.character_variant.to_raw(),
        candidate_page_size_from_raw(settings.candidate_page_size),
        candidate_font_size_from_raw(settings.candidate_font_size),
        candidate_font_size_from_raw(settings.candidate_number_font_size),
        candidate_font_size_from_raw(settings.candidate_comment_font_size),
    ];
    assert(raw@ =~= seq![
            settings.version,
            if settings.input_method_mode == InputMethodMode::Abc { 2u32 } else { 1u32 },
            if settings.character_form == CharacterForm::FullWidth { 2u32 } else { 1u32 },
            if settings.punctuation_form == PunctuationForm::English { 2u32 } else { 1u32 },
            match settings.character_variant {
                CharacterVariant::Traditional => 1u32,
                CharacterVariant::HongKong => 2u32,
                CharacterVariant::Taiwan => 3u32,
                CharacterVariant::Simplified => 4u32,
            },
            clamped(settings.candidate_page_size, MINIMUM_CANDIDATE_PAGE_SIZE, MAXIMUM_CANDIDATE_PAGE_SIZE),
            clamped(settings.candidate_font_size, MINIMUM_CANDIDATE_FONT_SIZE, MAXIMUM_CANDIDATE_FONT_SIZE),
            clamped(settings.candidate_number_font_size, MINIMUM_CANDIDATE_FONT_SIZE, MAXIMUM_CANDIDATE_FONT_SIZE),
            clamped(settings.candidate_comment_font_size, MINIMUM_CANDIDATE_FONT_SIZE, MAXIMUM_CANDIDATE_FONT_SIZE),
        ]);
    raw
}

/// Settings read back from raw registry numbers: defaults, overridden by each
/// number that is present (`None` where the store holds no value), in the
/// order of `settings_to_raw`.
pub fn settings_from_raw(raw: [Option<u32>; 9]) -> (settings: ImeSettings)
    ensures
        settings@.version == (match raw@[0] { Some(v) => v, None => CURRENT_SETTINGS_VERSION }),
        settings@.input_method_mode == (match raw@[1] {
            Some(v) => (if v == 2 { InputMethodMode::Abc } else { InputMethodMode::Cantonese }),
            None => InputMethodMode::Cantonese,
        }),
        settings@.character_form == (match raw@[2] {
            Some(v) => (if v == 2 { CharacterForm::FullWidth } else { CharacterForm::HalfWidth }),
            None => CharacterForm::HalfWidth,
        }),
        settings@.punctuation_form == (match raw@[3] {
            Some(v) => (if v == 2 { PunctuationForm::English } else { PunctuationForm::Cantonese }),
            None => PunctuationForm::Cantonese,
        }),
        settings@.character_variant == (match raw@[4] {
            Some(v) => (if v == 2 {
                CharacterVariant::HongKong
            } else if v == 3 {
                CharacterVariant::Taiwan
            } else if v == 4 {
                CharacterVariant::Simplified
            } else {
                CharacterVariant::Traditional
            }),
            None => CharacterVariant::Traditional,
        }),
        settings@.candidate_page_size == (match raw@[5] {
            Some(v) => clamped(v, MINIMUM_CANDIDATE_PAGE_SIZE, MAXIMUM_CANDIDATE_PAGE_SIZE),
            None => DEFAULT_CANDIDATE_PAGE_SIZE,
        }),
        settings@.candidate_font_size == (match raw@[6] {
            Some(v) => clamped(v, MINIMUM_CANDIDATE_FONT_SIZE, MAXIMUM_CANDIDATE_FONT_SIZE),
            None => DEFAULT_CANDIDATE_FONT_SIZE,
        }),
        settings@.candidate_number_font_size == (match raw@[7] {
            Some(v) => clamped(v, MINIMUM_CANDIDATE_FONT_SIZE, MAXIMUM_CANDIDATE_FONT_SIZE),
            None => DEFAULT_CANDIDATE_NUMBER_FONT_SIZE,
        }),
        settings@.candidate_comment_font_size == (match raw@[8] {
            Some(v) => clamped(v, MINIMUM_CANDIDATE_FONT_SIZE, MAXIMUM_CANDIDATE_FONT_SIZE),
            None => DEFAULT_CANDIDATE_COMMENT_FONT_SIZE,
        }),
        settings@.options_menu_keys == default_settings_model().options_menu_keys,
        settings@.candidate_text_color == default_settings_model().candidate_text_color,
        settings@.candidate_back_color == default_settings_model().candidate_back_color,
        settings@.candidate_select_color == default_settings_model().candidate_select_color,
        settings@.candidate_comment_color == default_settings_model().candidate_comment_color,
        settings@.ui_language == default_settings_model().ui_language,
        settings@.display_tray_icon == default_settings_model().display_tray_icon,
{
    let mut settings = ImeSettings::default();
    if let Some(v) = raw[0] {
        settings.version = v;
    }
    if let Some(v) = raw[1] {
        settings.input_method_mode = input_method_mode_from_raw(v);
    }
    if let Some(v) = raw[2] {
        settings.character_form = character_form_from_raw(v);
    }
    if let Some(v) = raw[3] {
        settings.punctuation_form = punctuation_form_from_raw(v);
    }
    if let Some(v) = raw[4] {
        settings.character_variant = CharacterVariant::from_raw(v);
    }
    if let Some(v) = raw[5] {
        settings.candidate_page_size = candidate_page_size_from_raw(v);
    }
    if let Some(v) = raw[6] {
        settings.candidate_font_size = candidate_font_size_from_raw(v);
    }
    if let Some(v) = raw[7] {
        settings.candidate_number_font_size = candidate_font_size_from_raw(v);
    }
    if let Some(v) = raw[8] {
        settings.candidate_comment_font_size = candidate_font_size_from_raw(v);
    }
    settings
}

impl ImeSettings {
    /// Chooses the character variant; false when it was already chosen.
    pub fn set_character_variant(&mut self, variant: CharacterVariant) -> (changed: bool)
        ensures
            changed == (old(self).character_variant != variant),
            final(self)@ == (SettingsModel { character_variant: variant, ..old(self)@ }),
    {
        if self.character_variant == variant {
            return false;
        }
        self.character_variant = variant;
        true
    }

    /// Sets the page size, brought into its range; false when it was
    /// already that.
    pub fn set_candidate_page_size(&mut self, page_size: u32) -> (changed: bool)
        ensures
            ({
                let size = clamped(page_size, MINIMUM_CANDIDATE_PAGE_SIZE, MAXIMUM_CANDIDATE_PAGE_SIZE);
                &&& changed == (old(self).candidate_page_size != size)
                &&& final(self)@ == (SettingsModel { candidate_page_size: size, ..old(self)@ })
            }),
    {
        let size = candidate_page_size_from_raw(page_size);
        if self.candidate_page_size == size {
            return false;
        }
        self.candidate_page_size = size;
        true
    }

    /// Chooses the punctuation form; false when it was already chosen.
    pub fn set_punctuation_form(&mut self, form: PunctuationForm) -> (changed: bool)
        ensures
            changed == (old(self).punctuation_form != form),
            final(self)@ == (SettingsModel { punctuation_form: form, ..old(self)@ }),
    {
        if self.punctuation_form == form {
            return false;
        }
        self.punctuation_form = form;
        true
    }

    /// Chooses the character form; false when it was already chosen.
    pub fn set_character_form(&mut self, form: CharacterForm) -> (changed: bool)
        ensures
            changed == (old(self).character_form != form),
            final(self)@ == (SettingsModel { character_form: form, ..old(self)@ }),
    {
        if self.character_form == form {
            return false;
        }
        self.character_form = form;
        true
    }

    /// Sets the candidate font size, brought into its range; false when it
    /// was already that.
    pub fn set_candidate_font_size(&mut self, size: u32) -> (changed: bool)
        ensures
            ({
                let s = clamped(size, MINIMUM_CANDIDATE_FONT_SIZE, MAXIMUM_CANDIDATE_FONT_SIZE);
                &&& changed == (old(self).candidate_font_size != s)
                &&& final(self)@ == (SettingsModel { candidate_font_size: s, ..old(self)@ })
            }),
    {
        let s = candidate_font_size_from_raw(size);
        if self.candidate_font_size == s {
            return false;
        }
        self.candidate_font_size = s;
        true
    }

    /// Sets the font size of the candidate numbers, brought into its range;
    /// false when it was already that.
    pub fn set_candidate_number_font_size(&mut self, size: u32) -> (changed: bool)
        ensures
            ({
                let s = clamped(size, MINIMUM_CANDIDATE_FONT_SIZE, MAXIMUM_CANDIDATE_FONT_SIZE);
                &&& changed == (old(self).candidate_number_font_size != s)
                &&& final(self)@ == (SettingsModel { candidate_number_font_size: s, ..old(self)@ })
            }),
    {
        let s = candidate_font_size_from_raw(size);
        if self.candidate_number_font_size == s {
            return false;
        }
        self.candidate_number_font_size = s;
        true
    }

    /// Sets the font size of the candidate comments, brought into its
    /// range; false when it was already that.
    pub fn set_candidate_comment_font_size(&mut self, size: u32) -> (changed: bool)
        ensures
            ({
                let s = clamped(size, MINIMUM_CANDIDATE_FONT_SIZE, MAXIMUM_CANDIDATE_FONT_SIZE);
                &&& changed == (old(self).candidate_comment_font_size != s)
                &&& final(self)@ == (SettingsModel { candidate_comment_font_size: s, ..old(self)@ })
            }),
    {
        let s = candidate_font_size_from_raw(size);
        if self.candidate_comment_font_size == s {
            return false;
        }
        self.candidate_comment_font_size = s;
        true
    }

    /// Sets the input method mode; false when it was already that.
    pub fn set_input_method_mode(&mut self, mode: InputMethodMode) -> (changed: bool)
        ensures
            changed == (old(self).input_method_mode != mode),
            final(self)@ == (SettingsModel { input_method_mode: mode, ..old(self)@ }),
    {
        if self.input_method_mode == mode {
            return false;
        }
        self.input_method_mode = mode;
        true
    }
}

/// Whether the keyboard is open in a mode: open for Cantonese, closed for ABC.
pub fn keyboard_open_from_mode(mode: InputMethodMode) -> (open: bool)
    ensures
        open == (mode == InputMethodMode::Cantonese),
{
    mode == InputMethodMode::Cantonese
}

/// The mode of an open or closed keyboard.
pub fn input_method_mode_from_open(open: bool) -> (mode: InputMethodMode)
    ensures
        mode == if open { InputMethodMode::Cantonese } else { InputMethodMode::Abc },
{
    if open {
        InputMethodMode::Cantonese
    } else {
        InputMethodMode::Abc
    }
}

/// Whether a character form is full width.
pub fn full_width_from_form(form: CharacterForm) -> (full: bool)
    ensures
        full == (form == CharacterForm::FullWidth),
{
    form == CharacterForm::FullWidth
}

/// The character form of a full-width flag.
pub fn character_form_from_full_width(full: bool) -> (form: CharacterForm)
    ensures
        form == if full { CharacterForm::FullWidth } else { CharacterForm::HalfWidth },
{
    if full {
        CharacterForm::FullWidth
    } else {
        CharacterForm::HalfWidth
    }
}

/// Whether a punctuation form is Cantonese.
pub fn cantonese_punctuation_from_form(form: PunctuationForm) -> (cantonese: bool)
    ensures
        cantonese == (form == PunctuationForm::Cantonese),
{
    form == PunctuationForm::Cantonese
}

/// The punctuation form of a Cantonese-punctuation flag.
pub fn punctuation_form_from_cantonese(cantonese: bool) -> (form: PunctuationForm)
    ensures
        form == if cantonese { PunctuationForm::Cantonese } else { PunctuationForm::English },
{
    if cantonese {
        PunctuationForm::Cantonese
    } else {
        PunctuationForm::English
    }
}

} // verus!
