//! The settings menu of the language bar: its entries, with the current
//! settings checked, and the command each entry stands for.
use vstd::prelude::*;
use crate::settings::{
    CharacterForm, CharacterVariant, ImeSettings, PunctuationForm, MAXIMUM_CANDIDATE_FONT_SIZE,
    MINIMUM_CANDIDATE_FONT_SIZE,
};
use crate::text::{decimal_chars, decimal_text, string_from_chars, string_of};

verus! {

pub const CANDIDATE_FONT_SIZE: u32 = 1;

pub const CANDIDATE_FONT_SIZE_FIRST: u32 = CANDIDATE_FONT_SIZE + 1;

pub const CANDIDATE_FONT_SIZE_LAST: u32 = CANDIDATE_FONT_SIZE_FIRST + MAXIMUM_CANDIDATE_FONT_SIZE
    - MINIMUM_CANDIDATE_FONT_SIZE;

pub const CANDIDATE_NUMBER_FONT_SIZE: u32 = CANDIDATE_FONT_SIZE_LAST + 1;

pub const CANDIDATE_NUMBER_FONT_SIZE_FIRST: u32 = CANDIDATE_NUMBER_FONT_SIZE + 1;

pub const CANDIDATE_NUMBER_FONT_SIZE_LAST: u32 = CANDIDATE_NUMBER_FONT_SIZE_FIRST
    + MAXIMUM_CANDIDATE_FONT_SIZE - MINIMUM_CANDIDATE_FONT_SIZE;

pub const CANDIDATE_COMMENT_FONT_SIZE: u32 = CANDIDATE_NUMBER_FONT_SIZE_LAST + 1;

pub const CANDIDATE_COMMENT_FONT_SIZE_FIRST: u32 = CANDIDATE_COMMENT_FONT_SIZE + 1;

pub const CANDIDATE_COMMENT_FONT_SIZE_LAST: u32 = CANDIDATE_COMMENT_FONT_SIZE_FIRST
    + MAXIMUM_CANDIDATE_FONT_SIZE - MINIMUM_CANDIDATE_FONT_SIZE;

pub const CANDIDATE_PAGE_SIZE: u32 = CANDIDATE_COMMENT_FONT_SIZE_LAST + 1;

pub const CANDIDATE_PAGE_SIZE_FIRST: u32 = CANDIDATE_PAGE_SIZE + 1;

pub const CANDIDATE_PAGE_SIZE_LAST: u32 = CANDIDATE_PAGE_SIZE_FIRST + 9;

pub const PUNCTUATION_FORM: u32 = CANDIDATE_PAGE_SIZE_LAST + 1;

pub const PUNCTUATION_FORM_CANTONESE: u32 = PUNCTUATION_FORM + 1;

pub const PUNCTUATION_FORM_ENGLISH: u32 = PUNCTUATION_FORM_CANTONESE + 1;

pub const CHARACTER_FORM: u32 = PUNCTUATION_FORM_ENGLISH + 1;

pub const CHARACTER_FORM_HALF_WIDTH: u32 = CHARACTER_FORM + 1;

pub const CHARACTER_FORM_FULL_WIDTH: u32 = CHARACTER_FORM_HALF_WIDTH + 1;

pub const CHARACTER_VARIANT: u32 = CHARACTER_FORM_FULL_WIDTH + 1;

pub const CHARACTER_VARIANT_TRADITIONAL: u32 = CHARACTER_VARIANT + 1;

pub const CHARACTER_VARIANT_HONGKONG: u32 = CHARACTER_VARIANT_TRADITIONAL + 1;

pub const CHARACTER_VARIANT_TAIWAN: u32 = CHARACTER_VARIANT_HONGKONG + 1;

pub const CHARACTER_VARIANT_SIMPLIFIED: u32 = CHARACTER_VARIANT_TAIWAN + 1;

pub const SEPARATOR: u32 = CHARACTER_VARIANT_SIMPLIFIED + 1;

pub const MORE_SETTINGS: u32 = SEPARATOR + 1;

/// The font size an entry of a font-size submenu stands for.
pub fn font_size_from_id(first_id: u32, id: u32) -> (size: u32)
    requires
        MINIMUM_CANDIDATE_FONT_SIZE + id <= u32::MAX,
        first_id <= MINIMUM_CANDIDATE_FONT_SIZE + id,
    ensures
        size == MINIMUM_CANDIDATE_FONT_SIZE + id - first_id,
{
    MINIMUM_CANDIDATE_FONT_SIZE + id - first_id
}

/// The entry of a font-size submenu that stands for a font size.
pub fn font_size_id(first_id: u32, font_size: u32) -> (id: u32)
    requires
        first_id + font_size <= u32::MAX,
        MINIMUM_CANDIDATE_FONT_SIZE <= first_id + font_size,
    ensures
        id == first_id + font_size - MINIMUM_CANDIDATE_FONT_SIZE,
{
    first_id + font_size - MINIMUM_CANDIDATE_FONT_SIZE
}

/// The entry of the page-size submenu that stands for a page size.
pub fn page_size_id(page_size: u32) -> (id: u32)
    requires
        CANDIDATE_PAGE_SIZE_FIRST + page_size <= u32::MAX,
    ensures
        id == CANDIDATE_PAGE_SIZE_FIRST + page_size - 1,
{
    CANDIDATE_PAGE_SIZE_FIRST + page_size - 1
}

/// The page size an entry of the page-size submenu stands for.
pub fn page_size_from_id(id: u32) -> (page_size: u32)
    requires
        CANDIDATE_PAGE_SIZE_FIRST <= id,
    ensures
        page_size == id - CANDIDATE_PAGE_SIZE_FIRST + 1,
{
    id - CANDIDATE_PAGE_SIZE_FIRST + 1
}

/// An entry of the settings menu.
pub enum MenuItem {
    Command { id: u32, text: String, enabled: bool, checked: bool },
    Submenu { id: u32, text: String, children: Vec<MenuItem> },
    Separator,
}

/// What an entry of the settings menu does when chosen.
#[derive(Clone, Copy, PartialEq, Eq, Structural, Debug)]
pub enum MenuCommand {
    SetCandidateFontSize(u32),
    SetCandidateNumberFontSize(u32),
    SetCandidateCommentFontSize(u32),
    SetCandidatePageSize(u32),
    SetPunctuationForm(PunctuationForm),
    SetCharacterForm(CharacterForm),
    SetCharacterVariant(CharacterVariant),
    /// Opens the settings center.
    OpenSettingsCenter,
    /// Nothing (a submenu, the separator, or an unknown entry).
    Nothing,
}

/// An enabled command entry with the given id, text and check mark.
pub open spec fn is_command(item: MenuItem, id: u32, text: Seq<char>, checked: bool) -> bool {
    item matches MenuItem::Command { id: i, text: t, enabled: e, checked: c } && i == id && t@ == text
        && e && c == checked
}

/// A submenu with the given id and text whose entries are the numbers
/// `low..=high`, with ids from `first_id` on, the one equal to `current`
/// checked.
pub open spec fn is_number_submenu(
    item: MenuItem,
    id: u32,
    text: Seq<char>,
    first_id: u32,
    low: u32,
    high: u32,
    current: u32,
) -> bool {
    &&& item matches MenuItem::Submenu { id: i, text: t, children } && i == id && t@ == text
        && children.len() == high - low + 1 && forall|k: int|
        0 <= k < children.len() ==> is_command(
            #[trigger] children[k],
            (first_id + k) as u32,
            decimal_text((low + k) as nat),
            current == low + k,
        )
}

/// A submenu with the given id and text whose entries are the given
/// commands.
pub open spec fn is_choice_submenu(
    item: MenuItem,
    id: u32,
    text: Seq<char>,
    choices: Seq<(u32, Seq<char>, bool)>,
) -> bool {
    &&& item matches MenuItem::Submenu { id: i, text: t, children } && i == id && t@ == text
        && children.len() == choices.len() && forall|k: int|
        0 <= k < children.len() ==> is_command(
            #[trigger] children[k],
            choices[k].0,
            choices[k].1,
            choices[k].2,
        )
}

fn command(id: u32, text: &str, checked: bool) -> (item: MenuItem)
    ensures
        is_command(item, id, text@, checked),
{
    MenuItem::Command { id, text: string_of(text), enabled: true, checked }
}

fn number_submenu(id: u32, text: &str, first_id: u32, low: u32, high: u32, current: u32) -> (item:
    MenuItem)
    requires
        low <= high < u32::MAX,
        first_id + high - low <= u32::MAX,
    ensures
        is_number_submenu(item, id, text@, first_id, low, high, current),
{
    let mut children: Vec<MenuItem> = Vec::new();
    let mut n: u32 = low;
    while n <= high
        invariant
            low <= n <= high + 1,
            high < u32::MAX,
            first_id + high - low <= u32::MAX,
            children.len() == n - low,
            forall|k: int|
                0 <= k < children.len() ==> is_command(
                    #[trigger] children[k],
                    (first_id + k) as u32,
                    decimal_text((low + k) as nat),
                    current == low + k,
                ),
        decreases high + 1 - n,
    {
        let label = string_from_chars(&decimal_chars(n));
        children.push(
            MenuItem::Command {
                id: first_id + (n - low),
                text: label,
                enabled: true,
                checked: current == n,
            },
        );
        n = n + 1;
    }
    MenuItem::Submenu { id, text: string_of(text), children }
}

/// The texts of the settings menu: the submenus and their entries.
pub struct MenuLabels {
    pub candidate_font_size: String,
    pub number_font_size: String,
    pub comment_font_size: String,
    pub page_size: String,
    pub punctuation_form: String,
    pub cantonese: String,
    pub english: String,
    pub character_form: String,
    pub half_width: String,
    pub full_width: String,
    pub character_variant: String,
    pub traditional: String,
    pub hong_kong: String,
    pub taiwan: String,
    pub simplified: String,
    pub settings_center: String,
}

impl MenuLabels {
    /// The English texts, used when no translation is found.
    pub fn fallback() -> (labels: Self)
        ensures
            labels.candidate_font_size@ == "Candidate Font Size"@,
            labels.number_font_size@ == "Number Font Size"@,
            labels.comment_font_size@ == "Comment Font Size"@,
            labels.page_size@ == "Candidates per Page"@,
            labels.punctuation_form@ == "Punctuation Form"@,
            labels.cantonese@ == "Cantonese"@,
            labels.english@ == "English"@,
            labels.character_form@ == "Half-width / Full-width"@,
            labels.half_width@ == "Half-width"@,
            labels.full_width@ == "Full-width"@,
            labels.character_variant@ == "Candidate Characters"@,
            labels.traditional@ == "Traditional"@,
            labels.hong_kong@ == "Traditional, HK"@,
            labels.taiwan@ == "Traditional, TW"@,
            labels.simplified@ == "Simplified"@,
            labels.settings_center@ == "Settings Center…"@,
    {
        MenuLabels {
            candidate_font_size: string_of("Candidate Font Size"),
            number_font_size: string_of("Number Font Size"),
            comment_font_size: string_of("Comment Font Size"),
            page_size: string_of("Candidates per Page"),
            punctuation_form: string_of("Punctuation Form"),
            cantonese: string_of("Cantonese"),
            english: string_of("English"),
            character_form: string_of("Half-width / Full-width"),
            half_width: string_of("Half-width"),
            full_width: string_of("Full-width"),
            character_variant: string_of("Candidate Characters"),
            traditional: string_of("Traditional"),
            hong_kong: string_of("Traditional, HK"),
            taiwan: string_of("Traditional, TW"),
            simplified: string_of("Simplified"),
            settings_center: string_of("Settings Center…"),
        }
    }
}

/// The settings menu with the given labels, the current settings checked: the three font-size
/// submenus (sizes 11 to 24), the page-size submenu (1 to 10), the
/// punctuation-form, character-form and character-variant submenus, a
/// separator and the entry that opens the settings center.
pub fn build_menu_snapshot(settings: &ImeSettings, labels: &MenuLabels) -> (items: Vec<MenuItem>)
    ensures
        items.len() == 9,
        is_number_submenu(
            items[0],
            CANDIDATE_FONT_SIZE,
            labels.candidate_font_size@,
            CANDIDATE_FONT_SIZE_FIRST,
            MINIMUM_CANDIDATE_FONT_SIZE,
            MAXIMUM_CANDIDATE_FONT_SIZE,
            settings.candidate_font_size,
        ),
        is_number_submenu(
            items[1],
            CANDIDATE_NUMBER_FONT_SIZE,
            labels.number_font_size@,
            CANDIDATE_NUMBER_FONT_SIZE_FIRST,
            MINIMUM_CANDIDATE_FONT_SIZE,
            MAXIMUM_CANDIDATE_FONT_SIZE,
            settings.candidate_number_font_size,
        ),
        is_number_submenu(
            items[2],
            CANDIDATE_COMMENT_FONT_SIZE,
            labels.comment_font_size@,
            CANDIDATE_COMMENT_FONT_SIZE_FIRST,
            MINIMUM_CANDIDATE_FONT_SIZE,
            MAXIMUM_CANDIDATE_FONT_SIZE,
            settings.candidate_comment_font_size,
        ),
        is_number_submenu(
            items[3],
            CANDIDATE_PAGE_SIZE,
            labels.page_size@,
            CANDIDATE_PAGE_SIZE_FIRST,
            1,
            10,
            settings.candidate_page_size,
        ),
        is_choice_submenu(
            items[4],
            PUNCTUATION_FORM,
            labels.punctuation_form@,
            seq![
                (PUNCTUATION_FORM_CANTONESE, labels.cantonese@, settings.punctuation_form == PunctuationForm::Cantonese),
                (PUNCTUATION_FORM_ENGLISH, labels.english@, settings.punctuation_form == PunctuationForm::English),
            ],
        ),
        is_choice_submenu(
            items[5],
            CHARACTER_FORM,
            labels.character_form@,
            seq![
                (CHARACTER_FORM_HALF_WIDTH, labels.half_width@, settings.character_form == CharacterForm::HalfWidth),
                (CHARACTER_FORM_FULL_WIDTH, labels.full_width@, settings.character_form == CharacterForm::FullWidth),
            ],
        ),
        is_choice_submenu(
            items[6],
            CHARACTER_VARIANT,
            labels.character_variant@,
            seq![
                (CHARACTER_VARIANT_TRADITIONAL, labels.traditional@, settings.character_variant == CharacterVariant::Traditional),
                (CHARACTER_VARIANT_HONGKONG, labels.hong_kong@, settings.character_variant == CharacterVariant::HongKong),
                (CHARACTER_VARIANT_TAIWAN, labels.taiwan@, settings.character_variant == CharacterVariant::Taiwan),
                (CHARACTER_VARIANT_SIMPLIFIED, labels.simplified@, settings.character_variant == CharacterVariant::Simplified),
            ],
        ),
        items[7] is Separator,
        is_command(items[8], MORE_SETTINGS, labels.settings_center@, false),
{
    let mut items: Vec<MenuItem> = Vec::new();
    items.push(
        number_submenu(
            CANDIDATE_FONT_SIZE,
            labels.candidate_font_size.as_str(),
            CANDIDATE_FONT_SIZE_FIRST,
            MINIMUM_CANDIDATE_FONT_SIZE,
            MAXIMUM_CANDIDATE_FONT_SIZE,
            settings.candidate_font_size,
        ),
    );
    items.push(
        number_submenu(
            CANDIDATE_NUMBER_FONT_SIZE,
            labels.number_font_size.as_str(),
            CANDIDATE_NUMBER_FONT_SIZE_FIRST,
            MINIMUM_CANDIDATE_FONT_SIZE,
            MAXIMUM_CANDIDATE_FONT_SIZE,
            settings.candidate_number_font_size,
        ),
    );
    items.push(
        number_submenu(
            CANDIDATE_COMMENT_FONT_SIZE,
            labels.comment_font_size.as_str(),
            CANDIDATE_COMMENT_FONT_SIZE_FIRST,
            MINIMUM_CANDIDATE_FONT_SIZE,
            MAXIMUM_CANDIDATE_FONT_SIZE,
            settings.candidate_comment_font_size,
        ),
    );
    items.push(
        number_submenu(
            CANDIDATE_PAGE_SIZE,
            labels.page_size.as_str(),
            CANDIDATE_PAGE_SIZE_FIRST,
            1,
            10,
            settings.candidate_page_size,
        ),
    );
    let punctuation = settings.punctuation_form;
    let punctuation_items = vec![
        command(PUNCTUATION_FORM_CANTONESE, labels.cantonese.as_str(), punctuation == PunctuationForm::Cantonese),
        command(PUNCTUATION_FORM_ENGLISH, labels.english.as_str(), punctuation == PunctuationForm::English),
    ];
    items.push(
        MenuItem::Submenu {
            id: PUNCTUATION_FORM,
            text: labels.punctuation_form.clone(),
            children: punctuation_items,
        },
    );
    let form = settings.character_form;
    let form_items = vec![
        command(CHARACTER_FORM_HALF_WIDTH, labels.half_width.as_str(), form == CharacterForm::HalfWidth),
        command(CHARACTER_FORM_FULL_WIDTH, labels.full_width.as_str(), form == CharacterForm::FullWidth),
    ];
    items.push(
        MenuItem::Submenu {
            id: CHARACTER_FORM,
            text: labels.character_form.clone(),
            children: form_items,
        },
    );
    let variant = settings.character_variant;
    let variant_items = vec![
        command(CHARACTER_VARIANT_TRADITIONAL, labels.traditional.as_str(), variant == CharacterVariant::Traditional),
        command(CHARACTER_VARIANT_HONGKONG, labels.hong_kong.as_str(), variant == CharacterVariant::HongKong),
        command(CHARACTER_VARIANT_TAIWAN, labels.taiwan.as_str(), variant == CharacterVariant::Taiwan),
        command(CHARACTER_VARIANT_SIMPLIFIED, labels.simplified.as_str(), variant == CharacterVariant::Simplified),
    ];
    items.push(
        MenuItem::Submenu {
            id: CHARACTER_VARIANT,
            text: labels.character_variant.clone(),
            children: variant_items,
        },
    );
    items.push(MenuItem::Separator);
    items.push(command(MORE_SETTINGS, labels.settings_center.as_str(), false));
    items
}

/// What the menu entry `id` does.
pub open spec fn menu_command_of(id: u32) -> MenuCommand {
    if CANDIDATE_FONT_SIZE_FIRST <= id <= CANDIDATE_FONT_SIZE_LAST {
        MenuCommand::SetCandidateFontSize((MINIMUM_CANDIDATE_FONT_SIZE + id - CANDIDATE_FONT_SIZE_FIRST) as u32)
    } else if CANDIDATE_NUMBER_FONT_SIZE_FIRST <= id <= CANDIDATE_NUMBER_FONT_SIZE_LAST {
        MenuCommand::SetCandidateNumberFontSize(
            (MINIMUM_CANDIDATE_FONT_SIZE + id - CANDIDATE_NUMBER_FONT_SIZE_FIRST) as u32,
        )
    } else if CANDIDATE_COMMENT_FONT_SIZE_FIRST <= id <= CANDIDATE_COMMENT_FONT_SIZE_LAST {
        MenuCommand::SetCandidateCommentFontSize(
            (MINIMUM_CANDIDATE_FONT_SIZE + id - CANDIDATE_COMMENT_FONT_SIZE_FIRST) as u32,
        )
    } else if CANDIDATE_PAGE_SIZE_FIRST <= id <= CANDIDATE_PAGE_SIZE_LAST {
        MenuCommand::SetCandidatePageSize((id - CANDIDATE_PAGE_SIZE_FIRST + 1) as u32)
    } else if id == PUNCTUATION_FORM_CANTONESE {
        MenuCommand::SetPunctuationForm(PunctuationForm::Cantonese)
    } else if id == PUNCTUATION_FORM_ENGLISH {
        MenuCommand::SetPunctuationForm(PunctuationForm::English)
    } else if id == CHARACTER_FORM_HALF_WIDTH {
        MenuCommand::SetCharacterForm(CharacterForm::HalfWidth)
    } else if id == CHARACTER_FORM_FULL_WIDTH {
        MenuCommand::SetCharacterForm(CharacterForm::FullWidth)
    } else if id == CHARACTER_VARIANT_TRADITIONAL {
        MenuCommand::SetCharacterVariant(CharacterVariant::Traditional)
    } else if id == CHARACTER_VARIANT_HONGKONG {
        MenuCommand::SetCharacterVariant(CharacterVariant::HongKong)
    } else if id == CHARACTER_VARIANT_TAIWAN {
        MenuCommand::SetCharacterVariant(CharacterVariant::Taiwan)
    } else if id == CHARACTER_VARIANT_SIMPLIFIED {
        MenuCommand::SetCharacterVariant(CharacterVariant::Simplified)
    } else if id == MORE_SETTINGS {
        MenuCommand::OpenSettingsCenter
    } else {
        MenuCommand::Nothing
    }
}

/// What the menu entry `id` does.
pub fn menu_command(id: u32) -> (command: MenuCommand)
    ensures
        command == menu_command_of(id),
{
    if CANDIDATE_FONT_SIZE_FIRST <= id && id <= CANDIDATE_FONT_SIZE_LAST {
        return MenuCommand::SetCandidateFontSize(font_size_from_id(CANDIDATE_FONT_SIZE_FIRST, id));
    }
    if CANDIDATE_NUMBER_FONT_SIZE_FIRST <= id && id <= CANDIDATE_NUMBER_FONT_SIZE_LAST {
        return MenuCommand::SetCandidateNumberFontSize(
            font_size_from_id(CANDIDATE_NUMBER_FONT_SIZE_FIRST, id),
        );
    }
    if CANDIDATE_COMMENT_FONT_SIZE_FIRST <= id && id <= CANDIDATE_COMMENT_FONT_SIZE_LAST {
        return MenuCommand::SetCandidateCommentFontSize(
            font_size_from_id(CANDIDATE_COMMENT_FONT_SIZE_FIRST, id),
        );
    }
    if CANDIDATE_PAGE_SIZE_FIRST <= id && id <= CANDIDATE_PAGE_SIZE_LAST {
        return MenuCommand::SetCandidatePageSize(page_size_from_id(id));
    }
    if id == PUNCTUATION_FORM_CANTONESE {
        MenuCommand::SetPunctuationForm(PunctuationForm::Cantonese)
    } else if id == PUNCTUATION_FORM_ENGLISH {
        MenuCommand::SetPunctuationForm(PunctuationForm::English)
    } else if id == CHARACTER_FORM_HALF_WIDTH {
        MenuCommand::SetCharacterForm(CharacterForm::HalfWidth)
    } else if id == CHARACTER_FORM_FULL_WIDTH {
        MenuCommand::SetCharacterForm(CharacterForm::FullWidth)
    } else if id == CHARACTER_VARIANT_TRADITIONAL {
        MenuCommand::SetCharacterVariant(CharacterVariant::Traditional)
    } else if id == CHARACTER_VARIANT_HONGKONG {
        MenuCommand::SetCharacterVariant(CharacterVariant::HongKong)
    } else if id == CHARACTER_VARIANT_TAIWAN {
        MenuCommand::SetCharacterVariant(CharacterVariant::Taiwan)
    } else if id == CHARACTER_VARIANT_SIMPLIFIED {
        MenuCommand::SetCharacterVariant(CharacterVariant::Simplified)
    } else if id == MORE_SETTINGS {
        MenuCommand::OpenSettingsCenter
    } else {
        MenuCommand::Nothing
    }
}

/// Each number entry of the menu does what it shows: the entry of font
/// size `size` (11 to 24) in each font-size submenu sets that size, and the
/// entry of page size `page_size` (1 to 10) sets that page size.
pub proof fn lemma_menu_entries_set_their_number(size: u32, page_size: u32)
    requires
        MINIMUM_CANDIDATE_FONT_SIZE <= size <= MAXIMUM_CANDIDATE_FONT_SIZE,
        1 <= page_size <= 10,
    ensures
        menu_command_of((CANDIDATE_FONT_SIZE_FIRST + size - MINIMUM_CANDIDATE_FONT_SIZE) as u32)
            == MenuCommand::SetCandidateFontSize(size),
        menu_command_of((CANDIDATE_NUMBER_FONT_SIZE_FIRST + size - MINIMUM_CANDIDATE_FONT_SIZE) as u32)
            == MenuCommand::SetCandidateNumberFontSize(size),
        menu_command_of((CANDIDATE_COMMENT_FONT_SIZE_FIRST + size - MINIMUM_CANDIDATE_FONT_SIZE) as u32)
            == MenuCommand::SetCandidateCommentFontSize(size),
        menu_command_of((CANDIDATE_PAGE_SIZE_FIRST + page_size - 1) as u32)
            == MenuCommand::SetCandidatePageSize(page_size),
{
}

} // verus!
