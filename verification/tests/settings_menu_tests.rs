use rcantonese::config::parse_settings;
use rcantonese::settings::{
    character_form_from_full_width, input_method_mode_from_open, keyboard_open_from_mode,
    punctuation_form_from_cantonese, CharacterForm, CharacterVariant, InputMethodMode,
    PunctuationForm,
};
use rcantonese::settings_menu::{
    build_menu_snapshot, font_size_from_id, font_size_id, menu_command, page_size_from_id,
    page_size_id, MenuCommand, MenuItem, MenuLabels, CANDIDATE_FONT_SIZE_FIRST, CANDIDATE_PAGE_SIZE_FIRST,
    CHARACTER_VARIANT_TAIWAN, MORE_SETTINGS, PUNCTUATION_FORM_ENGLISH, SEPARATOR,
};

#[test]
fn menu_ids_follow_each_other() {
    assert_eq!(CANDIDATE_FONT_SIZE_FIRST, 2);
    assert_eq!(CANDIDATE_PAGE_SIZE_FIRST, 47);
    assert_eq!(PUNCTUATION_FORM_ENGLISH, 59);
    assert_eq!(SEPARATOR, 68);
    assert_eq!(MORE_SETTINGS, 69);
    assert_eq!(font_size_id(CANDIDATE_FONT_SIZE_FIRST, 16), 7);
    assert_eq!(font_size_from_id(CANDIDATE_FONT_SIZE_FIRST, 7), 16);
    assert_eq!(page_size_id(7), 53);
    assert_eq!(page_size_from_id(53), 7);
}

#[test]
fn menu_commands() {
    assert_eq!(menu_command(7), MenuCommand::SetCandidateFontSize(16));
    assert_eq!(menu_command(17), MenuCommand::SetCandidateNumberFontSize(11));
    assert_eq!(menu_command(45), MenuCommand::SetCandidateCommentFontSize(24));
    assert_eq!(menu_command(56), MenuCommand::SetCandidatePageSize(10));
    assert_eq!(
        menu_command(PUNCTUATION_FORM_ENGLISH),
        MenuCommand::SetPunctuationForm(PunctuationForm::English)
    );
    assert_eq!(
        menu_command(CHARACTER_VARIANT_TAIWAN),
        MenuCommand::SetCharacterVariant(CharacterVariant::Taiwan)
    );
    assert_eq!(menu_command(MORE_SETTINGS), MenuCommand::OpenSettingsCenter);
    assert_eq!(menu_command(SEPARATOR), MenuCommand::Nothing);
    assert_eq!(menu_command(1), MenuCommand::Nothing);
    assert_eq!(menu_command(1000), MenuCommand::Nothing);
}

#[test]
fn snapshot_checks_current_settings() {
    let mut settings = parse_settings("");
    settings.candidate_page_size = 5;
    settings.punctuation_form = PunctuationForm::English;
    let items = build_menu_snapshot(&settings, &MenuLabels::fallback());
    assert_eq!(items.len(), 9);
    match &items[3] {
        MenuItem::Submenu { id, text, children } => {
            assert_eq!(*id, 46);
            assert_eq!(text, "Candidates per Page");
            assert_eq!(children.len(), 10);
            for (i, child) in children.iter().enumerate() {
                match child {
                    MenuItem::Command { id, text, enabled, checked } => {
                        assert_eq!(*id, 47 + i as u32);
                        assert_eq!(text, &(i + 1).to_string());
                        assert!(*enabled);
                        assert_eq!(*checked, i + 1 == 5);
                    }
                    _ => panic!("page size entry is no command"),
                }
            }
        }
        _ => panic!("page size menu is no submenu"),
    }
    match &items[4] {
        MenuItem::Submenu { children, .. } => match (&children[0], &children[1]) {
            (
                MenuItem::Command { checked: cantonese, .. },
                MenuItem::Command { checked: english, text, .. },
            ) => {
                assert!(!*cantonese);
                assert!(*english);
                assert_eq!(text, "English");
            }
            _ => panic!("punctuation entries are no commands"),
        },
        _ => panic!("punctuation menu is no submenu"),
    }
    assert!(matches!(items[7], MenuItem::Separator));
    match &items[8] {
        MenuItem::Command { id, text, checked, .. } => {
            assert_eq!(*id, MORE_SETTINGS);
            assert_eq!(text, "Settings Center…");
            assert!(!*checked);
        }
        _ => panic!("last entry is no command"),
    }
}

#[test]
fn font_size_menu_has_sizes_eleven_to_twenty_four() {
    let settings = parse_settings("");
    let items = build_menu_snapshot(&settings, &MenuLabels::fallback());
    match &items[0] {
        MenuItem::Submenu { children, .. } => {
            assert_eq!(children.len(), 14);
            match (&children[0], &children[13]) {
                (MenuItem::Command { text: first, .. }, MenuItem::Command { text: last, .. }) => {
                    assert_eq!(first, "11");
                    assert_eq!(last, "24");
                }
                _ => panic!("font size entries are no commands"),
            }
        }
        _ => panic!("font size menu is no submenu"),
    }
}

#[test]
fn setters_report_changes() {
    let mut settings = parse_settings("");
    let page = settings.candidate_page_size;
    assert!(!settings.set_candidate_page_size(page));
    assert!(settings.set_candidate_page_size(50));
    assert_eq!(settings.candidate_page_size, 10);
    assert!(settings.set_candidate_font_size(3));
    assert_eq!(settings.candidate_font_size, 11);
    assert!(!settings.set_candidate_font_size(0));
    assert!(settings.set_candidate_number_font_size(20));
    assert_eq!(settings.candidate_number_font_size, 20);
    assert!(settings.set_candidate_comment_font_size(99));
    assert_eq!(settings.candidate_comment_font_size, 24);
    assert!(settings.set_character_variant(CharacterVariant::Simplified));
    assert!(!settings.set_character_variant(CharacterVariant::Simplified));
    assert!(settings.set_punctuation_form(PunctuationForm::English));
    assert!(!settings.set_punctuation_form(PunctuationForm::English));
    assert!(settings.set_character_form(CharacterForm::FullWidth));
    assert!(settings.set_input_method_mode(InputMethodMode::Abc));
    assert!(!settings.set_input_method_mode(InputMethodMode::Abc));
}

#[test]
fn mode_and_form_flags() {
    assert!(keyboard_open_from_mode(InputMethodMode::Cantonese));
    assert!(!keyboard_open_from_mode(InputMethodMode::Abc));
    assert_eq!(input_method_mode_from_open(false), InputMethodMode::Abc);
    assert_eq!(character_form_from_full_width(true), CharacterForm::FullWidth);
    assert_eq!(punctuation_form_from_cantonese(false), PunctuationForm::English);
}

#[test]
fn menu_shows_the_labels_it_is_given() {
    let settings = parse_settings("");
    let mut labels = MenuLabels::fallback();
    labels.cantonese = "粵語標點".to_string();
    let items = build_menu_snapshot(&settings, &labels);
    match &items[4] {
        MenuItem::Submenu { children, .. } => match &children[0] {
            MenuItem::Command { text, .. } => assert_eq!(text, "粵語標點"),
            _ => panic!("expected a command"),
        },
        _ => panic!("expected a submenu"),
    }
}
