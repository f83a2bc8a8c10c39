use rcantonese::color::{colorref_to_rgba, rgba_to_colorref, RgbaColor};
use rcantonese::config::parse_settings;
use rcantonese::modifiers::{TF_MOD_CONTROL, TF_MOD_SHIFT};
use rcantonese::settings_form::{
    chinese_interface, hotkeys_text, parse_hotkey_list, ui_language_index, ui_language_name, SettingsForm,
};

#[test]
fn colors_convert_both_ways() {
    let c = colorref_to_rgba(0x00332211);
    assert_eq!(c, RgbaColor { a: 255, r: 0x11, g: 0x22, b: 0x33 });
    assert_eq!(rgba_to_colorref(c), 0x00332211);
    assert_eq!(rgba_to_colorref(colorref_to_rgba(0xFF332211)), 0x00332211);
    let back = colorref_to_rgba(rgba_to_colorref(RgbaColor { a: 7, r: 1, g: 2, b: 3 }));
    assert_eq!(back, RgbaColor { a: 255, r: 1, g: 2, b: 3 });
}

#[test]
fn hotkey_lists() {
    let keys = vec![(0xC0, TF_MOD_CONTROL), (0x73, TF_MOD_CONTROL | TF_MOD_SHIFT)];
    let text = hotkeys_text(&keys);
    assert_eq!(text, "ctrl+`, ctrl+shift+f4");
    assert_eq!(parse_hotkey_list(&text), keys);
    assert_eq!(parse_hotkey_list(" alt+space ,, bad+key, x"), vec![(0x20, 1), (0x58, 0)]);
    assert_eq!(parse_hotkey_list(""), vec![]);
    assert_eq!(hotkeys_text(&vec![]), "");
}

#[test]
fn ui_languages() {
    assert_eq!(ui_language_index("en"), 1);
    assert_eq!(ui_language_index("zh"), 2);
    assert_eq!(ui_language_index("auto"), 0);
    assert_eq!(ui_language_index("fr"), 0);
    assert_eq!(ui_language_name(0), "auto");
    assert_eq!(ui_language_name(1), "en");
    assert_eq!(ui_language_name(2), "zh");
}

#[test]
fn form_saves_what_it_shows() {
    let settings = parse_settings(
        "candidate_page_size = 5\ncandidate_text_color = \"#112233\"\noptions_menu_keys = [\"ctrl+shift+f4\", \"alt+space\"]\nui_language = \"zh\"\n",
    );
    let form = SettingsForm::from_settings(&settings);
    assert_eq!(form.page_size, 5);
    assert_eq!(form.ui_lang, 2);
    assert_eq!(form.hotkeys, "ctrl+shift+f4, alt+space");
    let saved = form.collect(parse_settings(""));
    assert_eq!(saved.candidate_page_size, 5);
    assert_eq!(saved.candidate_text_color, settings.candidate_text_color);
    assert_eq!(saved.options_menu_keys, settings.options_menu_keys);
    assert_eq!(saved.ui_language, "zh");
}

#[test]
fn form_edits_are_clamped_and_filtered() {
    let stored = parse_settings("");
    let mut form = SettingsForm::from_settings(&stored);
    form.page_size = 99;
    form.font = 2;
    form.text_color = "nonsense".to_string();
    form.hotkeys = "bad, worse".to_string();
    form.ui_lang = 1;
    let saved = form.collect(parse_settings(""));
    assert_eq!(saved.candidate_page_size, 10);
    assert_eq!(saved.candidate_font_size, 11);
    assert_eq!(saved.candidate_text_color, stored.candidate_text_color);
    assert_eq!(saved.options_menu_keys, stored.options_menu_keys);
    assert_eq!(saved.ui_language, "en");
}

#[test]
fn interface_language_choice() {
    assert!(!chinese_interface(1, 0x0c04));
    assert!(chinese_interface(2, 0x0409));
    assert!(chinese_interface(0, 0x0c04));
    assert!(chinese_interface(0, 0x0804));
    assert!(!chinese_interface(0, 0x0409));
}
