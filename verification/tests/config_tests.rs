use rcantonese::config::{
    color_to_hex, hotkey_to_spec, parse_color, parse_hotkey, parse_settings, parse_string_array,
    parse_u32, quote, render_settings, strip_comment, unquote,
};
use rcantonese::modifiers::{TF_MOD_ALT, TF_MOD_CONTROL, TF_MOD_SHIFT};
use rcantonese::settings::{CharacterVariant, ImeSettings, InputMethodMode};

#[test]
fn hotkey_parse() {
    assert_eq!(parse_hotkey("ctrl+`"), Some((0xC0, TF_MOD_CONTROL)));
    assert_eq!(
        parse_hotkey("ctrl+shift+f4"),
        Some((0x73, TF_MOD_CONTROL | TF_MOD_SHIFT))
    );
    assert_eq!(parse_hotkey("f4"), Some((0x73, 0)));
    assert_eq!(parse_hotkey("alt+space"), Some((0x20, TF_MOD_ALT)));
    assert_eq!(parse_hotkey("ctrl+shift+bad"), None);
}

#[test]
fn hotkey_roundtrip() {
    assert_eq!(hotkey_to_spec(0xC0, TF_MOD_CONTROL), "ctrl+`");
    assert_eq!(
        hotkey_to_spec(0x73, TF_MOD_CONTROL | TF_MOD_SHIFT),
        "ctrl+shift+f4"
    );
}

#[test]
fn parse_values() {
    assert_eq!(unquote("\"abc\""), Some("abc".to_string()));
    assert_eq!(parse_u32("7"), Some(7));
    assert_eq!(parse_string_array("[\"a\", \"b\"]"), vec!["a", "b"]);
    assert_eq!(strip_comment("a = 1 # c"), "a = 1");
}

#[test]
fn hotkey_text_parses_back() {
    for (vk, modifiers) in [(0xC0u32, TF_MOD_CONTROL), (0x41, TF_MOD_ALT | TF_MOD_SHIFT), (0x20, 0)] {
        let text = hotkey_to_spec(vk, modifiers);
        assert_eq!(parse_hotkey(&text), Some((vk, modifiers)));
    }
}

#[test]
fn colors_are_written_in_web_order() {
    // stored as 0x00BBGGRR, written as 0xRRGGBB
    assert_eq!(color_to_hex(0x00332211), "0x112233");
    assert_eq!(parse_color("0x112233"), Some(0x00332211));
    assert_eq!(parse_color("#112233"), None);
    assert_eq!(parse_color(&color_to_hex(0x00ABCDEF)), Some(0x00ABCDEF));
    assert_eq!(parse_color("0xZZ"), None);
}

#[test]
fn quoting_escapes_and_unquoting_restores() {
    let quoted = quote("say \"hi\" \\ there");
    assert_eq!(quoted, "\"say \\\"hi\\\" \\\\ there\"");
    assert_eq!(unquote(&quoted), Some("say \"hi\" \\ there".to_string()));
    assert_eq!(unquote("abc"), None);
}

#[test]
fn comments_and_blank_values() {
    assert_eq!(strip_comment("# only a comment"), "");
    assert_eq!(strip_comment("no comment  "), "no comment");
    assert_eq!(parse_u32("x7"), None);
    assert_eq!(parse_string_array("[]"), Vec::<String>::new());
}

#[test]
fn settings_file_reads_back() {
    let mut settings = ImeSettings::default();
    settings.input_method_mode = InputMethodMode::Abc;
    settings.character_variant = CharacterVariant::Taiwan;
    settings.candidate_page_size = 9;
    settings.candidate_text_color = 0x00112233;
    settings.options_menu_keys = vec![(0x73, TF_MOD_CONTROL | TF_MOD_SHIFT), (0xC0, TF_MOD_CONTROL)];
    settings.ui_language = "zh".to_string();
    let text = render_settings(&settings);
    let read = parse_settings(&text);
    assert_eq!(read.input_method_mode, InputMethodMode::Abc);
    assert_eq!(read.character_variant, CharacterVariant::Taiwan);
    assert_eq!(read.candidate_page_size, 9);
    assert_eq!(read.candidate_text_color, 0x00112233);
    assert_eq!(read.options_menu_keys, settings.options_menu_keys);
    assert_eq!(read.ui_language, "zh");
}

#[test]
fn settings_values_out_of_range_are_clamped() {
    let read = parse_settings("candidate_page_size = 99\ncandidate_font_size = 1\nui_language = \"fr\"\n");
    assert_eq!(read.candidate_page_size, 10);
    assert_eq!(read.candidate_font_size, 11);
    assert_eq!(read.ui_language, ImeSettings::default().ui_language);
}

#[test]
fn any_text_survives_quoting() {
    for s in ["", "plain", "a\\b", "\"", "\\\"", "x\\\\\"y\\", "\"\"\\\\"] {
        assert_eq!(unquote(&quote(s)), Some(s.to_string()));
    }
    assert_eq!(quote("a\"b\\c"), "\"a\\\"b\\\\c\"");
}
