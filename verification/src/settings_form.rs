//! The form of the settings center: the settings it shows for editing
//! (sizes, colors as text, hotkeys as a comma-separated list, interface
//! language) and the settings it saves from them.
use vstd::prelude::*;
use crate::config::{
    color_of_text, color_text, color_to_hex, hotkey_of_text, hotkey_text, hotkey_to_spec,
    is_hotkey_char, is_ui_language, is_written_hotkey, lemma_color_roundtrip,
    lemma_hotkey_roundtrip, lemma_hotkey_text_chars, lemma_split_char_concat,
    lemma_split_char_without_sep, parse_color, parse_hotkey,
};
use crate::settings::{
    candidate_font_size_from_raw, candidate_page_size_from_raw, clamped, ImeSettings,
    SettingsModel, MAXIMUM_CANDIDATE_FONT_SIZE, MAXIMUM_CANDIDATE_PAGE_SIZE,
    MINIMUM_CANDIDATE_FONT_SIZE, MINIMUM_CANDIDATE_PAGE_SIZE,
};
use crate::text::{
    append_chars, char_seqs, chars_of, is_white_space, split_char, split_chars, string_from_chars,
    trim, trim_chars, trim_end, trim_start,
};

verus! {

/// The hotkeys as the settings center shows them: each written out, joined
/// by ", ".
pub open spec fn hotkeys_text_of(keys: Seq<(u32, u32)>) -> Seq<char>
    decreases keys.len(),
{
    if keys.len() == 0 {
        Seq::empty()
    } else if keys.len() == 1 {
        hotkey_text(keys[0].0, keys[0].1)
    } else {
        hotkeys_text_of(keys.drop_last()) + seq![',', ' '] + hotkey_text(keys.last().0, keys.last().1)
    }
}

/// The hotkeys named by pieces of text, trimmed; pieces that name none are
/// left out.
pub open spec fn hotkeys_of_pieces(pieces: Seq<Seq<char>>) -> Seq<(u32, u32)>
    decreases pieces.len(),
{
    if pieces.len() == 0 {
        Seq::empty()
    } else {
        let init = hotkeys_of_pieces(pieces.drop_last());
        match hotkey_of_text(trim(pieces.last())) {
            Some(h) => init.push(h),
            None => init,
        }
    }
}

/// The hotkeys read from the settings center's list: the pieces between
/// its commas that name a hotkey.
pub open spec fn hotkeys_of_list(text: Seq<char>) -> Seq<(u32, u32)> {
    hotkeys_of_pieces(split_char(text, ','))
}

/// The hotkeys written out, joined by ", ".
pub fn hotkeys_text(keys: &Vec<(u32, u32)>) -> (text: String)
    ensures
        text@ == hotkeys_text_of(keys@),
{
    let mut chars: Vec<char> = Vec::new();
    let mut i: usize = 0;
    while i < keys.len()
        invariant
            0 <= i <= keys@.len(),
            chars@ == hotkeys_text_of(keys@.take(i as int)),
        decreases keys.len() - i,
    {
        let (vk, modifiers) = keys[i];
        let piece = chars_of(hotkey_to_spec(vk, modifiers).as_str());
        let ghost before = keys@.take(i as int);
        let ghost after = keys@.take(i + 1);
        assert(after.drop_last() =~= before);
        assert(after.last() == (vk, modifiers));
        if i > 0 {
            chars.push(',');
            chars.push(' ');
        }
        append_chars(&mut chars, &piece);
        proof {
            if i == 0 {
                assert(chars@ =~= hotkey_text(vk, modifiers));
            } else {
                assert(chars@ =~= hotkeys_text_of(before) + seq![',', ' '] + hotkey_text(vk, modifiers));
            }
        }
        i += 1;
    }
    assert(keys@.take(keys.len() as int) =~= keys@);
    string_from_chars(&chars)
}

/// The hotkeys of the settings center's list: the pieces between its
/// commas, trimmed, that name a hotkey, in order.
pub fn parse_hotkey_list(text: &str) -> (keys: Vec<(u32, u32)>)
    ensures
        keys@ == hotkeys_of_list(text@),
{
    let chars = chars_of(text);
    let pieces = split_chars(&chars, ',');
    let mut keys: Vec<(u32, u32)> = Vec::new();
    let mut i: usize = 0;
    while i < pieces.len()
        invariant
            0 <= i <= pieces@.len(),
            char_seqs(pieces@) == split_char(text@, ','),
            keys@ == hotkeys_of_pieces(char_seqs(pieces@).take(i as int)),
        decreases pieces.len() - i,
    {
        let piece = trim_chars(&pieces[i]);
        let ghost before = char_seqs(pieces@).take(i as int);
        let ghost after = char_seqs(pieces@).take(i + 1);
        assert(after.drop_last() =~= before);
        assert(after.last() == pieces@[i as int]@);
        if let Some(h) = parse_hotkey(string_from_chars(&piece).as_str()) {
            keys.push(h);
        }
        i += 1;
    }
    assert(char_seqs(pieces@).take(pieces.len() as int) =~= char_seqs(pieces@));
    keys
}

/// A text without white space at either end is its own trim.
proof fn lemma_trim_unchanged(s: Seq<char>)
    requires
        s.len() > 0,
        !is_white_space(s[0]),
        !is_white_space(s.last()),
    ensures
        trim(s) == s,
{
    assert(trim_start(s) == s);
    assert(trim_end(s) == s);
}

/// A written hotkey has no comma and no white space at either end.
proof fn lemma_hotkey_text_plain(h: (u32, u32))
    requires
        is_written_hotkey(h),
    ensures
        forall|i: int| 0 <= i < hotkey_text(h.0, h.1).len() ==> #[trigger] hotkey_text(h.0, h.1)[i] != ',',
        trim(hotkey_text(h.0, h.1)) == hotkey_text(h.0, h.1),
        trim(seq![' '] + hotkey_text(h.0, h.1)) == hotkey_text(h.0, h.1),
        hotkey_of_text(hotkey_text(h.0, h.1)) == Some(h),
{
    let t = hotkey_text(h.0, h.1);
    lemma_hotkey_text_chars(h.0, h.1);
    assert(is_hotkey_char(t[0]));
    assert(is_hotkey_char(t[t.len() - 1]));
    lemma_trim_unchanged(t);
    let spaced = seq![' '] + t;
    assert(spaced.drop_first() =~= t);
    assert(trim_start(spaced) == trim_start(t));
    assert(trim_start(t) == t);
    assert(trim_end(t) == t);
    lemma_hotkey_roundtrip(h.0, h.1);
}

/// The hotkey list the settings center shows reads back as the same
/// hotkeys, for hotkeys with a key name and any of control, shift and alt.
pub proof fn lemma_hotkey_list_roundtrip(keys: Seq<(u32, u32)>)
    requires
        forall|i: int| 0 <= i < keys.len() ==> is_written_hotkey(#[trigger] keys[i]),
    ensures
        keys.len() > 0 ==> hotkeys_of_list(hotkeys_text_of(keys)) == keys,
    decreases keys.len(),
{
    if keys.len() == 1 {
        let h = keys[0];
        let t = hotkey_text(h.0, h.1);
        lemma_hotkey_text_plain(h);
        lemma_split_char_without_sep(t, ',');
        assert(seq![t].drop_last() =~= Seq::<Seq<char>>::empty());
        assert(seq![t].last() == t);
        assert(hotkeys_of_pieces(Seq::<Seq<char>>::empty()) == Seq::<(u32, u32)>::empty());
        assert(Seq::<(u32, u32)>::empty().push(h) =~= seq![h]);
        assert(hotkeys_of_pieces(seq![t]) =~= seq![h]);
        assert(keys =~= seq![h]);
    } else if keys.len() > 1 {
        let init = keys.drop_last();
        let last = keys.last();
        assert(is_written_hotkey(keys[keys.len() - 1]));
        assert forall|i: int| 0 <= i < init.len() implies is_written_hotkey(#[trigger] init[i]) by {
            assert(init[i] == keys[i]);
        }
        lemma_hotkey_list_roundtrip(init);
        let t = hotkey_text(last.0, last.1);
        lemma_hotkey_text_plain(last);
        let piece = seq![' '] + t;
        assert forall|i: int| 0 <= i < piece.len() implies piece[i] != ',' by {
            if i > 0 {
                assert(piece[i] == t[i - 1]);
            }
        }
        assert(hotkeys_text_of(keys) =~= hotkeys_text_of(init) + seq![','] + piece);
        lemma_split_char_concat(hotkeys_text_of(init), piece, ',');
        lemma_split_char_without_sep(piece, ',');
        let pieces = split_char(hotkeys_text_of(keys), ',');
        assert(pieces =~= split_char(hotkeys_text_of(init), ',').push(piece));
        assert(pieces.drop_last() =~= split_char(hotkeys_text_of(init), ','));
        assert(keys =~= init.push(last));
    }
}

/// The interface language's place in the settings center's choice:
/// 1 for English, 2 for Chinese, 0 (follow the system) for anything else.
pub fn ui_language_index(language: &str) -> (index: usize)
    ensures
        index == ui_language_index_of(language@),
{
    let chars = chars_of(language);
    if chars.len() == 2 && chars[0] == 'e' && chars[1] == 'n' {
        assert(chars@ =~= seq!['e', 'n']);
        1
    } else if chars.len() == 2 && chars[0] == 'z' && chars[1] == 'h' {
        assert(chars@ =~= seq!['z', 'h']);
        2
    } else {
        0
    }
}

/// The interface language at a place of the settings center's choice.
pub open spec fn ui_language_name_of(index: usize) -> Seq<char> {
    if index == 1 {
        seq!['e', 'n']
    } else if index == 2 {
        seq!['z', 'h']
    } else {
        seq!['a', 'u', 't', 'o']
    }
}

/// The interface language at a place of the settings center's choice.
pub fn ui_language_name(index: usize) -> (name: String)
    requires
        index < 3,
    ensures
        name@ == ui_language_name_of(index),
{
    let mut chars: Vec<char> = Vec::new();
    if index == 1 {
        chars.push('e');
        chars.push('n');
        assert(chars@ =~= seq!['e', 'n']);
    } else if index == 2 {
        chars.push('z');
        chars.push('h');
        assert(chars@ =~= seq!['z', 'h']);
    } else {
        chars.push('a');
        chars.push('u');
        chars.push('t');
        chars.push('o');
        assert(chars@ =~= seq!['a', 'u', 't', 'o']);
    }
    string_from_chars(&chars)
}

/// What the settings center edits.
pub struct SettingsForm {
    /// The interface language: 0 follows the system, 1 English, 2 Chinese.
    pub ui_lang: usize,
    pub page_size: u32,
    pub font: u32,
    pub number_font: u32,
    pub comment_font: u32,
    pub text_color: String,
    pub back_color: String,
    pub select_color: String,
    pub comment_color: String,
    /// The options-menu hotkeys, separated by commas.
    pub hotkeys: String,
}

/// The form with its texts as character sequences.
pub struct FormModel {
    pub ui_lang: usize,
    pub page_size: u32,
    pub font: u32,
    pub number_font: u32,
    pub comment_font: u32,
    pub text_color: Seq<char>,
    pub back_color: Seq<char>,
    pub select_color: Seq<char>,
    pub comment_color: Seq<char>,
    pub hotkeys: Seq<char>,
}

impl View for SettingsForm {
    type V = FormModel;

    open spec fn view(&self) -> FormModel {
        FormModel {
            ui_lang: self.ui_lang,
            page_size: self.page_size,
            font: self.font,
            number_font: self.number_font,
            comment_font: self.comment_font,
            text_color: self.text_color@,
            back_color: self.back_color@,
            select_color: self.select_color@,
            comment_color: self.comment_color@,
            hotkeys: self.hotkeys@,
        }
    }
}

/// The place of an interface language in the settings center's choice.
pub open spec fn ui_language_index_of(language: Seq<char>) -> usize {
    if language == seq!['e', 'n'] {
        1
    } else if language == seq!['z', 'h'] {
        2
    } else {
        0
    }
}

/// The form showing some settings.
pub open spec fn form_of(m: SettingsModel) -> FormModel {
    FormModel {
        ui_lang: ui_language_index_of(m.ui_language),
        page_size: m.candidate_page_size,
        font: m.candidate_font_size,
        number_font: m.candidate_number_font_size,
        comment_font: m.candidate_comment_font_size,
        text_color: color_text(m.candidate_text_color),
        back_color: color_text(m.candidate_back_color),
        select_color: color_text(m.candidate_select_color),
        comment_color: color_text(m.candidate_comment_color),
        hotkeys: hotkeys_text_of(m.options_menu_keys),
    }
}

/// A color read from the form, or the stored one when it does not parse.
pub open spec fn form_color(text: Seq<char>, stored: u32) -> u32 {
    match color_of_text(text) {
        Some(c) => c,
        None => stored,
    }
}

/// The settings saved from a form: the stored settings with the form's
/// sizes (brought into their ranges), its colors that parse, its hotkeys
/// when any parse, and its interface language; the settings the form does
/// not show keep their stored values.
pub open spec fn collected(form: FormModel, stored: SettingsModel) -> SettingsModel {
    let keys = hotkeys_of_list(form.hotkeys);
    SettingsModel {
        candidate_page_size: clamped(form.page_size, MINIMUM_CANDIDATE_PAGE_SIZE, MAXIMUM_CANDIDATE_PAGE_SIZE),
        candidate_font_size: clamped(form.font, MINIMUM_CANDIDATE_FONT_SIZE, MAXIMUM_CANDIDATE_FONT_SIZE),
        candidate_number_font_size: clamped(form.number_font, MINIMUM_CANDIDATE_FONT_SIZE, MAXIMUM_CANDIDATE_FONT_SIZE),
        candidate_comment_font_size: clamped(form.comment_font, MINIMUM_CANDIDATE_FONT_SIZE, MAXIMUM_CANDIDATE_FONT_SIZE),
        candidate_text_color: form_color(form.text_color, stored.candidate_text_color),
        candidate_back_color: form_color(form.back_color, stored.candidate_back_color),
        candidate_select_color: form_color(form.select_color, stored.candidate_select_color),
        candidate_comment_color: form_color(form.comment_color, stored.candidate_comment_color),
        options_menu_keys: if keys.len() > 0 { keys } else { stored.options_menu_keys },
        ui_language: ui_language_name_of(form.ui_lang),
        ..stored
    }
}

impl SettingsForm {
    /// The form showing the settings.
    pub fn from_settings(settings: &ImeSettings) -> (form: SettingsForm)
        ensures
            form@ == form_of(settings@),
    {
        SettingsForm {
            ui_lang: ui_language_index(settings.ui_language.as_str()),
            page_size: settings.candidate_page_size,
            font: settings.candidate_font_size,
            number_font: settings.candidate_number_font_size,
            comment_font: settings.candidate_comment_font_size,
            text_color: color_to_hex(settings.candidate_text_color),
            back_color: color_to_hex(settings.candidate_back_color),
            select_color: color_to_hex(settings.candidate_select_color),
            comment_color: color_to_hex(settings.candidate_comment_color),
            hotkeys: hotkeys_text(&settings.options_menu_keys),
        }
    }

    /// The settings to save from the form, over the stored settings.
    pub fn collect(&self, stored: ImeSettings) -> (settings: ImeSettings)
        requires
            self.ui_lang < 3,
        ensures
            settings@ == collected(self@, stored@),
    {
        let mut s = stored;
        s.candidate_page_size = candidate_page_size_from_raw(self.page_size);
        s.candidate_font_size = candidate_font_size_from_raw(self.font);
        s.candidate_number_font_size = candidate_font_size_from_raw(self.number_font);
        s.candidate_comment_font_size = candidate_font_size_from_raw(self.comment_font);
        if let Some(v) = parse_color(self.text_color.as_str()) {
            s.candidate_text_color = v;
        }
        if let Some(v) = parse_color(self.back_color.as_str()) {
            s.candidate_back_color = v;
        }
        if let Some(v) = parse_color(self.select_color.as_str()) {
            s.candidate_select_color = v;
        }
        if let Some(v) = parse_color(self.comment_color.as_str()) {
            s.candidate_comment_color = v;
        }
        let keys = parse_hotkey_list(self.hotkeys.as_str());
        if keys.len() > 0 {
            s.options_menu_keys = keys;
        }
        s.ui_language = ui_language_name(self.ui_lang);
        s
    }
}

proof fn lemma_three_bytes(c: u32)
    requires
        c <= 0x00FF_FFFF,
    ensures
        c & 0x00FF_FFFF == c,
{
    assert(c <= 0x00FF_FFFF ==> c & 0x00FF_FFFF == c) by (bit_vector);
}

/// Saving the form that shows some settings, without editing it, gives the
/// same settings back, for settings the settings file can hold: sizes in
/// their ranges, colors of three bytes, at least one hotkey, each with a
/// key name and any of control, shift and alt, and a known interface
/// language.
pub proof fn lemma_form_roundtrip(m: SettingsModel)
    requires
        MINIMUM_CANDIDATE_PAGE_SIZE <= m.candidate_page_size <= MAXIMUM_CANDIDATE_PAGE_SIZE,
        MINIMUM_CANDIDATE_FONT_SIZE <= m.candidate_font_size <= MAXIMUM_CANDIDATE_FONT_SIZE,
        MINIMUM_CANDIDATE_FONT_SIZE <= m.candidate_number_font_size <= MAXIMUM_CANDIDATE_FONT_SIZE,
        MINIMUM_CANDIDATE_FONT_SIZE <= m.candidate_comment_font_size <= MAXIMUM_CANDIDATE_FONT_SIZE,
        m.candidate_text_color <= 0x00FF_FFFF,
        m.candidate_back_color <= 0x00FF_FFFF,
        m.candidate_select_color <= 0x00FF_FFFF,
        m.candidate_comment_color <= 0x00FF_FFFF,
        m.options_menu_keys.len() > 0,
        forall|i: int| 0 <= i < m.options_menu_keys.len() ==> is_written_hotkey(#[trigger] m.options_menu_keys[i]),
        is_ui_language(m.ui_language),
    ensures
        collected(form_of(m), m) == m,
{
    lemma_color_roundtrip(m.candidate_text_color);
    lemma_color_roundtrip(m.candidate_back_color);
    lemma_color_roundtrip(m.candidate_select_color);
    lemma_color_roundtrip(m.candidate_comment_color);
    lemma_three_bytes(m.candidate_text_color);
    lemma_three_bytes(m.candidate_back_color);
    lemma_three_bytes(m.candidate_select_color);
    lemma_three_bytes(m.candidate_comment_color);
    lemma_hotkey_list_roundtrip(m.options_menu_keys);
    let c = collected(form_of(m), m);
    assert(c.ui_language == m.ui_language);
    assert(c.options_menu_keys == m.options_menu_keys);
    assert(c == m);
}

/// Whether the settings center speaks Chinese: by its interface-language
/// choice, or, when it follows the system, when the system's interface
/// language (a Windows language id) is Chinese (primary language 0x04).
pub fn chinese_interface(ui_lang: usize, system_language: u16) -> (chinese: bool)
    ensures
        chinese == if ui_lang == 1 {
            false
        } else if ui_lang == 2 {
            true
        } else {
            system_language & 0x3ff == 0x04
        },
{
    if ui_lang == 1 {
        false
    } else if ui_lang == 2 {
        true
    } else {
        system_language & 0x3ff == 0x04
    }
}

} // verus!
