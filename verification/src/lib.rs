//! Core logic of a Cantonese (Jyutping) input method: settings and their
//! text format, the settings center and the language-bar menu, keystroke
//! classification and what each key does, modifier tracking, punctuation
//! and symbol lists, the candidate list and its window, the lexicon tables
//! and their queries, syllable segmentation and the learned-word memory.
pub mod text;
pub mod settings;
pub mod config;
pub mod settings_form;
pub mod settings_menu;
pub mod color;
pub mod modifiers;
pub mod input_key;
pub mod keytable;
pub mod punctuation;
pub mod key_events;
pub mod preserved_keys;
pub mod candidate_items;
pub mod candidate_pages;
pub mod window_layout;
pub mod display_attributes;
pub mod pattern;
pub mod database;
pub mod split;
pub mod segmenter;
pub mod engine;
pub mod pinyin;
pub mod memory;
pub mod memory_ranking;
pub mod lexicon;
pub mod apostrophe_filter;
pub mod pinyin_lookup;
