use rcantonese::database::{ImeDatabase, LexiconEntry, SyllableRow};
use rcantonese::engine::CoreImeEngine;
use rcantonese::input_key::VirtualInputKey;
use rcantonese::pinyin_lookup::{pinyin_distinct, pinyin_sorted, PinyinLexicon};

fn keys(text: &str) -> Vec<VirtualInputKey> {
    text.chars().filter_map(VirtualInputKey::for_character).collect()
}

fn pinyin_entry(row_id: i64, word: &str, pinyin: &str, spell: i64, complexity: i64, anchors: i64) -> LexiconEntry {
    LexiconEntry {
        row_id,
        word: word.to_string(),
        romanization: pinyin.to_string(),
        anchors,
        char_count: word.chars().count() as i64,
        spell,
        complexity,
    }
}

fn engine() -> CoreImeEngine {
    let mut db = ImeDatabase::new();
    db.add_syllable(SyllableRow {
        alias_code: 332428,
        origin_code: 332428,
        alias: "nei".to_string(),
        origin: "nei".to_string(),
    });
    assert!(db.add_pinyin_lexicon(pinyin_entry(1, "你", "ni", 3328, 2, 33)));
    assert!(db.add_pinyin_lexicon(pinyin_entry(2, "你好", "ni hao", 3328272034, 23, 3327)));
    CoreImeEngine::prepare_with(db).unwrap()
}

fn lexicon(text: &str, pinyin: &str, input: &str, number: i64) -> PinyinLexicon {
    PinyinLexicon::new(text.to_string(), pinyin.to_string(), input.to_string(), None, number)
}

#[test]
fn pinyin_candidates_are_ordered_by_keys_then_number() {
    let items = vec![lexicon("a", "a", "x", 5), lexicon("b", "b", "xy", 9), lexicon("c", "c", "x", 2), lexicon("d", "d", "xy", 1)];
    let sorted = pinyin_sorted(&items);
    let texts: Vec<&str> = sorted.iter().map(|l| l.text.as_str()).collect();
    assert_eq!(texts, vec!["d", "b", "c", "a"]);
    assert_eq!(lexicon("a", "a", "xyz", 0).mark, "xyz");
}

#[test]
fn pinyin_distinct_keeps_first_of_each_word() {
    let items = vec![lexicon("你", "ni", "ni", 1), lexicon("你", "ni", "n", 2), lexicon("你", "nǐ", "n", 3)];
    let kept = pinyin_distinct(&items);
    let numbers: Vec<i64> = kept.iter().map(|l| l.number).collect();
    assert_eq!(numbers, vec![1, 3]);
}

#[test]
fn pinyin_separators_keep_fitting_candidates() {
    let e = engine();
    let items = vec![lexicon("你", "ni", "ni", 3), lexicon("你好", "ni hao", "nihao", 5), lexicon("泥", "ni", "ni", 1)];
    let kept = e.filter_pinyin_syllable_separators(&keys("ni'hao"), items);
    let texts: Vec<&str> = kept.iter().map(|l| l.text.as_str()).collect();
    assert_eq!(texts, vec!["你好", "泥", "你"]);
    assert_eq!(kept[0].input, "ni'hao");
    assert_eq!(kept[0].mark, "nihao");
    assert_eq!(kept[1].input, "ni'");
    assert!(e.filter_pinyin_syllable_separators(&keys("'ni"), Vec::new()).is_empty());
}

#[test]
fn pinyin_rows_become_candidates() {
    let e = engine();
    let spelled = e.pinyin_rows_by_spell(&keys("ni"), 2, None, None, None);
    assert_eq!(spelled.len(), 1);
    assert_eq!(spelled[0].text, "你");
    assert_eq!(spelled[0].input, "ni");
    assert_eq!(spelled[0].mark, "ni");
    let anchored = e.pinyin_rows_by_anchors(&keys("nh"), None, None);
    assert_eq!(anchored.len(), 1);
    assert_eq!(anchored[0].text, "你好");
    assert_eq!(anchored[0].mark, "nh");
}

#[test]
fn pinyin_slices_search_leading_keys() {
    let e = engine();
    let found = e.process_pinyin_slices(&keys("nh"), &"nh".to_string(), None);
    let texts: Vec<&str> = found.iter().map(|l| l.text.as_str()).collect();
    assert_eq!(texts, vec!["你好", "你"]);
    assert_eq!(found[1].input, "n");
    let found = e.process_pinyin_slices(&keys("nix"), &"nix".to_string(), None);
    let texts: Vec<&str> = found.iter().map(|l| l.text.as_str()).collect();
    assert_eq!(texts, vec!["你"]);
}
