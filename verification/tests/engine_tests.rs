use rcantonese::database::{
    CangjieVariant, EmojiSkinEntry, ImeDatabase, LexiconEntry, PinyinSyllableRow, ShapeEntry,
    SyllableRow,
};
use rcantonese::engine::{
    pinyin_scheme_complexity, pinyin_scheme_keys, pinyin_scheme_length, pinyin_scheme_mark,
    pinyin_scheme_text, split, split_keys, suffix_anchor_text, CoreImeEngine,
};
use rcantonese::input_key::VirtualInputKey;
use rcantonese::lexicon::Lexicon;

fn lexicon_entry(row_id: i64, word: &str, romanization: &str, spell: i64, complexity: i64) -> LexiconEntry {
    LexiconEntry {
        row_id,
        word: word.to_string(),
        romanization: romanization.to_string(),
        anchors: 0,
        char_count: word.chars().count() as i64,
        spell,
        complexity,
    }
}

fn syllable(alias_code: i64, origin_code: i64, text: &str) -> SyllableRow {
    SyllableRow { alias_code, origin_code, alias: text.to_string(), origin: text.to_string() }
}

/// A small lexicon database: the syllables nei and hou, a few words and
/// their Cangjie codes.
fn sample_database() -> ImeDatabase {
    let mut db = ImeDatabase::new();
    db.add_syllable(syllable(332428, 332428, "nei"));
    db.add_syllable(syllable(273440, 273440, "hou"));
    assert!(db.add_lexicon(lexicon_entry(1, "你", "nei5", 332428, 3)));
    assert!(db.add_lexicon(lexicon_entry(2, "好", "hou2", 273440, 3)));
    assert!(db.add_lexicon(lexicon_entry(3, "你好", "nei5 hou2", 332428273440, 33)));
    assert!(db.add_lexicon(lexicon_entry(4, "妳", "nei5", 332428, 3)));
    for (row_id, word, text, complex) in [(10, "你", "onf", 3), (11, "佢", "osjr", 4), (12, "們", "oan", 3), (13, "係", "ohvif", 5)] {
        assert!(db.add_cangjie5(ShapeEntry {
            row_id,
            word: word.to_string(),
            code: 0,
            text: text.to_string(),
            complex,
        }));
    }
    assert!(db.add_pinyin_syllable(PinyinSyllableRow { code: 332428, syllable: "nei".to_string() }));
    assert!(db.add_pinyin_syllable(PinyinSyllableRow { code: 2734, syllable: "ho".to_string() }));
    db.add_emoji_skin(EmojiSkinEntry { source: "1F44D".to_string(), target: "1F44D 1F3FB".to_string() });
    db
}

fn keys(text: &str) -> Vec<VirtualInputKey> {
    text.chars().filter_map(VirtualInputKey::for_character).collect()
}

#[test]
fn engine_prepares() {
    let engine = CoreImeEngine::prepare_with(sample_database()).expect("engine prepare");
    assert!(engine.is_prepared());
}

#[test]
fn segment_neihou() {
    let engine = CoreImeEngine::prepare_with(sample_database()).unwrap();
    let seg = engine.segment(&keys("neihou"));
    assert!(!seg.is_empty());
    // best scheme should be nei + hou
    let first: Vec<String> = seg[0].iter().map(|s| s.origin_text()).collect();
    assert_eq!(first, vec!["nei", "hou"]);
}

#[test]
fn reverse_lookup_by_pinyin() {
    let engine = CoreImeEngine::prepare_with(sample_database()).unwrap();
    let rows = engine.database.lookup_romanizations_for_word("你");
    assert!(rows.iter().any(|r| r.contains("nei")), "got {:?}", rows);
}

#[test]
fn lookup_cangjie_by_character() {
    let engine = CoreImeEngine::prepare_with(sample_database()).unwrap();
    let rows = engine.database.query_cangjie_by_prefix(CangjieVariant::Cangjie5, "onf", 10);
    assert!(!rows.is_empty(), "expected cangjie rows for prefix onf");
}

#[test]
fn engine_needs_syllables() {
    assert!(CoreImeEngine::prepare_with(ImeDatabase::new()).is_none());
}

#[test]
fn cangjie_prefix_orders_by_complexity_then_row() {
    let db = sample_database();
    let rows = db.query_cangjie_by_prefix(CangjieVariant::Cangjie5, "o", 0);
    let words: Vec<&str> = rows.iter().map(|r| r.word.as_str()).collect();
    assert_eq!(words, vec!["你", "們", "佢", "係"]);
    let limited = db.query_cangjie_by_prefix(CangjieVariant::Cangjie5, "o", 2);
    assert_eq!(limited.len(), 2);
    assert_eq!(limited[1].word, "們");
    assert!(db.query_cangjie_by_prefix(CangjieVariant::Cangjie3, "o", 0).is_empty());
}

#[test]
fn stroke_patterns_glob_and_like() {
    let mut db = ImeDatabase::new();
    for (row_id, word, strokes, complex) in [(1, "一", "h", 1), (2, "二", "hh", 2), (3, "十", "hs", 2), (4, "三", "hhh", 3)] {
        assert!(db.add_stroke(ShapeEntry { row_id, word: word.to_string(), code: 0, text: strokes.to_string(), complex }));
    }
    let glob: Vec<String> = db.query_stroke_by_pattern("h?", false, 0).into_iter().map(|r| r.word).collect();
    assert_eq!(glob, vec!["二", "十"]);
    let like: Vec<String> = db.query_stroke_by_pattern("H%", true, 0).into_iter().map(|r| r.word).collect();
    assert_eq!(like, vec!["一", "二", "十", "三"]);
    let exact = db.query_stroke_by_pattern("HH", false, 0);
    assert!(exact.is_empty());
}

#[test]
fn rows_must_come_in_row_id_order() {
    let mut db = ImeDatabase::new();
    assert!(db.add_lexicon(lexicon_entry(5, "你", "nei5", 0, 0)));
    assert!(!db.add_lexicon(lexicon_entry(5, "好", "hou2", 0, 0)));
    assert!(!db.add_lexicon(lexicon_entry(4, "好", "hou2", 0, 0)));
    assert_eq!(db.lookup_romanizations_for_word("好").len(), 0);
}

#[test]
fn lexicon_spell_query_with_limit() {
    let db = sample_database();
    let all = db.query_lexicon_by_spell(332428, 3, -1);
    let words: Vec<&str> = all.iter().map(|r| r.word.as_str()).collect();
    assert_eq!(words, vec!["你", "妳"]);
    let one = db.query_lexicon_by_spell(332428, 3, 1);
    assert_eq!(one.len(), 1);
    assert_eq!(one[0].row_id, 1);
    assert!(db.query_lexicon_by_spell(332428, 4, -1).is_empty());
}

#[test]
fn reverse_lookup_word_falls_back_to_longest_parts() {
    let engine = CoreImeEngine::prepare_with(sample_database()).unwrap();
    let romanizations = |word: &str| -> Vec<String> {
        engine.reverse_lookup_word(word, "x", None).iter().map(|l| l.romanization.clone()).collect()
    };
    assert_eq!(romanizations("你"), vec!["nei5"]);
    assert_eq!(romanizations("好你"), vec!["hou2 nei5"]);
    assert_eq!(romanizations("你好你"), vec!["nei5 hou2 nei5"]);
    assert!(romanizations("你佢").is_empty());
    assert!(romanizations("").is_empty());
}

#[test]
fn reverse_lookup_gives_candidates_of_the_word() {
    let engine = CoreImeEngine::prepare_with(sample_database()).unwrap();
    let found = engine.reverse_lookup_word("好你", "`hounei", Some("hou nei".to_string()));
    assert_eq!(found.len(), 1);
    assert_eq!(found[0].text, "好你");
    assert_eq!(found[0].romanization, "hou2 nei5");
    assert_eq!(found[0].input, "`hounei");
    assert_eq!(found[0].mark, Some("hou nei".to_string()));
    assert_eq!(found[0].number, 0);
}

#[test]
fn spell_match_gives_candidates_of_the_rows() {
    let engine = CoreImeEngine::prepare_with(sample_database()).unwrap();
    let keys: Vec<VirtualInputKey> = "nei".chars().map(|c| VirtualInputKey::for_character(c).unwrap()).collect();
    let found = engine.spell_match(&keys, 3, "nei".to_string(), None, None);
    let words: Vec<&str> = found.iter().map(|l| l.text.as_str()).collect();
    assert_eq!(words, vec!["你", "妳"]);
    assert_eq!(found[0].mark, Some("nei".to_string()));
    assert_eq!(found[0].input, "nei");
    assert_eq!(found[0].number, 1);
    let one = engine.spell_match(&keys, 3, "nei".to_string(), Some("n".to_string()), Some(1));
    assert_eq!(one.len(), 1);
    assert_eq!(one[0].mark, Some("n".to_string()));
}

#[test]
fn pinyin_syllables_come_ordered_by_code() {
    let db = sample_database();
    let rows = db.query_pinyin_syllables();
    let codes: Vec<i64> = rows.iter().map(|r| r.code).collect();
    assert_eq!(codes, vec![2734, 332428]);
}

#[test]
fn emoji_skin_target_is_first_match() {
    let db = sample_database();
    assert_eq!(db.query_emoji_skin_target("1F44D"), Some("1F44D 1F3FB".to_string()));
    assert_eq!(db.query_emoji_skin_target("1F600"), None);
}

#[test]
fn split_drops_empty_parts() {
    assert_eq!(split(" nei5  hou2 ", ' '), vec!["nei5", "hou2"]);
    assert!(split("", ' ').is_empty());
}

#[test]
fn pinyin_segment_splits_letter_keys() {
    let engine = CoreImeEngine::prepare_with(sample_database()).unwrap();
    let seg = engine.pinyin_segment(&keys("nei'ho"));
    let texts: Vec<Vec<&str>> = seg.iter().map(|s| s.iter().map(|p| p.text.as_str()).collect()).collect();
    assert_eq!(texts, vec![vec!["nei", "ho"], vec!["nei"]]);
    assert_eq!(seg[0][1].keys.len(), 2);
    assert!(engine.pinyin_segment(&keys("xyz")).is_empty());
}

#[test]
fn pinyin_scheme_helpers() {
    let engine = CoreImeEngine::prepare_with(sample_database()).unwrap();
    let seg = engine.pinyin_segment(&keys("neiho"));
    let scheme = &seg[0];
    assert_eq!(pinyin_scheme_length(scheme), 5);
    assert_eq!(pinyin_scheme_complexity(scheme), 32);
    assert_eq!(pinyin_scheme_keys(scheme).len(), 5);
    assert_eq!(pinyin_scheme_text(scheme), "neiho");
    assert_eq!(pinyin_scheme_mark(scheme), "nei ho");
}

#[test]
fn inspect_neihou_rows() {
    let db = sample_database();
    // what the spell query finds for the keys n e i h o u (complexity 33)
    let spell = rcantonese::input_key::combined_code(&keys("neihou"));
    assert_eq!(spell, 332428273440);
    let rows = db.query_lexicon_by_spell(spell, 33, -1);
    println!("spell query rows: {}", rows.len());
    for r in rows.iter().take(5) {
        println!("  {} {}", r.word, r.romanization);
    }
}

#[test]
fn keys_split_at_apostrophes() {
    let key = |c: char| VirtualInputKey::for_character(c).unwrap();
    let apostrophe = key('\'');
    let keys: Vec<VirtualInputKey> = "'nei''hou'".chars().map(|c| key(c)).collect();
    let parts = split_keys(&keys, apostrophe);
    assert_eq!(parts.len(), 2);
    assert_eq!(parts[0], vec![key('n'), key('e'), key('i')]);
    assert_eq!(parts[1], vec![key('h'), key('o'), key('u')]);
    assert!(split_keys(&[apostrophe, apostrophe], apostrophe).is_empty());
}

#[test]
fn anchors_after_a_prefix() {
    assert_eq!(suffix_anchor_text("nei5 hou2 aa3", 0), "nha");
    assert_eq!(suffix_anchor_text("nei5 hou2 aa3", 5), "ha");
    assert_eq!(suffix_anchor_text("nei5 hou2 aa3", 6), "oa");
    assert_eq!(suffix_anchor_text("nei5", 4), "");
    assert_eq!(suffix_anchor_text("nei5", 9), "");
}

fn anchored_database() -> ImeDatabase {
    let mut db = sample_database();
    let mut entry = lexicon_entry(20, "你好", "nei5 hou2", 332428273440, 33);
    entry.anchors = 3327;
    assert!(db.add_lexicon(entry));
    let mut entry = lexicon_entry(21, "一日", "jat1 jat6", 0, 33);
    entry.anchors = 2929;
    assert!(db.add_lexicon(entry));
    let mut entry = lexicon_entry(22, "你係", "nei5 hai6", 0, 33);
    entry.anchors = 3327;
    assert!(db.add_lexicon(entry));
    db
}

#[test]
fn anchors_read_y_as_j() {
    let engine = CoreImeEngine::prepare_with(anchored_database()).unwrap();
    let found = engine.anchors_match(&keys("yy"), None, None);
    assert_eq!(found.len(), 1);
    assert_eq!(found[0].text, "一日");
    assert_eq!(found[0].input, "yy");
    assert_eq!(found[0].mark, Some("yy".to_string()));
    assert_eq!(found[0].input_count, 2);
    assert!(engine.anchors_match(&keys(""), None, None).is_empty());
    assert!(engine.anchors_match(&keys("nhnhnhnhnh"), None, None).is_empty());
    let limited = engine.anchors_match(&keys("nh"), Some("n h".to_string()), Some(1));
    assert_eq!(limited.len(), 1);
    assert_eq!(limited[0].text, "你好");
    assert_eq!(limited[0].input, "n h");
}

#[test]
fn apostrophes_keep_candidates_that_fit_the_parts() {
    let engine = CoreImeEngine::prepare_with(sample_database()).unwrap();
    let lexicons = vec![
        Lexicon::cantonese("你".to_string(), "nei5".to_string(), "nei".to_string(), None, 1),
        Lexicon::cantonese("你好".to_string(), "nei5 hou2".to_string(), "neihou".to_string(), None, 3),
        Lexicon::cantonese("好".to_string(), "hou2".to_string(), "hou".to_string(), None, 2),
    ];
    let kept = engine.filter_apostrophe_suggestions(&keys("nei'hou"), lexicons);
    let texts: Vec<&str> = kept.iter().map(|l| l.text.as_str()).collect();
    // A one-syllable candidate fits when it is as long as the first part.
    assert_eq!(texts, vec!["你好", "你", "好"]);
    assert_eq!(kept[0].input, "nei'hou");
    assert_eq!(kept[1].input, "nei'");
    assert_eq!(kept[1].input_count, 4);
    assert_eq!(kept[2].input, "hou'");
}

#[test]
fn apostrophes_fall_back_to_anchors_of_the_parts() {
    let engine = CoreImeEngine::prepare_with(anchored_database()).unwrap();
    let kept = engine.filter_apostrophe_suggestions(&keys("n'hou"), Vec::new());
    let texts: Vec<&str> = kept.iter().map(|l| l.text.as_str()).collect();
    assert_eq!(texts, vec!["你好"]);
    assert_eq!(kept[0].input, "n'hou");
    assert!(engine.filter_apostrophe_suggestions(&keys("'nei"), Vec::new()).is_empty());
}
