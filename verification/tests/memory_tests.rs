use rcantonese::memory::{derive_serial_fields, epoch_milliseconds, InputMemory};
use rcantonese::pattern::matches_pattern;

fn chars(s: &str) -> Vec<char> {
    s.chars().collect()
}

#[test]
fn serial_fields_of_a_phrase() {
    let fields = derive_serial_fields("你好", "nei5 hou2");
    assert_eq!(fields.char_count, 2);
    assert_eq!(fields.letter_count, 6);
    assert_eq!(fields.complexity, 33);
    // anchors n (33) and h (27)
    assert_eq!(fields.anchors, 3327);
    // n e i h o u
    assert_eq!(fields.spell, 332428273440);
}

#[test]
fn memory_counts_and_forgets() {
    let mut memory = InputMemory::new();
    assert!(!memory.is_prepared());
    assert!(!memory.handle_at("你", "nei5", true, 10));
    memory.open();
    assert!(memory.is_prepared());
    assert!(memory.handle_at("你", "nei5", true, 10));
    assert!(memory.handle_at("你", "nei5", true, 20));
    assert!(memory.handle_at("你好", "nei5 hou2", true, 30));
    assert!(!memory.handle_at("ok", "ok", false, 40));
    let entries = memory.entries();
    assert_eq!(entries.len(), 2);
    assert_eq!((entries[0].frequency, entries[0].latest), (2, 20));
    assert_eq!((entries[1].frequency, entries[1].latest), (1, 30));
    assert!(entries[0].id < entries[1].id);

    let rows = memory.match_anchors(33, 1, 5);
    assert_eq!(rows.len(), 1);
    assert_eq!(rows[0].word, "你");
    let rows = memory.match_spell(332428273440, 6, 33, 5);
    assert_eq!(rows.len(), 1);
    assert_eq!(rows[0].romanization, "nei5 hou2");

    assert!(memory.forget("你", "nei5", true));
    assert_eq!(memory.entries().len(), 1);
    assert!(memory.match_anchors(33, 1, 5).is_empty());
    assert!(memory.delete_all());
    assert!(memory.entries().is_empty());
}

#[test]
fn memory_orders_by_frequency() {
    let mut memory = InputMemory::new();
    memory.open();
    assert!(memory.handle_at("你", "nei5", true, 1));
    assert!(memory.handle_at("妳", "nei5", true, 2));
    assert!(memory.handle_at("妳", "nei5", true, 3));
    assert!(memory.handle_at("尼", "nei4", true, 4));
    let rows = memory.match_anchors(33, 1, 0);
    let words: Vec<&str> = rows.iter().map(|r| r.word.as_str()).collect();
    assert_eq!(words, vec!["妳", "你", "尼"]);
    assert_eq!(memory.match_anchors(33, 1, 2).len(), 2);
    let now_chosen = memory.handle("尼", "nei4", true);
    assert!(now_chosen);
    assert_eq!(memory.match_anchors(33, 1, 1)[0].frequency, 2);
}

#[test]
fn wildcard_patterns() {
    assert!(matches_pattern(&chars("on*"), &chars("onf"), false));
    assert!(matches_pattern(&chars("*"), &chars(""), false));
    assert!(!matches_pattern(&chars("?"), &chars(""), false));
    assert!(matches_pattern(&chars("a*b?d"), &chars("axxbcd"), false));
    assert!(!matches_pattern(&chars("A*"), &chars("abc"), false));
    assert!(matches_pattern(&chars("A%"), &chars("abc"), true));
    assert!(matches_pattern(&chars("_b_"), &chars("abc"), true));
    assert!(!matches_pattern(&chars("_b"), &chars("abc"), true));
}

#[test]
fn time_stamps_of_clock_readings() {
    assert_eq!(epoch_milliseconds(None), 0);
    assert_eq!(epoch_milliseconds(Some(1_700_000_000_123)), 1_700_000_000_123);
    assert_eq!(epoch_milliseconds(Some((1u128 << 64) + 5)), 5);
}
