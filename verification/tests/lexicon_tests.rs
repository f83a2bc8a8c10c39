use rcantonese::database::LexiconRow;
use rcantonese::lexicon::{distinct, lexicons_from_rows, stripped_tones, Lexicon};

fn lexicon(text: &str, romanization: &str, number: i64) -> Lexicon {
    Lexicon::cantonese(text.to_string(), romanization.to_string(), "nei".to_string(), None, number)
}

#[test]
fn distinct_keeps_first_of_each_word() {
    let items = vec![
        lexicon("你", "nei5", 1),
        lexicon("妳", "nei5", 4),
        lexicon("你", "nei5", 7),
        lexicon("你", "nei2", 8),
    ];
    let kept = distinct(items);
    let numbers: Vec<i64> = kept.iter().map(|l| l.number).collect();
    assert_eq!(numbers, vec![1, 4, 8]);
    assert!(distinct(Vec::new()).is_empty());
}

#[test]
fn tones_are_stripped() {
    assert_eq!(stripped_tones("nei5 hou2"), "nei hou");
    assert_eq!(stripped_tones(""), "");
}

#[test]
fn rows_become_candidates() {
    let rows = vec![
        LexiconRow { row_id: 3, word: "你好".to_string(), romanization: "nei5 hou2".to_string() },
        LexiconRow { row_id: 9, word: "你".to_string(), romanization: "nei5".to_string() },
    ];
    let plain = lexicons_from_rows(rows, "neihou", &None);
    assert_eq!(plain.len(), 2);
    assert_eq!(plain[0].text, "你好");
    assert_eq!(plain[0].mark, Some("nei hou".to_string()));
    assert_eq!(plain[1].number, 9);
    assert_eq!(plain[1].input, "neihou");
    let rows = vec![LexiconRow { row_id: 3, word: "你好".to_string(), romanization: "nei5 hou2".to_string() }];
    let marked = lexicons_from_rows(rows, "nh", &Some("n h".to_string()));
    assert_eq!(marked[0].mark, Some("n h".to_string()));
}

#[test]
fn learned_words_fit_apostrophe_input() {
    let memory = rcantonese::memory::InputMemory::new();
    let keys: Vec<rcantonese::input_key::VirtualInputKey> =
        "nei'hou".chars().filter_map(rcantonese::input_key::VirtualInputKey::for_character).collect();
    let items = vec![
        Lexicon::cantonese("你好".to_string(), "nei5 hou2".to_string(), "neihou".to_string(), None, -1),
        Lexicon::cantonese("你".to_string(), "nei5".to_string(), "nei".to_string(), None, -1),
    ];
    let kept = memory.filter_apostrophe_suggestions(&keys, items);
    assert_eq!(kept.len(), 1);
    assert_eq!(kept[0].text, "你好");
    assert_eq!(kept[0].input, "nei'hou");
    assert_eq!(kept[0].input_count, 7);
}
