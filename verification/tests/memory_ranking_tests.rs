use rcantonese::memory_ranking::{peculiar_sorted, regular_sorted, stable_desc_order, MemoryLexicon};

fn entry(word: &str, frequency: i64, latest: i64, input: &str) -> MemoryLexicon {
    MemoryLexicon::new(
        word.to_string(),
        format!("{} jyut", word),
        frequency,
        latest,
        input.to_string(),
        String::new(),
    )
}

fn words(items: &[MemoryLexicon]) -> Vec<String> {
    items.iter().map(|item| item.word.clone()).collect()
}

fn sample() -> Vec<MemoryLexicon> {
    vec![
        entry("A", 1, 10, "a"),
        entry("B", 5, 1, "b"),
        entry("C", 3, 2, "c"),
        entry("D", 5, 3, "d"),
        entry("E", 0, 9, "e"),
        entry("F", 2, 8, "f"),
        entry("G", 4, 7, "g"),
        entry("H", 1, 6, "h"),
        entry("I", 0, 5, "i"),
    ]
}

#[test]
fn stable_order_keeps_ties_in_place() {
    let keys: Vec<i128> = vec![1, 5, 3, 5, 0];
    assert_eq!(stable_desc_order(&keys), vec![1, 3, 2, 0, 4]);
    assert_eq!(stable_desc_order(&Vec::new()), Vec::<usize>::new());
}

#[test]
fn regular_ranking_puts_most_chosen_then_most_recent() {
    let ranked = regular_sorted(&sample(), false);
    assert_eq!(words(&ranked), vec!["B", "D", "G", "A", "E", "F", "H", "C", "I"]);
}

#[test]
fn regular_ranking_of_ordered_input_keeps_its_order_first() {
    let ranked = regular_sorted(&sample(), true);
    assert_eq!(words(&ranked), vec!["A", "B", "C", "E", "F", "G", "H", "D", "I"]);
}

#[test]
fn regular_ranking_keeps_each_word_once() {
    let items = vec![entry("X", 2, 1, "x"), entry("Y", 1, 2, "y"), entry("X", 0, 3, "xx")];
    let ranked = regular_sorted(&items, false);
    assert_eq!(words(&ranked), vec!["X", "Y"]);
    assert_eq!(ranked[0].frequency, 2);
    assert_eq!(ranked[0].input, "x");
}

#[test]
fn regular_ranking_of_nothing_is_empty() {
    assert!(regular_sorted(&Vec::new(), false).is_empty());
}

#[test]
fn pieces_are_grouped_by_keys_consumed() {
    let items = vec![
        entry("p", 1, 0, "nei"),
        entry("q", 5, 0, "n"),
        entry("r", 2, 0, "nei"),
        entry("s", 0, 0, "ne"),
    ];
    let ranked = peculiar_sorted(&items);
    assert_eq!(words(&ranked), vec!["r", "p", "s", "q"]);
    assert_eq!(ranked[0].input_count, 3);
    assert_eq!(ranked[3].input_count, 1);
}

#[test]
fn replaced_entry_answers_new_input() {
    let item = entry("W", 3, 4, "abc");
    let moved = item.replaced("ab".to_string(), "mark".to_string());
    assert_eq!(moved.word, "W");
    assert_eq!(moved.frequency, 3);
    assert_eq!(moved.input_count, 2);
    assert_eq!(moved.mark, "mark");
}

#[test]
fn learned_word_as_lexicon() {
    let item = entry("W", 3, 4, "abc");
    let lexicon = item.to_lexicon(-1);
    assert_eq!(lexicon.text, "W");
    assert_eq!(lexicon.romanization, "W jyut");
    assert_eq!(lexicon.input, "abc");
    assert_eq!(lexicon.mark, Some(String::new()));
    assert_eq!(lexicon.number, -1);
}

#[test]
fn memory_matches_become_candidates() {
    use_memory_matches();
}

fn use_memory_matches() {
    let mut memory = rcantonese::memory::InputMemory::new();
    let keys: Vec<rcantonese::input_key::VirtualInputKey> =
        "nh".chars().filter_map(rcantonese::input_key::VirtualInputKey::for_character).collect();
    assert!(memory.memory_anchors_match(&keys, None, 5).is_empty());
    memory.open();
    assert!(memory.handle_at("你好", "nei5 hou2", true, 10));
    assert!(memory.handle_at("你好", "nei5 hou2", true, 20));
    assert!(memory.handle_at("男孩", "naam4 haai4", true, 30));
    let found = memory.memory_anchors_match(&keys, None, 5);
    let words: Vec<&str> = found.iter().map(|m| m.word.as_str()).collect();
    assert_eq!(words, vec!["你好", "男孩"]);
    assert_eq!(found[0].frequency, 2);
    assert_eq!(found[0].input, "nh");
    assert_eq!(found[0].mark, "nh");
    let spell: Vec<rcantonese::input_key::VirtualInputKey> =
        "neihou".chars().filter_map(rcantonese::input_key::VirtualInputKey::for_character).collect();
    let spelled = memory.memory_spell_match(&spell, 33, None, None, -1);
    assert_eq!(spelled.len(), 1);
    assert_eq!(spelled[0].mark, "nei hou");
    assert_eq!(spelled[0].input, "neihou");
}
