use rcantonese::candidate_items::CandidateItem;
use rcantonese::candidate_pages::CandidatePages;
use rcantonese::keytable::KeystrokeFunction;
use rcantonese::window_layout::{
    clamp_to_work_area, measure_height, measure_lines, measured_width, needed_width, paint_rows,
    row_height, WorkArea,
};

fn items(count: usize) -> Vec<CandidateItem> {
    (0..count)
        .map(|i| CandidateItem {
            text: format!("c{}", i),
            comment: String::new(),
            input_count: i + 1,
            separator: false,
        })
        .collect()
}

fn pages(count: usize, page_size: usize) -> CandidatePages {
    let mut pages = CandidatePages::new();
    pages.set_items(items(count), page_size);
    pages
}

#[test]
fn pages_start_at_multiples_of_the_page_size() {
    let p = pages(23, 9);
    assert_eq!(p.page_starts(), &vec![0, 9, 18]);
    assert_eq!(p.count(), 23);
    assert_eq!(p.selection(), 0);
    assert_eq!(p.current_page(), 0);
    assert_eq!(p.page_bounds(0), Some((0, 8)));
    assert_eq!(p.page_bounds(2), Some((18, 22)));
    assert_eq!(p.page_bounds(3), None);
}

#[test]
fn empty_list_has_one_page() {
    let p = pages(0, 9);
    assert_eq!(p.page_starts(), &vec![0]);
    assert_eq!(p.page_bounds(0), Some((0, 0)));
    assert_eq!(p.selected_index(), None);
}

#[test]
fn zero_page_size_counts_as_one() {
    let p = pages(3, 0);
    assert_eq!(p.page_starts(), &vec![0, 1, 2]);
}

#[test]
fn move_selection_stays_in_the_list() {
    let mut p = pages(5, 3);
    assert!(p.move_selection(0));
    assert!(!p.move_selection(-1));
    assert_eq!(p.selection(), 0);
    assert!(p.move_selection(4));
    assert_eq!(p.selection(), 4);
    assert!(!p.move_selection(1));
    assert!(p.move_selection(-4));
    assert_eq!(p.selection(), 0);
}

#[test]
fn move_selection_back_and_forth() {
    let mut p = pages(10, 4);
    assert!(p.move_selection(6));
    assert!(p.move_selection(-6));
    assert_eq!(p.selection(), 0);
}

#[test]
fn set_selection_minus_one_selects_last() {
    let mut p = pages(7, 3);
    assert!(p.set_selection(-1));
    assert_eq!(p.selection(), 6);
    assert_eq!(p.current_page(), 2);
    assert!(!p.set_selection(7));
    assert!(!p.set_selection(-2));
    assert_eq!(p.selection(), 6);
    let mut empty = pages(0, 3);
    assert!(!empty.set_selection(-1));
}

#[test]
fn selection_in_page_counts_from_page_start() {
    let mut p = pages(8, 3);
    assert!(p.set_selection(4));
    assert_eq!(p.current_page(), 1);
    assert!(p.set_selection_in_page(2));
    assert_eq!(p.selection(), 5);
    assert!(p.set_selection(7));
    assert!(!p.set_selection_in_page(2));
    assert_eq!(p.selection(), 7);
    assert!(!p.set_selection_in_page(8));
}

#[test]
fn move_page_keeps_place_or_takes_last() {
    let mut p = pages(8, 3);
    assert!(p.set_selection(2));
    assert!(p.move_page(1));
    assert_eq!(p.selection(), 5);
    assert!(p.move_page(1));
    assert_eq!(p.selection(), 7);
    assert!(!p.move_page(1));
    assert!(p.move_page(-2));
    assert_eq!(p.selection(), 1);
    assert!(!p.move_page(-1));
    assert!(p.move_page(0));
}

#[test]
fn arrow_keys_move_selection_and_pages() {
    let mut p = pages(10, 4);
    assert!(p.advise_arrow_key(KeystrokeFunction::MoveDown));
    assert_eq!(p.selection(), 1);
    assert!(p.advise_arrow_key(KeystrokeFunction::MovePageDown));
    assert_eq!(p.selection(), 5);
    assert!(p.advise_arrow_key(KeystrokeFunction::MovePageBottom));
    assert_eq!(p.selection(), 9);
    assert!(p.advise_arrow_key(KeystrokeFunction::MovePageUp));
    assert_eq!(p.selection(), 5);
    assert!(p.advise_arrow_key(KeystrokeFunction::MoveUp));
    assert_eq!(p.selection(), 4);
    assert!(p.advise_arrow_key(KeystrokeFunction::MovePageTop));
    assert_eq!(p.selection(), 0);
    assert!(!p.advise_arrow_key(KeystrokeFunction::Convert));
    assert_eq!(p.selection(), 0);
}

#[test]
fn selection_is_on_current_page() {
    let mut p = pages(23, 9);
    for i in 0..23 {
        assert!(p.set_selection(i));
        let page = p.current_page();
        assert_eq!(page, (i as usize) / 9);
        let (first, last) = p.page_bounds(page).unwrap();
        assert!(first <= i as usize && i as usize <= last);
    }
}

#[test]
fn rebuild_moves_selection_into_list() {
    let mut p = pages(10, 4);
    assert!(p.set_selection(9));
    p.set_items(items(10), 4);
    assert_eq!(p.selection(), 0);
    assert!(p.set_selection(9));
    p.rebuild_pages(5);
    assert_eq!(p.selection(), 9);
    assert_eq!(p.page_starts(), &vec![0, 5]);
    p.clear_list();
    assert_eq!(p.count(), 0);
    assert_eq!(p.page_starts().len(), 0);
    assert_eq!(p.current_page(), 0);
}

#[test]
fn page_starts_can_be_replaced() {
    let mut p = pages(10, 4);
    p.set_page_starts(vec![0, 3, 6]);
    assert_eq!(p.page_bounds(0), Some((0, 2)));
    assert_eq!(p.page_bounds(2), Some((6, 9)));
    assert!(p.set_selection(4));
    assert_eq!(p.current_page(), 1);
}

#[test]
fn selected_candidate_text_and_input_count() {
    let mut p = pages(5, 3);
    assert_eq!(p.selected_candidate_string(), Some("c0".to_string()));
    assert_eq!(p.selected_input_count(), 1);
    assert!(p.move_selection(3));
    assert_eq!(p.selected_candidate_string(), Some("c3".to_string()));
    assert_eq!(p.selected_input_count(), 4);
    assert_eq!(p.item_text(4), Some("c4".to_string()));
    assert_eq!(p.item_text(5), None);
    assert_eq!(p.selected_index(), Some(3));
    p.clear_list();
    assert_eq!(p.selected_candidate_string(), None);
    assert_eq!(p.selected_input_count(), 0);
}

#[test]
fn window_stays_in_work_area() {
    let work = WorkArea { left: 0, top: 0, right: 1920, bottom: 1040 };
    assert_eq!(clamp_to_work_area(100, 200, 300, 200, 180, work), (100, 200));
    // Too far right: moved left to fit.
    assert_eq!(clamp_to_work_area(1800, 200, 300, 200, 180, work), (1620, 200));
    // No room below the caret: above its line.
    assert_eq!(clamp_to_work_area(100, 950, 300, 200, 930, work), (100, 728));
    // Left of the work area.
    assert_eq!(clamp_to_work_area(-50, 200, 300, 200, 180, work), (0, 200));
    // Taller than the work area: the top edge wins.
    assert_eq!(clamp_to_work_area(100, 10, 300, 2000, 0, work), (100, 0));
}

#[test]
fn window_height_follows_rows() {
    assert_eq!(row_height(16, 13, 13), 26);
    assert_eq!(row_height(11, 20, 13), 30);
    let p = pages(10, 4);
    assert_eq!(measure_height(&p, 4, 16, 13, 13), 4 * 26 + 8);
    let mut last = pages(10, 4);
    assert!(last.set_selection(9));
    assert_eq!(measure_height(&last, 4, 16, 13, 13), 2 * 26 + 8);
    let empty = pages(0, 4);
    assert_eq!(measure_height(&empty, 4, 16, 13, 13), 26 + 8);
}

#[test]
fn painted_rows_number_candidates_of_the_page() {
    let mut list = items(12);
    list[1].comment = "jyut".to_string();
    list[2].separator = true;
    list[2].text = String::new();
    let mut p = CandidatePages::new();
    p.set_items(list, 5);
    let rows = paint_rows(&p);
    assert_eq!(rows.len(), 5);
    assert_eq!(rows[0].label, format!("1. {}", p.items()[0].text));
    assert!(rows[0].selected);
    assert_eq!(rows[0].comment, None);
    assert_eq!(rows[1].comment, Some(" jyut".to_string()));
    assert!(rows[2].separator);
    assert_eq!(rows[2].label, "");
    assert_eq!(rows[3].label, format!("3. {}", p.items()[3].text));
    assert!(!rows[3].selected);
}

#[test]
fn painted_rows_of_a_later_page() {
    let mut p = pages(12, 5);
    p.move_page(2);
    let rows = paint_rows(&p);
    assert_eq!(rows.len(), 2);
    assert_eq!(rows[0].label, format!("1. {}", p.items()[10].text));
    assert_eq!(rows[1].label, format!("2. {}", p.items()[11].text));
    assert!(paint_rows(&CandidatePages::new()).is_empty());
}

#[test]
fn needed_width_is_rightmost_edge_and_margin() {
    assert_eq!(needed_width(&vec![]), 8);
    assert_eq!(needed_width(&vec![(30, None), (20, Some(10))]), 8 + 20 + 6 + 10 + 8);
    assert_eq!(needed_width(&vec![(100, None), (20, Some(10))]), 8 + 100 + 8);
}

#[test]
fn measured_lines_of_the_first_page() {
    let mut list = items(3);
    list[1].comment = "jyut".to_string();
    let mut p = CandidatePages::new();
    p.set_items(list, 5);
    let lines = measure_lines(&p).unwrap();
    assert_eq!(lines, vec!["1. c0".to_string(), "2. c1  jyut".to_string(), "3. c2".to_string()]);
    assert_eq!(measure_lines(&CandidatePages::new()), None);
}

#[test]
fn measured_lines_of_a_later_page_number_from_the_page_start() {
    let mut p = pages(12, 5);
    p.move_page(1);
    let lines = measure_lines(&p).unwrap();
    assert_eq!(lines.len(), 5);
    assert_eq!(lines[4], "0. c9");
    assert_eq!(lines[0], format!("{}. c5", usize::MAX - 3));
}

#[test]
fn measured_width_takes_the_widest_line() {
    assert_eq!(measured_width(&vec![]), 56);
    assert_eq!(measured_width(&vec![10, 30]), 56);
    assert_eq!(measured_width(&vec![10, 130, 90]), 146);
}
