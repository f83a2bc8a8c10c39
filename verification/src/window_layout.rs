//! Where the candidate window goes, how tall it is, what its rows show
//! and how wide their text makes it.
use vstd::prelude::*;
use crate::candidate_items::CandidateItem;
use crate::candidate_pages::{current_page_of, page_bounds_of, CandidatePages};
use crate::text::{append_chars, chars_of, decimal_chars_usize, decimal_text, string_from_chars};

verus! {

/// A rectangle of the screen: left, top, right and bottom edges.
#[derive(Clone, Copy, PartialEq, Eq, Structural, Debug)]
pub struct WorkArea {
    pub left: i32,
    pub top: i32,
    pub right: i32,
    pub bottom: i32,
}

/// The larger of two integers.
pub open spec fn max_int(a: int, b: int) -> int {
    if a >= b {
        a
    } else {
        b
    }
}

/// The top of the window: below the caret when it fits above the bottom
/// edge, else above the caret line; then not above the top edge.
pub open spec fn window_top(y: int, h: int, caret_top: int, work: WorkArea) -> int {
    let flipped = if y + h > work.bottom {
        caret_top - h - 2
    } else {
        y
    };
    if flipped < work.top {
        work.top as int
    } else {
        flipped
    }
}

/// The position of a window of width `w` and height `h` wanted at
/// (`x`, `y`) below a caret whose line starts at `caret_top`, kept in the
/// work area: moved left to fit (but not past the left edge); above the
/// caret line when there is no room below; then held between the top and
/// bottom edges, the top edge winning.
pub open spec fn clamped_position(x: int, y: int, w: int, h: int, caret_top: int, work: WorkArea) -> (int, int) {
    let high = max_int(work.right - w, work.left as int);
    let nx = if x < work.left {
        work.left as int
    } else if x > high {
        high
    } else {
        x
    };
    let top = window_top(y, h, caret_top, work);
    let ny = if top + h > work.bottom {
        max_int(work.bottom - h, work.top as int)
    } else {
        top
    };
    (nx, ny)
}

/// Keeps a candidate window of width `w` and height `h`, wanted at
/// (`x`, `y`) below a caret line starting at `caret_top`, inside the work
/// area of its monitor.
pub fn clamp_to_work_area(x: i32, y: i32, w: i32, h: i32, caret_top: i32, work: WorkArea) -> (pos: (
    i32,
    i32,
))
    requires
        i32::MIN <= work.right - w <= i32::MAX,
        i32::MIN <= y + h <= i32::MAX,
        y + h > work.bottom ==> caret_top - h <= i32::MAX && i32::MIN <= caret_top - h - 2,
        i32::MIN <= window_top(y as int, h as int, caret_top as int, work) + h <= i32::MAX,
        window_top(y as int, h as int, caret_top as int, work) + h > work.bottom ==> i32::MIN
            <= work.bottom - h <= i32::MAX,
    ensures
        (pos.0 as int, pos.1 as int) == clamped_position(
            x as int,
            y as int,
            w as int,
            h as int,
            caret_top as int,
            work,
        ),
{
    let room = work.right - w;
    let high = if room > work.left {
        room
    } else {
        work.left
    };
    let nx = if x < work.left {
        work.left
    } else if x > high {
        high
    } else {
        x
    };
    let mut ny = if y + h > work.bottom {
        caret_top - h - 2
    } else {
        y
    };
    if ny < work.top {
        ny = work.top;
    }
    if ny + h > work.bottom {
        let lowest = work.bottom - h;
        ny = if lowest > work.top {
            lowest
        } else {
            work.top
        };
    }
    (nx, ny)
}

/// The height of a row: the largest of the three font sizes, and 10.
pub fn row_height(candidate_font_size: u32, comment_font_size: u32, number_font_size: u32) -> (h: i32)
    requires
        candidate_font_size <= i32::MAX - 10,
        comment_font_size <= i32::MAX - 10,
        number_font_size <= i32::MAX - 10,
    ensures
        h == max_int(max_int(candidate_font_size as int, comment_font_size as int), number_font_size as int)
            + 10,
{
    let a = if candidate_font_size >= comment_font_size {
        candidate_font_size
    } else {
        comment_font_size
    };
    let b = if a >= number_font_size {
        a
    } else {
        number_font_size
    };
    b as i32 + 10
}

/// The number of rows the window shows: the candidates of the current
/// page, at most a page, at least one.
pub open spec fn shown_rows(pages: CandidatePages, page_size: usize) -> int {
    let bounds = page_bounds_of(pages@, current_page_of(pages@));
    let on_page: int = match bounds {
        Some((first, last)) => last - first + 1,
        None => 0,
    };
    let limit: int = if page_size == 0 { 1 } else { page_size as int };
    let rows = if on_page < limit { on_page } else { limit };
    if rows < 1 { 1 } else { rows }
}

/// The height of the window: its rows, each as high as the largest font
/// size and 10, and a margin of 8.
pub fn measure_height(
    pages: &CandidatePages,
    page_size: usize,
    candidate_font_size: u32,
    comment_font_size: u32,
    number_font_size: u32,
) -> (h: u32)
    requires
        candidate_font_size <= i32::MAX - 10,
        comment_font_size <= i32::MAX - 10,
        number_font_size <= i32::MAX - 10,
        shown_rows(*pages, page_size) * (max_int(
            max_int(candidate_font_size as int, comment_font_size as int),
            number_font_size as int,
        ) + 10) + 8 <= i32::MAX,
    ensures
        h == shown_rows(*pages, page_size) * (max_int(
            max_int(candidate_font_size as int, comment_font_size as int),
            number_font_size as int,
        ) + 10) + 8,
{
    let height = row_height(candidate_font_size, comment_font_size, number_font_size);
    let page = pages.current_page();
    let on_page: usize = match pages.page_bounds(page) {
        Some((first, last)) => {
            if last >= first {
                last - first + 1
            } else {
                0
            }
        },
        None => 0,
    };
    let limit: usize = if page_size == 0 {
        1
    } else {
        page_size
    };
    let rows = if on_page < limit {
        on_page
    } else {
        limit
    };
    let rows = if rows < 1 {
        1
    } else {
        rows
    };
    assert(rows == shown_rows(*pages, page_size));
    assert(rows <= i32::MAX && rows * height <= i32::MAX - 8) by (nonlinear_arith)
        requires
            rows >= 1,
            height >= 10,
            rows * height + 8 <= i32::MAX,
    ;
    ((rows as i32) * height + 8) as u32
}


// ---------------------------------------------------------------------
// What the rows show
// ---------------------------------------------------------------------

/// What a row of the candidate window shows: a separator line, or the
/// numbered text of a candidate with its comment, highlighted when it is
/// the selected one.
pub struct PaintRow {
    pub separator: bool,
    pub label: String,
    pub comment: Option<String>,
    pub selected: bool,
}

/// A painted row as values.
pub struct PaintRowView {
    pub separator: bool,
    pub label: Seq<char>,
    pub comment: Option<Seq<char>>,
    pub selected: bool,
}

impl View for PaintRow {
    type V = PaintRowView;

    open spec fn view(&self) -> PaintRowView {
        PaintRowView {
            separator: self.separator,
            label: self.label@,
            comment: match self.comment {
                Some(c) => Some(c@),
                None => None,
            },
            selected: self.selected,
        }
    }
}

/// The views of painted rows.
pub open spec fn paint_row_views(rows: Seq<PaintRow>) -> Seq<PaintRowView> {
    rows.map_values(|r: PaintRow| r@)
}

/// How many of the `k` candidates from `first` on are not separators.
pub open spec fn shown_before(items: Seq<CandidateItem>, first: int, k: int) -> nat {
    items.subrange(first, first + k).filter(|x: CandidateItem| !x.separator).len()
}

/// The row of a candidate numbered `number`: a separator stays a bare
/// line; another candidate shows "number. text", and its comment after a
/// space when it has one.
pub open spec fn paint_row_of(item: CandidateItem, number: nat, selected: bool) -> PaintRowView {
    if item.separator {
        PaintRowView { separator: true, label: Seq::empty(), comment: None, selected: false }
    } else {
        PaintRowView {
            separator: false,
            label: decimal_text(number) + seq!['.', ' '] + item.text@,
            comment: if item.comment@.len() == 0 {
                None
            } else {
                Some(seq![' '] + item.comment@)
            },
            selected,
        }
    }
}

/// The rows of the `k` candidates from `first` on, numbered from 1 with
/// separators not counted.
pub open spec fn painted(items: Seq<CandidateItem>, first: int, k: nat, selection: usize) -> Seq<PaintRowView>
    decreases k,
{
    if k == 0 {
        Seq::empty()
    } else {
        let j = (k - 1) as nat;
        painted(items, first, j, selection).push(
            paint_row_of(items[first + j], shown_before(items, first, j as int) + 1, first + j == selection),
        )
    }
}

/// How many candidates of the page from `first` to `last` there are.
pub open spec fn rows_on_page(count: usize, first: int, last: int) -> nat {
    if first >= count || last < first {
        0
    } else if last < count {
        (last - first + 1) as nat
    } else {
        (count - first) as nat
    }
}

/// The rows the window paints: those of the current page.
pub open spec fn paint_rows_of(pages: CandidatePages) -> Seq<PaintRowView> {
    match page_bounds_of(pages@, current_page_of(pages@)) {
        Some((first, last)) => painted(
            pages@.items,
            first as int,
            rows_on_page(pages@.count, first as int, last as int),
            pages@.selection,
        ),
        None => Seq::empty(),
    }
}

fn paint_row(item: &CandidateItem, number: usize, selected: bool) -> (row: PaintRow)
    ensures
        row@ == paint_row_of(*item, number as nat, selected),
{
    if item.separator {
        return PaintRow { separator: true, label: String::new(), comment: None, selected: false };
    }
    let mut label = decimal_chars_usize(number);
    label.push('.');
    label.push(' ');
    append_chars(&mut label, &chars_of(item.text.as_str()));
    let comment_chars = chars_of(item.comment.as_str());
    let comment = if comment_chars.len() == 0 {
        None
    } else {
        let mut c: Vec<char> = Vec::new();
        c.push(' ');
        append_chars(&mut c, &comment_chars);
        assert(c@ =~= seq![' '] + item.comment@);
        Some(string_from_chars(&c))
    };
    assert(label@ =~= decimal_text(number as nat) + seq!['.', ' '] + item.text@);
    PaintRow { separator: false, label: string_from_chars(&label), comment, selected }
}

/// The rows the window paints for its current page, in order.
pub fn paint_rows(pages: &CandidatePages) -> (rows: Vec<PaintRow>)
    ensures
        paint_row_views(rows@) == paint_rows_of(*pages),
{
    let page = pages.current_page();
    let mut rows: Vec<PaintRow> = Vec::new();
    let (first, last) = match pages.page_bounds(page) {
        Some(b) => b,
        None => {
            assert(paint_row_views(rows@) =~= Seq::<PaintRowView>::empty());
            return rows;
        },
    };
    let all = pages.items();
    let count = all.len();
    let ghost items = pages@.items;
    let ghost selection = pages@.selection;
    let ghost keep = |x: CandidateItem| !x.separator;
    let total: usize = if first >= count || last < first {
        0
    } else if last < count {
        last - first + 1
    } else {
        count - first
    };
    let mut shown: usize = 0;
    let mut k: usize = 0;
    proof {
        assert(items.subrange(first as int, first as int) =~= Seq::<CandidateItem>::empty());
        reveal(Seq::filter);
        assert(paint_row_views(rows@) =~= Seq::<PaintRowView>::empty());
    }
    while k < total
        invariant
            0 <= k <= total,
            count == pages@.count,
            items == pages@.items,
            all@ == items,
            items.len() == count,
            selection == pages@.selection,
            keep == (|x: CandidateItem| !x.separator),
            first + total <= count,
            total == rows_on_page(count, first as int, last as int),
            shown == shown_before(items, first as int, k as int),
            shown <= k,
            paint_row_views(rows@) == painted(items, first as int, k as nat, selection),
        decreases total - k,
    {
        let index = first + k;
        let item = &all[index];
        let selected = index == pages.selection();
        proof {
            let sub = items.subrange(first as int, first + k);
            assert(items.subrange(first as int, first + k + 1) =~= sub.push(items[first + k]));
            sub.lemma_filter_push(items[first + k], keep);
        }
        let row = paint_row(item, shown + 1, selected);
        let ghost before = rows@;
        rows.push(row);
        proof {
            assert(paint_row_views(rows@) =~= paint_row_views(before).push(row@));
        }
        if !item.separator {
            shown += 1;
        }
        k += 1;
    }
    rows
}


/// The right edge of a painted row: its label starts 8 from the left; a
/// comment starts 6 after the label.
pub open spec fn row_right(extent: (i32, Option<i32>)) -> int {
    match extent.1 {
        Some(comment) => 8 + extent.0 + 6 + comment,
        None => 8 + extent.0,
    }
}

/// Whether the edges of a row, as they are added up, stay within `i32`.
pub open spec fn row_edges_fit(extent: (i32, Option<i32>)) -> bool {
    &&& i32::MIN <= 8 + extent.0 <= i32::MAX
    &&& extent.1 is Some ==> i32::MIN <= 8 + extent.0 + 6 <= i32::MAX
    &&& i32::MIN <= row_right(extent) <= i32::MAX
}

/// The rightmost edge of the rows, 0 when there is none further right.
pub open spec fn max_row_right(extents: Seq<(i32, Option<i32>)>) -> int
    decreases extents.len(),
{
    if extents.len() == 0 {
        0
    } else {
        max_int(max_row_right(extents.drop_last()), row_right(extents.last()))
    }
}

/// The width the window needs for rows whose label (and comment) text
/// measure as given: the rightmost edge and a margin of 8.
pub fn needed_width(extents: &Vec<(i32, Option<i32>)>) -> (width: i32)
    requires
        forall|i: int| 0 <= i < extents@.len() ==> row_edges_fit(#[trigger] extents@[i]),
        max_row_right(extents@) + 8 <= i32::MAX,
    ensures
        width == max_row_right(extents@) + 8,
{
    let mut max_right: i32 = 0;
    let mut i: usize = 0;
    while i < extents.len()
        invariant
            0 <= i <= extents@.len(),
            forall|j: int| 0 <= j < extents@.len() ==> row_edges_fit(#[trigger] extents@[j]),
            max_right == max_row_right(extents@.take(i as int)),
        decreases extents.len() - i,
    {
        let (label, comment) = extents[i];
        proof {
            assert(row_edges_fit(extents@[i as int]));
            assert(extents@.take(i + 1).drop_last() =~= extents@.take(i as int));
        }
        let right = match comment {
            Some(c) => 8 + label + 6 + c,
            None => 8 + label,
        };
        if right > max_right {
            max_right = right;
        }
        i += 1;
    }
    proof {
        assert(extents@.take(extents@.len() as int) =~= extents@);
    }
    max_right + 8
}


// ---------------------------------------------------------------------
// How wide the text of a page is
// ---------------------------------------------------------------------

/// The number written before the `i`-th candidate of a page that starts at
/// `start` when the window measures its width: `i + 1 - start`, wrapping
/// around the range of `usize` (it is `i + 1` on the first page).
pub open spec fn measure_number(i: int, start: int) -> nat {
    if i + 1 >= start {
        (i + 1 - start) as nat
    } else {
        (i + 1 - start + usize::MAX + 1) as nat
    }
}

/// The line measured for a candidate: "number. text", and two spaces and
/// its comment when it has one.
pub open spec fn measure_line_of(item: CandidateItem, number: nat) -> Seq<char> {
    let head = decimal_text(number) + seq!['.', ' '] + item.text@;
    if item.comment@.len() == 0 {
        head
    } else {
        head + seq![' ', ' '] + item.comment@
    }
}

/// The lines the window measures for its current page; `None` when there
/// is no candidate on it.
pub open spec fn measure_lines_of(pages: CandidatePages) -> Option<Seq<Seq<char>>> {
    let v = pages@;
    match page_bounds_of(v, current_page_of(v)) {
        Some((start, end)) => {
            let last: int = if end as int <= v.count - 1 { end as int } else { v.count - 1 };
            if v.count == 0 || start > last {
                None
            } else {
                Some(
                    Seq::new(
                        (last - start + 1) as nat,
                        |i: int| measure_line_of(v.items[start + i], measure_number(i, start as int)),
                    ),
                )
            }
        },
        None => None,
    }
}

/// The lines the window measures to find its width: those of the
/// candidates of its current page.
pub fn measure_lines(pages: &CandidatePages) -> (lines: Option<Vec<String>>)
    ensures
        match lines {
            Some(l) => measure_lines_of(*pages) matches Some(m) && l@.map_values(|s: String| s@) == m,
            None => measure_lines_of(*pages) is None,
        },
{
    let page = pages.current_page();
    let (start, end) = match pages.page_bounds(page) {
        Some(b) => b,
        None => return None,
    };
    let all = pages.items();
    let count = all.len();
    if count == 0 {
        return None;
    }
    let last = if end <= count - 1 {
        end
    } else {
        count - 1
    };
    if start > last {
        return None;
    }
    let ghost target = Seq::new(
        (last - start + 1) as nat,
        |i: int| measure_line_of(pages@.items[start + i], measure_number(i, start as int)),
    );
    let mut lines: Vec<String> = Vec::new();
    let mut i: usize = 0;
    while i <= last - start
        invariant
            start <= last < count,
            count == pages@.count,
            all@ == pages@.items,
            all@.len() == count,
            i <= last - start + 1,
            target == Seq::new(
                (last - start + 1) as nat,
                |i: int| measure_line_of(pages@.items[start + i], measure_number(i, start as int)),
            ),
            lines@.map_values(|s: String| s@) == target.take(i as int),
        decreases last - start + 1 - i,
    {
        let item = &all[start + i];
        let number = (i + 1).wrapping_sub(start);
        assert(number == measure_number(i as int, start as int));
        let mut line = decimal_chars_usize(number);
        line.push('.');
        line.push(' ');
        append_chars(&mut line, &chars_of(item.text.as_str()));
        let comment = chars_of(item.comment.as_str());
        if comment.len() > 0 {
            line.push(' ');
            line.push(' ');
            append_chars(&mut line, &comment);
        }
        assert(line@ =~= measure_line_of(*item, number as nat));
        let text = string_from_chars(&line);
        let ghost before = lines@;
        lines.push(text);
        proof {
            assert(lines@.map_values(|s: String| s@) =~= before.map_values(|s: String| s@).push(text@));
            assert(target.take(i + 1) =~= target.take(i as int).push(target[i as int]));
        }
        i += 1;
    }
    proof {
        assert(target.take(i as int) =~= target);
    }
    Some(lines)
}

/// The largest of the measured widths, and 40.
pub open spec fn widest(extents: Seq<i32>) -> int
    decreases extents.len(),
{
    if extents.len() == 0 {
        40
    } else {
        max_int(widest(extents.drop_last()), extents.last() as int)
    }
}

/// The width of the window from the measured widths of its lines: the
/// widest of them (at least 40) and a margin of 16.
pub fn measured_width(extents: &Vec<i32>) -> (width: u32)
    requires
        widest(extents@) + 16 <= i32::MAX,
    ensures
        width == widest(extents@) + 16,
{
    let mut max_cx: i32 = 40;
    let mut i: usize = 0;
    while i < extents.len()
        invariant
            0 <= i <= extents@.len(),
            max_cx == widest(extents@.take(i as int)),
        decreases extents.len() - i,
    {
        proof {
            assert(extents@.take(i + 1).drop_last() =~= extents@.take(i as int));
        }
        if extents[i] > max_cx {
            max_cx = extents[i];
        }
        i += 1;
    }
    proof {
        assert(extents@.take(extents@.len() as int) =~= extents@);
        lemma_widest_at_least_forty(extents@);
    }
    (max_cx + 16) as u32
}

proof fn lemma_widest_at_least_forty(extents: Seq<i32>)
    ensures
        widest(extents) >= 40,
    decreases extents.len(),
{
    if extents.len() > 0 {
        lemma_widest_at_least_forty(extents.drop_last());
    }
}

} // verus!
