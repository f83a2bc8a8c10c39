//! The candidate list as the candidate window pages through it: how many
//! candidates there are, which one is selected, and where each page starts.
use vstd::prelude::*;
use crate::candidate_items::CandidateItem;
use crate::keytable::KeystrokeFunction;

verus! {

pub struct CandidatePages {
    items: Vec<CandidateItem>,
    selection: usize,
    page_start_indices: Vec<usize>,
}

/// The candidate rows and their number, the selected one, and the page
/// starts.
pub struct PagesView {
    pub items: Seq<CandidateItem>,
    pub count: usize,
    pub selection: usize,
    pub starts: Seq<usize>,
}

impl View for CandidatePages {
    type V = PagesView;

    closed spec fn view(&self) -> PagesView {
        PagesView {
            items: self.items@,
            count: self.items.len(),
            selection: self.selection,
            starts: self.page_start_indices@,
        }
    }
}

/// `n - 1`, or 0 for 0.
pub open spec fn less_one(n: usize) -> usize {
    if n == 0 {
        0
    } else {
        (n - 1) as usize
    }
}

/// Page starts for `count` candidates, `page_size` (at least 1) to a page:
/// the multiples of the page size below the count, or the one page at 0
/// when there is no candidate.
pub open spec fn are_page_starts(starts: Seq<usize>, count: usize, page_size: int) -> bool {
    if count == 0 {
        starts == seq![0usize]
    } else {
        &&& starts.len() >= 1
        &&& forall|i: int| 0 <= i < starts.len() ==> #[trigger] starts[i] == i * page_size
        &&& (starts.len() - 1) * page_size < count <= starts.len() * page_size
    }
}

/// How many page starts are at or before the selection, counting from the
/// first until one is after it.
pub open spec fn starts_not_after(starts: Seq<usize>, selection: usize) -> int
    decreases starts.len(),
{
    if starts.len() == 0 || starts[0] > selection {
        0
    } else {
        1 + starts_not_after(starts.drop_first(), selection)
    }
}

/// The page of the selection: the last page whose start is not after it,
/// scanning from the first (page 0 when there is none).
pub open spec fn current_page_of(v: PagesView) -> int {
    let k = starts_not_after(v.starts, v.selection);
    if k == 0 {
        0
    } else {
        k - 1
    }
}

/// The first and last candidate of a page, if it is a page with
/// candidates (`(0, 0)` for the one page of an empty list).
pub open spec fn page_bounds_of(v: PagesView, page: int) -> Option<(usize, usize)> {
    if page < 0 || page >= v.starts.len() {
        None
    } else if v.starts[page] >= v.count && v.count > 0 {
        None
    } else {
        let start = v.starts[page];
        let end = if page + 1 < v.starts.len() {
            less_one(v.starts[page + 1])
        } else {
            less_one(v.count)
        };
        if v.count == 0 {
            Some((0usize, 0usize))
        } else if end < start {
            None
        } else {
            Some((start, end))
        }
    }
}

impl CandidatePages {
    /// No candidate and no page.
    pub fn new() -> (pages: Self)
        ensures
            pages@.count == 0,
            pages@.selection == 0,
            pages@.starts.len() == 0,
    {
        CandidatePages { items: Vec::new(), selection: 0, page_start_indices: Vec::new() }
    }

    /// The number of candidates (as the window reports it).
    pub fn count(&self) -> (n: u32)
        ensures
            n == self@.count as u32,
    {
        self.items.len() as u32
    }

    pub fn selection(&self) -> (s: usize)
        ensures
            s == self@.selection,
    {
        self.selection
    }

    /// The candidates, in order.
    pub fn items(&self) -> (items: &Vec<CandidateItem>)
        ensures
            items@ == self@.items,
            items.len() == self@.count,
    {
        &self.items
    }

    /// A new list of candidates, the first selected, in pages of
    /// `page_size`.
    pub fn set_items(&mut self, items: Vec<CandidateItem>, page_size: usize)
        ensures
            final(self)@.items == items@,
            final(self)@.count == items.len(),
            final(self)@.selection == 0,
            are_page_starts(final(self)@.starts, items.len(), if page_size == 0 { 1 } else { page_size as int }),
    {
        self.items = items;
        self.selection = 0;
        self.rebuild_pages(page_size);
    }

    /// No candidate and no page.
    pub fn clear_list(&mut self)
        ensures
            final(self)@.items.len() == 0,
            final(self)@.count == 0,
            final(self)@.selection == 0,
            final(self)@.starts.len() == 0,
    {
        self.items = Vec::new();
        self.selection = 0;
        self.page_start_indices = Vec::new();
    }

    /// Splits the list into pages of `page_size` (at least 1); a selection
    /// beyond the list moves to its last candidate.
    pub fn rebuild_pages(&mut self, page_size: usize)
        ensures
            final(self)@.items == old(self)@.items,
            final(self)@.count == old(self)@.count,
            are_page_starts(final(self)@.starts, old(self)@.count, if page_size == 0 { 1 } else { page_size as int }),
            final(self)@.selection == if old(self)@.selection >= old(self)@.count {
                less_one(old(self)@.count)
            } else {
                old(self)@.selection
            },
    {
        let size: usize = if page_size == 0 {
            1
        } else {
            page_size
        };
        let count = self.items.len();
        let mut starts: Vec<usize> = Vec::new();
        let mut start: usize = 0;
        let mut done = false;
        let ghost mut k: nat = 0;
        while !done && start < count
            invariant
                size >= 1,
                starts@.len() == k,
                forall|i: int| 0 <= i < k ==> #[trigger] starts@[i] == i * size,
                !done ==> start == k * size,
                k > 0 ==> (k - 1) * size < count,
                done ==> k > 0 && count <= k * size,
            decreases count - start + (if done { 0int } else { 1int }),
        {
            starts.push(start);
            proof {
                assert(starts@[k as int] == k * size);
                k = k + 1;
            }
            if count - start > size {
                proof {
                    assert((k - 1) * size + size == k * size) by (nonlinear_arith);
                }
                start = start + size;
            } else {
                proof {
                    assert((k - 1) * size + size == k * size) by (nonlinear_arith);
                }
                done = true;
            }
        }
        if starts.len() == 0 {
            starts.push(0);
            proof {
                assert(starts@ =~= seq![0usize]);
            }
        }
        self.page_start_indices = starts;
        if self.selection >= count {
            self.selection = if count == 0 {
                0
            } else {
                count - 1
            };
        }
    }

    /// The page of the selection.
    pub fn current_page(&self) -> (page: usize)
        ensures
            page == current_page_of(self@),
    {
        let starts = &self.page_start_indices;
        let mut page: usize = 0;
        let mut i: usize = 0;
        proof {
            assert(starts@.skip(0) =~= starts@);
        }
        while i < starts.len()
            invariant
                0 <= i <= starts@.len(),
                starts@ == self@.starts,
                starts_not_after(starts@, self.selection) == i + starts_not_after(starts@.skip(i as int), self.selection),
                page == (if i == 0 { 0 } else { i - 1 }),
            decreases starts.len() - i,
        {
            proof {
                assert(starts@.skip(i as int)[0] == starts@[i as int]);
                assert(starts@.skip(i as int).drop_first() =~= starts@.skip(i as int + 1));
            }
            if starts[i] > self.selection {
                return page;
            }
            page = i;
            i += 1;
        }
        proof {
            assert(starts@.skip(i as int).len() == 0);
        }
        page
    }

    /// The first and last candidate of a page.
    pub fn page_bounds(&self, page: usize) -> (bounds: Option<(usize, usize)>)
        ensures
            bounds == page_bounds_of(self@, page as int),
    {
        let starts = &self.page_start_indices;
        if page >= starts.len() {
            return None;
        }
        let start = starts[page];
        if start >= self.items.len() && self.items.len() > 0 {
            return None;
        }
        let end = if page + 1 < starts.len() {
            if starts[page + 1] == 0 {
                0
            } else {
                starts[page + 1] - 1
            }
        } else if self.items.len() == 0 {
            0
        } else {
            self.items.len() - 1
        };
        if self.items.len() == 0 {
            return Some((0, 0));
        }
        if end < start {
            return None;
        }
        Some((start, end))
    }

    /// Selects the candidate at `pos` in the current page, if there is one.
    pub fn set_selection_in_page(&mut self, pos: usize) -> (changed: bool)
        ensures
            (changed, final(self)@) == selected_in_page(old(self)@, pos as int),
    {
        if pos >= self.items.len() {
            return false;
        }
        let page = self.current_page();
        let start = match self.page_bounds(page) {
            Some((s, _)) => s,
            None => {
                return false;
            },
        };
        if start >= self.items.len() || pos >= self.items.len() - start {
            return false;
        }
        self.selection = start + pos;
        true
    }

    /// Moves the selection by `offset`, if it stays in the list.
    pub fn move_selection(&mut self, offset: i32) -> (changed: bool)
        ensures
            (changed, final(self)@) == moved_selection(old(self)@, offset as int),
    {
        if offset == 0 {
            return true;
        }
        if self.items.len() == 0 {
            return false;
        }
        let next: i128 = (self.selection as i64) as i128 + offset as i128;
        if next < 0 || next >= (self.items.len() as i64) as i128 {
            return false;
        }
        self.selection = next as usize;
        true
    }

    /// Selects the candidate at `index` (-1: the last one), if there is one.
    pub fn set_selection(&mut self, index: i32) -> (changed: bool)
        requires
            index == -1 ==> old(self)@.count as i32 != i32::MIN,
        ensures
            (changed, final(self)@) == selected_at(old(self)@, index as int),
    {
        let target: i32 = if index == -1 {
            if self.items.len() == 0 {
                return false;
            }
            (self.items.len() as i32) - 1
        } else {
            index
        };
        if target < 0 || target as usize >= self.items.len() {
            return false;
        }
        self.selection = target as usize;
        true
    }

    /// Moves to the page `offset` pages away, to the candidate at the same
    /// place in it (or its last one), if that page exists.
    pub fn move_page(&mut self, offset: i32) -> (changed: bool)
        ensures
            (changed, final(self)@) == moved_page(old(self)@, offset as int),
    {
        if offset == 0 {
            return true;
        }
        if self.items.len() == 0 {
            return false;
        }
        let current = self.current_page();
        let target: i128 = current as i128 + offset as i128;
        if target < 0 || target >= self.page_start_indices.len() as i128 {
            return false;
        }
        let current_start = match self.page_bounds(current) {
            Some((s, _)) => s,
            None => {
                return false;
            },
        };
        let (target_start, target_end) = match self.page_bounds(target as usize) {
            Some(b) => b,
            None => {
                return false;
            },
        };
        let selection_offset = if self.selection >= current_start {
            self.selection - current_start
        } else {
            0
        };
        if selection_offset > target_end - target_start {
            self.selection = target_end;
        } else {
            self.selection = target_start + selection_offset;
        }
        true
    }

    /// What an arrow or paging key does to the selection: up and down move
    /// it by one, page up and down move it by a page, top and bottom select
    /// the first and the last candidate; other functions change nothing.
    pub fn advise_arrow_key(&mut self, function: KeystrokeFunction) -> (changed: bool)
        requires
            function == KeystrokeFunction::MovePageBottom ==> old(self)@.count as i32 != i32::MIN,
        ensures
            (changed, final(self)@) == arrow_key_result(old(self)@, function),
    {
        match function {
            KeystrokeFunction::MoveUp => self.move_selection(-1),
            KeystrokeFunction::MoveDown => self.move_selection(1),
            KeystrokeFunction::MovePageUp => self.move_page(-1),
            KeystrokeFunction::MovePageDown => self.move_page(1),
            KeystrokeFunction::MovePageTop => self.set_selection(0),
            KeystrokeFunction::MovePageBottom => self.set_selection(-1),
            _ => false,
        }
    }

    /// Replaces the page starts with the given ones, as they stand.
    pub fn set_page_starts(&mut self, starts: Vec<usize>)
        ensures
            final(self)@ == (PagesView { starts: starts@, ..old(self)@ }),
    {
        self.page_start_indices = starts;
    }

    /// The page starts.
    pub fn page_starts(&self) -> (starts: &Vec<usize>)
        ensures
            starts@ == self@.starts,
    {
        &self.page_start_indices
    }

    /// The selected index, if there is a candidate.
    pub fn selected_index(&self) -> (index: Option<usize>)
        ensures
            index == (if self@.count == 0 { None } else { Some(self@.selection) }),
    {
        if self.items.len() == 0 {
            None
        } else {
            Some(self.selection)
        }
    }

    /// The text of the candidate at `index`, if there is one.
    pub fn item_text(&self, index: usize) -> (text: Option<String>)
        ensures
            match text {
                Some(t) => index < self@.count && t@ == self@.items[index as int].text@,
                None => index >= self@.count,
            },
    {
        if index < self.items.len() {
            Some(self.items[index].text.clone())
        } else {
            None
        }
    }

    /// The text of the selected candidate, if the selection is in the list.
    pub fn selected_candidate_string(&self) -> (text: Option<String>)
        ensures
            match text {
                Some(t) => self@.selection < self@.count && t@ == self@.items[self@.selection as int].text@,
                None => self@.selection >= self@.count,
            },
    {
        self.item_text(self.selection)
    }

    /// How many input keys the selected candidate consumes (0 when the
    /// selection is beyond the list).
    pub fn selected_input_count(&self) -> (n: usize)
        ensures
            n == if self@.selection < self@.count { self@.items[self@.selection as int].input_count } else { 0 },
    {
        if self.selection < self.items.len() {
            self.items[self.selection].input_count
        } else {
            0
        }
    }
}

/// The view with another selection.
pub open spec fn with_selection(v: PagesView, selection: int) -> PagesView {
    PagesView { selection: selection as usize, ..v }
}

/// Whether the selection moved, and the pages after selecting the
/// candidate at `pos` in the current page.
pub open spec fn selected_in_page(v: PagesView, pos: int) -> (bool, PagesView) {
    let b = page_bounds_of(v, current_page_of(v));
    if pos < v.count && b is Some && first_of(b) + pos < v.count {
        (true, with_selection(v, first_of(b) + pos))
    } else {
        (false, v)
    }
}

/// Whether the selection moved, and the pages after moving it by `offset`.
pub open spec fn moved_selection(v: PagesView, offset: int) -> (bool, PagesView) {
    if offset == 0 {
        (true, v)
    } else if v.count > 0 && 0 <= (v.selection as i64) + offset < v.count as i64 {
        (true, with_selection(v, (v.selection as i64) + offset))
    } else {
        (false, v)
    }
}

/// Whether the selection moved, and the pages after selecting the
/// candidate at `index` (-1: the last one).
pub open spec fn selected_at(v: PagesView, index: int) -> (bool, PagesView) {
    let target: int = if index == -1 { (v.count as i32) - 1 } else { index };
    if !(index == -1 && v.count == 0) && 0 <= target < v.count {
        (true, with_selection(v, target))
    } else {
        (false, v)
    }
}

/// Whether the selection moved, and the pages after moving `offset` pages
/// away, to the same place in the page or its last candidate.
pub open spec fn moved_page(v: PagesView, offset: int) -> (bool, PagesView) {
    let current = current_page_of(v);
    let target = current + offset;
    let cb = page_bounds_of(v, current);
    let tb = page_bounds_of(v, target);
    if offset == 0 {
        (true, v)
    } else if v.count > 0 && 0 <= target < v.starts.len() && cb is Some && tb is Some {
        let wanted = first_of(tb) + less_or_zero(v.selection as int, first_of(cb));
        (true, with_selection(v, if wanted > last_of(tb) { last_of(tb) } else { wanted }))
    } else {
        (false, v)
    }
}

/// Whether the selection moved, and the pages after an arrow or paging key.
pub open spec fn arrow_key_result(v: PagesView, function: KeystrokeFunction) -> (bool, PagesView) {
    match function {
        KeystrokeFunction::MoveUp => moved_selection(v, -1),
        KeystrokeFunction::MoveDown => moved_selection(v, 1),
        KeystrokeFunction::MovePageUp => moved_page(v, -1),
        KeystrokeFunction::MovePageDown => moved_page(v, 1),
        KeystrokeFunction::MovePageTop => selected_at(v, 0),
        KeystrokeFunction::MovePageBottom => selected_at(v, -1),
        _ => (false, v),
    }
}

/// `a - b`, or 0 when `b` is larger.
pub open spec fn less_or_zero(a: int, b: int) -> int {
    if a >= b {
        a - b
    } else {
        0
    }
}

/// The first candidate of page bounds (0 for none).
pub open spec fn first_of(bounds: Option<(usize, usize)>) -> int {
    match bounds {
        Some((first, _)) => first as int,
        None => 0,
    }
}

/// The last candidate of page bounds (0 for none).
pub open spec fn last_of(bounds: Option<(usize, usize)>) -> int {
    match bounds {
        Some((_, last)) => last as int,
        None => 0,
    }
}

/// A scan of page starts that stops at the first start after the
/// selection counts the starts before that one.
proof fn lemma_scan_stops(starts: Seq<usize>, selection: usize, k: int)
    requires
        0 <= k <= starts.len(),
        forall|i: int| 0 <= i < k ==> #[trigger] starts[i] <= selection,
        k < starts.len() ==> starts[k] > selection,
    ensures
        starts_not_after(starts, selection) == k,
    decreases k,
{
    if k > 0 {
        let rest = starts.drop_first();
        assert forall|i: int| 0 <= i < k - 1 implies #[trigger] rest[i] <= selection by {
            assert(rest[i] == starts[i + 1]);
        }
        if k - 1 < rest.len() {
            assert(rest[k - 1] == starts[k]);
        }
        lemma_scan_stops(rest, selection, k - 1);
    }
}

/// In a list split into pages of `page_size`, the selected candidate is on
/// the current page, which is the page `selection / page_size`: it runs
/// from `page * page_size` to the candidate before the next page (or the
/// last candidate).
pub proof fn lemma_selection_on_current_page(v: PagesView, page_size: int)
    requires
        page_size >= 1,
        are_page_starts(v.starts, v.count, page_size),
        v.selection < v.count,
    ensures
        ({
            let page = (v.selection as int) / page_size;
            let bounds = page_bounds_of(v, current_page_of(v));
            &&& current_page_of(v) == page
            &&& bounds is Some
            &&& first_of(bounds) == page * page_size
            &&& last_of(bounds) == (if (page + 1) * page_size < v.count { (page + 1) * page_size } else { v.count as int }) - 1
            &&& first_of(bounds) <= v.selection <= last_of(bounds)
        }),
{
    let sel = v.selection as int;
    let size = page_size;
    let len = v.starts.len() as int;
    let page = sel / size;
    assert(sel == size * page + sel % size) by {
        vstd::arithmetic::div_mod::lemma_fundamental_div_mod(sel, size);
    }
    assert(0 <= sel % size < size);
    assert(page * size <= sel < (page + 1) * size) by (nonlinear_arith)
        requires
            sel == size * page + sel % size,
            0 <= sel % size < size,
    ;
    assert(0 <= page) by (nonlinear_arith)
        requires
            sel >= 0,
            size >= 1,
            page == sel / size,
    ;
    assert(page < len) by (nonlinear_arith)
        requires
            page * size <= sel,
            sel < v.count,
            v.count <= len * size,
            size >= 1,
    ;
    assert forall|i: int| 0 <= i < page + 1 implies #[trigger] v.starts[i] <= v.selection by {
        assert(i * size <= page * size) by (nonlinear_arith)
            requires
                i <= page,
                size >= 1,
        ;
    }
    if page + 1 < len {
        assert(v.starts[page + 1] > v.selection);
    }
    lemma_scan_stops(v.starts, v.selection, page + 1);
    if page + 1 < len {
        assert((page + 1) * size <= (len - 1) * size) by (nonlinear_arith)
            requires
                page + 1 <= len - 1,
                size >= 1,
        ;
    } else {
        assert(page + 1 == len);
    }
}

/// Moving the selection by `offset` and back again returns to the same
/// candidate, when the first move stayed in the list.
pub proof fn lemma_move_selection_back(v: PagesView, offset: int)
    requires
        v.selection < v.count,
        v.count <= i64::MAX,
        offset != 0,
        moved_selection(v, offset).0,
    ensures
        moved_selection(moved_selection(v, offset).1, -offset) == (true, v),
{
    let w = moved_selection(v, offset).1;
    assert(w.selection as int == v.selection + offset);
    assert(with_selection(w, (w.selection as i64) + -offset) == v);
}

} // verus!
