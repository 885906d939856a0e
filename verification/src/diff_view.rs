//! The diff viewer's layout: the wrapping row of file tabs, the two panels and their lines,
//! and the footer's labels.
use vstd::prelude::*;

use crate::clock::{decimal, decimal_exec};
use crate::palette::{Color, Palette};
use crate::tabs::{imax, imin, sat_add, sat_sub, Rect};
use crate::text::{chars_of, slice_of, starts_with_str, string_of};

verus! {

// ---------------------------------------------------------------- file tab labels

/// What follows the last `/` of a path (the whole path when it has none).
pub open spec fn after_last_slash(p: Seq<char>) -> Seq<char>
    decreases p.len(),
{
    if p.len() == 0 {
        p
    } else if p.last() == '/' {
        seq![]
    } else {
        after_last_slash(p.drop_last()).push(p.last())
    }
}

/// A file's tab label: the file name of its path, or `changes` for the entry without one.
pub open spec fn tab_label(path: Seq<char>) -> Seq<char> {
    if path.len() == 0 {
        "changes"@
    } else {
        after_last_slash(path)
    }
}

/// What follows the last `/` of a path.
pub fn file_name_of(path: &str) -> (r: Vec<char>)
    ensures
        r@ == after_last_slash(path@),
{
    let p = chars_of(path);
    let mut start: usize = p.len();
    assert(p@.take(p.len() as int) =~= p@);
    assert(p@.subrange(p.len() as int, p.len() as int) =~= Seq::<char>::empty());
    while start > 0 && p[start - 1] != '/'
        invariant
            start <= p.len(),
            after_last_slash(p@) == after_last_slash(p@.take(start as int)) + p@.subrange(
                start as int,
                p.len() as int,
            ),
        decreases start,
    {
        let ghost s = start as int;
        assert(p@.take(s).drop_last() =~= p@.take(s - 1));
        assert(p@.subrange(s - 1, p.len() as int) =~= seq![p@[s - 1]] + p@.subrange(
            s,
            p.len() as int,
        ));
        assert(after_last_slash(p@.take(s)) == after_last_slash(p@.take(s - 1)).push(p@[s - 1]));
        start = start - 1;
    }
    proof {
        if start > 0 {
            assert(p@.take(start as int).last() == '/');
        } else {
            assert(p@.take(0) =~= Seq::<char>::empty());
        }
        assert(p@.take(p.len() as int) =~= p@);
    }
    slice_of(&p, start, p.len())
}

/// The label of a file's tab.
pub fn file_tab_label(path: &str) -> (r: Vec<char>)
    ensures
        r@ == tab_label(path@),
{
    let p = chars_of(path);
    if p.len() == 0 {
        chars_of("changes")
    } else {
        file_name_of(path)
    }
}

// ---------------------------------------------------------------- UTF-8 lengths

/// The number of bytes UTF-8 takes for a character.
pub open spec fn char_utf8_len(c: char) -> nat {
    if (c as u32) < 0x80 {
        1
    } else if (c as u32) < 0x800 {
        2
    } else if (c as u32) < 0x10000 {
        3
    } else {
        4
    }
}

/// The number of bytes UTF-8 takes for a text.
pub open spec fn utf8_len(s: Seq<char>) -> nat
    decreases s.len(),
{
    if s.len() == 0 {
        0
    } else {
        utf8_len(s.drop_last()) + char_utf8_len(s.last())
    }
}

proof fn lemma_utf8_len_prefix(s: Seq<char>, i: int, j: int)
    requires
        0 <= i <= j <= s.len(),
    ensures
        utf8_len(s.take(i)) + (j - i) <= utf8_len(s.take(j)),
    decreases j - i,
{
    if i < j {
        lemma_utf8_len_prefix(s, i, j - 1);
        assert(s.take(j).drop_last() =~= s.take(j - 1));
    }
}

/// The number of characters of `s` that take exactly `k` bytes, if `k` bytes end at a
/// character's end (as slicing a string at byte `k` requires).
pub open spec fn chars_in_bytes(s: Seq<char>, k: nat) -> Option<nat> {
    if exists|j: nat| j <= s.len() && #[trigger] utf8_len(s.take(j as int)) == k {
        Some(choose|j: nat| j <= s.len() && #[trigger] utf8_len(s.take(j as int)) == k)
    } else {
        None
    }
}

fn char_utf8_len_exec(c: char) -> (n: usize)
    ensures
        n == char_utf8_len(c),
{
    let u = c as u32;
    if u < 0x80 {
        1
    } else if u < 0x800 {
        2
    } else if u < 0x10000 {
        3
    } else {
        4
    }
}

/// The UTF-8 length of a text whose encoding fits in memory.
fn utf8_len_exec(s: &Vec<char>) -> (n: usize)
    requires
        utf8_len(s@) <= usize::MAX,
    ensures
        n == utf8_len(s@),
{
    let mut n: usize = 0;
    let mut i: usize = 0;
    assert(s@.take(s.len() as int) =~= s@);
    while i < s.len()
        invariant
            i <= s.len(),
            utf8_len(s@) <= usize::MAX,
            n == utf8_len(s@.take(i as int)),
        decreases s.len() - i,
    {
        assert(s@.take(i + 1).drop_last() =~= s@.take(i as int));
        proof {
            lemma_utf8_len_prefix(s@, i + 1, s.len() as int);
            assert(s@.take(s.len() as int) =~= s@);
        }
        n = n + char_utf8_len_exec(s[i]);
        i = i + 1;
    }
    assert(s@.take(s.len() as int) =~= s@);
    n
}

/// The characters of `s` that take exactly `k` bytes, if `k` bytes end at a character's
/// end.
fn chars_in_bytes_exec(s: &Vec<char>, k: usize) -> (r: Option<usize>)
    requires
        utf8_len(s@) <= usize::MAX,
    ensures
        r matches Some(j) ==> chars_in_bytes(s@, k as nat) == Some(j as nat),
        r is None ==> chars_in_bytes(s@, k as nat) is None,
{
    let mut n: usize = 0;
    let mut i: usize = 0;
    while i < s.len() && n < k
        invariant
            i <= s.len(),
            utf8_len(s@) <= usize::MAX,
            n == utf8_len(s@.take(i as int)),
            forall|j: int| 0 <= j < i ==> #[trigger] utf8_len(s@.take(j)) < k,
        decreases s.len() - i,
    {
        assert(s@.take(i + 1).drop_last() =~= s@.take(i as int));
        proof {
            lemma_utf8_len_prefix(s@, i + 1, s.len() as int);
            assert(s@.take(s.len() as int) =~= s@);
        }
        n = n + char_utf8_len_exec(s[i]);
        i = i + 1;
    }
    if n == k {
        proof {
            assert(utf8_len(s@.take(i as int)) == k);
            assert forall|j: nat| j <= s.len() && #[trigger] utf8_len(s@.take(j as int)) == k
                implies j == i by {
                if j < i {
                } else if j > i {
                    lemma_utf8_len_prefix(s@, i as int, j as int);
                }
            }
            let c = choose|j: nat| j <= s.len() && #[trigger] utf8_len(s@.take(j as int)) == k;
            assert(c == i);
        }
        Some(i)
    } else {
        proof {
            assert forall|j: nat| j <= s.len() implies #[trigger] utf8_len(s@.take(j as int))
                != k by {
                if j < i {
                } else if j > i {
                    lemma_utf8_len_prefix(s@, i as int, j as int);
                    if i < s.len() {
                        lemma_utf8_len_prefix(s@, i as int, j as int);
                    }
                }
            }
        }
        None
    }
}

// ---------------------------------------------------------------- file tab layout

/// A file tab's width: its label's characters, counted in `u16`, and a cell of padding on
/// each side.
pub open spec fn tab_cell_width(label: Seq<char>) -> int {
    (label.len() % 65536) as int + 2
}

/// How many rows the tabs may take in a body of this height: one to three, leaving two
/// rows for the panels where it can.
pub open spec fn max_tab_rows(height: int) -> int {
    imax(imin(sat_sub(height, 2), 3), 1)
}

/// The first pass over the tabs: the rows they need, the next tab's left edge, and whether
/// each tab's right edge fitted in `u16`.
pub struct RowsScan {
    pub rows: int,
    pub x: int,
    pub fits: bool,
}

/// The first pass after `i` tabs: a tab that would pass the right edge starts a new row.
pub open spec fn rows_scan(x0: int, max_x: int, labels: Seq<Seq<char>>, i: int) -> RowsScan
    decreases i,
{
    if i <= 0 {
        RowsScan { rows: 1, x: x0, fits: true }
    } else {
        let s = rows_scan(x0, max_x, labels, i - 1);
        let w = tab_cell_width(labels[i - 1]);
        let fits = s.fits && s.x + w <= 65535;
        if s.x + w > max_x {
            RowsScan { rows: sat_add(s.rows, 1), x: sat_add(x0, w), fits }
        } else {
            RowsScan { rows: s.rows, x: sat_add(s.x, w), fits }
        }
    }
}

/// Counting the tabs that fit in the allowed rows: how many, the next left edge, the row,
/// and whether the count has stopped.
pub struct VisibleScan {
    pub count: int,
    pub x: int,
    pub row: int,
    pub stopped: bool,
}

/// The count after `i` tabs: it stops at the first tab that would need a row past the
/// allowed ones.
pub open spec fn visible_scan(x0: int, max_x: int, max_rows: int, labels: Seq<Seq<char>>, i: int) -> VisibleScan
    decreases i,
{
    if i <= 0 {
        VisibleScan { count: 0, x: x0, row: 0, stopped: false }
    } else {
        let s = visible_scan(x0, max_x, max_rows, labels, i - 1);
        let w = tab_cell_width(labels[i - 1]);
        if s.stopped {
            s
        } else if s.x + w > max_x {
            let r = sat_add(s.row, 1);
            if r >= max_rows {
                VisibleScan { count: s.count, x: s.x, row: r, stopped: true }
            } else {
                VisibleScan { count: s.count + 1, x: sat_add(x0, w), row: r, stopped: false }
            }
        } else if s.row >= max_rows {
            VisibleScan { count: s.count, x: s.x, row: s.row, stopped: true }
        } else {
            VisibleScan { count: s.count + 1, x: sat_add(s.x, w), row: s.row, stopped: false }
        }
    }
}

/// A drawn file tab: where, its text, and whether it is the active file's.
pub struct FileTabSlotView {
    pub area: Rect,
    pub text: Seq<char>,
    pub active: bool,
}

/// A tab's text where `remaining` cells are left for it: the label padded by a space on
/// each side, or, when the tab is wider than what is left, a space, the label cut after a
/// number of bytes, and `…`. `None` where that cut falls inside a character.
pub open spec fn tab_text(label: Seq<char>, w: int, remaining: int) -> Option<Seq<char>> {
    if w > remaining {
        let b = utf8_len(label);
        let max_chars = imin(imax(remaining, 4) - 1, (b % 65536) as int);
        let cut = imin(sat_sub(max_chars, 2), b as int);
        match chars_in_bytes(label, cut as nat) {
            Some(j) => Some(" "@ + label.take(j as int) + "\u{2026}"@),
            None => None,
        }
    } else {
        Some(" "@ + label + " "@)
    }
}

/// Placing the tabs: the row, the next left edge and top, the tabs placed, whether placing
/// has stopped, and whether every cut fell on a character's end.
pub struct TabsPlaced {
    pub row: int,
    pub x: int,
    pub y: int,
    pub slots: Seq<FileTabSlotView>,
    pub stopped: bool,
    pub fits: bool,
}

/// The placement after `i` tabs: only the first `visible` are placed; a tab that would pass
/// the right edge goes to the start of the next row, and placing stops past the last
/// allowed row.
pub open spec fn placed_scan(
    body: Rect,
    labels: Seq<Seq<char>>,
    active: int,
    max_rows: int,
    visible: int,
    i: int,
) -> TabsPlaced
    decreases i,
{
    if i <= 0 {
        TabsPlaced { row: 0, x: body.x as int, y: body.y as int, slots: seq![], stopped: false, fits: true }
    } else {
        let s = placed_scan(body, labels, active, max_rows, visible, i - 1);
        let w = tab_cell_width(labels[i - 1]);
        let max_x = body.x + body.width;
        let wraps = sat_add(s.x, w) > max_x;
        if s.stopped || i - 1 >= visible {
            TabsPlaced { row: s.row, x: s.x, y: s.y, slots: s.slots, stopped: true, fits: s.fits }
        } else if wraps && sat_add(s.row, 1) >= max_rows {
            TabsPlaced { row: sat_add(s.row, 1), x: s.x, y: s.y, slots: s.slots, stopped: true, fits: s.fits }
        } else {
            let row = if wraps { sat_add(s.row, 1) } else { s.row };
            let x = if wraps { body.x as int } else { s.x };
            let y = if wraps { sat_add(s.y, 1) } else { s.y };
            let remaining = sat_sub(max_x, x);
            let text = tab_text(labels[i - 1], w, remaining);
            let t = match text {
                Some(t) => t,
                None => seq![],
            };
            let slot = FileTabSlotView {
                area: Rect::clamped(x, y, imin((t.len() % 65536) as int, remaining), 1),
                text: t,
                active: i - 1 == active,
            };
            TabsPlaced {
                row,
                x: sat_add(x, w),
                y,
                slots: s.slots.push(slot),
                stopped: false,
                fits: s.fits && text is Some,
            }
        }
    }
}

/// The `+N` marker for `hidden` tabs that did not fit: after the last tab when it fits
/// there, else at the start of the next row when one is left, else nowhere.
pub open spec fn more_marker(body: Rect, max_rows: int, p: TabsPlaced, hidden: int) -> Option<(Rect, Seq<char>)> {
    if hidden <= 0 {
        None
    } else {
        let text = " +"@ + decimal(hidden as nat);
        let last_x = sat_add(p.x, 2);
        if last_x + text.len() <= body.x + body.width {
            Some((Rect::clamped(last_x, p.y, text.len() as int, 1), text))
        } else if p.row < sat_sub(max_rows, 1) {
            Some((Rect::clamped(body.x as int, sat_add(p.y, 1), text.len() as int, 1), text))
        } else {
            None
        }
    }
}

/// The file tabs' layout, with its texts as character sequences.
pub struct FileTabsView {
    pub tab_area: Rect,
    pub panel_area: Rect,
    pub slots: Seq<FileTabSlotView>,
    pub more: Option<(Rect, Seq<char>)>,
}

/// The tab labels of a list of file paths.
pub open spec fn labels_of(paths: Seq<String>) -> Seq<Seq<char>> {
    paths.map_values(|p: String| tab_label(p@))
}

/// The number of tabs shown: all of them when they fit in the allowed rows, else the count
/// of those that do.
pub open spec fn shown_tabs(body: Rect, labels: Seq<Seq<char>>) -> int {
    let max_x = body.x + body.width;
    let mr = max_tab_rows(body.height as int);
    if rows_scan(body.x as int, max_x, labels, labels.len() as int).rows > mr {
        visible_scan(body.x as int, max_x, mr, labels, labels.len() as int).count
    } else {
        labels.len() as int
    }
}

/// The layout of the file tabs at the top of the diff viewer's body: the tabs wrap onto up
/// to three rows; the panels get the rest of the body; tabs that do not fit are counted in
/// a `+N` marker. With fewer than two rows, or no files, there are no tabs.
pub open spec fn file_tabs_layout(body: Rect, labels: Seq<Seq<char>>, active: int) -> FileTabsView {
    if body.height < 2 || labels.len() == 0 {
        FileTabsView { tab_area: Rect::zero(), panel_area: body, slots: seq![], more: None }
    } else {
        let max_x = body.x + body.width;
        let needed = rows_scan(body.x as int, max_x, labels, labels.len() as int).rows;
        let mr = max_tab_rows(body.height as int);
        let used = imin(needed, mr);
        let visible = shown_tabs(body, labels);
        let placed = placed_scan(body, labels, active, mr, visible, labels.len() as int);
        FileTabsView {
            tab_area: Rect::clamped(body.x as int, body.y as int, body.width as int, used),
            panel_area: Rect::clamped(
                body.x as int,
                sat_add(body.y as int, used),
                body.width as int,
                sat_sub(body.height as int, used),
            ),
            slots: placed.slots,
            more: more_marker(body, mr, placed, labels.len() - visible),
        }
    }
}

/// The layout's sums fit in `u16`, and every cut label is cut at a character's end. (With
/// fewer than two rows, or no files, nothing is summed.)
pub open spec fn file_tabs_fit(body: Rect, labels: Seq<Seq<char>>, active: int) -> bool {
    body.height < 2 || labels.len() == 0 || {
        let max_x = body.x + body.width;
        let mr = max_tab_rows(body.height as int);
        let visible = shown_tabs(body, labels);
        let placed = placed_scan(body, labels, active, mr, visible, labels.len() as int);
        let hidden = labels.len() - visible;
        &&& max_x <= 65535
        &&& forall|i: int| 0 <= i < labels.len() ==> #[trigger] tab_cell_width(labels[i]) <= 65535
        &&& rows_scan(body.x as int, max_x, labels, labels.len() as int).fits
        &&& placed.fits
        &&& (hidden <= 0 || sat_add(placed.x, 2) + (" +"@ + decimal(hidden as nat)).len() <= 65535)
    }
}

// ---------------------------------------------------------------- file tab layout: laws

proof fn lemma_rows_prefix(x0: int, max_x: int, labels: Seq<Seq<char>>, i: int, j: int)
    requires
        0 <= i <= j,
    ensures
        rows_scan(x0, max_x, labels, j).fits ==> rows_scan(x0, max_x, labels, i).fits,
        1 <= rows_scan(x0, max_x, labels, i).rows <= rows_scan(x0, max_x, labels, j).rows <= 65535,
    decreases j - i,
{
    if j > i {
        lemma_rows_prefix(x0, max_x, labels, i, j - 1);
    } else {
        lemma_rows_bounds(x0, max_x, labels, i);
    }
}

proof fn lemma_rows_bounds(x0: int, max_x: int, labels: Seq<Seq<char>>, i: int)
    ensures
        1 <= rows_scan(x0, max_x, labels, i).rows <= 65535,
    decreases i,
{
    if i > 0 {
        lemma_rows_bounds(x0, max_x, labels, i - 1);
    }
}

proof fn lemma_visible_count_mono(x0: int, max_x: int, mr: int, labels: Seq<Seq<char>>, i: int, j: int)
    requires
        0 <= i <= j,
    ensures
        visible_scan(x0, max_x, mr, labels, i).count <= visible_scan(x0, max_x, mr, labels, j).count,
    decreases j - i,
{
    if j > i {
        lemma_visible_count_mono(x0, max_x, mr, labels, i, j - 1);
    }
}

/// The slots placed so far are the first files', in order: slot `k` is file `k`'s, showing
/// its label whole or cut with an ellipsis, or nothing where the cut falls inside a
/// character; placing that has not stopped has placed every file so far.
proof fn lemma_placed_slots(body: Rect, labels: Seq<Seq<char>>, active: int, mr: int, visible: int, i: int)
    requires
        0 <= i <= labels.len(),
    ensures
        ({
            let p = placed_scan(body, labels, active, mr, visible, i);
            &&& p.slots.len() <= i
            &&& !p.stopped ==> p.slots.len() == i
            &&& forall|k: int| 0 <= k < p.slots.len() ==> (#[trigger] p.slots[k]).active == (k == active)
            &&& forall|k: int| 0 <= k < p.slots.len() ==> shows_label(#[trigger] p.slots[k].text, labels[k])
        }),
    decreases i,
{
    if i > 0 {
        lemma_placed_slots(body, labels, active, mr, visible, i - 1);
        let s = placed_scan(body, labels, active, mr, visible, i - 1);
        let p = placed_scan(body, labels, active, mr, visible, i);
        if !(s.stopped || i - 1 >= visible) && p.slots.len() > s.slots.len() {
            assert forall|k: int| 0 <= k < p.slots.len() implies shows_label(#[trigger] p.slots[k].text, labels[k]) by {
                if k < s.slots.len() {
                    assert(p.slots[k] == s.slots[k]);
                } else {
                    lemma_tab_text_shows_label(labels[i - 1], tab_cell_width(labels[i - 1]), sat_sub(body.x + body.width, if sat_add(s.x, tab_cell_width(labels[i - 1])) > body.x + body.width { body.x as int } else { s.x }));
                }
            }
            assert forall|k: int| 0 <= k < p.slots.len() implies (#[trigger] p.slots[k]).active == (k == active) by {
                if k < s.slots.len() {
                    assert(p.slots[k] == s.slots[k]);
                }
            }
        }
    }
}

/// A tab's text shows the label: whole between spaces, cut after a space and before an
/// ellipsis, or (where the cut falls inside a character) not at all.
pub open spec fn shows_label(text: Seq<char>, label: Seq<char>) -> bool {
    ||| text == " "@ + label + " "@
    ||| exists|j: int| 0 <= j <= label.len() && text == " "@ + label.take(j) + "\u{2026}"@
    ||| text.len() == 0
}

proof fn lemma_tab_text_shows_label(label: Seq<char>, w: int, remaining: int)
    ensures
        shows_label(
            match tab_text(label, w, remaining) {
                Some(t) => t,
                None => seq![],
            },
            label,
        ),
{
    if w > remaining {
        let b = utf8_len(label);
        let max_chars = imin(imax(remaining, 4) - 1, (b % 65536) as int);
        let cut = imin(sat_sub(max_chars, 2), b as int);
        if let Some(j) = chars_in_bytes(label, cut as nat) {
            assert(j <= label.len());
            let t = " "@ + label.take(j as int) + "\u{2026}"@;
            assert(0 <= j as int <= label.len() && t == " "@ + label.take(j as int) + "\u{2026}"@);
        }
    }
}

/// When every file's tabs fit in the allowed rows, placing puts down every file, on the row
/// and at the edge that the first pass reached.
proof fn lemma_placed_all(body: Rect, labels: Seq<Seq<char>>, active: int, mr: int, i: int)
    requires
        0 <= i <= labels.len(),
        1 <= mr <= 3,
        rows_scan(body.x as int, body.x + body.width, labels, labels.len() as int).fits,
        rows_scan(body.x as int, body.x + body.width, labels, labels.len() as int).rows <= mr,
    ensures
        ({
            let p = placed_scan(body, labels, active, mr, labels.len() as int, i);
            let r = rows_scan(body.x as int, body.x + body.width, labels, i);
            &&& !p.stopped
            &&& p.x == r.x
            &&& p.row == r.rows - 1
        }),
    decreases i,
{
    let x0 = body.x as int;
    let max_x = body.x + body.width;
    let n = labels.len() as int;
    if i > 0 {
        lemma_placed_all(body, labels, active, mr, i - 1);
        lemma_rows_prefix(x0, max_x, labels, i, n);
        lemma_rows_prefix(x0, max_x, labels, i - 1, i);
        let s = placed_scan(body, labels, active, mr, n, i - 1);
        let r0 = rows_scan(x0, max_x, labels, i - 1);
        let r = rows_scan(x0, max_x, labels, i);
        let w = tab_cell_width(labels[i - 1]);
        assert(r.fits);
        assert(r0.x + w <= 65535);
        assert(sat_add(s.x, w) == s.x + w);
        assert(r.rows <= mr);
        if s.x + w > max_x {
            assert(r.rows == r0.rows + 1);
            assert(sat_add(s.row, 1) < mr);
        }
    }
}

/// While the count of shown tabs goes on, placing follows it, on the same row and edge as
/// the first pass; once the count stops, placing has stopped with that many tabs.
proof fn lemma_placed_visible(body: Rect, labels: Seq<Seq<char>>, active: int, mr: int, i: int)
    requires
        0 <= i <= labels.len(),
        1 <= mr <= 3,
        rows_scan(body.x as int, body.x + body.width, labels, labels.len() as int).fits,
    ensures
        ({
            let x0 = body.x as int;
            let max_x = body.x + body.width;
            let n = labels.len() as int;
            let visible = visible_scan(x0, max_x, mr, labels, n).count;
            let p = placed_scan(body, labels, active, mr, visible, i);
            let v = visible_scan(x0, max_x, mr, labels, i);
            &&& !v.stopped ==> (!p.stopped && p.x == v.x && p.row == v.row && v.count == i && v.x
                == rows_scan(x0, max_x, labels, i).x && v.row < mr)
            &&& v.stopped ==> p.stopped && p.slots.len() == visible
        }),
    decreases i,
{
    let x0 = body.x as int;
    let max_x = body.x + body.width;
    let n = labels.len() as int;
    let visible = visible_scan(x0, max_x, mr, labels, n).count;
    if i > 0 {
        lemma_placed_visible(body, labels, active, mr, i - 1);
        lemma_rows_prefix(x0, max_x, labels, i, n);
        lemma_rows_prefix(x0, max_x, labels, i - 1, i);
        lemma_placed_slots(body, labels, active, mr, visible, i - 1);
        let v0 = visible_scan(x0, max_x, mr, labels, i - 1);
        let v = visible_scan(x0, max_x, mr, labels, i);
        if v.stopped {
            lemma_visible_stays(x0, max_x, mr, labels, i, n);
        } else {
            lemma_visible_count_mono(x0, max_x, mr, labels, i, n);
        }
    }
}

/// Law: when the layout fits, the drawn tabs are the first files, in order, each showing
/// its label (whole, or cut with an ellipsis), the active file's marked; the files not
/// drawn are exactly those the `+N` marker counts, and there is no marker when every file
/// is drawn.
pub proof fn lemma_file_tabs_account_for_every_file(body: Rect, labels: Seq<Seq<char>>, active: int)
    requires
        file_tabs_fit(body, labels, active),
    ensures
        ({
            let l = file_tabs_layout(body, labels, active);
            &&& l.slots.len() <= labels.len()
            &&& l.slots.len() == labels.len() ==> l.more is None
            &&& l.more matches Some((_, t)) ==> t == " +"@ + decimal((labels.len() - l.slots.len()) as nat)
            &&& forall|k: int| 0 <= k < l.slots.len() ==> (#[trigger] l.slots[k]).active == (k == active)
            &&& forall|k: int| 0 <= k < l.slots.len() ==> shows_label(#[trigger] l.slots[k].text, labels[k])
        }),
{
    if !(body.height < 2 || labels.len() == 0) {
        let x0 = body.x as int;
        let max_x = body.x + body.width;
        let n = labels.len() as int;
        let mr = max_tab_rows(body.height as int);
        let visible = shown_tabs(body, labels);
        lemma_placed_slots(body, labels, active, mr, visible, n);
        lemma_visible_count(x0, max_x, mr, labels, n);
        if rows_scan(x0, max_x, labels, n).rows > mr {
            lemma_placed_visible(body, labels, active, mr, n);
        } else {
            lemma_placed_all(body, labels, active, mr, n);
        }
    }
}

// ---------------------------------------------------------------- file tab layout: code

/// A drawn file tab: where, its text, and whether it is the active file's.
pub struct FileTabSlot {
    pub area: Rect,
    pub text: String,
    pub active: bool,
}

/// Where the file tabs are drawn, what is left for the panels, the tabs, and the `+N`
/// marker for tabs that did not fit.
pub struct FileTabsLayout {
    pub tab_area: Rect,
    pub panel_area: Rect,
    pub slots: Vec<FileTabSlot>,
    pub more: Option<(Rect, String)>,
}

impl View for FileTabsLayout {
    type V = FileTabsView;

    open spec fn view(&self) -> FileTabsView {
        FileTabsView {
            tab_area: self.tab_area,
            panel_area: self.panel_area,
            slots: self.slots@.map_values(
                |s: FileTabSlot| FileTabSlotView { area: s.area, text: s.text@, active: s.active },
            ),
            more: match self.more {
                Some((r, t)) => Some((r, t@)),
                None => None,
            },
        }
    }
}

proof fn lemma_utf8_len_push(s: Seq<char>, c: char)
    ensures
        utf8_len(s.push(c)) == utf8_len(s) + char_utf8_len(c),
{
    assert(s.push(c).drop_last() =~= s);
}

proof fn lemma_utf8_len_le(s: Seq<char>)
    ensures
        utf8_len(s) <= 4 * s.len(),
    decreases s.len(),
{
    if s.len() > 0 {
        lemma_utf8_len_le(s.drop_last());
    }
}

proof fn lemma_after_last_slash_utf8(p: Seq<char>)
    ensures
        utf8_len(after_last_slash(p)) <= utf8_len(p),
    decreases p.len(),
{
    if p.len() > 0 {
        lemma_after_last_slash_utf8(p.drop_last());
        if p.last() != '/' {
            lemma_utf8_len_push(after_last_slash(p.drop_last()), p.last());
        }
    }
}

proof fn lemma_label_utf8(path: Seq<char>)
    requires
        utf8_len(path) <= usize::MAX,
    ensures
        utf8_len(tab_label(path)) <= usize::MAX,
{
    if path.len() == 0 {
        reveal_strlit("changes");
        lemma_utf8_len_le("changes"@);
    } else {
        lemma_after_last_slash_utf8(path);
    }
}

proof fn lemma_visible_stays(x0: int, max_x: int, mr: int, labels: Seq<Seq<char>>, i: int, j: int)
    requires
        0 <= i <= j,
        visible_scan(x0, max_x, mr, labels, i).stopped,
    ensures
        visible_scan(x0, max_x, mr, labels, j) == visible_scan(x0, max_x, mr, labels, i),
    decreases j - i,
{
    if j > i {
        lemma_visible_stays(x0, max_x, mr, labels, i, j - 1);
    }
}

proof fn lemma_visible_count(x0: int, max_x: int, mr: int, labels: Seq<Seq<char>>, i: int)
    requires
        0 <= i,
    ensures
        0 <= visible_scan(x0, max_x, mr, labels, i).count <= i,
    decreases i,
{
    if i > 0 {
        lemma_visible_count(x0, max_x, mr, labels, i - 1);
    }
}

proof fn lemma_placed_stays(body: Rect, labels: Seq<Seq<char>>, active: int, mr: int, visible: int, i: int, j: int)
    requires
        0 <= i <= j,
        placed_scan(body, labels, active, mr, visible, i).stopped,
    ensures
        placed_scan(body, labels, active, mr, visible, j) == placed_scan(body, labels, active, mr, visible, i),
    decreases j - i,
{
    if j > i {
        lemma_placed_stays(body, labels, active, mr, visible, i, j - 1);
    }
}

/// Ten to the `k`.
pub open spec fn pow10(k: nat) -> nat
    decreases k,
{
    if k == 0 {
        1
    } else {
        10 * pow10((k - 1) as nat)
    }
}

proof fn lemma_decimal_len(n: nat, k: nat)
    requires
        k >= 1,
        n < pow10(k),
    ensures
        decimal(n).len() <= k,
    decreases k,
{
    if n >= 10 {
        assert(pow10(0) == 1);
        assert(k > 1);
        assert(n / 10 < pow10((k - 1) as nat));
        lemma_decimal_len(n / 10, (k - 1) as nat);
    }
}

fn sat16(v: u32) -> (r: u32)
    requires
        v <= 2 * 65535 + 2,
    ensures
        r == if v > 65535 { 65535 } else { v },
{
    if v > 65535 {
        65535
    } else {
        v
    }
}

/// A tab's text (`tab_text`), empty where the cut would fall inside a character; and
/// whether it did not.
fn tab_text_exec(label: &Vec<char>, bytes: usize, w: u32, remaining: u32) -> (r: (Vec<char>, bool))
    requires
        bytes == utf8_len(label@),
    ensures
        match tab_text(label@, w as int, remaining as int) {
            Some(t) => r.0@ == t && r.1,
            None => r.0@ == Seq::<char>::empty() && !r.1,
        },
{
    if w > remaining {
        let mx: u32 = if remaining > 4 {
            remaining
        } else {
            4
        };
        let b16: u32 = (bytes % 65536) as u32;
        let max_chars: u32 = if mx - 1 < b16 {
            mx - 1
        } else {
            b16
        };
        let c0: u32 = if max_chars >= 2 {
            max_chars - 2
        } else {
            0
        };
        let cut: usize = if (c0 as usize) < bytes {
            c0 as usize
        } else {
            bytes
        };
        proof {
            lemma_utf8_len_le(label@);
        }
        match chars_in_bytes_exec(label, cut) {
            Some(j) => {
                proof {
                    assert(exists|j: nat| j <= label@.len() && #[trigger] utf8_len(label@.take(j as int)) == cut);
                }
                let mut t = chars_of(" ");
                let mut head = slice_of(label, 0, j);
                t.append(&mut head);
                let mut tail = chars_of("\u{2026}");
                t.append(&mut tail);
                assert(label@.subrange(0, j as int) =~= label@.take(j as int));
                (t, true)
            },
            None => (Vec::new(), false),
        }
    } else {
        let mut t = chars_of(" ");
        let mut body = slice_of(label, 0, label.len());
        t.append(&mut body);
        let mut tail = chars_of(" ");
        t.append(&mut tail);
        assert(label@.subrange(0, label@.len() as int) =~= label@);
        (t, true)
    }
}

/// The tabs' labels, their UTF-8 lengths and widths, and whether every width fits in `u16`.
fn tab_labels(paths: &Vec<String>) -> (r: (Vec<Vec<char>>, Vec<usize>, Vec<u32>, bool))
    requires
        forall|i: int| 0 <= i < paths.len() ==> utf8_len(#[trigger] paths[i]@) <= usize::MAX,
    ensures
        r.0.len() == paths.len(),
        r.1.len() == paths.len(),
        r.2.len() == paths.len(),
        forall|k: int| 0 <= k < paths.len() ==> #[trigger] r.0[k]@ == labels_of(paths@)[k],
        forall|k: int| 0 <= k < paths.len() ==> #[trigger] r.1[k] == utf8_len(labels_of(paths@)[k]),
        forall|k: int|
            0 <= k < paths.len() ==> #[trigger] r.2[k] == tab_cell_width(labels_of(paths@)[k])
                && r.2[k] <= 65537,
        r.3 == forall|k: int|
            0 <= k < paths.len() ==> #[trigger] tab_cell_width(labels_of(paths@)[k]) <= 65535,
{
    let n = paths.len();
    let ghost lv = labels_of(paths@);
    let mut labels: Vec<Vec<char>> = Vec::new();
    let mut bytes: Vec<usize> = Vec::new();
    let mut widths: Vec<u32> = Vec::new();
    let mut widths_fit = true;
    let mut i: usize = 0;
    while i < n
        invariant
            n == paths.len(),
            lv == labels_of(paths@),
            forall|k: int| 0 <= k < paths.len() ==> utf8_len(#[trigger] paths[k]@) <= usize::MAX,
            i <= n,
            labels.len() == i,
            bytes.len() == i,
            widths.len() == i,
            forall|k: int| 0 <= k < i ==> #[trigger] labels[k]@ == lv[k],
            forall|k: int| 0 <= k < i ==> #[trigger] bytes[k] == utf8_len(lv[k]),
            forall|k: int| 0 <= k < i ==> #[trigger] widths[k] == tab_cell_width(lv[k]) && widths[k] <= 65537,
            widths_fit ==> forall|k: int| 0 <= k < i ==> #[trigger] tab_cell_width(lv[k]) <= 65535,
            !widths_fit ==> exists|k: int| 0 <= k < i && #[trigger] tab_cell_width(lv[k]) > 65535,
        decreases n - i,
    {
        let l = file_tab_label(paths[i].as_str());
        assert(lv[i as int] == tab_label(paths[i as int]@));
        proof {
            lemma_label_utf8(paths[i as int]@);
        }
        let b = utf8_len_exec(&l);
        let w: u32 = ((l.len() % 65536) as u32) + 2;
        assert(w == tab_cell_width(lv[i as int]));
        if w > 65535 {
            widths_fit = false;
        }
        labels.push(l);
        bytes.push(b);
        widths.push(w);
        i = i + 1;
    }
    (labels, bytes, widths, widths_fit)
}

/// The first pass: the rows the tabs need, and whether the pass's sums fit in `u16`.
fn count_tab_rows(x0: u32, max_x: u32, widths: &Vec<u32>, Ghost(lv): Ghost<Seq<Seq<char>>>) -> (r: (u32, bool))
    requires
        x0 <= 65535,
        max_x <= 2 * 65535,
        widths.len() == lv.len(),
        forall|k: int| 0 <= k < widths.len() ==> #[trigger] widths[k] == tab_cell_width(lv[k]) && widths[k] <= 65537,
    ensures
        r.0 == rows_scan(x0 as int, max_x as int, lv, lv.len() as int).rows,
        r.1 == rows_scan(x0 as int, max_x as int, lv, lv.len() as int).fits,
{
    let n = widths.len();
    let mut rows: u32 = 1;
    let mut x: u32 = x0;
    let mut rows_fit = true;
    let mut i: usize = 0;
    while i < n
        invariant
            n == widths.len(),
            n == lv.len(),
            x0 <= 65535,
            max_x <= 2 * 65535,
            forall|k: int| 0 <= k < n ==> #[trigger] widths[k] == tab_cell_width(lv[k]) && widths[k] <= 65537,
            i <= n,
            rows == rows_scan(x0 as int, max_x as int, lv, i as int).rows,
            x == rows_scan(x0 as int, max_x as int, lv, i as int).x,
            rows_fit == rows_scan(x0 as int, max_x as int, lv, i as int).fits,
            1 <= rows <= 65535,
            x <= 65535,
        decreases n - i,
    {
        let w = widths[i];
        if x + w > 65535 {
            rows_fit = false;
        }
        if x + w > max_x {
            rows = sat16(rows + 1);
            x = sat16(x0 + w);
        } else {
            x = sat16(x + w);
        }
        i = i + 1;
    }
    (rows, rows_fit)
}

/// The number of tabs that fit in `mr` rows.
fn count_visible_tabs(x0: u32, max_x: u32, mr: u32, widths: &Vec<u32>, Ghost(lv): Ghost<Seq<Seq<char>>>) -> (r: usize)
    requires
        x0 <= 65535,
        max_x <= 2 * 65535,
        1 <= mr <= 3,
        widths.len() == lv.len(),
        forall|k: int| 0 <= k < widths.len() ==> #[trigger] widths[k] == tab_cell_width(lv[k]) && widths[k] <= 65537,
    ensures
        r == visible_scan(x0 as int, max_x as int, mr as int, lv, lv.len() as int).count,
{
    let n = widths.len();
    let mut count: usize = 0;
    let mut rx: u32 = x0;
    let mut r: u32 = 0;
    let mut stopped = false;
    let mut j: usize = 0;
    while j < n && !stopped
        invariant
            n == widths.len(),
            n == lv.len(),
            x0 <= 65535,
            max_x <= 2 * 65535,
            forall|k: int| 0 <= k < n ==> #[trigger] widths[k] == tab_cell_width(lv[k]) && widths[k] <= 65537,
            1 <= mr <= 3,
            j <= n,
            count == visible_scan(x0 as int, max_x as int, mr as int, lv, j as int).count,
            rx == visible_scan(x0 as int, max_x as int, mr as int, lv, j as int).x,
            r == visible_scan(x0 as int, max_x as int, mr as int, lv, j as int).row,
            stopped == visible_scan(x0 as int, max_x as int, mr as int, lv, j as int).stopped,
            count <= j,
            rx <= 65535,
            r <= 65535,
        decreases n - j,
    {
        let w = widths[j];
        if rx + w > max_x {
            let r2 = sat16(r + 1);
            if r2 >= mr {
                r = r2;
                stopped = true;
            } else {
                r = r2;
                count = count + 1;
                rx = sat16(x0 + w);
            }
        } else if r >= mr {
            stopped = true;
        } else {
            count = count + 1;
            rx = sat16(rx + w);
        }
        j = j + 1;
    }
    proof {
        if stopped {
            lemma_visible_stays(x0 as int, max_x as int, mr as int, lv, j as int, n as int);
        }
    }
    count
}

/// Where the placement ends: its row and next left edge and top.
struct PlacementEnd {
    row: u32,
    x: u32,
    y: u32,
}

/// Places the first `visible` tabs; the slots, where placing ended, and whether every cut
/// fell on a character's end.
fn place_tabs(
    body: Rect,
    labels: &Vec<Vec<char>>,
    bytes: &Vec<usize>,
    widths: &Vec<u32>,
    active: usize,
    mr: u32,
    visible: usize,
    Ghost(lv): Ghost<Seq<Seq<char>>>,
) -> (r: (Vec<FileTabSlot>, PlacementEnd, bool))
    requires
        body.x + body.width <= 2 * 65535,
        labels.len() == lv.len(),
        widths.len() == lv.len(),
        bytes.len() == lv.len(),
        forall|k: int| 0 <= k < lv.len() ==> #[trigger] labels[k]@ == lv[k],
        forall|k: int| 0 <= k < lv.len() ==> #[trigger] bytes[k] == utf8_len(lv[k]),
        forall|k: int| 0 <= k < lv.len() ==> #[trigger] widths[k] == tab_cell_width(lv[k]) && widths[k] <= 65537,
        1 <= mr <= 3,
    ensures
        ({
            let p = placed_scan(body, lv, active as int, mr as int, visible as int, lv.len() as int);
            &&& r.0@.map_values(
                |s: FileTabSlot| FileTabSlotView { area: s.area, text: s.text@, active: s.active },
            ) == p.slots
            &&& r.1.row == p.row
            &&& r.1.x == p.x
            &&& r.1.y == p.y
            &&& r.2 == p.fits
            &&& r.1.row <= 65535 && r.1.x <= 65535 && r.1.y <= 65535
        }),
{
    let n = labels.len();
    let x0: u32 = body.x as u32;
    let max_x: u32 = body.x as u32 + body.width as u32;
    let mut row: u32 = 0;
    let mut cx: u32 = x0;
    let mut cy: u32 = body.y as u32;
    let mut slots: Vec<FileTabSlot> = Vec::new();
    let mut stopped = false;
    let mut placed_fit = true;
    let mut j: usize = 0;
    let ghost sv = |s: FileTabSlot| FileTabSlotView { area: s.area, text: s.text@, active: s.active };
    assert(slots@.map_values(sv) =~= Seq::<FileTabSlotView>::empty());
    while j < n && !stopped
        invariant
            n == labels.len(),
            n == widths.len(),
            n == bytes.len(),
            n == lv.len(),
            x0 == body.x,
            max_x == body.x + body.width,
            max_x <= 2 * 65535,
            forall|k: int| 0 <= k < n ==> #[trigger] labels[k]@ == lv[k],
            forall|k: int| 0 <= k < n ==> #[trigger] bytes[k] == utf8_len(lv[k]),
            forall|k: int| 0 <= k < n ==> #[trigger] widths[k] == tab_cell_width(lv[k]) && widths[k] <= 65537,
            1 <= mr <= 3,
            j <= n,
            row == placed_scan(body, lv, active as int, mr as int, visible as int, j as int).row,
            cx == placed_scan(body, lv, active as int, mr as int, visible as int, j as int).x,
            cy == placed_scan(body, lv, active as int, mr as int, visible as int, j as int).y,
            slots@.map_values(sv) == placed_scan(body, lv, active as int, mr as int, visible as int, j as int).slots,
            stopped == placed_scan(body, lv, active as int, mr as int, visible as int, j as int).stopped,
            placed_fit == placed_scan(body, lv, active as int, mr as int, visible as int, j as int).fits,
            sv == (|s: FileTabSlot| FileTabSlotView { area: s.area, text: s.text@, active: s.active }),
            row <= 65535,
            cx <= 65535,
            cy <= 65535,
        decreases n - j,
    {
        let w = widths[j];
        let wraps = sat16(cx + w) > max_x;
        if j >= visible {
            stopped = true;
        } else if wraps && sat16(row + 1) >= mr {
            row = sat16(row + 1);
            stopped = true;
        } else {
            if wraps {
                row = sat16(row + 1);
                cx = x0;
                cy = sat16(cy + 1);
            }
            let remaining: u32 = if max_x > cx {
                max_x - cx
            } else {
                0
            };
            let (text, ok) = tab_text_exec(&labels[j], bytes[j], w, remaining);
            if !ok {
                placed_fit = false;
            }
            let tl: u32 = (text.len() % 65536) as u32;
            let aw: u32 = if tl < remaining {
                tl
            } else {
                remaining
            };
            let area = Rect::new(cx as u16, cy as u16, aw as u16, 1);
            let ghost before = slots@.map_values(sv);
            let slot = FileTabSlot { area, text: string_of(&text), active: j == active };
            slots.push(slot);
            assert(slots@.map_values(sv) =~= before.push(sv(slot)));
            cx = sat16(cx + w);
        }
        j = j + 1;
    }
    proof {
        if stopped {
            lemma_placed_stays(body, lv, active as int, mr as int, visible as int, j as int, n as int);
        }
    }
    (slots, PlacementEnd { row, x: cx, y: cy }, placed_fit)
}

/// The `+N` marker for `hidden` tabs, and whether its sum fits in `u16`.
fn more_marker_exec(body: Rect, mr: u32, end: &PlacementEnd, hidden: usize) -> (r: (Option<(Rect, String)>, bool))
    requires
        body.x + body.width <= 2 * 65535,
        1 <= mr <= 3,
        end.row <= 65535 && end.x <= 65535 && end.y <= 65535,
    ensures
        ({
            let p = TabsPlaced { row: end.row as int, x: end.x as int, y: end.y as int, slots: seq![], stopped: true, fits: true };
            &&& r.0 matches Some((a, t)) ==> more_marker(body, mr as int, p, hidden as int) == Some((a, t@))
            &&& r.0 is None ==> more_marker(body, mr as int, p, hidden as int) is None
            &&& r.1 == (hidden <= 0 || sat_add(end.x as int, 2) + (" +"@ + decimal(hidden as nat)).len() <= 65535)
        }),
{
    if hidden == 0 {
        return (None, true);
    }
    let max_x: u32 = body.x as u32 + body.width as u32;
    let mut text = chars_of(" +");
    let mut digits = decimal_exec(hidden as u64);
    proof {
        reveal_with_fuel(pow10, 21);
        lemma_decimal_len(hidden as nat, 20);
        reveal_strlit(" +");
    }
    text.append(&mut digits);
    let sw: u32 = text.len() as u32;
    let last_x = sat16(end.x + 2);
    let fits = last_x + sw <= 65535;
    if last_x + sw <= max_x {
        (Some((Rect::new(last_x as u16, end.y as u16, sw as u16, 1), string_of(&text))), fits)
    } else if end.row < mr - 1 {
        (Some((Rect::new(body.x, sat16(end.y + 1) as u16, sw as u16, 1), string_of(&text))), fits)
    } else {
        (None, fits)
    }
}

/// The file tabs' layout and whether it fits (`file_tabs_fit`).
#[verifier::rlimit(50)]
fn compute_file_tabs(body: Rect, paths: &Vec<String>, active: usize) -> (r: (FileTabsLayout, bool))
    requires
        forall|i: int| 0 <= i < paths.len() ==> utf8_len(#[trigger] paths[i]@) <= usize::MAX,
    ensures
        r.0@ == file_tabs_layout(body, labels_of(paths@), active as int),
        r.1 == file_tabs_fit(body, labels_of(paths@), active as int),
{
    let n = paths.len();
    let ghost lv = labels_of(paths@);
    if body.height < 2 || n == 0 {
        let r = FileTabsLayout { tab_area: Rect::default(), panel_area: body, slots: Vec::new(), more: None };
        assert(r@.slots =~= Seq::<FileTabSlotView>::empty());
        return (r, true);
    }
    let (labels, bytes, widths, widths_fit) = tab_labels(paths);
    let x0: u32 = body.x as u32;
    let max_x: u32 = body.x as u32 + body.width as u32;
    let (rows, rows_fit) = count_tab_rows(x0, max_x, &widths, Ghost(lv));
    let hs: u32 = if body.height >= 2 {
        body.height as u32 - 2
    } else {
        0
    };
    let m1: u32 = if hs < 3 {
        hs
    } else {
        3
    };
    let mr: u32 = if m1 < 1 {
        1
    } else {
        m1
    };
    assert(mr == max_tab_rows(body.height as int));
    let used: u32 = if rows < mr {
        rows
    } else {
        mr
    };
    let visible: usize = if rows > mr {
        count_visible_tabs(x0, max_x, mr, &widths, Ghost(lv))
    } else {
        n
    };
    proof {
        lemma_visible_count(x0 as int, max_x as int, mr as int, lv, n as int);
    }
    assert(visible == shown_tabs(body, lv));
    let (slots, end, placed_fit) = place_tabs(body, &labels, &bytes, &widths, active, mr, visible, Ghost(lv));
    let (more, marker_fit) = more_marker_exec(body, mr, &end, n - visible);
    let ghost placed = placed_scan(body, lv, active as int, mr as int, visible as int, n as int);
    let ghost p2 = TabsPlaced { row: end.row as int, x: end.x as int, y: end.y as int, slots: seq![], stopped: true, fits: true };
    assert(more_marker(body, mr as int, p2, (n - visible) as int) == more_marker(body, mr as int, placed, (n - visible) as int));
    let tab_area = Rect::new(body.x, body.y, body.width, used as u16);
    let panel_area = Rect::new(
        body.x,
        sat16(body.y as u32 + used) as u16,
        body.width,
        if body.height as u32 > used {
            (body.height as u32 - used) as u16
        } else {
            0
        },
    );
    let r = FileTabsLayout { tab_area, panel_area, slots, more };
    (r, widths_fit && max_x <= 65535 && rows_fit && placed_fit && marker_fit)
}

/// The layout of the file tabs at the top of the diff viewer's body, for files at these
/// paths, the one at `active` highlighted (`file_tabs_layout`).
pub fn layout_file_tabs(body: Rect, paths: &Vec<String>, active: usize) -> (r: FileTabsLayout)
    requires
        forall|i: int| 0 <= i < paths.len() ==> utf8_len(#[trigger] paths[i]@) <= usize::MAX,
        file_tabs_fit(body, labels_of(paths@), active as int),
    ensures
        r@ == file_tabs_layout(body, labels_of(paths@), active as int),
{
    compute_file_tabs(body, paths, active).0
}

/// Whether the file tabs can be laid out (`file_tabs_fit`): their sums fit in `u16` and every
/// label that is cut is cut at a character's end.
pub fn file_tabs_fit_check(body: Rect, paths: &Vec<String>, active: usize) -> (r: bool)
    requires
        forall|i: int| 0 <= i < paths.len() ==> utf8_len(#[trigger] paths[i]@) <= usize::MAX,
    ensures
        r == file_tabs_fit(body, labels_of(paths@), active as int),
{
    compute_file_tabs(body, paths, active).1
}

// ---------------------------------------------------------------- panels

/// The widths of the old-file panel and the diff panel, with a one-cell divider between
/// them: the left one gets the smaller half.
pub fn diff_panel_widths(width: u16) -> (r: (u16, u16))
    ensures
        r.0 == sat_sub(width as int, 1) / 2,
        r.1 == sat_sub(width as int, 1) - sat_sub(width as int, 1) / 2,
{
    let inner: u16 = if width >= 1 {
        width - 1
    } else {
        0
    };
    let half = inner / 2;
    (half, inner - half)
}

/// A panel's title row and, below it, its content area (`None` when no row is left).
pub struct PanelAreas {
    pub title: Rect,
    pub content: Option<Rect>,
}

/// The areas of a panel: `None` when it is too small to draw (under four cells wide or two
/// rows high); else its title row, at most 80 cells wide, and the rows below.
pub fn panel_areas(area: Rect) -> (r: Option<PanelAreas>)
    ensures
        (area.width < 4 || area.height < 2) ==> r is None,
        !(area.width < 4 || area.height < 2) ==> (r matches Some(p) && p.title == Rect::clamped(
            area.x as int,
            area.y as int,
            imin(area.width as int, 80),
            1,
        ) && ({
            let c = Rect::clamped(
                area.x as int,
                sat_add(area.y as int, 1),
                area.width as int,
                sat_sub(area.height as int, 1),
            );
            if c.height == 0 {
                p.content is None
            } else {
                p.content == Some(c)
            }
        })),
{
    if area.width < 4 || area.height < 2 {
        return None;
    }
    let title = Rect::new(area.x, area.y, if area.width < 80 { area.width } else { 80 }, 1);
    let c = Rect::new(area.x, area.y.saturating_add(1), area.width, area.height - 1);
    let content = if c.height == 0 {
        None
    } else {
        Some(c)
    };
    Some(PanelAreas { title, content })
}

/// How far a panel is scrolled: lines from the bottom, the most there can be, and the rows
/// shown.
pub struct ScrollMetrics {
    pub offset_from_bottom: usize,
    pub max_offset_from_bottom: usize,
    pub viewport_rows: usize,
}

/// The scroll metrics of a panel of `lines` lines scrolled `scroll` lines down, with
/// `rows` rows.
pub fn panel_scroll_metrics(lines: usize, scroll: usize, rows: u16) -> (r: ScrollMetrics)
    ensures
        r.max_offset_from_bottom == imax(lines as int, 1) - 1,
        r.offset_from_bottom == sat_sub(imax(lines as int, 1) - 1, scroll as int),
        r.viewport_rows == imax(rows as int, 1),
{
    let top: usize = if lines > 1 {
        lines - 1
    } else {
        0
    };
    ScrollMetrics {
        offset_from_bottom: if top > scroll {
            top - scroll
        } else {
            0
        },
        max_offset_from_bottom: top,
        viewport_rows: if rows > 1 {
            rows as usize
        } else {
            1
        },
    }
}

/// Where a panel's lines go, and where its scrollbar goes when it can scroll: the last
/// column of the content area.
pub fn panel_text_area(content: Rect, metrics: &ScrollMetrics) -> (r: (Rect, Option<Rect>))
    requires
        content.x + content.width <= 65535,
    ensures
        metrics.max_offset_from_bottom > 0 ==> r.0 == Rect::clamped(
            content.x as int,
            content.y as int,
            sat_sub(content.width as int, 1),
            content.height as int,
        ) && r.1 == Some(
            Rect::clamped(
                content.x + sat_sub(content.width as int, 1),
                content.y as int,
                1,
                content.height as int,
            ),
        ),
        metrics.max_offset_from_bottom == 0 ==> r.0 == content && r.1 is None,
{
    if metrics.max_offset_from_bottom > 0 {
        let w1: u16 = if content.width >= 1 {
            content.width - 1
        } else {
            0
        };
        let track = Rect::new(content.x + w1, content.y, 1, content.height);
        (Rect::new(content.x, content.y, w1, content.height), Some(track))
    } else {
        (content, None)
    }
}

// ---------------------------------------------------------------- lines

/// How the old file's line is marked: removed by the diff, context around a change, or
/// unchanged.
#[derive(Clone, Copy, PartialEq, Eq, Structural, Debug)]
pub enum OldLineChange {
    Removed,
    Context,
    Unchanged,
}

/// The change of the old file's line `idx`: as the change map says, unchanged past its end.
pub fn old_line_change(map: &Vec<OldLineChange>, idx: usize) -> (r: OldLineChange)
    ensures
        r == if idx < map.len() {
            map[idx as int]
        } else {
            OldLineChange::Unchanged
        },
{
    if idx < map.len() {
        map[idx]
    } else {
        OldLineChange::Unchanged
    }
}

/// The marker before an old file's line.
pub fn old_line_marker(c: OldLineChange) -> (r: &'static str)
    ensures
        r@ == match c {
            OldLineChange::Removed => "\u{258c} "@,
            OldLineChange::Context => "\u{b7} "@,
            OldLineChange::Unchanged => "  "@,
        },
{
    match c {
        OldLineChange::Removed => "\u{258c} ",
        OldLineChange::Context => "\u{b7} ",
        OldLineChange::Unchanged => "  ",
    }
}

/// How a panel line is drawn: the colour of its marker, and the colour, background and
/// dimming of its text.
#[derive(Clone, Copy, PartialEq, Eq, Structural, Debug)]
pub struct LineStyle {
    pub marker_fg: Color,
    pub fg: Color,
    pub bg: Option<Color>,
    pub dim: bool,
}

/// How an old file's line is drawn: removed lines red on `surface0`, dimmed; context lines
/// yellow; unchanged lines in the text colour; the marker always dark grey.
pub open spec fn old_line_style_of(c: OldLineChange, pal: Palette) -> LineStyle {
    match c {
        OldLineChange::Removed => LineStyle {
            marker_fg: Color::DarkGray,
            fg: Color::Red,
            bg: Some(pal.surface0),
            dim: true,
        },
        OldLineChange::Context => LineStyle {
            marker_fg: Color::DarkGray,
            fg: Color::Yellow,
            bg: None,
            dim: false,
        },
        OldLineChange::Unchanged => LineStyle {
            marker_fg: Color::DarkGray,
            fg: pal.text,
            bg: None,
            dim: false,
        },
    }
}

/// The style of an old file's line.
pub fn old_line_style(c: OldLineChange, pal: &Palette) -> (r: LineStyle)
    ensures
        r == old_line_style_of(c, *pal),
{
    match c {
        OldLineChange::Removed => LineStyle {
            marker_fg: Color::DarkGray,
            fg: Color::Red,
            bg: Some(pal.surface0),
            dim: true,
        },
        OldLineChange::Context => LineStyle {
            marker_fg: Color::DarkGray,
            fg: Color::Yellow,
            bg: None,
            dim: false,
        },
        OldLineChange::Unchanged => LineStyle {
            marker_fg: Color::DarkGray,
            fg: pal.text,
            bg: None,
            dim: false,
        },
    }
}

/// The colour a diff line of this kind is drawn in: added green, removed red, hunk headers
/// cyan, file headers `overlay0`, other lines the text colour.
pub open spec fn diff_line_color(kind: DiffLineKind, pal: Palette) -> Color {
    match kind {
        DiffLineKind::Added => Color::Green,
        DiffLineKind::Removed => Color::Red,
        DiffLineKind::Hunk => Color::Cyan,
        DiffLineKind::Header => pal.overlay0,
        DiffLineKind::Context => pal.text,
    }
}

/// Green and red, the colours that a diff line is also shaded with.
pub open spec fn is_change_color(c: Color) -> bool {
    c == Color::Green || c == Color::Red
}

/// How a diff line is drawn: in its colour; where that colour is green or red, the text
/// also has it as a dimmed background and the marker has it too, else the marker is dark
/// grey.
pub open spec fn diff_line_style_of(kind: DiffLineKind, pal: Palette) -> LineStyle {
    let c = diff_line_color(kind, pal);
    LineStyle {
        marker_fg: if is_change_color(c) {
            c
        } else {
            Color::DarkGray
        },
        fg: c,
        bg: if is_change_color(c) {
            Some(c)
        } else {
            None
        },
        dim: is_change_color(c),
    }
}

/// The style of a diff line of this kind.
pub fn diff_line_style(kind: DiffLineKind, pal: &Palette) -> (r: LineStyle)
    ensures
        r == diff_line_style_of(kind, *pal),
{
    let c = match kind {
        DiffLineKind::Added => Color::Green,
        DiffLineKind::Removed => Color::Red,
        DiffLineKind::Hunk => Color::Cyan,
        DiffLineKind::Header => pal.overlay0,
        DiffLineKind::Context => pal.text,
    };
    let change = match c {
        Color::Green => true,
        Color::Red => true,
        _ => false,
    };
    LineStyle {
        marker_fg: if change {
            c
        } else {
            Color::DarkGray
        },
        fg: c,
        bg: if change {
            Some(c)
        } else {
            None
        },
        dim: change,
    }
}

/// Whether the diff viewer's inner area is large enough to draw it in: at least 8 rows
/// and 30 columns.
pub fn diff_viewer_fits(inner: Rect) -> (r: bool)
    ensures
        r == (inner.height >= 8 && inner.width >= 30),
{
    inner.height >= 8 && inner.width >= 30
}

/// What a line of a unified diff is.
#[derive(Clone, Copy, PartialEq, Eq, Structural, Debug)]
pub enum DiffLineKind {
    /// An added line (`+`, but not a `+++` header).
    Added,
    /// A removed line (`-`, but not a `---` header).
    Removed,
    /// A hunk header (`@@`).
    Hunk,
    /// A file header (`diff --git`, `index `, `---`, `+++`).
    Header,
    /// Any other line.
    Context,
}

/// The kind of a diff line, by how it starts.
pub open spec fn diff_line_kind(line: Seq<char>) -> DiffLineKind {
    if "+"@.is_prefix_of(line) && !"+++"@.is_prefix_of(line) {
        DiffLineKind::Added
    } else if "-"@.is_prefix_of(line) && !"---"@.is_prefix_of(line) {
        DiffLineKind::Removed
    } else if "@@"@.is_prefix_of(line) {
        DiffLineKind::Hunk
    } else if "diff --git"@.is_prefix_of(line) || "index "@.is_prefix_of(line) || "---"@.is_prefix_of(
        line,
    ) || "+++"@.is_prefix_of(line) {
        DiffLineKind::Header
    } else {
        DiffLineKind::Context
    }
}

/// A diff line as the diff panel shows it: its kind, the marker before it, and its text
/// (without the `+` or `-` of an added or removed line).
pub struct DiffLine {
    pub kind: DiffLineKind,
    pub marker: &'static str,
    pub text: String,
}

/// How the diff panel shows a line of the diff.
pub fn classify_diff_line(line: &str) -> (r: DiffLine)
    ensures
        r.kind == diff_line_kind(line@),
        r.marker@ == match r.kind {
            DiffLineKind::Added | DiffLineKind::Removed => "\u{258c}"@,
            DiffLineKind::Hunk => "\u{b7}"@,
            _ => " "@,
        },
        r.text@ == match r.kind {
            DiffLineKind::Added | DiffLineKind::Removed => line@.skip(1),
            _ => line@,
        },
{
    let v = chars_of(line);
    let plus = starts_with_str(&v, "+");
    let plus3 = starts_with_str(&v, "+++");
    let minus = starts_with_str(&v, "-");
    let minus3 = starts_with_str(&v, "---");
    let kind = if plus && !plus3 {
        DiffLineKind::Added
    } else if minus && !minus3 {
        DiffLineKind::Removed
    } else if starts_with_str(&v, "@@") {
        DiffLineKind::Hunk
    } else if starts_with_str(&v, "diff --git") || starts_with_str(&v, "index ") || minus3 || plus3 {
        DiffLineKind::Header
    } else {
        DiffLineKind::Context
    };
    match kind {
        DiffLineKind::Added | DiffLineKind::Removed => {
            proof {
                reveal_strlit("+");
                reveal_strlit("-");
            }
            assert(v@.len() >= 1);
            let text = string_of(&slice_of(&v, 1, v.len()));
            assert(v@.subrange(1, v@.len() as int) =~= line@.skip(1));
            DiffLine { kind, marker: "\u{258c}", text }
        },
        DiffLineKind::Hunk => DiffLine { kind, marker: "\u{b7}", text: string_of(&v) },
        _ => DiffLine { kind, marker: " ", text: string_of(&v) },
    }
}

// ---------------------------------------------------------------- footer

/// Which panel has the focus.
#[derive(Clone, Copy, PartialEq, Eq, Structural, Debug)]
pub enum DiffPanel {
    Left,
    Right,
}

/// The footer's label for the focused panel.
pub fn panel_label(panel: DiffPanel) -> (r: &'static str)
    ensures
        r@ == match panel {
            DiffPanel::Left => "  [old file]"@,
            DiffPanel::Right => "  [diff]"@,
        },
{
    match panel {
        DiffPanel::Left => "  [old file]",
        DiffPanel::Right => "  [diff]",
    }
}

/// The footer's label for the active file: its name and its place among the files, or
/// nothing when there are no files.
pub open spec fn file_label(paths: Seq<String>, active: int) -> Seq<char> {
    if paths.len() == 0 {
        seq![]
    } else {
        "  "@ + after_last_slash(paths[active]@) + "  ("@ + decimal((active + 1) as nat) + "/"@
            + decimal(paths.len()) + ")"@
    }
}

/// The footer's label for the active file (`file_label`).
pub fn footer_file_label(paths: &Vec<String>, active: usize) -> (r: String)
    requires
        paths.len() > 0 ==> active < paths.len(),
    ensures
        r@ == file_label(paths@, active as int),
{
    if paths.len() == 0 {
        return String::new();
    }
    let mut out = chars_of("  ");
    let mut name = file_name_of(paths[active].as_str());
    out.append(&mut name);
    let mut a = chars_of("  (");
    out.append(&mut a);
    let mut d1 = decimal_exec((active + 1) as u64);
    out.append(&mut d1);
    let mut sl = chars_of("/");
    out.append(&mut sl);
    let mut d2 = decimal_exec(paths.len() as u64);
    out.append(&mut d2);
    let mut close = chars_of(")");
    out.append(&mut close);
    string_of(&out)
}

} // verus!
