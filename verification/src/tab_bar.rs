//! What the tab bar draws: tab labels, scroll buttons, ellipses, the drop marker and the
//! diff button.
use vstd::prelude::*;

use crate::clock::{decimal, decimal_exec};
use crate::config_edit::concat;
use crate::tabs::{
    drop_indicator_fits, drop_indicator_x, first_visible, last_visible, lemma_visible, sat_add,
    sat_sub, tab_drop_indicator_x, tab_title, tab_title_with_zoom, Rect, WorkspaceTabs,
};
use crate::text::{chars_of, slice_of, string_of};

verus! {

/// The number and name labels of a tab `w` cells wide: ` n ` and ` name `, the name cut to
/// fit (with an ellipsis when at least four cells are left for it), the number cut when
/// not even it fits.
pub open spec fn tab_labels(num: nat, name: Seq<char>, w: int) -> (Seq<char>, Seq<char>) {
    let num_str = " "@ + decimal(num) + " "@;
    let name_str = " "@ + name + " "@;
    if w <= num_str.len() {
        (num_str.take(w), Seq::empty())
    } else {
        let avail = w - num_str.len();
        if avail >= name_str.len() {
            (num_str, name_str)
        } else if avail <= 3 {
            (num_str, name_str.take(avail))
        } else {
            (num_str, " "@ + name.take(avail - 3) + "\u{2026} "@)
        }
    }
}

/// The two labels of a tab cell.
pub fn tab_labels_exec(num: u64, name: &str, w: u16) -> (r: (String, String))
    ensures
        r.0@ == tab_labels(num as nat, name@, w as int).0,
        r.1@ == tab_labels(num as nat, name@, w as int).1,
{
    let sp = chars_of(" ");
    proof {
        reveal_strlit(" ");
    }
    let d = decimal_exec(num);
    let a = concat(&sp, &d);
    let num_str = concat(&a, &sp);
    let nv = chars_of(name);
    let b = concat(&sp, &nv);
    let name_str = concat(&b, &sp);
    let wu = w as usize;
    if wu <= num_str.len() {
        let t = slice_of(&num_str, 0, wu);
        assert(t@ =~= num_str@.take(w as int));
        let e: Vec<char> = Vec::new();
        return (string_of(&t), string_of(&e));
    }
    let avail = wu - num_str.len();
    if avail >= name_str.len() {
        (string_of(&num_str), string_of(&name_str))
    } else if avail <= 3 {
        let t = slice_of(&name_str, 0, avail);
        assert(t@ =~= name_str@.take(avail as int));
        (string_of(&num_str), string_of(&t))
    } else {
        let cut = slice_of(&nv, 0, avail - 3);
        assert(cut@ =~= nv@.take(avail - 3));
        let c = concat(&sp, &cut);
        let tail = chars_of("\u{2026} ");
        let lbl = concat(&c, &tail);
        (string_of(&num_str), string_of(&lbl))
    }
}

/// What the app knows when drawing the tab bar: padding settings, mouse capture, the scroll
/// offset, label dimming, whether the diff viewer is open or the focused pane's directory
/// is in a git repository, the drop position of a tab being dragged in this workspace, and
/// the hit areas computed for the bar.
pub struct TabBarState {
    pub vertical_padding: bool,
    pub left_padding: bool,
    pub mouse_capture: bool,
    pub tab_scroll: usize,
    pub dim_auto_named_tabs: bool,
    pub diff_viewer_open: bool,
    pub in_git_repo: bool,
    pub drop_insert_idx: Option<usize>,
    pub tab_hit_areas: Vec<Rect>,
    pub scroll_left_hit_area: Rect,
    pub scroll_right_hit_area: Rect,
    pub new_tab_hit_area: Rect,
}

/// A scroll button and whether it can scroll.
pub struct ScrollButton {
    pub rect: Rect,
    pub enabled: bool,
}

/// One drawn tab: where, its number and name labels, whether it is the active tab and
/// whether it is dimmed as automatically named.
pub struct TabCell {
    pub rect: Rect,
    pub num_label: String,
    pub name_label: String,
    pub active: bool,
    pub dim: bool,
}

/// Everything the tab bar draws, besides filling its area with the panel colour.
pub struct TabBarPlan {
    pub content_area: Rect,
    pub left_button: Option<ScrollButton>,
    pub right_button: Option<ScrollButton>,
    pub cells: Vec<TabCell>,
    pub drop_marker: Option<(u16, u16)>,
    pub new_tab_button: Option<Rect>,
    pub left_ellipsis: Option<(u16, u16)>,
    pub right_ellipsis: Option<(u16, u16)>,
    pub diff_button: Option<Rect>,
}

/// A drawn tab as character sequences.
pub struct TabCellSpec {
    pub rect: Rect,
    pub num_label: Seq<char>,
    pub name_label: Seq<char>,
    pub active: bool,
    pub dim: bool,
}

pub open spec fn cell_view(c: TabCell) -> TabCellSpec {
    TabCellSpec {
        rect: c.rect,
        num_label: c.num_label@,
        name_label: c.name_label@,
        active: c.active,
        dim: c.dim,
    }
}

/// The drawing of tab `idx` in hit area `hits[idx]`.
pub open spec fn cell_of(
    tabs: Seq<crate::tabs::TabInfo>,
    active: int,
    dim_auto: bool,
    hits: Seq<Rect>,
    idx: int,
) -> TabCellSpec {
    let labels = tab_labels((idx + 1) as nat, tab_title(tabs, idx), hits[idx].width as int);
    TabCellSpec {
        rect: hits[idx],
        num_label: labels.0,
        name_label: labels.1,
        active: idx == active,
        dim: dim_auto && tabs[idx].auto_named,
    }
}

/// The drawings of the shown tabs among the first `m`, in order.
pub open spec fn cells_upto(
    tabs: Seq<crate::tabs::TabInfo>,
    active: int,
    dim_auto: bool,
    hits: Seq<Rect>,
    m: int,
) -> Seq<TabCellSpec>
    decreases m,
{
    if m <= 0 {
        Seq::empty()
    } else {
        let prev = cells_upto(tabs, active, dim_auto, hits, m - 1);
        if hits[m - 1].width > 0 {
            prev.push(cell_of(tabs, active, dim_auto, hits, m - 1))
        } else {
            prev
        }
    }
}

/// The area the tabs are drawn in: below the optional padding row, right of the optional
/// padding column.
pub open spec fn content_area_of(area: Rect, vertical_padding: bool, left_padding: bool) -> Rect {
    let c = crate::tabs::padded_area(area, vertical_padding);
    if left_padding {
        Rect::clamped(sat_add(c.x as int, 1), c.y as int, sat_sub(c.width as int, 1), c.height as int)
    } else {
        c
    }
}

/// The drawn tabs are those with a non-empty hit area, in order.
pub open spec fn plan_cells(st: TabBarState, ws: WorkspaceTabs) -> Seq<TabCellSpec> {
    let hits = st.tab_hit_areas@;
    let m = if ws.tabs@.len() <= hits.len() {
        ws.tabs@.len() as int
    } else {
        hits.len() as int
    };
    cells_upto(ws.tabs@, ws.active_tab as int, st.dim_auto_named_tabs, hits, m)
}

/// Width of the diff button.
pub const DIFF_BUTTON_WIDTH: u16 = 9;

/// What the tab bar draws in a non-empty `area` (`render_tab_bar` without the drawing):
/// - the scroll buttons, with mouse capture and non-empty hit areas; the left one can scroll
///   when the bar is scrolled, the right one when a tab after the last shown one exists;
/// - a cell for each shown tab, with its labels;
/// - the drop marker for a dragged tab, kept inside the content area;
/// - the new-tab button, with mouse capture;
/// - an ellipsis after the left button (or at the content's left edge) when tabs are hidden
///   on the left, and one before the right button (or at the content's right edge) when
///   tabs are hidden on the right, when it falls in the content area;
/// - the diff button at the right end, in a git repository or with the diff viewer open,
///   when the bar is wider than 19 cells.
pub open spec fn plan_matches(st: TabBarState, ws: WorkspaceTabs, area: Rect, p: TabBarPlan) -> bool {
    let hits = st.tab_hit_areas@;
    let n = ws.tabs@.len();
    let c = content_area_of(area, st.vertical_padding, st.left_padding);
    let left = st.scroll_left_hit_area;
    let right = st.scroll_right_hit_area;
    let fv = first_visible(hits);
    let lv = last_visible(hits);
    let can_left = left.width > 0 && st.tab_scroll > 0;
    let can_right = right.width > 0 && lv >= 0 && lv + 1 < n;
    &&& p.content_area == c
    &&& (st.mouse_capture && left.width > 0) == (p.left_button is Some)
    &&& p.left_button matches Some(b) ==> b.rect == left && b.enabled == can_left
    &&& (st.mouse_capture && right.width > 0) == (p.right_button is Some)
    &&& p.right_button matches Some(b) ==> b.rect == right && b.enabled == can_right
    &&& p.cells@.map_values(|x: TabCell| cell_view(x)) == plan_cells(st, ws)
    &&& p.drop_marker == match st.drop_insert_idx {
        Some(i) => match drop_indicator_x(hits, left, right, n as int, i as int) {
            Some(x) => Some(
                (
                    crate::tabs::imin(x, c.x + sat_sub(c.width as int, 1)) as u16,
                    c.y,
                ),
            ),
            None => None,
        },
        None => None,
    }
    &&& p.new_tab_button == if st.mouse_capture && st.new_tab_hit_area.width > 0 {
        Some(st.new_tab_hit_area)
    } else {
        None
    }
    &&& p.left_ellipsis == if 0 < fv < hits.len() {
        let x = if st.mouse_capture && left.width > 0 {
            left.x + left.width
        } else {
            c.x as int
        };
        if x < c.x + c.width {
            Some((x as u16, c.y))
        } else {
            None
        }
    } else {
        None
    }
    &&& p.right_ellipsis == if lv >= 0 && lv + 1 < n {
        let x = if st.mouse_capture && right.width > 0 {
            sat_sub(right.x as int, 1)
        } else {
            c.x + sat_sub(c.width as int, 1)
        };
        if c.x <= x < c.x + c.width {
            Some((x as u16, c.y))
        } else {
            None
        }
    } else {
        None
    }
    &&& p.diff_button == if (st.diff_viewer_open || st.in_git_repo) && area.width > 19 {
        Some(Rect::clamped(area.x + sat_sub(area.width as int, 9), c.y as int, 9, 1))
    } else {
        None
    }
}

/// The sums the tab bar's drawing needs fit in `u16`.
pub open spec fn plan_fits(st: TabBarState, ws: WorkspaceTabs, area: Rect) -> bool {
    let hits = st.tab_hit_areas@;
    let left = st.scroll_left_hit_area;
    &&& area.x + area.width <= 65535
    &&& (st.drop_insert_idx matches Some(i) ==> drop_indicator_fits(
        hits,
        left,
        ws.tabs@.len() as int,
        i as int,
    ))
    &&& (st.mouse_capture && left.width > 0 && 0 < first_visible(hits) < hits.len() ==> left.x
        + left.width <= 65535)
}

fn first_visible_exec(hits: &Vec<Rect>) -> (r: usize)
    ensures
        r as int == first_visible(hits@),
{
    proof {
        lemma_visible(hits@);
    }
    let mut f: usize = 0;
    while f < hits.len() && hits[f].width == 0
        invariant
            f <= hits.len(),
            forall|k: int| 0 <= k < f ==> #[trigger] hits@[k].width == 0,
        decreases hits.len() - f,
    {
        f = f + 1;
    }
    assert(f == first_visible(hits@)) by {
        if f > first_visible(hits@) {
            assert(hits@[first_visible(hits@)].width == 0);
        }
    }
    f
}

/// Index of the last shown hit area, if any.
fn last_visible_exec(hits: &Vec<Rect>) -> (r: Option<usize>)
    ensures
        match r {
            Some(l) => last_visible(hits@) == l as int,
            None => last_visible(hits@) == -1,
        },
{
    proof {
        lemma_visible(hits@);
    }
    let mut k = hits.len();
    while k > 0 && hits[k - 1].width == 0
        invariant
            k <= hits.len(),
            forall|j: int| k <= j < hits.len() ==> #[trigger] hits@[j].width == 0,
        decreases k,
    {
        k = k - 1;
    }
    if k == 0 {
        assert(last_visible(hits@) == -1) by {
            if last_visible(hits@) >= 0 {
                assert(hits@[last_visible(hits@)].width == 0);
            }
        }
        None
    } else {
        assert(last_visible(hits@) == k - 1) by {
            if last_visible(hits@) > k - 1 {
                assert(hits@[last_visible(hits@)].width == 0);
            }
        }
        Some(k - 1)
    }
}

fn cells_exec(st: &TabBarState, ws: &WorkspaceTabs) -> (cells: Vec<TabCell>)
    ensures
        cells@.map_values(|x: TabCell| cell_view(x)) == plan_cells(*st, *ws),
{
    let hits = &st.tab_hit_areas;
    let m = if ws.tabs.len() <= hits.len() {
        ws.tabs.len()
    } else {
        hits.len()
    };
    let mut cells: Vec<TabCell> = Vec::new();
    let mut idx: usize = 0;
    while idx < m
        invariant
            idx <= m,
            m <= ws.tabs@.len(),
            m <= hits@.len(),
            hits == &st.tab_hit_areas,
            m == (if ws.tabs@.len() <= hits@.len() {
                ws.tabs@.len()
            } else {
                hits@.len()
            }),
            cells@.map_values(|x: TabCell| cell_view(x)) == cells_upto(
                ws.tabs@,
                ws.active_tab as int,
                st.dim_auto_named_tabs,
                hits@,
                idx as int,
            ),
        decreases m - idx,
    {
        let r = hits[idx];
        if r.width > 0 {
            let name = tab_title_with_zoom(ws, idx);
            let (num_label, name_label) = tab_labels_exec(idx as u64 + 1, name.as_str(), r.width);
            let cell = TabCell {
                rect: r,
                num_label,
                name_label,
                active: idx == ws.active_tab,
                dim: st.dim_auto_named_tabs && ws.tabs[idx].auto_named,
            };
            let ghost before = cells@;
            cells.push(cell);
            assert(cells@.map_values(|x: TabCell| cell_view(x)) =~= before.map_values(
                |x: TabCell| cell_view(x),
            ).push(cell_view(cell)));
        }
        idx = idx + 1;
    }
    cells
}

/// What the tab bar draws in `area`; `None` for an empty area, where nothing is drawn.
pub fn plan_tab_bar(st: &TabBarState, ws: &WorkspaceTabs, area: Rect) -> (r: Option<TabBarPlan>)
    requires
        plan_fits(*st, *ws, area),
    ensures
        (area.width == 0 || area.height == 0) ==> r is None,
        !(area.width == 0 || area.height == 0) ==> (r matches Some(p) && plan_matches(
            *st,
            *ws,
            area,
            p,
        )),
{
    if area.width == 0 || area.height == 0 {
        return None;
    }
    let hits = &st.tab_hit_areas;
    let n = ws.tabs.len();
    let mut c = area;
    if st.vertical_padding && c.height > 1 {
        c.y = c.y.saturating_add(1);
        c.height = c.height - 1;
    }
    if st.left_padding {
        c = Rect::new(c.x.saturating_add(1), c.y, c.width.saturating_sub(1), c.height);
    }
    assert(c == content_area_of(area, st.vertical_padding, st.left_padding));
    let left = st.scroll_left_hit_area;
    let right = st.scroll_right_hit_area;
    let fv = first_visible_exec(hits);
    let lv = last_visible_exec(hits);
    proof {
        lemma_visible(hits@);
    }
    let can_left = left.width > 0 && st.tab_scroll > 0;
    let can_right = right.width > 0 && match lv {
        Some(l) => l < hits.len() && l + 1 < n,
        None => false,
    };
    let left_button = if st.mouse_capture && left.width > 0 {
        Some(ScrollButton { rect: left, enabled: can_left })
    } else {
        None
    };
    let right_button = if st.mouse_capture && right.width > 0 {
        Some(ScrollButton { rect: right, enabled: can_right })
    } else {
        None
    };
    let cells = cells_exec(st, ws);
    let drop_marker = match st.drop_insert_idx {
        Some(i) => match tab_drop_indicator_x(hits, left, right, n, i) {
            Some(x) => {
                let edge = c.x + c.width.saturating_sub(1);
                Some((if x <= edge { x } else { edge }, c.y))
            },
            None => None,
        },
        None => None,
    };
    let new_tab_button = if st.mouse_capture && st.new_tab_hit_area.width > 0 {
        Some(st.new_tab_hit_area)
    } else {
        None
    };
    let left_ellipsis = if 0 < fv && fv < hits.len() {
        let x = if st.mouse_capture && left.width > 0 {
            left.x + left.width
        } else {
            c.x
        };
        if (x as u32) < (c.x as u32) + (c.width as u32) {
            Some((x, c.y))
        } else {
            None
        }
    } else {
        None
    };
    let right_ellipsis = match lv {
        Some(l) => if l < hits.len() && l + 1 < n {
            let x = if st.mouse_capture && right.width > 0 {
                right.x.saturating_sub(1)
            } else {
                c.x + c.width.saturating_sub(1)
            };
            if x >= c.x && (x as u32) < (c.x as u32) + (c.width as u32) {
                Some((x, c.y))
            } else {
                None
            }
        } else {
            None
        },
        None => None,
    };
    let diff_button = if (st.diff_viewer_open || st.in_git_repo) && area.width > DIFF_BUTTON_WIDTH
        + 10 {
        Some(Rect::new(area.x + area.width.saturating_sub(DIFF_BUTTON_WIDTH), c.y, DIFF_BUTTON_WIDTH, 1))
    } else {
        None
    };
    Some(
        TabBarPlan {
            content_area: c,
            left_button,
            right_button,
            cells,
            drop_marker,
            new_tab_button,
            left_ellipsis,
            right_ellipsis,
            diff_button,
        },
    )
}

} // verus!
