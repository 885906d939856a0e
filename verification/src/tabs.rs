//! Tab titles, tab widths and the layout of the tab bar.
use vstd::prelude::*;

use crate::clock::decimal;
use crate::config_edit::{first_index, lemma_first_index};
use crate::text::{chars_of, contains_char, eq_str, string_of};

verus! {

/// A rectangle of terminal cells.
#[derive(Clone, Copy, PartialEq, Eq, Structural, Debug)]
pub struct Rect {
    pub x: u16,
    pub y: u16,
    pub width: u16,
    pub height: u16,
}

impl Rect {
    /// A rectangle, with the width and height cut so that its right and bottom edges stay
    /// within `u16`.
    pub fn new(x: u16, y: u16, width: u16, height: u16) -> (r: Rect)
        ensures
            r == Rect::clamped(x as int, y as int, width as int, height as int),
    {
        let w = if width > u16::MAX - x {
            u16::MAX - x
        } else {
            width
        };
        let h = if height > u16::MAX - y {
            u16::MAX - y
        } else {
            height
        };
        Rect { x, y, width: w, height: h }
    }

    /// The rectangle `Rect::new` makes: the width and height cut to keep both edges within
    /// `u16`.
    pub open spec fn clamped(x: int, y: int, width: int, height: int) -> Rect {
        Rect {
            x: x as u16,
            y: y as u16,
            width: (if x + width > 65535 {
                65535 - x
            } else {
                width
            }) as u16,
            height: (if y + height > 65535 {
                65535 - y
            } else {
                height
            }) as u16,
        }
    }

    /// The empty rectangle at the origin.
    pub open spec fn zero() -> Rect {
        Rect { x: 0, y: 0, width: 0, height: 0 }
    }
}

impl Default for Rect {
    fn default() -> (r: Rect)
        ensures
            r == Rect::zero(),
    {
        Rect { x: 0, y: 0, width: 0, height: 0 }
    }
}

/// What a terminal runtime reports: the processes of the foreground job of its child
/// (`None` when it has no child or no foreground job) and the title an agent set via OSC.
pub struct RuntimeInfo {
    pub foreground: Option<Vec<String>>,
    pub osc_title: String,
}

/// What is known of a terminal: its border label (for the app's label setting) and the
/// argument vector it was launched with.
pub struct TerminalInfo {
    pub border_label: Option<String>,
    pub launch_argv: Option<Vec<String>>,
}

/// The focused pane of a tab: its terminal's runtime and terminal record, where they exist.
pub struct PaneInfo {
    pub runtime: Option<RuntimeInfo>,
    pub terminal: Option<TerminalInfo>,
}

/// A tab: its custom name, whether its name was chosen automatically, whether a pane is
/// zoomed, and its focused pane.
pub struct TabInfo {
    pub custom_name: Option<String>,
    pub auto_named: bool,
    pub zoomed: bool,
    pub focused_pane: Option<PaneInfo>,
}

/// A workspace's tabs and which one is active.
pub struct WorkspaceTabs {
    pub tabs: Vec<TabInfo>,
    pub active_tab: usize,
}

/// A shell process name.
pub open spec fn is_shell_name(n: Seq<char>) -> bool {
    n == "zsh"@ || n == "bash"@ || n == "sh"@ || n == "fish"@ || n == "csh"@ || n == "ksh"@ || n
        == "tcsh"@
}

/// A title that looks like a `user@host:path` shell prompt.
pub open spec fn looks_like_prompt(s: Seq<char>) -> bool {
    s.contains('@') && s.contains(':')
}

/// The names of a list of processes.
pub open spec fn names_of(ps: Seq<String>) -> Seq<Seq<char>> {
    ps.map_values(|s: String| s@)
}

/// The name a live runtime suggests: the first non-shell foreground process (or the agent's
/// OSC title, when it has one that is not a prompt); when only shells run, the first of
/// them, or `zsh`.
pub open spec fn runtime_name(rt: RuntimeInfo) -> Option<Seq<char>> {
    let (shell_only, pg): (bool, Option<Seq<char>>) = match rt.foreground {
        None => (true, None),
        Some(ps) => {
            let names = names_of(ps@);
            let k = first_index(names, |n: Seq<char>| !is_shell_name(n));
            if k < names.len() {
                (false, Some(names[k]))
            } else if names.len() > 0 {
                (true, Some(names[0]))
            } else {
                (true, None)
            }
        },
    };
    if shell_only {
        Some(
            match pg {
                Some(n) => n,
                None => "zsh"@,
            },
        )
    } else if rt.osc_title@.len() > 0 && !looks_like_prompt(rt.osc_title@) {
        Some(rt.osc_title@)
    } else {
        pg
    }
}

/// Start of the last `/`-separated segment of `s`.
pub open spec fn last_segment_start(s: Seq<char>) -> int
    decreases s.len(),
{
    if s.len() == 0 {
        0
    } else if s.last() == '/' {
        s.len() as int
    } else {
        last_segment_start(s.drop_last())
    }
}

pub proof fn lemma_last_segment_start(s: Seq<char>)
    ensures
        0 <= last_segment_start(s) <= s.len(),
        last_segment_start(s) > 0 ==> s[last_segment_start(s) - 1] == '/',
        forall|k: int| last_segment_start(s) <= k < s.len() ==> #[trigger] s[k] != '/',
    decreases s.len(),
{
    if s.len() > 0 && s.last() != '/' {
        lemma_last_segment_start(s.drop_last());
        assert forall|k: int| last_segment_start(s) <= k < s.len() implies #[trigger] s[k] != '/' by {
            if k < s.len() - 1 {
                assert(s[k] == s.drop_last()[k]);
            }
        }
    }
}

/// `Path::file_name` of a Unix path: its last component, skipping empty and `.` segments;
/// `None` when there is none or it is `..`.
pub open spec fn file_name(s: Seq<char>) -> Option<Seq<char>>
    decreases s.len(),
{
    let st = last_segment_start(s);
    proof {
        lemma_last_segment_start(s);
    }
    let seg = s.subrange(st, s.len() as int);
    if seg.len() > 0 && seg != "."@ {
        if seg == ".."@ {
            None
        } else {
            Some(seg)
        }
    } else if st == 0 {
        None
    } else {
        file_name(s.subrange(0, st - 1))
    }
}

/// The name of a tab's focused pane: the runtime's suggestion, else the terminal's border
/// label (unless it looks like a prompt), else the file name of the launched program, else
/// `zsh`.
pub open spec fn pane_name(pane: PaneInfo) -> Seq<char> {
    let d1 = match pane.runtime {
        Some(rt) => runtime_name(rt),
        None => None,
    };
    let d2 = if d1 is None {
        match pane.terminal {
            Some(t) => match t.border_label {
                Some(l) => if !looks_like_prompt(l@) {
                    Some(l@)
                } else {
                    None
                },
                None => None,
            },
            None => None,
        }
    } else {
        d1
    };
    let d3 = if d2 is None {
        match pane.terminal {
            Some(t) => match t.launch_argv {
                Some(argv) => if argv@.len() > 0 {
                    Some(
                        match file_name(argv@[0]@) {
                            Some(b) => b,
                            None => argv@[0]@,
                        },
                    )
                } else {
                    None
                },
                None => None,
            },
            None => None,
        }
    } else {
        d2
    };
    match d3 {
        Some(n) => n,
        None => "zsh"@,
    }
}

/// A tab's name: its custom name, else the name of its focused pane, else `zsh`.
pub open spec fn tab_name(tab: TabInfo) -> Seq<char> {
    match tab.custom_name {
        Some(c) => c@,
        None => match tab.focused_pane {
            Some(p) => pane_name(p),
            None => "zsh"@,
        },
    }
}

/// The title of tab `idx`: its name, with ` Z` when a pane is zoomed; `zsh` for a missing tab.
pub open spec fn tab_title(tabs: Seq<TabInfo>, idx: int) -> Seq<char> {
    if 0 <= idx < tabs.len() {
        tab_name(tabs[idx]) + if tabs[idx].zoomed {
            " Z"@
        } else {
            Seq::<char>::empty()
        }
    } else {
        "zsh"@
    }
}

/// Law: a tab without a custom name is named after what runs in its focused pane's
/// terminal. When a process other than a shell (`zsh`, `bash`, `sh`, `fish`, `csh`, `ksh`,
/// `tcsh`) is in the foreground, the tab takes the agent's OSC title, if there is one that
/// does not look like a `user@host:path` prompt, else the name of the first such process.
/// When only shells are in the foreground, it takes the first shell's name. A zoomed tab
/// has ` Z` after its name.
pub proof fn lemma_tab_named_by_runtime(tabs: Seq<TabInfo>, idx: int, rt: RuntimeInfo, ps: Seq<String>)
    requires
        0 <= idx < tabs.len(),
        tabs[idx].custom_name is None,
        tabs[idx].focused_pane matches Some(p) && p.runtime == Some(rt),
        rt.foreground is Some,
        rt.foreground->Some_0@ == ps,
        ps.len() > 0,
    ensures
        ({
            let suffix = if tabs[idx].zoomed {
                " Z"@
            } else {
                Seq::<char>::empty()
            };
            let osc = rt.osc_title@;
            &&& (exists|k: int| 0 <= k < ps.len() && !is_shell_name(#[trigger] ps[k]@)) && osc.len()
                > 0 && !(osc.contains('@') && osc.contains(':')) ==> tab_title(tabs, idx) == osc
                + suffix
            &&& forall|k: int|
                0 <= k < ps.len() && !is_shell_name(#[trigger] ps[k]@) && (forall|j: int|
                    0 <= j < k ==> is_shell_name(#[trigger] ps[j]@)) && !(osc.len() > 0 && !(
                osc.contains('@') && osc.contains(':'))) ==> tab_title(tabs, idx) == ps[k]@
                + suffix
            &&& (forall|k: int| 0 <= k < ps.len() ==> is_shell_name(#[trigger] ps[k]@))
                ==> tab_title(tabs, idx) == ps[0]@ + suffix
        }),
{
    let names = names_of(ps);
    let np = |n: Seq<char>| !is_shell_name(n);
    lemma_first_index(names, np);
    let c = first_index(names, np);
    assert forall|k: int| 0 <= k < ps.len() implies #[trigger] names[k] == ps[k]@ by {}
    if exists|k: int| 0 <= k < ps.len() && !is_shell_name(#[trigger] ps[k]@) {
        let k = choose|k: int| 0 <= k < ps.len() && !is_shell_name(#[trigger] ps[k]@);
        assert(np(names[k]));
        assert(c < names.len());
    }
    assert forall|k: int|
        0 <= k < ps.len() && !is_shell_name(#[trigger] ps[k]@) && (forall|j: int|
            0 <= j < k ==> is_shell_name(#[trigger] ps[j]@)) implies k == c by {
        assert(np(names[k]));
        if c < k {
            assert(np(names[c]));
            assert(is_shell_name(ps[c]@));
        }
    }
    if forall|k: int| 0 <= k < ps.len() ==> is_shell_name(#[trigger] ps[k]@) {
        if c < names.len() {
            assert(np(names[c]));
            assert(is_shell_name(ps[c]@));
        }
    }
}

fn is_shell_name_exec(n: &str) -> (r: bool)
    ensures
        r == is_shell_name(n@),
{
    let v = chars_of(n);
    eq_str(&v, "zsh") || eq_str(&v, "bash") || eq_str(&v, "sh") || eq_str(&v, "fish") || eq_str(
        &v,
        "csh",
    ) || eq_str(&v, "ksh") || eq_str(&v, "tcsh")
}

fn looks_like_prompt_exec(s: &str) -> (r: bool)
    ensures
        r == looks_like_prompt(s@),
{
    let v = chars_of(s);
    contains_char(&v, '@') && contains_char(&v, ':')
}

fn clone_string(s: &String) -> (r: String)
    ensures
        r@ == s@,
{
    s.clone()
}

fn runtime_name_exec(rt: &RuntimeInfo) -> (r: String)
    ensures
        runtime_name(*rt) == Some(r@),
{
    let mut shell_only = true;
    let mut pg: Option<String> = None;
    match &rt.foreground {
        None => {},
        Some(ps) => {
            let ghost names = names_of(ps@);
            let ghost p = |n: Seq<char>| !is_shell_name(n);
            let mut i: usize = 0;
            let mut hit = false;
            while i < ps.len() && !hit
                invariant
                    i <= ps.len(),
                    names == names_of(ps@),
                    p == (|n: Seq<char>| !is_shell_name(n)),
                    !hit ==> forall|k: int| 0 <= k < i ==> is_shell_name(#[trigger] names[k]),
                    hit ==> i < ps.len() && !is_shell_name(names[i as int]) && forall|k: int|
                        0 <= k < i ==> is_shell_name(#[trigger] names[k]),
                decreases ps.len() - i + (if hit { 0int } else { 1int }),
            {
                if !is_shell_name_exec(ps[i].as_str()) {
                    hit = true;
                } else {
                    i = i + 1;
                }
            }
            proof {
                lemma_first_index(names, p);
                let k = first_index(names, p);
                if hit {
                    assert(k == i) by {
                        if k < i {
                            assert(is_shell_name(names[k]));
                        }
                        if k > i {
                            assert(!p(names[i as int]));
                        }
                    }
                } else {
                    assert(k == names.len()) by {
                        if k < names.len() {
                            assert(is_shell_name(names[k]));
                        }
                    }
                }
            }
            if hit {
                shell_only = false;
                pg = Some(clone_string(&ps[i]));
            } else if ps.len() > 0 {
                pg = Some(clone_string(&ps[0]));
            }
        },
    }
    if shell_only {
        match pg {
            Some(n) => n,
            None => String::from_str("zsh"),
        }
    } else if rt.osc_title.as_str().unicode_len() > 0 && !looks_like_prompt_exec(
        rt.osc_title.as_str(),
    ) {
        clone_string(&rt.osc_title)
    } else {
        match pg {
            Some(n) => n,
            None => String::from_str("zsh"),
        }
    }
}

/// `Path::new(s).file_name()` of a Unix path.
pub fn file_name_of(s: &str) -> (r: Option<String>)
    ensures
        match file_name(s@) {
            Some(b) => r matches Some(x) && x@ == b,
            None => r is None,
        },
{
    let v = chars_of(s);
    let mut end = v.len();
    assert(v@.subrange(0, end as int) =~= v@);
    loop
        invariant
            end <= v.len(),
            file_name(v@.subrange(0, end as int)) == file_name(s@),
            v@ == s@,
        decreases end,
    {
        let ghost cur = v@.subrange(0, end as int);
        let mut st = end;
        while st > 0 && v[st - 1] != '/'
            invariant
                st <= end <= v.len(),
                last_segment_start(v@.subrange(0, st as int)) == last_segment_start(cur),
                cur == v@.subrange(0, end as int),
            decreases st,
        {
            assert(v@.subrange(0, st as int).drop_last() =~= v@.subrange(0, st - 1));
            st = st - 1;
        }
        assert(last_segment_start(v@.subrange(0, st as int)) == st) by {
            if st > 0 {
                assert(v@.subrange(0, st as int).last() == '/');
            }
        }
        assert(cur.subrange(st as int, cur.len() as int) =~= v@.subrange(st as int, end as int));
        let seg = crate::text::slice_of(&v, st, end);
        if seg.len() > 0 && !eq_str(&seg, ".") {
            if eq_str(&seg, "..") {
                return None;
            } else {
                return Some(string_of(&seg));
            }
        } else if st == 0 {
            return None;
        }
        assert(cur.subrange(0, st - 1) =~= v@.subrange(0, st - 1));
        end = st - 1;
    }
}

fn pane_name_exec(pane: &PaneInfo) -> (r: String)
    ensures
        r@ == pane_name(*pane),
{
    let mut d: Option<String> = match &pane.runtime {
        Some(rt) => Some(runtime_name_exec(rt)),
        None => None,
    };
    if d.is_none() {
        if let Some(t) = &pane.terminal {
            if let Some(l) = &t.border_label {
                if !looks_like_prompt_exec(l.as_str()) {
                    d = Some(clone_string(l));
                }
            }
        }
    }
    if d.is_none() {
        if let Some(t) = &pane.terminal {
            if let Some(argv) = &t.launch_argv {
                if argv.len() > 0 {
                    d = Some(
                        match file_name_of(argv[0].as_str()) {
                            Some(b) => b,
                            None => clone_string(&argv[0]),
                        },
                    );
                }
            }
        }
    }
    match d {
        Some(n) => n,
        None => String::from_str("zsh"),
    }
}

/// The title shown for tab `tab_idx`: its name, marked ` Z` when a pane is zoomed.
pub fn tab_title_with_zoom(ws: &WorkspaceTabs, tab_idx: usize) -> (r: String)
    ensures
        r@ == tab_title(ws.tabs@, tab_idx as int),
{
    if tab_idx < ws.tabs.len() {
        let tab = &ws.tabs[tab_idx];
        let mut name = match &tab.custom_name {
            Some(c) => clone_string(c),
            None => match &tab.focused_pane {
                Some(p) => pane_name_exec(p),
                None => String::from_str("zsh"),
            },
        };
        if tab.zoomed {
            name.append(" Z");
        } else {
            assert(name@ + Seq::<char>::empty() =~= name@);
        }
        name
    } else {
        String::from_str("zsh")
    }
}

// ---------------------------------------------------------------- widths and layout

/// Narrowest width of a tab.
pub const MIN_TAB_WIDTH: u16 = 8;

/// Width of the new-tab button.
pub const NEW_TAB_WIDTH: u16 = 3;

/// Width of each scroll button.
pub const TAB_SCROLL_BUTTON_WIDTH: u16 = 3;

/// `a.max(b)` on integers.
pub open spec fn imax(a: int, b: int) -> int {
    if a >= b {
        a
    } else {
        b
    }
}

/// `a.min(b)` on integers.
pub open spec fn imin(a: int, b: int) -> int {
    if a <= b {
        a
    } else {
        b
    }
}

/// `u16::saturating_add`.
pub open spec fn sat_add(a: int, b: int) -> int {
    if a + b > 65535 {
        65535
    } else {
        a + b
    }
}

/// `u16::saturating_sub`.
pub open spec fn sat_sub(a: int, b: int) -> int {
    if a - b < 0 {
        0
    } else {
        a - b
    }
}

/// The width of tab `idx`: its number, its title and four cells of padding, truncated to
/// `u16` as `as u16` does, and at least `MIN_TAB_WIDTH`.
pub open spec fn tab_width_of(tabs: Seq<TabInfo>, idx: int) -> int {
    let n = decimal((idx + 1) as nat).len() + tab_title(tabs, idx).len() + 4;
    imax((n % 65536) as int, MIN_TAB_WIDTH as int)
}

/// The hit areas from tab `idx` on, the next one starting at `x`: each tab gets its width,
/// cut to what is left of the area (but at least one cell), one cell of gap follows it, and
/// tabs that start at or past the right edge keep an empty area.
pub open spec fn layout_from(tabs: Seq<TabInfo>, area: Rect, idx: int, x: int, rects: Seq<Rect>) -> Seq<
    Rect,
>
    decreases tabs.len() - idx,
{
    let right = area.x + area.width;
    if idx < 0 || idx >= tabs.len() || x >= right {
        rects
    } else {
        let w = imax(imin(tab_width_of(tabs, idx), right - x), 1);
        layout_from(
            tabs,
            area,
            idx + 1,
            sat_add(x, w + 1),
            rects.update(idx, row_rect(x, area.y as int, w)),
        )
    }
}

/// The hit area of every tab when the bar shows tabs from `scroll` on; tabs before `scroll`
/// and tabs that do not fit have an empty area.
pub open spec fn tab_layout(tabs: Seq<TabInfo>, area: Rect, scroll: int) -> Seq<Rect> {
    let zero = Seq::new(tabs.len(), |i: int| Rect::zero());
    if area.width == 0 || area.height == 0 {
        zero
    } else {
        layout_from(tabs, area, scroll, area.x as int, zero)
    }
}

/// The layout's cell arithmetic stays within `u16`: the area's right edge fits, and no tab
/// is given the full 65535-cell width (which would overflow the gap after it).
pub open spec fn layout_fits(tabs: Seq<TabInfo>, area: Rect, scroll: int) -> bool {
    area.width == 0 || area.height == 0 || (area.x + area.width <= 65535 && !(area.width
        == 65535 && 0 <= scroll < tabs.len() && tab_width_of(tabs, scroll) == 65535))
}

/// Number of decimal digits of `n`.
fn digit_count(n: usize) -> (r: usize)
    ensures
        r as int == decimal(n as nat).len(),
        1 <= r <= n as int + 1,
    decreases n,
{
    if n < 10 {
        1
    } else {
        let k = digit_count(n / 10);
        k + 1
    }
}

/// Width of tab `tab_idx` in cells.
pub fn tab_width(ws: &WorkspaceTabs, tab_idx: usize) -> (r: u16)
    requires
        tab_idx < usize::MAX,
    ensures
        r as int == tab_width_of(ws.tabs@, tab_idx as int),
        r >= MIN_TAB_WIDTH,
{
    let title = tab_title_with_zoom(ws, tab_idx);
    let name_len = title.as_str().unicode_len();
    let num_len = digit_count(tab_idx + 1);
    let total: u128 = num_len as u128 + name_len as u128 + 4;
    let w = (total % 65536) as u16;
    if w >= MIN_TAB_WIDTH {
        w
    } else {
        MIN_TAB_WIDTH
    }
}

/// `n` empty rectangles.
fn zero_rects(n: usize) -> (r: Vec<Rect>)
    ensures
        r@ == Seq::new(n as nat, |i: int| Rect::zero()),
{
    let mut r: Vec<Rect> = Vec::new();
    let mut i: usize = 0;
    while i < n
        invariant
            i <= n,
            r@ == Seq::new(i as nat, |k: int| Rect::zero()),
        decreases n - i,
    {
        r.push(Rect::default());
        assert(r@ =~= Seq::new((i + 1) as nat, |k: int| Rect::zero()));
        i = i + 1;
    }
    r
}

/// The hit area of every tab of `ws` in `area` when the bar shows tabs from `scroll` on.
pub fn layout_tab_hit_areas(ws: &WorkspaceTabs, area: Rect, scroll: usize) -> (r: Vec<Rect>)
    requires
        layout_fits(ws.tabs@, area, scroll as int),
    ensures
        r@ == tab_layout(ws.tabs@, area, scroll as int),
{
    let n = ws.tabs.len();
    let mut rects = zero_rects(n);
    if area.width == 0 || area.height == 0 {
        return rects;
    }
    let mut x = area.x;
    let right = area.x + area.width;
    let mut idx = scroll;
    let ghost total = tab_layout(ws.tabs@, area, scroll as int);
    while idx < n && x < right
        invariant
            n == ws.tabs@.len(),
            layout_fits(ws.tabs@, area, scroll as int),
            area.width > 0 && area.height > 0,
            right == area.x + area.width,
            scroll <= idx,
            area.x <= x,
            idx > scroll ==> x > area.x,
            idx == scroll ==> x == area.x,
            rects@.len() == n,
            total == tab_layout(ws.tabs@, area, scroll as int),
            layout_from(ws.tabs@, area, idx as int, x as int, rects@) == total,
        decreases n - idx,
    {
        let desired = tab_width(ws, idx);
        let remaining = right - x;
        let mut width = if desired <= remaining {
            desired
        } else {
            remaining
        };
        if width < 1 {
            width = 1;
        }
        assert(width < 65535) by {
            if idx > scroll {
                assert(remaining < area.width);
            } else {
                assert(x == area.x);
            }
        }
        let ghost old_rects = rects@;
        rects.set(idx, Rect::new(x, area.y, width, 1));
        assert(rects@ == old_rects.update(
            idx as int,
            row_rect(x as int, area.y as int, width as int),
        ));
        x = x.saturating_add(width + 1);
        idx = idx + 1;
    }
    rects
}

// ---------------------------------------------------------------- scrolling

pub proof fn lemma_layout_from_len(tabs: Seq<TabInfo>, area: Rect, idx: int, x: int, rects: Seq<Rect>)
    requires
        rects.len() == tabs.len(),
    ensures
        layout_from(tabs, area, idx, x, rects).len() == rects.len(),
    decreases tabs.len() - idx,
{
    let right = area.x + area.width;
    if !(idx < 0 || idx >= tabs.len() || x >= right) {
        let w = imax(imin(tab_width_of(tabs, idx), right - x), 1);
        lemma_layout_from_len(
            tabs,
            area,
            idx + 1,
            sat_add(x, w + 1),
            rects.update(idx, row_rect(x, area.y as int, w)),
        );
    }
}

/// The layout has one hit area per tab.
pub proof fn lemma_tab_layout_len(tabs: Seq<TabInfo>, area: Rect, scroll: int)
    ensures
        tab_layout(tabs, area, scroll).len() == tabs.len(),
{
    lemma_layout_from_len(tabs, area, scroll, area.x as int, Seq::new(tabs.len(), |i: int| Rect::zero()));
}

/// `u16::saturating_mul(2)`.
pub open spec fn sat_double(a: int) -> int {
    imin(2 * a, 65535)
}

/// Twice the horizontal centre of a rectangle, as the bar measures it (saturating).
pub open spec fn center2(r: Rect) -> int {
    sat_add(sat_double(r.x as int), r.width as int)
}

/// `u16::abs_diff`.
pub open spec fn abs_diff(a: int, b: int) -> int {
    if a >= b {
        a - b
    } else {
        b - a
    }
}

/// How far the active tab's centre is from the bar's centre when showing tabs from `s` on;
/// `None` when the active tab is not shown.
pub open spec fn active_distance(tabs: Seq<TabInfo>, area: Rect, active: int, s: int) -> Option<int> {
    let rs = tab_layout(tabs, area, s);
    if 0 <= active < rs.len() && rs[active].width != 0 {
        Some(abs_diff(center2(rs[active]), center2(area)))
    } else {
        None
    }
}

/// The scan of `centered_tab_scroll` from scroll `s` on, having kept `best_s` at distance
/// `best_d`: a scroll at least as close replaces the kept one.
pub open spec fn centered_from(
    tabs: Seq<TabInfo>,
    area: Rect,
    active: int,
    s: int,
    best_s: int,
    best_d: int,
) -> int
    decreases active + 1 - s,
{
    if s > active {
        best_s
    } else {
        match active_distance(tabs, area, active, s) {
            Some(d) => if d <= best_d {
                centered_from(tabs, area, active, s + 1, s, d)
            } else {
                centered_from(tabs, area, active, s + 1, best_s, best_d)
            },
            None => centered_from(tabs, area, active, s + 1, best_s, best_d),
        }
    }
}

/// The scroll that centres the active tab best (the last of equally good ones), or the
/// active index itself when no scroll shows the active tab.
pub open spec fn centered_scroll(tabs: Seq<TabInfo>, area: Rect, active: int) -> int {
    centered_from(tabs, area, active, 0, active, 65535)
}

/// Every scroll up to `last` lays out within `u16`.
pub open spec fn layout_fits_upto(tabs: Seq<TabInfo>, area: Rect, last: int) -> bool {
    forall|s: int| 0 <= s <= last ==> #[trigger] layout_fits(tabs, area, s)
}

/// The centring scroll is one that shows the active tab, is no farther from the centre than
/// any other such scroll, and is the last of those equally close; when no scroll up to the
/// active index shows it, it is the active index.
pub proof fn lemma_centered_scroll(tabs: Seq<TabInfo>, area: Rect, active: int)
    requires
        0 <= active,
    ensures
        ({
            let c = centered_scroll(tabs, area, active);
            &&& (forall|s: int| 0 <= s <= active ==> #[trigger] active_distance(tabs, area, active, s) is None)
                ==> c == active
            &&& (exists|s: int| 0 <= s <= active && #[trigger] active_distance(tabs, area, active, s) is Some)
                ==> {
                &&& 0 <= c <= active
                &&& active_distance(tabs, area, active, c) is Some
                &&& forall|s: int|
                    0 <= s <= active && #[trigger] active_distance(tabs, area, active, s) is Some
                        ==> active_distance(tabs, area, active, c)->0 <= active_distance(tabs, area, active, s)->0
                &&& forall|s: int|
                    c < s <= active && #[trigger] active_distance(tabs, area, active, s) is Some
                        ==> active_distance(tabs, area, active, c)->0 < active_distance(tabs, area, active, s)->0
            }
        }),
{
    lemma_centered_from(tabs, area, active, 0, active, 65535, false);
}

/// Induction for `lemma_centered_scroll`: `found` says whether a scroll below `s` showed
/// the active tab; if so, `best_s` is the best of them, else `best_s` is the active index.
pub proof fn lemma_centered_from(
    tabs: Seq<TabInfo>,
    area: Rect,
    active: int,
    s: int,
    best_s: int,
    best_d: int,
    found: bool,
)
    requires
        0 <= s <= active + 1,
        !found ==> best_s == active && best_d == 65535 && forall|k: int|
            0 <= k < s ==> #[trigger] active_distance(tabs, area, active, k) is None,
        found ==> {
            &&& 0 <= best_s < s
            &&& active_distance(tabs, area, active, best_s) == Some(best_d)
            &&& forall|k: int|
                0 <= k < s && #[trigger] active_distance(tabs, area, active, k) is Some
                    ==> best_d <= active_distance(tabs, area, active, k)->0
            &&& forall|k: int|
                best_s < k < s && #[trigger] active_distance(tabs, area, active, k) is Some
                    ==> best_d < active_distance(tabs, area, active, k)->0
        },
    ensures
        ({
            let c = centered_from(tabs, area, active, s, best_s, best_d);
            &&& (forall|k: int| 0 <= k <= active ==> #[trigger] active_distance(tabs, area, active, k) is None)
                ==> c == active
            &&& (exists|k: int| 0 <= k <= active && #[trigger] active_distance(tabs, area, active, k) is Some)
                ==> {
                &&& 0 <= c <= active
                &&& active_distance(tabs, area, active, c) is Some
                &&& forall|k: int|
                    0 <= k <= active && #[trigger] active_distance(tabs, area, active, k) is Some
                        ==> active_distance(tabs, area, active, c)->0 <= active_distance(tabs, area, active, k)->0
                &&& forall|k: int|
                    c < k <= active && #[trigger] active_distance(tabs, area, active, k) is Some
                        ==> active_distance(tabs, area, active, c)->0 < active_distance(tabs, area, active, k)->0
            }
        }),
    decreases active + 1 - s,
{
    if s > active {
        if !found {
            assert forall|k: int| 0 <= k <= active implies #[trigger] active_distance(tabs, area, active, k) is None by {}
        }
    } else {
        match active_distance(tabs, area, active, s) {
            Some(d) => {
                assert(0 <= d <= 65535) by {
                    let rs = tab_layout(tabs, area, s);
                    assert(0 <= center2(rs[active]) <= 65535);
                    assert(0 <= center2(area) <= 65535);
                }
                if d <= best_d {
                    lemma_centered_from(tabs, area, active, s + 1, s, d, true);
                } else {
                    lemma_centered_from(tabs, area, active, s + 1, best_s, best_d, found);
                }
            },
            None => {
                lemma_centered_from(tabs, area, active, s + 1, best_s, best_d, found);
            },
        }
    }
}

fn sat_double_exec(a: u16) -> (r: u16)
    ensures
        r as int == sat_double(a as int),
{
    if a <= 32767 {
        a * 2
    } else {
        65535
    }
}

fn abs_diff_exec(a: u16, b: u16) -> (r: u16)
    ensures
        r as int == abs_diff(a as int, b as int),
{
    if a >= b {
        a - b
    } else {
        b - a
    }
}

/// The scroll that best centres the active tab in `area`.
pub fn centered_tab_scroll(ws: &WorkspaceTabs, area: Rect) -> (r: usize)
    requires
        layout_fits_upto(ws.tabs@, area, ws.active_tab as int),
    ensures
        r as int == centered_scroll(ws.tabs@, area, ws.active_tab as int),
{
    let active = ws.active_tab;
    let ghost tabs = ws.tabs@;
    let ghost a = active as int;
    if active >= ws.tabs.len() {
        // no scroll shows a tab past the end: the scan keeps the active index
        proof {
            lemma_centered_none(tabs, area, a, 0);
        }
        return active;
    }
    let mut best_scroll = active;
    let mut best_distance: u16 = 65535;
    let viewport_center = sat_double_exec(area.x).saturating_add(area.width);
    let mut scroll: usize = 0;
    while scroll <= active
        invariant
            active == ws.active_tab,
            a == active as int,
            active < ws.tabs@.len(),
            tabs == ws.tabs@,
            layout_fits_upto(tabs, area, a),
            scroll <= active + 1,
            viewport_center as int == center2(area),
            centered_from(tabs, area, a, scroll as int, best_scroll as int, best_distance as int)
                == centered_scroll(tabs, area, a),
        decreases active + 1 - scroll,
    {
        assert(layout_fits(tabs, area, scroll as int));
        let rects = layout_tab_hit_areas(ws, area, scroll);
        proof {
            lemma_tab_layout_len(tabs, area, scroll as int);
        }
        if active < rects.len() && rects[active].width != 0 {
            let r = rects[active];
            let active_center = sat_double_exec(r.x).saturating_add(r.width);
            let distance = abs_diff_exec(active_center, viewport_center);
            if distance <= best_distance {
                best_distance = distance;
                best_scroll = scroll;
            }
        }
        scroll = scroll + 1;
    }
    best_scroll
}

/// With no tab at the active index, the scan keeps the active index.
proof fn lemma_centered_none(tabs: Seq<TabInfo>, area: Rect, active: int, s: int)
    requires
        active >= tabs.len(),
        0 <= s <= active + 1,
    ensures
        centered_from(tabs, area, active, s, active, 65535) == active,
    decreases active + 1 - s,
{
    if s <= active {
        lemma_tab_layout_len(tabs, area, s);
        lemma_centered_none(tabs, area, active, s + 1);
    }
}

/// The first scroll (below the number of tabs) at which the last tab is shown, or 0.
pub open spec fn first_scroll_showing_last(tabs: Seq<TabInfo>, area: Rect, s: int) -> int
    decreases tabs.len() - s,
{
    if s < 0 || s >= tabs.len() {
        0
    } else {
        let rs = tab_layout(tabs, area, s);
        if rs.len() > 0 && rs.last().width > 0 {
            s
        } else {
            first_scroll_showing_last(tabs, area, s + 1)
        }
    }
}

/// The smallest scroll that still shows the last tab.
pub fn max_tab_scroll(ws: &WorkspaceTabs, area: Rect) -> (r: usize)
    requires
        layout_fits_upto(ws.tabs@, area, ws.tabs@.len() - 1),
    ensures
        r as int == first_scroll_showing_last(ws.tabs@, area, 0),
{
    let n = ws.tabs.len();
    let mut s: usize = 0;
    while s < n
        invariant
            n == ws.tabs@.len(),
            s <= n,
            layout_fits_upto(ws.tabs@, area, n - 1),
            first_scroll_showing_last(ws.tabs@, area, s as int) == first_scroll_showing_last(
                ws.tabs@,
                area,
                0,
            ),
        decreases n - s,
    {
        assert(layout_fits(ws.tabs@, area, s as int));
        let rects = layout_tab_hit_areas(ws, area, s);
        if rects.len() > 0 && rects[rects.len() - 1].width > 0 {
            return s;
        }
        s = s + 1;
    }
    0
}

/// Right edge of the last shown tab, or `fallback_x` when no tab is shown.
pub open spec fn trailing_x(rects: Seq<Rect>, fallback_x: int) -> int
    decreases rects.len(),
{
    if rects.len() == 0 {
        fallback_x
    } else if rects.last().width > 0 {
        rects.last().x + rects.last().width
    } else {
        trailing_x(rects.drop_last(), fallback_x)
    }
}

/// Shown rectangles end within `u16`.
pub open spec fn ends_fit(rects: Seq<Rect>) -> bool {
    forall|i: int| 0 <= i < rects.len() && #[trigger] rects[i].width > 0 ==> rects[i].x + rects[i].width <= 65535
}

/// Where controls after the tabs start: the right edge of the last shown tab.
pub fn trailing_tab_controls_x(tab_hit_areas: &Vec<Rect>, fallback_x: u16) -> (r: u16)
    requires
        ends_fit(tab_hit_areas@),
    ensures
        r as int == trailing_x(tab_hit_areas@, fallback_x as int),
{
    let mut k = tab_hit_areas.len();
    assert(tab_hit_areas@.take(k as int) =~= tab_hit_areas@);
    while k > 0
        invariant
            k <= tab_hit_areas.len(),
            ends_fit(tab_hit_areas@),
            trailing_x(tab_hit_areas@.take(k as int), fallback_x as int) == trailing_x(
                tab_hit_areas@,
                fallback_x as int,
            ),
        decreases k,
    {
        let r = tab_hit_areas[k - 1];
        assert(tab_hit_areas@.take(k as int).last() == r);
        if r.width > 0 {
            return r.x + r.width;
        }
        assert(tab_hit_areas@.take(k as int).drop_last() =~= tab_hit_areas@.take(k - 1));
        k = k - 1;
    }
    assert(tab_hit_areas@.take(0) =~= Seq::<Rect>::empty());
    fallback_x
}

// ---------------------------------------------------------------- layout laws

/// The height of a one-row rectangle at the area's top: one cell, or none where the area
/// starts at the last row that `u16` can address.
pub open spec fn row_height(area: Rect) -> int {
    if area.y < 65535 {
        1
    } else {
        0
    }
}

/// Shown hit areas of a layout lie in the bar's row inside the area, tabs before the
/// scroll offset are not shown, and shown tabs run left to right with a gap between them.
pub open spec fn layout_well_placed(rects: Seq<Rect>, area: Rect, scroll: int) -> bool {
    &&& forall|i: int|
        0 <= i < rects.len() && #[trigger] rects[i].width > 0 ==> {
            &&& scroll <= i
            &&& area.x <= rects[i].x
            &&& rects[i].x + rects[i].width <= area.x + area.width
            &&& rects[i].y == area.y
            &&& rects[i].height == row_height(area)
        }
    &&& forall|i: int, j: int|
        0 <= i < j < rects.len() && #[trigger] rects[i].width > 0 && #[trigger] rects[j].width > 0
            ==> rects[i].x + rects[i].width < rects[j].x
}

proof fn lemma_layout_from_placed(
    tabs: Seq<TabInfo>,
    area: Rect,
    scroll: int,
    idx: int,
    x: int,
    rects: Seq<Rect>,
)
    requires
        rects.len() == tabs.len(),
        area.x + area.width <= 65535,
        0 <= scroll <= idx,
        area.x <= x <= 65535,
        forall|i: int| 0 <= i < rects.len() && #[trigger] rects[i].width > 0 ==> {
            &&& scroll <= i < idx
            &&& area.x <= rects[i].x
            &&& rects[i].x + rects[i].width <= area.x + area.width
            &&& rects[i].x + rects[i].width < x
            &&& rects[i].y == area.y
            &&& rects[i].height == row_height(area)
        },
        forall|i: int, j: int|
            0 <= i < j < rects.len() && #[trigger] rects[i].width > 0 && #[trigger] rects[j].width
                > 0 ==> rects[i].x + rects[i].width < rects[j].x,
    ensures
        layout_well_placed(layout_from(tabs, area, idx, x, rects), area, scroll),
    decreases tabs.len() - idx,
{
    let right = area.x + area.width;
    if idx < 0 || idx >= tabs.len() || x >= right {
    } else {
        let w = imax(imin(tab_width_of(tabs, idx), right - x), 1);
        let nr = rects.update(idx, row_rect(x, area.y as int, w));
        let nx = sat_add(x, w + 1);
        assert forall|i: int| 0 <= i < nr.len() && #[trigger] nr[i].width > 0 implies {
            &&& scroll <= i < idx + 1
            &&& area.x <= nr[i].x
            &&& nr[i].x + nr[i].width <= area.x + area.width
            &&& nr[i].x + nr[i].width < nx || nx >= right
            &&& nr[i].y == area.y
            &&& nr[i].height == row_height(area)
        } by {
            if i != idx {
                assert(nr[i] == rects[i]);
            }
        }
        if nx >= right {
            lemma_layout_from_stops(tabs, area, idx + 1, nx, nr);
            assert forall|i: int, j: int|
                0 <= i < j < nr.len() && #[trigger] nr[i].width > 0 && #[trigger] nr[j].width > 0
                    implies nr[i].x + nr[i].width < nr[j].x by {
                if j == idx {
                    assert(nr[i] == rects[i]);
                } else if i != idx {
                    assert(nr[i] == rects[i]);
                    assert(nr[j] == rects[j]);
                }
            }
        } else {
            lemma_layout_from_placed(tabs, area, scroll, idx + 1, nx, nr);
        }
    }
}

proof fn lemma_layout_from_stops(tabs: Seq<TabInfo>, area: Rect, idx: int, x: int, rects: Seq<Rect>)
    requires
        x >= area.x + area.width,
    ensures
        layout_from(tabs, area, idx, x, rects) == rects,
{
}

/// Law: the layout of the tab bar keeps every shown tab inside the area, in the bar's first
/// row, one cell high (none on the last row `u16` can address), in index order from the
/// scroll offset, with a gap between tabs.
pub proof fn lemma_tab_layout_placed(tabs: Seq<TabInfo>, area: Rect, scroll: int)
    requires
        0 <= scroll,
        area.x + area.width <= 65535,
    ensures
        layout_well_placed(tab_layout(tabs, area, scroll), area, scroll),
        tab_layout(tabs, area, scroll).len() == tabs.len(),
{
    lemma_tab_layout_len(tabs, area, scroll);
    let zero = Seq::new(tabs.len(), |i: int| Rect::zero());
    if area.width == 0 || area.height == 0 {
    } else {
        lemma_layout_from_placed(tabs, area, scroll, scroll, area.x as int, zero);
    }
}

// ---------------------------------------------------------------- the tab bar view

/// What the tab bar shows: the scroll offset, each tab's hit area and the hit areas of the
/// scroll buttons and the new-tab button (empty when absent).
pub struct TabBarView {
    pub scroll: usize,
    pub tab_hit_areas: Vec<Rect>,
    pub scroll_left_hit_area: Rect,
    pub scroll_right_hit_area: Rect,
    pub new_tab_hit_area: Rect,
}

/// The spec-level counterpart of `TabBarView`.
pub struct TabBarViewSpec {
    pub scroll: int,
    pub tab_hit_areas: Seq<Rect>,
    pub scroll_left_hit_area: Rect,
    pub scroll_right_hit_area: Rect,
    pub new_tab_hit_area: Rect,
}

/// The bar's area after the optional padding row on top.
pub open spec fn padded_area(area: Rect, vertical_padding: bool) -> Rect {
    if vertical_padding && area.height > 1 {
        Rect {
            x: area.x,
            y: sat_add(area.y as int, 1) as u16,
            width: area.width,
            height: (area.height - 1) as u16,
        }
    } else {
        area
    }
}

/// The scroll to use in `area`: centred on the active tab or the current one, but never
/// past the smallest scroll that still shows the last tab.
pub open spec fn chosen_scroll(
    tabs: Seq<TabInfo>,
    active: int,
    area: Rect,
    current_scroll: int,
    follow_active: bool,
) -> int {
    let max_scroll = first_scroll_showing_last(tabs, area, 0);
    if follow_active {
        imin(centered_scroll(tabs, area, active), max_scroll)
    } else {
        imin(current_scroll, max_scroll)
    }
}

/// A rectangle one cell high, as `Rect::new` makes it.
pub open spec fn row_rect(x: int, y: int, width: int) -> Rect {
    Rect::clamped(x, y, width, 1)
}

/// The view without mouse chrome: just the tabs, scrolled.
pub open spec fn plain_view(
    tabs: Seq<TabInfo>,
    active: int,
    area: Rect,
    current_scroll: int,
    follow_active: bool,
) -> TabBarViewSpec {
    let scroll = chosen_scroll(tabs, active, area, current_scroll, follow_active);
    TabBarViewSpec {
        scroll,
        tab_hit_areas: tab_layout(tabs, area, scroll),
        scroll_left_hit_area: Rect::zero(),
        scroll_right_hit_area: Rect::zero(),
        new_tab_hit_area: Rect::zero(),
    }
}

/// The area for all tabs when they fit: the bar less the new-tab button.
pub open spec fn all_tabs_area(area: Rect) -> Rect {
    Rect::clamped(
        area.x as int,
        area.y as int,
        sat_sub(area.width as int, NEW_TAB_WIDTH as int),
        area.height as int,
    )
}

/// The view with mouse chrome when every tab fits: the new-tab button follows the tabs.
pub open spec fn fitting_view(tabs: Seq<TabInfo>, area: Rect) -> TabBarViewSpec {
    let all_tabs = tab_layout(tabs, all_tabs_area(area), 0);
    let new_tab_x = trailing_x(all_tabs, area.x as int);
    TabBarViewSpec {
        scroll: 0,
        tab_hit_areas: all_tabs,
        scroll_left_hit_area: Rect::zero(),
        scroll_right_hit_area: Rect::zero(),
        new_tab_hit_area: row_rect(
            new_tab_x,
            area.y as int,
            imin(sat_sub(area.x + area.width, new_tab_x), NEW_TAB_WIDTH as int),
        ),
    }
}

/// The left scroll button of an overflowing bar.
pub open spec fn left_button(area: Rect) -> Rect {
    row_rect(area.x as int, area.y as int, imin(TAB_SCROLL_BUTTON_WIDTH as int, area.width as int))
}

/// Right end of the tabs' area of an overflowing bar: room is kept for the right scroll
/// button and the new-tab button.
pub open spec fn overflow_tabs_right(area: Rect) -> int {
    sat_sub(area.x + area.width, (NEW_TAB_WIDTH + TAB_SCROLL_BUTTON_WIDTH) as int)
}

/// The tabs' area of an overflowing bar, between the left scroll button and the buttons on
/// the right.
pub open spec fn overflow_tab_area(area: Rect) -> Rect {
    let tab_area_x = left_button(area).x + left_button(area).width;
    Rect::clamped(
        tab_area_x,
        area.y as int,
        sat_sub(overflow_tabs_right(area), tab_area_x),
        area.height as int,
    )
}

/// The view with mouse chrome when not every tab fits: scroll buttons on both sides, the
/// right one after the last shown tab, then the new-tab button.
pub open spec fn overflow_view(
    tabs: Seq<TabInfo>,
    active: int,
    area: Rect,
    current_scroll: int,
    follow_active: bool,
) -> TabBarViewSpec {
    let area_right = area.x + area.width;
    let tab_area = overflow_tab_area(area);
    let scroll = chosen_scroll(tabs, active, tab_area, current_scroll, follow_active);
    let hits = tab_layout(tabs, tab_area, scroll);
    let tx = imin(trailing_x(hits, tab_area.x as int), overflow_tabs_right(area));
    let right = row_rect(
        tx,
        area.y as int,
        imin(sat_sub(area_right, tx), TAB_SCROLL_BUTTON_WIDTH as int),
    );
    let new_tab_x = right.x + right.width;
    TabBarViewSpec {
        scroll,
        tab_hit_areas: hits,
        scroll_left_hit_area: left_button(area),
        scroll_right_hit_area: right,
        new_tab_hit_area: row_rect(
            new_tab_x,
            area.y as int,
            imin(sat_sub(area_right, new_tab_x), NEW_TAB_WIDTH as int),
        ),
    }
}

/// The tab bar's view (`compute_tab_bar_view`): nothing in an empty area; without mouse
/// chrome just the scrolled tabs; with it, all tabs and a new-tab button when they fit,
/// else scroll buttons around the scrolled tabs.
pub open spec fn tab_bar_view_of(
    tabs: Seq<TabInfo>,
    active: int,
    area0: Rect,
    vertical_padding: bool,
    current_scroll: int,
    follow_active: bool,
    mouse_chrome: bool,
) -> TabBarViewSpec {
    let area = padded_area(area0, vertical_padding);
    if area.width == 0 || area.height == 0 {
        TabBarViewSpec {
            scroll: 0,
            tab_hit_areas: Seq::empty(),
            scroll_left_hit_area: Rect::zero(),
            scroll_right_hit_area: Rect::zero(),
            new_tab_hit_area: Rect::zero(),
        }
    } else if !mouse_chrome {
        plain_view(tabs, active, area, current_scroll, follow_active)
    } else {
        let all_tabs = tab_layout(tabs, all_tabs_area(area), 0);
        if forall|i: int| 0 <= i < all_tabs.len() ==> #[trigger] all_tabs[i].width != 0 {
            fitting_view(tabs, area)
        } else {
            overflow_view(tabs, active, area, current_scroll, follow_active)
        }
    }
}

/// Law: with mouse chrome and no scroll buttons (every tab fits), every tab is shown and
/// the new-tab button starts where the last tab ends, at the bar's left edge when there
/// are no tabs, in the bar's row: it covers no tab.
pub proof fn lemma_new_tab_follows_tabs(
    tabs: Seq<TabInfo>,
    active: int,
    area0: Rect,
    vertical_padding: bool,
    current_scroll: int,
    follow_active: bool,
)
    requires
        tab_bar_fits(tabs, area0, vertical_padding),
    ensures
        ({
            let area = padded_area(area0, vertical_padding);
            let v = tab_bar_view_of(
                tabs,
                active,
                area0,
                vertical_padding,
                current_scroll,
                follow_active,
                true,
            );
            let hits = v.tab_hit_areas;
            area.width > 0 && area.height > 0 && v.scroll_left_hit_area.width == 0 ==> {
                &&& hits.len() == tabs.len()
                &&& forall|i: int| 0 <= i < hits.len() ==> #[trigger] hits[i].width > 0
                &&& v.new_tab_hit_area.x == if hits.len() == 0 {
                    area.x as int
                } else {
                    hits.last().x + hits.last().width
                }
                &&& forall|i: int|
                    0 <= i < hits.len() ==> #[trigger] hits[i].x + hits[i].width
                        <= v.new_tab_hit_area.x
                &&& v.new_tab_hit_area.y == area.y
            }
        }),
{
    let area = padded_area(area0, vertical_padding);
    if area.width > 0 && area.height > 0 {
        let ta = all_tabs_area(area);
        let all_tabs = tab_layout(tabs, ta, 0);
        lemma_tab_layout_placed(tabs, ta, 0);
        if forall|i: int| 0 <= i < all_tabs.len() ==> #[trigger] all_tabs[i].width != 0 {
            let n = all_tabs.len();
            if n > 0 {
                assert(all_tabs.last().width > 0);
                assert forall|i: int| 0 <= i < n implies #[trigger] all_tabs[i].x
                    + all_tabs[i].width <= all_tabs.last().x + all_tabs.last().width by {
                    if i < n - 1 {
                        assert(all_tabs[i].width != 0);
                        assert(all_tabs[n - 1].width != 0);
                    }
                }
                assert(trailing_x(all_tabs, area.x as int) == all_tabs.last().x
                    + all_tabs.last().width);
            }
        }
    }
}

/// A view matches its spec counterpart.
pub open spec fn view_matches(v: TabBarView, s: TabBarViewSpec) -> bool {
    &&& v.scroll as int == s.scroll
    &&& v.tab_hit_areas@ == s.tab_hit_areas
    &&& v.scroll_left_hit_area == s.scroll_left_hit_area
    &&& v.scroll_right_hit_area == s.scroll_right_hit_area
    &&& v.new_tab_hit_area == s.new_tab_hit_area
}

/// The bar's area keeps its cell arithmetic within `u16`: its right edge fits, and no tab
/// would take a full 65535-cell row.
pub open spec fn tab_bar_fits(tabs: Seq<TabInfo>, area0: Rect, vertical_padding: bool) -> bool {
    let area = padded_area(area0, vertical_padding);
    area.width == 0 || area.height == 0 || (area.x + area.width <= 65535 && (area.width == 65535
        ==> forall|s: int| 0 <= s < tabs.len() ==> #[trigger] tab_width_of(tabs, s) != 65535))
}

/// An area narrower than 65535 cells whose right edge fits lays out within `u16`.
proof fn lemma_narrow_fits(tabs: Seq<TabInfo>, area: Rect)
    requires
        area.x + area.width <= 65535,
        area.width < 65535,
    ensures
        forall|s: int| #[trigger] layout_fits(tabs, area, s),
{
}

fn choose_scroll(ws: &WorkspaceTabs, area: Rect, current_scroll: usize, follow_active: bool) -> (r: usize)
    requires
        forall|s: int| #[trigger] layout_fits(ws.tabs@, area, s),
    ensures
        r as int == chosen_scroll(ws.tabs@, ws.active_tab as int, area, current_scroll as int, follow_active),
{
    let max_scroll = max_tab_scroll(ws, area);
    if follow_active {
        let c = centered_tab_scroll(ws, area);
        if c <= max_scroll {
            c
        } else {
            max_scroll
        }
    } else if current_scroll <= max_scroll {
        current_scroll
    } else {
        max_scroll
    }
}

fn min16(a: u16, b: u16) -> (r: u16)
    ensures
        r as int == imin(a as int, b as int),
{
    if a <= b {
        a
    } else {
        b
    }
}

fn fitting_view_exec(ws: &WorkspaceTabs, area: Rect, all_tabs: Vec<Rect>) -> (v: TabBarView)
    requires
        area.width > 0 && area.height > 0,
        area.x + area.width <= 65535,
        all_tabs@ == tab_layout(ws.tabs@, all_tabs_area(area), 0),
    ensures
        view_matches(v, fitting_view(ws.tabs@, area)),
{
    proof {
        lemma_tab_layout_placed(ws.tabs@, all_tabs_area(area), 0);
    }
    let area_right = area.x + area.width;
    let new_tab_x = trailing_tab_controls_x(&all_tabs, area.x);
    let w = min16(area_right.saturating_sub(new_tab_x), NEW_TAB_WIDTH);
    let new_tab_hit_area = Rect::new(new_tab_x, area.y, w, 1);
    TabBarView {
        scroll: 0,
        tab_hit_areas: all_tabs,
        scroll_left_hit_area: Rect::default(),
        scroll_right_hit_area: Rect::default(),
        new_tab_hit_area,
    }
}

fn overflow_view_exec(ws: &WorkspaceTabs, area: Rect, current_scroll: usize, follow_active: bool) -> (v: TabBarView)
    requires
        area.width > 0 && area.height > 0,
        area.x + area.width <= 65535,
    ensures
        view_matches(v, overflow_view(ws.tabs@, ws.active_tab as int, area, current_scroll as int, follow_active)),
{
    let area_right = area.x + area.width;
    let left_hit_area = Rect::new(area.x, area.y, min16(TAB_SCROLL_BUTTON_WIDTH, area.width), 1);
    let tab_area_x = left_hit_area.x + left_hit_area.width;
    let reserved_trailing_width = NEW_TAB_WIDTH.saturating_add(TAB_SCROLL_BUTTON_WIDTH);
    let tab_area_right = area_right.saturating_sub(reserved_trailing_width);
    let tab_area = Rect::new(
        tab_area_x,
        area.y,
        tab_area_right.saturating_sub(tab_area_x),
        area.height,
    );
    assert(tab_area == overflow_tab_area(area));
    proof {
        lemma_narrow_fits(ws.tabs@, tab_area);
    }
    let scroll = choose_scroll(ws, tab_area, current_scroll, follow_active);
    proof {
        lemma_tab_layout_placed(ws.tabs@, tab_area, scroll as int);
    }
    let tab_hit_areas = layout_tab_hit_areas(ws, tab_area, scroll);
    let trailing_x = min16(trailing_tab_controls_x(&tab_hit_areas, tab_area_x), tab_area_right);
    let right_hit_area = Rect::new(
        trailing_x,
        area.y,
        min16(area_right.saturating_sub(trailing_x), TAB_SCROLL_BUTTON_WIDTH),
        1,
    );
    let new_tab_x = right_hit_area.x + right_hit_area.width;
    let new_tab_hit_area = Rect::new(
        new_tab_x,
        area.y,
        min16(area_right.saturating_sub(new_tab_x), NEW_TAB_WIDTH),
        1,
    );
    TabBarView {
        scroll,
        tab_hit_areas,
        scroll_left_hit_area: left_hit_area,
        scroll_right_hit_area: right_hit_area,
        new_tab_hit_area,
    }
}

/// The bar's view after a resize or scroll (`compute_tab_bar_view`).
pub fn compute_tab_bar_view(
    ws: &WorkspaceTabs,
    area: Rect,
    vertical_padding: bool,
    current_scroll: usize,
    follow_active: bool,
    mouse_chrome: bool,
) -> (v: TabBarView)
    requires
        tab_bar_fits(ws.tabs@, area, vertical_padding),
    ensures
        view_matches(
            v,
            tab_bar_view_of(
                ws.tabs@,
                ws.active_tab as int,
                area,
                vertical_padding,
                current_scroll as int,
                follow_active,
                mouse_chrome,
            ),
        ),
{
    let ghost area0 = area;
    let mut area = area;
    if vertical_padding && area.height > 1 {
        area.y = area.y.saturating_add(1);
        area.height = area.height - 1;
    }
    assert(area == padded_area(area0, vertical_padding));
    if area.width == 0 || area.height == 0 {
        return TabBarView {
            scroll: 0,
            tab_hit_areas: Vec::new(),
            scroll_left_hit_area: Rect::default(),
            scroll_right_hit_area: Rect::default(),
            new_tab_hit_area: Rect::default(),
        };
    }
    if !mouse_chrome {
        assert(forall|s: int| #[trigger] layout_fits(ws.tabs@, area, s));
        let scroll = choose_scroll(ws, area, current_scroll, follow_active);
        return TabBarView {
            scroll,
            tab_hit_areas: layout_tab_hit_areas(ws, area, scroll),
            scroll_left_hit_area: Rect::default(),
            scroll_right_hit_area: Rect::default(),
            new_tab_hit_area: Rect::default(),
        };
    }
    let all_tabs_area = Rect::new(
        area.x,
        area.y,
        area.width.saturating_sub(NEW_TAB_WIDTH),
        area.height,
    );
    proof {
        lemma_narrow_fits(ws.tabs@, all_tabs_area);
    }
    let all_tabs = layout_tab_hit_areas(ws, all_tabs_area, 0);
    let mut overflow = false;
    let mut i: usize = 0;
    while i < all_tabs.len()
        invariant
            i <= all_tabs.len(),
            !overflow <==> forall|k: int| 0 <= k < i ==> #[trigger] all_tabs@[k].width != 0,
        decreases all_tabs.len() - i,
    {
        if all_tabs[i].width == 0 {
            overflow = true;
        }
        i = i + 1;
    }
    if !overflow {
        return fitting_view_exec(ws, area, all_tabs);
    }
    overflow_view_exec(ws, area, current_scroll, follow_active)
}

// ---------------------------------------------------------------- drag and drop

/// Index of the first shown hit area, or the length when none is shown.
pub open spec fn first_visible(rects: Seq<Rect>) -> int
    decreases rects.len(),
{
    if rects.len() == 0 {
        0
    } else {
        let f = first_visible(rects.drop_last());
        if f < rects.len() - 1 {
            f
        } else if rects.last().width > 0 {
            rects.len() - 1
        } else {
            rects.len() as int
        }
    }
}

/// Index of the last shown hit area (meaningful when one is shown).
pub open spec fn last_visible(rects: Seq<Rect>) -> int
    decreases rects.len(),
{
    if rects.len() == 0 {
        -1
    } else if rects.last().width > 0 {
        rects.len() - 1
    } else {
        last_visible(rects.drop_last())
    }
}

pub proof fn lemma_visible(rects: Seq<Rect>)
    ensures
        0 <= first_visible(rects) <= rects.len(),
        first_visible(rects) < rects.len() ==> rects[first_visible(rects)].width > 0,
        forall|k: int| 0 <= k < first_visible(rects) ==> #[trigger] rects[k].width == 0,
        -1 <= last_visible(rects) < rects.len(),
        last_visible(rects) >= 0 ==> rects[last_visible(rects)].width > 0,
        forall|k: int| last_visible(rects) < k < rects.len() ==> #[trigger] rects[k].width == 0,
        (first_visible(rects) < rects.len()) == (last_visible(rects) >= 0),
    decreases rects.len(),
{
    if rects.len() > 0 {
        lemma_visible(rects.drop_last());
        assert forall|k: int| 0 <= k < first_visible(rects) implies #[trigger] rects[k].width == 0 by {
            if k < rects.len() - 1 {
                assert(rects[k] == rects.drop_last()[k]);
            }
        }
        assert forall|k: int| last_visible(rects) < k < rects.len() implies #[trigger] rects[k].width
            == 0 by {
            if k < rects.len() - 1 {
                assert(rects[k] == rects.drop_last()[k]);
            }
        }
        if rects.last().width == 0 && last_visible(rects.drop_last()) >= 0 {
            assert(rects[last_visible(rects)] == rects.drop_last()[last_visible(rects)]);
        }
        if first_visible(rects.drop_last()) < rects.len() - 1 {
            assert(rects[first_visible(rects)] == rects.drop_last()[first_visible(rects)]);
        }
    }
}

/// Where the drop marker goes when a dragged tab would be inserted at `insert_idx`: before
/// the first shown tab (or after the left scroll button), one cell before a shown tab at
/// that index, or after the last tab (or before the right scroll button) when inserting at
/// the end; `None` when no tab is shown or the index is hidden.
pub open spec fn drop_indicator_x(
    rects: Seq<Rect>,
    left: Rect,
    right: Rect,
    n_tabs: int,
    insert_idx: int,
) -> Option<int> {
    let f = first_visible(rects);
    let l = last_visible(rects);
    if f >= rects.len() {
        None
    } else if insert_idx == 0 {
        Some(
            if f == 0 {
                rects[0].x as int
            } else {
                left.x + left.width
            },
        )
    } else if insert_idx < rects.len() && rects[insert_idx].width > 0 {
        Some(sat_sub(rects[insert_idx].x as int, 1))
    } else if insert_idx >= n_tabs {
        Some(
            if l + 1 >= n_tabs {
                rects[l].x + rects[l].width
            } else {
                sat_sub(right.x as int, 1)
            },
        )
    } else {
        None
    }
}

/// Law: with no tab shown (every hit area empty) there is no drop marker.
pub proof fn lemma_drop_marker_without_tabs(
    rects: Seq<Rect>,
    left: Rect,
    right: Rect,
    n_tabs: int,
    insert_idx: int,
)
    requires
        forall|k: int| 0 <= k < rects.len() ==> #[trigger] rects[k].width == 0,
    ensures
        drop_indicator_x(rects, left, right, n_tabs, insert_idx) is None,
{
    lemma_visible(rects);
    if first_visible(rects) < rects.len() {
        assert(rects[first_visible(rects)].width == 0);
    }
}

/// Law: where the drop marker goes, with `f` the first and `l` the last shown tab (those
/// with a width). Inserting first: at the first tab's left edge when it is shown, else just
/// after the left scroll button. Inserting before a shown tab: one cell before it. Inserting
/// at the end: at the last tab's right edge when it is shown, else one cell before the
/// right scroll button. Inserting before a hidden tab: no marker.
pub proof fn lemma_drop_marker_placed(
    rects: Seq<Rect>,
    left: Rect,
    right: Rect,
    n_tabs: int,
    insert_idx: int,
    f: int,
    l: int,
)
    requires
        0 <= insert_idx,
        0 <= f <= l < rects.len(),
        rects[f].width > 0,
        rects[l].width > 0,
        forall|k: int| 0 <= k < f ==> #[trigger] rects[k].width == 0,
        forall|k: int| l < k < rects.len() ==> #[trigger] rects[k].width == 0,
    ensures
        insert_idx == 0 ==> drop_indicator_x(rects, left, right, n_tabs, insert_idx) == Some(
            if f == 0 {
                rects[0].x as int
            } else {
                left.x + left.width
            },
        ),
        insert_idx != 0 && 0 <= insert_idx < rects.len() && rects[insert_idx].width > 0
            ==> drop_indicator_x(rects, left, right, n_tabs, insert_idx) == Some(
            if rects[insert_idx].x >= 1 {
                rects[insert_idx].x - 1
            } else {
                0
            },
        ),
        insert_idx != 0 && !(0 <= insert_idx < rects.len() && rects[insert_idx].width > 0)
            && insert_idx >= n_tabs ==> drop_indicator_x(rects, left, right, n_tabs, insert_idx)
            == Some(
            if l + 1 >= n_tabs {
                rects[l].x + rects[l].width
            } else if right.x >= 1 {
                right.x - 1
            } else {
                0
            },
        ),
        insert_idx != 0 && !(0 <= insert_idx < rects.len() && rects[insert_idx].width > 0)
            && insert_idx < n_tabs ==> drop_indicator_x(rects, left, right, n_tabs, insert_idx)
            is None,
{
    lemma_visible(rects);
    let fv = first_visible(rects);
    let lv = last_visible(rects);
    if fv < f {
        assert(rects[fv].width == 0);
    }
    if fv > f {
        assert(rects[f].width == 0);
    }
    if lv > l {
        assert(rects[lv].width == 0);
    }
    if lv < l {
        assert(rects[l].width == 0);
    }
    assert(fv == f && lv == l);
}

/// The sum the drop marker needs fits in `u16`: the left button's right edge when inserting
/// first with the first tab hidden, the last shown tab's right edge when inserting at the
/// end with the last tab shown.
pub open spec fn drop_indicator_fits(rects: Seq<Rect>, left: Rect, n_tabs: int, insert_idx: int) -> bool {
    let f = first_visible(rects);
    let l = last_visible(rects);
    &&& (insert_idx == 0 && 0 < f < rects.len() ==> left.x + left.width <= 65535)
    &&& (insert_idx != 0 && !(insert_idx < rects.len() && rects[insert_idx].width > 0) && insert_idx
        >= n_tabs && 0 <= l && l + 1 >= n_tabs ==> rects[l].x + rects[l].width <= 65535)
}

/// Column of the drop marker while a tab is dragged to `insert_idx`.
pub fn tab_drop_indicator_x(
    tab_hit_areas: &Vec<Rect>,
    scroll_left_hit_area: Rect,
    scroll_right_hit_area: Rect,
    n_tabs: usize,
    insert_idx: usize,
) -> (r: Option<u16>)
    requires
        drop_indicator_fits(tab_hit_areas@, scroll_left_hit_area, n_tabs as int, insert_idx as int),
    ensures
        match drop_indicator_x(
            tab_hit_areas@,
            scroll_left_hit_area,
            scroll_right_hit_area,
            n_tabs as int,
            insert_idx as int,
        ) {
            Some(x) => r == Some(x as u16),
            None => r is None,
        },
{
    let ghost rs = tab_hit_areas@;
    proof {
        lemma_visible(rs);
    }
    let n = tab_hit_areas.len();
    let mut f: usize = 0;
    while f < n && tab_hit_areas[f].width == 0
        invariant
            f <= n,
            n == rs.len(),
            rs == tab_hit_areas@,
            forall|k: int| 0 <= k < f ==> #[trigger] rs[k].width == 0,
        decreases n - f,
    {
        f = f + 1;
    }
    assert(f == first_visible(rs)) by {
        if f < first_visible(rs) {
        } else if f > first_visible(rs) {
            assert(rs[first_visible(rs)].width == 0);
        }
    }
    if f >= n {
        return None;
    }
    let mut l: usize = n - 1;
    while tab_hit_areas[l].width == 0
        invariant
            f <= l < n,
            n == rs.len(),
            rs == tab_hit_areas@,
            rs[f as int].width > 0,
            forall|k: int| l < k < n ==> #[trigger] rs[k].width == 0,
        decreases l,
    {
        l = l - 1;
    }
    assert(l == last_visible(rs)) by {
        if l < last_visible(rs) {
            assert(rs[last_visible(rs)].width == 0);
        } else if l > last_visible(rs) {
        }
    }
    if insert_idx == 0 {
        return Some(
            if f == 0 {
                tab_hit_areas[0].x
            } else {
                scroll_left_hit_area.x + scroll_left_hit_area.width
            },
        );
    }
    if insert_idx < n && tab_hit_areas[insert_idx].width > 0 {
        return Some(tab_hit_areas[insert_idx].x.saturating_sub(1));
    }
    if insert_idx >= n_tabs {
        return Some(
            if l + 1 >= n_tabs {
                tab_hit_areas[l].x + tab_hit_areas[l].width
            } else {
                scroll_right_hit_area.x.saturating_sub(1)
            },
        );
    }
    None
}

} // verus!
