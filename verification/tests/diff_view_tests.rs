use herdr::diff_view::{
    classify_diff_line, diff_line_style, diff_panel_widths, diff_viewer_fits, file_tab_label,
    file_tabs_fit_check, footer_file_label, layout_file_tabs, old_line_change, old_line_marker,
    old_line_style, panel_areas, panel_label, panel_scroll_metrics, panel_text_area, DiffLineKind,
    DiffPanel, LineStyle, OldLineChange,
};
use herdr::palette::{Color, Palette};
use herdr::tabs::Rect;

fn paths(ps: &[&str]) -> Vec<String> {
    ps.iter().map(|p| p.to_string()).collect()
}

fn label(path: &str) -> String {
    file_tab_label(path).into_iter().collect()
}

#[test]
fn tab_labels_are_file_names() {
    assert_eq!(label("src/ui/main.rs"), "main.rs");
    assert_eq!(label("README.md"), "README.md");
    assert_eq!(label(""), "changes");
    assert_eq!(label("dir/"), "");
}

#[test]
fn tabs_that_fit_share_one_row() {
    let body = Rect::new(0, 0, 40, 10);
    let ps = paths(&["src/main.rs", "README.md", ""]);
    assert!(file_tabs_fit_check(body, &ps, 1));
    let l = layout_file_tabs(body, &ps, 1);
    assert_eq!(l.tab_area, Rect::new(0, 0, 40, 1));
    assert_eq!(l.panel_area, Rect::new(0, 1, 40, 9));
    let texts: Vec<&str> = l.slots.iter().map(|s| s.text.as_str()).collect();
    assert_eq!(texts, vec![" main.rs ", " README.md ", " changes "]);
    assert_eq!(l.slots[1].area, Rect::new(9, 0, 11, 1));
    assert!(l.slots[1].active && !l.slots[0].active);
    assert!(l.more.is_none());
}

#[test]
fn tabs_wrap_and_the_rest_are_counted() {
    let body = Rect::new(0, 0, 20, 5);
    let ps = paths(&["abcdefgh.rs"; 5]);
    assert!(file_tabs_fit_check(body, &ps, 0));
    let l = layout_file_tabs(body, &ps, 0);
    assert_eq!(l.tab_area, Rect::new(0, 0, 20, 3));
    assert_eq!(l.panel_area, Rect::new(0, 3, 20, 2));
    let areas: Vec<Rect> = l.slots.iter().map(|s| s.area).collect();
    assert_eq!(
        areas,
        vec![Rect::new(0, 0, 13, 1), Rect::new(0, 1, 13, 1), Rect::new(0, 2, 13, 1)]
    );
    let (area, text) = l.more.expect("a marker for the hidden tabs");
    assert_eq!(text, " +2");
    assert_eq!(area, Rect::new(15, 2, 3, 1));
}

#[test]
fn a_tab_wider_than_the_body_is_cut() {
    let body = Rect::new(0, 0, 10, 4);
    let ps = paths(&["a_very_long_name.txt"]);
    let l = layout_file_tabs(body, &ps, 0);
    assert_eq!(l.slots.len(), 1);
    assert_eq!(l.slots[0].text, " a_very_\u{2026}");
    assert_eq!(l.slots[0].area, Rect::new(0, 1, 9, 1));
    assert_eq!(l.tab_area, Rect::new(0, 0, 10, 2));
}

#[test]
fn a_cut_inside_a_character_does_not_fit() {
    let ps = paths(&["\u{e9}\u{e9}\u{e9}\u{e9}\u{e9}\u{e9}\u{e9}\u{e9}\u{e9}\u{e9}\u{e9}\u{e9}"]);
    assert!(!file_tabs_fit_check(Rect::new(0, 0, 10, 4), &ps, 0));
    assert!(file_tabs_fit_check(Rect::new(0, 0, 11, 4), &ps, 0));
    let l = layout_file_tabs(Rect::new(0, 0, 11, 4), &ps, 0);
    assert_eq!(l.slots[0].text, " \u{e9}\u{e9}\u{e9}\u{e9}\u{2026}");
}

#[test]
fn no_tabs_without_room_or_files() {
    let body = Rect::new(2, 3, 40, 1);
    let l = layout_file_tabs(body, &paths(&["a"]), 0);
    assert_eq!(l.tab_area, Rect::new(0, 0, 0, 0));
    assert_eq!(l.panel_area, body);
    assert!(l.slots.is_empty());
    let e = layout_file_tabs(Rect::new(0, 0, 40, 10), &Vec::new(), 0);
    assert!(e.slots.is_empty() && e.more.is_none());
}

#[test]
fn panels_split_around_a_divider() {
    assert_eq!(diff_panel_widths(41), (20, 20));
    assert_eq!(diff_panel_widths(40), (19, 20));
    assert_eq!(diff_panel_widths(0), (0, 0));
}

#[test]
fn panel_areas_leave_a_title_row() {
    assert!(panel_areas(Rect::new(0, 0, 3, 10)).is_none());
    assert!(panel_areas(Rect::new(0, 0, 10, 1)).is_none());
    let p = panel_areas(Rect::new(1, 2, 100, 5)).unwrap();
    assert_eq!(p.title, Rect::new(1, 2, 80, 1));
    assert_eq!(p.content, Some(Rect::new(1, 3, 100, 4)));
}

#[test]
fn scrolling_reserves_a_scrollbar_column() {
    let m = panel_scroll_metrics(10, 3, 5);
    assert_eq!((m.offset_from_bottom, m.max_offset_from_bottom, m.viewport_rows), (6, 9, 5));
    let m0 = panel_scroll_metrics(0, 4, 0);
    assert_eq!((m0.offset_from_bottom, m0.max_offset_from_bottom, m0.viewport_rows), (0, 0, 1));
    let content = Rect::new(0, 1, 20, 4);
    let (text, track) = panel_text_area(content, &m);
    assert_eq!(text, Rect::new(0, 1, 19, 4));
    assert_eq!(track, Some(Rect::new(19, 1, 1, 4)));
    let (text0, track0) = panel_text_area(content, &m0);
    assert_eq!(text0, content);
    assert!(track0.is_none());
}

#[test]
fn old_lines_are_marked_by_change() {
    let map = vec![OldLineChange::Removed, OldLineChange::Context];
    assert_eq!(old_line_change(&map, 0), OldLineChange::Removed);
    assert_eq!(old_line_change(&map, 5), OldLineChange::Unchanged);
    assert_eq!(old_line_marker(OldLineChange::Removed), "\u{258c} ");
    assert_eq!(old_line_marker(OldLineChange::Context), "\u{b7} ");
    assert_eq!(old_line_marker(OldLineChange::Unchanged), "  ");
}

#[test]
fn diff_lines_are_classified_by_their_start() {
    let a = classify_diff_line("+added");
    assert_eq!((a.kind, a.marker, a.text.as_str()), (DiffLineKind::Added, "\u{258c}", "added"));
    let r = classify_diff_line("-gone");
    assert_eq!((r.kind, r.text.as_str()), (DiffLineKind::Removed, "gone"));
    assert_eq!(classify_diff_line("+++ b/x").kind, DiffLineKind::Header);
    assert_eq!(classify_diff_line("--- a/x").kind, DiffLineKind::Header);
    assert_eq!(classify_diff_line("diff --git a/x b/x").kind, DiffLineKind::Header);
    assert_eq!(classify_diff_line("index 1..2").kind, DiffLineKind::Header);
    let h = classify_diff_line("@@ -1 +1 @@");
    assert_eq!((h.kind, h.marker, h.text.as_str()), (DiffLineKind::Hunk, "\u{b7}", "@@ -1 +1 @@"));
    let c = classify_diff_line(" same");
    assert_eq!((c.kind, c.marker, c.text.as_str()), (DiffLineKind::Context, " ", " same"));
}

#[test]
fn footer_names_the_active_file() {
    assert_eq!(footer_file_label(&paths(&["src/a.rs", "b.rs"]), 0), "  a.rs  (1/2)");
    assert_eq!(footer_file_label(&paths(&["src/a.rs", "b.rs"]), 1), "  b.rs  (2/2)");
    assert_eq!(footer_file_label(&Vec::new(), 0), "");
    assert_eq!(panel_label(DiffPanel::Left), "  [old file]");
    assert_eq!(panel_label(DiffPanel::Right), "  [diff]");
}

fn pal() -> Palette {
    let c = |n: u8| Color::Rgb(n, n, n);
    Palette {
        text: c(1),
        subtext0: c(2),
        overlay0: c(3),
        overlay1: c(4),
        surface0: c(5),
        surface1: c(6),
        surface_dim: c(7),
        separator: c(8),
        panel_bg: c(9),
        active_space_bg: c(10),
        accent: c(11),
        mauve: c(12),
        green: c(13),
        yellow: c(14),
        red: c(15),
        blue: c(16),
        teal: c(17),
        peach: c(18),
    }
}

#[test]
fn diff_lines_are_styled_by_kind() {
    let p = pal();
    let added = diff_line_style(DiffLineKind::Added, &p);
    assert_eq!(added, LineStyle { marker_fg: Color::Green, fg: Color::Green, bg: Some(Color::Green), dim: true });
    let removed = diff_line_style(DiffLineKind::Removed, &p);
    assert_eq!(removed, LineStyle { marker_fg: Color::Red, fg: Color::Red, bg: Some(Color::Red), dim: true });
    let hunk = diff_line_style(DiffLineKind::Hunk, &p);
    assert_eq!(hunk, LineStyle { marker_fg: Color::DarkGray, fg: Color::Cyan, bg: None, dim: false });
    let header = diff_line_style(DiffLineKind::Header, &p);
    assert_eq!(header, LineStyle { marker_fg: Color::DarkGray, fg: p.overlay0, bg: None, dim: false });
    let context = diff_line_style(DiffLineKind::Context, &p);
    assert_eq!(context, LineStyle { marker_fg: Color::DarkGray, fg: p.text, bg: None, dim: false });
    let mut greenish = p;
    greenish.text = Color::Green;
    let shaded = diff_line_style(DiffLineKind::Context, &greenish);
    assert_eq!(shaded, LineStyle { marker_fg: Color::Green, fg: Color::Green, bg: Some(Color::Green), dim: true });
}

#[test]
fn old_lines_are_styled_by_change() {
    let p = pal();
    assert_eq!(
        old_line_style(OldLineChange::Removed, &p),
        LineStyle { marker_fg: Color::DarkGray, fg: Color::Red, bg: Some(p.surface0), dim: true }
    );
    assert_eq!(
        old_line_style(OldLineChange::Context, &p),
        LineStyle { marker_fg: Color::DarkGray, fg: Color::Yellow, bg: None, dim: false }
    );
    assert_eq!(
        old_line_style(OldLineChange::Unchanged, &p),
        LineStyle { marker_fg: Color::DarkGray, fg: p.text, bg: None, dim: false }
    );
}

#[test]
fn the_diff_viewer_needs_room() {
    assert!(diff_viewer_fits(Rect::new(0, 0, 30, 8)));
    assert!(!diff_viewer_fits(Rect::new(0, 0, 29, 8)));
    assert!(!diff_viewer_fits(Rect::new(0, 0, 86, 7)));
}
