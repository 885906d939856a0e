use herdr::tab_bar::{plan_tab_bar, tab_labels_exec, TabBarState};
use herdr::tabs::{
    centered_tab_scroll, compute_tab_bar_view, layout_tab_hit_areas, max_tab_scroll,
    tab_drop_indicator_x, tab_title_with_zoom, tab_width, trailing_tab_controls_x, PaneInfo,
    Rect, RuntimeInfo, TabInfo, WorkspaceTabs,
};

fn named_tab(name: &str, zoomed: bool) -> TabInfo {
    TabInfo {
        custom_name: Some(name.to_string()),
        auto_named: false,
        zoomed,
        focused_pane: None,
    }
}

fn shell_tab(zoomed: bool) -> TabInfo {
    TabInfo {
        custom_name: None,
        auto_named: false,
        zoomed,
        focused_pane: Some(PaneInfo {
            runtime: Some(RuntimeInfo {
                foreground: Some(vec!["zsh".to_string()]),
                osc_title: String::new(),
            }),
            terminal: None,
        }),
    }
}

#[test]
fn zoom_marker_counts_toward_tab_width() {
    let ws = WorkspaceTabs {
        tabs: vec![named_tab("abcdefgh", true)],
        active_tab: 0,
    };
    assert_eq!(tab_width(&ws, 0), 15);
}

#[test]
fn zoomed_tabs_are_marked_in_their_labels() {
    let ws = WorkspaceTabs {
        tabs: vec![shell_tab(true), named_tab("test", true)],
        active_tab: 0,
    };
    assert_eq!(tab_title_with_zoom(&ws, 0), "zsh Z");
    assert_eq!(tab_title_with_zoom(&ws, 1), "test Z");
    let area = Rect::new(0, 0, 30, 1);
    let view = compute_tab_bar_view(&ws, area, false, 0, true, false);
    let st = TabBarState {
        vertical_padding: false,
        left_padding: false,
        mouse_capture: false,
        tab_scroll: view.scroll,
        dim_auto_named_tabs: false,
        diff_viewer_open: false,
        in_git_repo: false,
        drop_insert_idx: None,
        tab_hit_areas: view.tab_hit_areas,
        scroll_left_hit_area: view.scroll_left_hit_area,
        scroll_right_hit_area: view.scroll_right_hit_area,
        new_tab_hit_area: view.new_tab_hit_area,
    };
    let plan = plan_tab_bar(&st, &ws, area).expect("the bar has an area");
    let row: Vec<String> = plan
        .cells
        .iter()
        .map(|c| format!("{}{}", c.num_label, c.name_label))
        .collect();
    assert!(row[0].contains(" 1  zsh Z"), "tab row: {row:?}");
    assert!(row[1].contains(" 2  test Z"), "tab row: {row:?}");
}

#[test]
fn unzoomed_tab_has_no_marker() {
    let ws = WorkspaceTabs {
        tabs: vec![named_tab("abcdefgh", false)],
        active_tab: 0,
    };
    assert_eq!(tab_title_with_zoom(&ws, 0), "abcdefgh");
    assert_eq!(tab_width(&ws, 0), 13);
}

#[test]
fn tabs_are_laid_out_left_to_right_with_gaps() {
    let ws = WorkspaceTabs {
        tabs: vec![shell_tab(true), named_tab("test", true)],
        active_tab: 0,
    };
    let rects = layout_tab_hit_areas(&ws, Rect::new(0, 0, 30, 1), 0);
    assert_eq!(rects, vec![Rect::new(0, 0, 10, 1), Rect::new(11, 0, 11, 1)]);
}

#[test]
fn tab_labels_cut_the_name_with_an_ellipsis() {
    let (num, name) = tab_labels_exec(3, "abcdefghij", 12);
    assert_eq!(num, " 3 ");
    assert_eq!(name, " abcdef\u{2026} ");
    let (num, name) = tab_labels_exec(12, "x", 2);
    assert_eq!(num, " 1");
    assert_eq!(name, "");
}

#[test]
fn rect_new_keeps_edges_within_u16() {
    let r = Rect::new(65530, 65535, 10, 1);
    assert_eq!(r.width, 5);
    assert_eq!(r.height, 0);
}

#[test]
fn scrolling_centres_the_active_tab() {
    let ws = WorkspaceTabs {
        tabs: (0..6).map(|_| named_tab("aaaa", false)).collect(),
        active_tab: 4,
    };
    let area = Rect::new(0, 0, 30, 1);
    assert_eq!(tab_width(&ws, 4), 9);
    assert_eq!(centered_tab_scroll(&ws, area), 3);
    assert_eq!(max_tab_scroll(&ws, area), 3);
    let view = compute_tab_bar_view(&ws, area, false, 0, true, false);
    assert_eq!(view.scroll, 3);
    assert_eq!(view.tab_hit_areas[4], Rect::new(10, 0, 9, 1));
    assert_eq!(view.tab_hit_areas[0].width, 0);
    let stay = compute_tab_bar_view(&ws, area, false, 1, false, false);
    assert_eq!(stay.scroll, 1);
}

#[test]
fn drop_marker_sits_between_tabs() {
    let hits = vec![Rect::new(0, 0, 10, 1), Rect::new(11, 0, 11, 1)];
    let none = Rect::new(0, 0, 0, 0);
    assert_eq!(tab_drop_indicator_x(&hits, none, none, 2, 0), Some(0));
    assert_eq!(tab_drop_indicator_x(&hits, none, none, 2, 1), Some(10));
    assert_eq!(tab_drop_indicator_x(&hits, none, none, 2, 2), Some(22));
    assert_eq!(tab_drop_indicator_x(&Vec::new(), none, none, 0, 0), None);
    let far = vec![Rect::new(0, 0, 10, 1), Rect { x: 65530, y: 0, width: 10, height: 1 }];
    let wide_left = Rect { x: 65530, y: 0, width: 10, height: 1 };
    assert_eq!(tab_drop_indicator_x(&far, wide_left, none, 2, 0), Some(0));
    assert_eq!(tab_drop_indicator_x(&far, wide_left, none, 2, 1), Some(65529));
    assert_eq!(trailing_tab_controls_x(&hits, 5), 22);
    assert_eq!(trailing_tab_controls_x(&vec![none], 5), 5);
}
