use herdr::clock::{chrono_or_default, days_to_date, is_leap, utc_timestamp};
use herdr::mapping::{normalize_theme_key, resolve_tool_mapping};
use herdr::nvim_sync::neovim_sync_lua;
use herdr::palette::{color_to_hex, opencode_theme_props, pi_color_table, pi_export_from_palette, pi_vars_from_palette, Color, Palette};
use herdr::theme_sync::{
    applied_theme_name, apply_theme, apply_to_tool, detect_tools, global_state_path, global_theme_state,
    is_stale_opencode_theme, list_builtin_theme_names, read_config_text, reads_config,
    tool_candidates, validate_theme_name,
    write_config, ApplyStatus, DetectedTool, FileRead, FileWrite, ToolAction, ToolApplyResult,
    ToolStep,
};

fn palette() -> Palette {
    Palette {
        text: Color::Rgb(0xcd, 0xd6, 0xf4),
        subtext0: Color::Rgb(0xa6, 0xad, 0xc8),
        overlay0: Color::Rgb(0x6c, 0x70, 0x86),
        overlay1: Color::Rgb(0x7f, 0x84, 0x9c),
        surface0: Color::Rgb(0x31, 0x32, 0x44),
        surface1: Color::Rgb(0x45, 0x47, 0x5a),
        surface_dim: Color::Rgb(0x18, 0x18, 0x25),
        separator: Color::Rgb(0x58, 0x5b, 0x70),
        panel_bg: Color::Rgb(0x1e, 0x1e, 0x2e),
        active_space_bg: Color::Rgb(0x11, 0x11, 0x1b),
        accent: Color::Rgb(0xb4, 0xbe, 0xfe),
        mauve: Color::Rgb(0xcb, 0xa6, 0xf7),
        green: Color::Rgb(0xa6, 0xe3, 0xa1),
        yellow: Color::Rgb(0xf9, 0xe2, 0xaf),
        red: Color::Rgb(0xf3, 0x8b, 0xa8),
        blue: Color::Rgb(0x89, 0xb4, 0xfa),
        teal: Color::Rgb(0x94, 0xe2, 0xd5),
        peach: Color::Rgb(0xfa, 0xb3, 0x87),
    }
}

fn tool(name: &'static str, path: &str) -> DetectedTool {
    DetectedTool {
        name,
        config_path: path.to_string(),
    }
}

fn status_text(s: &ApplyStatus) -> String {
    match s {
        ApplyStatus::Updated => "updated".to_string(),
        ApplyStatus::Skipped(m) => format!("skipped: {m}"),
        ApplyStatus::Error(m) => format!("error: {m}"),
    }
}

fn act(name: &'static str, theme: &str, read: Result<String, String>) -> Option<ToolAction> {
    let mapping = resolve_tool_mapping(theme).expect("a mapped theme");
    apply_to_tool(&tool(name, "/cfg"), &palette(), &mapping, read)
}

fn written(a: Option<ToolAction>) -> String {
    match a {
        Some(ToolAction::Write(t)) => t,
        _ => panic!("expected a config to write"),
    }
}

fn settled(a: Option<ToolAction>) -> String {
    match a {
        Some(ToolAction::Settle(s)) => status_text(&s),
        _ => panic!("expected a settled outcome"),
    }
}

// ---------------------------------------------------------------- mapping and colours

#[test]
fn a_name_and_its_key_resolve_alike() {
    let a = resolve_tool_mapping("Tokyo Night").expect("mapped");
    let b = resolve_tool_mapping("tokyo_night").expect("mapped");
    let c = resolve_tool_mapping("tokyo-night").expect("mapped");
    assert_eq!(a.zed, "Tokyo Night");
    assert_eq!((a.zed, a.pi_agent, a.opencode), (b.zed, b.pi_agent, b.opencode));
    assert_eq!((a.zed, a.pi_agent, a.opencode), (c.zed, c.pi_agent, c.opencode));
    assert!(resolve_tool_mapping("No Such Theme").is_none());
}

#[test]
fn each_tool_is_given_its_own_theme_name() {
    let nord = resolve_tool_mapping("nord").expect("mapped");
    let latte = resolve_tool_mapping("latte").expect("mapped");
    assert_eq!(applied_theme_name("zed", &nord), Some("Nord"));
    assert_eq!(applied_theme_name("pi-agent", &latte), Some("catppuccin-latte"));
    assert_eq!(applied_theme_name("herdr", &nord), Some("nord"));
    assert_eq!(applied_theme_name("neovim", &nord), Some("herdr-sync"));
    assert_eq!(applied_theme_name("tmux", &latte), Some("latte"));
    assert_eq!(applied_theme_name("tmux", &nord), None);
    assert_eq!(applied_theme_name("ghostty", &nord), Some("#2e3440"));
    assert_eq!(applied_theme_name("opencode", &nord), Some("herdr"));
    assert_eq!(applied_theme_name("emacs", &nord), None);
}

#[test]
fn only_unused_configs_go_unread() {
    let nord = resolve_tool_mapping("nord").expect("mapped");
    let mocha = resolve_tool_mapping("catppuccin-mocha").expect("mapped");
    assert!(!reads_config("tmux", &nord));
    assert!(reads_config("tmux", &mocha));
    assert!(reads_config("zed", &nord));
    assert!(!reads_config("emacs", &nord));
}

#[test]
fn stale_opencode_themes_are_other_json_files() {
    assert!(is_stale_opencode_theme("nord.json"));
    assert!(!is_stale_opencode_theme("herdr.json"));
    assert!(!is_stale_opencode_theme("notes.txt"));
    assert!(!is_stale_opencode_theme("json"));
}

#[test]
fn theme_names_are_normalised_before_lookup() {
    assert_eq!(normalize_theme_key("Catppuccin Macchiato"), "catppuccin-macchiato");
    assert_eq!(normalize_theme_key("TOKYO_NIGHT"), "tokyo-night");
    let m = resolve_tool_mapping("Catppuccin Macchiato").unwrap();
    assert_eq!(m.pi_agent, "catppuccin-macchiato");
    assert_eq!(m.zed, "Catppuccin Mocha");
    assert_eq!(m.tmux_flavour, Some("macchiato"));
    assert_eq!(m.ghostty_bg, "#24273a");
    assert_eq!(m.opencode, "catppuccin-macchiato");
    let d = resolve_tool_mapping("DRACULA").unwrap();
    assert_eq!(d.ghostty_bg, "#282a36");
    assert_eq!(d.tmux_flavour, None);
    assert!(resolve_tool_mapping("no-such-theme").is_none());
}

#[test]
fn rose_pine_dawn_shares_the_pi_theme() {
    let m = resolve_tool_mapping("dawn").unwrap();
    assert_eq!(m.pi_agent, "rose-pine");
    assert_eq!(m.zed, "Ros\u{e9} Pine Dawn");
    assert_eq!(m.opencode, "rose-pine-dawn");
}

#[test]
fn colours_render_as_hex() {
    assert_eq!(color_to_hex(&Color::Rgb(30, 30, 46)), "#1e1e2e");
    assert_eq!(color_to_hex(&Color::Reset), "default");
    assert_eq!(color_to_hex(&Color::LightBlue), "#8080ff");
    assert_eq!(color_to_hex(&Color::Indexed(16)), "#101010");
}

#[test]
fn palette_tables_follow_the_palette() {
    let p = palette();
    let vars = pi_vars_from_palette(&p);
    assert_eq!(vars[0], ("text", "#cdd6f4".to_string()));
    assert!(vars.iter().any(|(k, v)| *k == "base" && v == "#1e1e2e"));
    let export = pi_export_from_palette(&p);
    assert_eq!(
        export,
        vec![
            ("pageBg", "#11111b".to_string()),
            ("cardBg", "#1e1e2e".to_string()),
            ("infoBg", "#313244".to_string())
        ]
    );
    let props = opencode_theme_props(&p);
    assert!(props.iter().any(|(k, v)| *k == "background" && v == "#1e1e2e"));
    assert!(props.iter().any(|(k, v)| *k == "thinkingOpacity" && v == "0.6"));
    assert_eq!(pi_color_table()[0], ("accent", "blue"));
}

// ---------------------------------------------------------------- clock

#[test]
fn days_count_from_the_epoch() {
    assert_eq!(days_to_date(0), (1970, 1, 1));
    assert_eq!(days_to_date(19723), (2024, 1, 1));
    assert_eq!(days_to_date(19782), (2024, 2, 29));
    assert_eq!(days_to_date(19783), (2024, 3, 1));
    assert!(is_leap(2000));
    assert!(!is_leap(1900));
    assert!(is_leap(2024));
}

#[test]
fn timestamps_are_iso_8601_utc() {
    assert_eq!(utc_timestamp(0), "1970-01-01T00:00:00Z");
    assert_eq!(utc_timestamp(1704067200 + 3661), "2024-01-01T01:01:01Z");
    let now = chrono_or_default();
    assert!(now == "unknown" || (now.len() == 20 && now.ends_with('Z')), "{now}");
}

// ---------------------------------------------------------------- detection

#[test]
fn candidates_sit_under_home() {
    let c = tool_candidates("/home/u");
    assert_eq!(c.len(), 8);
    assert_eq!(c[0], ("pi-agent", "/home/u/.pi/agent/settings.json".to_string()));
    assert_eq!(c[7], ("opencode", "/home/u/.config/opencode/tui.json".to_string()));
    assert_eq!(tool_candidates("/")[5].1, "/.config/tmux/tmux.conf");
    assert_eq!(global_state_path("/home/u"), "/home/u/.config/themes/settings.json");
}

#[test]
fn only_existing_configs_are_detected() {
    let none = detect_tools("/h/.config/herdr/config.toml", "/h", &vec![false; 8]);
    assert_eq!(none.len(), 1);
    assert_eq!(none[0].name, "herdr");
    assert_eq!(none[0].config_path, "/h/.config/herdr/config.toml");

    let present = vec![true, false, true, true, false, true, false, true];
    let tools = detect_tools("/h/c.toml", "/h", &present);
    let names: Vec<&str> = tools.iter().map(|t| t.name).collect();
    assert_eq!(names, vec!["herdr", "pi-agent", "neovim", "tmux", "opencode"]);
    assert_eq!(tools[2].config_path, "/h/.config/nvim/lua/dipxsy/plugins/color-scheme.lua");
}

// ---------------------------------------------------------------- reading and writing

#[test]
fn read_and_write_outcomes_carry_their_messages() {
    assert_eq!(read_config_text(FileRead::Absent), Err("config file does not exist".to_string()));
    assert_eq!(
        read_config_text(FileRead::Failed("denied".to_string())),
        Err("read failed: denied".to_string())
    );
    assert_eq!(read_config_text(FileRead::Read("x".to_string())), Ok("x".to_string()));
    assert_eq!(status_text(&write_config(FileWrite::Written)), "updated");
    assert_eq!(
        status_text(&write_config(FileWrite::DirFailed("no".to_string()))),
        "error: create dir failed: no"
    );
    assert_eq!(
        status_text(&write_config(FileWrite::WriteFailed("full".to_string()))),
        "error: write failed: full"
    );
}

// ---------------------------------------------------------------- per-tool edits

#[test]
fn ghostty_background_is_replaced_or_added() {
    let a = act("ghostty", "dracula", Ok("font-size = 12\n  background=#000000\n".to_string()));
    assert_eq!(written(a), "font-size = 12\n  background = #282a36");
    let b = act("ghostty", "dracula", Ok("font-size = 12".to_string()));
    assert_eq!(written(b), "font-size = 12\nbackground = #282a36");
}

#[test]
fn tmux_flavour_is_set_between_its_quotes() {
    let a = act("tmux", "latte", Ok("set -g @plugin 'x'\n  set -g @catppuccin_flavour 'mocha' # c\n".to_string()));
    assert_eq!(written(a), "set -g @plugin 'x'\n  set -g @catppuccin_flavour 'latte' # c");
    let b = act("tmux", "latte", Ok("set -g @plugin 'x'".to_string()));
    assert_eq!(settled(b), "skipped: no @catppuccin_flavour setting found in tmux.conf");
    let c = act("tmux", "nord", Err("read failed: x".to_string()));
    assert_eq!(
        settled(c),
        "skipped: theme is not catppuccin-based; tmux catppuccin plugin only supports catppuccin flavours"
    );
}

#[test]
fn neovim_points_at_the_generated_scheme() {
    let cfg = "return {\n  vim.cmd.colorscheme(\"tokyonight\")\n}\n-- herdr-sync: old\nlocal x = 1";
    match act("neovim", "nord", Ok(cfg.to_string())) {
        Some(ToolAction::Neovim { lua, config }) => {
            assert!(lua.starts_with("-- Generated by `herdr theme apply`"));
            assert_eq!(config.ok().unwrap(), "return {\n  require(\"herdr-sync\")\n}");
        }
        _ => panic!("expected the neovim action"),
    }
    match act("neovim", "nord", Ok("set number".to_string())) {
        Some(ToolAction::Neovim { config: Err(s), .. }) => {
            assert_eq!(status_text(&s), "skipped: no colorscheme line found")
        }
        _ => panic!("expected a skipped neovim config"),
    }
}

#[test]
fn neovim_scheme_uses_the_palette() {
    let lua = neovim_sync_lua(&palette());
    assert!(lua.contains("vim.g.colors_name = \"herdr-sync\"\n"));
    assert!(lua.contains("h(0, \"Normal\", { fg = \"#cdd6f4\", bg = \"#1e1e2e\" })\n"));
    assert!(lua.contains("h(0, \"Title\", { fg = \"#b4befe\", bold = true })\n"));
    assert!(lua.contains("h(0, \"SpellBad\", { undercurl = true, sp = \"#f38ba8\" })\n"));
    assert!(lua.ends_with("h(0, \"LspReferenceWrite\", { bg = \"#45475a\" })\n"));
}

#[test]
fn zed_theme_is_set_in_both_forms() {
    let a = act("zed", "nord", Ok("{\n  \"theme\": \"One Dark\",\n  \"x\": 1\n}".to_string()));
    assert_eq!(written(a), "{\n  \"theme\": \"Nord\",\n  \"x\": 1\n}");
    let obj = "{\n  \"theme\": {\n    \"mode\": \"dark\",\n    \"dark\": \"One Dark\"\n  }\n}";
    let b = act("zed", "nord", Ok(obj.to_string()));
    assert_eq!(
        written(b),
        "{\n  \"theme\": {\n    \"mode\": \"dark\",\n    \"dark\": \"Nord\",\n  },\n}"
    );
    let c = act("zed", "nord", Ok("{\n  \"x\": 1\n}".to_string()));
    assert_eq!(written(c), "{\n  \"x\": 1\n  \"theme\": \"Nord\",\n}");
    let d = act("zed", "nord", Ok("".to_string()));
    assert_eq!(settled(d), "skipped: could not find or add theme field in zed settings");
}

#[test]
fn opencode_theme_is_herdr() {
    match act("opencode", "nord", Ok("{\n  \"theme\": \"nord\",\n  \"a\": 1\n}".to_string())) {
        Some(ToolAction::Opencode { config }) => {
            assert_eq!(config, "{\n  \"theme\": \"herdr\",\n  \"a\": 1\n}")
        }
        _ => panic!("expected the opencode action"),
    }
    match act("opencode", "nord", Ok("".to_string())) {
        Some(ToolAction::Opencode { config }) => assert_eq!(
            config,
            "{\n  \"$schema\": \"https://opencode.ai/tui.json\",\n  \"theme\": \"herdr\"\n}"
        ),
        _ => panic!("expected the opencode action"),
    }
}

#[test]
fn pi_settings_get_the_theme() {
    match act("pi-agent", "latte", Ok("{\"theme\": \"old\", \"other\": 1}".to_string())) {
        Some(ToolAction::Pi { settings, theme }) => {
            assert_eq!(theme, "catppuccin-latte");
            assert_eq!(settings, "{\n  \"other\": 1,\n  \"theme\": \"catppuccin-latte\"\n}\n");
        }
        _ => panic!("expected the pi action"),
    }
    match act("pi-agent", "latte", Ok("null".to_string())) {
        Some(ToolAction::Pi { settings, .. }) => {
            assert_eq!(settings, "{\n  \"theme\": \"catppuccin-latte\"\n}\n")
        }
        _ => panic!("expected the pi action"),
    }
    match act("pi-agent", "latte", Ok("{\"a\": [1, {\"b\": true}], \"n\": 2.5}".to_string())) {
        Some(ToolAction::Pi { settings, .. }) => assert_eq!(
            settings,
            "{\n  \"a\": [\n    1,\n    {\n      \"b\": true\n    }\n  ],\n  \"n\": 2.5,\n  \"theme\": \"catppuccin-latte\"\n}\n"
        ),
        _ => panic!("expected the pi action"),
    }
    let bad = settled(act("pi-agent", "latte", Ok("{".to_string())));
    assert!(bad.starts_with("error: invalid JSON: "), "{bad}");
    assert!(act("pi-agent", "latte", Ok("[1, 2]".to_string())).is_none());
    assert_eq!(settled(act("pi-agent", "latte", Err("read failed: x".to_string()))), "error: read failed: x");
}

#[test]
fn herdr_gets_the_theme_as_a_toml_string() {
    match act("herdr", "kanagawa", Err("config file does not exist".to_string())) {
        Some(ToolAction::Herdr { content, quoted }) => {
            assert_eq!(content, "");
            assert_eq!(quoted, "\"kanagawa\"");
        }
        _ => panic!("expected the herdr action"),
    }
}

#[test]
fn unknown_tools_are_skipped() {
    assert_eq!(settled(act("vscode", "nord", Ok(String::new()))), "skipped: unknown tool: vscode");
    assert_eq!(settled(act("zed", "nord", Err("read failed: x".to_string()))), "error: read failed: x");
}

// ---------------------------------------------------------------- applying a theme

#[test]
fn apply_theme_decides_each_tool() {
    let tools = vec![tool("herdr", "/a"), tool("zed", "/b")];
    let plan = apply_theme("no-such-theme", false, true, &tools);
    assert!(plan.record_state);
    for (step, t) in plan.steps.iter().zip(&tools) {
        match step {
            ToolStep::Done(r) => {
                assert_eq!(r.name, t.name);
                assert_eq!(status_text(&r.status), "skipped: no theme mapping available");
            }
            _ => panic!("expected a skipped tool"),
        }
    }
    let dry = apply_theme("nord", true, true, &tools);
    assert!(!dry.record_state);
    assert!(dry.steps.iter().all(|s| matches!(s, ToolStep::Done(r) if status_text(&r.status) == "skipped: dry run")));
    let missing = apply_theme("nord", false, false, &tools);
    assert!(missing.steps.iter().all(
        |s| matches!(s, ToolStep::Done(r) if status_text(&r.status) == "skipped: theme not found in herdr")
    ));
    let real = apply_theme("Nord", false, true, &tools);
    match &real.steps[1] {
        ToolStep::Apply(t, m) => {
            assert_eq!(t.config_path, "/b");
            assert_eq!(m.zed, "Nord");
        }
        _ => panic!("expected an update"),
    }
}

#[test]
fn global_state_records_each_updated_tool_once() {
    let results = vec![
        ToolApplyResult { name: "zed", config_path: "/old".to_string(), status: ApplyStatus::Updated },
        ToolApplyResult { name: "tmux", config_path: "/t".to_string(), status: ApplyStatus::Skipped("x".to_string()) },
        ToolApplyResult { name: "zed", config_path: "/new".to_string(), status: ApplyStatus::Updated },
        ToolApplyResult { name: "ghostty", config_path: "/g".to_string(), status: ApplyStatus::Error("e".to_string()) },
    ];
    let state = global_theme_state("nord", &results);
    assert_eq!(state.theme, "nord");
    assert_eq!(state.tools.len(), 1);
    assert_eq!(state.tools[0].0, "zed");
    assert_eq!(state.tools[0].1.config, "/new");
    assert_eq!(state.tools[0].1.theme, "nord");
}

#[test]
fn theme_names_are_validated_and_listed() {
    assert!(validate_theme_name(&Some(palette()), &Ok(None)));
    assert!(validate_theme_name(&None, &Ok(Some(palette()))));
    assert!(!validate_theme_name(&None, &Ok(None)));
    assert!(!validate_theme_name(&None, &Err("bad".to_string())));
    assert_eq!(list_builtin_theme_names(&["nord", "dracula"]), vec!["nord", "dracula"]);
}

#[test]
fn setting_ghostty_background_twice_changes_nothing_more() {
    let once = written(act("ghostty", "vesper", Ok("a = 1\n  background = #000000\nb = 2".to_string())));
    let twice = written(act("ghostty", "vesper", Ok(once.clone())));
    assert_eq!(once, "a = 1\n  background = #101010\nb = 2");
    assert_eq!(twice, once);
    let added = written(act("ghostty", "vesper", Ok("a = 1".to_string())));
    assert_eq!(written(act("ghostty", "vesper", Ok(added.clone()))), added);
}

#[test]
fn pointing_neovim_at_the_scheme_twice_changes_nothing_more() {
    let cfg = "return {\n  colorscheme tokyonight\n}\nvim.g.colors_name = \"herdr-sync\"\nh(0)";
    let once = match act("neovim", "nord", Ok(cfg.to_string())) {
        Some(ToolAction::Neovim { config: Ok(t), .. }) => t,
        _ => panic!("expected a neovim config"),
    };
    assert_eq!(once, "return {\n  require(\"herdr-sync\")\n}");
    match act("neovim", "nord", Ok(once.clone())) {
        Some(ToolAction::Neovim { config: Ok(t), .. }) => assert_eq!(t, once),
        _ => panic!("expected a neovim config"),
    }
}

#[test]
fn setting_the_tmux_flavour_twice_changes_nothing_more() {
    let cfg = "set -g @plugin 'catppuccin/tmux'\n  set -g @catppuccin_flavour \"mocha\"  ";
    let once = written(act("tmux", "macchiato", Ok(cfg.to_string())));
    assert_eq!(once, "set -g @plugin 'catppuccin/tmux'\n  set -g @catppuccin_flavour \"macchiato\"");
    assert_eq!(written(act("tmux", "macchiato", Ok(once.clone()))), once);
}

#[test]
fn setting_the_zed_theme_twice_changes_nothing_more() {
    let obj = "{\n  \"theme\": {\n    \"mode\": \"dark\",\n    \"dark\": \"One Dark\"\n  }\n}";
    let once = written(act("zed", "nord", Ok(obj.to_string())));
    assert_eq!(written(act("zed", "nord", Ok(once.clone()))), once);
    let added = written(act("zed", "nord", Ok("{\n  \"x\": 1\n}".to_string())));
    assert_eq!(added, "{\n  \"x\": 1\n  \"theme\": \"Nord\",\n}");
    assert_eq!(written(act("zed", "nord", Ok(added.clone()))), added);
}

fn opencode_written(a: Option<ToolAction>) -> String {
    match a {
        Some(ToolAction::Opencode { config }) => config,
        _ => panic!("expected the opencode action"),
    }
}

#[test]
fn setting_the_opencode_theme_twice_changes_nothing_more() {
    let cfg = "{\n  \"a\": \"x\"\n  \"theme\": \"nord\"\n  \"b\": 1\n}";
    let once = opencode_written(act("opencode", "nord", Ok(cfg.to_string())));
    assert_eq!(once, "{\n  \"theme\": \"herdr\",\n  \"a\": \"x\",\n  \"b\": 1\n}");
    assert_eq!(opencode_written(act("opencode", "nord", Ok(once.clone()))), once);
}

#[test]
fn missing_presence_flags_count_as_absent() {
    let tools = detect_tools("/h/c.toml", "/h", &vec![true]);
    let names: Vec<&str> = tools.iter().map(|t| t.name).collect();
    assert_eq!(names, vec!["herdr", "pi-agent"]);
}
