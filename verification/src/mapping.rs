//! Which theme each tool gets for a herdr theme name.
use vstd::prelude::*;

use crate::text::{chars_of, eq_str};

verus! {

/// Per-tool theme names for one herdr theme.
#[derive(Clone, Copy)]
pub struct ToolThemeMapping {
    pub pi_agent: &'static str,
    pub zed: &'static str,
    pub tmux_flavour: Option<&'static str>,
    pub ghostty_bg: &'static str,
    pub opencode: &'static str,
}

/// The per-tool theme names as character sequences.
pub struct MappingView {
    pub pi_agent: Seq<char>,
    pub zed: Seq<char>,
    pub tmux_flavour: Option<Seq<char>>,
    pub ghostty_bg: Seq<char>,
    pub opencode: Seq<char>,
}

impl View for ToolThemeMapping {
    type V = MappingView;

    open spec fn view(&self) -> MappingView {
        MappingView {
            pi_agent: self.pi_agent@,
            zed: self.zed@,
            tmux_flavour: match self.tmux_flavour {
                Some(f) => Some(f@),
                None => None,
            },
            ghostty_bg: self.ghostty_bg@,
            opencode: self.opencode@,
        }
    }
}

/// The row of the mapping table that a normalised theme key selects, if any.
pub open spec fn theme_row(key: Seq<char>) -> Option<int> {
    if key == "catppuccin"@ {
        Some(0)
    } else if key == "catppuccin-macchiato"@ || key == "macchiato"@ {
        Some(1)
    } else if key == "catppuccin-mocha"@ {
        Some(2)
    } else if key == "catppuccin-latte"@ || key == "latte"@ || key == "light"@ {
        Some(3)
    } else if key == "tokyo-night"@ || key == "tokyonight"@ {
        Some(4)
    } else if key == "tokyo-night-day"@ || key == "tokyo-day"@ || key == "tokyonight-day"@ {
        Some(5)
    } else if key == "dracula"@ {
        Some(6)
    } else if key == "nord"@ {
        Some(7)
    } else if key == "gruvbox"@ || key == "gruvbox-dark"@ {
        Some(8)
    } else if key == "gruvbox-light"@ {
        Some(9)
    } else if key == "one-dark"@ || key == "onedark"@ {
        Some(10)
    } else if key == "one-light"@ || key == "onelight"@ {
        Some(11)
    } else if key == "solarized"@ || key == "solarized-dark"@ {
        Some(12)
    } else if key == "solarized-light"@ {
        Some(13)
    } else if key == "kanagawa"@ {
        Some(14)
    } else if key == "kanagawa-lotus"@ || key == "lotus"@ {
        Some(15)
    } else if key == "rose-pine"@ || key == "rosepine"@ {
        Some(16)
    } else if key == "rose-pine-dawn"@ || key == "rosepine-dawn"@ || key == "dawn"@ {
        Some(17)
    } else if key == "vesper"@ {
        Some(18)
    } else {
        None
    }
}

/// A mapping view from its five parts.
pub open spec fn mapping_of(
    pi_agent: Seq<char>,
    zed: Seq<char>,
    tmux_flavour: Option<Seq<char>>,
    ghostty_bg: Seq<char>,
    opencode: Seq<char>,
) -> MappingView {
    MappingView { pi_agent, zed, tmux_flavour, ghostty_bg, opencode }
}

/// The mapping table: per-tool theme names of each row.
pub open spec fn row_mapping(row: int) -> MappingView {
    if row == 0 {
        mapping_of(
            "catppuccin-macchiato"@,
            "Catppuccin Mocha"@,
            Some("macchiato"@),
            "#1e1e2e"@,
            "catppuccin-macchiato"@,
        )
    } else if row == 1 {
        mapping_of(
            "catppuccin-macchiato"@,
            "Catppuccin Mocha"@,
            Some("macchiato"@),
            "#24273a"@,
            "catppuccin-macchiato"@,
        )
    } else if row == 2 {
        mapping_of(
            "catppuccin-macchiato"@,
            "Catppuccin Mocha"@,
            Some("macchiato"@),
            "#1e1e2e"@,
            "catppuccin-macchiato"@,
        )
    } else if row == 3 {
        mapping_of(
            "catppuccin-latte"@,
            "Catppuccin Latte"@,
            Some("latte"@),
            "#eff1f5"@,
            "catppuccin-latte"@,
        )
    } else if row == 4 {
        mapping_of("tokyo-night"@, "Tokyo Night"@, None, "#1a1b26"@, "tokyo-night"@)
    } else if row == 5 {
        mapping_of("tokyo-night"@, "Tokyo Night Day"@, None, "#e1e2e7"@, "tokyo-night-day"@)
    } else if row == 6 {
        mapping_of("dracula"@, "Dracula"@, None, "#282a36"@, "dracula"@)
    } else if row == 7 {
        mapping_of("nord"@, "Nord"@, None, "#2e3440"@, "nord"@)
    } else if row == 8 {
        mapping_of("gruvbox"@, "Gruvbox"@, None, "#282828"@, "gruvbox"@)
    } else if row == 9 {
        mapping_of("gruvbox-light"@, "Gruvbox Light"@, None, "#fbf1c7"@, "gruvbox-light"@)
    } else if row == 10 {
        mapping_of("one-dark"@, "One Dark"@, None, "#282c34"@, "one-dark"@)
    } else if row == 11 {
        mapping_of("one-light"@, "One Light"@, None, "#fafafa"@, "one-light"@)
    } else if row == 12 {
        mapping_of("solarized"@, "Solarized Dark"@, None, "#002b36"@, "solarized"@)
    } else if row == 13 {
        mapping_of("solarized-light"@, "Solarized Light"@, None, "#fdf6e3"@, "solarized-light"@)
    } else if row == 14 {
        mapping_of("kanagawa"@, "Kanagawa"@, None, "#1f1f28"@, "kanagawa"@)
    } else if row == 15 {
        mapping_of("kanagawa-lotus"@, "Kanagawa Lotus"@, None, "#f4edd9"@, "kanagawa-lotus"@)
    } else if row == 16 {
        mapping_of("rose-pine"@, "Ros\u{e9} Pine"@, None, "#191724"@, "rose-pine"@)
    } else if row == 17 {
        mapping_of("rose-pine"@, "Ros\u{e9} Pine Dawn"@, None, "#faf4ed"@, "rose-pine-dawn"@)
    } else {
        mapping_of("vesper"@, "Vesper"@, None, "#101010"@, "vesper"@)
    }
}

/// The mapping that a normalised theme key selects.
pub open spec fn key_mapping(key: Seq<char>) -> Option<MappingView> {
    match theme_row(key) {
        Some(row) => Some(row_mapping(row)),
        None => None,
    }
}

/// A theme name of a light variant: it ends with `light`, `latte`, `day`, `dawn` or
/// `lotus`, with the first letter in either case.
pub open spec fn names_light_variant(n: Seq<char>) -> bool {
    ||| "light"@.is_suffix_of(n)
    ||| "Light"@.is_suffix_of(n)
    ||| "latte"@.is_suffix_of(n)
    ||| "Latte"@.is_suffix_of(n)
    ||| "day"@.is_suffix_of(n)
    ||| "Day"@.is_suffix_of(n)
    ||| "dawn"@.is_suffix_of(n)
    ||| "Dawn"@.is_suffix_of(n)
    ||| "lotus"@.is_suffix_of(n)
    ||| "Lotus"@.is_suffix_of(n)
}

/// A light `#rrggbb` background: its red component is at least `0x80`.
pub open spec fn is_light_hex(bg: Seq<char>) -> bool {
    bg.len() == 7 && bg[0] == '#' && (('8' <= bg[1] && bg[1] <= '9') || ('a' <= bg[1] && bg[1]
        <= 'f'))
}

/// A text whose `j`-th character from the end differs from `p`'s does not end with `p`.
proof fn lemma_not_suffix(p: Seq<char>, n: Seq<char>, j: int)
    requires
        0 <= j < p.len() <= n.len(),
        p[p.len() - 1 - j] != n[n.len() - 1 - j],
    ensures
        !p.is_suffix_of(n),
{
    if p.is_suffix_of(n) {
        assert(n.subrange(n.len() - p.len(), n.len() as int)[p.len() - 1 - j] == n[n.len() - 1 - j]);
    }
}

/// Every row gives the tools the same variant of a theme: its ghostty background is light
/// exactly when zed's and OpenCode's theme names name a light variant.
proof fn lemma_row_variant(row: int)
    ensures
        names_light_variant(row_mapping(row).zed) == is_light_hex(row_mapping(row).ghostty_bg),
        names_light_variant(row_mapping(row).opencode) == is_light_hex(row_mapping(row).ghostty_bg),
        is_light_hex(row_mapping(row).ghostty_bg) == light_row(row),
{
    reveal_strlit("light");
    reveal_strlit("Light");
    reveal_strlit("latte");
    reveal_strlit("Latte");
    reveal_strlit("day");
    reveal_strlit("Day");
    reveal_strlit("dawn");
    reveal_strlit("Dawn");
    reveal_strlit("lotus");
    reveal_strlit("Lotus");
    let m = row_mapping(row);
    if row == 0 || row == 2 {
        reveal_strlit("Catppuccin Mocha");
        reveal_strlit("catppuccin-macchiato");
        lemma_not_suffix("light"@, m.zed, 0);
        lemma_not_suffix("Light"@, m.zed, 0);
        lemma_not_suffix("latte"@, m.zed, 0);
        lemma_not_suffix("Latte"@, m.zed, 0);
        lemma_not_suffix("day"@, m.zed, 0);
        lemma_not_suffix("Day"@, m.zed, 0);
        lemma_not_suffix("dawn"@, m.zed, 0);
        lemma_not_suffix("Dawn"@, m.zed, 0);
        lemma_not_suffix("lotus"@, m.zed, 0);
        lemma_not_suffix("Lotus"@, m.zed, 0);
        lemma_not_suffix("light"@, m.opencode, 0);
        lemma_not_suffix("Light"@, m.opencode, 0);
        lemma_not_suffix("latte"@, m.opencode, 0);
        lemma_not_suffix("Latte"@, m.opencode, 0);
        lemma_not_suffix("day"@, m.opencode, 0);
        lemma_not_suffix("Day"@, m.opencode, 0);
        lemma_not_suffix("dawn"@, m.opencode, 0);
        lemma_not_suffix("Dawn"@, m.opencode, 0);
        lemma_not_suffix("lotus"@, m.opencode, 0);
        lemma_not_suffix("Lotus"@, m.opencode, 0);
        reveal_strlit("#1e1e2e");
    } else if row == 1 {
        reveal_strlit("Catppuccin Mocha");
        reveal_strlit("catppuccin-macchiato");
        lemma_not_suffix("light"@, m.zed, 0);
        lemma_not_suffix("Light"@, m.zed, 0);
        lemma_not_suffix("latte"@, m.zed, 0);
        lemma_not_suffix("Latte"@, m.zed, 0);
        lemma_not_suffix("day"@, m.zed, 0);
        lemma_not_suffix("Day"@, m.zed, 0);
        lemma_not_suffix("dawn"@, m.zed, 0);
        lemma_not_suffix("Dawn"@, m.zed, 0);
        lemma_not_suffix("lotus"@, m.zed, 0);
        lemma_not_suffix("Lotus"@, m.zed, 0);
        lemma_not_suffix("light"@, m.opencode, 0);
        lemma_not_suffix("Light"@, m.opencode, 0);
        lemma_not_suffix("latte"@, m.opencode, 0);
        lemma_not_suffix("Latte"@, m.opencode, 0);
        lemma_not_suffix("day"@, m.opencode, 0);
        lemma_not_suffix("Day"@, m.opencode, 0);
        lemma_not_suffix("dawn"@, m.opencode, 0);
        lemma_not_suffix("Dawn"@, m.opencode, 0);
        lemma_not_suffix("lotus"@, m.opencode, 0);
        lemma_not_suffix("Lotus"@, m.opencode, 0);
        reveal_strlit("#24273a");
    } else if row == 3 {
        reveal_strlit("Catppuccin Latte");
        reveal_strlit("catppuccin-latte");
        reveal_strlit("#eff1f5");
        assert("latte"@ =~= m.opencode.subrange(m.opencode.len() - 5, m.opencode.len() as int));
        assert("Latte"@ =~= m.zed.subrange(m.zed.len() - 5, m.zed.len() as int));
    } else if row == 4 {
        reveal_strlit("Tokyo Night");
        reveal_strlit("tokyo-night");
        lemma_not_suffix("light"@, m.zed, 4);
        lemma_not_suffix("Light"@, m.zed, 4);
        lemma_not_suffix("latte"@, m.zed, 0);
        lemma_not_suffix("Latte"@, m.zed, 0);
        lemma_not_suffix("day"@, m.zed, 0);
        lemma_not_suffix("Day"@, m.zed, 0);
        lemma_not_suffix("dawn"@, m.zed, 0);
        lemma_not_suffix("Dawn"@, m.zed, 0);
        lemma_not_suffix("lotus"@, m.zed, 0);
        lemma_not_suffix("Lotus"@, m.zed, 0);
        lemma_not_suffix("light"@, m.opencode, 4);
        lemma_not_suffix("Light"@, m.opencode, 4);
        lemma_not_suffix("latte"@, m.opencode, 0);
        lemma_not_suffix("Latte"@, m.opencode, 0);
        lemma_not_suffix("day"@, m.opencode, 0);
        lemma_not_suffix("Day"@, m.opencode, 0);
        lemma_not_suffix("dawn"@, m.opencode, 0);
        lemma_not_suffix("Dawn"@, m.opencode, 0);
        lemma_not_suffix("lotus"@, m.opencode, 0);
        lemma_not_suffix("Lotus"@, m.opencode, 0);
        reveal_strlit("#1a1b26");
    } else if row == 5 {
        reveal_strlit("Tokyo Night Day");
        reveal_strlit("tokyo-night-day");
        reveal_strlit("#e1e2e7");
        assert("day"@ =~= m.opencode.subrange(m.opencode.len() - 3, m.opencode.len() as int));
        assert("Day"@ =~= m.zed.subrange(m.zed.len() - 3, m.zed.len() as int));
    } else if row == 6 {
        reveal_strlit("Dracula");
        reveal_strlit("dracula");
        lemma_not_suffix("light"@, m.zed, 0);
        lemma_not_suffix("Light"@, m.zed, 0);
        lemma_not_suffix("latte"@, m.zed, 0);
        lemma_not_suffix("Latte"@, m.zed, 0);
        lemma_not_suffix("day"@, m.zed, 0);
        lemma_not_suffix("Day"@, m.zed, 0);
        lemma_not_suffix("dawn"@, m.zed, 0);
        lemma_not_suffix("Dawn"@, m.zed, 0);
        lemma_not_suffix("lotus"@, m.zed, 0);
        lemma_not_suffix("Lotus"@, m.zed, 0);
        lemma_not_suffix("light"@, m.opencode, 0);
        lemma_not_suffix("Light"@, m.opencode, 0);
        lemma_not_suffix("latte"@, m.opencode, 0);
        lemma_not_suffix("Latte"@, m.opencode, 0);
        lemma_not_suffix("day"@, m.opencode, 0);
        lemma_not_suffix("Day"@, m.opencode, 0);
        lemma_not_suffix("dawn"@, m.opencode, 0);
        lemma_not_suffix("Dawn"@, m.opencode, 0);
        lemma_not_suffix("lotus"@, m.opencode, 0);
        lemma_not_suffix("Lotus"@, m.opencode, 0);
        reveal_strlit("#282a36");
    } else if row == 7 {
        reveal_strlit("Nord");
        reveal_strlit("nord");
        lemma_not_suffix("day"@, m.zed, 0);
        lemma_not_suffix("Day"@, m.zed, 0);
        lemma_not_suffix("dawn"@, m.zed, 0);
        lemma_not_suffix("Dawn"@, m.zed, 0);
        lemma_not_suffix("day"@, m.opencode, 0);
        lemma_not_suffix("Day"@, m.opencode, 0);
        lemma_not_suffix("dawn"@, m.opencode, 0);
        lemma_not_suffix("Dawn"@, m.opencode, 0);
        reveal_strlit("#2e3440");
    } else if row == 8 {
        reveal_strlit("Gruvbox");
        reveal_strlit("gruvbox");
        lemma_not_suffix("light"@, m.zed, 0);
        lemma_not_suffix("Light"@, m.zed, 0);
        lemma_not_suffix("latte"@, m.zed, 0);
        lemma_not_suffix("Latte"@, m.zed, 0);
        lemma_not_suffix("day"@, m.zed, 0);
        lemma_not_suffix("Day"@, m.zed, 0);
        lemma_not_suffix("dawn"@, m.zed, 0);
        lemma_not_suffix("Dawn"@, m.zed, 0);
        lemma_not_suffix("lotus"@, m.zed, 0);
        lemma_not_suffix("Lotus"@, m.zed, 0);
        lemma_not_suffix("light"@, m.opencode, 0);
        lemma_not_suffix("Light"@, m.opencode, 0);
        lemma_not_suffix("latte"@, m.opencode, 0);
        lemma_not_suffix("Latte"@, m.opencode, 0);
        lemma_not_suffix("day"@, m.opencode, 0);
        lemma_not_suffix("Day"@, m.opencode, 0);
        lemma_not_suffix("dawn"@, m.opencode, 0);
        lemma_not_suffix("Dawn"@, m.opencode, 0);
        lemma_not_suffix("lotus"@, m.opencode, 0);
        lemma_not_suffix("Lotus"@, m.opencode, 0);
        reveal_strlit("#282828");
    } else if row == 9 {
        reveal_strlit("Gruvbox Light");
        reveal_strlit("gruvbox-light");
        reveal_strlit("#fbf1c7");
        assert("light"@ =~= m.opencode.subrange(m.opencode.len() - 5, m.opencode.len() as int));
        assert("Light"@ =~= m.zed.subrange(m.zed.len() - 5, m.zed.len() as int));
    } else if row == 10 {
        reveal_strlit("One Dark");
        reveal_strlit("one-dark");
        lemma_not_suffix("light"@, m.zed, 0);
        lemma_not_suffix("Light"@, m.zed, 0);
        lemma_not_suffix("latte"@, m.zed, 0);
        lemma_not_suffix("Latte"@, m.zed, 0);
        lemma_not_suffix("day"@, m.zed, 0);
        lemma_not_suffix("Day"@, m.zed, 0);
        lemma_not_suffix("dawn"@, m.zed, 0);
        lemma_not_suffix("Dawn"@, m.zed, 0);
        lemma_not_suffix("lotus"@, m.zed, 0);
        lemma_not_suffix("Lotus"@, m.zed, 0);
        lemma_not_suffix("light"@, m.opencode, 0);
        lemma_not_suffix("Light"@, m.opencode, 0);
        lemma_not_suffix("latte"@, m.opencode, 0);
        lemma_not_suffix("Latte"@, m.opencode, 0);
        lemma_not_suffix("day"@, m.opencode, 0);
        lemma_not_suffix("Day"@, m.opencode, 0);
        lemma_not_suffix("dawn"@, m.opencode, 0);
        lemma_not_suffix("Dawn"@, m.opencode, 0);
        lemma_not_suffix("lotus"@, m.opencode, 0);
        lemma_not_suffix("Lotus"@, m.opencode, 0);
        reveal_strlit("#282c34");
    } else if row == 11 {
        reveal_strlit("One Light");
        reveal_strlit("one-light");
        reveal_strlit("#fafafa");
        assert("light"@ =~= m.opencode.subrange(m.opencode.len() - 5, m.opencode.len() as int));
        assert("Light"@ =~= m.zed.subrange(m.zed.len() - 5, m.zed.len() as int));
    } else if row == 12 {
        reveal_strlit("Solarized Dark");
        reveal_strlit("solarized");
        lemma_not_suffix("light"@, m.zed, 0);
        lemma_not_suffix("Light"@, m.zed, 0);
        lemma_not_suffix("latte"@, m.zed, 0);
        lemma_not_suffix("Latte"@, m.zed, 0);
        lemma_not_suffix("day"@, m.zed, 0);
        lemma_not_suffix("Day"@, m.zed, 0);
        lemma_not_suffix("dawn"@, m.zed, 0);
        lemma_not_suffix("Dawn"@, m.zed, 0);
        lemma_not_suffix("lotus"@, m.zed, 0);
        lemma_not_suffix("Lotus"@, m.zed, 0);
        lemma_not_suffix("light"@, m.opencode, 0);
        lemma_not_suffix("Light"@, m.opencode, 0);
        lemma_not_suffix("latte"@, m.opencode, 0);
        lemma_not_suffix("Latte"@, m.opencode, 0);
        lemma_not_suffix("day"@, m.opencode, 0);
        lemma_not_suffix("Day"@, m.opencode, 0);
        lemma_not_suffix("dawn"@, m.opencode, 0);
        lemma_not_suffix("Dawn"@, m.opencode, 0);
        lemma_not_suffix("lotus"@, m.opencode, 0);
        lemma_not_suffix("Lotus"@, m.opencode, 0);
        reveal_strlit("#002b36");
    } else if row == 13 {
        reveal_strlit("Solarized Light");
        reveal_strlit("solarized-light");
        reveal_strlit("#fdf6e3");
        assert("light"@ =~= m.opencode.subrange(m.opencode.len() - 5, m.opencode.len() as int));
        assert("Light"@ =~= m.zed.subrange(m.zed.len() - 5, m.zed.len() as int));
    } else if row == 14 {
        reveal_strlit("Kanagawa");
        reveal_strlit("kanagawa");
        lemma_not_suffix("light"@, m.zed, 0);
        lemma_not_suffix("Light"@, m.zed, 0);
        lemma_not_suffix("latte"@, m.zed, 0);
        lemma_not_suffix("Latte"@, m.zed, 0);
        lemma_not_suffix("day"@, m.zed, 0);
        lemma_not_suffix("Day"@, m.zed, 0);
        lemma_not_suffix("dawn"@, m.zed, 0);
        lemma_not_suffix("Dawn"@, m.zed, 0);
        lemma_not_suffix("lotus"@, m.zed, 0);
        lemma_not_suffix("Lotus"@, m.zed, 0);
        lemma_not_suffix("light"@, m.opencode, 0);
        lemma_not_suffix("Light"@, m.opencode, 0);
        lemma_not_suffix("latte"@, m.opencode, 0);
        lemma_not_suffix("Latte"@, m.opencode, 0);
        lemma_not_suffix("day"@, m.opencode, 0);
        lemma_not_suffix("Day"@, m.opencode, 0);
        lemma_not_suffix("dawn"@, m.opencode, 0);
        lemma_not_suffix("Dawn"@, m.opencode, 0);
        lemma_not_suffix("lotus"@, m.opencode, 0);
        lemma_not_suffix("Lotus"@, m.opencode, 0);
        reveal_strlit("#1f1f28");
    } else if row == 15 {
        reveal_strlit("Kanagawa Lotus");
        reveal_strlit("kanagawa-lotus");
        reveal_strlit("#f4edd9");
        assert("lotus"@ =~= m.opencode.subrange(m.opencode.len() - 5, m.opencode.len() as int));
        assert("Lotus"@ =~= m.zed.subrange(m.zed.len() - 5, m.zed.len() as int));
    } else if row == 16 {
        reveal_strlit("Ros\u{e9} Pine");
        reveal_strlit("rose-pine");
        lemma_not_suffix("light"@, m.zed, 0);
        lemma_not_suffix("Light"@, m.zed, 0);
        lemma_not_suffix("latte"@, m.zed, 1);
        lemma_not_suffix("Latte"@, m.zed, 1);
        lemma_not_suffix("day"@, m.zed, 0);
        lemma_not_suffix("Day"@, m.zed, 0);
        lemma_not_suffix("dawn"@, m.zed, 0);
        lemma_not_suffix("Dawn"@, m.zed, 0);
        lemma_not_suffix("lotus"@, m.zed, 0);
        lemma_not_suffix("Lotus"@, m.zed, 0);
        lemma_not_suffix("light"@, m.opencode, 0);
        lemma_not_suffix("Light"@, m.opencode, 0);
        lemma_not_suffix("latte"@, m.opencode, 1);
        lemma_not_suffix("Latte"@, m.opencode, 1);
        lemma_not_suffix("day"@, m.opencode, 0);
        lemma_not_suffix("Day"@, m.opencode, 0);
        lemma_not_suffix("dawn"@, m.opencode, 0);
        lemma_not_suffix("Dawn"@, m.opencode, 0);
        lemma_not_suffix("lotus"@, m.opencode, 0);
        lemma_not_suffix("Lotus"@, m.opencode, 0);
        reveal_strlit("#191724");
    } else if row == 17 {
        reveal_strlit("Ros\u{e9} Pine Dawn");
        reveal_strlit("rose-pine-dawn");
        reveal_strlit("#faf4ed");
        assert("dawn"@ =~= m.opencode.subrange(m.opencode.len() - 4, m.opencode.len() as int));
        assert("Dawn"@ =~= m.zed.subrange(m.zed.len() - 4, m.zed.len() as int));
    } else {
        reveal_strlit("Vesper");
        reveal_strlit("vesper");
        lemma_not_suffix("light"@, m.zed, 0);
        lemma_not_suffix("Light"@, m.zed, 0);
        lemma_not_suffix("latte"@, m.zed, 0);
        lemma_not_suffix("Latte"@, m.zed, 0);
        lemma_not_suffix("day"@, m.zed, 0);
        lemma_not_suffix("Day"@, m.zed, 0);
        lemma_not_suffix("dawn"@, m.zed, 0);
        lemma_not_suffix("Dawn"@, m.zed, 0);
        lemma_not_suffix("lotus"@, m.zed, 0);
        lemma_not_suffix("Lotus"@, m.zed, 0);
        lemma_not_suffix("light"@, m.opencode, 0);
        lemma_not_suffix("Light"@, m.opencode, 0);
        lemma_not_suffix("latte"@, m.opencode, 0);
        lemma_not_suffix("Latte"@, m.opencode, 0);
        lemma_not_suffix("day"@, m.opencode, 0);
        lemma_not_suffix("Day"@, m.opencode, 0);
        lemma_not_suffix("dawn"@, m.opencode, 0);
        lemma_not_suffix("Dawn"@, m.opencode, 0);
        lemma_not_suffix("lotus"@, m.opencode, 0);
        lemma_not_suffix("Lotus"@, m.opencode, 0);
        reveal_strlit("#101010");
    }
}

/// Whether a row of the mapping table is a light variant.
pub open spec fn light_row(row: int) -> bool {
    row == 3 || row == 5 || row == 9 || row == 11 || row == 13 || row == 15 || row == 17
}

/// A key of the table names a light variant exactly when its row is one.
proof fn lemma_key_variant(key: Seq<char>)
    requires
        theme_row(key) is Some,
    ensures
        names_light_variant(key) == light_row(theme_row(key)->Some_0),
{
    reveal_strlit("light");
    reveal_strlit("Light");
    reveal_strlit("latte");
    reveal_strlit("Latte");
    reveal_strlit("day");
    reveal_strlit("Day");
    reveal_strlit("dawn");
    reveal_strlit("Dawn");
    reveal_strlit("lotus");
    reveal_strlit("Lotus");
    if key == "catppuccin"@ {
        reveal_strlit("catppuccin");
        lemma_not_suffix("light"@, key, 0);
        lemma_not_suffix("Light"@, key, 0);
        lemma_not_suffix("latte"@, key, 0);
        lemma_not_suffix("Latte"@, key, 0);
        lemma_not_suffix("day"@, key, 0);
        lemma_not_suffix("Day"@, key, 0);
        lemma_not_suffix("dawn"@, key, 1);
        lemma_not_suffix("Dawn"@, key, 1);
        lemma_not_suffix("lotus"@, key, 0);
        lemma_not_suffix("Lotus"@, key, 0);
    } else if key == "catppuccin-macchiato"@ {
        reveal_strlit("catppuccin-macchiato");
        lemma_not_suffix("light"@, key, 0);
        lemma_not_suffix("Light"@, key, 0);
        lemma_not_suffix("latte"@, key, 0);
        lemma_not_suffix("Latte"@, key, 0);
        lemma_not_suffix("day"@, key, 0);
        lemma_not_suffix("Day"@, key, 0);
        lemma_not_suffix("dawn"@, key, 0);
        lemma_not_suffix("Dawn"@, key, 0);
        lemma_not_suffix("lotus"@, key, 0);
        lemma_not_suffix("Lotus"@, key, 0);
    } else if key == "macchiato"@ {
        reveal_strlit("macchiato");
        lemma_not_suffix("light"@, key, 0);
        lemma_not_suffix("Light"@, key, 0);
        lemma_not_suffix("latte"@, key, 0);
        lemma_not_suffix("Latte"@, key, 0);
        lemma_not_suffix("day"@, key, 0);
        lemma_not_suffix("Day"@, key, 0);
        lemma_not_suffix("dawn"@, key, 0);
        lemma_not_suffix("Dawn"@, key, 0);
        lemma_not_suffix("lotus"@, key, 0);
        lemma_not_suffix("Lotus"@, key, 0);
    } else if key == "catppuccin-mocha"@ {
        reveal_strlit("catppuccin-mocha");
        lemma_not_suffix("light"@, key, 0);
        lemma_not_suffix("Light"@, key, 0);
        lemma_not_suffix("latte"@, key, 0);
        lemma_not_suffix("Latte"@, key, 0);
        lemma_not_suffix("day"@, key, 0);
        lemma_not_suffix("Day"@, key, 0);
        lemma_not_suffix("dawn"@, key, 0);
        lemma_not_suffix("Dawn"@, key, 0);
        lemma_not_suffix("lotus"@, key, 0);
        lemma_not_suffix("Lotus"@, key, 0);
    } else if key == "catppuccin-latte"@ {
        reveal_strlit("catppuccin-latte");
        assert("latte"@ =~= key.subrange(key.len() - 5, key.len() as int));
    } else if key == "latte"@ {
        reveal_strlit("latte");
        assert("latte"@ =~= key.subrange(key.len() - 5, key.len() as int));
    } else if key == "light"@ {
        reveal_strlit("light");
        assert("light"@ =~= key.subrange(key.len() - 5, key.len() as int));
    } else if key == "tokyo-night"@ {
        reveal_strlit("tokyo-night");
        lemma_not_suffix("light"@, key, 4);
        lemma_not_suffix("Light"@, key, 4);
        lemma_not_suffix("latte"@, key, 0);
        lemma_not_suffix("Latte"@, key, 0);
        lemma_not_suffix("day"@, key, 0);
        lemma_not_suffix("Day"@, key, 0);
        lemma_not_suffix("dawn"@, key, 0);
        lemma_not_suffix("Dawn"@, key, 0);
        lemma_not_suffix("lotus"@, key, 0);
        lemma_not_suffix("Lotus"@, key, 0);
    } else if key == "tokyonight"@ {
        reveal_strlit("tokyonight");
        lemma_not_suffix("light"@, key, 4);
        lemma_not_suffix("Light"@, key, 4);
        lemma_not_suffix("latte"@, key, 0);
        lemma_not_suffix("Latte"@, key, 0);
        lemma_not_suffix("day"@, key, 0);
        lemma_not_suffix("Day"@, key, 0);
        lemma_not_suffix("dawn"@, key, 0);
        lemma_not_suffix("Dawn"@, key, 0);
        lemma_not_suffix("lotus"@, key, 0);
        lemma_not_suffix("Lotus"@, key, 0);
    } else if key == "tokyo-night-day"@ {
        reveal_strlit("tokyo-night-day");
        assert("day"@ =~= key.subrange(key.len() - 3, key.len() as int));
    } else if key == "tokyo-day"@ {
        reveal_strlit("tokyo-day");
        assert("day"@ =~= key.subrange(key.len() - 3, key.len() as int));
    } else if key == "tokyonight-day"@ {
        reveal_strlit("tokyonight-day");
        assert("day"@ =~= key.subrange(key.len() - 3, key.len() as int));
    } else if key == "dracula"@ {
        reveal_strlit("dracula");
        lemma_not_suffix("light"@, key, 0);
        lemma_not_suffix("Light"@, key, 0);
        lemma_not_suffix("latte"@, key, 0);
        lemma_not_suffix("Latte"@, key, 0);
        lemma_not_suffix("day"@, key, 0);
        lemma_not_suffix("Day"@, key, 0);
        lemma_not_suffix("dawn"@, key, 0);
        lemma_not_suffix("Dawn"@, key, 0);
        lemma_not_suffix("lotus"@, key, 0);
        lemma_not_suffix("Lotus"@, key, 0);
    } else if key == "nord"@ {
        reveal_strlit("nord");
        lemma_not_suffix("day"@, key, 0);
        lemma_not_suffix("Day"@, key, 0);
        lemma_not_suffix("dawn"@, key, 0);
        lemma_not_suffix("Dawn"@, key, 0);
    } else if key == "gruvbox"@ {
        reveal_strlit("gruvbox");
        lemma_not_suffix("light"@, key, 0);
        lemma_not_suffix("Light"@, key, 0);
        lemma_not_suffix("latte"@, key, 0);
        lemma_not_suffix("Latte"@, key, 0);
        lemma_not_suffix("day"@, key, 0);
        lemma_not_suffix("Day"@, key, 0);
        lemma_not_suffix("dawn"@, key, 0);
        lemma_not_suffix("Dawn"@, key, 0);
        lemma_not_suffix("lotus"@, key, 0);
        lemma_not_suffix("Lotus"@, key, 0);
    } else if key == "gruvbox-dark"@ {
        reveal_strlit("gruvbox-dark");
        lemma_not_suffix("light"@, key, 0);
        lemma_not_suffix("Light"@, key, 0);
        lemma_not_suffix("latte"@, key, 0);
        lemma_not_suffix("Latte"@, key, 0);
        lemma_not_suffix("day"@, key, 0);
        lemma_not_suffix("Day"@, key, 0);
        lemma_not_suffix("dawn"@, key, 0);
        lemma_not_suffix("Dawn"@, key, 0);
        lemma_not_suffix("lotus"@, key, 0);
        lemma_not_suffix("Lotus"@, key, 0);
    } else if key == "gruvbox-light"@ {
        reveal_strlit("gruvbox-light");
        assert("light"@ =~= key.subrange(key.len() - 5, key.len() as int));
    } else if key == "one-dark"@ {
        reveal_strlit("one-dark");
        lemma_not_suffix("light"@, key, 0);
        lemma_not_suffix("Light"@, key, 0);
        lemma_not_suffix("latte"@, key, 0);
        lemma_not_suffix("Latte"@, key, 0);
        lemma_not_suffix("day"@, key, 0);
        lemma_not_suffix("Day"@, key, 0);
        lemma_not_suffix("dawn"@, key, 0);
        lemma_not_suffix("Dawn"@, key, 0);
        lemma_not_suffix("lotus"@, key, 0);
        lemma_not_suffix("Lotus"@, key, 0);
    } else if key == "onedark"@ {
        reveal_strlit("onedark");
        lemma_not_suffix("light"@, key, 0);
        lemma_not_suffix("Light"@, key, 0);
        lemma_not_suffix("latte"@, key, 0);
        lemma_not_suffix("Latte"@, key, 0);
        lemma_not_suffix("day"@, key, 0);
        lemma_not_suffix("Day"@, key, 0);
        lemma_not_suffix("dawn"@, key, 0);
        lemma_not_suffix("Dawn"@, key, 0);
        lemma_not_suffix("lotus"@, key, 0);
        lemma_not_suffix("Lotus"@, key, 0);
    } else if key == "one-light"@ {
        reveal_strlit("one-light");
        assert("light"@ =~= key.subrange(key.len() - 5, key.len() as int));
    } else if key == "onelight"@ {
        reveal_strlit("onelight");
        assert("light"@ =~= key.subrange(key.len() - 5, key.len() as int));
    } else if key == "solarized"@ {
        reveal_strlit("solarized");
        lemma_not_suffix("light"@, key, 0);
        lemma_not_suffix("Light"@, key, 0);
        lemma_not_suffix("latte"@, key, 0);
        lemma_not_suffix("Latte"@, key, 0);
        lemma_not_suffix("day"@, key, 0);
        lemma_not_suffix("Day"@, key, 0);
        lemma_not_suffix("dawn"@, key, 0);
        lemma_not_suffix("Dawn"@, key, 0);
        lemma_not_suffix("lotus"@, key, 0);
        lemma_not_suffix("Lotus"@, key, 0);
    } else if key == "solarized-dark"@ {
        reveal_strlit("solarized-dark");
        lemma_not_suffix("light"@, key, 0);
        lemma_not_suffix("Light"@, key, 0);
        lemma_not_suffix("latte"@, key, 0);
        lemma_not_suffix("Latte"@, key, 0);
        lemma_not_suffix("day"@, key, 0);
        lemma_not_suffix("Day"@, key, 0);
        lemma_not_suffix("dawn"@, key, 0);
        lemma_not_suffix("Dawn"@, key, 0);
        lemma_not_suffix("lotus"@, key, 0);
        lemma_not_suffix("Lotus"@, key, 0);
    } else if key == "solarized-light"@ {
        reveal_strlit("solarized-light");
        assert("light"@ =~= key.subrange(key.len() - 5, key.len() as int));
    } else if key == "kanagawa"@ {
        reveal_strlit("kanagawa");
        lemma_not_suffix("light"@, key, 0);
        lemma_not_suffix("Light"@, key, 0);
        lemma_not_suffix("latte"@, key, 0);
        lemma_not_suffix("Latte"@, key, 0);
        lemma_not_suffix("day"@, key, 0);
        lemma_not_suffix("Day"@, key, 0);
        lemma_not_suffix("dawn"@, key, 0);
        lemma_not_suffix("Dawn"@, key, 0);
        lemma_not_suffix("lotus"@, key, 0);
        lemma_not_suffix("Lotus"@, key, 0);
    } else if key == "kanagawa-lotus"@ {
        reveal_strlit("kanagawa-lotus");
        assert("lotus"@ =~= key.subrange(key.len() - 5, key.len() as int));
    } else if key == "lotus"@ {
        reveal_strlit("lotus");
        assert("lotus"@ =~= key.subrange(key.len() - 5, key.len() as int));
    } else if key == "rose-pine"@ {
        reveal_strlit("rose-pine");
        lemma_not_suffix("light"@, key, 0);
        lemma_not_suffix("Light"@, key, 0);
        lemma_not_suffix("latte"@, key, 1);
        lemma_not_suffix("Latte"@, key, 1);
        lemma_not_suffix("day"@, key, 0);
        lemma_not_suffix("Day"@, key, 0);
        lemma_not_suffix("dawn"@, key, 0);
        lemma_not_suffix("Dawn"@, key, 0);
        lemma_not_suffix("lotus"@, key, 0);
        lemma_not_suffix("Lotus"@, key, 0);
    } else if key == "rosepine"@ {
        reveal_strlit("rosepine");
        lemma_not_suffix("light"@, key, 0);
        lemma_not_suffix("Light"@, key, 0);
        lemma_not_suffix("latte"@, key, 1);
        lemma_not_suffix("Latte"@, key, 1);
        lemma_not_suffix("day"@, key, 0);
        lemma_not_suffix("Day"@, key, 0);
        lemma_not_suffix("dawn"@, key, 0);
        lemma_not_suffix("Dawn"@, key, 0);
        lemma_not_suffix("lotus"@, key, 0);
        lemma_not_suffix("Lotus"@, key, 0);
    } else if key == "rose-pine-dawn"@ {
        reveal_strlit("rose-pine-dawn");
        assert("dawn"@ =~= key.subrange(key.len() - 4, key.len() as int));
    } else if key == "rosepine-dawn"@ {
        reveal_strlit("rosepine-dawn");
        assert("dawn"@ =~= key.subrange(key.len() - 4, key.len() as int));
    } else if key == "dawn"@ {
        reveal_strlit("dawn");
        assert("dawn"@ =~= key.subrange(key.len() - 4, key.len() as int));
    } else if key == "vesper"@ {
        reveal_strlit("vesper");
        lemma_not_suffix("light"@, key, 0);
        lemma_not_suffix("Light"@, key, 0);
        lemma_not_suffix("latte"@, key, 0);
        lemma_not_suffix("Latte"@, key, 0);
        lemma_not_suffix("day"@, key, 0);
        lemma_not_suffix("Day"@, key, 0);
        lemma_not_suffix("dawn"@, key, 0);
        lemma_not_suffix("Dawn"@, key, 0);
        lemma_not_suffix("lotus"@, key, 0);
        lemma_not_suffix("Lotus"@, key, 0);
    }
}

/// Law: a theme name resolves to one variant of a theme for every tool. A key that names
/// a light variant (ending in `light`, `latte`, `day`, `dawn` or `lotus`) gets a light
/// ghostty background and light zed and OpenCode themes; any other key gets dark ones.
pub proof fn lemma_mapping_keeps_the_variant(key: Seq<char>)
    ensures
        key_mapping(key) matches Some(m) ==> {
            &&& names_light_variant(m.zed) == is_light_hex(m.ghostty_bg)
            &&& names_light_variant(m.opencode) == is_light_hex(m.ghostty_bg)
            &&& names_light_variant(key) == is_light_hex(m.ghostty_bg)
        },
{
    if let Some(row) = theme_row(key) {
        lemma_row_variant(row);
        lemma_key_variant(key);
    }
}

/// Law: a theme gets a tmux flavour only where its Pi theme is the catppuccin theme of that
/// flavour, `macchiato` or `latte`; every other theme leaves tmux alone.
pub proof fn lemma_tmux_flavour_is_catppuccin(key: Seq<char>)
    ensures
        key_mapping(key) matches Some(m) ==> (m.tmux_flavour matches Some(f) ==> (m.pi_agent
            == "catppuccin-"@ + f && (f == "macchiato"@ || f == "latte"@))),
{
    reveal_strlit("catppuccin-");
    reveal_strlit("macchiato");
    reveal_strlit("latte");
    reveal_strlit("catppuccin-macchiato");
    reveal_strlit("catppuccin-latte");
    assert("catppuccin-macchiato"@ =~= "catppuccin-"@ + "macchiato"@);
    assert("catppuccin-latte"@ =~= "catppuccin-"@ + "latte"@);
}

/// `str::to_lowercase`: Unicode lower-casing of a string (its full definition is the
/// Unicode case tables).
pub uninterp spec fn unicode_lowercase(s: Seq<char>) -> Seq<char>;

/// The lookup key of a theme name: lower-cased, with spaces and underscores made hyphens.
pub open spec fn theme_key(name: Seq<char>) -> Seq<char> {
    unicode_lowercase(name).map_values(|c: char| if c == ' ' || c == '_' { '-' } else { c })
}

/// An ASCII character.
pub open spec fn is_ascii_char(c: char) -> bool {
    (c as u32) < 128
}

/// A text made of ASCII characters only.
pub open spec fn is_ascii_text(s: Seq<char>) -> bool {
    forall|i: int| 0 <= i < s.len() ==> is_ascii_char(#[trigger] s[i])
}

/// An ASCII upper-case letter made lower-case; every other character is kept.
pub open spec fn ascii_lower_char(c: char) -> char {
    if 65 <= (c as u32) <= 90 {
        ((c as u32) + 32) as char
    } else {
        c
    }
}

/// A space or underscore made a hyphen; every other character is kept.
pub open spec fn hyphen_char(c: char) -> char {
    if c == ' ' || c == '_' {
        '-'
    } else {
        c
    }
}

/// The lookup key of an ASCII name: `A`-`Z` lower-cased, spaces and underscores hyphens.
pub open spec fn ascii_key(name: Seq<char>) -> Seq<char> {
    name.map_values(|c: char| hyphen_char(ascii_lower_char(c)))
}

/// `str::to_lowercase`. The result is named `unicode_lowercase` of the argument. Of ASCII
/// text, Unicode lower-casing maps `A`-`Z` to `a`-`z` and keeps every other character, one
/// for one; nothing more is stated.
#[verifier::external_body]
fn to_lowercase(s: &str) -> (r: String)
    ensures
        r@ == unicode_lowercase(s@),
        is_ascii_text(s@) ==> r@ == s@.map_values(|c: char| ascii_lower_char(c)),
{
    s.to_lowercase()
}

fn mk(
    pi_agent: &'static str,
    zed: &'static str,
    tmux_flavour: Option<&'static str>,
    ghostty_bg: &'static str,
    opencode: &'static str,
) -> (m: ToolThemeMapping)
    ensures
        m == (ToolThemeMapping { pi_agent, zed, tmux_flavour, ghostty_bg, opencode }),
{
    ToolThemeMapping { pi_agent, zed, tmux_flavour, ghostty_bg, opencode }
}

fn row_of(key: &Vec<char>) -> (r: Option<usize>)
    ensures
        match theme_row(key@) {
            Some(row) => r == Some(row as usize),
            None => r is None,
        },
{
    if eq_str(key, "catppuccin") {
        Some(0)
    } else if eq_str(key, "catppuccin-macchiato") || eq_str(key, "macchiato") {
        Some(1)
    } else if eq_str(key, "catppuccin-mocha") {
        Some(2)
    } else if eq_str(key, "catppuccin-latte") || eq_str(key, "latte") || eq_str(key, "light") {
        Some(3)
    } else if eq_str(key, "tokyo-night") || eq_str(key, "tokyonight") {
        Some(4)
    } else if eq_str(key, "tokyo-night-day") || eq_str(key, "tokyo-day") || eq_str(
        key,
        "tokyonight-day",
    ) {
        Some(5)
    } else if eq_str(key, "dracula") {
        Some(6)
    } else if eq_str(key, "nord") {
        Some(7)
    } else if eq_str(key, "gruvbox") || eq_str(key, "gruvbox-dark") {
        Some(8)
    } else if eq_str(key, "gruvbox-light") {
        Some(9)
    } else if eq_str(key, "one-dark") || eq_str(key, "onedark") {
        Some(10)
    } else if eq_str(key, "one-light") || eq_str(key, "onelight") {
        Some(11)
    } else if eq_str(key, "solarized") || eq_str(key, "solarized-dark") {
        Some(12)
    } else if eq_str(key, "solarized-light") {
        Some(13)
    } else if eq_str(key, "kanagawa") {
        Some(14)
    } else if eq_str(key, "kanagawa-lotus") || eq_str(key, "lotus") {
        Some(15)
    } else if eq_str(key, "rose-pine") || eq_str(key, "rosepine") {
        Some(16)
    } else if eq_str(key, "rose-pine-dawn") || eq_str(key, "rosepine-dawn") || eq_str(key, "dawn") {
        Some(17)
    } else if eq_str(key, "vesper") {
        Some(18)
    } else {
        None
    }
}

fn row_entry(row: usize) -> (m: ToolThemeMapping)
    requires
        row <= 18,
    ensures
        m@ == row_mapping(row as int),
{
    if row == 0 {
        mk(
            "catppuccin-macchiato",
            "Catppuccin Mocha",
            Some("macchiato"),
            "#1e1e2e",
            "catppuccin-macchiato",
        )
    } else if row == 1 {
        mk(
            "catppuccin-macchiato",
            "Catppuccin Mocha",
            Some("macchiato"),
            "#24273a",
            "catppuccin-macchiato",
        )
    } else if row == 2 {
        mk(
            "catppuccin-macchiato",
            "Catppuccin Mocha",
            Some("macchiato"),
            "#1e1e2e",
            "catppuccin-macchiato",
        )
    } else if row == 3 {
        mk("catppuccin-latte", "Catppuccin Latte", Some("latte"), "#eff1f5", "catppuccin-latte")
    } else if row == 4 {
        mk("tokyo-night", "Tokyo Night", None, "#1a1b26", "tokyo-night")
    } else if row == 5 {
        mk("tokyo-night", "Tokyo Night Day", None, "#e1e2e7", "tokyo-night-day")
    } else if row == 6 {
        mk("dracula", "Dracula", None, "#282a36", "dracula")
    } else if row == 7 {
        mk("nord", "Nord", None, "#2e3440", "nord")
    } else if row == 8 {
        mk("gruvbox", "Gruvbox", None, "#282828", "gruvbox")
    } else if row == 9 {
        mk("gruvbox-light", "Gruvbox Light", None, "#fbf1c7", "gruvbox-light")
    } else if row == 10 {
        mk("one-dark", "One Dark", None, "#282c34", "one-dark")
    } else if row == 11 {
        mk("one-light", "One Light", None, "#fafafa", "one-light")
    } else if row == 12 {
        mk("solarized", "Solarized Dark", None, "#002b36", "solarized")
    } else if row == 13 {
        mk("solarized-light", "Solarized Light", None, "#fdf6e3", "solarized-light")
    } else if row == 14 {
        mk("kanagawa", "Kanagawa", None, "#1f1f28", "kanagawa")
    } else if row == 15 {
        mk("kanagawa-lotus", "Kanagawa Lotus", None, "#f4edd9", "kanagawa-lotus")
    } else if row == 16 {
        mk("rose-pine", "Ros\u{e9} Pine", None, "#191724", "rose-pine")
    } else if row == 17 {
        mk("rose-pine", "Ros\u{e9} Pine Dawn", None, "#faf4ed", "rose-pine-dawn")
    } else {
        mk("vesper", "Vesper", None, "#101010", "vesper")
    }
}

/// The mapping for an already normalised theme key.
pub fn mapping_for_key(key: &str) -> (r: Option<ToolThemeMapping>)
    ensures
        match key_mapping(key@) {
            Some(m) => r matches Some(x) && x@ == m,
            None => r is None,
        },
{
    let kv = chars_of(key);
    match row_of(&kv) {
        Some(row) => Some(row_entry(row)),
        None => None,
    }
}

/// Hyphens for spaces and underscores.
fn hyphenate(s: &Vec<char>) -> (r: Vec<char>)
    ensures
        r@ == s@.map_values(|c: char| if c == ' ' || c == '_' { '-' } else { c }),
{
    let mut r: Vec<char> = Vec::new();
    let mut i: usize = 0;
    while i < s.len()
        invariant
            i <= s.len(),
            r@ == s@.take(i as int).map_values(
                |c: char| if c == ' ' || c == '_' { '-' } else { c },
            ),
        decreases s.len() - i,
    {
        let c = s[i];
        r.push(if c == ' ' || c == '_' { '-' } else { c });
        assert(s@.take(i + 1).map_values(|c: char| if c == ' ' || c == '_' { '-' } else { c })
            =~= s@.take(i as int).map_values(
            |c: char| if c == ' ' || c == '_' { '-' } else { c },
        ).push(if c == ' ' || c == '_' { '-' } else { c }));
        i = i + 1;
    }
    assert(s@.take(s@.len() as int) =~= s@);
    r
}

/// The lookup key of a theme name: lower-cased, spaces and underscores as hyphens.
pub fn normalize_theme_key(name: &str) -> (r: String)
    ensures
        r@ == theme_key(name@),
        is_ascii_text(name@) ==> r@ == ascii_key(name@),
{
    let lower = to_lowercase(name);
    let lv = chars_of(lower.as_str());
    let hv = hyphenate(&lv);
    proof {
        if is_ascii_text(name@) {
            assert(hv@ =~= ascii_key(name@));
        }
    }
    crate::text::string_of(&hv)
}

/// The per-tool theme names for a herdr theme name, if the theme has a mapping.
pub fn resolve_tool_mapping(herdr_name: &str) -> (r: Option<ToolThemeMapping>)
    ensures
        match key_mapping(theme_key(herdr_name@)) {
            Some(m) => r matches Some(x) && x@ == m,
            None => r is None,
        },
        is_ascii_text(herdr_name@) ==> theme_key(herdr_name@) == ascii_key(herdr_name@),
{
    let key = normalize_theme_key(herdr_name);
    mapping_for_key(key.as_str())
}

/// Law: an ASCII theme name and its lookup key resolve alike. The key of an ASCII name is
/// ASCII, and is its own key; so, by `resolve_tool_mapping`'s contract, `Tokyo Night`,
/// `tokyo_night` and `tokyo-night` get the same mapping.
pub proof fn lemma_theme_key_normalised(name: Seq<char>)
    requires
        is_ascii_text(name),
    ensures
        is_ascii_text(ascii_key(name)),
        ascii_key(ascii_key(name)) == ascii_key(name),
        key_mapping(ascii_key(ascii_key(name))) == key_mapping(ascii_key(name)),
{
    let k = ascii_key(name);
    assert forall|i: int| 0 <= i < k.len() implies is_ascii_char(#[trigger] k[i]) by {
        assert(is_ascii_char(name[i]));
    }
    assert forall|i: int| 0 <= i < k.len() implies #[trigger] ascii_key(k)[i] == k[i] by {
        assert(is_ascii_char(name[i]));
    }
    assert(ascii_key(k) =~= k);
}

} // verus!
