//! The colour scheme file that neovim loads as `herdr-sync`: a Lua script that sets each
//! highlight group from herdr's palette.
use vstd::prelude::*;

use crate::palette::{color_hex, color_to_hex, Color, Palette};
use crate::text::{chars_of, string_of};

verus! {

/// A highlight call with one colour attribute.
pub open spec fn hl1(name: Seq<char>, k: Seq<char>, h: Seq<char>) -> Seq<char> {
    "h(0, \""@ + name + "\", { "@ + k + " = \""@ + h + "\" })\n"@
}

/// A highlight call with two colour attributes.
pub open spec fn hl2(name: Seq<char>, k1: Seq<char>, h1: Seq<char>, k2: Seq<char>, h2: Seq<char>) -> Seq<char> {
    "h(0, \""@ + name + "\", { "@ + k1 + " = \""@ + h1 + "\", "@ + k2 + " = \""@ + h2
        + "\" })\n"@
}

/// A highlight call with a colour attribute followed by a flag.
pub open spec fn hl_tail(name: Seq<char>, k: Seq<char>, h: Seq<char>, flag: Seq<char>) -> Seq<char> {
    "h(0, \""@ + name + "\", { "@ + k + " = \""@ + h + "\", "@ + flag + " })\n"@
}

/// A highlight call with a flag followed by a colour attribute.
pub open spec fn hl_lead(name: Seq<char>, flag: Seq<char>, k: Seq<char>, h: Seq<char>) -> Seq<char> {
    "h(0, \""@ + name + "\", { "@ + flag + ", "@ + k + " = \""@ + h + "\" })\n"@
}

/// Appends a string slice.
fn put(out: &mut Vec<char>, s: &str)
    ensures
        final(out)@ == old(out)@ + s@,
{
    let mut v = chars_of(s);
    out.append(&mut v);
}

/// Appends a colour's hexadecimal form.
fn put_color(out: &mut Vec<char>, c: &Color)
    ensures
        final(out)@ == old(out)@ + color_hex(*c),
{
    let h = color_to_hex(c);
    put(out, h.as_str());
}

fn push_hl1(out: &mut Vec<char>, name: &str, k: &str, c: &Color)
    ensures
        final(out)@ == old(out)@ + hl1(name@, k@, color_hex(*c)),
{
    let ghost start = out@;
    put(out, "h(0, \"");
    put(out, name);
    put(out, "\", { ");
    put(out, k);
    put(out, " = \"");
    put_color(out, c);
    put(out, "\" })\n");
    assert(out@ =~= start + hl1(name@, k@, color_hex(*c)));
}

fn push_hl2(out: &mut Vec<char>, name: &str, k1: &str, c1: &Color, k2: &str, c2: &Color)
    ensures
        final(out)@ == old(out)@ + hl2(name@, k1@, color_hex(*c1), k2@, color_hex(*c2)),
{
    let ghost start = out@;
    put(out, "h(0, \"");
    put(out, name);
    put(out, "\", { ");
    put(out, k1);
    put(out, " = \"");
    put_color(out, c1);
    put(out, "\", ");
    put(out, k2);
    put(out, " = \"");
    put_color(out, c2);
    put(out, "\" })\n");
    assert(out@ =~= start + hl2(name@, k1@, color_hex(*c1), k2@, color_hex(*c2)));
}

fn push_hl_tail(out: &mut Vec<char>, name: &str, k: &str, c: &Color, flag: &str)
    ensures
        final(out)@ == old(out)@ + hl_tail(name@, k@, color_hex(*c), flag@),
{
    let ghost start = out@;
    put(out, "h(0, \"");
    put(out, name);
    put(out, "\", { ");
    put(out, k);
    put(out, " = \"");
    put_color(out, c);
    put(out, "\", ");
    put(out, flag);
    put(out, " })\n");
    assert(out@ =~= start + hl_tail(name@, k@, color_hex(*c), flag@));
}

fn push_hl_lead(out: &mut Vec<char>, name: &str, flag: &str, k: &str, c: &Color)
    ensures
        final(out)@ == old(out)@ + hl_lead(name@, flag@, k@, color_hex(*c)),
{
    let ghost start = out@;
    put(out, "h(0, \"");
    put(out, name);
    put(out, "\", { ");
    put(out, flag);
    put(out, ", ");
    put(out, k);
    put(out, " = \"");
    put_color(out, c);
    put(out, "\" })\n");
    assert(out@ =~= start + hl_lead(name@, flag@, k@, color_hex(*c)));
}

/// The opening of the file: its header comment, the scheme name and the `h` alias.
pub open spec fn nvim_preamble() -> Seq<char> {
    "-- Generated by `herdr theme apply` \u{2014} do not edit manually\nvim.g.colors_name = \"herdr-sync\"\n\nlocal h = vim.api.nvim_set_hl\n\n"@
}

fn nvim_preamble_exec() -> (r: Vec<char>)
    ensures
        r@ == nvim_preamble(),
{
    let mut out = chars_of("-- Generated by `herdr theme apply` \u{2014} do not edit manually\nvim.g.colors_name = \"herdr-sync\"\n\nlocal h = vim.api.nvim_set_hl\n\n");
    out
}

/// The "Normal / background" block of the file.
pub open spec fn nvim_editor(p: Palette) -> Seq<char> {
    "-- Normal / background\n"@
        + hl2("Normal"@, "fg"@, color_hex(p.text), "bg"@, color_hex(p.panel_bg))
        + hl2("NormalFloat"@, "fg"@, color_hex(p.text), "bg"@, color_hex(p.panel_bg))
        + hl1("CursorLine"@, "bg"@, color_hex(p.surface0))
        + hl1("CursorLineNr"@, "fg"@, color_hex(p.overlay1))
        + hl1("LineNr"@, "fg"@, color_hex(p.overlay0))
        + hl1("Visual"@, "bg"@, color_hex(p.surface1))
        + hl1("VisualNOS"@, "bg"@, color_hex(p.surface1))
        + hl2("Search"@, "bg"@, color_hex(p.surface1), "fg"@, color_hex(p.text))
        + hl2("IncSearch"@, "bg"@, color_hex(p.accent), "fg"@, color_hex(p.surface_dim))
        + hl2("CurSearch"@, "bg"@, color_hex(p.accent), "fg"@, color_hex(p.surface_dim))
        + hl2("StatusLine"@, "fg"@, color_hex(p.text), "bg"@, color_hex(p.active_space_bg))
        + hl2("StatusLineNC"@, "fg"@, color_hex(p.overlay0), "bg"@, color_hex(p.surface_dim))
        + hl1("WinSeparator"@, "fg"@, color_hex(p.separator))
        + hl2("TabLine"@, "fg"@, color_hex(p.overlay0), "bg"@, color_hex(p.surface_dim))
        + hl2("TabLineSel"@, "fg"@, color_hex(p.text), "bg"@, color_hex(p.surface0))
        + hl1("TabLineFill"@, "bg"@, color_hex(p.surface_dim))
        + hl2("Pmenu"@, "fg"@, color_hex(p.text), "bg"@, color_hex(p.surface0))
        + hl2("PmenuSel"@, "bg"@, color_hex(p.surface1), "fg"@, color_hex(p.text))
        + hl1("PmenuSbar"@, "bg"@, color_hex(p.surface_dim))
        + hl1("PmenuThumb"@, "bg"@, color_hex(p.separator))
        + hl1("FloatBorder"@, "fg"@, color_hex(p.separator))
        + hl1("FloatTitle"@, "fg"@, color_hex(p.accent))
        + hl1("SignColumn"@, "bg"@, color_hex(p.panel_bg))
        + hl2("Folded"@, "fg"@, color_hex(p.overlay0), "bg"@, color_hex(p.surface_dim))
        + hl2("FoldColumn"@, "fg"@, color_hex(p.overlay0), "bg"@, color_hex(p.panel_bg))
        + hl2("Cursor"@, "fg"@, color_hex(p.panel_bg), "bg"@, color_hex(p.text))
        + hl2("lCursor"@, "fg"@, color_hex(p.panel_bg), "bg"@, color_hex(p.text))
        + hl2("MatchParen"@, "bg"@, color_hex(p.surface1), "fg"@, color_hex(p.accent))
        + hl1("ColorColumn"@, "bg"@, color_hex(p.surface0))
        + hl1("Conceal"@, "fg"@, color_hex(p.overlay0))
        + hl1("Directory"@, "fg"@, color_hex(p.blue))
        + hl1("SpecialKey"@, "fg"@, color_hex(p.peach))
        + hl1("NonText"@, "fg"@, color_hex(p.overlay0))
        + hl1("EndOfBuffer"@, "fg"@, color_hex(p.overlay0))
        + hl_tail("Title"@, "fg"@, color_hex(p.accent), "bold = true"@)
        + hl1("Whitespace"@, "fg"@, color_hex(p.overlay0))
        + "\n"@
}

fn nvim_editor_exec(p: &Palette) -> (r: Vec<char>)
    ensures
        r@ == nvim_editor(*p),
{
    let mut out = chars_of("-- Normal / background\n");
    push_hl2(&mut out, "Normal", "fg", &p.text, "bg", &p.panel_bg);
    push_hl2(&mut out, "NormalFloat", "fg", &p.text, "bg", &p.panel_bg);
    push_hl1(&mut out, "CursorLine", "bg", &p.surface0);
    push_hl1(&mut out, "CursorLineNr", "fg", &p.overlay1);
    push_hl1(&mut out, "LineNr", "fg", &p.overlay0);
    push_hl1(&mut out, "Visual", "bg", &p.surface1);
    push_hl1(&mut out, "VisualNOS", "bg", &p.surface1);
    push_hl2(&mut out, "Search", "bg", &p.surface1, "fg", &p.text);
    push_hl2(&mut out, "IncSearch", "bg", &p.accent, "fg", &p.surface_dim);
    push_hl2(&mut out, "CurSearch", "bg", &p.accent, "fg", &p.surface_dim);
    push_hl2(&mut out, "StatusLine", "fg", &p.text, "bg", &p.active_space_bg);
    push_hl2(&mut out, "StatusLineNC", "fg", &p.overlay0, "bg", &p.surface_dim);
    push_hl1(&mut out, "WinSeparator", "fg", &p.separator);
    push_hl2(&mut out, "TabLine", "fg", &p.overlay0, "bg", &p.surface_dim);
    push_hl2(&mut out, "TabLineSel", "fg", &p.text, "bg", &p.surface0);
    push_hl1(&mut out, "TabLineFill", "bg", &p.surface_dim);
    push_hl2(&mut out, "Pmenu", "fg", &p.text, "bg", &p.surface0);
    push_hl2(&mut out, "PmenuSel", "bg", &p.surface1, "fg", &p.text);
    push_hl1(&mut out, "PmenuSbar", "bg", &p.surface_dim);
    push_hl1(&mut out, "PmenuThumb", "bg", &p.separator);
    push_hl1(&mut out, "FloatBorder", "fg", &p.separator);
    push_hl1(&mut out, "FloatTitle", "fg", &p.accent);
    push_hl1(&mut out, "SignColumn", "bg", &p.panel_bg);
    push_hl2(&mut out, "Folded", "fg", &p.overlay0, "bg", &p.surface_dim);
    push_hl2(&mut out, "FoldColumn", "fg", &p.overlay0, "bg", &p.panel_bg);
    push_hl2(&mut out, "Cursor", "fg", &p.panel_bg, "bg", &p.text);
    push_hl2(&mut out, "lCursor", "fg", &p.panel_bg, "bg", &p.text);
    push_hl2(&mut out, "MatchParen", "bg", &p.surface1, "fg", &p.accent);
    push_hl1(&mut out, "ColorColumn", "bg", &p.surface0);
    push_hl1(&mut out, "Conceal", "fg", &p.overlay0);
    push_hl1(&mut out, "Directory", "fg", &p.blue);
    push_hl1(&mut out, "SpecialKey", "fg", &p.peach);
    push_hl1(&mut out, "NonText", "fg", &p.overlay0);
    push_hl1(&mut out, "EndOfBuffer", "fg", &p.overlay0);
    push_hl_tail(&mut out, "Title", "fg", &p.accent, "bold = true");
    push_hl1(&mut out, "Whitespace", "fg", &p.overlay0);
    put(&mut out, "\n");
    out
}

/// The "Syntax groups" block of the file.
pub open spec fn nvim_syntax(p: Palette) -> Seq<char> {
    "-- Syntax groups\n"@
        + hl_tail("Comment"@, "fg"@, color_hex(p.overlay0), "italic = true"@)
        + hl1("Constant"@, "fg"@, color_hex(p.peach))
        + hl1("String"@, "fg"@, color_hex(p.green))
        + hl1("Character"@, "fg"@, color_hex(p.green))
        + hl1("Number"@, "fg"@, color_hex(p.peach))
        + hl1("Boolean"@, "fg"@, color_hex(p.peach))
        + hl1("Float"@, "fg"@, color_hex(p.peach))
        + hl1("Identifier"@, "fg"@, color_hex(p.blue))
        + hl1("Function"@, "fg"@, color_hex(p.blue))
        + hl1("Statement"@, "fg"@, color_hex(p.mauve))
        + hl1("Conditional"@, "fg"@, color_hex(p.mauve))
        + hl1("Repeat"@, "fg"@, color_hex(p.mauve))
        + hl1("Label"@, "fg"@, color_hex(p.mauve))
        + hl1("Operator"@, "fg"@, color_hex(p.teal))
        + hl1("Keyword"@, "fg"@, color_hex(p.mauve))
        + hl1("Exception"@, "fg"@, color_hex(p.mauve))
        + hl1("PreProc"@, "fg"@, color_hex(p.yellow))
        + hl1("Include"@, "fg"@, color_hex(p.blue))
        + hl1("Define"@, "fg"@, color_hex(p.yellow))
        + hl1("Macro"@, "fg"@, color_hex(p.yellow))
        + hl1("Type"@, "fg"@, color_hex(p.teal))
        + hl1("StorageClass"@, "fg"@, color_hex(p.yellow))
        + hl1("Structure"@, "fg"@, color_hex(p.teal))
        + hl1("Typedef"@, "fg"@, color_hex(p.teal))
        + hl1("Special"@, "fg"@, color_hex(p.mauve))
        + hl_tail("Underlined"@, "fg"@, color_hex(p.blue), "underline = true"@)
        + hl2("Error"@, "fg"@, color_hex(p.red), "bg"@, color_hex(p.panel_bg))
        + hl2("Todo"@, "fg"@, color_hex(p.yellow), "bg"@, color_hex(p.surface_dim))
        + "\n"@
}

fn nvim_syntax_exec(p: &Palette) -> (r: Vec<char>)
    ensures
        r@ == nvim_syntax(*p),
{
    let mut out = chars_of("-- Syntax groups\n");
    push_hl_tail(&mut out, "Comment", "fg", &p.overlay0, "italic = true");
    push_hl1(&mut out, "Constant", "fg", &p.peach);
    push_hl1(&mut out, "String", "fg", &p.green);
    push_hl1(&mut out, "Character", "fg", &p.green);
    push_hl1(&mut out, "Number", "fg", &p.peach);
    push_hl1(&mut out, "Boolean", "fg", &p.peach);
    push_hl1(&mut out, "Float", "fg", &p.peach);
    push_hl1(&mut out, "Identifier", "fg", &p.blue);
    push_hl1(&mut out, "Function", "fg", &p.blue);
    push_hl1(&mut out, "Statement", "fg", &p.mauve);
    push_hl1(&mut out, "Conditional", "fg", &p.mauve);
    push_hl1(&mut out, "Repeat", "fg", &p.mauve);
    push_hl1(&mut out, "Label", "fg", &p.mauve);
    push_hl1(&mut out, "Operator", "fg", &p.teal);
    push_hl1(&mut out, "Keyword", "fg", &p.mauve);
    push_hl1(&mut out, "Exception", "fg", &p.mauve);
    push_hl1(&mut out, "PreProc", "fg", &p.yellow);
    push_hl1(&mut out, "Include", "fg", &p.blue);
    push_hl1(&mut out, "Define", "fg", &p.yellow);
    push_hl1(&mut out, "Macro", "fg", &p.yellow);
    push_hl1(&mut out, "Type", "fg", &p.teal);
    push_hl1(&mut out, "StorageClass", "fg", &p.yellow);
    push_hl1(&mut out, "Structure", "fg", &p.teal);
    push_hl1(&mut out, "Typedef", "fg", &p.teal);
    push_hl1(&mut out, "Special", "fg", &p.mauve);
    push_hl_tail(&mut out, "Underlined", "fg", &p.blue, "underline = true");
    push_hl2(&mut out, "Error", "fg", &p.red, "bg", &p.panel_bg);
    push_hl2(&mut out, "Todo", "fg", &p.yellow, "bg", &p.surface_dim);
    put(&mut out, "\n");
    out
}

/// The "Diagnostics" block of the file.
pub open spec fn nvim_diagnostics(p: Palette) -> Seq<char> {
    "-- Diagnostics\n"@
        + hl1("DiagnosticError"@, "fg"@, color_hex(p.red))
        + hl1("DiagnosticWarn"@, "fg"@, color_hex(p.yellow))
        + hl1("DiagnosticInfo"@, "fg"@, color_hex(p.blue))
        + hl1("DiagnosticHint"@, "fg"@, color_hex(p.teal))
        + hl_lead("DiagnosticUnderlineError"@, "undercurl = true"@, "sp"@, color_hex(p.red))
        + hl_lead("DiagnosticUnderlineWarn"@, "undercurl = true"@, "sp"@, color_hex(p.yellow))
        + hl_lead("DiagnosticUnderlineInfo"@, "undercurl = true"@, "sp"@, color_hex(p.blue))
        + hl_lead("DiagnosticUnderlineHint"@, "undercurl = true"@, "sp"@, color_hex(p.teal))
        + "\n"@
}

fn nvim_diagnostics_exec(p: &Palette) -> (r: Vec<char>)
    ensures
        r@ == nvim_diagnostics(*p),
{
    let mut out = chars_of("-- Diagnostics\n");
    push_hl1(&mut out, "DiagnosticError", "fg", &p.red);
    push_hl1(&mut out, "DiagnosticWarn", "fg", &p.yellow);
    push_hl1(&mut out, "DiagnosticInfo", "fg", &p.blue);
    push_hl1(&mut out, "DiagnosticHint", "fg", &p.teal);
    push_hl_lead(&mut out, "DiagnosticUnderlineError", "undercurl = true", "sp", &p.red);
    push_hl_lead(&mut out, "DiagnosticUnderlineWarn", "undercurl = true", "sp", &p.yellow);
    push_hl_lead(&mut out, "DiagnosticUnderlineInfo", "undercurl = true", "sp", &p.blue);
    push_hl_lead(&mut out, "DiagnosticUnderlineHint", "undercurl = true", "sp", &p.teal);
    put(&mut out, "\n");
    out
}

/// The "Diff" block of the file.
pub open spec fn nvim_diff(p: Palette) -> Seq<char> {
    "-- Diff\n"@
        + hl2("DiffAdd"@, "fg"@, color_hex(p.green), "bg"@, color_hex(p.surface_dim))
        + hl2("DiffChange"@, "fg"@, color_hex(p.yellow), "bg"@, color_hex(p.surface_dim))
        + hl2("DiffDelete"@, "fg"@, color_hex(p.red), "bg"@, color_hex(p.surface_dim))
        + hl2("DiffText"@, "fg"@, color_hex(p.accent), "bg"@, color_hex(p.surface_dim))
        + "\n"@
}

fn nvim_diff_exec(p: &Palette) -> (r: Vec<char>)
    ensures
        r@ == nvim_diff(*p),
{
    let mut out = chars_of("-- Diff\n");
    push_hl2(&mut out, "DiffAdd", "fg", &p.green, "bg", &p.surface_dim);
    push_hl2(&mut out, "DiffChange", "fg", &p.yellow, "bg", &p.surface_dim);
    push_hl2(&mut out, "DiffDelete", "fg", &p.red, "bg", &p.surface_dim);
    push_hl2(&mut out, "DiffText", "fg", &p.accent, "bg", &p.surface_dim);
    put(&mut out, "\n");
    out
}

/// The "Spell" block of the file.
pub open spec fn nvim_spell(p: Palette) -> Seq<char> {
    "-- Spell\n"@
        + hl_lead("SpellBad"@, "undercurl = true"@, "sp"@, color_hex(p.red))
        + hl_lead("SpellCap"@, "undercurl = true"@, "sp"@, color_hex(p.yellow))
        + hl_lead("SpellLocal"@, "undercurl = true"@, "sp"@, color_hex(p.blue))
        + hl_lead("SpellRare"@, "undercurl = true"@, "sp"@, color_hex(p.mauve))
        + "\n"@
}

fn nvim_spell_exec(p: &Palette) -> (r: Vec<char>)
    ensures
        r@ == nvim_spell(*p),
{
    let mut out = chars_of("-- Spell\n");
    push_hl_lead(&mut out, "SpellBad", "undercurl = true", "sp", &p.red);
    push_hl_lead(&mut out, "SpellCap", "undercurl = true", "sp", &p.yellow);
    push_hl_lead(&mut out, "SpellLocal", "undercurl = true", "sp", &p.blue);
    push_hl_lead(&mut out, "SpellRare", "undercurl = true", "sp", &p.mauve);
    put(&mut out, "\n");
    out
}

/// The "LSP references" block of the file.
pub open spec fn nvim_lsp(p: Palette) -> Seq<char> {
    "-- LSP references\n"@
        + hl1("LspReferenceText"@, "bg"@, color_hex(p.surface1))
        + hl1("LspReferenceRead"@, "bg"@, color_hex(p.surface1))
        + hl1("LspReferenceWrite"@, "bg"@, color_hex(p.surface1))
}

fn nvim_lsp_exec(p: &Palette) -> (r: Vec<char>)
    ensures
        r@ == nvim_lsp(*p),
{
    let mut out = chars_of("-- LSP references\n");
    push_hl1(&mut out, "LspReferenceText", "bg", &p.surface1);
    push_hl1(&mut out, "LspReferenceRead", "bg", &p.surface1);
    push_hl1(&mut out, "LspReferenceWrite", "bg", &p.surface1);
    out
}

/// The whole colour scheme file for a palette.
#[verifier::opaque]
pub open spec fn neovim_sync_text(p: Palette) -> Seq<char> {
    nvim_preamble() + nvim_editor(p) + nvim_syntax(p) + nvim_diagnostics(p) + nvim_diff(p)
        + nvim_spell(p) + nvim_lsp(p)
}

/// The `herdr-sync` colour scheme for a palette: the text of `lua/herdr-sync.lua`.
pub fn neovim_sync_lua(pal: &Palette) -> (r: String)
    ensures
        r@ == neovim_sync_text(*pal),
{
    reveal(neovim_sync_text);
    let mut all = nvim_preamble_exec();
    let mut part = nvim_editor_exec(pal);
    all.append(&mut part);
    let mut part = nvim_syntax_exec(pal);
    all.append(&mut part);
    let mut part = nvim_diagnostics_exec(pal);
    all.append(&mut part);
    let mut part = nvim_diff_exec(pal);
    all.append(&mut part);
    let mut part = nvim_spell_exec(pal);
    all.append(&mut part);
    let mut part = nvim_lsp_exec(pal);
    all.append(&mut part);
    string_of(&all)
}

} // verus!
