//! Terminal colours, herdr's palette, and the colour tables generated for other tools.
use vstd::prelude::*;

use crate::text::string_of;

verus! {

/// A terminal colour: a named colour of the 16-colour set, an indexed colour, an RGB colour,
/// or the terminal's default.
#[derive(Clone, Copy, PartialEq, Eq, Structural, Debug)]
pub enum Color {
    Reset,
    Black,
    Red,
    Green,
    Yellow,
    Blue,
    Magenta,
    Cyan,
    Gray,
    DarkGray,
    LightRed,
    LightGreen,
    LightYellow,
    LightBlue,
    LightMagenta,
    LightCyan,
    White,
    Rgb(u8, u8, u8),
    Indexed(u8),
}

/// Lower-case hexadecimal digit of `d < 16`.
pub open spec fn hex_digit(d: int) -> char {
    if d < 10 {
        ((d + 48) as u8) as char
    } else {
        ((d + 87) as u8) as char
    }
}

/// `{:02x}`: two lower-case hexadecimal digits of a byte.
pub open spec fn hex2(b: u8) -> Seq<char> {
    seq![hex_digit(b as int / 16), hex_digit(b as int % 16)]
}

/// The hex form of a colour: `#rrggbb` for RGB, the index repeated for indexed colours,
/// fixed values for the named colours and `default` for the terminal default.
pub open spec fn color_hex(c: Color) -> Seq<char> {
    match c {
        Color::Rgb(r, g, b) => seq!['#'] + hex2(r) + hex2(g) + hex2(b),
        Color::Reset => "default"@,
        Color::Black => "#000000"@,
        Color::Red => "#ff0000"@,
        Color::Green => "#00ff00"@,
        Color::Yellow => "#ffff00"@,
        Color::Blue => "#0000ff"@,
        Color::Magenta => "#ff00ff"@,
        Color::Cyan => "#00ffff"@,
        Color::Gray => "#808080"@,
        Color::DarkGray => "#404040"@,
        Color::LightRed => "#ff8080"@,
        Color::LightGreen => "#80ff80"@,
        Color::LightYellow => "#ffff80"@,
        Color::LightBlue => "#8080ff"@,
        Color::LightMagenta => "#ff80ff"@,
        Color::LightCyan => "#80ffff"@,
        Color::White => "#ffffff"@,
        Color::Indexed(i) => seq!['#'] + hex2(i) + hex2(i) + hex2(i),
    }
}

/// A lower-case hexadecimal digit.
pub open spec fn is_hex_char(c: char) -> bool {
    (48 <= c as u32 <= 57) || (97 <= c as u32 <= 102)
}

/// `#` and six lower-case hexadecimal digits.
pub open spec fn is_hex_color(s: Seq<char>) -> bool {
    &&& s.len() == 7
    &&& s[0] == '#'
    &&& forall|i: int| 1 <= i < 7 ==> is_hex_char(#[trigger] s[i])
}

proof fn lemma_hex2(b: u8)
    ensures
        hex2(b).len() == 2,
        is_hex_char(hex2(b)[0]),
        is_hex_char(hex2(b)[1]),
{
    let hi = b as int / 16;
    let lo = b as int % 16;
    assert(0 <= hi < 16 && 0 <= lo < 16);
}

/// Law: every colour but the terminal default has the form `#rrggbb`, in lower-case
/// hexadecimal; the default is `default`.
pub proof fn lemma_color_hex_form(c: Color)
    ensures
        c == Color::Reset ==> color_hex(c) == "default"@,
        c != Color::Reset ==> is_hex_color(color_hex(c)),
{
    match c {
        Color::Rgb(r, g, b) => {
            lemma_hex2(r);
            lemma_hex2(g);
            lemma_hex2(b);
            let s = color_hex(c);
            assert(s[1] == hex2(r)[0] && s[2] == hex2(r)[1]);
            assert(s[3] == hex2(g)[0] && s[4] == hex2(g)[1]);
            assert(s[5] == hex2(b)[0] && s[6] == hex2(b)[1]);
        },
        Color::Indexed(i) => {
            lemma_hex2(i);
            let s = color_hex(c);
            assert(s[1] == hex2(i)[0] && s[2] == hex2(i)[1]);
            assert(s[3] == hex2(i)[0] && s[4] == hex2(i)[1]);
            assert(s[5] == hex2(i)[0] && s[6] == hex2(i)[1]);
        },
        Color::Reset => {},
        Color::Black => { reveal_strlit("#000000"); },
        Color::Red => { reveal_strlit("#ff0000"); },
        Color::Green => { reveal_strlit("#00ff00"); },
        Color::Yellow => { reveal_strlit("#ffff00"); },
        Color::Blue => { reveal_strlit("#0000ff"); },
        Color::Magenta => { reveal_strlit("#ff00ff"); },
        Color::Cyan => { reveal_strlit("#00ffff"); },
        Color::Gray => { reveal_strlit("#808080"); },
        Color::DarkGray => { reveal_strlit("#404040"); },
        Color::LightRed => { reveal_strlit("#ff8080"); },
        Color::LightGreen => { reveal_strlit("#80ff80"); },
        Color::LightYellow => { reveal_strlit("#ffff80"); },
        Color::LightBlue => { reveal_strlit("#8080ff"); },
        Color::LightMagenta => { reveal_strlit("#ff80ff"); },
        Color::LightCyan => { reveal_strlit("#80ffff"); },
        Color::White => { reveal_strlit("#ffffff"); },
    }
}

fn hex_digit_exec(d: u8) -> (c: char)
    requires
        d < 16,
    ensures
        c == hex_digit(d as int),
{
    if d < 10 {
        (d + 48) as char
    } else {
        (d + 87) as char
    }
}

fn push_hex2(out: &mut Vec<char>, b: u8)
    ensures
        final(out)@ == old(out)@ + hex2(b),
{
    let hi = hex_digit_exec(b / 16);
    let lo = hex_digit_exec(b % 16);
    out.push(hi);
    out.push(lo);
}

fn hex_rgb(r: u8, g: u8, b: u8) -> (s: String)
    ensures
        s@ == seq!['#'] + hex2(r) + hex2(g) + hex2(b),
{
    let mut out: Vec<char> = Vec::new();
    out.push('#');
    push_hex2(&mut out, r);
    push_hex2(&mut out, g);
    push_hex2(&mut out, b);
    assert(out@ =~= seq!['#'] + hex2(r) + hex2(g) + hex2(b));
    string_of(&out)
}

/// The hex string of a colour, as written into the generated theme files.
pub fn color_to_hex(color: &Color) -> (s: String)
    ensures
        s@ == color_hex(*color),
{
    match color {
        Color::Rgb(r, g, b) => hex_rgb(*r, *g, *b),
        Color::Reset => String::from_str("default"),
        Color::Black => String::from_str("#000000"),
        Color::Red => String::from_str("#ff0000"),
        Color::Green => String::from_str("#00ff00"),
        Color::Yellow => String::from_str("#ffff00"),
        Color::Blue => String::from_str("#0000ff"),
        Color::Magenta => String::from_str("#ff00ff"),
        Color::Cyan => String::from_str("#00ffff"),
        Color::Gray => String::from_str("#808080"),
        Color::DarkGray => String::from_str("#404040"),
        Color::LightRed => String::from_str("#ff8080"),
        Color::LightGreen => String::from_str("#80ff80"),
        Color::LightYellow => String::from_str("#ffff80"),
        Color::LightBlue => String::from_str("#8080ff"),
        Color::LightMagenta => String::from_str("#ff80ff"),
        Color::LightCyan => String::from_str("#80ffff"),
        Color::White => String::from_str("#ffffff"),
        Color::Indexed(i) => hex_rgb(*i, *i, *i),
    }
}


/// herdr's palette: the colours the generated themes are made from.
#[derive(Clone, Copy, PartialEq, Eq, Structural, Debug)]
pub struct Palette {
    pub text: Color,
    pub subtext0: Color,
    pub overlay0: Color,
    pub overlay1: Color,
    pub surface0: Color,
    pub surface1: Color,
    pub surface_dim: Color,
    pub separator: Color,
    pub panel_bg: Color,
    pub active_space_bg: Color,
    pub accent: Color,
    pub mauve: Color,
    pub green: Color,
    pub yellow: Color,
    pub red: Color,
    pub blue: Color,
    pub teal: Color,
    pub peach: Color,
}

/// Name and value of each entry of a colour table.
pub open spec fn entries_view(v: Seq<(&'static str, String)>) -> Seq<(Seq<char>, Seq<char>)> {
    v.map_values(|e: (&'static str, String)| (e.0@, e.1@))
}

/// Name and value of each entry of a table of names.
pub open spec fn names_view(v: Seq<(&'static str, &'static str)>) -> Seq<(Seq<char>, Seq<char>)> {
    v.map_values(|e: (&'static str, &'static str)| (e.0@, e.1@))
}

fn push_color(v: &mut Vec<(&'static str, String)>, name: &'static str, c: &Color)
    ensures
        entries_view(final(v)@) == entries_view(old(v)@).push((name@, color_hex(*c))),
{
    let ghost before = v@;
    v.push((name, color_to_hex(c)));
    assert(entries_view(v@) =~= entries_view(before).push((name@, color_hex(*c))));
}

fn push_name(v: &mut Vec<(&'static str, &'static str)>, name: &'static str, value: &'static str)
    ensures
        names_view(final(v)@) == names_view(old(v)@).push((name@, value@)),
{
    let ghost before = v@;
    v.push((name, value));
    assert(names_view(v@) =~= names_view(before).push((name@, value@)));
}

/// The Pi agent theme's colour variables, in the order they are set: herdr's colours under
/// Pi's names, with the colours herdr has no counterpart for approximated from nearby ones.
pub open spec fn pi_vars(p: Palette) -> Seq<(Seq<char>, Seq<char>)> {
    seq![
        ("text"@, color_hex(p.text)),
        ("subtext0"@, color_hex(p.subtext0)),
        ("overlay0"@, color_hex(p.overlay0)),
        ("overlay1"@, color_hex(p.overlay1)),
        ("surface0"@, color_hex(p.surface0)),
        ("surface1"@, color_hex(p.surface1)),
        ("mauve"@, color_hex(p.mauve)),
        ("green"@, color_hex(p.green)),
        ("yellow"@, color_hex(p.yellow)),
        ("red"@, color_hex(p.red)),
        ("blue"@, color_hex(p.blue)),
        ("teal"@, color_hex(p.teal)),
        ("peach"@, color_hex(p.peach)),
        ("surface2"@, color_hex(p.separator)),
        ("base"@, color_hex(p.panel_bg)),
        ("mantle"@, color_hex(p.active_space_bg)),
        ("crust"@, color_hex(p.surface_dim)),
        ("subtext1"@, color_hex(p.overlay1)),
        ("overlay2"@, color_hex(p.overlay0)),
        ("rosewater"@, color_hex(p.text)),
        ("flamingo"@, color_hex(p.peach)),
        ("pink"@, color_hex(p.mauve)),
        ("maroon"@, color_hex(p.red)),
        ("sky"@, color_hex(p.blue)),
        ("sapphire"@, color_hex(p.teal)),
        ("lavender"@, color_hex(p.accent)),
        ("toolErrorBg"@, color_hex(p.surface1)),
    ]
}

/// The colours the Pi agent theme exports.
pub open spec fn pi_export(p: Palette) -> Seq<(Seq<char>, Seq<char>)> {
    seq![
        ("pageBg"@, color_hex(p.active_space_bg)),
        ("cardBg"@, color_hex(p.panel_bg)),
        ("infoBg"@, color_hex(p.surface0)),
    ]
}

/// Part 1 of OpenCode's theme colours.
pub open spec fn opencode_props_1(p: Palette) -> Seq<(Seq<char>, Seq<char>)> {
    seq![
        ("primary"@, color_hex(p.accent)),
        ("secondary"@, color_hex(p.mauve)),
        ("accent"@, color_hex(p.accent)),
        ("error"@, color_hex(p.red)),
        ("warning"@, color_hex(p.yellow)),
        ("success"@, color_hex(p.green)),
        ("info"@, color_hex(p.teal)),
        ("text"@, color_hex(p.text)),
        ("textMuted"@, color_hex(p.overlay0)),
        ("selectedListItemText"@, color_hex(p.panel_bg)),
        ("background"@, color_hex(p.panel_bg)),
        ("backgroundPanel"@, color_hex(p.surface_dim)),
        ("backgroundElement"@, color_hex(p.surface0)),
    ]
}

/// Part 2 of OpenCode's theme colours.
pub open spec fn opencode_props_2(p: Palette) -> Seq<(Seq<char>, Seq<char>)> {
    seq![
        ("backgroundMenu"@, color_hex(p.surface0)),
        ("border"@, color_hex(p.separator)),
        ("borderActive"@, color_hex(p.accent)),
        ("borderSubtle"@, color_hex(p.surface0)),
        ("diffAdded"@, color_hex(p.green)),
        ("diffRemoved"@, color_hex(p.red)),
        ("diffContext"@, color_hex(p.overlay0)),
        ("diffHunkHeader"@, color_hex(p.overlay0)),
        ("diffHighlightAdded"@, color_hex(p.green)),
        ("diffHighlightRemoved"@, color_hex(p.red)),
        ("diffAddedBg"@, color_hex(p.surface_dim)),
        ("diffRemovedBg"@, color_hex(p.surface_dim)),
        ("diffContextBg"@, color_hex(p.surface_dim)),
    ]
}

/// Part 3 of OpenCode's theme colours.
pub open spec fn opencode_props_3(p: Palette) -> Seq<(Seq<char>, Seq<char>)> {
    seq![
        ("diffLineNumber"@, color_hex(p.overlay0)),
        ("diffAddedLineNumberBg"@, color_hex(p.surface0)),
        ("diffRemovedLineNumberBg"@, color_hex(p.surface0)),
        ("markdownText"@, color_hex(p.text)),
        ("markdownHeading"@, color_hex(p.accent)),
        ("markdownLink"@, color_hex(p.blue)),
        ("markdownLinkText"@, color_hex(p.teal)),
        ("markdownCode"@, color_hex(p.green)),
        ("markdownBlockQuote"@, color_hex(p.yellow)),
        ("markdownEmph"@, color_hex(p.peach)),
        ("markdownStrong"@, color_hex(p.text)),
        ("markdownHorizontalRule"@, color_hex(p.separator)),
        ("markdownListItem"@, color_hex(p.blue)),
    ]
}

/// Part 4 of OpenCode's theme colours.
pub open spec fn opencode_props_4(p: Palette) -> Seq<(Seq<char>, Seq<char>)> {
    seq![
        ("markdownListEnumeration"@, color_hex(p.accent)),
        ("markdownImage"@, color_hex(p.blue)),
        ("markdownImageText"@, color_hex(p.teal)),
        ("markdownCodeBlock"@, color_hex(p.text)),
        ("syntaxComment"@, color_hex(p.overlay0)),
        ("syntaxKeyword"@, color_hex(p.mauve)),
        ("syntaxFunction"@, color_hex(p.blue)),
        ("syntaxVariable"@, color_hex(p.text)),
        ("syntaxString"@, color_hex(p.green)),
        ("syntaxNumber"@, color_hex(p.peach)),
        ("syntaxType"@, color_hex(p.teal)),
        ("syntaxOperator"@, color_hex(p.teal)),
        ("syntaxPunctuation"@, color_hex(p.text)),
    ]
}

/// OpenCode's theme properties, in the order they are set: herdr's colours under OpenCode's
/// names, and the thinking opacity.
pub open spec fn opencode_props(p: Palette) -> Seq<(Seq<char>, Seq<char>)> {
    opencode_props_1(p) + opencode_props_2(p) + opencode_props_3(p) + opencode_props_4(p) + seq![("thinkingOpacity"@, "0.6"@)]
}

/// The Pi theme's colour roles and the variable each one takes.
pub open spec fn pi_colors() -> Seq<(Seq<char>, Seq<char>)> {
    seq![
        ("accent"@, "blue"@),
        ("border"@, "surface0"@),
        ("borderAccent"@, "surface1"@),
        ("borderMuted"@, "surface2"@),
        ("success"@, "green"@),
        ("error"@, "red"@),
        ("warning"@, "yellow"@),
        ("muted"@, "subtext1"@),
        ("dim"@, "overlay1"@),
        ("text"@, "text"@),
        ("thinkingText"@, "overlay2"@),
        ("selectedBg"@, "surface1"@),
        ("userMessageBg"@, "mantle"@),
        ("userMessageText"@, "text"@),
        ("customMessageBg"@, "crust"@),
        ("customMessageText"@, "text"@),
        ("customMessageLabel"@, "pink"@),
        ("toolPendingBg"@, "base"@),
        ("toolSuccessBg"@, "mantle"@),
        ("toolErrorBg"@, "toolErrorBg"@),
        ("toolTitle"@, "blue"@),
        ("toolOutput"@, "subtext1"@),
        ("mdHeading"@, "mauve"@),
        ("mdLink"@, "blue"@),
        ("mdLinkUrl"@, "sky"@),
        ("mdCode"@, "green"@),
        ("mdCodeBlock"@, "text"@),
        ("mdCodeBlockBorder"@, "surface2"@),
        ("mdQuote"@, "yellow"@),
        ("mdQuoteBorder"@, "yellow"@),
        ("mdHr"@, "subtext0"@),
        ("mdListBullet"@, "blue"@),
        ("toolDiffAdded"@, "green"@),
        ("toolDiffRemoved"@, "red"@),
        ("toolDiffContext"@, "overlay2"@),
        ("syntaxComment"@, "overlay2"@),
        ("syntaxKeyword"@, "mauve"@),
        ("syntaxFunction"@, "blue"@),
        ("syntaxVariable"@, "red"@),
        ("syntaxString"@, "green"@),
        ("syntaxNumber"@, "peach"@),
        ("syntaxType"@, "yellow"@),
        ("syntaxOperator"@, "sky"@),
        ("syntaxPunctuation"@, "text"@),
        ("thinkingOff"@, "surface2"@),
        ("thinkingMinimal"@, "surface1"@),
        ("thinkingLow"@, "blue"@),
        ("thinkingMedium"@, "teal"@),
        ("thinkingHigh"@, "mauve"@),
        ("thinkingXhigh"@, "pink"@),
        ("bashMode"@, "peach"@),
    ]
}

/// The Pi agent theme's colour variables.
pub fn pi_vars_from_palette(pal: &Palette) -> (v: Vec<(&'static str, String)>)
    ensures
        entries_view(v@) == pi_vars(*pal),
{
    let mut v: Vec<(&'static str, String)> = Vec::new();
    assert(entries_view(v@) =~= Seq::<(Seq<char>, Seq<char>)>::empty());
    push_color(&mut v, "text", &pal.text);
    push_color(&mut v, "subtext0", &pal.subtext0);
    push_color(&mut v, "overlay0", &pal.overlay0);
    push_color(&mut v, "overlay1", &pal.overlay1);
    push_color(&mut v, "surface0", &pal.surface0);
    push_color(&mut v, "surface1", &pal.surface1);
    push_color(&mut v, "mauve", &pal.mauve);
    push_color(&mut v, "green", &pal.green);
    push_color(&mut v, "yellow", &pal.yellow);
    push_color(&mut v, "red", &pal.red);
    push_color(&mut v, "blue", &pal.blue);
    push_color(&mut v, "teal", &pal.teal);
    push_color(&mut v, "peach", &pal.peach);
    push_color(&mut v, "surface2", &pal.separator);
    push_color(&mut v, "base", &pal.panel_bg);
    push_color(&mut v, "mantle", &pal.active_space_bg);
    push_color(&mut v, "crust", &pal.surface_dim);
    push_color(&mut v, "subtext1", &pal.overlay1);
    push_color(&mut v, "overlay2", &pal.overlay0);
    push_color(&mut v, "rosewater", &pal.text);
    push_color(&mut v, "flamingo", &pal.peach);
    push_color(&mut v, "pink", &pal.mauve);
    push_color(&mut v, "maroon", &pal.red);
    push_color(&mut v, "sky", &pal.blue);
    push_color(&mut v, "sapphire", &pal.teal);
    push_color(&mut v, "lavender", &pal.accent);
    push_color(&mut v, "toolErrorBg", &pal.surface1);
    assert(entries_view(v@) =~= pi_vars(*pal));
    v
}

/// The colours the Pi agent theme exports.
pub fn pi_export_from_palette(pal: &Palette) -> (v: Vec<(&'static str, String)>)
    ensures
        entries_view(v@) == pi_export(*pal),
{
    let mut v: Vec<(&'static str, String)> = Vec::new();
    assert(entries_view(v@) =~= Seq::<(Seq<char>, Seq<char>)>::empty());
    push_color(&mut v, "pageBg", &pal.active_space_bg);
    push_color(&mut v, "cardBg", &pal.panel_bg);
    push_color(&mut v, "infoBg", &pal.surface0);
    assert(entries_view(v@) =~= pi_export(*pal));
    v
}

fn push_opencode_1(v: &mut Vec<(&'static str, String)>, pal: &Palette)
    ensures
        entries_view(final(v)@) == entries_view(old(v)@) + opencode_props_1(*pal),
{
    let ghost before = entries_view(v@);
    push_color(v, "primary", &pal.accent);
    push_color(v, "secondary", &pal.mauve);
    push_color(v, "accent", &pal.accent);
    push_color(v, "error", &pal.red);
    push_color(v, "warning", &pal.yellow);
    push_color(v, "success", &pal.green);
    push_color(v, "info", &pal.teal);
    push_color(v, "text", &pal.text);
    push_color(v, "textMuted", &pal.overlay0);
    push_color(v, "selectedListItemText", &pal.panel_bg);
    push_color(v, "background", &pal.panel_bg);
    push_color(v, "backgroundPanel", &pal.surface_dim);
    push_color(v, "backgroundElement", &pal.surface0);
    assert(entries_view(v@) =~= before + opencode_props_1(*pal));
}

fn push_opencode_2(v: &mut Vec<(&'static str, String)>, pal: &Palette)
    ensures
        entries_view(final(v)@) == entries_view(old(v)@) + opencode_props_2(*pal),
{
    let ghost before = entries_view(v@);
    push_color(v, "backgroundMenu", &pal.surface0);
    push_color(v, "border", &pal.separator);
    push_color(v, "borderActive", &pal.accent);
    push_color(v, "borderSubtle", &pal.surface0);
    push_color(v, "diffAdded", &pal.green);
    push_color(v, "diffRemoved", &pal.red);
    push_color(v, "diffContext", &pal.overlay0);
    push_color(v, "diffHunkHeader", &pal.overlay0);
    push_color(v, "diffHighlightAdded", &pal.green);
    push_color(v, "diffHighlightRemoved", &pal.red);
    push_color(v, "diffAddedBg", &pal.surface_dim);
    push_color(v, "diffRemovedBg", &pal.surface_dim);
    push_color(v, "diffContextBg", &pal.surface_dim);
    assert(entries_view(v@) =~= before + opencode_props_2(*pal));
}

fn push_opencode_3(v: &mut Vec<(&'static str, String)>, pal: &Palette)
    ensures
        entries_view(final(v)@) == entries_view(old(v)@) + opencode_props_3(*pal),
{
    let ghost before = entries_view(v@);
    push_color(v, "diffLineNumber", &pal.overlay0);
    push_color(v, "diffAddedLineNumberBg", &pal.surface0);
    push_color(v, "diffRemovedLineNumberBg", &pal.surface0);
    push_color(v, "markdownText", &pal.text);
    push_color(v, "markdownHeading", &pal.accent);
    push_color(v, "markdownLink", &pal.blue);
    push_color(v, "markdownLinkText", &pal.teal);
    push_color(v, "markdownCode", &pal.green);
    push_color(v, "markdownBlockQuote", &pal.yellow);
    push_color(v, "markdownEmph", &pal.peach);
    push_color(v, "markdownStrong", &pal.text);
    push_color(v, "markdownHorizontalRule", &pal.separator);
    push_color(v, "markdownListItem", &pal.blue);
    assert(entries_view(v@) =~= before + opencode_props_3(*pal));
}

fn push_opencode_4(v: &mut Vec<(&'static str, String)>, pal: &Palette)
    ensures
        entries_view(final(v)@) == entries_view(old(v)@) + opencode_props_4(*pal),
{
    let ghost before = entries_view(v@);
    push_color(v, "markdownListEnumeration", &pal.accent);
    push_color(v, "markdownImage", &pal.blue);
    push_color(v, "markdownImageText", &pal.teal);
    push_color(v, "markdownCodeBlock", &pal.text);
    push_color(v, "syntaxComment", &pal.overlay0);
    push_color(v, "syntaxKeyword", &pal.mauve);
    push_color(v, "syntaxFunction", &pal.blue);
    push_color(v, "syntaxVariable", &pal.text);
    push_color(v, "syntaxString", &pal.green);
    push_color(v, "syntaxNumber", &pal.peach);
    push_color(v, "syntaxType", &pal.teal);
    push_color(v, "syntaxOperator", &pal.teal);
    push_color(v, "syntaxPunctuation", &pal.text);
    assert(entries_view(v@) =~= before + opencode_props_4(*pal));
}

/// OpenCode's theme properties for herdr's palette.
pub fn opencode_theme_props(pal: &Palette) -> (v: Vec<(&'static str, String)>)
    ensures
        entries_view(v@) == opencode_props(*pal),
{
    let mut v: Vec<(&'static str, String)> = Vec::new();
    assert(entries_view(v@) =~= Seq::<(Seq<char>, Seq<char>)>::empty());
    push_opencode_1(&mut v, pal);
    push_opencode_2(&mut v, pal);
    push_opencode_3(&mut v, pal);
    push_opencode_4(&mut v, pal);
    let ghost before = entries_view(v@);
    v.push(("thinkingOpacity", String::from_str("0.6")));
    assert(entries_view(v@) =~= before.push(("thinkingOpacity"@, "0.6"@)));
    assert(entries_view(v@) =~= opencode_props(*pal));
    v
}

/// The Pi theme's colour roles and the variable each one takes.
pub fn pi_color_table() -> (v: Vec<(&'static str, &'static str)>)
    ensures
        names_view(v@) == pi_colors(),
{
    let mut v: Vec<(&'static str, &'static str)> = Vec::new();
    assert(names_view(v@) =~= Seq::<(Seq<char>, Seq<char>)>::empty());
    push_name(&mut v, "accent", "blue");
    push_name(&mut v, "border", "surface0");
    push_name(&mut v, "borderAccent", "surface1");
    push_name(&mut v, "borderMuted", "surface2");
    push_name(&mut v, "success", "green");
    push_name(&mut v, "error", "red");
    push_name(&mut v, "warning", "yellow");
    push_name(&mut v, "muted", "subtext1");
    push_name(&mut v, "dim", "overlay1");
    push_name(&mut v, "text", "text");
    push_name(&mut v, "thinkingText", "overlay2");
    push_name(&mut v, "selectedBg", "surface1");
    push_name(&mut v, "userMessageBg", "mantle");
    push_name(&mut v, "userMessageText", "text");
    push_name(&mut v, "customMessageBg", "crust");
    push_name(&mut v, "customMessageText", "text");
    push_name(&mut v, "customMessageLabel", "pink");
    push_name(&mut v, "toolPendingBg", "base");
    push_name(&mut v, "toolSuccessBg", "mantle");
    push_name(&mut v, "toolErrorBg", "toolErrorBg");
    push_name(&mut v, "toolTitle", "blue");
    push_name(&mut v, "toolOutput", "subtext1");
    push_name(&mut v, "mdHeading", "mauve");
    push_name(&mut v, "mdLink", "blue");
    push_name(&mut v, "mdLinkUrl", "sky");
    push_name(&mut v, "mdCode", "green");
    push_name(&mut v, "mdCodeBlock", "text");
    push_name(&mut v, "mdCodeBlockBorder", "surface2");
    push_name(&mut v, "mdQuote", "yellow");
    push_name(&mut v, "mdQuoteBorder", "yellow");
    push_name(&mut v, "mdHr", "subtext0");
    push_name(&mut v, "mdListBullet", "blue");
    push_name(&mut v, "toolDiffAdded", "green");
    push_name(&mut v, "toolDiffRemoved", "red");
    push_name(&mut v, "toolDiffContext", "overlay2");
    push_name(&mut v, "syntaxComment", "overlay2");
    push_name(&mut v, "syntaxKeyword", "mauve");
    push_name(&mut v, "syntaxFunction", "blue");
    push_name(&mut v, "syntaxVariable", "red");
    push_name(&mut v, "syntaxString", "green");
    push_name(&mut v, "syntaxNumber", "peach");
    push_name(&mut v, "syntaxType", "yellow");
    push_name(&mut v, "syntaxOperator", "sky");
    push_name(&mut v, "syntaxPunctuation", "text");
    push_name(&mut v, "thinkingOff", "surface2");
    push_name(&mut v, "thinkingMinimal", "surface1");
    push_name(&mut v, "thinkingLow", "blue");
    push_name(&mut v, "thinkingMedium", "teal");
    push_name(&mut v, "thinkingHigh", "mauve");
    push_name(&mut v, "thinkingXhigh", "pink");
    push_name(&mut v, "bashMode", "peach");
    assert(names_view(v@) =~= pi_colors());
    v
}

} // verus!
