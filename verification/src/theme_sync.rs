//! Applying a herdr theme to the other tools: which tools there are, what each tool's
//! config becomes, and the global theme state recorded afterwards.
//!
//! Reading and writing files, signalling processes and asking the herdr server to reload are
//! left to the caller: the functions here decide, from what was read, what is to be written
//! and what each tool's outcome is.
use vstd::prelude::*;

use crate::config_edit::{
    concat, ghostty_config, ghostty_config_text, neovim_config, neovim_config_text, opencode_config_text,
    opencode_lines, tmux_config, tmux_config_text, zed_config, zed_config_text,
};
use crate::json::{
    json_object_fields, json_object_insert_string, json_string_text, json_object_pretty, json_object_text,
    new_json_object, no_fields, parse_json, parsed_json, JsonDocument, JsonObject, JsonShape,
};
use crate::clock::{chrono_or_default, is_utc_timestamp_of};
use crate::mapping::{key_mapping, resolve_tool_mapping, theme_key, MappingView, ToolThemeMapping};
use crate::nvim_sync::{neovim_sync_lua, neovim_sync_text};
use crate::palette::Palette;
use crate::text::{chars_of, eq_str, join_lines, slice_of, string_of};

verus! {

// ---------------------------------------------------------------- outcomes

/// What became of one tool.
pub enum ApplyStatus {
    Updated,
    Skipped(String),
    Error(String),
}

/// An outcome with its message as characters.
pub enum StatusView {
    Updated,
    Skipped(Seq<char>),
    Error(Seq<char>),
}

impl View for ApplyStatus {
    type V = StatusView;

    open spec fn view(&self) -> StatusView {
        match self {
            ApplyStatus::Updated => StatusView::Updated,
            ApplyStatus::Skipped(m) => StatusView::Skipped(m@),
            ApplyStatus::Error(m) => StatusView::Error(m@),
        }
    }
}

/// A tool found on this machine, with the config file that carries its theme.
pub struct DetectedTool {
    pub name: &'static str,
    pub config_path: String,
}

/// The outcome for one tool.
pub struct ToolApplyResult {
    pub name: &'static str,
    pub config_path: String,
    pub status: ApplyStatus,
}

/// The outcomes for all detected tools, in the order they were detected.
pub struct ApplyResult {
    pub results: Vec<ToolApplyResult>,
}

// ---------------------------------------------------------------- paths

/// `Path::join` of a relative path on Unix: a separator is put between the two unless the
/// base is empty or already ends with one.
pub open spec fn join_path(base: Seq<char>, rel: Seq<char>) -> Seq<char> {
    if base.len() == 0 || base.last() == '/' {
        base + rel
    } else {
        base + "/"@ + rel
    }
}

/// Joins a relative path to a base directory.
fn path_join(base: &str, rel: &str) -> (r: String)
    ensures
        r@ == join_path(base@, rel@),
{
    let b = chars_of(base);
    let rv = chars_of(rel);
    if b.len() == 0 || b[b.len() - 1] == '/' {
        string_of(&concat(&b, &rv))
    } else {
        let sep = chars_of("/");
        let head = concat(&b, &sep);
        string_of(&concat(&head, &rv))
    }
}

/// Where the global theme state is kept, under the home directory.
pub fn global_state_path(home: &str) -> (r: String)
    ensures
        r@ == join_path(home@, ".config/themes/settings.json"@),
{
    path_join(home, ".config/themes/settings.json")
}

// ---------------------------------------------------------------- detection

/// The number of config files looked for under the home directory.
pub const CANDIDATE_COUNT: usize = 8;

/// The config files looked for, in order: the tool and the file's path under the home
/// directory. neovim has three candidates, of which the first that exists is taken.
pub open spec fn candidate(i: int) -> (Seq<char>, Seq<char>) {
    if i == 0 {
        ("pi-agent"@, ".pi/agent/settings.json"@)
    } else if i == 1 {
        ("neovim"@, ".config/nvim/lua/plugins/color-scheme.lua"@)
    } else if i == 2 {
        ("neovim"@, ".config/nvim/lua/dipxsy/plugins/color-scheme.lua"@)
    } else if i == 3 {
        ("neovim"@, ".config/nvim/init.lua"@)
    } else if i == 4 {
        ("zed"@, ".config/zed/settings.json"@)
    } else if i == 5 {
        ("tmux"@, ".config/tmux/tmux.conf"@)
    } else if i == 6 {
        ("ghostty"@, ".config/ghostty/config"@)
    } else {
        ("opencode"@, ".config/opencode/tui.json"@)
    }
}

/// A candidate as a tool and its full path.
pub open spec fn candidate_at(home: Seq<char>, i: int) -> (Seq<char>, Seq<char>) {
    (candidate(i).0, join_path(home, candidate(i).1))
}

/// Tools and paths of a list of entries.
pub open spec fn candidates_view(v: Seq<(&'static str, String)>) -> Seq<(Seq<char>, Seq<char>)> {
    v.map_values(|e: (&'static str, String)| (e.0@, e.1@))
}

/// Tools and paths of detected tools.
pub open spec fn tools_view(v: Seq<DetectedTool>) -> Seq<(Seq<char>, Seq<char>)> {
    v.map_values(|t: DetectedTool| (t.name@, t.config_path@))
}

/// The `i`-th candidate's file exists: `present` says so (a missing entry counts as no).
pub open spec fn found_at(present: Seq<bool>, i: int) -> bool {
    0 <= i < present.len() && present[i]
}

/// The candidate when its file exists, else nothing.
pub open spec fn if_present(home: Seq<char>, present: Seq<bool>, i: int) -> Seq<(Seq<char>, Seq<char>)> {
    if found_at(present, i) {
        seq![candidate_at(home, i)]
    } else {
        seq![]
    }
}

/// The first neovim candidate whose file exists, if any.
pub open spec fn neovim_pick(home: Seq<char>, present: Seq<bool>) -> Seq<(Seq<char>, Seq<char>)> {
    if found_at(present, 1) {
        seq![candidate_at(home, 1)]
    } else if found_at(present, 2) {
        seq![candidate_at(home, 2)]
    } else if found_at(present, 3) {
        seq![candidate_at(home, 3)]
    } else {
        seq![]
    }
}

/// The detected tools: herdr itself, always, then each other tool whose config file
/// exists, in candidate order.
pub open spec fn detected(herdr_config: Seq<char>, home: Seq<char>, present: Seq<bool>) -> Seq<
    (Seq<char>, Seq<char>),
> {
    seq![("herdr"@, herdr_config)] + if_present(home, present, 0) + neovim_pick(home, present)
        + if_present(home, present, 4) + if_present(home, present, 5) + if_present(
        home,
        present,
        6,
    ) + if_present(home, present, 7)
}

fn push_candidate(v: &mut Vec<(&'static str, String)>, home: &str, name: &'static str, rel: &str)
    ensures
        final(v)@.len() == old(v)@.len() + 1,
        candidates_view(final(v)@) == candidates_view(old(v)@).push((name@, join_path(home@, rel@))),
{
    let ghost before = v@;
    let p = path_join(home, rel);
    v.push((name, p));
    assert(candidates_view(v@) =~= candidates_view(before).push((name@, join_path(home@, rel@))));
}

/// The config files to look for under `home`, in the order `detect_tools` takes them.
pub fn tool_candidates(home: &str) -> (v: Vec<(&'static str, String)>)
    ensures
        v.len() == CANDIDATE_COUNT,
        forall|i: int|
            0 <= i < CANDIDATE_COUNT ==> #[trigger] candidates_view(v@)[i] == candidate_at(home@, i),
{
    let mut v: Vec<(&'static str, String)> = Vec::new();
    push_candidate(&mut v, home, "pi-agent", ".pi/agent/settings.json");
    push_candidate(&mut v, home, "neovim", ".config/nvim/lua/plugins/color-scheme.lua");
    push_candidate(&mut v, home, "neovim", ".config/nvim/lua/dipxsy/plugins/color-scheme.lua");
    push_candidate(&mut v, home, "neovim", ".config/nvim/init.lua");
    push_candidate(&mut v, home, "zed", ".config/zed/settings.json");
    push_candidate(&mut v, home, "tmux", ".config/tmux/tmux.conf");
    push_candidate(&mut v, home, "ghostty", ".config/ghostty/config");
    push_candidate(&mut v, home, "opencode", ".config/opencode/tui.json");
    v
}

/// The order tools are detected in.
pub open spec fn tool_rank(name: Seq<char>) -> int {
    if name == "herdr"@ {
        0
    } else if name == "pi-agent"@ {
        1
    } else if name == "neovim"@ {
        2
    } else if name == "zed"@ {
        3
    } else if name == "tmux"@ {
        4
    } else if name == "ghostty"@ {
        5
    } else if name == "opencode"@ {
        6
    } else {
        7
    }
}

/// The entries' tools come in strictly increasing rank, each below `bound`.
pub open spec fn ranked(d: Seq<(Seq<char>, Seq<char>)>, bound: int) -> bool {
    &&& forall|i: int, j: int|
        0 <= i < j < d.len() ==> tool_rank(#[trigger] d[i].0) < tool_rank(#[trigger] d[j].0)
    &&& forall|i: int| 0 <= i < d.len() ==> tool_rank(#[trigger] d[i].0) < bound
}

proof fn lemma_ranked_append(d: Seq<(Seq<char>, Seq<char>)>, s: Seq<(Seq<char>, Seq<char>)>, k: int)
    requires
        ranked(d, k),
        s.len() <= 1,
        forall|i: int| 0 <= i < s.len() ==> tool_rank(#[trigger] s[i].0) == k,
    ensures
        ranked(d + s, k + 1),
{
    let r = d + s;
    assert forall|i: int, j: int| 0 <= i < j < r.len() implies tool_rank(#[trigger] r[i].0) < tool_rank(
        #[trigger] r[j].0,
    ) by {
        if j < d.len() {
            assert(r[i] == d[i] && r[j] == d[j]);
        } else {
            assert(r[i] == d[i]);
            assert(r[j] == s[j - d.len()]);
        }
    }
    assert forall|i: int| 0 <= i < r.len() implies tool_rank(#[trigger] r[i].0) < k + 1 by {
        if i < d.len() {
            assert(r[i] == d[i]);
        } else {
            assert(r[i] == s[i - d.len()]);
        }
    }
}

/// Law: detection finds herdr first and each tool at most once; the tools come in the
/// order herdr, Pi, neovim, zed, tmux, ghostty, OpenCode.
pub proof fn lemma_detected_tools_distinct(herdr_config: Seq<char>, home: Seq<char>, present: Seq<bool>)
    ensures
        detected(herdr_config, home, present)[0].0 == "herdr"@,
        forall|i: int, j: int|
            0 <= i < j < detected(herdr_config, home, present).len() ==> (#[trigger] detected(
                herdr_config,
                home,
                present,
            )[i]).0 != (#[trigger] detected(herdr_config, home, present)[j]).0,
        ranked(detected(herdr_config, home, present), 7),
{
    lemma_tool_names_distinct();
    let d0 = seq![("herdr"@, herdr_config)];
    assert(ranked(d0, 1));
    let p0 = if_present(home, present, 0);
    lemma_ranked_append(d0, p0, 1);
    let nv = neovim_pick(home, present);
    lemma_ranked_append(d0 + p0, nv, 2);
    let p4 = if_present(home, present, 4);
    lemma_ranked_append(d0 + p0 + nv, p4, 3);
    let p5 = if_present(home, present, 5);
    lemma_ranked_append(d0 + p0 + nv + p4, p5, 4);
    let p6 = if_present(home, present, 6);
    lemma_ranked_append(d0 + p0 + nv + p4 + p5, p6, 5);
    let p7 = if_present(home, present, 7);
    lemma_ranked_append(d0 + p0 + nv + p4 + p5 + p6, p7, 6);
    let d = detected(herdr_config, home, present);
    assert(d == d0 + p0 + nv + p4 + p5 + p6 + p7);
    assert(d[0] == d0[0]);
}

/// Law: the config files looked for are the tools' own locations under the home directory:
/// Pi's `.pi/agent/settings.json`; neovim's `.config/nvim/lua/plugins/color-scheme.lua`,
/// `.config/nvim/lua/dipxsy/plugins/color-scheme.lua` and `.config/nvim/init.lua`, in that
/// order; zed's `.config/zed/settings.json`; tmux's `.config/tmux/tmux.conf`; ghostty's
/// `.config/ghostty/config`; OpenCode's `.config/opencode/tui.json`. A tool with one such
/// file is detected, with that file's path, when the file exists; neovim with the first of
/// its files that exists.
pub proof fn lemma_config_locations(herdr_config: Seq<char>, home: Seq<char>, present: Seq<bool>)
    ensures
        candidate_at(home, 0) == ("pi-agent"@, join_path(home, ".pi/agent/settings.json"@)),
        candidate_at(home, 1) == (
            "neovim"@,
            join_path(home, ".config/nvim/lua/plugins/color-scheme.lua"@),
        ),
        candidate_at(home, 2) == (
            "neovim"@,
            join_path(home, ".config/nvim/lua/dipxsy/plugins/color-scheme.lua"@),
        ),
        candidate_at(home, 3) == ("neovim"@, join_path(home, ".config/nvim/init.lua"@)),
        candidate_at(home, 4) == ("zed"@, join_path(home, ".config/zed/settings.json"@)),
        candidate_at(home, 5) == ("tmux"@, join_path(home, ".config/tmux/tmux.conf"@)),
        candidate_at(home, 6) == ("ghostty"@, join_path(home, ".config/ghostty/config"@)),
        candidate_at(home, 7) == ("opencode"@, join_path(home, ".config/opencode/tui.json"@)),
        forall|i: int|
            (i == 0 || 4 <= i <= 7) && found_at(present, i) ==> detected(
                herdr_config,
                home,
                present,
            ).contains(#[trigger] candidate_at(home, i)),
        found_at(present, 1) ==> detected(herdr_config, home, present).contains(
            candidate_at(home, 1),
        ),
        !found_at(present, 1) && found_at(present, 2) ==> detected(
            herdr_config,
            home,
            present,
        ).contains(candidate_at(home, 2)),
        !found_at(present, 1) && !found_at(present, 2) && found_at(present, 3) ==> detected(
            herdr_config,
            home,
            present,
        ).contains(candidate_at(home, 3)),
{
    let d0 = seq![("herdr"@, herdr_config)];
    let p0 = if_present(home, present, 0);
    let nv = neovim_pick(home, present);
    let p4 = if_present(home, present, 4);
    let p5 = if_present(home, present, 5);
    let p6 = if_present(home, present, 6);
    let p7 = if_present(home, present, 7);
    let d = detected(herdr_config, home, present);
    assert(d == d0 + p0 + nv + p4 + p5 + p6 + p7);
    let a0 = 1int;
    let a1 = a0 + p0.len();
    let a4 = a1 + nv.len();
    let a5 = a4 + p4.len();
    let a6 = a5 + p5.len();
    let a7 = a6 + p6.len();
    assert forall|i: int|
        (i == 0 || 4 <= i <= 7) && found_at(present, i) implies d.contains(
            #[trigger] candidate_at(home, i),
        ) by {
        if i == 0 {
            assert(d[a0] == candidate_at(home, 0));
        } else if i == 4 {
            assert(d[a4] == candidate_at(home, 4));
        } else if i == 5 {
            assert(d[a5] == candidate_at(home, 5));
        } else if i == 6 {
            assert(d[a6] == candidate_at(home, 6));
        } else {
            assert(d[a7] == candidate_at(home, 7));
        }
    }
    if found_at(present, 1) || found_at(present, 2) || found_at(present, 3) {
        assert(d[a1] == nv[0]);
    }
}

fn has(present: &Vec<bool>, i: usize) -> (b: bool)
    ensures
        b == found_at(present@, i as int),
{
    i < present.len() && present[i]
}

fn push_tool(v: &mut Vec<DetectedTool>, name: &'static str, path: String)
    ensures
        tools_view(final(v)@) == tools_view(old(v)@).push((name@, path@)),
{
    let ghost before = v@;
    let ghost pv = path@;
    v.push(DetectedTool { name, config_path: path });
    assert(tools_view(v@) =~= tools_view(before).push((name@, pv)));
}

/// The tools to theme: herdr with its own config, then, in order, Pi, neovim, zed, tmux,
/// ghostty and OpenCode where their config file exists. `present[i]` says whether the file
/// of the `i`-th entry of `tool_candidates(home)` exists; an entry it lacks counts as no.
pub fn detect_tools(herdr_config: &str, home: &str, present: &Vec<bool>) -> (r: Vec<DetectedTool>)
    ensures
        tools_view(r@) == detected(herdr_config@, home@, present@),
{
    let cands = tool_candidates(home);
    let ghost cv = candidates_view(cands@);
    let mut r: Vec<DetectedTool> = Vec::new();
    let herdr = string_of(&chars_of(herdr_config));
    push_tool(&mut r, "herdr", herdr);
    let ghost acc0 = tools_view(r@);
    assert(acc0 =~= seq![("herdr"@, herdr_config@)]);
    let ghost mut acc = acc0;
    let ghost h = home@;
    let ghost pr = present@;
    assert(cv[0] == candidate_at(h, 0));
    if has(present, 0) {
        push_tool(&mut r, cands[0].0, string_of(&chars_of(cands[0].1.as_str())));
    }
    assert(tools_view(r@) =~= acc + if_present(h, pr, 0));
    proof {
        acc = acc + if_present(h, pr, 0);
    }
    assert(cv[1] == candidate_at(h, 1));
    assert(cv[2] == candidate_at(h, 2));
    assert(cv[3] == candidate_at(h, 3));
    if has(present, 1) {
        push_tool(&mut r, cands[1].0, string_of(&chars_of(cands[1].1.as_str())));
    } else if has(present, 2) {
        push_tool(&mut r, cands[2].0, string_of(&chars_of(cands[2].1.as_str())));
    } else if has(present, 3) {
        push_tool(&mut r, cands[3].0, string_of(&chars_of(cands[3].1.as_str())));
    }
    assert(tools_view(r@) =~= acc + neovim_pick(h, pr));
    proof {
        acc = acc + neovim_pick(h, pr);
    }
    let mut i: usize = 4;
    while i < CANDIDATE_COUNT
        invariant
            4 <= i <= CANDIDATE_COUNT,
            present@ == pr,
            cands.len() == CANDIDATE_COUNT,
            candidates_view(cands@) == cv,
            forall|k: int| 0 <= k < CANDIDATE_COUNT ==> #[trigger] cv[k] == candidate_at(h, k),
            tools_view(r@) == if i == 4 {
                acc
            } else if i == 5 {
                acc + if_present(h, pr, 4)
            } else if i == 6 {
                acc + if_present(h, pr, 4) + if_present(h, pr, 5)
            } else if i == 7 {
                acc + if_present(h, pr, 4) + if_present(h, pr, 5) + if_present(h, pr, 6)
            } else {
                acc + if_present(h, pr, 4) + if_present(h, pr, 5) + if_present(h, pr, 6)
                    + if_present(h, pr, 7)
            },
        decreases CANDIDATE_COUNT - i,
    {
        let ghost before = tools_view(r@);
        assert(cv[i as int] == candidate_at(h, i as int));
        if has(present, i) {
            push_tool(&mut r, cands[i].0, string_of(&chars_of(cands[i].1.as_str())));
        }
        assert(tools_view(r@) =~= before + if_present(h, pr, i as int));
        i = i + 1;
    }
    r
}

// ---------------------------------------------------------------- reading and writing

/// What came of reading a config file.
pub enum FileRead {
    /// The file does not exist.
    Absent,
    /// Reading failed, with the error's message.
    Failed(String),
    /// The file's text.
    Read(String),
}

/// What came of writing a config file.
pub enum FileWrite {
    /// The file was written.
    Written,
    /// Its directory could not be created, with the error's message.
    DirFailed(String),
    /// Writing failed, with the error's message.
    WriteFailed(String),
}

/// `prefix` followed by `s`.
fn prefixed(prefix: &str, s: &str) -> (r: String)
    ensures
        r@ == prefix@ + s@,
{
    let a = chars_of(prefix);
    let b = chars_of(s);
    string_of(&concat(&a, &b))
}

/// A config file's text, or the error a tool reports when it cannot be read.
pub fn read_config_text(read: FileRead) -> (r: Result<String, String>)
    ensures
        match read {
            FileRead::Absent => r matches Err(e) && e@ == "config file does not exist"@,
            FileRead::Failed(m) => r matches Err(e) && e@ == "read failed: "@ + m@,
            FileRead::Read(t) => r matches Ok(x) && x@ == t@,
        },
{
    match read {
        FileRead::Absent => Err(String::from_str("config file does not exist")),
        FileRead::Failed(m) => Err(prefixed("read failed: ", m.as_str())),
        FileRead::Read(t) => Ok(t),
    }
}

/// A tool's outcome once its config has been written, or has failed to be.
pub fn write_config(write: FileWrite) -> (r: ApplyStatus)
    ensures
        match write {
            FileWrite::Written => r@ == StatusView::Updated,
            FileWrite::DirFailed(m) => r@ == StatusView::Error("create dir failed: "@ + m@),
            FileWrite::WriteFailed(m) => r@ == StatusView::Error("write failed: "@ + m@),
        },
{
    match write {
        FileWrite::Written => ApplyStatus::Updated,
        FileWrite::DirFailed(m) => ApplyStatus::Error(prefixed("create dir failed: ", m.as_str())),
        FileWrite::WriteFailed(m) => ApplyStatus::Error(prefixed("write failed: ", m.as_str())),
    }
}

// ---------------------------------------------------------------- per-tool edits

/// `toml::Value::String(s).to_string()`: a string written as a TOML value.
pub uninterp spec fn toml_string_value(s: Seq<char>) -> Seq<char>;

/// `toml::Value`'s `Display` on a string value. The text is named `toml_string_value` of
/// the string; what that is on a given string is not stated.
#[verifier::external_body]
fn toml_quoted(s: &str) -> (r: String)
    ensures
        r@ == toml_string_value(s@),
{
    toml::Value::String(s.to_string()).to_string()
}

/// What is to be done for one tool once its config has been read.
pub enum ToolAction {
    /// Nothing is written: this is the tool's outcome.
    Settle(ApplyStatus),
    /// herdr: set `name` in the `[theme]` section of `content` (the config's text, empty when
    /// it could not be read) to `quoted`, write it as a config, then ask the running server to
    /// reload.
    Herdr { content: String, quoted: String },
    /// Pi: write `settings` to `settings.json`; once written, create the theme file
    /// `themes/<theme>.json` beside it unless one exists.
    Pi { settings: String, theme: &'static str },
    /// neovim: write `lua` to `herdr-sync.lua` in the Lua directory, then write the config
    /// text, or settle on the outcome given.
    Neovim { lua: String, config: Result<String, ApplyStatus> },
    /// Write this config text.
    Write(String),
    /// OpenCode: remove the stale theme files, write the `herdr` theme file, write the
    /// config text, then signal running instances.
    Opencode { config: String },
}

/// The action settles on this outcome.
pub open spec fn settles(a: ToolAction, s: StatusView) -> bool {
    a matches ToolAction::Settle(st) && st@ == s
}

/// The action writes this config text.
pub open spec fn writes(a: ToolAction, t: Seq<char>) -> bool {
    a matches ToolAction::Write(x) && x@ == t
}

/// A config text to write, or else the outcome to settle on.
pub open spec fn write_or(c: Result<String, ApplyStatus>, text: Option<Seq<char>>, otherwise: StatusView) -> bool {
    match text {
        Some(t) => c matches Ok(x) && x@ == t,
        None => c matches Err(st) && st@ == otherwise,
    }
}

/// Pi's settings: the pretty text of an object with these fields and a final newline.
pub open spec fn pi_settings_written(a: ToolAction, fields: Map<Seq<char>, Seq<char>>, theme: Seq<char>) -> bool {
    a matches ToolAction::Pi { settings, theme: t } && t@ == theme && exists|m: JsonObject|
        json_object_fields(m) == fields && settings@ == #[trigger] json_object_text(m) + "\n"@
}

/// Pi's action for a read settings file: its JSON with `"theme"` set, or the reason it
/// could not be. `None` where the settings are JSON but neither an object nor `null`.
pub open spec fn pi_action(read: Result<String, String>, theme: Seq<char>, r: Option<ToolAction>) -> bool {
    match read {
        Err(e) => r matches Some(a) && settles(a, StatusView::Error(e@)),
        Ok(c) => match parsed_json(c@) {
            Err(msg) => r matches Some(a) && settles(a, StatusView::Error("invalid JSON: "@ + msg)),
            Ok(JsonShape::Null) => r matches Some(a) && pi_settings_written(
                a,
                no_fields().insert("theme"@, json_string_text(theme)),
                theme,
            ),
            Ok(JsonShape::Object(f)) => r matches Some(a) && pi_settings_written(
                a,
                f.insert("theme"@, json_string_text(theme)),
                theme,
            ),
            Ok(JsonShape::Other) => r is None,
        },
    }
}

/// The fields of OpenCode's replacement `tui.json`.
pub open spec fn opencode_fallback_fields() -> Map<Seq<char>, Seq<char>> {
    no_fields().insert("$schema"@, json_string_text("https://opencode.ai/tui.json"@)).insert(
        "theme"@,
        json_string_text("herdr"@),
    )
}

/// OpenCode's replacement `tui.json`: the pretty text of an object with the schema and
/// the `herdr` theme.
pub open spec fn opencode_fallback_ok(t: String) -> bool {
    exists|m: JsonObject|
        json_object_fields(m) == opencode_fallback_fields() && t@ == #[trigger] json_object_text(m)
}

/// The config text, empty when it could not be read.
pub open spec fn read_or_empty(read: Result<String, String>) -> Seq<char> {
    match read {
        Ok(c) => c@,
        Err(_) => seq![],
    }
}

/// herdr's action: its config (empty when unreadable) with the theme's name, as a TOML
/// string, to be set under `[theme]`. herdr is given the OpenCode theme name.
pub open spec fn herdr_action(m: MappingView, read: Result<String, String>, a: ToolAction) -> bool {
    a matches ToolAction::Herdr { content, quoted } && content@ == read_or_empty(read) && quoted@
        == toml_string_value(m.opencode)
}

/// The action of a tool whose config could not be read: it settles on the read's error.
pub open spec fn read_failed(read: Result<String, String>, a: ToolAction) -> bool {
    read is Err && settles(a, StatusView::Error(read->Err_0@))
}

/// neovim's action: the colour scheme file for the palette, and the config pointed at it
/// or, without a colour-scheme line, skipped.
pub open spec fn neovim_action(pal: Palette, read: Result<String, String>, a: ToolAction) -> bool {
    match read {
        Err(_) => read_failed(read, a),
        Ok(c) => a matches ToolAction::Neovim { lua, config } && lua@ == neovim_sync_text(pal)
            && write_or(config, neovim_config(c@), StatusView::Skipped("no colorscheme line found"@)),
    }
}

/// zed's action: the settings with the theme set, or skipped when there is no place for it.
pub open spec fn zed_action(m: MappingView, read: Result<String, String>, a: ToolAction) -> bool {
    match read {
        Err(_) => read_failed(read, a),
        Ok(c) => match zed_config(c@, m.zed) {
            Some(t) => writes(a, t),
            None => settles(
                a,
                StatusView::Skipped("could not find or add theme field in zed settings"@),
            ),
        },
    }
}

/// tmux's action: skipped for a theme without a catppuccin flavour; else the config with
/// the flavour set, or skipped when no line sets it.
pub open spec fn tmux_action(m: MappingView, read: Result<String, String>, a: ToolAction) -> bool {
    match m.tmux_flavour {
        None => settles(
            a,
            StatusView::Skipped(
                "theme is not catppuccin-based; tmux catppuccin plugin only supports catppuccin flavours"@,
            ),
        ),
        Some(f) => match read {
            Err(_) => read_failed(read, a),
            Ok(c) => match tmux_config(c@, f) {
                Some(t) => writes(a, t),
                None => settles(
                    a,
                    StatusView::Skipped("no @catppuccin_flavour setting found in tmux.conf"@),
                ),
            },
        },
    }
}

/// ghostty's action: the config with the background set.
pub open spec fn ghostty_action(m: MappingView, read: Result<String, String>, a: ToolAction) -> bool {
    match read {
        Err(_) => read_failed(read, a),
        Ok(c) => writes(a, ghostty_config(c@, m.ghostty_bg)),
    }
}

/// OpenCode's action: `tui.json` with the `herdr` theme, or, without an opening brace line,
/// a replacement file.
pub open spec fn opencode_action(read: Result<String, String>, a: ToolAction) -> bool {
    match read {
        Err(_) => read_failed(read, a),
        Ok(c) => a matches ToolAction::Opencode { config } && if opencode_lines(c@).1 {
            config@ == join_lines(opencode_lines(c@).0)
        } else {
            opencode_fallback_ok(config)
        },
    }
}

/// What is done for a tool, from its name, herdr's palette, the theme's mapping and what
/// came of reading its config. `None` only for Pi settings that are JSON but neither an
/// object nor `null`.
pub open spec fn tool_action(
    name: Seq<char>,
    pal: Palette,
    m: MappingView,
    read: Result<String, String>,
    r: Option<ToolAction>,
) -> bool {
    if name == "pi-agent"@ {
        pi_action(read, m.pi_agent, r)
    } else {
        r matches Some(a) && if name == "herdr"@ {
            herdr_action(m, read, a)
        } else if name == "neovim"@ {
            neovim_action(pal, read, a)
        } else if name == "zed"@ {
            zed_action(m, read, a)
        } else if name == "tmux"@ {
            tmux_action(m, read, a)
        } else if name == "ghostty"@ {
            ghostty_action(m, read, a)
        } else if name == "opencode"@ {
            opencode_action(read, a)
        } else {
            settles(a, StatusView::Skipped("unknown tool: "@ + name))
        }
    }
}

/// Pi's settings with the theme set, from the settings file's text.
fn pi_settings_action(content: &str, theme: &'static str) -> (r: Option<ToolAction>)
    ensures
        match parsed_json(content@) {
            Err(msg) => r matches Some(a) && settles(a, StatusView::Error("invalid JSON: "@ + msg)),
            Ok(JsonShape::Null) => r matches Some(a) && pi_settings_written(
                a,
                no_fields().insert("theme"@, json_string_text(theme@)),
                theme@,
            ),
            Ok(JsonShape::Object(f)) => r matches Some(a) && pi_settings_written(
                a,
                f.insert("theme"@, json_string_text(theme@)),
                theme@,
            ),
            Ok(JsonShape::Other) => r is None,
        },
{
    match parse_json(content) {
        Err(msg) => Some(ToolAction::Settle(ApplyStatus::Error(prefixed("invalid JSON: ", msg.as_str())))),
        Ok(JsonDocument::Other) => None,
        Ok(doc) => {
            let mut obj = match doc {
                JsonDocument::Object(m) => m,
                _ => new_json_object(),
            };
            json_object_insert_string(&mut obj, "theme", theme);
            let text = json_object_pretty(&obj).unwrap();
            let settings = prefixed(text.as_str(), "\n");
            assert(settings@ == json_object_text(obj) + "\n"@);
            Some(ToolAction::Pi { settings, theme })
        },
    }
}

/// OpenCode's replacement `tui.json`, for a file with no opening brace to put the theme
/// under.
fn opencode_fallback() -> (r: String)
    ensures
        opencode_fallback_ok(r),
{
    let mut obj = new_json_object();
    json_object_insert_string(&mut obj, "$schema", "https://opencode.ai/tui.json");
    json_object_insert_string(&mut obj, "theme", "herdr");
    let text = json_object_pretty(&obj).unwrap();
    assert(text@ == json_object_text(obj));
    text
}

/// Whether a file in OpenCode's themes directory is a stale theme to remove: a `.json` file
/// other than `herdr.json`.
pub fn is_stale_opencode_theme(file_name: &str) -> (r: bool)
    ensures
        r == (file_name@ != "herdr.json"@ && ".json"@.is_suffix_of(file_name@)),
{
    let v = chars_of(file_name);
    let n = v.len();
    let ends_json = if n >= 5 {
        let tail = slice_of(&v, n - 5, n);
        proof {
            reveal_strlit(".json");
        }
        eq_str(&tail, ".json")
    } else {
        proof {
            reveal_strlit(".json");
        }
        false
    };
    !eq_str(&v, "herdr.json") && ends_json
}

fn settle(status: ApplyStatus) -> (a: ToolAction)
    ensures
        a == ToolAction::Settle(status),
{
    ToolAction::Settle(status)
}

fn skipped(msg: &str) -> (a: ToolAction)
    ensures
        settles(a, StatusView::Skipped(msg@)),
{
    ToolAction::Settle(ApplyStatus::Skipped(String::from_str(msg)))
}

/// herdr's edit: the theme's name as a TOML string, for its config's `[theme]` section.
pub fn apply_to_herdr(mapping: &ToolThemeMapping, read: Result<String, String>) -> (a: ToolAction)
    ensures
        herdr_action(mapping@, read, a),
{
    let content = match read {
        Ok(c) => c,
        Err(_) => String::new(),
    };
    let quoted = toml_quoted(mapping.opencode);
    ToolAction::Herdr { content, quoted }
}

/// Pi's edit: the settings JSON with `"theme"` set to the theme's Pi name. `None` where the
/// settings are JSON but neither an object nor `null`.
pub fn apply_to_pi_agent(mapping: &ToolThemeMapping, read: Result<String, String>) -> (r: Option<ToolAction>)
    ensures
        pi_action(read, mapping.pi_agent@, r),
{
    match read {
        Err(e) => Some(settle(ApplyStatus::Error(e))),
        Ok(c) => pi_settings_action(c.as_str(), mapping.pi_agent),
    }
}

/// neovim's edit: the `herdr-sync` colour scheme, and the config pointed at it.
pub fn apply_to_neovim(pal: &Palette, read: Result<String, String>) -> (a: ToolAction)
    ensures
        neovim_action(*pal, read, a),
{
    match read {
        Err(e) => settle(ApplyStatus::Error(e)),
        Ok(c) => {
            let lua = neovim_sync_lua(pal);
            let config = match neovim_config_text(c.as_str()) {
                Some(t) => Ok(t),
                None => Err(ApplyStatus::Skipped(String::from_str("no colorscheme line found"))),
            };
            ToolAction::Neovim { lua, config }
        },
    }
}

/// zed's edit: the theme set in its settings.
pub fn apply_to_zed(mapping: &ToolThemeMapping, read: Result<String, String>) -> (a: ToolAction)
    ensures
        zed_action(mapping@, read, a),
{
    match read {
        Err(e) => settle(ApplyStatus::Error(e)),
        Ok(c) => match zed_config_text(c.as_str(), mapping.zed) {
            Some(t) => ToolAction::Write(t),
            None => skipped("could not find or add theme field in zed settings"),
        },
    }
}

/// tmux's edit: the catppuccin flavour set in its config.
pub fn apply_to_tmux(mapping: &ToolThemeMapping, read: Result<String, String>) -> (a: ToolAction)
    ensures
        tmux_action(mapping@, read, a),
{
    match mapping.tmux_flavour {
        None => skipped(
            "theme is not catppuccin-based; tmux catppuccin plugin only supports catppuccin flavours",
        ),
        Some(f) => match read {
            Err(e) => settle(ApplyStatus::Error(e)),
            Ok(c) => match tmux_config_text(c.as_str(), f) {
                Some(t) => ToolAction::Write(t),
                None => skipped("no @catppuccin_flavour setting found in tmux.conf"),
            },
        },
    }
}

/// ghostty's edit: the background set in its config.
pub fn apply_to_ghostty(mapping: &ToolThemeMapping, read: Result<String, String>) -> (a: ToolAction)
    ensures
        ghostty_action(mapping@, read, a),
{
    match read {
        Err(e) => settle(ApplyStatus::Error(e)),
        Ok(c) => ToolAction::Write(ghostty_config_text(c.as_str(), mapping.ghostty_bg)),
    }
}

/// OpenCode's edit: the `herdr` theme set in `tui.json`.
pub fn apply_to_opencode(read: Result<String, String>) -> (a: ToolAction)
    ensures
        opencode_action(read, a),
{
    match read {
        Err(e) => settle(ApplyStatus::Error(e)),
        Ok(c) => {
            let config = match opencode_config_text(c.as_str()) {
                Some(t) => t,
                None => opencode_fallback(),
            };
            ToolAction::Opencode { config }
        },
    }
}

/// Whether the edit for a tool reads its config: every known tool's does, but tmux's when
/// the theme has no catppuccin flavour.
pub open spec fn reads_config_spec(name: Seq<char>, m: MappingView) -> bool {
    ||| name == "herdr"@
    ||| name == "pi-agent"@
    ||| name == "neovim"@
    ||| name == "zed"@
    ||| (name == "tmux"@ && m.tmux_flavour is Some)
    ||| name == "ghostty"@
    ||| name == "opencode"@
}

/// Whether the config of a tool is to be read before its edit.
pub fn reads_config(name: &str, mapping: &ToolThemeMapping) -> (r: bool)
    ensures
        r == reads_config_spec(name@, mapping@),
{
    let v = chars_of(name);
    proof {
        lemma_tool_names_distinct();
    }
    if eq_str(&v, "tmux") {
        mapping.tmux_flavour.is_some()
    } else {
        eq_str(&v, "herdr") || eq_str(&v, "pi-agent") || eq_str(&v, "neovim") || eq_str(&v, "zed")
            || eq_str(&v, "ghostty") || eq_str(&v, "opencode")
    }
}

/// Law: a tool whose config is not read gets the same action whatever a read would have
/// given, so its config need not be read.
pub proof fn lemma_unread_config_ignored(
    name: Seq<char>,
    pal: Palette,
    m: MappingView,
    read1: Result<String, String>,
    read2: Result<String, String>,
    r: Option<ToolAction>,
)
    requires
        !reads_config_spec(name, m),
    ensures
        tool_action(name, pal, m, read1, r) == tool_action(name, pal, m, read2, r),
{
}

/// The known tools' names are different from one another.
proof fn lemma_tool_names_distinct()
    ensures
        "herdr"@.len() == 5,
        "pi-agent"@.len() == 8,
        "neovim"@.len() == 6,
        "zed"@.len() == 3,
        "tmux"@.len() == 4,
        "ghostty"@.len() == 7,
        "opencode"@.len() == 8,
        "pi-agent"@ != "opencode"@,
{
    reveal_strlit("herdr");
    reveal_strlit("pi-agent");
    reveal_strlit("neovim");
    reveal_strlit("zed");
    reveal_strlit("tmux");
    reveal_strlit("ghostty");
    reveal_strlit("opencode");
    assert("pi-agent"@[0] != "opencode"@[0]);
}

/// The tool-specific theme name that applying a theme writes to a tool's config: herdr's
/// theme (the OpenCode name), Pi's theme, neovim's generated `herdr-sync` scheme, zed's
/// theme, the tmux flavour, ghostty's background and OpenCode's `herdr` theme; `None` for
/// an unknown tool, or tmux with a theme that has no flavour.
pub open spec fn tool_theme_name(name: Seq<char>, m: MappingView) -> Option<Seq<char>> {
    if name == "herdr"@ {
        Some(m.opencode)
    } else if name == "pi-agent"@ {
        Some(m.pi_agent)
    } else if name == "neovim"@ {
        Some("herdr-sync"@)
    } else if name == "zed"@ {
        Some(m.zed)
    } else if name == "tmux"@ {
        m.tmux_flavour
    } else if name == "ghostty"@ {
        Some(m.ghostty_bg)
    } else if name == "opencode"@ {
        Some("herdr"@)
    } else {
        None
    }
}

/// The tool-specific theme name `t` is what the edit `a` of a tool writes: as herdr's TOML
/// value, as Pi's `"theme"` value (and theme file), as the neovim scheme, or as the value
/// zed's, tmux's, ghostty's and OpenCode's edits set.
pub open spec fn applies_theme(name: Seq<char>, read: Result<String, String>, a: ToolAction, t: Seq<char>) -> bool {
    if name == "herdr"@ {
        a matches ToolAction::Herdr { quoted, .. } && quoted@ == toml_string_value(t)
    } else if name == "pi-agent"@ {
        a matches ToolAction::Pi { settings, theme } && theme@ == t && exists|m: JsonObject|
            json_object_fields(m)["theme"@] == json_string_text(t) && settings@
                == #[trigger] json_object_text(m) + "\n"@
    } else if name == "neovim"@ {
        a is Neovim && t == "herdr-sync"@
    } else if name == "zed"@ {
        read is Ok && zed_config(read->Ok_0@, t) is Some && writes(
            a,
            zed_config(read->Ok_0@, t)->Some_0,
        )
    } else if name == "tmux"@ {
        read is Ok && tmux_config(read->Ok_0@, t) is Some && writes(
            a,
            tmux_config(read->Ok_0@, t)->Some_0,
        )
    } else if name == "ghostty"@ {
        read is Ok && writes(a, ghostty_config(read->Ok_0@, t))
    } else {
        name == "opencode"@ && a is Opencode && t == "herdr"@
    }
}

/// The tool-specific theme name that applying a theme writes to a tool's config.
pub fn applied_theme_name(name: &str, mapping: &ToolThemeMapping) -> (r: Option<&'static str>)
    ensures
        match tool_theme_name(name@, mapping@) {
            Some(t) => r matches Some(x) && x@ == t,
            None => r is None,
        },
{
    let v = chars_of(name);
    proof {
        lemma_tool_names_distinct();
    }
    if eq_str(&v, "herdr") {
        Some(mapping.opencode)
    } else if eq_str(&v, "pi-agent") {
        Some(mapping.pi_agent)
    } else if eq_str(&v, "neovim") {
        Some("herdr-sync")
    } else if eq_str(&v, "zed") {
        Some(mapping.zed)
    } else if eq_str(&v, "tmux") {
        mapping.tmux_flavour
    } else if eq_str(&v, "ghostty") {
        Some(mapping.ghostty_bg)
    } else if eq_str(&v, "opencode") {
        Some("herdr")
    } else {
        None
    }
}

/// What to do for a detected tool with the theme's mapping, given what came of reading its
/// config (`read_config_text`): each known tool gets its own edit, any other is skipped.
/// `None` where the Pi settings are JSON but neither an object nor `null`, on which no
/// theme can be set.
///
/// The result is the edit to perform, or the outcome to settle on; performing the edit
/// gives `Updated` or an error, the status the caller records. Every edit writes the
/// tool-specific theme name of the mapping, the name `applied_theme_name` gives.
pub fn apply_to_tool(
    tool: &DetectedTool,
    pal: &Palette,
    mapping: &ToolThemeMapping,
    read: Result<String, String>,
) -> (r: Option<ToolAction>)
    ensures
        tool_action(tool.name@, *pal, mapping@, read, r),
        match r {
            Some(a) => !(a is Settle) ==> match tool_theme_name(tool.name@, mapping@) {
                Some(t) => applies_theme(tool.name@, read, a, t),
                None => false,
            },
            None => true,
        },
{
    let name = chars_of(tool.name);
    proof {
        lemma_tool_names_distinct();
    }
    if eq_str(&name, "herdr") {
        Some(apply_to_herdr(mapping, read))
    } else if eq_str(&name, "pi-agent") {
        apply_to_pi_agent(mapping, read)
    } else if eq_str(&name, "neovim") {
        Some(apply_to_neovim(pal, read))
    } else if eq_str(&name, "zed") {
        Some(apply_to_zed(mapping, read))
    } else if eq_str(&name, "tmux") {
        Some(apply_to_tmux(mapping, read))
    } else if eq_str(&name, "ghostty") {
        Some(apply_to_ghostty(mapping, read))
    } else if eq_str(&name, "opencode") {
        Some(apply_to_opencode(read))
    } else {
        Some(ToolAction::Settle(ApplyStatus::Skipped(prefixed("unknown tool: ", tool.name))))
    }
}

// ---------------------------------------------------------------- applying a theme

/// What applying a theme does with one detected tool.
pub enum ToolStep {
    /// The tool is left as it is, with this outcome.
    Done(ToolApplyResult),
    /// The tool's config is to be updated (`apply_to_tool`) with this mapping.
    Apply(DetectedTool, ToolThemeMapping),
}

/// The steps of applying a theme, one per detected tool, and whether the global theme
/// state is to be written afterwards.
pub struct ThemePlan {
    pub steps: Vec<ToolStep>,
    pub record_state: bool,
}

/// The step a tool is given: without a mapping for the theme it is skipped; on a dry run,
/// or when herdr has no palette of that name, it is skipped too; otherwise it is updated
/// with the mapping.
pub open spec fn step_for(
    theme_name: Seq<char>,
    dry_run: bool,
    palette_found: bool,
    tool: DetectedTool,
    step: ToolStep,
) -> bool {
    match key_mapping(theme_key(theme_name)) {
        None => done_with(step, tool, "no theme mapping available"@),
        Some(m) => if dry_run {
            done_with(step, tool, "dry run"@)
        } else if !palette_found {
            done_with(step, tool, "theme not found in herdr"@)
        } else {
            step matches ToolStep::Apply(t, x) && t.name == tool.name && t.config_path@
                == tool.config_path@ && x@ == m
        },
    }
}

/// The step leaves the tool skipped with this message.
pub open spec fn done_with(step: ToolStep, tool: DetectedTool, msg: Seq<char>) -> bool {
    step matches ToolStep::Done(r) && r.name == tool.name && r.config_path@ == tool.config_path@
        && r.status@ == StatusView::Skipped(msg)
}

fn copy_string(s: &String) -> (r: String)
    ensures
        r@ == s@,
{
    string_of(&chars_of(s.as_str()))
}

fn skip_tool(tool: &DetectedTool, msg: &str) -> (step: ToolStep)
    ensures
        done_with(step, *tool, msg@),
{
    ToolStep::Done(
        ToolApplyResult {
            name: tool.name,
            config_path: copy_string(&tool.config_path),
            status: ApplyStatus::Skipped(String::from_str(msg)),
        },
    )
}

/// How a theme is applied across the detected tools: each tool's step (`step_for`) in the
/// order the tools were detected, and, unless this is a dry run, the global state recorded
/// afterwards. `palette_found` says whether herdr has a palette of that name.
pub fn apply_theme(theme_name: &str, dry_run: bool, palette_found: bool, tools: &Vec<DetectedTool>) -> (r: ThemePlan)
    ensures
        r.record_state == !dry_run,
        r.steps.len() == tools.len(),
        forall|i: int|
            0 <= i < tools.len() ==> step_for(theme_name@, dry_run, palette_found, tools[i], #[trigger] r.steps[i]),
{
    let mapping = resolve_tool_mapping(theme_name);
    let mut steps: Vec<ToolStep> = Vec::new();
    let mut i: usize = 0;
    while i < tools.len()
        invariant
            i <= tools.len(),
            steps.len() == i,
            match key_mapping(theme_key(theme_name@)) {
                Some(m) => mapping matches Some(x) && x@ == m,
                None => mapping is None,
            },
            forall|k: int|
                0 <= k < i ==> step_for(theme_name@, dry_run, palette_found, tools[k], #[trigger] steps[k]),
        decreases tools.len() - i,
    {
        let tool = &tools[i];
        let step = match mapping {
            None => skip_tool(tool, "no theme mapping available"),
            Some(m) => if dry_run {
                skip_tool(tool, "dry run")
            } else if !palette_found {
                skip_tool(tool, "theme not found in herdr")
            } else {
                ToolStep::Apply(DetectedTool { name: tool.name, config_path: copy_string(&tool.config_path) }, m)
            },
        };
        steps.push(step);
        i = i + 1;
    }
    ThemePlan { steps, record_state: !dry_run }
}

/// Whether a theme name is known to herdr: as a built-in palette, or as an external theme
/// that loads. `builtin` and `external` are the results of those two lookups.
pub fn validate_theme_name(builtin: &Option<Palette>, external: &Result<Option<Palette>, String>) -> (r: bool)
    ensures
        r == (builtin is Some || external matches Ok(Some(_))),
{
    builtin.is_some() || matches!(external, Ok(Some(_)))
}

/// The names of herdr's built-in themes, as a list of their own.
pub fn list_builtin_theme_names(names: &[&'static str]) -> (r: Vec<&'static str>)
    ensures
        r@ == names@,
{
    let mut r: Vec<&'static str> = Vec::new();
    let mut i: usize = 0;
    while i < names.len()
        invariant
            i <= names.len(),
            r@ == names@.take(i as int),
        decreases names.len() - i,
    {
        r.push(names[i]);
        assert(names@.take(i + 1) =~= names@.take(i as int).push(names@[i as int]));
        i = i + 1;
    }
    assert(names@.take(names@.len() as int) =~= names@);
    r
}

/// Law: a dry run updates no tool (and, by `apply_theme`, records no state): every tool is
/// left with an outcome.
pub proof fn lemma_dry_run_updates_nothing(
    theme_name: Seq<char>,
    palette_found: bool,
    tool: DetectedTool,
    step: ToolStep,
)
    requires
        step_for(theme_name, true, palette_found, tool, step),
    ensures
        step is Done,
{
}

// ---------------------------------------------------------------- global theme state

/// The theme a tool was given and the config it was written to.
pub struct ToolStateEntry {
    pub theme: String,
    pub config: String,
}

/// The theme applied last, when, and the tools it was applied to, each once.
pub struct GlobalThemeState {
    pub theme: String,
    pub applied_at: String,
    pub tools: Vec<(String, ToolStateEntry)>,
}

/// Tool, theme and config of each recorded entry.
pub open spec fn entries_view(v: Seq<(String, ToolStateEntry)>) -> Seq<(Seq<char>, Seq<char>, Seq<char>)> {
    v.map_values(|e: (String, ToolStateEntry)| (e.0@, e.1.theme@, e.1.config@))
}

/// The result at `i` was the last update of its tool: it updated the tool, and no later
/// result did.
pub open spec fn last_update(results: Seq<ToolApplyResult>, i: int) -> bool {
    &&& results[i].status is Updated
    &&& forall|j: int|
        i < j < results.len() ==> !(#[trigger] results[j].status is Updated && results[j].name@
            == results[i].name@)
}

/// The entry a result is recorded as: its tool, the theme, and the config it was written to.
pub open spec fn entry_of(results: Seq<ToolApplyResult>, theme: Seq<char>, i: int) -> (Seq<char>, Seq<char>, Seq<char>) {
    (results[i].name@, theme, results[i].config_path@)
}

/// The entry is the one of some tool's last update among the first `n` results.
pub open spec fn from_last_update(
    results: Seq<ToolApplyResult>,
    theme: Seq<char>,
    n: int,
    e: (Seq<char>, Seq<char>, Seq<char>),
) -> bool {
    exists|i: int| 0 <= i < n && last_update(results, i) && e == #[trigger] entry_of(results, theme, i)
}

/// The recorded entries of the first `n` results: each tool's last update, in order, with
/// the theme and the config it was written to.
pub open spec fn recorded_entries(results: Seq<ToolApplyResult>, theme: Seq<char>, n: int) -> Seq<
    (Seq<char>, Seq<char>, Seq<char>),
>
    decreases n,
{
    if n <= 0 {
        seq![]
    } else {
        let before = recorded_entries(results, theme, n - 1);
        if last_update(results, n - 1) {
            before.push(entry_of(results, theme, n - 1))
        } else {
            before
        }
    }
}

/// Whether the result at `i` is the last update of its tool.
fn is_last_update(results: &Vec<ToolApplyResult>, i: usize) -> (b: bool)
    requires
        i < results.len(),
    ensures
        b == last_update(results@, i as int),
{
    if !matches!(results[i].status, ApplyStatus::Updated) {
        return false;
    }
    let name = chars_of(results[i].name);
    let mut j: usize = i + 1;
    while j < results.len()
        invariant
            i < j <= results.len(),
            name@ == results[i as int].name@,
            forall|k: int|
                i < k < j ==> !(#[trigger] results[k].status is Updated && results[k].name@
                    == results[i as int].name@),
        decreases results.len() - j,
    {
        if matches!(results[j].status, ApplyStatus::Updated) && eq_str(&name, results[j].name) {
            return false;
        }
        j = j + 1;
    }
    true
}

/// The global theme state after applying `theme_name` with these outcomes: the theme, the
/// current time (`chrono_or_default`), and each updated tool with the config it was written
/// to. A tool updated more than once is recorded once, with its last update.
pub fn global_theme_state(theme_name: &str, results: &Vec<ToolApplyResult>) -> (r: GlobalThemeState)
    ensures
        r.theme@ == theme_name@,
        r.applied_at@ == "unknown"@ || exists|secs: nat| #[trigger] is_utc_timestamp_of(secs, r.applied_at@),
        entries_view(r.tools@) == recorded_entries(results@, theme_name@, results.len() as int),
{
    let mut tools: Vec<(String, ToolStateEntry)> = Vec::new();
    let mut i: usize = 0;
    while i < results.len()
        invariant
            i <= results.len(),
            entries_view(tools@) == recorded_entries(results@, theme_name@, i as int),
        decreases results.len() - i,
    {
        if is_last_update(results, i) {
            let ghost before = entries_view(tools@);
            let entry = ToolStateEntry {
                theme: string_of(&chars_of(theme_name)),
                config: copy_string(&results[i].config_path),
            };
            let key = string_of(&chars_of(results[i].name));
            tools.push((key, entry));
            assert(entries_view(tools@) =~= before.push(
                (results[i as int].name@, theme_name@, results[i as int].config_path@),
            ));
        }
        i = i + 1;
    }
    GlobalThemeState {
        theme: string_of(&chars_of(theme_name)),
        applied_at: chrono_or_default(),
        tools,
    }
}

/// Every recorded entry is the last update of some tool among the first `n` results.
pub proof fn lemma_recorded_from_updates(results: Seq<ToolApplyResult>, theme: Seq<char>, n: int)
    requires
        0 <= n <= results.len(),
    ensures
        forall|k: int|
            0 <= k < recorded_entries(results, theme, n).len() ==> from_last_update(
                results,
                theme,
                n,
                #[trigger] recorded_entries(results, theme, n)[k],
            ),
    decreases n,
{
    if n > 0 {
        lemma_recorded_from_updates(results, theme, n - 1);
        let before = recorded_entries(results, theme, n - 1);
        let now = recorded_entries(results, theme, n);
        assert forall|k: int| 0 <= k < now.len() implies from_last_update(
            results,
            theme,
            n,
            #[trigger] now[k],
        ) by {
            if k < before.len() {
                assert(now[k] == before[k]);
                assert(from_last_update(results, theme, n - 1, before[k]));
                let i = choose|i: int|
                    0 <= i < n - 1 && last_update(results, i) && before[k] == #[trigger] entry_of(
                        results,
                        theme,
                        i,
                    );
                assert(0 <= i < n && last_update(results, i) && now[k] == entry_of(results, theme, i));
            } else {
                assert(now[k] == entry_of(results, theme, n - 1));
                assert(last_update(results, n - 1));
            }
        }
    }
}

/// Every last update among the first `n` results is recorded.
pub proof fn lemma_updates_recorded(results: Seq<ToolApplyResult>, theme: Seq<char>, n: int)
    requires
        0 <= n <= results.len(),
    ensures
        forall|i: int|
            0 <= i < n && last_update(results, i) ==> recorded_entries(results, theme, n).contains(
                #[trigger] entry_of(results, theme, i),
            ),
    decreases n,
{
    if n > 0 {
        lemma_updates_recorded(results, theme, n - 1);
        let before = recorded_entries(results, theme, n - 1);
        let now = recorded_entries(results, theme, n);
        assert forall|i: int| 0 <= i < n && last_update(results, i) implies now.contains(
            #[trigger] entry_of(results, theme, i),
        ) by {
            let e = entry_of(results, theme, i);
            if i < n - 1 {
                let k = choose|k: int| 0 <= k < before.len() && before[k] == e;
                assert(now[k] == e);
            } else {
                assert(now[now.len() - 1] == e);
            }
        }
    }
}

/// A tool that was updated has a last update: the update at `i` or a later one of the same
/// tool.
pub proof fn lemma_last_update_exists(results: Seq<ToolApplyResult>, i: int)
    requires
        0 <= i < results.len(),
        results[i].status is Updated,
    ensures
        exists|j: int|
            i <= j < results.len() && #[trigger] last_update(results, j) && results[j].name@
                == results[i].name@,
    decreases results.len() - i,
{
    if !last_update(results, i) {
        let j = choose|j: int|
            i < j < results.len() && #[trigger] results[j].status is Updated && results[j].name@
                == results[i].name@;
        lemma_last_update_exists(results, j);
    } else {
        assert(last_update(results, i));
    }
}

/// The global theme state records only updated tools, each at most once, and every tool
/// that was updated: for each tool, with the config of its last update.
pub proof fn lemma_global_state_records_updates(results: Seq<ToolApplyResult>, theme: Seq<char>)
    ensures
        forall|a: int, b: int|
            0 <= a < b < recorded_entries(results, theme, results.len() as int).len() ==> (
            #[trigger] recorded_entries(results, theme, results.len() as int)[a]).0
                != (#[trigger] recorded_entries(results, theme, results.len() as int)[b]).0,
        forall|k: int|
            0 <= k < recorded_entries(results, theme, results.len() as int).len() ==> from_last_update(
                results,
                theme,
                results.len() as int,
                #[trigger] recorded_entries(results, theme, results.len() as int)[k],
            ),
        forall|i: int|
            0 <= i < results.len() && #[trigger] results[i].status is Updated ==> exists|k: int|
                0 <= k < recorded_entries(results, theme, results.len() as int).len()
                    && recorded_entries(results, theme, results.len() as int)[k].0
                    == results[i].name@,
{
    let n = results.len() as int;
    lemma_recorded_from_updates(results, theme, n);
    lemma_updates_recorded(results, theme, n);
    lemma_recorded_distinct(results, theme, n);
    let es = recorded_entries(results, theme, n);
    assert forall|i: int| 0 <= i < n && #[trigger] results[i].status is Updated implies exists|k: int|
        0 <= k < es.len() && es[k].0 == results[i].name@ by {
        lemma_last_update_exists(results, i);
        let j = choose|j: int|
            i <= j < n && #[trigger] last_update(results, j) && results[j].name@ == results[i].name@;
        let e = entry_of(results, theme, j);
        assert(es.contains(e));
        let k = choose|k: int| 0 <= k < es.len() && es[k] == e;
        assert(es[k].0 == results[i].name@);
    }
}

/// The entries recorded from the first `n` results name different tools.
proof fn lemma_recorded_distinct(results: Seq<ToolApplyResult>, theme: Seq<char>, n: int)
    requires
        0 <= n <= results.len(),
    ensures
        forall|a: int, b: int|
            0 <= a < b < recorded_entries(results, theme, n).len() ==> (
            #[trigger] recorded_entries(results, theme, n)[a]).0 != (
            #[trigger] recorded_entries(results, theme, n)[b]).0,
    decreases n,
{
    if n > 0 {
        lemma_recorded_distinct(results, theme, n - 1);
        lemma_recorded_from_updates(results, theme, n - 1);
        let before = recorded_entries(results, theme, n - 1);
        let now = recorded_entries(results, theme, n);
        if last_update(results, n - 1) {
            assert forall|a: int, b: int| 0 <= a < b < now.len() implies (#[trigger] now[a]).0 != (
            #[trigger] now[b]).0 by {
                if b < before.len() {
                    assert(now[a] == before[a]);
                    assert(now[b] == before[b]);
                } else {
                    assert(now[a] == before[a]);
                    assert(from_last_update(results, theme, n - 1, before[a]));
                    let i = choose|i: int|
                        0 <= i < n - 1 && last_update(results, i) && before[a] == #[trigger] entry_of(
                            results,
                            theme,
                            i,
                        );
                    assert(now[b] == entry_of(results, theme, n - 1));
                    assert(results[n - 1].status is Updated);
                }
            }
        }
    }
}

} // verus!
