//! Line-based rewrites of the tools' configuration files.
use vstd::prelude::*;

pub use crate::text::rejoinable;
use crate::text::{
    back_ws, chars_of, contains_char, contains_seq, contains_str, eq_str, indent_of, indent_vec, is_ws,
    join_lines, join_vec, lemma_back_ws_bounds, lemma_lines_join, lemma_skip_ws_bounds, lines,
    skip_ws, slice_of, split_lines, starts_with_str, string_of, trim, trim_vec, views,
};

verus! {

/// `a` followed by `b`, as a new vector.
pub fn concat(a: &Vec<char>, b: &Vec<char>) -> (r: Vec<char>)
    ensures
        r@ == a@ + b@,
{
    let mut r = slice_of(a, 0, a.len());
    let mut c = slice_of(b, 0, b.len());
    proof {
        assert(a@.subrange(0, a@.len() as int) =~= a@);
        assert(b@.subrange(0, b@.len() as int) =~= b@);
    }
    r.append(&mut c);
    r
}

/// `a` followed by a literal.
pub fn concat_str(a: &Vec<char>, b: &str) -> (r: Vec<char>)
    ensures
        r@ == a@ + b@,
{
    let bv = chars_of(b);
    concat(a, &bv)
}

// ---------------------------------------------------------------- ghostty

/// A ghostty line that sets the background.
pub open spec fn is_background_line(line: Seq<char>) -> bool {
    let t = trim(line);
    "background "@.is_prefix_of(t) || "background="@.is_prefix_of(t)
}

/// A ghostty line after the rewrite: a background setting gets the new colour, keeping
/// its indentation; any other line stays as it was.
pub open spec fn ghostty_line(line: Seq<char>, bg: Seq<char>) -> Seq<char> {
    if is_background_line(line) {
        indent_of(line) + "background = "@ + bg
    } else {
        line
    }
}

/// The ghostty config with its background set to `bg`: every background line is
/// replaced, and one is appended when there is none.
pub open spec fn ghostty_config(content: Seq<char>, bg: Seq<char>) -> Seq<char> {
    let ls = lines(content);
    let out = ls.map_values(|l: Seq<char>| ghostty_line(l, bg));
    if exists|i: int| 0 <= i < ls.len() && is_background_line(#[trigger] ls[i]) {
        join_lines(out)
    } else {
        join_lines(out.push("background = "@ + bg))
    }
}

/// A ghostty line with the background rewrite applied.
fn ghostty_line_exec(line: &Vec<char>, bg: &Vec<char>) -> (r: (Vec<char>, bool))
    ensures
        r.0@ == ghostty_line(line@, bg@),
        r.1 == is_background_line(line@),
{
    let t = trim_vec(line);
    if starts_with_str(&t, "background ") || starts_with_str(&t, "background=") {
        let ind = indent_vec(line);
        let head = concat_str(&ind, "background = ");
        (concat(&head, bg), true)
    } else {
        (slice_of(line, 0, line.len()), false)
    }
}

/// Sets `background = <bg>` in a ghostty config (`apply_to_ghostty`'s text edit).
pub fn ghostty_config_text(content: &str, bg: &str) -> (r: String)
    ensures
        r@ == ghostty_config(content@, bg@),
{
    let cv = chars_of(content);
    let bgv = chars_of(bg);
    let ls = split_lines(&cv);
    let ghost lsv = lines(content@);
    let mut out: Vec<Vec<char>> = Vec::new();
    let mut found = false;
    let mut i: usize = 0;
    while i < ls.len()
        invariant
            i <= ls.len(),
            views(ls@) == lsv,
            bgv@ == bg@,
            views(out@) == lsv.take(i as int).map_values(|l: Seq<char>| ghostty_line(l, bg@)),
            found == exists|k: int| 0 <= k < i && is_background_line(#[trigger] lsv[k]),
        decreases ls.len() - i,
    {
        let (l, hit) = ghostty_line_exec(&ls[i], &bgv);
        assert(ls@[i as int]@ == lsv[i as int]);
        let ghost before = views(out@);
        out.push(l);
        assert(views(out@) =~= before.push(ghostty_line(lsv[i as int], bg@)));
        assert(lsv.take(i + 1).map_values(|l: Seq<char>| ghostty_line(l, bg@)) =~= lsv.take(
            i as int,
        ).map_values(|l: Seq<char>| ghostty_line(l, bg@)).push(ghostty_line(lsv[i as int], bg@)));
        if hit {
            found = true;
        }
        i = i + 1;
    }
    assert(lsv.take(lsv.len() as int) =~= lsv);
    if !found {
        let empty: Vec<char> = Vec::new();
        let head = concat_str(&empty, "background = ");
        let extra = concat(&head, &bgv);
        let ghost before = views(out@);
        out.push(extra);
        assert(views(out@) =~= before.push("background = "@ + bg@));
    }
    let joined = join_vec(&out);
    string_of(&joined)
}

/// Skipping the whitespace of `ind + x` stops where `x` starts, when `ind` is all
/// whitespace and `x` starts with something else.
proof fn lemma_skip_indent(ind: Seq<char>, x: Seq<char>, i: int)
    requires
        forall|k: int| 0 <= k < ind.len() ==> is_ws(#[trigger] ind[k]),
        x.len() > 0,
        !is_ws(x[0]),
        0 <= i <= ind.len(),
    ensures
        skip_ws(ind + x, i) == ind.len(),
    decreases ind.len() - i,
{
    let s = ind + x;
    if i < ind.len() {
        assert(s[i] == ind[i]);
        lemma_skip_indent(ind, x, i + 1);
    } else {
        assert(s[i] == x[0]);
    }
}

/// A line set to the background colour is a background line, with the indent it was given.
proof fn lemma_set_background_line(ind: Seq<char>, bg: Seq<char>)
    requires
        forall|k: int| 0 <= k < ind.len() ==> is_ws(#[trigger] ind[k]),
    ensures
        is_background_line(ind + "background = "@ + bg),
        indent_of(ind + "background = "@ + bg) == ind,
{
    reveal_strlit("background = ");
    reveal_strlit("background ");
    let b = "background = "@;
    let s = ind + b + bg;
    assert(s == ind + (b + bg));
    lemma_skip_indent(ind, b + bg, 0);
    let a = ind.len() as int;
    assert(s.subrange(0, a) =~= ind);
    lemma_back_ws_bounds(s, a, s.len() as int);
    let e = back_ws(s, a, s.len() as int);
    assert(s[a + 11] == '=');
    assert(e > a + 11);
    let t = trim(s);
    assert(t == s.subrange(a, e));
    assert("background "@ =~= t.subrange(0, 11));
}

/// A line after the background is set keeps the form the rewrite gives it.
proof fn lemma_ghostty_line_fixed(line: Seq<char>, bg: Seq<char>)
    ensures
        ghostty_line(ghostty_line(line, bg), bg) == ghostty_line(line, bg),
{
    if is_background_line(line) {
        lemma_skip_ws_bounds(line, 0);
        let ind = indent_of(line);
        assert forall|k: int| 0 <= k < ind.len() implies is_ws(#[trigger] ind[k]) by {
            assert(ind[k] == line[k]);
        }
        lemma_set_background_line(ind, bg);
    }
}

/// The lines the ghostty edit writes: every line with the background rewrite applied, and
/// a background line added at the end when there was none.
pub open spec fn ghostty_lines(content: Seq<char>, bg: Seq<char>) -> Seq<Seq<char>> {
    let ls = lines(content);
    let out = ls.map_values(|l: Seq<char>| ghostty_line(l, bg));
    if exists|i: int| 0 <= i < ls.len() && is_background_line(#[trigger] ls[i]) {
        out
    } else {
        out.push("background = "@ + bg)
    }
}

/// Law: setting ghostty's background twice gives what setting it once gave. This holds when
/// the written lines read back as themselves: none holds a line break, none but the last
/// ends with a carriage return, and the last is not empty.
pub proof fn lemma_ghostty_config_idempotent(content: Seq<char>, bg: Seq<char>)
    requires
        rejoinable(ghostty_lines(content, bg)),
    ensures
        ghostty_config(ghostty_config(content, bg), bg) == ghostty_config(content, bg),
{
    let ls = lines(content);
    let found = exists|i: int| 0 <= i < ls.len() && is_background_line(#[trigger] ls[i]);
    let extra = "background = "@ + bg;
    let out2 = ghostty_lines(content, bg);
    assert(ghostty_config(content, bg) == join_lines(out2));
    assert(extra =~= Seq::<char>::empty() + "background = "@ + bg);
    lemma_set_background_line(Seq::<char>::empty(), bg);
    // Each written line is written again as it is.
    assert forall|i: int| 0 <= i < out2.len() implies ghostty_line(#[trigger] out2[i], bg)
        == out2[i] by {
        if i < ls.len() {
            assert(out2[i] == ghostty_line(ls[i], bg));
            lemma_ghostty_line_fixed(ls[i], bg);
        } else {
            assert(out2[i] == extra);
        }
    }
    lemma_lines_join(out2);
    let out3 = out2.map_values(|l: Seq<char>| ghostty_line(l, bg));
    assert(out3 =~= out2);
    let found2 = exists|i: int| 0 <= i < out2.len() && is_background_line(#[trigger] out2[i]);
    assert(found2) by {
        if found {
            let i = choose|i: int| 0 <= i < ls.len() && is_background_line(#[trigger] ls[i]);
            lemma_skip_ws_bounds(ls[i], 0);
            let ind = indent_of(ls[i]);
            assert forall|k: int| 0 <= k < ind.len() implies is_ws(#[trigger] ind[k]) by {
                assert(ind[k] == ls[i][k]);
            }
            lemma_set_background_line(ind, bg);
            assert(out2[i] == ghostty_line(ls[i], bg));
            assert(is_background_line(out2[i]));
        } else {
            assert(is_background_line(out2[out2.len() - 1]));
        }
    }
}

// ---------------------------------------------------------------- shared helpers

/// Index of the first line of `ls` that satisfies `p`, or `ls.len()` when none does.
pub open spec fn first_index(ls: Seq<Seq<char>>, p: spec_fn(Seq<char>) -> bool) -> int
    decreases ls.len(),
{
    if ls.len() == 0 {
        0
    } else {
        let f = first_index(ls.drop_last(), p);
        if f < ls.len() - 1 {
            f
        } else if p(ls.last()) {
            ls.len() - 1
        } else {
            ls.len() as int
        }
    }
}

pub proof fn lemma_first_index(ls: Seq<Seq<char>>, p: spec_fn(Seq<char>) -> bool)
    ensures
        0 <= first_index(ls, p) <= ls.len(),
        first_index(ls, p) < ls.len() ==> p(ls[first_index(ls, p)]),
        forall|k: int| 0 <= k < first_index(ls, p) ==> !p(#[trigger] ls[k]),
    decreases ls.len(),
{
    if ls.len() > 0 {
        lemma_first_index(ls.drop_last(), p);
        assert forall|k: int| 0 <= k < first_index(ls, p) implies !p(#[trigger] ls[k]) by {
            if k < ls.len() - 1 {
                assert(ls[k] == ls.drop_last()[k]);
            }
        }
    }
}

pub proof fn lemma_first_index_push(ls: Seq<Seq<char>>, x: Seq<char>, p: spec_fn(Seq<char>) -> bool)
    ensures
        first_index(ls.push(x), p) == if first_index(ls, p) < ls.len() {
            first_index(ls, p)
        } else if p(x) {
            ls.len() as int
        } else {
            ls.len() + 1int
        },
{
    assert(ls.push(x).drop_last() =~= ls);
    lemma_first_index(ls, p);
}

/// `c` is a quote character.
pub open spec fn is_quote(c: char) -> bool {
    c == '\'' || c == '"'
}

/// First index at or after `i` holding `c`, or the length.
pub open spec fn find_char_from(s: Seq<char>, i: int, c: char) -> int
    decreases s.len() - i,
{
    if 0 <= i < s.len() {
        if s[i] == c {
            i
        } else {
            find_char_from(s, i + 1, c)
        }
    } else {
        s.len() as int
    }
}

/// First index at or after `i` holding a quote character, or the length.
pub open spec fn find_quote_from(s: Seq<char>, i: int) -> int
    decreases s.len() - i,
{
    if 0 <= i < s.len() {
        if is_quote(s[i]) {
            i
        } else {
            find_quote_from(s, i + 1)
        }
    } else {
        s.len() as int
    }
}

pub proof fn lemma_find_char_from(s: Seq<char>, i: int, c: char)
    requires
        0 <= i <= s.len(),
    ensures
        i <= find_char_from(s, i, c) <= s.len(),
        find_char_from(s, i, c) < s.len() ==> s[find_char_from(s, i, c)] == c,
    decreases s.len() - i,
{
    if i < s.len() && s[i] != c {
        lemma_find_char_from(s, i + 1, c);
    }
}

pub proof fn lemma_find_quote_from(s: Seq<char>, i: int)
    requires
        0 <= i <= s.len(),
    ensures
        i <= find_quote_from(s, i) <= s.len(),
        find_quote_from(s, i) < s.len() ==> is_quote(s[find_quote_from(s, i)]),
    decreases s.len() - i,
{
    if i < s.len() && !is_quote(s[i]) {
        lemma_find_quote_from(s, i + 1);
    }
}

fn find_char_exec(s: &Vec<char>, i: usize, c: char) -> (r: usize)
    requires
        i <= s.len(),
    ensures
        r as int == find_char_from(s@, i as int, c),
        i <= r <= s.len(),
{
    let mut j = i;
    while j < s.len() && s[j] != c
        invariant
            i <= j <= s.len(),
            find_char_from(s@, j as int, c) == find_char_from(s@, i as int, c),
        decreases s.len() - j,
    {
        j = j + 1;
    }
    j
}

fn find_quote_exec(s: &Vec<char>) -> (r: usize)
    ensures
        r as int == find_quote_from(s@, 0),
        r <= s.len(),
{
    let mut j: usize = 0;
    while j < s.len() && !(s[j] == '\'' || s[j] == '"')
        invariant
            j <= s.len(),
            find_quote_from(s@, j as int) == find_quote_from(s@, 0),
        decreases s.len() - j,
    {
        j = j + 1;
    }
    j
}

// ---------------------------------------------------------------- tmux

/// The rewrite of one tmux line: a `set ... @catppuccin_flavour '<x>'` line gets the new
/// flavour between its first pair of matching quotes; `None` for any other line.
pub open spec fn tmux_line(line: Seq<char>, flavour: Seq<char>) -> Option<Seq<char>> {
    let t = trim(line);
    if "set"@.is_prefix_of(t) && contains_seq(t, "@catppuccin_flavour"@) {
        let q = find_quote_from(t, 0);
        if q < t.len() {
            let e = find_char_from(t, q + 1, t[q]);
            if e < t.len() {
                Some(indent_of(line) + t.subrange(0, q + 1) + flavour + t.subrange(e, t.len() as int))
            } else {
                None
            }
        } else {
            None
        }
    } else {
        None
    }
}

/// A tmux line after the rewrite.
pub open spec fn tmux_out_line(line: Seq<char>, flavour: Seq<char>) -> Seq<char> {
    match tmux_line(line, flavour) {
        Some(x) => x,
        None => line,
    }
}

/// The tmux config with its catppuccin flavour set, or `None` when no line sets it.
pub open spec fn tmux_config(content: Seq<char>, flavour: Seq<char>) -> Option<Seq<char>> {
    let ls = lines(content);
    if exists|i: int| 0 <= i < ls.len() && #[trigger] tmux_line(ls[i], flavour) is Some {
        Some(join_lines(ls.map_values(|l: Seq<char>| tmux_out_line(l, flavour))))
    } else {
        None
    }
}

/// A trimmed line starts and ends with something other than whitespace, and is a part of
/// the line.
proof fn lemma_trim_ends(line: Seq<char>)
    ensures
        trim(line).len() > 0 ==> !is_ws(trim(line)[0]) && !is_ws(trim(line).last()),
        forall|k: int| 0 <= k < trim(line).len() ==> #[trigger] trim(line)[k] == line[skip_ws(line, 0) + k],
        0 <= skip_ws(line, 0) <= line.len(),
        skip_ws(line, 0) + trim(line).len() <= line.len(),
{
    lemma_skip_ws_bounds(line, 0);
    let a = skip_ws(line, 0);
    lemma_back_ws_bounds(line, a, line.len() as int);
    let b = back_ws(line, a, line.len() as int);
    let t = trim(line);
    assert(t == line.subrange(a, b));
    if t.len() > 0 {
        assert(t[0] == line[a]);
        assert(t.last() == line[b - 1]);
    }
}

proof fn lemma_find_quote_before(s: Seq<char>, i: int)
    requires
        0 <= i <= s.len(),
    ensures
        forall|k: int| i <= k < find_quote_from(s, i) ==> !is_quote(#[trigger] s[k]),
    decreases s.len() - i,
{
    if i < s.len() && !is_quote(s[i]) {
        lemma_find_quote_before(s, i + 1);
    }
}

proof fn lemma_find_quote_same(s1: Seq<char>, s2: Seq<char>, i: int, q: int)
    requires
        0 <= i <= q,
        q < s1.len(),
        q < s2.len(),
        forall|k: int| 0 <= k <= q ==> s1[k] == s2[k],
        find_quote_from(s1, i) == q,
    ensures
        find_quote_from(s2, i) == q,
    decreases q - i,
{
    if i < q {
        assert(!is_quote(s1[i]));
        assert(find_quote_from(s1, i + 1) == q);
        lemma_find_quote_same(s1, s2, i + 1, q);
        assert(s2[i] == s1[i]);
    } else {
        lemma_find_quote_from(s1, q + 1);
        assert(is_quote(s1[q]));
        assert(s2[q] == s1[q]);
    }
}

proof fn lemma_find_char_at(s: Seq<char>, i: int, j: int, c: char)
    requires
        0 <= i <= j < s.len(),
        s[j] == c,
        forall|k: int| i <= k < j ==> #[trigger] s[k] != c,
    ensures
        find_char_from(s, i, c) == j,
    decreases j - i,
{
    if i < j {
        lemma_find_char_at(s, i + 1, j, c);
    }
}

/// In a line that sets the flavour, `@catppuccin_flavour` comes before the value's opening
/// quote.
pub open spec fn flavour_named_before_value(line: Seq<char>) -> bool {
    let t = trim(line);
    contains_seq(t.subrange(0, find_quote_from(t, 0)), "@catppuccin_flavour"@)
}

/// A flavour line, once set, is set again to itself; it holds no line break where neither
/// the line nor the flavour does, and it ends with something other than whitespace.
proof fn lemma_tmux_line_fixed(line: Seq<char>, f: Seq<char>)
    requires
        tmux_line(line, f) is Some,
        flavour_named_before_value(line),
        forall|k: int| 0 <= k < f.len() ==> !is_quote(#[trigger] f[k]),
    ensures
        tmux_line(tmux_line(line, f)->Some_0, f) == tmux_line(line, f),
        tmux_line(line, f)->Some_0.len() > 0,
        !is_ws(tmux_line(line, f)->Some_0.last()),
        !line.contains('\n') && !f.contains('\n') ==> !tmux_line(line, f)->Some_0.contains('\n'),
{
    let marker = "@catppuccin_flavour"@;
    reveal_strlit("set");
    let t = trim(line);
    lemma_trim_ends(line);
    lemma_find_quote_from(t, 0);
    lemma_find_quote_before(t, 0);
    let q = find_quote_from(t, 0);
    let c = t[q];
    lemma_find_char_from(t, q + 1, c);
    let e = find_char_from(t, q + 1, c);
    lemma_skip_ws_bounds(line, 0);
    let ind = indent_of(line);
    assert forall|k: int| 0 <= k < ind.len() implies is_ws(#[trigger] ind[k]) by {
        assert(ind[k] == line[k]);
    }
    let tp = t.subrange(0, q + 1) + f + t.subrange(e, t.len() as int);
    let x = ind + t.subrange(0, q + 1) + f + t.subrange(e, t.len() as int);
    assert(x =~= ind + tp);
    assert(tmux_line(line, f) == Some(x));
    assert(tp[0] == t[0]);
    assert(tp.last() == t.last());
    lemma_trim_indented(ind, tp);
    assert(x.last() == t.last());
    // `set` still starts the trimmed line, and the flavour is still named before the quote.
    assert(t.subrange(0, 3) =~= "set"@);
    assert(q >= 3) by {
        if q < 3 {
            assert(t[q] == "set"@[q]);
        }
    }
    assert(tp.subrange(0, 3) =~= t.subrange(0, 3));
    assert("set"@.is_prefix_of(tp));
    let i0 = choose|i: int|
        0 <= i <= q - marker.len() && #[trigger] t.subrange(0, q).subrange(i, i + marker.len()) == marker;
    assert(tp.subrange(i0, i0 + marker.len()) =~= t.subrange(0, q).subrange(i0, i0 + marker.len()));
    assert(contains_seq(tp, marker));
    // The same quotes are found again, with the flavour between them.
    assert forall|k: int| 0 <= k <= q implies t[k] == tp[k] by {}
    lemma_find_quote_same(t, tp, 0, q);
    let e2 = q + 1 + f.len();
    assert(tp[e2] == t[e]);
    assert forall|k: int| q + 1 <= k < e2 implies #[trigger] tp[k] != c by {
        assert(tp[k] == f[k - q - 1]);
    }
    lemma_find_char_at(tp, q + 1, e2, c);
    assert(tp.subrange(0, q + 1) =~= t.subrange(0, q + 1));
    assert(tp.subrange(e2, tp.len() as int) =~= t.subrange(e, t.len() as int));
    assert(tmux_line(x, f) == Some(x));
    if !line.contains('\n') && !f.contains('\n') && x.contains('\n') {
        let k = choose|k: int| 0 <= k < x.len() && x[k] == '\n';
        let a = skip_ws(line, 0);
        if k < ind.len() {
            assert(x[k] == line[k]);
        } else if k < ind.len() + q + 1 {
            assert(x[k] == t[k - ind.len()]);
            assert(line[a + k - ind.len()] == '\n');
        } else if k < ind.len() + q + 1 + f.len() {
            assert(x[k] == f[k - ind.len() - q - 1]);
        } else {
            let kk = e + (k - ind.len() - q - 1 - f.len());
            assert(x[k] == t[kk]);
            assert(line[a + kk] == '\n');
        }
    }
}

/// The lines the tmux edit writes: every line with the flavour rewrite applied.
pub open spec fn tmux_lines(content: Seq<char>, flavour: Seq<char>) -> Seq<Seq<char>> {
    lines(content).map_values(|l: Seq<char>| tmux_out_line(l, flavour))
}

/// Law: setting the tmux flavour twice gives what setting it once gave. This holds when the
/// written lines read back as themselves, `@catppuccin_flavour` comes before the value's
/// opening quote in the flavour lines, and the flavour holds no quote.
pub proof fn lemma_tmux_config_idempotent(content: Seq<char>, flavour: Seq<char>)
    requires
        rejoinable(tmux_lines(content, flavour)),
        forall|i: int|
            0 <= i < lines(content).len() && #[trigger] tmux_line(lines(content)[i], flavour) is Some
                ==> flavour_named_before_value(lines(content)[i]),
        forall|k: int| 0 <= k < flavour.len() ==> !is_quote(#[trigger] flavour[k]),
        tmux_config(content, flavour) is Some,
    ensures
        tmux_config(tmux_config(content, flavour)->Some_0, flavour) == tmux_config(content, flavour),
{
    let ls = lines(content);
    let out = tmux_lines(content, flavour);
    assert(out =~= ls.map_values(|l: Seq<char>| tmux_out_line(l, flavour)));
    assert(tmux_config(content, flavour) == Some(join_lines(out)));
    assert forall|i: int| 0 <= i < out.len() implies {
        &&& tmux_out_line(#[trigger] out[i], flavour) == out[i]
        &&& (tmux_line(ls[i], flavour) is Some ==> tmux_line(out[i], flavour) is Some)
    } by {
        let l = ls[i];
        assert(out[i] == tmux_out_line(l, flavour));
        if tmux_line(l, flavour) is Some {
            lemma_tmux_line_fixed(l, flavour);
        }
    }
    lemma_lines_join(out);
    let out2 = out.map_values(|l: Seq<char>| tmux_out_line(l, flavour));
    assert(out2 =~= out);
    let i = choose|i: int| 0 <= i < ls.len() && #[trigger] tmux_line(ls[i], flavour) is Some;
    assert(tmux_line(out[i], flavour) is Some);
}

fn tmux_line_exec(line: &Vec<char>, flavour: &Vec<char>) -> (r: Option<Vec<char>>)
    ensures
        match tmux_line(line@, flavour@) {
            Some(x) => r matches Some(v) && v@ == x,
            None => r is None,
        },
{
    let t = trim_vec(line);
    if starts_with_str(&t, "set") && contains_str(&t, "@catppuccin_flavour") {
        let q = find_quote_exec(&t);
        if q < t.len() {
            let e = find_char_exec(&t, q + 1, t[q]);
            if e < t.len() {
                let ind = indent_vec(line);
                let before = slice_of(&t, 0, q + 1);
                let after = slice_of(&t, e, t.len());
                let a = concat(&ind, &before);
                let b = concat(&a, flavour);
                return Some(concat(&b, &after));
            }
        }
    }
    None
}

/// Sets the catppuccin flavour in a tmux config (`apply_to_tmux`'s text edit); `None`
/// when no line sets `@catppuccin_flavour` between quotes.
pub fn tmux_config_text(content: &str, flavour: &str) -> (r: Option<String>)
    ensures
        match tmux_config(content@, flavour@) {
            Some(x) => r matches Some(s) && s@ == x,
            None => r is None,
        },
{
    let cv = chars_of(content);
    let fv = chars_of(flavour);
    let ls = split_lines(&cv);
    let ghost lsv = lines(content@);
    let mut out: Vec<Vec<char>> = Vec::new();
    let mut found = false;
    let mut i: usize = 0;
    while i < ls.len()
        invariant
            i <= ls.len(),
            views(ls@) == lsv,
            fv@ == flavour@,
            views(out@) == lsv.take(i as int).map_values(
                |l: Seq<char>| tmux_out_line(l, flavour@),
            ),
            found == exists|k: int| 0 <= k < i && #[trigger] tmux_line(lsv[k], flavour@) is Some,
        decreases ls.len() - i,
    {
        assert(ls@[i as int]@ == lsv[i as int]);
        let l = match tmux_line_exec(&ls[i], &fv) {
            Some(x) => {
                found = true;
                x
            },
            None => {
                let c = slice_of(&ls[i], 0, ls[i].len());
                assert(c@ =~= ls@[i as int]@);
                c
            },
        };
        let ghost before = views(out@);
        out.push(l);
        assert(views(out@) =~= before.push(tmux_out_line(lsv[i as int], flavour@)));
        assert(lsv.take(i + 1).map_values(|l: Seq<char>| tmux_out_line(l, flavour@))
            =~= lsv.take(i as int).map_values(|l: Seq<char>| tmux_out_line(l, flavour@)).push(
            tmux_out_line(lsv[i as int], flavour@),
        ));
        i = i + 1;
    }
    assert(lsv.take(lsv.len() as int) =~= lsv);
    if !found {
        return None;
    }
    let joined = join_vec(&out);
    Some(string_of(&joined))
}

// ---------------------------------------------------------------- neovim

/// A line that starts an old generated herdr-sync block: it and everything after it is dropped.
pub open spec fn is_sync_marker(line: Seq<char>) -> bool {
    let t = trim(line);
    "-- herdr-sync:"@.is_prefix_of(t) || "vim.g.colors_name = \"herdr-sync\""@.is_prefix_of(t)
        || t == "local h = vim.api.nvim_set_hl"@
}

/// A line that selects the colour scheme.
pub open spec fn is_colorscheme_line(line: Seq<char>) -> bool {
    let t = trim(line);
    "vim.cmd.colorscheme("@.is_prefix_of(t) || "colorscheme "@.is_prefix_of(t) || t
        == "require(\"herdr-sync\")"@
}

/// The lines before the first sync marker, with the first colour-scheme line among them
/// replaced by `require("herdr-sync")` at the same indentation.
pub open spec fn neovim_kept(kept: Seq<Seq<char>>) -> Seq<Seq<char>> {
    let c = first_index(kept, |l: Seq<char>| is_colorscheme_line(l));
    if c < kept.len() {
        kept.update(c, indent_of(kept[c]) + "require(\"herdr-sync\")"@)
    } else {
        kept
    }
}

/// The neovim config pointed at the generated `herdr-sync` scheme, or `None` when no
/// colour-scheme line comes before the first sync marker.
pub open spec fn neovim_config(content: Seq<char>) -> Option<Seq<char>> {
    let ls = lines(content);
    let kept = ls.take(first_index(ls, |l: Seq<char>| is_sync_marker(l)));
    if first_index(kept, |l: Seq<char>| is_colorscheme_line(l)) < kept.len() {
        Some(join_lines(neovim_kept(kept)))
    } else {
        None
    }
}

/// A line made of whitespace and then `x`, which starts and ends with something else, trims
/// to `x` and is indented by the whitespace.
proof fn lemma_trim_indented(ind: Seq<char>, x: Seq<char>)
    requires
        forall|k: int| 0 <= k < ind.len() ==> is_ws(#[trigger] ind[k]),
        x.len() > 0,
        !is_ws(x[0]),
        !is_ws(x.last()),
    ensures
        trim(ind + x) == x,
        indent_of(ind + x) == ind,
{
    let s = ind + x;
    lemma_skip_indent(ind, x, 0);
    let a = ind.len() as int;
    assert(s.last() == x.last());
    assert(back_ws(s, a, s.len() as int) == s.len());
    assert(s.subrange(a, s.len() as int) =~= x);
    assert(s.subrange(0, a) =~= ind);
}

/// The lines kept before the first sync marker.
pub open spec fn neovim_kept_lines(content: Seq<char>) -> Seq<Seq<char>> {
    let ls = lines(content);
    ls.take(first_index(ls, |l: Seq<char>| is_sync_marker(l)))
}

/// Law: pointing a neovim config at `herdr-sync` twice gives what doing it once gave. This
/// holds when the written lines read back as themselves: none holds a line break, none but
/// the last ends with a carriage return, and the last is not empty.
pub proof fn lemma_neovim_config_idempotent(content: Seq<char>)
    requires
        rejoinable(neovim_kept(neovim_kept_lines(content))),
        neovim_config(content) is Some,
    ensures
        neovim_config(neovim_config(content)->Some_0) == neovim_config(content),
{
    let req = "require(\"herdr-sync\")"@;
    reveal_strlit("require(\"herdr-sync\")");
    reveal_strlit("-- herdr-sync:");
    reveal_strlit("vim.g.colors_name = \"herdr-sync\"");
    reveal_strlit("local h = vim.api.nvim_set_hl");
    let ls = lines(content);
    let mp = |l: Seq<char>| is_sync_marker(l);
    let cp = |l: Seq<char>| is_colorscheme_line(l);
    lemma_first_index(ls, mp);
    let kept = neovim_kept_lines(content);
    assert(kept == ls.take(first_index(ls, mp)));
    lemma_first_index(kept, cp);
    let c = first_index(kept, cp);
    assert(c < kept.len());
    let ind = indent_of(kept[c]);
    lemma_skip_ws_bounds(kept[c], 0);
    assert forall|k: int| 0 <= k < ind.len() implies is_ws(#[trigger] ind[k]) by {
        assert(ind[k] == kept[c][k]);
    }
    let r = ind + req;
    lemma_trim_indented(ind, req);
    let n = kept.update(c, r);
    assert(n == neovim_kept(kept));
    lemma_lines_join(n);
    // No line of it is a sync marker, so all of it is kept again.
    assert forall|i: int| 0 <= i < n.len() implies !is_sync_marker(#[trigger] n[i]) by {
        if i == c {
            assert(trim(r) == req);
            let m1 = "-- herdr-sync:"@;
            let m2 = "vim.g.colors_name = \"herdr-sync\""@;
            if m1.is_prefix_of(req) {
                assert(req.subrange(0, m1.len() as int)[0] == req[0]);
            }
            if m2.is_prefix_of(req) {
                assert(req.subrange(0, m2.len() as int)[0] == req[0]);
            }
            assert(req != "local h = vim.api.nvim_set_hl"@);
        } else {
            assert(n[i] == kept[i]);
            assert(kept[i] == ls[i]);
            assert(!mp(ls[i]));
        }
    }
    lemma_first_index(n, mp);
    if first_index(n, mp) < n.len() {
        assert(mp(n[first_index(n, mp)]));
    }
    assert(n.take(first_index(n, mp)) =~= n);
    // Its first colour-scheme line is the one set before, which stays as it is.
    lemma_first_index(n, cp);
    assert forall|k: int| 0 <= k < c implies !cp(#[trigger] n[k]) by {
        assert(n[k] == kept[k]);
    }
    assert(cp(n[c])) by {
        assert(trim(r) == req);
    }
    assert(first_index(n, cp) == c) by {
        let f = first_index(n, cp);
        if f < c {
            assert(cp(n[f]));
        } else if f > c {
            assert(!cp(n[c]));
        }
    }
    assert(indent_of(n[c]) == ind);
    assert(n.update(c, indent_of(n[c]) + req) =~= n);
    assert(neovim_kept(n) == n);
}

fn is_sync_marker_exec(line: &Vec<char>) -> (r: bool)
    ensures
        r == is_sync_marker(line@),
{
    let t = trim_vec(line);
    starts_with_str(&t, "-- herdr-sync:") || starts_with_str(&t, "vim.g.colors_name = \"herdr-sync\"")
        || eq_str(&t, "local h = vim.api.nvim_set_hl")
}

fn is_colorscheme_line_exec(line: &Vec<char>) -> (r: bool)
    ensures
        r == is_colorscheme_line(line@),
{
    let t = trim_vec(line);
    starts_with_str(&t, "vim.cmd.colorscheme(") || starts_with_str(&t, "colorscheme ") || eq_str(
        &t,
        "require(\"herdr-sync\")",
    )
}

/// Points a neovim config at `require("herdr-sync")` and drops an old generated block
/// (`apply_to_neovim`'s text edit); `None` when no colour-scheme line is found.
pub fn neovim_config_text(content: &str) -> (r: Option<String>)
    ensures
        match neovim_config(content@) {
            Some(x) => r matches Some(s) && s@ == x,
            None => r is None,
        },
{
    let cv = chars_of(content);
    let ls = split_lines(&cv);
    let ghost lsv = lines(content@);
    let ghost marker = |l: Seq<char>| is_sync_marker(l);
    let ghost scheme = |l: Seq<char>| is_colorscheme_line(l);
    let mut out: Vec<Vec<char>> = Vec::new();
    let mut found = false;
    let mut stop = false;
    let mut i: usize = 0;
    while i < ls.len() && !stop
        invariant
            i <= ls.len(),
            views(ls@) == lsv,
            forall|k: int| 0 <= k < i ==> !is_sync_marker(#[trigger] lsv[k]),
            stop ==> i < ls.len() && is_sync_marker(lsv[i as int]),
            views(out@) == neovim_kept(lsv.take(i as int)),
            found == (first_index(lsv.take(i as int), scheme) < i),
            marker == (|l: Seq<char>| is_sync_marker(l)),
            scheme == (|l: Seq<char>| is_colorscheme_line(l)),
        decreases ls.len() - i + (if stop { 0int } else { 1int }),
    {
        assert(ls@[i as int]@ == lsv[i as int]);
        if is_sync_marker_exec(&ls[i]) {
            stop = true;
            continue;
        }
        let ghost pre = lsv.take(i as int);
        assert(lsv.take(i + 1) =~= pre.push(lsv[i as int]));
        proof {
            lemma_first_index_push(pre, lsv[i as int], scheme);
            lemma_first_index(pre, scheme);
        }
        let ghost before = views(out@);
        if !found && is_colorscheme_line_exec(&ls[i]) {
            let ind = indent_vec(&ls[i]);
            let l = concat_str(&ind, "require(\"herdr-sync\")");
            out.push(l);
            found = true;
            assert(views(out@) =~= neovim_kept(lsv.take(i + 1)));
        } else {
            let c = slice_of(&ls[i], 0, ls[i].len());
            assert(c@ =~= lsv[i as int]);
            out.push(c);
            assert(views(out@) =~= before.push(lsv[i as int]));
            if found {
                let ghost fi = first_index(pre, scheme);
                assert(first_index(lsv.take(i + 1), scheme) == fi);
                assert(neovim_kept(lsv.take(i + 1)) == lsv.take(i + 1).update(fi, indent_of(pre[fi]) + "require(\"herdr-sync\")"@));
                assert(before == pre.update(fi, indent_of(pre[fi]) + "require(\"herdr-sync\")"@));
                assert(views(out@) =~= neovim_kept(lsv.take(i + 1)));
            } else {
                assert(!is_colorscheme_line(lsv[i as int]));
                assert(first_index(lsv.take(i + 1), scheme) == i + 1);
                assert(views(out@) =~= neovim_kept(lsv.take(i + 1)));
            }
        }
        i = i + 1;
    }
    proof {
        lemma_first_index(lsv, marker);
        if i < lsv.len() {
            assert(is_sync_marker(lsv[i as int]));
        }
        assert(first_index(lsv, marker) == i);
    }
    if !found {
        return None;
    }
    let joined = join_vec(&out);
    Some(string_of(&joined))
}

// ---------------------------------------------------------------- zed

/// A `"theme"` key line of a JSON settings file.
pub open spec fn is_theme_key(t: Seq<char>) -> bool {
    "\"theme\":"@.is_prefix_of(t) || "\"theme\" :"@.is_prefix_of(t)
}

/// A `"dark"` key line of zed's theme object.
pub open spec fn is_dark_key(t: Seq<char>) -> bool {
    "\"dark\":"@.is_prefix_of(t) || "\"dark\" :"@.is_prefix_of(t)
}

/// The rewritten body of zed's `"theme": { ... }` object, from line `j` on: each line is
/// re-indented under `ind`, a `"dark"` entry gets the new theme, and the first line that
/// starts with `}` closes the object as `ind},`. Also yields the index after the object.
pub open spec fn zed_block(ls: Seq<Seq<char>>, j: int, ind: Seq<char>, zed: Seq<char>) -> (
    Seq<Seq<char>>,
    int,
)
    decreases ls.len() - j,
{
    if 0 <= j < ls.len() {
        let t = trim(ls[j]);
        if "}"@.is_prefix_of(t) {
            (seq![ind + "},"@], j + 1)
        } else {
            let rest = zed_block(ls, j + 1, ind, zed);
            let line = if is_dark_key(t) {
                ind + "  \"dark\": \""@ + zed + "\","@
            } else {
                ind + "  "@ + t
            };
            (seq![line] + rest.0, rest.1)
        }
    } else {
        (seq![], j)
    }
}

pub proof fn lemma_zed_block(ls: Seq<Seq<char>>, j: int, ind: Seq<char>, zed: Seq<char>)
    requires
        0 <= j <= ls.len(),
    ensures
        j <= zed_block(ls, j, ind, zed).1 <= ls.len(),
        j < ls.len() ==> j < zed_block(ls, j, ind, zed).1,
    decreases ls.len() - j,
{
    if j < ls.len() {
        lemma_zed_block(ls, j + 1, ind, zed);
    }
}

/// Zed settings from line `i` on with the theme set: a string-valued `"theme"` line is
/// replaced, an object-valued one has its `"dark"` entry replaced. Also says whether a
/// `"theme"` line was met.
pub open spec fn zed_from(ls: Seq<Seq<char>>, i: int, zed: Seq<char>) -> (Seq<Seq<char>>, bool)
    decreases ls.len() - i,
{
    if 0 <= i < ls.len() {
        let raw = ls[i];
        let t = trim(raw);
        if is_theme_key(t) {
            let ind = indent_of(raw);
            if t.contains('{') {
                let b = zed_block(ls, i + 1, ind, zed);
                proof {
                    lemma_zed_block(ls, i + 1, ind, zed);
                }
                let rest = zed_from(ls, b.1, zed);
                (seq![ind + "\"theme\": {"@] + b.0 + rest.0, true)
            } else {
                let rest = zed_from(ls, i + 1, zed);
                (seq![ind + "\"theme\": \""@ + zed + "\","@] + rest.0, true)
            }
        } else {
            let rest = zed_from(ls, i + 1, zed);
            (seq![raw] + rest.0, rest.1)
        }
    } else {
        (seq![], false)
    }
}

/// The zed settings with the theme set to `zed`; when no `"theme"` line exists, one is
/// added before a closing `}` (or `},`) last line; `None` when neither is possible.
pub open spec fn zed_config(content: Seq<char>, zed: Seq<char>) -> Option<Seq<char>> {
    let r = zed_from(lines(content), 0, zed);
    let out = r.0;
    if r.1 {
        Some(join_lines(out))
    } else if out.len() > 0 && (trim(out.last()) == "}"@ || trim(out.last()) == "},"@) {
        Some(join_lines(out.update(out.len() - 1, "  \"theme\": \""@ + zed + "\",\n}"@)))
    } else {
        None
    }
}

fn is_theme_key_exec(t: &Vec<char>) -> (r: bool)
    ensures
        r == is_theme_key(t@),
{
    starts_with_str(t, "\"theme\":") || starts_with_str(t, "\"theme\" :")
}

/// Sets the theme in zed's `settings.json` (`apply_to_zed`'s text edit); `None` when no
/// theme field can be found or added.
pub fn zed_config_text(content: &str, zed: &str) -> (r: Option<String>)
    ensures
        match zed_config(content@, zed@) {
            Some(x) => r matches Some(s) && s@ == x,
            None => r is None,
        },
{
    let cv = chars_of(content);
    let zv = chars_of(zed);
    let ls = split_lines(&cv);
    let ghost lsv = lines(content@);
    let ghost total = zed_from(lsv, 0, zed@);
    let n = ls.len();
    let mut out: Vec<Vec<char>> = Vec::new();
    let mut found = false;
    let mut i: usize = 0;
    assert(views(out@) + zed_from(lsv, 0, zed@).0 =~= total.0);
    while i < n
        invariant
            n == ls.len(),
            i <= n,
            views(ls@) == lsv,
            zv@ == zed@,
            total == zed_from(lsv, 0, zed@),
            views(out@) + zed_from(lsv, i as int, zed@).0 == total.0,
            (found || zed_from(lsv, i as int, zed@).1) == total.1,
        decreases n - i,
    {
        assert(ls@[i as int]@ == lsv[i as int]);
        let t = trim_vec(&ls[i]);
        let ghost before = views(out@);
        if is_theme_key_exec(&t) {
            let ind = indent_vec(&ls[i]);
            if contains_char(&t, '{') {
                let header = concat_str(&ind, "\"theme\": {");
                out.push(header);
                let ghost start = views(out@);
                let ghost b = zed_block(lsv, i + 1, ind@, zed@);
                proof {
                    lemma_zed_block(lsv, i + 1, ind@, zed@);
                }
                let mut j = i + 1;
                let mut stop = false;
                assert(views(out@) + zed_block(lsv, j as int, ind@, zed@).0 =~= start + b.0);
                while j < n && !stop
                    invariant
                        n == ls.len(),
                        i < j <= n,
                        views(ls@) == lsv,
                        zv@ == zed@,
                        b == zed_block(lsv, i + 1, ind@, zed@),
                        !stop ==> views(out@) + zed_block(lsv, j as int, ind@, zed@).0 == start
                            + b.0,
                        !stop ==> zed_block(lsv, j as int, ind@, zed@).1 == b.1,
                        stop ==> views(out@) == start + b.0 && j == b.1,
                    decreases n - j + (if stop { 0int } else { 1int }),
                {
                    assert(ls@[j as int]@ == lsv[j as int]);
                    let t2 = trim_vec(&ls[j]);
                    let ghost before2 = views(out@);
                    if starts_with_str(&t2, "}") {
                        let close = concat_str(&ind, "},");
                        out.push(close);
                        assert(views(out@) =~= before2.push(ind@ + "},"@));
                        assert(views(out@) =~= start + b.0);
                        j = j + 1;
                        stop = true;
                    } else {
                        let line = if starts_with_str(&t2, "\"dark\":") || starts_with_str(
                            &t2,
                            "\"dark\" :",
                        ) {
                            let a = concat_str(&ind, "  \"dark\": \"");
                            let a2 = concat(&a, &zv);
                            concat_str(&a2, "\",")
                        } else {
                            let a = concat_str(&ind, "  ");
                            concat(&a, &t2)
                        };
                        out.push(line);
                        assert(views(out@) =~= before2.push(line@));
                        assert(views(out@) + zed_block(lsv, j + 1, ind@, zed@).0 =~= start + b.0);
                        j = j + 1;
                    }
                }
                assert(views(out@) + zed_from(lsv, j as int, zed@).0 =~= total.0);
                i = j;
                found = true;
                continue;
            } else {
                let a = concat_str(&ind, "\"theme\": \"");
                let a2 = concat(&a, &zv);
                let l = concat_str(&a2, "\",");
                out.push(l);
                found = true;
                assert(views(out@) =~= before.push(l@));
                assert(views(out@) + zed_from(lsv, i + 1, zed@).0 =~= total.0);
            }
        } else {
            let c = slice_of(&ls[i], 0, ls[i].len());
            assert(c@ =~= lsv[i as int]);
            out.push(c);
            assert(views(out@) =~= before.push(lsv[i as int]));
            assert(views(out@) + zed_from(lsv, i + 1, zed@).0 =~= total.0);
        }
        i = i + 1;
    }
    assert(views(out@) =~= total.0);
    if !found {
        let k = out.len();
        if k > 0 {
            let lt = trim_vec(&out[k - 1]);
            if eq_str(&lt, "}") || eq_str(&lt, "},") {
                let ghost before = views(out@);
                let _ = out.pop();
                let empty: Vec<char> = Vec::new();
                let a = concat_str(&empty, "  \"theme\": \"");
                let a2 = concat(&a, &zv);
                let l = concat_str(&a2, "\",\n}");
                out.push(l);
                assert(views(out@) =~= before.update(k - 1, l@));
                found = true;
            }
        }
    }
    if !found {
        return None;
    }
    let joined = join_vec(&out);
    Some(string_of(&joined))
}

// ---------------------------------------------------------------- zed: setting the theme again

/// `zed_block` looks only at the lines from where it starts.
proof fn lemma_zed_block_shift(s: Seq<Seq<char>>, k: int, j: int, ind: Seq<char>, zed: Seq<char>)
    requires
        0 <= k,
        0 <= j,
        k + j <= s.len(),
    ensures
        zed_block(s, k + j, ind, zed).0 == zed_block(s.skip(k), j, ind, zed).0,
        zed_block(s, k + j, ind, zed).1 == zed_block(s.skip(k), j, ind, zed).1 + k,
    decreases s.len() - (k + j),
{
    if k + j < s.len() {
        assert(s.skip(k)[j] == s[k + j]);
        lemma_zed_block_shift(s, k, j + 1, ind, zed);
    }
}

/// `zed_from` looks only at the lines from where it starts.
proof fn lemma_zed_from_shift(s: Seq<Seq<char>>, k: int, j: int, zed: Seq<char>)
    requires
        0 <= k,
        0 <= j,
        k + j <= s.len(),
    ensures
        zed_from(s, k + j, zed) == zed_from(s.skip(k), j, zed),
    decreases s.len() - (k + j),
{
    if k + j < s.len() {
        let raw = s[k + j];
        assert(s.skip(k)[j] == raw);
        let t = trim(raw);
        if is_theme_key(t) && t.contains('{') {
            let ind = indent_of(raw);
            lemma_zed_block(s, k + j + 1, ind, zed);
            lemma_zed_block_shift(s, k, j + 1, ind, zed);
            let b = zed_block(s, k + j + 1, ind, zed);
            lemma_zed_from_shift(s, k, b.1 - k, zed);
        } else {
            lemma_zed_from_shift(s, k, j + 1, zed);
        }
    }
}

/// The object block gives one line for each line it takes.
proof fn lemma_zed_block_len(ls: Seq<Seq<char>>, j: int, ind: Seq<char>, zed: Seq<char>)
    requires
        0 <= j <= ls.len(),
    ensures
        zed_block(ls, j, ind, zed).0.len() == zed_block(ls, j, ind, zed).1 - j,
    decreases ls.len() - j,
{
    if j < ls.len() {
        lemma_zed_block_len(ls, j + 1, ind, zed);
    }
}

/// Setting the theme gives one line for each line, and changes nothing where no theme line
/// is met.
proof fn lemma_zed_from_len(ls: Seq<Seq<char>>, i: int, zed: Seq<char>)
    requires
        0 <= i <= ls.len(),
    ensures
        zed_from(ls, i, zed).0.len() == ls.len() - i,
        !zed_from(ls, i, zed).1 ==> zed_from(ls, i, zed).0 == ls.skip(i),
        !zed_from(ls, i, zed).1 ==> forall|k: int| i <= k < ls.len() ==> !is_theme_key(trim(#[trigger] ls[k])),
    decreases ls.len() - i,
{
    if i < ls.len() {
        let raw = ls[i];
        let t = trim(raw);
        if is_theme_key(t) && t.contains('{') {
            let ind = indent_of(raw);
            lemma_zed_block(ls, i + 1, ind, zed);
            lemma_zed_block_len(ls, i + 1, ind, zed);
            lemma_zed_from_len(ls, zed_block(ls, i + 1, ind, zed).1, zed);
        } else {
            lemma_zed_from_len(ls, i + 1, zed);
            if !zed_from(ls, i, zed).1 {
                assert(ls.skip(i) =~= seq![raw] + ls.skip(i + 1));
            }
        }
    } else {
        assert(ls.skip(i) =~= Seq::<Seq<char>>::empty());
    }
}

/// Whitespace alone trims to nothing.
proof fn lemma_trim_blank(w: Seq<char>)
    requires
        forall|k: int| 0 <= k < w.len() ==> is_ws(#[trigger] w[k]),
    ensures
        trim(w) == Seq::<char>::empty(),
{
    lemma_skip_ws_bounds(w, 0);
    if skip_ws(w, 0) < w.len() {
        assert(is_ws(w[skip_ws(w, 0)]));
    }
    assert(w.subrange(w.len() as int, w.len() as int) =~= Seq::<char>::empty());
}

/// A line of the object block re-indented under `ind` trims back to the trimmed line.
proof fn lemma_zed_body_line(ind: Seq<char>, raw: Seq<char>)
    requires
        forall|k: int| 0 <= k < ind.len() ==> is_ws(#[trigger] ind[k]),
    ensures
        trim(ind + "  "@ + trim(raw)) == trim(raw),
{
    reveal_strlit("  ");
    let w = ind + "  "@;
    assert forall|k: int| 0 <= k < w.len() implies is_ws(#[trigger] w[k]) by {
        if k < ind.len() {
            assert(w[k] == ind[k]);
        }
    }
    lemma_trim_ends(raw);
    let t = trim(raw);
    if t.len() > 0 {
        lemma_trim_indented(w, t);
    } else {
        assert(w + t =~= w);
        lemma_trim_blank(w);
    }
}

/// Whether the object block from line `j` on is closed by a line starting with `}`.
pub open spec fn block_closes(ls: Seq<Seq<char>>, j: int) -> bool
    decreases ls.len() - j,
{
    if 0 <= j < ls.len() {
        "}"@.is_prefix_of(trim(ls[j])) || block_closes(ls, j + 1)
    } else {
        false
    }
}

/// An object block that is not closed runs to the last line.
proof fn lemma_zed_block_open(ls: Seq<Seq<char>>, j: int, ind: Seq<char>, zed: Seq<char>)
    requires
        0 <= j <= ls.len(),
        !block_closes(ls, j),
    ensures
        zed_block(ls, j, ind, zed).1 == ls.len(),
    decreases ls.len() - j,
{
    if j < ls.len() {
        lemma_zed_block_open(ls, j + 1, ind, zed);
    }
}

/// The dark entry and the closing line, as the object block writes them.
pub open spec fn zed_dark_text(zed: Seq<char>) -> Seq<char> {
    "\"dark\": \""@ + zed + "\","@
}

/// An object block, once written, is written again the same, whatever follows a closed
/// block.
proof fn lemma_zed_block_fixed(
    ls: Seq<Seq<char>>,
    j: int,
    ind: Seq<char>,
    zed: Seq<char>,
    rest: Seq<Seq<char>>,
)
    requires
        0 <= j <= ls.len(),
        forall|k: int| 0 <= k < ind.len() ==> is_ws(#[trigger] ind[k]),
        block_closes(ls, j) || rest.len() == 0,
    ensures
        zed_block(zed_block(ls, j, ind, zed).0 + rest, 0, ind, zed) == (
            zed_block(ls, j, ind, zed).0,
            zed_block(ls, j, ind, zed).0.len() as int,
        ),
    decreases ls.len() - j,
{
    reveal_strlit("}");
    reveal_strlit("},");
    reveal_strlit("  ");
    reveal_strlit("  \"dark\": \"");
    reveal_strlit("\"dark\": \"");
    reveal_strlit("\",");
    reveal_strlit("\"dark\":");
    let bl = zed_block(ls, j, ind, zed).0;
    let o = bl + rest;
    if j < ls.len() {
        let t = trim(ls[j]);
        if "}"@.is_prefix_of(t) {
            let c = ind + "},"@;
            assert(bl == seq![c]);
            lemma_trim_indented(ind, "},"@);
            assert(o[0] == c);
            assert(trim(c) == "},"@);
            assert("},"@.subrange(0, 1) =~= "}"@);
            assert("}"@.is_prefix_of(trim(c)));
            assert(zed_block(o, 0, ind, zed) == (seq![ind + "},"@], 1int));
        } else {
            let bl2 = zed_block(ls, j + 1, ind, zed).0;
            lemma_zed_block_fixed(ls, j + 1, ind, zed, rest);
            let line = if is_dark_key(t) {
                ind + "  \"dark\": \""@ + zed + "\","@
            } else {
                ind + "  "@ + t
            };
            assert(bl == seq![line] + bl2);
            assert(o[0] == line);
            assert(o.skip(1) =~= bl2 + rest);
            lemma_zed_block_shift(o, 1, 0, ind, zed);
            if is_dark_key(t) {
                let d = zed_dark_text(zed);
                let w = ind + "  "@;
                assert forall|k: int| 0 <= k < w.len() implies is_ws(#[trigger] w[k]) by {
                    if k < ind.len() {
                        assert(w[k] == ind[k]);
                    }
                }
                assert(line =~= w + d);
                lemma_trim_indented(w, d);
                assert(d.subrange(0, 7) =~= "\"dark\":"@);
                assert(is_dark_key(trim(line)));
                assert(d[0] == '"');
                if "}"@.is_prefix_of(trim(line)) {
                    assert(trim(line).subrange(0, 1)[0] == trim(line)[0]);
                    assert(trim(line)[0] == d[0]);
                }
            } else {
                lemma_zed_body_line(ind, ls[j]);
                assert(trim(line) == t);
            }
            assert(o =~= seq![line] + (bl2 + rest));
            assert(zed_block(o, 1, ind, zed) == (bl2, bl2.len() as int + 1));
            assert(!"}"@.is_prefix_of(trim(line)));
        }
    } else {
        assert(bl == Seq::<Seq<char>>::empty());
        assert(o =~= rest);
        assert(rest.len() == 0);
    }
}

/// Zed settings, once set to a theme, are set again the same from any line on.
proof fn lemma_zed_from_fixed(ls: Seq<Seq<char>>, i: int, zed: Seq<char>)
    requires
        0 <= i <= ls.len(),
        !zed.contains('{'),
    ensures
        zed_from(zed_from(ls, i, zed).0, 0, zed) == zed_from(ls, i, zed),
    decreases ls.len() - i,
{
    reveal_strlit("\"theme\": {");
    reveal_strlit("\"theme\": \"");
    reveal_strlit("\",");
    reveal_strlit("\"theme\":");
    if i < ls.len() {
        let raw = ls[i];
        let t = trim(raw);
        let r = zed_from(ls, i, zed);
        if is_theme_key(t) {
            let ind = indent_of(raw);
            lemma_skip_ws_bounds(raw, 0);
            assert forall|k: int| 0 <= k < ind.len() implies is_ws(#[trigger] ind[k]) by {
                assert(ind[k] == raw[k]);
            }
            if t.contains('{') {
                let b = zed_block(ls, i + 1, ind, zed);
                lemma_zed_block(ls, i + 1, ind, zed);
                let rest = zed_from(ls, b.1, zed);
                lemma_zed_from_fixed(ls, b.1, zed);
                let h = "\"theme\": {"@;
                let hl = ind + h;
                let o = seq![hl] + b.0 + rest.0;
                assert(r == (o, true));
                lemma_trim_indented(ind, h);
                assert(h.subrange(0, 8) =~= "\"theme\":"@);
                assert(is_theme_key(trim(hl)));
                assert(trim(hl)[9] == '{');
                assert(trim(hl).contains('{'));
                if !block_closes(ls, i + 1) {
                    lemma_zed_block_open(ls, i + 1, ind, zed);
                    assert(rest.0 == Seq::<Seq<char>>::empty());
                }
                lemma_zed_block_fixed(ls, i + 1, ind, zed, rest.0);
                assert(o.skip(1) =~= b.0 + rest.0);
                lemma_zed_block_shift(o, 1, 0, ind, zed);
                assert(zed_block(o, 1, ind, zed) == (b.0, b.0.len() + 1int));
                let k: int = 1 + b.0.len() as int;
                assert(o.skip(k) =~= rest.0);
                lemma_zed_from_shift(o, k, 0, zed);
                assert(zed_from(o, k, zed) == rest);
            } else {
                let rest = zed_from(ls, i + 1, zed);
                lemma_zed_from_fixed(ls, i + 1, zed);
                let st = "\"theme\": \""@ + zed + "\","@;
                let sl = ind + "\"theme\": \""@ + zed + "\","@;
                assert(sl =~= ind + st);
                let o = seq![sl] + rest.0;
                assert(r == (o, true));
                lemma_trim_indented(ind, st);
                assert(st.subrange(0, 8) =~= "\"theme\":"@);
                assert(is_theme_key(trim(sl)));
                assert(!st.contains('{')) by {
                    if st.contains('{') {
                        let k = choose|k: int| 0 <= k < st.len() && st[k] == '{';
                        if 10 <= k < 10 + zed.len() {
                            assert(st[k] == zed[k - 10]);
                            assert(zed.contains('{'));
                        }
                    }
                }
                assert(o.skip(1) =~= rest.0);
                lemma_zed_from_shift(o, 1, 0, zed);
            }
        } else {
            let rest = zed_from(ls, i + 1, zed);
            lemma_zed_from_fixed(ls, i + 1, zed);
            let o = seq![raw] + rest.0;
            assert(r == (o, rest.1));
            assert(o.skip(1) =~= rest.0);
            lemma_zed_from_shift(o, 1, 0, zed);
        }
    }
}

/// Lines that are not `"theme"` lines pass through as they are.
proof fn lemma_zed_from_plain_prefix(s: Seq<Seq<char>>, i: int, p: int, zed: Seq<char>)
    requires
        0 <= i <= p <= s.len(),
        forall|k: int| i <= k < p ==> !is_theme_key(trim(#[trigger] s[k])),
    ensures
        zed_from(s, i, zed) == (s.subrange(i, p) + zed_from(s, p, zed).0, zed_from(s, p, zed).1),
    decreases p - i,
{
    if i < p {
        lemma_zed_from_plain_prefix(s, i + 1, p, zed);
        assert(s.subrange(i, p) =~= seq![s[i]] + s.subrange(i + 1, p));
    } else {
        assert(s.subrange(i, p) =~= Seq::<Seq<char>>::empty());
    }
}

/// The lines the zed edit writes: the set lines when a `"theme"` line was met, else the
/// lines before the last one, the added entry and a closing `}`.
pub open spec fn zed_lines(content: Seq<char>, zed: Seq<char>) -> Seq<Seq<char>> {
    let r = zed_from(lines(content), 0, zed);
    if r.1 {
        r.0
    } else {
        lines(content).drop_last().push(zed_added_entry(zed)).push("}"@)
    }
}

/// Law: setting zed's theme twice gives what setting it once gave. This holds when the
/// written lines read back as themselves (no line but the last ends with a carriage return,
/// the last is not empty, none holds a line break) and the theme name holds no `{`.
pub proof fn lemma_zed_config_idempotent(content: Seq<char>, zed: Seq<char>)
    requires
        rejoinable(zed_lines(content, zed)),
        !zed.contains('{'),
        zed_config(content, zed) is Some,
    ensures
        zed_config(zed_config(content, zed)->Some_0, zed) == zed_config(content, zed),
{
    let ls = lines(content);
    let r = zed_from(ls, 0, zed);
    lemma_zed_from_len(ls, 0, zed);
    if r.1 {
        lemma_lines_join(r.0);
        lemma_zed_from_fixed(ls, 0, zed);
    } else {
        assert(r.0 =~= ls);
        lemma_zed_append_fixed(ls, zed);
    }
}

/// The entry the zed edit adds when the settings have no `"theme"` line.
pub open spec fn zed_added_entry(zed: Seq<char>) -> Seq<char> {
    "  \"theme\": \""@ + zed + "\","@
}

/// The added entry is a `"theme"` line that the edit writes again as it is.
proof fn lemma_zed_added_entry(zed: Seq<char>)
    requires
        !zed.contains('{'),
    ensures
        is_theme_key(trim(zed_added_entry(zed))),
        !trim(zed_added_entry(zed)).contains('{'),
        indent_of(zed_added_entry(zed)) + "\"theme\": \""@ + zed + "\","@ == zed_added_entry(zed),
{
    reveal_strlit("  \"theme\": \"");
    reveal_strlit("\"theme\": \"");
    reveal_strlit("\",");
    reveal_strlit("\"theme\":");
    reveal_strlit("  ");
    let st = "\"theme\": \""@ + zed + "\","@;
    let tl = zed_added_entry(zed);
    assert(tl =~= "  "@ + st);
    assert forall|k: int| 0 <= k < 2 implies is_ws(#[trigger] "  "@[k]) by {}
    lemma_trim_indented("  "@, st);
    assert(st.subrange(0, 8) =~= "\"theme\":"@);
    assert(!st.contains('{')) by {
        if st.contains('{') {
            let k = choose|k: int| 0 <= k < st.len() && st[k] == '{';
            if 10 <= k < 10 + zed.len() {
                assert(st[k] == zed[k - 10]);
                assert(zed.contains('{'));
            }
        }
    }
}

/// The added entry followed by a closing `}` line is set again as it is.
proof fn lemma_zed_from_tail(s: Seq<Seq<char>>, n: int, zed: Seq<char>)
    requires
        0 <= n,
        s.len() == n + 2,
        s[n] == zed_added_entry(zed),
        s[n + 1] == "}"@,
        !zed.contains('{'),
    ensures
        zed_from(s, n, zed) == (seq![zed_added_entry(zed), "}"@], true),
{
    reveal_strlit("}");
    reveal_strlit("\"theme\":");
    reveal_strlit("\"theme\" :");
    lemma_zed_added_entry(zed);
    let close = "}"@;
    assert(trim(close) == close) by {
        lemma_trim_indented(Seq::<char>::empty(), close);
        assert(Seq::<char>::empty() + close =~= close);
    }
    assert(!is_theme_key(close));
    assert(zed_from(s, n + 2, zed) == (Seq::<Seq<char>>::empty(), false));
    assert(zed_from(s, n + 1, zed).0 =~= seq![close]);
    assert(zed_from(s, n, zed).0 =~= seq![zed_added_entry(zed), close]);
}

/// Settings without a `"theme"` line get the entry added before their closing line; setting
/// the theme again finds it and writes the same text.
proof fn lemma_zed_append_fixed(ls: Seq<Seq<char>>, zed: Seq<char>)
    requires
        rejoinable(ls.drop_last().push(zed_added_entry(zed)).push("}"@)),
        ls.len() > 0,
        forall|k: int| 0 <= k < ls.len() ==> !is_theme_key(trim(#[trigger] ls[k])),
        !zed.contains('{'),
    ensures
        ({
            let c = join_lines(ls.update(ls.len() - 1, "  \"theme\": \""@ + zed + "\",\n}"@));
            zed_config(c, zed) == Some(c)
        }),
{
    reveal_strlit("  \"theme\": \"");
    reveal_strlit("\",\n}");
    reveal_strlit("\",");
    reveal_strlit("}");
    let n = ls.len() - 1;
    let xs = ls.drop_last();
    let tl = zed_added_entry(zed);
    let close = "}"@;
    let big = "  \"theme\": \""@ + zed + "\",\n}"@;
    assert(big =~= tl + seq!['\n'] + close);
    let up = ls.update(n, big);
    assert(up =~= xs.push(big));
    let ls2 = xs.push(tl).push(close);
    lemma_zed_added_entry(zed);
    assert(join_lines(up) == join_lines(ls2)) by {
        assert(ls2.drop_last() =~= xs.push(tl));
        assert(ls2.last() == close);
        assert(xs.push(tl).drop_last() =~= xs);
        assert(xs.push(tl).last() == tl);
        assert(up.drop_last() =~= xs);
        assert(up.last() == big);
        if xs.len() > 0 {
            assert(join_lines(up) == join_lines(xs) + seq!['\n'] + big);
            assert(join_lines(xs.push(tl)) == join_lines(xs) + seq!['\n'] + tl);
            assert(join_lines(ls2) == join_lines(xs.push(tl)) + seq!['\n'] + close);
            assert(join_lines(up) =~= join_lines(ls2));
        } else {
            assert(join_lines(up) == big);
            assert(join_lines(xs.push(tl)) == tl);
            assert(join_lines(ls2) == tl + seq!['\n'] + close);
        }
    }
    lemma_lines_join(ls2);
    assert forall|k: int| 0 <= k < n implies !is_theme_key(trim(#[trigger] ls2[k])) by {
        assert(ls2[k] == ls[k]);
    }
    lemma_zed_from_plain_prefix(ls2, 0, n, zed);
    lemma_zed_from_tail(ls2, n, zed);
    assert(ls2.subrange(0, n) =~= xs);
    assert(xs + seq![tl, close] =~= ls2);
}

// ---------------------------------------------------------------- opencode

/// A trimmed line that ends a JSON value (`]`, `}` or `"`).
pub open spec fn closes_value(t: Seq<char>) -> bool {
    t.len() > 0 && (t.last() == ']' || t.last() == '}' || t.last() == '"')
}

/// One step over `tui.json`: existing `"theme"` lines are dropped, a missing comma is added
/// after a value that is followed by another key, and the theme entry is inserted after the
/// first line that is just `{`.
pub open spec fn opencode_step(acc: (Seq<Seq<char>>, bool), raw: Seq<char>) -> (
    Seq<Seq<char>>,
    bool,
) {
    let t = trim(raw);
    if is_theme_key(t) {
        acc
    } else {
        let ls = acc.0;
        let ls1 = if ls.len() > 0 && "\""@.is_prefix_of(t) && closes_value(trim(ls.last()))
            && trim(ls.last()) != "{"@ && !(trim(ls.last()).len() > 0 && trim(ls.last()).last()
            == ',') {
            ls.update(ls.len() - 1, ls.last().push(','))
        } else {
            ls
        };
        if !acc.1 && t == "{"@ {
            (ls1.push(raw).push("  \"theme\": \"herdr\","@), true)
        } else {
            (ls1.push(raw), acc.1)
        }
    }
}

/// The lines of `tui.json` with the theme set to `herdr`, and whether an opening `{` line
/// was found to put it under.
pub open spec fn opencode_lines(content: Seq<char>) -> (Seq<Seq<char>>, bool) {
    lines(content).fold_left(
        (Seq::<Seq<char>>::empty(), false),
        |acc: (Seq<Seq<char>>, bool), l: Seq<char>| opencode_step(acc, l),
    )
}

/// Sets the theme to `herdr` in OpenCode's `tui.json` (`apply_to_opencode`'s text edit);
/// `None` when the file has no line that is just `{`.
pub fn opencode_config_text(content: &str) -> (r: Option<String>)
    ensures
        opencode_lines(content@).1 ==> (r matches Some(s) && s@ == join_lines(
            opencode_lines(content@).0,
        )),
        !opencode_lines(content@).1 ==> r is None,
{
    let cv = chars_of(content);
    let ls = split_lines(&cv);
    let ghost lsv = lines(content@);
    let ghost f = |acc: (Seq<Seq<char>>, bool), l: Seq<char>| opencode_step(acc, l);
    let ghost init = (Seq::<Seq<char>>::empty(), false);
    let mut out: Vec<Vec<char>> = Vec::new();
    let mut found = false;
    let mut i: usize = 0;
    while i < ls.len()
        invariant
            i <= ls.len(),
            views(ls@) == lsv,
            f == (|acc: (Seq<Seq<char>>, bool), l: Seq<char>| opencode_step(acc, l)),
            init == (Seq::<Seq<char>>::empty(), false),
            (views(out@), found) == lsv.take(i as int).fold_left(init, f),
        decreases ls.len() - i,
    {
        assert(ls@[i as int]@ == lsv[i as int]);
        assert(lsv.take(i + 1).drop_last() =~= lsv.take(i as int));
        let ghost acc = (views(out@), found);
        let ghost raw = lsv[i as int];
        let t = trim_vec(&ls[i]);
        if is_theme_key_exec(&t) {
            assert(opencode_step(acc, raw) == acc);
        } else {
            let ghost ls0 = views(out@);
            let k = out.len();
            if k > 0 && starts_with_str(&t, "\"") {
                let pt = trim_vec(&out[k - 1]);
                assert(out@[k - 1]@ == ls0.last());
                if pt.len() > 0 && (pt[pt.len() - 1] == ']' || pt[pt.len() - 1] == '}' || pt[pt.len()
                    - 1] == '"') && !eq_str(&pt, "{") && !(pt[pt.len() - 1] == ',') {
                    let mut last = out.pop().unwrap();
                    last.push(',');
                    out.push(last);
                    assert(views(out@) =~= ls0.update(ls0.len() - 1, ls0.last().push(',')));
                }
            }
            let ghost ls1 = views(out@);
            let c = slice_of(&ls[i], 0, ls[i].len());
            assert(c@ =~= raw);
            if !found && eq_str(&t, "{") {
                out.push(c);
                let th = chars_of("  \"theme\": \"herdr\",");
                out.push(th);
                found = true;
                assert(views(out@) =~= ls1.push(raw).push("  \"theme\": \"herdr\","@));
            } else {
                out.push(c);
                assert(views(out@) =~= ls1.push(raw));
            }
            assert((views(out@), found) == opencode_step(acc, raw));
        }
        i = i + 1;
    }
    assert(lsv.take(lsv.len() as int) =~= lsv);
    if !found {
        return None;
    }
    let joined = join_vec(&out);
    Some(string_of(&joined))
}

// ---------------------------------------------------------------- opencode: setting the theme again

/// A trimmed line that ends with a comma.
pub open spec fn ends_comma(t: Seq<char>) -> bool {
    t.len() > 0 && t.last() == ','
}

/// Two neighbouring lines that need no comma between them: the second does not start a key,
/// or the first does not end a value, is the opening `{`, or already ends with a comma.
pub open spec fn comma_settled(prev: Seq<char>, l: Seq<char>) -> bool {
    !("\""@.is_prefix_of(trim(l)) && closes_value(trim(prev)) && trim(prev) != "{"@
        && !ends_comma(trim(prev)))
}

/// What holds of the `tui.json` lines written so far: once the entry is added, the first
/// `{` line stands at `p` with the entry after it; no other line is a `"theme"` line, no
/// earlier line is `{`, and no two neighbours need a comma between them.
pub open spec fn opencode_settled(a: Seq<Seq<char>>, found: bool, p: int) -> bool {
    &&& found ==> 0 <= p && p + 1 < a.len() && trim(a[p]) == "{"@ && a[p + 1]
        == "  \"theme\": \"herdr\","@
    &&& forall|k: int| 0 <= k < a.len() && (!found || k < p) ==> trim(#[trigger] a[k]) != "{"@
    &&& forall|k: int|
        0 <= k < a.len() && (!found || k != p + 1) ==> !is_theme_key(trim(#[trigger] a[k]))
    &&& forall|k: int| 1 <= k < a.len() ==> comma_settled(a[k - 1], #[trigger] a[k])
}

/// The entry is a `"theme"` line, ends with a comma and is not `{`.
proof fn lemma_opencode_entry()
    ensures
        is_theme_key(trim("  \"theme\": \"herdr\","@)),
        ends_comma(trim("  \"theme\": \"herdr\","@)),
        trim("  \"theme\": \"herdr\","@) != "{"@,
        "\""@.is_prefix_of(trim("  \"theme\": \"herdr\","@)),
{
    reveal_strlit("  \"theme\": \"herdr\",");
    reveal_strlit("\"theme\": \"herdr\",");
    reveal_strlit("\"theme\":");
    reveal_strlit("  ");
    reveal_strlit("{");
    reveal_strlit("\"");
    let st = "\"theme\": \"herdr\","@;
    assert("  \"theme\": \"herdr\","@ =~= "  "@ + st);
    assert forall|k: int| 0 <= k < 2 implies is_ws(#[trigger] "  "@[k]) by {}
    lemma_trim_indented("  "@, st);
    assert(st.subrange(0, 8) =~= "\"theme\":"@);
    assert(st.subrange(0, 1) =~= "\""@);
}

/// `{` is not a `"theme"` line and does not start a key.
proof fn lemma_open_brace_plain()
    ensures
        !is_theme_key("{"@),
        !"\""@.is_prefix_of("{"@),
{
    reveal_strlit("{");
    reveal_strlit("\"");
    reveal_strlit("\"theme\":");
    reveal_strlit("\"theme\" :");
    if "\""@.is_prefix_of("{"@) {
        assert("{"@.subrange(0, 1)[0] == "\""@[0]);
    }
}

/// Skipping whitespace from the start of a line sees the same after a character is pushed,
/// when the line holds something other than whitespace.
proof fn lemma_skip_ws_push(l: Seq<char>, c: char, i: int)
    requires
        0 <= i <= skip_ws(l, 0),
        skip_ws(l, 0) < l.len(),
        forall|k: int| i <= k < skip_ws(l, 0) ==> is_ws(#[trigger] l[k]),
        !is_ws(l[skip_ws(l, 0)]),
    ensures
        skip_ws(l.push(c), i) == skip_ws(l, 0),
    decreases skip_ws(l, 0) - i,
{
    let l2 = l.push(c);
    if i < skip_ws(l, 0) {
        assert(l2[i] == l[i]);
        lemma_skip_ws_push(l, c, i + 1);
    } else {
        assert(l2[i] == l[i]);
    }
}

/// A comma pushed onto a line with text: the trimmed line keeps its text, then has only
/// whitespace, then the comma.
proof fn lemma_push_comma(l: Seq<char>)
    requires
        trim(l).len() > 0,
    ensures
        trim(l.push(',')).len() > trim(l).len(),
        ends_comma(trim(l.push(','))),
        forall|j: int| 0 <= j < trim(l).len() ==> #[trigger] trim(l.push(','))[j] == trim(l)[j],
        forall|j: int|
            trim(l).len() <= j < trim(l.push(',')).len() - 1 ==> is_ws(#[trigger] trim(l.push(','))[j]),
{
    let l2 = l.push(',');
    lemma_skip_ws_bounds(l, 0);
    let a = skip_ws(l, 0);
    lemma_back_ws_bounds(l, a, l.len() as int);
    let b = back_ws(l, a, l.len() as int);
    if a == l.len() {
        assert(trim(l).len() == 0);
    }
    lemma_skip_ws_push(l, ',', 0);
    assert(!is_ws(','));
    assert(l2[l2.len() - 1] == ',');
    assert(back_ws(l2, a, l2.len() as int) == l2.len());
    let t = trim(l);
    let t2 = trim(l2);
    assert(t == l.subrange(a, b));
    assert(t2 == l2.subrange(a, l2.len() as int));
    assert forall|j: int| 0 <= j < t.len() implies #[trigger] t2[j] == t[j] by {
        assert(t2[j] == l2[a + j]);
        assert(l2[a + j] == l[a + j]);
    }
    assert forall|j: int| t.len() <= j < t2.len() - 1 implies is_ws(#[trigger] t2[j]) by {
        assert(t2[j] == l2[a + j]);
        assert(l2[a + j] == l[a + j]);
    }
}

/// A comma pushed onto a line that ends a value keeps what the edit reads of the line: it
/// is still not a `"theme"` line, not `{`, starts a key only if it did, and needs no comma
/// after it.
proof fn lemma_push_comma_plain(l: Seq<char>)
    requires
        closes_value(trim(l)),
    ensures
        !is_theme_key(trim(l)) ==> !is_theme_key(trim(l.push(','))),
        trim(l.push(',')) != "{"@,
        "\""@.is_prefix_of(trim(l.push(','))) ==> "\""@.is_prefix_of(trim(l)),
        ends_comma(trim(l.push(','))),
{
    reveal_strlit("{");
    reveal_strlit("\"");
    reveal_strlit("\"theme\":");
    reveal_strlit("\"theme\" :");
    lemma_push_comma(l);
    let t = trim(l);
    let t2 = trim(l.push(','));
    assert(t2[0] == t[0]);
    if t2 == "{"@ {
        assert(t2.last() == '{');
    }
    if "\""@.is_prefix_of(t2) {
        assert(t2.subrange(0, 1)[0] == t2[0]);
        assert(t.subrange(0, 1) =~= "\""@);
    }
    if !is_theme_key(t) && is_theme_key(t2) {
        assert(!is_ws(':'));
        let q = if "\"theme\":"@.is_prefix_of(t2) { "\"theme\":"@ } else { "\"theme\" :"@ };
        assert(q.is_prefix_of(t2));
        let m = q.len() - 1;
        assert(q[m] == ':');
        assert(t2.subrange(0, q.len() as int)[m] == t2[m]);
        assert(t2[m] == ':');
        if m >= t.len() {
            if m < t2.len() - 1 {
                assert(is_ws(t2[m]));
            }
        }
        assert(m < t.len());
        assert(t.subrange(0, q.len() as int) =~= t2.subrange(0, q.len() as int));
        assert(q.is_prefix_of(t));
    }
}

/// A comma added to the last written line keeps the lines settled.
proof fn lemma_opencode_comma_settled(a: Seq<Seq<char>>, found: bool, p: int)
    requires
        opencode_settled(a, found, p),
        a.len() > 0,
        closes_value(trim(a.last())),
        trim(a.last()) != "{"@,
        !ends_comma(trim(a.last())),
    ensures
        opencode_settled(a.update(a.len() - 1, a.last().push(',')), found, p),
        ends_comma(trim(a.update(a.len() - 1, a.last().push(',')).last())),
{
    let n = a.len() as int;
    let l2 = a.last().push(',');
    let a1 = a.update(n - 1, l2);
    lemma_push_comma_plain(a.last());
    lemma_opencode_entry();
    if found {
        assert(n - 1 != p);
        if n - 1 == p + 1 {
            assert(a[n - 1] == "  \"theme\": \"herdr\","@);
        }
    }
    assert forall|k: int| 0 <= k < a1.len() && (!found || k < p) implies trim(#[trigger] a1[k])
        != "{"@ by {
        if k < n - 1 {
            assert(a1[k] == a[k]);
        }
    }
    assert forall|k: int| 0 <= k < a1.len() && (!found || k != p + 1) implies !is_theme_key(
        trim(#[trigger] a1[k]),
    ) by {
        if k < n - 1 {
            assert(a1[k] == a[k]);
        } else {
            assert(!is_theme_key(trim(a[n - 1])));
        }
    }
    assert forall|k: int| 1 <= k < a1.len() implies comma_settled(a1[k - 1], #[trigger] a1[k]) by {
        assert(a1[k - 1] == a[k - 1]);
        if k < n - 1 {
            assert(a1[k] == a[k]);
        } else {
            assert(comma_settled(a[k - 1], a[k]));
        }
    }
}

/// One step of the edit keeps the written lines settled.
proof fn lemma_opencode_step_settled(a: Seq<Seq<char>>, found: bool, p: int, raw: Seq<char>)
    requires
        opencode_settled(a, found, p),
    ensures
        opencode_settled(
            opencode_step((a, found), raw).0,
            opencode_step((a, found), raw).1,
            if found {
                p
            } else {
                a.len() as int
            },
        ),
{
    reveal_strlit("{");
    let t = trim(raw);
    let entry = "  \"theme\": \"herdr\","@;
    lemma_opencode_entry();
    if !is_theme_key(t) {
        let n = a.len() as int;
        let cond = a.len() > 0 && "\""@.is_prefix_of(t) && closes_value(trim(a.last())) && trim(
            a.last(),
        ) != "{"@ && !(trim(a.last()).len() > 0 && trim(a.last()).last() == ',');
        let a1 = if cond {
            a.update(n - 1, a.last().push(','))
        } else {
            a
        };
        if cond {
            lemma_opencode_comma_settled(a, found, p);
        }
        assert(opencode_settled(a1, found, p));
        assert(a1.len() > 0 ==> comma_settled(a1.last(), raw));
        let a2 = a1.push(raw);
        assert forall|k: int| 1 <= k < a2.len() implies comma_settled(a2[k - 1], #[trigger] a2[k]) by {
            if k < n {
                assert(a2[k - 1] == a1[k - 1]);
                assert(a2[k] == a1[k]);
            } else {
                assert(a2[k - 1] == a1.last());
            }
        }
        assert forall|k: int| 0 <= k < a2.len() && (!found || k != p + 1) implies !is_theme_key(
            trim(#[trigger] a2[k]),
        ) by {
            if k < n {
                assert(a2[k] == a1[k]);
            }
        }
        if !found && t == "{"@ {
            let a3 = a2.push(entry);
            assert(opencode_step((a, found), raw) == (a3, true));
            assert(a3[n] == raw);
            assert(a3[n + 1] == entry);
            assert forall|k: int| 0 <= k < a3.len() && k < n implies trim(#[trigger] a3[k]) != "{"@ by {
                assert(a3[k] == a1[k]);
            }
            assert forall|k: int| 0 <= k < a3.len() && k != n + 1 implies !is_theme_key(
                trim(#[trigger] a3[k]),
            ) by {
                if k < n {
                    assert(a3[k] == a1[k]);
                } else {
                    assert(a3[k] == raw);
                }
            }
            assert forall|k: int| 1 <= k < a3.len() implies comma_settled(
                a3[k - 1],
                #[trigger] a3[k],
            ) by {
                if k <= n {
                    assert(a3[k - 1] == a2[k - 1]);
                    assert(a3[k] == a2[k]);
                } else {
                    assert(a3[k - 1] == raw);
                }
            }
        } else {
            assert(opencode_step((a, found), raw) == (a2, found));
            assert forall|k: int| 0 <= k < a2.len() && (!found || k < p) implies trim(
                #[trigger] a2[k],
            ) != "{"@ by {
                if k < n {
                    assert(a2[k] == a1[k]);
                }
            }
        }
    }
}

/// After the edit has gone over any lines, the written lines are settled.
proof fn lemma_opencode_fold_settled(
    s: Seq<Seq<char>>,
    f: spec_fn((Seq<Seq<char>>, bool), Seq<char>) -> (Seq<Seq<char>>, bool),
)
    requires
        f == (|acc: (Seq<Seq<char>>, bool), l: Seq<char>| opencode_step(acc, l)),
    ensures
        exists|p: int|
            #[trigger] opencode_settled(
                s.fold_left((Seq::<Seq<char>>::empty(), false), f).0,
                s.fold_left((Seq::<Seq<char>>::empty(), false), f).1,
                p,
            ),
    decreases s.len(),
{
    let init = (Seq::<Seq<char>>::empty(), false);
    if s.len() == 0 {
        assert(s.fold_left(init, f) == init);
        assert(opencode_settled(init.0, init.1, 0));
    } else {
        lemma_opencode_fold_settled(s.drop_last(), f);
        let acc = s.drop_last().fold_left(init, f);
        let p = choose|p: int| #[trigger] opencode_settled(acc.0, acc.1, p);
        lemma_opencode_step_settled(acc.0, acc.1, p, s.last());
        let r = s.fold_left(init, f);
        assert(r == opencode_step(acc, s.last()));
        let q = if acc.1 {
            p
        } else {
            acc.0.len() as int
        };
        assert(opencode_settled(r.0, r.1, q));
    }
}

/// Going again over settled lines writes them as they are: the entry is added after the `{`
/// line at `p` and the old entry is dropped.
proof fn lemma_opencode_refold(
    o: Seq<Seq<char>>,
    p: int,
    k: int,
    f: spec_fn((Seq<Seq<char>>, bool), Seq<char>) -> (Seq<Seq<char>>, bool),
)
    requires
        f == (|acc: (Seq<Seq<char>>, bool), l: Seq<char>| opencode_step(acc, l)),
        opencode_settled(o, true, p),
        0 <= k <= o.len(),
    ensures
        o.take(k).fold_left((Seq::<Seq<char>>::empty(), false), f) == if k <= p {
            (o.take(k), false)
        } else if k == p + 1 {
            (o.take(p + 2), true)
        } else {
            (o.take(k), true)
        },
    decreases k,
{
    reveal_strlit("{");
    if k > 0 {
        let init = (Seq::<Seq<char>>::empty(), false);
        lemma_opencode_refold(o, p, k - 1, f);
        let s = o.take(k);
        let j = k - 1;
        let raw = o[j];
        assert(s.drop_last() =~= o.take(j));
        assert(s.last() == raw);
        let acc = o.take(j).fold_left(init, f);
        assert(s.fold_left(init, f) == opencode_step(acc, raw));
        lemma_opencode_entry();
        lemma_open_brace_plain();
        assert(o.take(j).push(raw) =~= o.take(k));
        if j > 0 {
            assert(comma_settled(o[j - 1], o[j]));
            assert(o.take(j).last() == o[j - 1]);
        }
        if j < p {
            assert(trim(o[j]) != "{"@);
            assert(!is_theme_key(trim(o[j])));
            assert(opencode_step(acc, raw) == (o.take(k), false));
        } else if j == p {
            assert(o.take(k).push(o[p + 1]) =~= o.take(p + 2));
            assert(opencode_step(acc, raw) == (o.take(p + 2), true));
        } else if j == p + 1 {
            assert(opencode_step(acc, raw) == acc);
        } else {
            assert(!is_theme_key(trim(o[j])));
            assert(opencode_step(acc, raw) == (o.take(k), true));
        }
    }
}

/// Law: setting OpenCode's theme twice gives what setting it once gave. This holds when the
/// edit found a `{` line to put the entry under and the written lines read back as
/// themselves (none holds a line break, none but the last ends with a carriage return, the
/// last is not empty).
pub proof fn lemma_opencode_config_idempotent(content: Seq<char>)
    requires
        opencode_lines(content).1,
        rejoinable(opencode_lines(content).0),
    ensures
        opencode_lines(join_lines(opencode_lines(content).0)) == opencode_lines(content),
{
    let f = |acc: (Seq<Seq<char>>, bool), l: Seq<char>| opencode_step(acc, l);
    let o = opencode_lines(content).0;
    lemma_opencode_fold_settled(lines(content), f);
    let p = choose|p: int| #[trigger] opencode_settled(o, true, p);
    lemma_lines_join(o);
    lemma_opencode_refold(o, p, o.len() as int, f);
    assert(o.take(o.len() as int) =~= o);
}

} // verus!
