//! Character-level text model: whitespace trimming, line splitting and joining.
use vstd::prelude::*;

verus! {

broadcast use vstd::string::group_string_axioms;

/// Whitespace as `char::is_whitespace` defines it (the Unicode `White_Space` property).
pub open spec fn is_ws(c: char) -> bool {
    let n = c as u32;
    ||| 0x9 <= n <= 0xd
    ||| n == 0x20
    ||| n == 0x85
    ||| n == 0xa0
    ||| n == 0x1680
    ||| 0x2000 <= n <= 0x200a
    ||| n == 0x2028
    ||| n == 0x2029
    ||| n == 0x202f
    ||| n == 0x205f
    ||| n == 0x3000
}

/// First index at or after `i` that does not hold whitespace (or the length).
pub open spec fn skip_ws(s: Seq<char>, i: int) -> int
    decreases s.len() - i,
{
    if 0 <= i < s.len() && is_ws(s[i]) {
        skip_ws(s, i + 1)
    } else {
        i
    }
}

/// Walking back from `j`, the first end (not below `lo`) whose previous char is not whitespace.
pub open spec fn back_ws(s: Seq<char>, lo: int, j: int) -> int
    decreases j - lo,
{
    if lo < j && is_ws(s[j - 1]) {
        back_ws(s, lo, j - 1)
    } else {
        j
    }
}

/// Leading whitespace of a line, as `&line[..line.len() - line.trim_start().len()]`.
pub open spec fn indent_of(s: Seq<char>) -> Seq<char> {
    s.subrange(0, skip_ws(s, 0))
}

/// `str::trim`: the line without leading and trailing whitespace.
pub open spec fn trim(s: Seq<char>) -> Seq<char> {
    let a = skip_ws(s, 0);
    s.subrange(a, back_ws(s, a, s.len() as int))
}

/// `p` occurs in `s` at some position.
pub open spec fn contains_seq(s: Seq<char>, p: Seq<char>) -> bool {
    exists|i: int| 0 <= i <= s.len() - p.len() && #[trigger] s.subrange(i, i + p.len()) == p
}

pub proof fn lemma_skip_ws_bounds(s: Seq<char>, i: int)
    requires
        0 <= i <= s.len(),
    ensures
        i <= skip_ws(s, i) <= s.len(),
        forall|k: int| i <= k < skip_ws(s, i) ==> is_ws(#[trigger] s[k]),
        skip_ws(s, i) < s.len() ==> !is_ws(s[skip_ws(s, i)]),
    decreases s.len() - i,
{
    if i < s.len() && is_ws(s[i]) {
        lemma_skip_ws_bounds(s, i + 1);
    }
}

pub proof fn lemma_back_ws_bounds(s: Seq<char>, lo: int, j: int)
    requires
        0 <= lo <= j <= s.len(),
    ensures
        lo <= back_ws(s, lo, j) <= j,
        forall|k: int| back_ws(s, lo, j) <= k < j ==> is_ws(#[trigger] s[k]),
        back_ws(s, lo, j) > lo ==> !is_ws(s[back_ws(s, lo, j) - 1]),
    decreases j - lo,
{
    if lo < j && is_ws(s[j - 1]) {
        lemma_back_ws_bounds(s, lo, j - 1);
    }
}

/// Index of the first `'\n'` in `s`, or its length.
pub open spec fn first_nl(s: Seq<char>) -> nat
    decreases s.len(),
{
    if s.len() == 0 {
        0
    } else if s[0] == '\n' {
        0
    } else {
        1 + first_nl(s.drop_first())
    }
}

pub proof fn lemma_first_nl(s: Seq<char>)
    ensures
        first_nl(s) <= s.len(),
        first_nl(s) < s.len() ==> s[first_nl(s) as int] == '\n',
        forall|k: int| 0 <= k < first_nl(s) ==> #[trigger] s[k] != '\n',
    decreases s.len(),
{
    if s.len() > 0 && s[0] != '\n' {
        lemma_first_nl(s.drop_first());
        assert forall|k: int| 0 <= k < first_nl(s) implies #[trigger] s[k] != '\n' by {
            if k > 0 {
                assert(s[k] == s.drop_first()[k - 1]);
            }
        }
    }
}

/// A line as `str::lines` yields it: a `'\r'` before the terminating `'\n'` is dropped.
pub open spec fn strip_cr(raw: Seq<char>, terminated: bool) -> Seq<char> {
    if terminated && raw.len() > 0 && raw.last() == '\r' {
        raw.drop_last()
    } else {
        raw
    }
}

/// `str::lines`: the lines of `s`; a final line ending is optional.
pub open spec fn lines(s: Seq<char>) -> Seq<Seq<char>>
    decreases s.len(),
{
    if s.len() == 0 {
        seq![]
    } else {
        let e = first_nl(s) as int;
        proof {
            lemma_first_nl(s);
        }
        let line = strip_cr(s.subrange(0, e), e < s.len());
        if e < s.len() {
            seq![line] + lines(s.subrange(e + 1, s.len() as int))
        } else {
            seq![line]
        }
    }
}

/// `lines.join("\n")`.
pub open spec fn join_lines(ls: Seq<Seq<char>>) -> Seq<char>
    decreases ls.len(),
{
    if ls.len() == 0 {
        seq![]
    } else if ls.len() == 1 {
        ls[0]
    } else {
        join_lines(ls.drop_last()) + seq!['\n'] + ls.last()
    }
}

/// Lines that `join_lines` and `lines` take back and forth unchanged: none holds a line
/// break, none but the last ends with a carriage return, and the last is not empty.
pub open spec fn rejoinable(ls: Seq<Seq<char>>) -> bool {
    &&& forall|i: int| 0 <= i < ls.len() ==> !(#[trigger] ls[i]).contains('\n')
    &&& forall|i: int|
        0 <= i < ls.len() - 1 ==> !((#[trigger] ls[i]).len() > 0 && ls[i].last() == '\r')
    &&& ls.len() > 0 ==> ls.last().len() > 0
}

/// Joining a first line to the rest puts a line break between them.
pub proof fn lemma_join_cons(a: Seq<char>, rest: Seq<Seq<char>>)
    requires
        rest.len() > 0,
    ensures
        join_lines(seq![a] + rest) == a + seq!['\n'] + join_lines(rest),
    decreases rest.len(),
{
    let ls = seq![a] + rest;
    if rest.len() == 1 {
        assert(ls.drop_last() =~= seq![a]);
        assert(ls.last() == rest[0]);
        assert(join_lines(seq![a]) == a);
        assert(join_lines(rest) == rest[0]);
        assert(join_lines(ls) == join_lines(ls.drop_last()) + seq!['\n'] + ls.last());
    } else {
        lemma_join_cons(a, rest.drop_last());
        assert(ls.drop_last() =~= seq![a] + rest.drop_last());
        assert(ls.last() == rest.last());
        assert(join_lines(ls) =~= a + seq!['\n'] + join_lines(rest));
    }
}

/// The first line break of `a`, a line break and more is the one after `a`, when `a` has
/// none.
proof fn lemma_first_nl_after(a: Seq<char>, t: Seq<char>)
    requires
        !a.contains('\n'),
    ensures
        first_nl(a + seq!['\n'] + t) == a.len(),
{
    let s = a + seq!['\n'] + t;
    lemma_first_nl(s);
    let f = first_nl(s) as int;
    if f < a.len() {
        assert(s[f] == a[f]);
        assert(a.contains('\n'));
    } else if f > a.len() {
        assert(s[a.len() as int] == '\n');
    }
}

/// Lines that are rejoinable come back from their joined text.
pub proof fn lemma_lines_join(ls: Seq<Seq<char>>)
    requires
        rejoinable(ls),
    ensures
        lines(join_lines(ls)) == ls,
    decreases ls.len(),
{
    if ls.len() == 1 {
        let s = ls[0];
        lemma_first_nl(s);
        if first_nl(s) < s.len() {
            assert(s.contains('\n'));
        }
        assert(s.subrange(0, s.len() as int) =~= s);
        assert(lines(s) =~= seq![s]);
    } else if ls.len() > 1 {
        let a = ls[0];
        let rest = ls.drop_first();
        assert(ls =~= seq![a] + rest);
        lemma_join_cons(a, rest);
        assert(rejoinable(rest)) by {
            assert forall|i: int| 0 <= i < rest.len() implies !(#[trigger] rest[i]).contains('\n') by {
                assert(rest[i] == ls[i + 1]);
            }
            assert forall|i: int| 0 <= i < rest.len() - 1 implies !((#[trigger] rest[i]).len() > 0
                && rest[i].last() == '\r') by {
                assert(rest[i] == ls[i + 1]);
            }
        }
        lemma_lines_join(rest);
        let j = join_lines(rest);
        let s = a + seq!['\n'] + j;
        assert(!a.contains('\n'));
        lemma_first_nl_after(a, j);
        assert(s.subrange(0, a.len() as int) =~= a);
        assert(s.subrange(a.len() as int + 1, s.len() as int) =~= j);
        assert(!(a.len() > 0 && a.last() == '\r'));
        assert(strip_cr(a, true) == a);
        assert(lines(s) =~= seq![a] + lines(j));
    }
}

/// The character sequences of a vector of lines.
pub open spec fn views(v: Seq<Vec<char>>) -> Seq<Seq<char>> {
    v.map_values(|x: Vec<char>| x@)
}

/// `String::push`.
#[verifier::external_body]
pub(crate) fn push_char(s: &mut String, c: char)
    ensures
        final(s)@ == old(s)@.push(c),
{
    s.push(c);
}

/// The characters of a string slice.
pub fn chars_of(s: &str) -> (v: Vec<char>)
    ensures
        v@ == s@,
{
    let mut v: Vec<char> = Vec::new();
    for c in it: s.chars()
        invariant
            it.seq() == s@,
            v@ == it.seq().take(it.index() as int),
    {
        assert(it.seq().take(it.index() + 1) == it.seq().take(it.index() as int).push(c));
        v.push(c);
    }
    assert(s@.take(s@.len() as int) == s@);
    v
}

/// A string made of the given characters.
pub fn string_of(v: &Vec<char>) -> (s: String)
    ensures
        s@ == v@,
{
    let mut s = String::new();
    let mut i: usize = 0;
    while i < v.len()
        invariant
            i <= v.len(),
            s@ == v@.take(i as int),
        decreases v.len() - i,
    {
        assert(v@.take(i + 1) == v@.take(i as int).push(v@[i as int]));
        push_char(&mut s, v[i]);
        i = i + 1;
    }
    assert(v@.take(v@.len() as int) == v@);
    s
}

pub fn is_ws_char(c: char) -> (r: bool)
    ensures
        r == is_ws(c),
{
    let n = c as u32;
    (0x9 <= n && n <= 0xd) || n == 0x20 || n == 0x85 || n == 0xa0 || n == 0x1680 || (0x2000 <= n
        && n <= 0x200a) || n == 0x2028 || n == 0x2029 || n == 0x202f || n == 0x205f || n == 0x3000
}

/// Length of the leading whitespace of `s`.
pub fn indent_len(s: &Vec<char>) -> (r: usize)
    ensures
        r as int == skip_ws(s@, 0),
        r <= s.len(),
{
    let mut i: usize = 0;
    while i < s.len() && is_ws_char(s[i])
        invariant
            i <= s.len(),
            skip_ws(s@, i as int) == skip_ws(s@, 0),
        decreases s.len() - i,
    {
        i = i + 1;
    }
    proof {
        lemma_skip_ws_bounds(s@, 0);
    }
    i
}

/// `s[lo..hi]` as a new vector.
pub fn slice_of(s: &Vec<char>, lo: usize, hi: usize) -> (r: Vec<char>)
    requires
        lo <= hi <= s.len(),
    ensures
        r@ == s@.subrange(lo as int, hi as int),
{
    let mut r: Vec<char> = Vec::new();
    let mut i = lo;
    while i < hi
        invariant
            lo <= i <= hi <= s.len(),
            r@ == s@.subrange(lo as int, i as int),
        decreases hi - i,
    {
        r.push(s[i]);
        i = i + 1;
    }
    r
}

/// The leading whitespace of a line.
pub fn indent_vec(s: &Vec<char>) -> (r: Vec<char>)
    ensures
        r@ == indent_of(s@),
{
    let n = indent_len(s);
    slice_of(s, 0, n)
}

/// `str::trim` on a line.
pub fn trim_vec(s: &Vec<char>) -> (r: Vec<char>)
    ensures
        r@ == trim(s@),
{
    let a = indent_len(s);
    let mut b = s.len();
    proof {
        lemma_skip_ws_bounds(s@, 0);
    }
    while a < b && is_ws_char(s[b - 1])
        invariant
            a <= b <= s.len(),
            back_ws(s@, a as int, b as int) == back_ws(s@, a as int, s.len() as int),
        decreases b - a,
    {
        b = b - 1;
    }
    slice_of(s, a, b)
}

/// `p` is a prefix of `s`.
pub fn starts_with(s: &Vec<char>, p: &Vec<char>) -> (r: bool)
    ensures
        r == p@.is_prefix_of(s@),
{
    if p.len() > s.len() {
        return false;
    }
    let mut i: usize = 0;
    while i < p.len()
        invariant
            p.len() <= s.len(),
            i <= p.len(),
            forall|k: int| 0 <= k < i ==> p@[k] == s@[k],
        decreases p.len() - i,
    {
        if p[i] != s[i] {
            return false;
        }
        i = i + 1;
    }
    true
}

/// `s` starts with the given literal.
pub fn starts_with_str(s: &Vec<char>, p: &str) -> (r: bool)
    ensures
        r == p@.is_prefix_of(s@),
{
    let pv = chars_of(p);
    starts_with(s, &pv)
}

/// `p` is a suffix of `s`.
pub fn ends_with_char(s: &Vec<char>, c: char) -> (r: bool)
    ensures
        r == (s@.len() > 0 && s@.last() == c),
{
    s.len() > 0 && s[s.len() - 1] == c
}

/// Two character sequences are equal.
pub fn chars_eq(a: &Vec<char>, b: &Vec<char>) -> (r: bool)
    ensures
        r == (a@ == b@),
{
    if a.len() != b.len() {
        return false;
    }
    let mut i: usize = 0;
    while i < a.len()
        invariant
            a.len() == b.len(),
            i <= a.len(),
            forall|k: int| 0 <= k < i ==> a@[k] == b@[k],
        decreases a.len() - i,
    {
        if a[i] != b[i] {
            return false;
        }
        i = i + 1;
    }
    assert(a@ =~= b@);
    true
}

/// `s` equals the given literal.
pub fn eq_str(s: &Vec<char>, p: &str) -> (r: bool)
    ensures
        r == (s@ == p@),
{
    let pv = chars_of(p);
    chars_eq(s, &pv)
}

/// `s` holds the character `c`.
pub fn contains_char(s: &Vec<char>, c: char) -> (r: bool)
    ensures
        r == s@.contains(c),
{
    let mut i: usize = 0;
    while i < s.len()
        invariant
            i <= s.len(),
            forall|k: int| 0 <= k < i ==> s@[k] != c,
        decreases s.len() - i,
    {
        if s[i] == c {
            assert(s@[i as int] == c);
            return true;
        }
        i = i + 1;
    }
    false
}

/// `p` occurs in `s`.
pub fn contains_str(s: &Vec<char>, p: &str) -> (r: bool)
    ensures
        r == contains_seq(s@, p@),
{
    let pv = chars_of(p);
    if pv.len() > s.len() {
        return false;
    }
    if pv.len() == 0 {
        assert(s@.subrange(0int, 0int + p@.len()) =~= p@);
        return true;
    }
    let n = s.len() - pv.len();
    let mut i: usize = 0;
    while i <= n
        invariant
            pv@ == p@,
            0 < pv.len() <= s.len(),
            n == s.len() - pv.len(),
            i <= n + 1,
            forall|k: int| 0 <= k < i ==> #[trigger] s@.subrange(k, k + pv@.len()) != pv@,
        decreases n + 1 - i,
    {
        let mut j: usize = 0;
        let mut same = true;
        while j < pv.len()
            invariant
                i + pv.len() <= s.len(),
                j <= pv.len(),
                same ==> forall|k: int| 0 <= k < j ==> s@[i + k] == pv@[k],
                !same ==> s@.subrange(i as int, i + pv@.len()) != pv@,
            decreases pv.len() - j,
        {
            if same && s[i + j] != pv[j] {
                same = false;
                assert(s@.subrange(i as int, i + pv@.len())[j as int] == s@[i + j]);
            }
            j = j + 1;
        }
        if same {
            assert(s@.subrange(i as int, i + pv@.len()) =~= pv@);
            return true;
        }
        i = i + 1;
    }
    false
}

/// `str::lines`: splits `s` into its lines.
pub fn split_lines(s: &Vec<char>) -> (r: Vec<Vec<char>>)
    ensures
        views(r@) == lines(s@),
{
    let mut out: Vec<Vec<char>> = Vec::new();
    let mut i: usize = 0;
    assert(s@.subrange(0, s.len() as int) =~= s@);
    assert(views(out@) =~= Seq::<Seq<char>>::empty());
    while i < s.len()
        invariant
            i <= s.len(),
            views(out@) + lines(s@.subrange(i as int, s.len() as int)) == lines(s@),
        decreases s.len() - i,
    {
        let ghost rest = s@.subrange(i as int, s.len() as int);
        let mut e = i;
        while e < s.len() && s[e] != '\n'
            invariant
                i <= e <= s.len(),
                rest == s@.subrange(i as int, s.len() as int),
                first_nl(rest) == (e - i) + first_nl(s@.subrange(e as int, s.len() as int)),
            decreases s.len() - e,
        {
            assert(s@.subrange(e as int, s.len() as int).drop_first() =~= s@.subrange(
                e + 1,
                s.len() as int,
            ));
            e = e + 1;
        }
        proof {
            lemma_first_nl(rest);
        }
        assert(first_nl(rest) == e - i);
        let terminated = e < s.len();
        let mut end = e;
        if terminated && end > i && s[end - 1] == '\r' {
            end = end - 1;
        }
        let line = slice_of(s, i, end);
        assert(line@ == strip_cr(rest.subrange(0, (e - i) as int), terminated));
        let ghost before = views(out@);
        out.push(line);
        assert(views(out@) == before.push(line@));
        if terminated {
            assert(rest.subrange((e - i) + 1, rest.len() as int) =~= s@.subrange(
                e + 1,
                s.len() as int,
            ));
            assert(lines(rest) == seq![line@] + lines(s@.subrange(e + 1, s.len() as int)));
            assert(views(out@) + lines(s@.subrange(e + 1, s.len() as int)) =~= before + lines(
                rest,
            ));
            i = e + 1;
        } else {
            assert(lines(rest) == seq![line@]);
            assert(s@.subrange(s.len() as int, s.len() as int) =~= Seq::<char>::empty());
            assert(views(out@) + lines(s@.subrange(e as int, s.len() as int)) =~= before + lines(
                rest,
            ));
            i = e;
        }
    }
    assert(s@.subrange(s.len() as int, s.len() as int) =~= Seq::<char>::empty());
    assert(views(out@) =~= views(out@) + lines(Seq::<char>::empty()));
    out
}

/// `lines.join("\n")` of a vector of lines.
pub fn join_vec(ls: &Vec<Vec<char>>) -> (r: Vec<char>)
    ensures
        r@ == join_lines(views(ls@)),
{
    let mut out: Vec<char> = Vec::new();
    let mut i: usize = 0;
    while i < ls.len()
        invariant
            i <= ls.len(),
            out@ == join_lines(views(ls@).take(i as int)),
        decreases ls.len() - i,
    {
        let ghost prev = views(ls@).take(i as int);
        assert(views(ls@).take(i + 1).drop_last() =~= prev);
        if i > 0 {
            out.push('\n');
        }
        let l = &ls[i];
        let mut j: usize = 0;
        let ghost base = out@;
        while j < l.len()
            invariant
                j <= l.len(),
                out@ == base + l@.take(j as int),
            decreases l.len() - j,
        {
            out.push(l[j]);
            assert(l@.take(j + 1) =~= l@.take(j as int).push(l@[j as int]));
            j = j + 1;
        }
        assert(l@.take(l@.len() as int) =~= l@);
        if i == 0 {
            assert(views(ls@).take(1) =~= seq![l@]);
        }
        i = i + 1;
    }
    assert(views(ls@).take(ls@.len() as int) =~= views(ls@));
    out
}

} // verus!
