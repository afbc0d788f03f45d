//! Plain-text load-order files: one plugin filename per line (relative to the data root),
//! in load order, earliest first. Blank lines and lines starting with `#` are skipped;
//! surrounding whitespace (including the `\r` of a CRLF line ending) is trimmed. There
//! is no inline-comment syntax — `#` only comments out whole lines.

use vstd::prelude::*;
use vstd::string::{StringExecFns, StrSliceExecFns};

verus! {

/// Whether `c` is whitespace in the Unicode `White_Space` sense (what `char::is_whitespace`
/// and `str::trim` use).
pub open spec fn is_white(c: char) -> bool {
    ||| '\u{9}' <= c <= '\u{d}'
    ||| c == ' '
    ||| c == '\u{85}'
    ||| c == '\u{a0}'
    ||| c == '\u{1680}'
    ||| '\u{2000}' <= c <= '\u{200a}'
    ||| c == '\u{2028}'
    ||| c == '\u{2029}'
    ||| c == '\u{202f}'
    ||| c == '\u{205f}'
    ||| c == '\u{3000}'
}

/// The index of the first `\n` at or after `j`, or the length of `t`.
pub open spec fn line_end(t: Seq<char>, j: int) -> int
    decreases t.len() - j,
{
    if j >= t.len() {
        t.len() as int
    } else if t[j] == '\n' {
        j
    } else {
        line_end(t, j + 1)
    }
}

/// `line_end` lies between `j` and the length.
pub proof fn lemma_line_end_bounds(t: Seq<char>, j: int)
    requires
        0 <= j,
    ensures
        j <= t.len() ==> j <= line_end(t, j) <= t.len(),
        line_end(t, j) < t.len() ==> t[line_end(t, j)] == '\n',
    decreases t.len() - j,
{
    if j < t.len() && t[j] != '\n' {
        lemma_line_end_bounds(t, j + 1);
    }
}

/// The lines of `t` from index `start`: the text between line feeds.
pub open spec fn lines_from(t: Seq<char>, start: int) -> Seq<Seq<char>>
    decreases t.len() - start,
{
    if start < 0 || start > t.len() {
        seq![]
    } else {
        let e = line_end(t, start);
        if e >= t.len() {
            seq![t.subrange(start, t.len() as int)]
        } else {
            proof {
                lemma_line_end_bounds(t, start);
            }
            seq![t.subrange(start, e)] + lines_from(t, e + 1)
        }
    }
}

/// The index of the first non-whitespace character of `s` at or after `j`, or its length.
pub open spec fn first_solid(s: Seq<char>, j: int) -> int
    decreases s.len() - j,
{
    if j >= s.len() {
        s.len() as int
    } else if !is_white(s[j]) {
        j
    } else {
        first_solid(s, j + 1)
    }
}

/// One past the last non-whitespace character of `s` below `e`, or `0`.
pub open spec fn last_solid_end(s: Seq<char>, e: int) -> int
    decreases e,
{
    if e <= 0 {
        0
    } else if !is_white(s[e - 1]) {
        e
    } else {
        last_solid_end(s, e - 1)
    }
}

/// `s` without leading and trailing whitespace.
pub open spec fn trim(s: Seq<char>) -> Seq<char> {
    let a = first_solid(s, 0);
    if a >= s.len() {
        seq![]
    } else {
        s.subrange(a, last_solid_end(s, s.len() as int))
    }
}

/// Whether a trimmed line names a plugin: it is neither blank nor a comment.
pub open spec fn names_plugin(line: Seq<char>) -> bool {
    line.len() > 0 && line[0] != '#'
}

/// The plugins named by `lines`, each trimmed, in order.
pub open spec fn plugins_of(lines: Seq<Seq<char>>) -> Seq<Seq<char>>
    decreases lines.len(),
{
    if lines.len() == 0 {
        seq![]
    } else {
        let rest = plugins_of(lines.drop_first());
        if names_plugin(trim(lines[0])) {
            seq![trim(lines[0])] + rest
        } else {
            rest
        }
    }
}

/// The plugins a load-order text names, in order.
pub open spec fn load_order_entries(text: Seq<char>) -> Seq<Seq<char>> {
    plugins_of(lines_from(text, 0))
}

/// Whether `c` is whitespace (Unicode `White_Space`).
pub fn is_whitespace(c: char) -> (b: bool)
    ensures
        b == is_white(c),
{
    ('\u{9}' <= c && c <= '\u{d}') || c == ' ' || c == '\u{85}' || c == '\u{a0}' || c == '\u{1680}'
        || ('\u{2000}' <= c && c <= '\u{200a}') || c == '\u{2028}' || c == '\u{2029}' || c
        == '\u{202f}' || c == '\u{205f}' || c == '\u{3000}'
}

proof fn lemma_first_solid_bounds(s: Seq<char>, j: int)
    requires
        0 <= j <= s.len(),
    ensures
        j <= first_solid(s, j) <= s.len(),
        first_solid(s, j) < s.len() ==> !is_white(s[first_solid(s, j)]),
    decreases s.len() - j,
{
    if j < s.len() && is_white(s[j]) {
        lemma_first_solid_bounds(s, j + 1);
    }
}

proof fn lemma_last_solid_end_bounds(s: Seq<char>, e: int, a: int)
    requires
        0 <= a < e <= s.len(),
        !is_white(s[a]),
    ensures
        a < last_solid_end(s, e) <= e,
    decreases e,
{
    if is_white(s[e - 1]) {
        lemma_last_solid_end_bounds(s, e - 1, a);
    }
}

/// `line` without leading and trailing whitespace.
pub fn trimmed(line: &str) -> (r: String)
    ensures
        r@ == trim(line@),
{
    let n = line.unicode_len();
    let mut a: usize = 0;
    while a < n && is_whitespace(line.get_char(a))
        invariant
            n == line@.len(),
            a <= n,
            first_solid(line@, 0) == first_solid(line@, a as int),
        decreases n - a,
    {
        a += 1;
    }
    if a >= n {
        return String::new();
    }
    let mut e: usize = n;
    while e > 0 && is_whitespace(line.get_char(e - 1))
        invariant
            n == line@.len(),
            a < n,
            !is_white(line@[a as int]),
            e <= n,
            a < e,
            last_solid_end(line@, n as int) == last_solid_end(line@, e as int),
        decreases e,
    {
        e -= 1;
    }
    String::from_str(line.substring_char(a, e))
}

proof fn lemma_lines_step(t: Seq<char>, start: int, i: int)
    requires
        0 <= start <= i < t.len(),
        t[i] == '\n',
        forall|j: int| start <= j < i ==> t[j] != '\n',
    ensures
        lines_from(t, start) == seq![t.subrange(start, i)] + lines_from(t, i + 1),
{
    lemma_line_end_skip(t, start, i);
}

proof fn lemma_line_end_skip(t: Seq<char>, j: int, i: int)
    requires
        0 <= j <= i <= t.len(),
        forall|k: int| j <= k < i ==> t[k] != '\n',
    ensures
        line_end(t, j) == line_end(t, i),
    decreases i - j,
{
    if j < i {
        lemma_line_end_skip(t, j + 1, i);
    }
}

proof fn lemma_plugins_of_append(a: Seq<Seq<char>>, b: Seq<Seq<char>>)
    ensures
        plugins_of(a + b) == plugins_of(a) + plugins_of(b),
    decreases a.len(),
{
    if a.len() == 0 {
        assert(a + b =~= b);
    } else {
        assert((a + b).drop_first() =~= a.drop_first() + b);
        lemma_plugins_of_append(a.drop_first(), b);
    }
}

/// Every entry a load-order text yields is a clean plugin name: not empty, not a comment,
/// and without leading or trailing whitespace.
pub proof fn lemma_entries_clean(text: Seq<char>)
    ensures
        forall|k: int| 0 <= k < load_order_entries(text).len() ==> {
            let e = #[trigger] load_order_entries(text)[k];
            &&& e.len() > 0
            &&& e[0] != '#'
            &&& !is_white(e[0])
            &&& !is_white(e[e.len() - 1])
        },
{
    lemma_plugins_clean(lines_from(text, 0));
}

proof fn lemma_trim_clean(s: Seq<char>)
    requires
        trim(s).len() > 0,
    ensures
        !is_white(trim(s)[0]),
        !is_white(trim(s)[trim(s).len() - 1]),
{
    let a = first_solid(s, 0);
    lemma_first_solid_bounds(s, 0);
    lemma_last_solid_end_bounds(s, s.len() as int, a);
    lemma_last_solid_end_solid(s, s.len() as int);
}

proof fn lemma_last_solid_end_solid(s: Seq<char>, e: int)
    requires
        e <= s.len(),
    ensures
        last_solid_end(s, e) > 0 ==> !is_white(s[last_solid_end(s, e) - 1]),
    decreases e,
{
    if e > 0 && is_white(s[e - 1]) {
        lemma_last_solid_end_solid(s, e - 1);
    }
}

proof fn lemma_plugins_clean(lines: Seq<Seq<char>>)
    ensures
        forall|k: int| 0 <= k < plugins_of(lines).len() ==> {
            let e = #[trigger] plugins_of(lines)[k];
            &&& e.len() > 0
            &&& e[0] != '#'
            &&& !is_white(e[0])
            &&& !is_white(e[e.len() - 1])
        },
    decreases lines.len(),
{
    if lines.len() > 0 {
        lemma_plugins_clean(lines.drop_first());
        if names_plugin(trim(lines[0])) {
            lemma_trim_clean(lines[0]);
            let rest = plugins_of(lines.drop_first());
            assert forall|k: int| 0 <= k < plugins_of(lines).len() implies {
                let e = #[trigger] plugins_of(lines)[k];
                &&& e.len() > 0
                &&& e[0] != '#'
                &&& !is_white(e[0])
                &&& !is_white(e[e.len() - 1])
            } by {
                if k > 0 {
                    assert(plugins_of(lines)[k] == rest[k - 1]);
                }
            }
        }
    }
}

/// Append the plugin `line` names, if any, to `out`.
fn take_line(line: &str, out: &mut Vec<String>)
    ensures
        out_texts(final(out)@) == out_texts(old(out)@) + plugins_of(seq![line@]),
{
    let t = trimmed(line);
    let ghost l = line@;
    assert(seq![l].drop_first() =~= Seq::<Seq<char>>::empty());
    assert(plugins_of(Seq::<Seq<char>>::empty()) == Seq::<Seq<char>>::empty());
    assert(seq![l][0] == l);
    if t.unicode_len() > 0 && t.as_str().get_char(0) != '#' {
        let ghost tv = t@;
        out.push(t);
        assert(out_texts(out@) =~= out_texts(old(out)@).push(tv));
        assert(seq![tv] + Seq::<Seq<char>>::empty() =~= seq![tv]);
    } else {
        assert(out_texts(old(out)@) + Seq::<Seq<char>>::empty() =~= out_texts(old(out)@));
    }
}

/// The texts of a list of strings.
pub open spec fn out_texts(v: Seq<String>) -> Seq<Seq<char>> {
    v.map_values(|s: String| s@)
}

/// The plugin filenames a load-order text names, earliest first: one per line, trimmed,
/// skipping blank lines and lines starting with `#`.
pub fn parse_load_order(text: &str) -> (v: Vec<String>)
    ensures
        out_texts(v@) == load_order_entries(text@),
{
    let ghost t = text@;
    let n = text.unicode_len();
    let mut out: Vec<String> = Vec::new();
    let mut start: usize = 0;
    let mut i: usize = 0;
    while i < n
        invariant
            t == text@,
            n == t.len(),
            start <= i <= n,
            forall|j: int| start <= j < i ==> t[j] != '\n',
            out_texts(out@) + plugins_of(lines_from(t, start as int)) == load_order_entries(t),
        decreases n - i,
    {
        if text.get_char(i) == '\n' {
            let line = text.substring_char(start, i);
            let ghost before = out_texts(out@);
            take_line(line, &mut out);
            proof {
                lemma_lines_step(t, start as int, i as int);
                lemma_plugins_of_append(seq![line@], lines_from(t, i + 1));
                assert(before + plugins_of(seq![line@]) + plugins_of(lines_from(t, i + 1)) =~= before
                    + (plugins_of(seq![line@]) + plugins_of(lines_from(t, i + 1))));
            }
            start = i + 1;
        }
        i += 1;
    }
    let last = text.substring_char(start, n);
    let ghost before = out_texts(out@);
    take_line(last, &mut out);
    proof {
        lemma_line_end_skip(t, start as int, n as int);
        assert(lines_from(t, start as int) == seq![t.subrange(start as int, n as int)]);
    }
    out
}

} // verus!
