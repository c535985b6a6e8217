//! Line-oriented reading of source text: documentation comments above
//! variable declarations, and the word under a position.
use vstd::prelude::*;

use crate::chars::{is_word_char, word_char};
use crate::text::{chars_of, string_of};

verus! {

/// Whether std counts `c` as whitespace (Unicode `White_Space` property).
pub uninterp spec fn whitespace(c: char) -> bool;

/// Whitespace as std decides it: among ASCII characters exactly space, tab,
/// line feed, vertical tab, form feed and carriage return.
pub open spec fn space(c: char) -> bool {
    if c <= '\x7f' {
        c == ' ' || c == '\t' || c == '\n' || c == '\x0B' || c == '\x0C' || c == '\r'
    } else {
        whitespace(c)
    }
}

/// Relies on `char::is_whitespace`, which depends on the character alone;
/// std documents it as the Unicode `White_Space` property, which among ASCII
/// characters holds for the six listed in `space`.
#[verifier::external_body]
fn is_whitespace(c: char) -> (r: bool)
    ensures
        r == whitespace(c),
        r == space(c),
{
    c.is_whitespace()
}

/// `s` with leading and trailing whitespace removed.
pub open spec fn trimmed(s: Seq<char>) -> Seq<char>
    decreases s.len(),
{
    if s.len() > 0 && space(s[0]) {
        trimmed(s.drop_first())
    } else if s.len() > 0 && space(s.last()) {
        trimmed(s.drop_last())
    } else {
        s
    }
}

/// `s` with leading and trailing whitespace removed.
pub fn trim(s: &Vec<char>) -> (r: Vec<char>)
    ensures
        r@ == trimmed(s@),
{
    let mut lo: usize = 0;
    let mut hi: usize = s.len();
    proof {
        assert(s@.subrange(0, s@.len() as int) =~= s@);
    }
    while lo < hi && is_whitespace(s[lo])
        invariant
            lo <= hi == s@.len(),
            trimmed(s@) == trimmed(s@.subrange(lo as int, hi as int)),
        decreases hi - lo,
    {
        proof {
            assert(s@.subrange(lo as int, hi as int).drop_first() =~= s@.subrange(lo + 1, hi as int));
        }
        lo = lo + 1;
    }
    while lo < hi && is_whitespace(s[hi - 1])
        invariant
            lo <= hi <= s@.len(),
            trimmed(s@) == trimmed(s@.subrange(lo as int, hi as int)),
            lo < hi ==> !space(s@[lo as int]),
        decreases hi - lo,
    {
        proof {
            let t = s@.subrange(lo as int, hi as int);
            assert(t.drop_last() =~= s@.subrange(lo as int, hi - 1));
        }
        hi = hi - 1;
    }
    let mut out: Vec<char> = Vec::new();
    let mut k = lo;
    while k < hi
        invariant
            lo <= k <= hi <= s@.len(),
            out@ == s@.subrange(lo as int, k as int),
        decreases hi - k,
    {
        out.push(s[k]);
        proof {
            assert(s@.subrange(lo as int, k + 1) =~= s@.subrange(lo as int, k as int).push(s@[k as int]));
        }
        k = k + 1;
    }
    out
}

/// `s` begins with `p`.
pub open spec fn starts(s: Seq<char>, p: Seq<char>) -> bool {
    p.len() <= s.len() && s.subrange(0, p.len() as int) == p
}

/// `s` ends with `p`.
pub open spec fn ends(s: Seq<char>, p: Seq<char>) -> bool {
    p.len() <= s.len() && s.subrange(s.len() - p.len(), s.len() as int) == p
}

/// Whether `s` begins with the literal `p`.
pub fn starts_with(s: &Vec<char>, p: &str) -> (r: bool)
    ensures
        r == starts(s@, p@),
{
    let pv = chars_of(p);
    if pv.len() > s.len() {
        return false;
    }
    let mut k: usize = 0;
    while k < pv.len()
        invariant
            pv@ == p@,
            pv@.len() <= s@.len(),
            k <= pv@.len(),
            forall|j: int| 0 <= j < k ==> s@[j] == pv@[j],
        decreases pv@.len() - k,
    {
        if s[k] != pv[k] {
            proof {
                assert(s@.subrange(0, pv@.len() as int)[k as int] != pv@[k as int]);
            }
            return false;
        }
        k = k + 1;
    }
    proof {
        assert(s@.subrange(0, pv@.len() as int) =~= pv@);
    }
    true
}

/// Whether `s` ends with the literal `p`.
pub fn ends_with(s: &Vec<char>, p: &str) -> (r: bool)
    ensures
        r == ends(s@, p@),
{
    let pv = chars_of(p);
    if pv.len() > s.len() {
        return false;
    }
    let n = s.len();
    let base = n - pv.len();
    let mut k: usize = 0;
    while k < pv.len()
        invariant
            n == s@.len(),
            pv@ == p@,
            base == s@.len() - pv@.len(),
            k <= pv@.len(),
            forall|j: int| 0 <= j < k ==> s@[base + j] == pv@[j],
        decreases pv@.len() - k,
    {
        if s[base + k] != pv[k] {
            proof {
                assert(s@.subrange(base as int, s@.len() as int)[k as int] != pv@[k as int]);
            }
            return false;
        }
        k = k + 1;
    }
    proof {
        assert(s@.subrange(base as int, s@.len() as int) =~= pv@);
    }
    true
}

/// `s[from..to]` as a new vector.
fn slice(s: &Vec<char>, from: usize, to: usize) -> (r: Vec<char>)
    requires
        from <= to <= s@.len(),
    ensures
        r@ == s@.subrange(from as int, to as int),
{
    let mut out: Vec<char> = Vec::new();
    let mut k = from;
    while k < to
        invariant
            from <= k <= to <= s@.len(),
            out@ == s@.subrange(from as int, k as int),
        decreases to - k,
    {
        out.push(s[k]);
        proof {
            assert(s@.subrange(from as int, k + 1) =~= s@.subrange(from as int, k as int).push(
                s@[k as int],
            ));
        }
        k = k + 1;
    }
    out
}

/// `s` without every leading repetition of `p`.
pub open spec fn strip_lead(s: Seq<char>, p: Seq<char>) -> Seq<char>
    decreases s.len(),
{
    if p.len() > 0 && starts(s, p) {
        strip_lead(s.subrange(p.len() as int, s.len() as int), p)
    } else {
        s
    }
}

/// `s` without every trailing repetition of `p`.
pub open spec fn strip_trail(s: Seq<char>, p: Seq<char>) -> Seq<char>
    decreases s.len(),
{
    if p.len() > 0 && ends(s, p) {
        strip_trail(s.subrange(0, s.len() - p.len()), p)
    } else {
        s
    }
}

/// `s` without every leading repetition of the marker `p`.
fn strip_leading(s: &Vec<char>, p: &str) -> (r: Vec<char>)
    requires
        p@.len() > 0,
    ensures
        r@ == strip_lead(s@, p@),
{
    let mut cur = slice(s, 0, s.len());
    proof {
        assert(s@.subrange(0, s@.len() as int) =~= s@);
    }
    while starts_with(&cur, p)
        invariant
            p@.len() > 0,
            strip_lead(cur@, p@) == strip_lead(s@, p@),
        decreases cur@.len(),
    {
        let n = p.unicode_len();
        cur = slice(&cur, n, cur.len());
    }
    cur
}

/// `s` without every trailing repetition of the marker `p`.
fn strip_trailing(s: &Vec<char>, p: &str) -> (r: Vec<char>)
    requires
        p@.len() > 0,
    ensures
        r@ == strip_trail(s@, p@),
{
    let mut cur = slice(s, 0, s.len());
    proof {
        assert(s@.subrange(0, s@.len() as int) =~= s@);
    }
    while ends_with(&cur, p)
        invariant
            p@.len() > 0,
            strip_trail(cur@, p@) == strip_trail(s@, p@),
        decreases cur@.len(),
    {
        let n = p.unicode_len();
        cur = slice(&cur, 0, cur.len() - n);
    }
    cur
}

/// The character views of a list of character vectors.
pub open spec fn views(v: Seq<Vec<char>>) -> Seq<Seq<char>> {
    v.map_values(|x: Vec<char>| x@)
}

/// `s` without one trailing carriage return.
pub open spec fn chomp(s: Seq<char>) -> Seq<char> {
    if s.len() > 0 && s.last() == '\r' {
        s.drop_last()
    } else {
        s
    }
}

/// The lines of `s` from index `k` on, the current line having begun at
/// `start`: each `\n` ends a line (a `\r` before it dropped), and text after
/// the last `\n` is a last line when it is not empty.
pub open spec fn lines_from(s: Seq<char>, k: int, start: int) -> Seq<Seq<char>>
    decreases s.len() - k,
{
    if k >= s.len() {
        if start < s.len() {
            seq![chomp(s.subrange(start, s.len() as int))]
        } else {
            Seq::empty()
        }
    } else if s[k] == '\n' {
        seq![chomp(s.subrange(start, k))] + lines_from(s, k + 1, k + 1)
    } else {
        lines_from(s, k + 1, start)
    }
}

/// The lines of `s`.
pub open spec fn lines_of(s: Seq<char>) -> Seq<Seq<char>> {
    lines_from(s, 0, 0)
}

/// The lines of `s`.
fn split_lines(s: &Vec<char>) -> (r: Vec<Vec<char>>)
    ensures
        views(r@) == lines_of(s@),
{
    let mut lines: Vec<Vec<char>> = Vec::new();
    let mut start: usize = 0;
    let mut k: usize = 0;
    while k < s.len()
        invariant
            start <= k <= s@.len(),
            views(lines@) + lines_from(s@, k as int, start as int) == lines_of(s@),
        decreases s@.len() - k,
    {
        if s[k] == '\n' {
            let end = if k > start && s[k - 1] == '\r' {
                k - 1
            } else {
                k
            };
            let piece = slice(s, start, end);
            proof {
                let whole = s@.subrange(start as int, k as int);
                if k > start && s@[k - 1] == '\r' {
                    assert(whole.drop_last() =~= piece@);
                } else {
                    assert(whole =~= piece@);
                }
                assert(views(lines@.push(piece)) =~= views(lines@).push(piece@));
                assert(seq![chomp(whole)] + lines_from(s@, k + 1, k + 1) =~= seq![piece@]
                    + lines_from(s@, k + 1, k + 1));
                assert(views(lines@).push(piece@) + lines_from(s@, k + 1, k + 1) =~= views(lines@)
                    + (seq![piece@] + lines_from(s@, k + 1, k + 1)));
            }
            lines.push(piece);
            start = k + 1;
        }
        k = k + 1;
    }
    if start < s.len() {
        let end = if s[s.len() - 1] == '\r' {
            s.len() - 1
        } else {
            s.len()
        };
        let piece = slice(s, start, end);
        proof {
            let whole = s@.subrange(start as int, s@.len() as int);
            if s@[s@.len() - 1] == '\r' {
                assert(whole.drop_last() =~= piece@);
            } else {
                assert(whole =~= piece@);
            }
            assert(views(lines@.push(piece)) =~= views(lines@) + seq![piece@]);
        }
        lines.push(piece);
    } else {
        proof {
            assert(views(lines@) + Seq::<Seq<char>>::empty() =~= views(lines@));
        }
    }
    lines
}

/// The first index at or after `k` whose character is not whitespace (or
/// the end of `s`).
pub open spec fn skip_space(s: Seq<char>, k: int) -> int
    decreases s.len() - k,
{
    if k < s.len() && space(s[k]) {
        skip_space(s, k + 1)
    } else {
        k
    }
}

/// The first index at or after `k` whose character is whitespace (or the
/// end of `s`).
pub open spec fn skip_word(s: Seq<char>, k: int) -> int
    decreases s.len() - k,
{
    if k < s.len() && !space(s[k]) {
        skip_word(s, k + 1)
    } else {
        k
    }
}

/// The second whitespace-separated word of `s`, if there is one.
pub open spec fn second_word_of(s: Seq<char>) -> Option<Seq<char>> {
    let begin = skip_space(s, skip_word(s, skip_space(s, 0)));
    if begin >= s.len() {
        None
    } else {
        Some(s.subrange(begin, skip_word(s, begin)))
    }
}

/// The index reached by skipping whitespace (`blanks`) or non-whitespace.
fn skip_run(s: &Vec<char>, k: usize, blanks: bool) -> (r: usize)
    requires
        k <= s@.len(),
    ensures
        r == (if blanks {
            skip_space(s@, k as int)
        } else {
            skip_word(s@, k as int)
        }),
        k <= r <= s@.len(),
    decreases s@.len() - k,
{
    if k < s.len() && is_whitespace(s[k]) == blanks {
        skip_run(s, k + 1, blanks)
    } else {
        k
    }
}

/// The second whitespace-separated word of `s`, if any.
fn second_word(s: &Vec<char>) -> (r: Option<Vec<char>>)
    ensures
        r matches Some(w) ==> second_word_of(s@) == Some(w@),
        r is None ==> second_word_of(s@) is None,
{
    let k = skip_run(s, 0, true);
    let k = skip_run(s, k, false);
    let begin = skip_run(s, k, true);
    if begin >= s.len() {
        return None;
    }
    let end = skip_run(s, begin, false);
    Some(slice(s, begin, end))
}

/// `parts` joined with newlines.
pub open spec fn joined_nl(parts: Seq<Seq<char>>) -> Seq<char>
    decreases parts.len(),
{
    if parts.len() == 0 {
        Seq::empty()
    } else if parts.len() == 1 {
        parts[0]
    } else {
        joined_nl(parts.drop_last()) + seq!['\n'] + parts.last()
    }
}

/// `parts` joined with newlines.
fn join_lines(parts: &Vec<Vec<char>>) -> (r: Vec<char>)
    ensures
        r@ == joined_nl(views(parts@)),
{
    let mut out: Vec<char> = Vec::new();
    let mut k: usize = 0;
    while k < parts.len()
        invariant
            k <= parts@.len(),
            out@ == joined_nl(views(parts@.subrange(0, k as int))),
        decreases parts@.len() - k,
    {
        proof {
            assert(views(parts@.subrange(0, k + 1)).drop_last() =~= views(parts@.subrange(0, k as int)));
            assert(views(parts@.subrange(0, k + 1)).last() == parts@[k as int]@);
        }
        let ghost before = out@;
        if k > 0 {
            out.push('\n');
        }
        let mut j: usize = 0;
        while j < parts[k].len()
            invariant
                k < parts@.len(),
                j <= parts@[k as int]@.len(),
                out@ == (if k > 0 {
                    before + seq!['\n']
                } else {
                    before
                }) + parts@[k as int]@.subrange(0, j as int),
            decreases parts@[k as int]@.len() - j,
        {
            out.push(parts[k][j]);
            proof {
                assert(parts@[k as int]@.subrange(0, j + 1) =~= parts@[k as int]@.subrange(
                    0,
                    j as int,
                ).push(parts@[k as int]@[j as int]));
            }
            j = j + 1;
        }
        proof {
            assert(parts@[k as int]@.subrange(0, parts@[k as int]@.len() as int) =~= parts@[k as int]@);
            if k == 0 {
                assert(before == Seq::<char>::empty());
                assert(out@ =~= parts@[0]@);
            } else {
                assert(out@ =~= before + seq!['\n'] + parts@[k as int]@);
            }
        }
        k = k + 1;
    }
    proof {
        assert(parts@.subrange(0, parts@.len() as int) =~= parts@);
    }
    out
}

/// The nearest line at or above `i` whose trimmed text opens a block
/// comment.
pub open spec fn block_start(lines: Seq<Seq<char>>, i: int) -> Option<int>
    decreases i + 1,
{
    if i < 0 || i >= lines.len() {
        None
    } else if starts(trimmed(lines[i]), "/*"@) {
        Some(i)
    } else {
        block_start(lines, i - 1)
    }
}

/// The text of a comment marked by `open` and `close`, markers and
/// surrounding whitespace removed.
pub open spec fn comment_body(s: Seq<char>, open: Seq<char>, close: Seq<char>) -> Seq<char> {
    trimmed(strip_trail(strip_lead(s, open), close))
}

/// The comment pieces found reading upwards from the line above `idx`,
/// listed top to bottom: `//` lines are collected (blank lines between
/// them skipped); a one-line `/* */` comment, or a block comment whose last
/// line is reached, is collected and ends the reading; any other line ends
/// it.
pub open spec fn comment_pieces(lines: Seq<Seq<char>>, idx: int) -> Seq<Seq<char>>
    decreases idx,
{
    if idx <= 0 || idx > lines.len() {
        Seq::empty()
    } else {
        let line = trimmed(lines[idx - 1]);
        if line.len() == 0 {
            comment_pieces(lines, idx - 1)
        } else if starts(line, "//"@) {
            comment_pieces(lines, idx - 1).push(trimmed(strip_lead(line, "//"@)))
        } else if starts(line, "/*"@) && ends(line, "*/"@) {
            seq![comment_body(line, "/*"@, "*/"@)]
        } else if ends(line, "*/"@) {
            match block_start(lines, idx - 1) {
                Some(b) => seq![
                    comment_body(
                        trimmed(joined_nl(lines.subrange(b, idx))),
                        "/*"@,
                        "*/"@,
                    ),
                ],
                None => Seq::empty(),
            }
        } else {
            Seq::empty()
        }
    }
}

/// The nearest line at or above `i` that opens a block comment.
fn find_block_start(lines: &Vec<Vec<char>>, i: usize) -> (r: Option<usize>)
    requires
        i < lines@.len(),
    ensures
        r matches Some(b) ==> block_start(views(lines@), i as int) == Some(b as int) && b <= i,
        r is None ==> block_start(views(lines@), i as int) is None,
    decreases i,
{
    proof {
        reveal_strlit("/*");
        assert(views(lines@)[i as int] == lines@[i as int]@);
        assert(block_start(views(lines@), -1) is None);
    }
    if starts_with(&trim(&lines[i]), "/*") {
        Some(i)
    } else if i == 0 {
        None
    } else {
        find_block_start(lines, i - 1)
    }
}

/// The comment pieces above line `idx`, top to bottom.
fn collect_comment(lines: &Vec<Vec<char>>, idx: usize) -> (r: Vec<Vec<char>>)
    requires
        idx <= lines@.len(),
    ensures
        views(r@) == comment_pieces(views(lines@), idx as int),
    decreases idx,
{
    proof {
        reveal_strlit("//");
        reveal_strlit("/*");
        reveal_strlit("*/");
    }
    let mut out: Vec<Vec<char>> = Vec::new();
    if idx == 0 {
        return out;
    }
    let line = trim(&lines[idx - 1]);
    if line.len() == 0 {
        return collect_comment(lines, idx - 1);
    } else if starts_with(&line, "//") {
        let mut above = collect_comment(lines, idx - 1);
        let piece = trim(&strip_leading(&line, "//"));
        proof {
            assert(views(above@.push(piece)) =~= views(above@).push(piece@));
        }
        above.push(piece);
        return above;
    } else if starts_with(&line, "/*") && ends_with(&line, "*/") {
        let piece = trim(&strip_trailing(&strip_leading(&line, "/*"), "*/"));
        out.push(piece);
        proof {
            assert(views(out@) =~= seq![piece@]);
        }
        return out;
    } else if ends_with(&line, "*/") {
        match find_block_start(lines, idx - 1) {
            Some(b) => {
                let mut block: Vec<Vec<char>> = Vec::new();
                let mut j = b;
                while j < idx
                    invariant
                        b <= j <= idx <= lines@.len(),
                        views(block@) == views(lines@).subrange(b as int, j as int),
                    decreases idx - j,
                {
                    let copy = slice(&lines[j], 0, lines[j].len());
                    proof {
                        assert(lines@[j as int]@.subrange(0, lines@[j as int]@.len() as int)
                            =~= lines@[j as int]@);
                        assert(views(block@.push(copy)) =~= views(block@).push(copy@));
                        assert(views(lines@)[j as int] == lines@[j as int]@);
                        assert(views(lines@).subrange(b as int, j + 1) =~= views(lines@).subrange(
                            b as int,
                            j as int,
                        ).push(lines@[j as int]@));
                    }
                    block.push(copy);
                    j = j + 1;
                }
                let text = trim(&join_lines(&block));
                let piece = trim(&strip_trailing(&strip_leading(&text, "/*"), "*/"));
                out.push(piece);
                proof {
                    assert(views(out@) =~= seq![piece@]);
                }
                return out;
            },
            None => {
                proof {
                    assert(views(out@) =~= Seq::<Seq<char>>::empty());
                }
                return out;
            },
        }
    }
    proof {
        assert(views(out@) =~= Seq::<Seq<char>>::empty());
    }
    out
}

/// The comment above line `target`, its pieces joined with newlines.
fn extract_preceding_comment(lines: &Vec<Vec<char>>, target: usize) -> (r: Vec<char>)
    requires
        target < lines@.len(),
    ensures
        r@ == joined_nl(comment_pieces(views(lines@), target as int)),
{
    join_lines(&collect_comment(lines, target))
}

/// Line `k` of `lines` declares `name`: trimmed, it starts with `Set ` or
/// `set ` and its second word is `name`.
pub open spec fn declares_name(line: Seq<char>, name: Seq<char>) -> bool {
    let t = trimmed(line);
    (starts(t, "Set "@) || starts(t, "set "@)) && second_word_of(t) == Some(name)
}

/// The first line of `lines` that declares `name`.
pub open spec fn first_declaring(lines: Seq<Seq<char>>, name: Seq<char>, k: int) -> Option<int>
    decreases lines.len() - k,
{
    if k < 0 || k >= lines.len() {
        None
    } else if declares_name(lines[k], name) {
        Some(k)
    } else {
        first_declaring(lines, name, k + 1)
    }
}

/// The comment written above the first line of `text` that declares
/// `name` with `Set` (or `set`); empty when no line does.
pub open spec fn comment_for(text: Seq<char>, name: Seq<char>) -> Seq<char> {
    match first_declaring(lines_of(text), name, 0) {
        Some(k) => joined_nl(comment_pieces(lines_of(text), k)),
        None => Seq::empty(),
    }
}

/// The comment written above the first line of `text` that declares
/// `var_name` with `Set` (or `set`); empty when no line does.
pub(crate) fn find_comment_for_variable(text: &str, var_name: &str) -> (r: String)
    ensures
        r@ == comment_for(text@, var_name@),
{
    let chars = chars_of(text);
    let name = chars_of(var_name);
    let lines = split_lines(&chars);
    let ghost ls = views(lines@);
    let mut idx: usize = 0;
    while idx < lines.len()
        invariant
            idx <= lines@.len(),
            ls == views(lines@),
            ls == lines_of(text@),
            name@ == var_name@,
            first_declaring(ls, name@, 0) == first_declaring(ls, name@, idx as int),
        decreases lines@.len() - idx,
    {
        let line = trim(&lines[idx]);
        proof {
            assert(ls[idx as int] == lines@[idx as int]@);
        }
        if starts_with(&line, "Set ") || starts_with(&line, "set ") {
            match second_word(&line) {
                Some(word) => {
                    if same_chars(&word, &name) {
                        let comment = extract_preceding_comment(&lines, idx);
                        return string_of(comment.as_slice());
                    }
                },
                None => {},
            }
        }
        idx = idx + 1;
    }
    String::new()
}

/// Whether `a` and `b` hold the same characters.
fn same_chars(a: &Vec<char>, b: &Vec<char>) -> (r: bool)
    ensures
        r == (a@ == b@),
{
    if a.len() != b.len() {
        return false;
    }
    let mut k: usize = 0;
    while k < a.len()
        invariant
            a@.len() == b@.len(),
            k <= a@.len(),
            forall|j: int| 0 <= j < k ==> a@[j] == b@[j],
        decreases a@.len() - k,
    {
        if a[k] != b[k] {
            return false;
        }
        k = k + 1;
    }
    proof {
        assert(a@ =~= b@);
    }
    true
}

/// Where the run of word characters that ends at index `c` of `row` begins.
pub open spec fn word_left(row: Seq<char>, c: int) -> int
    decreases c,
{
    if 0 < c <= row.len() && word_char(row[c - 1]) {
        word_left(row, c - 1)
    } else {
        c
    }
}

/// Where the run of word characters that begins at index `c` of `row` ends.
pub open spec fn word_right(row: Seq<char>, c: int) -> int
    decreases row.len() - c,
{
    if 0 <= c < row.len() && word_char(row[c]) {
        word_right(row, c + 1)
    } else {
        c
    }
}

/// The word (letters, digits, `_`) touching 0-based column `character` of
/// 0-based line `line` of `text`, if the position lies in the text and a
/// word touches it.
pub open spec fn word_at(text: Seq<char>, line: int, character: int) -> Option<Seq<char>> {
    let ls = lines_of(text);
    if line >= ls.len() || character > ls[line].len() {
        None
    } else {
        let row = ls[line];
        let start = word_left(row, character);
        let end = word_right(row, character);
        if start < end {
            Some(row.subrange(start, end))
        } else {
            None
        }
    }
}

/// The identifier-like word that touches 0-based `character` of 0-based
/// `line` of `text`.
pub fn word_at_position(text: &str, line: u32, character: u32) -> (r: Option<String>)
    ensures
        r matches Some(w) ==> word_at(text@, line as int, character as int) == Some(w@),
        r is None ==> word_at(text@, line as int, character as int) is None,
{
    let chars = chars_of(text);
    let lines = split_lines(&chars);
    let li = line as usize;
    if li >= lines.len() {
        return None;
    }
    let row = &lines[li];
    proof {
        assert(views(lines@)[li as int] == row@);
    }
    let c = character as usize;
    if c > row.len() {
        return None;
    }
    let mut start = c;
    let mut end = c;
    while start > 0 && is_word_char(row[start - 1])
        invariant
            start <= c <= row@.len(),
            word_left(row@, start as int) == word_left(row@, c as int),
        decreases start,
    {
        start = start - 1;
    }
    while end < row.len() && is_word_char(row[end])
        invariant
            c <= end <= row@.len(),
            word_right(row@, end as int) == word_right(row@, c as int),
        decreases row@.len() - end,
    {
        end = end + 1;
    }
    if start < end {
        let w = slice(row, start, end);
        Some(string_of(w.as_slice()))
    } else {
        None
    }
}

} // verus!
