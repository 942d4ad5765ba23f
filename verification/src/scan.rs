//! Locating one top-level entry of `loginusers.vdf` in its text.
//!
//! The KeyValues parser does not report positions, so the text is scanned
//! directly. The scanner tracks brace depth, skips quoted strings honouring
//! `\` escapes (an escaped quote does not end a string) and `//` comments.
//! Only a quoted key at depth 1 (directly inside the root object) that is
//! followed by an object counts as the entry.
//!
//! Positions are character indices into the text.

use vstd::prelude::*;

verus! {

/// Index of the closing quote of a string whose contents start at `j` (the
/// end of the text if it is unterminated). A backslash skips the next
/// character.
pub open spec fn string_end(c: Seq<char>, j: int) -> int
    decreases c.len() - j,
{
    if j < 0 || j >= c.len() {
        c.len() as int
    } else if c[j] == '"' {
        j
    } else if c[j] == '\\' && j + 1 < c.len() {
        string_end(c, j + 2)
    } else {
        string_end(c, j + 1)
    }
}

/// Index of the line break that ends a `//` comment starting at `j` (the end
/// of the text if there is none).
pub open spec fn comment_end(c: Seq<char>, j: int) -> int
    decreases c.len() - j,
{
    if j < 0 || j >= c.len() {
        c.len() as int
    } else if c[j] == '\n' {
        j
    } else {
        comment_end(c, j + 1)
    }
}

/// Space or tab.
pub open spec fn is_blank(ch: char) -> bool {
    ch == ' ' || ch == '\t'
}

/// Moving left from `k` over spaces and tabs.
pub open spec fn back_blanks(c: Seq<char>, k: int) -> int
    decreases k,
{
    if 0 < k <= c.len() && is_blank(c[k - 1]) {
        back_blanks(c, k - 1)
    } else {
        k
    }
}

/// Moving right from `k` over spaces and tabs.
pub open spec fn fwd_blanks(c: Seq<char>, k: int) -> int
    decreases c.len() - k,
{
    if 0 <= k < c.len() && is_blank(c[k]) {
        fwd_blanks(c, k + 1)
    } else {
        k
    }
}

/// `[start, end)` grown to whole lines (the indentation before `start`
/// through the line break after `end`) when nothing else shares those lines;
/// otherwise `[start, end)` itself.
pub open spec fn widen_spec(c: Seq<char>, start: int, end: int) -> (int, int) {
    let ls = back_blanks(c, start);
    if ls > 0 && c[ls - 1] != '\n' {
        (start, end)
    } else {
        let le = fwd_blanks(c, end);
        if le + 1 < c.len() && c[le] == '\r' && c[le + 1] == '\n' {
            (ls, le + 2)
        } else if 0 <= le < c.len() && c[le] == '\n' {
            (ls, le + 1)
        } else if le >= c.len() {
            (ls, le)
        } else {
            (start, end)
        }
    }
}

/// The scanner from position `i`, at brace `depth`, with `cand` the start of
/// the last depth-1 string if it equals `key`, and `start` the start of the
/// matching entry once its object has opened.
pub open spec fn scan(
    c: Seq<char>,
    key: Seq<char>,
    i: int,
    depth: int,
    cand: Option<int>,
    start: Option<int>,
) -> Option<(int, int)>
    decreases c.len() - i,
{
    if i < 0 || i >= c.len() {
        None
    } else if c[i] == '"' {
        let e = string_end(c, i + 1);
        let cand2 = if depth == 1 && start is None {
            if c.subrange(i + 1, e) == key {
                Some(i)
            } else {
                None
            }
        } else {
            cand
        };
        if e >= c.len() || e <= i {
            None
        } else {
            scan(c, key, e + 1, depth, cand2, start)
        }
    } else if c[i] == '/' && i + 1 < c.len() && c[i + 1] == '/' {
        let e = comment_end(c, i);
        if e <= i || e > c.len() {
            None
        } else {
            scan(c, key, e, depth, cand, start)
        }
    } else if c[i] == '{' {
        if depth == 1 && start is None {
            scan(c, key, i + 1, depth + 1, None, cand)
        } else {
            scan(c, key, i + 1, depth + 1, cand, start)
        }
    } else if c[i] == '}' {
        if depth <= 0 {
            None
        } else if depth - 1 == 1 && start is Some {
            Some(widen_spec(c, start->0, i + 1))
        } else {
            scan(c, key, i + 1, depth - 1, cand, start)
        }
    } else {
        scan(c, key, i + 1, depth, cand, start)
    }
}

/// The span of the top-level entry `"<key>" { … }` in `c`.
pub open spec fn entry_span(c: Seq<char>, key: Seq<char>) -> Option<(int, int)> {
    scan(c, key, 0, 0, None, None)
}

pub proof fn lemma_string_end_bounds(c: Seq<char>, j: int)
    requires
        0 <= j <= c.len(),
    ensures
        j <= string_end(c, j) <= c.len(),
    decreases c.len() - j,
{
    if j < c.len() && c[j] != '"' {
        if c[j] == '\\' && j + 1 < c.len() {
            lemma_string_end_bounds(c, j + 2);
        } else {
            lemma_string_end_bounds(c, j + 1);
        }
    }
}

pub proof fn lemma_comment_end_bounds(c: Seq<char>, j: int)
    requires
        0 <= j <= c.len(),
    ensures
        j <= comment_end(c, j) <= c.len(),
    decreases c.len() - j,
{
    if j < c.len() && c[j] != '\n' {
        lemma_comment_end_bounds(c, j + 1);
    }
}

/// Whether `c[from..to]` equals `key`.
fn range_eq(c: &Vec<char>, from: usize, to: usize, key: &Vec<char>) -> (r: bool)
    requires
        from <= to <= c.len(),
    ensures
        r == (c@.subrange(from as int, to as int) == key@),
{
    if to - from != key.len() {
        return false;
    }
    let mut k: usize = 0;
    while k < key.len()
        invariant
            from <= to <= c.len(),
            to - from == key.len(),
            k <= key.len(),
            forall|m: int| 0 <= m < k ==> c@[from + m] == key@[m],
        decreases key.len() - k,
    {
        if c[from + k] != key[k] {
            return false;
        }
        k = k + 1;
    }
    assert(c@.subrange(from as int, to as int) =~= key@);
    true
}

/// Grow `[start, end)` to whole lines (the key's indentation through the line
/// break after the closing brace), so the removal leaves no blank line
/// behind. If the entry shares a line with anything else, the exact span is
/// kept.
pub fn widen_to_lines(c: &Vec<char>, start: usize, end: usize) -> (r: (usize, usize))
    requires
        start <= end <= c.len(),
    ensures
        (r.0 as int, r.1 as int) == widen_spec(c@, start as int, end as int),
        r.0 <= start,
        end <= r.1 <= c.len(),
        forall|k: int| r.0 <= k < start ==> is_blank(#[trigger] c@[k]),
        forall|k: int|
            end <= k < r.1 ==> is_blank(#[trigger] c@[k]) || c@[k] == '\r' || c@[k] == '\n',
{
    let mut line_start = start;
    while line_start > 0 && (c[line_start - 1] == ' ' || c[line_start - 1] == '\t')
        invariant
            line_start <= start <= end <= c.len(),
            back_blanks(c@, start as int) == back_blanks(c@, line_start as int),
            forall|k: int| line_start <= k < start ==> is_blank(#[trigger] c@[k]),
        decreases line_start,
    {
        line_start = line_start - 1;
    }
    if line_start > 0 && c[line_start - 1] != '\n' {
        return (start, end);
    }
    let mut line_end = end;
    while line_end < c.len() && (c[line_end] == ' ' || c[line_end] == '\t')
        invariant
            line_start <= start <= end <= line_end <= c.len(),
            fwd_blanks(c@, end as int) == fwd_blanks(c@, line_end as int),
            forall|k: int| end <= k < line_end ==> is_blank(#[trigger] c@[k]),
        decreases c.len() - line_end,
    {
        line_end = line_end + 1;
    }
    if line_end < c.len() && line_end + 1 < c.len() && c[line_end] == '\r' && c[line_end + 1] == '\n' {
        (line_start, line_end + 2)
    } else if line_end < c.len() && c[line_end] == '\n' {
        (line_start, line_end + 1)
    } else if line_end >= c.len() {
        (line_start, line_end)
    } else {
        (start, end)
    }
}

/// Span of the top-level entry `"<key>" { … }` in `c`, widened to whole
/// lines when the entry sits on lines of its own. The span is the quoted key
/// (a token at depth 1, outside strings and comments) through the brace
/// that closes its object, plus only its indentation before and blanks and
/// at most one line break after.
pub fn find_entry_span(c: &Vec<char>, key: &Vec<char>) -> (r: Option<(usize, usize)>)
    ensures
        match (r, entry_span(c@, key@)) {
            (Some(x), Some(y)) => x.0 as int == y.0 && x.1 as int == y.1 && x.0 <= x.1 <= c.len(),
            (None, None) => true,
            _ => false,
        },
        r matches Some((s, e)) ==> exists|s0: int, e0: int|
            {
                &&& entry_shape(c@, key@, s as int, e as int, s0, e0)
                &&& depth_at(c@, 0, 0, s0) == Some(1int)
                &&& depth_at(c@, 0, 0, e0 - 1) == Some(2int)
                &&& forall|k: int| e0 <= k < e && #[trigger] c@[k] == '\n' ==> k == e - 1
                &&& forall|k: int|
                    e0 <= k < e && #[trigger] c@[k] == '\r' ==> k == e - 2 && c@[e - 1] == '\n'
            },
{
    let r = scan_entry_span(c, key);
    proof {
        let w = law_entry_span_is_the_entry(c@, key@);
        if r is Some {
            assert(entry_shape(c@, key@, (r->0).0 as int, (r->0).1 as int, w.0, w.1));
        }
    }
    r
}

fn scan_entry_span(c: &Vec<char>, key: &Vec<char>) -> (r: Option<(usize, usize)>)
    ensures
        match (r, entry_span(c@, key@)) {
            (Some(x), Some(y)) => x.0 as int == y.0 && x.1 as int == y.1 && x.0 <= x.1 <= c.len(),
            (None, None) => true,
            _ => false,
        },
{
    let n = c.len();
    let mut depth: usize = 0;
    let mut cand: Option<usize> = None;
    let mut start: Option<usize> = None;
    let mut i: usize = 0;
    while i < n
        invariant
            n == c.len(),
            i <= n,
            depth <= i,
            cand matches Some(j) ==> j < i,
            start matches Some(j) ==> j < i,
            entry_span(c@, key@) == scan(
                c@,
                key@,
                i as int,
                depth as int,
                match cand { Some(j) => Some(j as int), None => None },
                match start { Some(j) => Some(j as int), None => None },
            ),
        decreases n - i,
    {
        let ch = c[i];
        if ch == '"' {
            let token_start = i;
            i = i + 1;
            proof {
                lemma_string_end_bounds(c@, i as int);
            }
            while i < n && c[i] != '"'
                invariant
                    n == c.len(),
                    token_start < i <= n,
                    string_end(c@, token_start + 1) == string_end(c@, i as int),
                decreases n - i,
            {
                if c[i] == '\\' && i + 1 < n {
                    i = i + 2;
                } else {
                    i = i + 1;
                }
            }
            if depth == 1 && start.is_none() {
                cand = if range_eq(c, token_start + 1, i, key) {
                    Some(token_start)
                } else {
                    None
                };
            }
            if i >= n {
                return None;
            }
        } else if ch == '/' && i + 1 < n && c[i + 1] == '/' {
            proof {
                lemma_comment_end_bounds(c@, i as int);
            }
            let ghost i0 = i;
            while i < n && c[i] != '\n'
                invariant
                    n == c.len(),
                    i0 <= i <= n,
                    depth <= i0,
                    comment_end(c@, i0 as int) == comment_end(c@, i as int),
                    c@[i0 as int] == '/',
                decreases n - i,
            {
                i = i + 1;
            }
            assert(i > i0);
            continue;
        } else if ch == '{' {
            if depth == 1 && start.is_none() {
                start = cand;
                cand = None;
            }
            depth = depth + 1;
        } else if ch == '}' {
            if depth == 0 {
                return None;
            }
            depth = depth - 1;
            if depth == 1 {
                match start {
                    Some(s) => {
                        return Some(widen_to_lines(c, s, i + 1));
                    },
                    None => {},
                }
            }
        }
        i = i + 1;
    }
    None
}

} // verus!

verus! {

/// `j` is the opening quote of the string `"<key>"`, closed before `i`.
pub open spec fn quoted_key_at(c: Seq<char>, key: Seq<char>, j: int, i: int) -> bool {
    &&& 0 <= j
    &&& j + 1 + key.len() < i
    &&& j + 1 + key.len() < c.len()
    &&& c[j] == '"'
    &&& c.subrange(j + 1, j + 1 + key.len()) == key
    &&& c[j + 1 + key.len()] == '"'
}

/// `[s, e)` is the entry `"<key>" … }` that starts with the quoted key at
/// `s0` and ends with the brace before `e0`, plus only spaces and tabs before
/// it and spaces, tabs and line breaks after it.
pub open spec fn entry_shape(c: Seq<char>, key: Seq<char>, s: int, e: int, s0: int, e0: int) -> bool {
    &&& 0 <= s <= s0
    &&& s0 + key.len() + 2 < e0 <= e <= c.len()
    &&& c[s0] == '"'
    &&& c.subrange(s0 + 1, s0 + 1 + key.len()) == key
    &&& c[s0 + 1 + key.len()] == '"'
    &&& c[e0 - 1] == '}'
    &&& forall|k: int| s <= k < s0 ==> is_blank(#[trigger] c[k])
    &&& forall|k: int| e0 <= k < e ==> is_blank(#[trigger] c[k]) || c[k] == '\r' || c[k] == '\n'
}

proof fn lemma_string_end_quote(c: Seq<char>, j: int)
    requires
        0 <= j <= c.len(),
    ensures
        string_end(c, j) < c.len() ==> c[string_end(c, j)] == '"',
    decreases c.len() - j,
{
    if j < c.len() && c[j] != '"' {
        if c[j] == '\\' && j + 1 < c.len() {
            lemma_string_end_quote(c, j + 2);
        } else {
            lemma_string_end_quote(c, j + 1);
        }
    }
}

proof fn lemma_back_blanks(c: Seq<char>, k: int)
    requires
        0 <= k <= c.len(),
    ensures
        0 <= back_blanks(c, k) <= k,
        forall|m: int| back_blanks(c, k) <= m < k ==> is_blank(#[trigger] c[m]),
    decreases k,
{
    if 0 < k && is_blank(c[k - 1]) {
        lemma_back_blanks(c, k - 1);
    }
}

proof fn lemma_fwd_blanks(c: Seq<char>, k: int)
    requires
        0 <= k <= c.len(),
    ensures
        k <= fwd_blanks(c, k) <= c.len(),
        forall|m: int| k <= m < fwd_blanks(c, k) ==> is_blank(#[trigger] c[m]),
    decreases c.len() - k,
{
    if k < c.len() && is_blank(c[k]) {
        lemma_fwd_blanks(c, k + 1);
    }
}

proof fn lemma_widen(c: Seq<char>, s: int, e: int)
    requires
        0 <= s <= e <= c.len(),
    ensures
        0 <= widen_spec(c, s, e).0 <= s,
        e <= widen_spec(c, s, e).1 <= c.len(),
        forall|k: int| widen_spec(c, s, e).0 <= k < s ==> is_blank(#[trigger] c[k]),
        forall|k: int|
            e <= k < widen_spec(c, s, e).1 ==> is_blank(#[trigger] c[k]) || c[k] == '\r' || c[k]
                == '\n',
{
    lemma_back_blanks(c, s);
    lemma_fwd_blanks(c, e);
}

/// Lexing `c` from position `i` at brace depth `depth`: the depth at `j` if
/// `j` is where a token begins (not inside a string or a comment, and no
/// unbalanced `}` before it); `None` otherwise.
pub open spec fn depth_at(c: Seq<char>, i: int, depth: int, j: int) -> Option<int>
    decreases c.len() - i,
{
    if i < 0 || i >= c.len() || i > j {
        None
    } else if i == j {
        Some(depth)
    } else if c[i] == '"' {
        let e = string_end(c, i + 1);
        if e >= c.len() || e <= i {
            None
        } else {
            depth_at(c, e + 1, depth, j)
        }
    } else if c[i] == '/' && i + 1 < c.len() && c[i + 1] == '/' {
        let e = comment_end(c, i);
        if e <= i || e > c.len() {
            None
        } else {
            depth_at(c, e, depth, j)
        }
    } else if c[i] == '{' {
        depth_at(c, i + 1, depth + 1, j)
    } else if c[i] == '}' {
        if depth <= 0 {
            None
        } else {
            depth_at(c, i + 1, depth - 1, j)
        }
    } else {
        depth_at(c, i + 1, depth, j)
    }
}

/// Lexing on from a token start gives the same depths as lexing from the
/// beginning.
proof fn lemma_depth_at_trans(c: Seq<char>, a: int, da: int, i: int, d: int, j: int)
    requires
        depth_at(c, a, da, i) == Some(d),
        i <= j,
    ensures
        depth_at(c, a, da, j) == depth_at(c, i, d, j),
    decreases c.len() - a,
{
    if a != i {
        if c[a] == '"' {
            let e = string_end(c, a + 1);
            lemma_depth_at_trans(c, e + 1, da, i, d, j);
        } else if c[a] == '/' && a + 1 < c.len() && c[a + 1] == '/' {
            let e = comment_end(c, a);
            lemma_depth_at_trans(c, e, da, i, d, j);
        } else if c[a] == '{' {
            lemma_depth_at_trans(c, a + 1, da + 1, i, d, j);
        } else if c[a] == '}' {
            lemma_depth_at_trans(c, a + 1, da - 1, i, d, j);
        } else {
            lemma_depth_at_trans(c, a + 1, da, i, d, j);
        }
    }
}

/// The next token start after `i`, at depth `d2`, is reached from the
/// beginning at that depth.
proof fn lemma_depth_step(c: Seq<char>, i: int, d: int, i2: int, d2: int)
    requires
        depth_at(c, 0, 0, i) == Some(d),
        i < i2 < c.len(),
        depth_at(c, i, d, i2) == Some(d2),
    ensures
        depth_at(c, 0, 0, i2) == Some(d2),
{
    lemma_depth_at_trans(c, 0, 0, i, d, i2);
}

/// Widening takes at most one line break (`\n` or `\r\n`), at its end.
proof fn lemma_widen_breaks(c: Seq<char>, s: int, e: int)
    requires
        0 <= s <= e <= c.len(),
    ensures
        forall|k: int|
            e <= k < widen_spec(c, s, e).1 && #[trigger] c[k] == '\n' ==> k == widen_spec(c, s, e).1
                - 1,
        forall|k: int|
            e <= k < widen_spec(c, s, e).1 && #[trigger] c[k] == '\r' ==> k == widen_spec(c, s, e).1 - 2
                && c[widen_spec(c, s, e).1 - 1] == '\n',
{
    lemma_back_blanks(c, s);
    lemma_fwd_blanks(c, e);
}

proof fn lemma_scan_shape(
    c: Seq<char>,
    key: Seq<char>,
    i: int,
    depth: int,
    cand: Option<int>,
    start: Option<int>,
) -> (w: (int, int))
    requires
        0 <= i,
        cand matches Some(j) ==> quoted_key_at(c, key, j, i) && depth_at(c, 0, 0, j) == Some(1int),
        start matches Some(j) ==> quoted_key_at(c, key, j, i) && depth_at(c, 0, 0, j) == Some(1int),
        i < c.len() ==> depth_at(c, 0, 0, i) == Some(depth),
    ensures
        scan(c, key, i, depth, cand, start) is Some ==> entry_shape(
            c,
            key,
            (scan(c, key, i, depth, cand, start)->0).0,
            (scan(c, key, i, depth, cand, start)->0).1,
            w.0,
            w.1,
        ) && depth_at(c, 0, 0, w.0) == Some(1int) && depth_at(c, 0, 0, w.1 - 1) == Some(2int)
            && scan(c, key, i, depth, cand, start)->0 == widen_spec(c, w.0, w.1),
    decreases c.len() - i,
{
    reveal_with_fuel(depth_at, 2);
    if i < c.len() {
        if c[i] == '"' {
            let e = string_end(c, i + 1);
            lemma_string_end_bounds(c, i + 1);
            lemma_string_end_quote(c, i + 1);
            let cand2 = if depth == 1 && start is None {
                if c.subrange(i + 1, e) == key {
                    Some(i)
                } else {
                    None
                }
            } else {
                cand
            };
            if e < c.len() && e > i {
                if cand2 == Some(i) {
                    assert(c.subrange(i + 1, e).len() == key.len());
                    assert(quoted_key_at(c, key, i, e + 1));
                }
                if e + 1 < c.len() {
                    lemma_depth_step(c, i, depth, e + 1, depth);
                }
                lemma_scan_shape(c, key, e + 1, depth, cand2, start)
            } else {
                (0, 0)
            }
        } else if c[i] == '/' && i + 1 < c.len() && c[i + 1] == '/' {
            let e = comment_end(c, i);
            lemma_comment_end_bounds(c, i);
            if e > i && e <= c.len() {
                if e < c.len() {
                    lemma_depth_step(c, i, depth, e, depth);
                }
                lemma_scan_shape(c, key, e, depth, cand, start)
            } else {
                (0, 0)
            }
        } else if c[i] == '{' {
            if i + 1 < c.len() {
                lemma_depth_step(c, i, depth, i + 1, depth + 1);
            }
            if depth == 1 && start is None {
                lemma_scan_shape(c, key, i + 1, depth + 1, None, cand)
            } else {
                lemma_scan_shape(c, key, i + 1, depth + 1, cand, start)
            }
        } else if c[i] == '}' {
            if depth > 0 {
                if depth - 1 == 1 && start is Some {
                    let s0 = start->0;
                    lemma_widen(c, s0, i + 1);
                    (s0, i + 1)
                } else {
                    if i + 1 < c.len() {
                        lemma_depth_step(c, i, depth, i + 1, depth - 1);
                    }
                    lemma_scan_shape(c, key, i + 1, depth - 1, cand, start)
                }
            } else {
                (0, 0)
            }
        } else {
            if i + 1 < c.len() {
                lemma_depth_step(c, i, depth, i + 1, depth);
            }
            lemma_scan_shape(c, key, i + 1, depth, cand, start)
        }
    } else {
        (0, 0)
    }
}

/// What the scanner finds is the entry itself: the span starts (after
/// indentation, at `w.0`) with the quoted key, which is a token directly
/// inside the root object (depth 1, not inside a string or a comment), and
/// ends (at `w.1`, before trailing blanks and at most one line break) with
/// the brace that closes the entry's object (depth 2 before it).
pub proof fn law_entry_span_is_the_entry(c: Seq<char>, key: Seq<char>) -> (w: (int, int))
    ensures
        entry_span(c, key) is Some ==> {
            let (s, e) = entry_span(c, key)->0;
            &&& entry_shape(c, key, s, e, w.0, w.1)
            &&& depth_at(c, 0, 0, w.0) == Some(1int)
            &&& depth_at(c, 0, 0, w.1 - 1) == Some(2int)
            &&& forall|k: int| w.1 <= k < e && #[trigger] c[k] == '\n' ==> k == e - 1
            &&& forall|k: int| w.1 <= k < e && #[trigger] c[k] == '\r' ==> k == e - 2 && c[e - 1] == '\n'
        },
{
    let w = lemma_scan_shape(c, key, 0, 0, None, None);
    if entry_span(c, key) is Some {
        let (s, e) = entry_span(c, key)->0;
        lemma_fwd_blanks(c, w.1);
        lemma_widen_breaks(c, w.0, w.1);
    }
    w
}

} // verus!
