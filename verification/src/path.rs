//! Paths inside a Steam installation, and the check that keeps an
//! `installdir` from leaving its library.
//!
//! Paths are held as text. The application runs on Windows, so the rules for
//! components are Windows' own: `\` and `/` both separate components, a
//! leading letter followed by `:` is a drive prefix, and `.`/`..` are the
//! current and parent directory.

use vstd::prelude::*;

use crate::text::{trim_chars, trim_spec};

verus! {

/// A path separator.
pub open spec fn is_sep(c: char) -> bool {
    c == '\\' || c == '/'
}

/// `base` may start a verbatim path (`\\?\…`), which `Path::join`
/// rebuilds from its components on Windows.
pub open spec fn verbatim_like(base: Seq<char>) -> bool {
    base.len() >= 3 && is_sep(base[0]) && is_sep(base[1]) && base[2] == '?'
}

/// `base` is a bare drive such as `C:`, to which Windows adds no separator.
pub open spec fn bare_drive(base: Seq<char>) -> bool {
    base.len() == 2 && base[1] == ':' && is_ascii_alpha(base[0])
}

/// `Path::join` appends onto `base` as text: neither case above.
pub open spec fn joinable_base(base: Seq<char>) -> bool {
    !verbatim_like(base) && !bare_drive(base)
}

/// `part` has no root and no drive prefix: `Path::join` appends it rather
/// than replacing `base`.
pub open spec fn relative_part(part: Seq<char>) -> bool {
    &&& !(part.len() > 0 && is_sep(part[0]))
    &&& !(part.len() >= 2 && part[1] == ':' && is_ascii_alpha(part[0]))
}

/// `path` is `base`, then `sep`, then `part`, where `sep` is empty after an
/// empty `base` and exactly one separator character after a `base` that
/// does not end in one (after a `base` that does, at most one).
pub open spec fn joined_by(path: Seq<char>, base: Seq<char>, part: Seq<char>, sep: Seq<char>) -> bool {
    &&& path == base + sep + part
    &&& sep.len() <= 1
    &&& sep.len() == 1 ==> is_sep(sep[0])
    &&& base.len() == 0 ==> sep.len() == 0
    &&& base.len() > 0 && !is_sep(base.last()) ==> sep.len() == 1
}

/// `path` is `base` joined with `part` (see [`joined_by`]).
pub open spec fn joined(path: Seq<char>, base: Seq<char>, part: Seq<char>) -> bool {
    exists|sep: Seq<char>| joined_by(path, base, part, sep)
}

/// Calls `std::path::Path::join` on `base` and `part` and returns the result
/// as text. Claimed, as the source of `PathBuf::push` shows for a `part`
/// without root or drive prefix, onto a `base` that is neither verbatim nor a
/// bare drive: the result is `base`, then a separator exactly when `base` is
/// not empty and does not end in one, then `part`. Which separator is left
/// unsaid: it is the platform's own (`\` on Windows). After a `base` that
/// ends in the other platform's separator one may be added too.
#[verifier::external_body]
fn join_component(base: &str, part: &str) -> (r: String)
    ensures
        relative_part(part@) && joinable_base(base@) ==> joined(r@, base@, part@),
{
    std::path::Path::new(base).join(part).to_string_lossy().into_owned()
}

/// `base` joined with one more relative path piece.
pub fn join_path(base: &str, part: &str) -> (r: String)
    ensures
        relative_part(part@) && joinable_base(base@) ==> joined(r@, base@, part@),
{
    join_component(base, part)
}

/// Joining `base` with a plain name and then another relative piece: the
/// intermediate path can be joined onto again.
pub proof fn lemma_join_again(mid: Seq<char>, base: Seq<char>, part: Seq<char>)
    requires
        joined(mid, base, part),
        joinable_base(base),
        part.len() >= 3,
        !is_sep(part[0]),
        part[0] != '?',
        part[1] != '?',
        part[2] != '?',
        !is_sep(part.last()),
    ensures
        joinable_base(mid),
        mid.len() > 0,
        !is_sep(mid.last()),
{
    let sep = choose|sep: Seq<char>| joined_by(mid, base, part, sep);
    assert(mid.last() == part.last());
    if base.len() >= 3 {
        assert(mid[0] == base[0] && mid[1] == base[1] && mid[2] == base[2]);
    } else {
        assert(mid[2] == (base + sep + part)[2]);
    }
}

/// `c` is an ASCII letter.
pub open spec fn is_ascii_alpha(c: char) -> bool {
    ('a' <= c && c <= 'z') || ('A' <= c && c <= 'Z')
}

/// Some component of `t` is `..`.
pub open spec fn has_parent_component(t: Seq<char>) -> bool {
    exists|i: int|
        0 <= i && i + 2 <= t.len() && (i == 0 || is_sep(t[i - 1])) && #[trigger] t[i] == '.'
            && t[i + 1] == '.' && (i + 2 == t.len() || is_sep(t[i + 2]))
}

/// `t` (already trimmed) is a relative path of ordinary components only: not
/// empty, no root (leading separator, which also covers UNC and device
/// paths), no drive prefix, no leading `.` component and no `..` component.
/// A `.` further in is dropped by path parsing and so does no harm.
pub open spec fn safe_relative_spec(t: Seq<char>) -> bool {
    &&& t.len() > 0
    &&& !is_sep(t[0])
    &&& !(t.len() >= 2 && t[1] == ':' && is_ascii_alpha(t[0]))
    &&& !(t[0] == '.' && (t.len() == 1 || is_sep(t[1])))
    &&& !has_parent_component(t)
}

fn is_sep_char(c: char) -> (r: bool)
    ensures
        r == is_sep(c),
{
    c == '\\' || c == '/'
}

/// Whether `name`, trimmed, is a non-empty relative path made only of normal
/// components (no `..`, no leading `.`, no root or drive prefix). Joining such
/// a value onto a base directory always stays inside that base.
pub fn is_safe_relative_dir(name: &str) -> (r: bool)
    ensures
        r == safe_relative_spec(trim_spec(name@)),
{
    let t = trim_chars(name);
    let n = t.len();
    if n == 0 {
        return false;
    }
    if is_sep_char(t[0]) {
        return false;
    }
    if n >= 2 && t[1] == ':' && (('a' <= t[0] && t[0] <= 'z') || ('A' <= t[0] && t[0] <= 'Z')) {
        return false;
    }
    if t[0] == '.' && (n == 1 || is_sep_char(t[1])) {
        return false;
    }
    let mut i: usize = 0;
    while i < n
        invariant
            n == t.len(),
            t@ == trim_spec(name@),
            i <= n,
            forall|k: int|
                0 <= k < i && k + 2 <= n ==> !((k == 0 || is_sep(t@[k - 1])) && #[trigger] t@[k]
                    == '.' && t@[k + 1] == '.' && (k + 2 == n || is_sep(t@[k + 2]))),
        decreases n - i,
    {
        if i + 1 < n && (i == 0 || is_sep_char(t[i - 1])) && t[i] == '.' && t[i + 1] == '.' && (i
            + 2 == n || is_sep_char(t[i + 2])) {
            assert(has_parent_component(t@)) by {
                assert(t@[i as int] == '.');
            }
            return false;
        }
        i = i + 1;
    }
    true
}

} // verus!

verus! {

/// Joining a folder name that [`is_safe_relative_dir`] accepts onto a base
/// directory stays inside that base: the result begins with `base`, then (if
/// `base` does not already end in one) a separator that starts a new
/// component, then the name — which has no root, no drive prefix, no
/// leading `.` component and no `..` component.
pub proof fn law_safe_join_stays_inside(base: Seq<char>, name: Seq<char>, r: Seq<char>)
    requires
        safe_relative_spec(trim_spec(name)),
        joined(r, base, trim_spec(name)),
    ensures
        r.len() > base.len(),
        r.subrange(0, base.len() as int) == base,
        base.len() > 0 && !is_sep(base.last()) ==> is_sep(r[base.len() as int]),
        exists|sep: Seq<char>|
            sep.len() <= 1 && r == base + sep + trim_spec(name) && !is_sep(trim_spec(name)[0])
                && !has_parent_component(trim_spec(name)),
{
    let t = trim_spec(name);
    let sep = choose|sep: Seq<char>| joined_by(r, base, t, sep);
    assert(r.subrange(0, base.len() as int) =~= base);
    if base.len() > 0 && !is_sep(base.last()) {
        assert(r[base.len() as int] == sep[0]);
    }
}

} // verus!

verus! {

/// Every non-empty name made of characters other than separators, `:` and
/// `.` is a safe relative folder: ordinary names with letters, digits,
/// spaces or other symbols are kept.
pub proof fn law_plain_names_are_safe(t: Seq<char>)
    requires
        t.len() > 0,
        forall|i: int| 0 <= i < t.len() ==> !is_sep(#[trigger] t[i]) && t[i] != ':' && t[i] != '.',
    ensures
        safe_relative_spec(t),
{
    assert(!is_sep(t[0]));
    if t.len() >= 2 {
        assert(t[1] != ':');
    }
    assert(t[0] != '.');
    if has_parent_component(t) {
        let i = choose|i: int|
            0 <= i && i + 2 <= t.len() && (i == 0 || is_sep(t[i - 1])) && #[trigger] t[i] == '.'
                && t[i + 1] == '.' && (i + 2 == t.len() || is_sep(t[i + 2]));
        assert(t[i] != '.');
    }
}

} // verus!
