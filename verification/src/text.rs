//! Small verified string helpers shared by the other modules.

use vstd::prelude::*;
use vstd::std_specs::iter::IteratorSpec;

verus! {

/// The characters of `s`, in order.
pub fn chars_of(s: &str) -> (v: Vec<char>)
    ensures
        v@ == s@,
{
    let mut v: Vec<char> = Vec::new();
    for c in iter: s.chars()
        invariant
            v@ == iter.seq().take(iter.index() as int),
    {
        v.push(c);
    }
    v
}

} // verus!

verus! {

/// ASCII case folding of one character, as a code point.
pub open spec fn ascii_fold(c: char) -> int {
    if 'A' <= c && c <= 'Z' {
        (c as int) + 32
    } else {
        c as int
    }
}

/// `a` and `b` are equal when ASCII letters are compared without case
/// (what `str::eq_ignore_ascii_case` decides).
pub open spec fn eq_ignore_ascii_case_spec(a: Seq<char>, b: Seq<char>) -> bool {
    &&& a.len() == b.len()
    &&& forall|i: int| 0 <= i < a.len() ==> #[trigger] ascii_fold(a[i]) == ascii_fold(b[i])
}

pub fn fold_char(c: char) -> (r: u32)
    ensures
        r as int == ascii_fold(c),
{
    if 'A' <= c && c <= 'Z' {
        (c as u32) + 32
    } else {
        c as u32
    }
}

/// Case-insensitive comparison of ASCII letters; every other character must
/// match exactly.
pub fn eq_ignore_ascii_case(a: &str, b: &str) -> (r: bool)
    ensures
        r == eq_ignore_ascii_case_spec(a@, b@),
{
    let x = chars_of(a);
    let y = chars_of(b);
    if x.len() != y.len() {
        return false;
    }
    let mut i: usize = 0;
    while i < x.len()
        invariant
            x@ == a@,
            y@ == b@,
            x.len() == y.len(),
            i <= x.len(),
            forall|j: int| 0 <= j < i ==> #[trigger] ascii_fold(a@[j]) == ascii_fold(b@[j]),
        decreases x.len() - i,
    {
        if fold_char(x[i]) != fold_char(y[i]) {
            return false;
        }
        i = i + 1;
    }
    true
}

/// Exact equality of two strings.
pub fn same_text(a: &str, b: &str) -> (r: bool)
    ensures
        r == (a@ == b@),
{
    let x = chars_of(a);
    let y = chars_of(b);
    if x.len() != y.len() {
        return false;
    }
    let mut i: usize = 0;
    while i < x.len()
        invariant
            x@ == a@,
            y@ == b@,
            x.len() == y.len(),
            i <= x.len(),
            forall|j: int| 0 <= j < i ==> a@[j] == b@[j],
        decreases x.len() - i,
    {
        if x[i] != y[i] {
            return false;
        }
        i = i + 1;
    }
    assert(a@ =~= b@);
    true
}

} // verus!

verus! {

/// The Unicode `White_Space` property, which `char::is_whitespace` tests.
pub open spec fn is_whitespace(c: char) -> bool {
    ||| ('\u{9}' <= c && c <= '\u{d}')
    ||| c == ' '
    ||| c == '\u{85}'
    ||| c == '\u{a0}'
    ||| c == '\u{1680}'
    ||| ('\u{2000}' <= c && c <= '\u{200a}')
    ||| c == '\u{2028}'
    ||| c == '\u{2029}'
    ||| c == '\u{202f}'
    ||| c == '\u{205f}'
    ||| c == '\u{3000}'
}

pub fn is_whitespace_char(c: char) -> (r: bool)
    ensures
        r == is_whitespace(c),
{
    ('\u{9}' <= c && c <= '\u{d}') || c == ' ' || c == '\u{85}' || c == '\u{a0}' || c
        == '\u{1680}' || ('\u{2000}' <= c && c <= '\u{200a}') || c == '\u{2028}' || c
        == '\u{2029}' || c == '\u{202f}' || c == '\u{205f}' || c == '\u{3000}'
}

/// Index of the first non-whitespace character at or after `i` (the length
/// if there is none).
pub open spec fn lead_end(s: Seq<char>, i: int) -> int
    decreases s.len() - i,
{
    if 0 <= i < s.len() && is_whitespace(s[i]) {
        lead_end(s, i + 1)
    } else {
        i
    }
}

/// Index just past the last non-whitespace character before `j`.
pub open spec fn trail_start(s: Seq<char>, j: int) -> int
    decreases j,
{
    if 0 < j <= s.len() && is_whitespace(s[j - 1]) {
        trail_start(s, j - 1)
    } else {
        j
    }
}

/// `s` without leading and trailing whitespace (what `str::trim` returns).
pub open spec fn trim_spec(s: Seq<char>) -> Seq<char> {
    let a = lead_end(s, 0);
    if a >= s.len() {
        Seq::empty()
    } else {
        s.subrange(a, trail_start(s, s.len() as int))
    }
}

pub proof fn lemma_lead_end(s: Seq<char>, i: int)
    requires
        0 <= i <= s.len(),
    ensures
        i <= lead_end(s, i) <= s.len(),
        lead_end(s, i) < s.len() ==> !is_whitespace(s[lead_end(s, i)]),
        forall|k: int| i <= k < lead_end(s, i) ==> is_whitespace(#[trigger] s[k]),
    decreases s.len() - i,
{
    if i < s.len() && is_whitespace(s[i]) {
        lemma_lead_end(s, i + 1);
    }
}

pub proof fn lemma_trail_start(s: Seq<char>, j: int)
    requires
        0 <= j <= s.len(),
    ensures
        0 <= trail_start(s, j) <= j,
        trail_start(s, j) > 0 ==> !is_whitespace(s[trail_start(s, j) - 1]),
        forall|k: int| trail_start(s, j) <= k < j ==> is_whitespace(#[trigger] s[k]),
    decreases j,
{
    if j > 0 && is_whitespace(s[j - 1]) {
        lemma_trail_start(s, j - 1);
    }
}

/// The characters of `s` without leading and trailing whitespace.
pub fn trim_chars(s: &str) -> (r: Vec<char>)
    ensures
        r@ == trim_spec(s@),
{
    let c = chars_of(s);
    let mut a: usize = 0;
    while a < c.len() && is_whitespace_char(c[a])
        invariant
            c@ == s@,
            a <= c.len(),
            lead_end(s@, 0) == lead_end(s@, a as int),
        decreases c.len() - a,
    {
        a = a + 1;
    }
    let mut out: Vec<char> = Vec::new();
    if a >= c.len() {
        return out;
    }
    let mut b: usize = c.len();
    proof {
        lemma_lead_end(s@, 0);
    }
    while b > 0 && is_whitespace_char(c[b - 1])
        invariant
            c@ == s@,
            a < c.len(),
            !is_whitespace(c@[a as int]),
            b <= c.len(),
            a < b,
            trail_start(s@, s@.len() as int) == trail_start(s@, b as int),
        decreases b,
    {
        b = b - 1;
    }
    let mut k = a;
    while k < b
        invariant
            c@ == s@,
            a <= k <= b <= c.len(),
            out@ == s@.subrange(a as int, k as int),
        decreases b - k,
    {
        out.push(c[k]);
        k = k + 1;
    }
    out
}

/// Whether `s` is empty or only whitespace (`s.trim().is_empty()`).
pub fn is_blank_text(s: &str) -> (r: bool)
    ensures
        r == (trim_spec(s@).len() == 0),
{
    let t = trim_chars(s);
    t.len() == 0
}

/// `a` followed by `b`.
pub fn concat2(a: &str, b: &str) -> (r: String)
    ensures
        r@ == a@ + b@,
{
    String::from_str(a).concat(b)
}

/// `a`, `b` and `c` one after the other.
pub fn concat3(a: &str, b: &str, c: &str) -> (r: String)
    ensures
        r@ == a@ + b@ + c@,
{
    String::from_str(a).concat(b).concat(c)
}

/// The views of a sequence of strings.
pub open spec fn texts(v: Seq<String>) -> Seq<Seq<char>> {
    v.map_values(|s: String| s@)
}

pub proof fn lemma_push_to_set<A>(s: Seq<A>, x: A)
    ensures
        s.push(x).to_set() =~= s.to_set().insert(x),
{
    assert forall|y: A| s.push(x).to_set().contains(y) implies s.to_set().insert(x).contains(y) by {
        let j = choose|j: int| 0 <= j < s.push(x).len() && s.push(x)[j] == y;
        if j < s.len() {
            assert(s[j] == y);
        }
    }
    assert forall|y: A| s.to_set().insert(x).contains(y) implies s.push(x).to_set().contains(y) by {
        if y == x {
            assert(s.push(x)[s.len() as int] == y);
        } else {
            let j = choose|j: int| 0 <= j < s.len() && s[j] == y;
            assert(s.push(x)[j] == y);
        }
    }
}

/// Whether `v` holds the text `s`.
pub fn contains_text(v: &Vec<String>, s: &str) -> (r: bool)
    ensures
        r == texts(v@).contains(s@),
{
    let mut i: usize = 0;
    while i < v.len()
        invariant
            i <= v.len(),
            forall|j: int| 0 <= j < i ==> v@[j]@ != s@,
        decreases v.len() - i,
    {
        if same_text(v[i].as_str(), s) {
            assert(texts(v@)[i as int] == s@);
            return true;
        }
        i = i + 1;
    }
    assert forall|j: int| 0 <= j < texts(v@).len() implies texts(v@)[j] != s@ by {
        assert(texts(v@)[j] == v@[j]@);
    }
    false
}

/// Whether every text of `a` occurs in `b`.
pub fn all_in(a: &Vec<String>, b: &Vec<String>) -> (r: bool)
    ensures
        r == texts(a@).to_set().subset_of(texts(b@).to_set()),
{
    let mut i: usize = 0;
    while i < a.len()
        invariant
            i <= a.len(),
            forall|j: int| 0 <= j < i ==> texts(b@).contains(#[trigger] a@[j]@),
        decreases a.len() - i,
    {
        if !contains_text(b, a[i].as_str()) {
            assert(texts(a@).to_set().contains(a@[i as int]@)) by {
                assert(texts(a@)[i as int] == a@[i as int]@);
            }
            return false;
        }
        i = i + 1;
    }
    assert forall|x: Seq<char>| texts(a@).to_set().contains(x) implies texts(b@).to_set().contains(
        x,
    ) by {
        let j = choose|j: int| 0 <= j < texts(a@).len() && texts(a@)[j] == x;
        assert(a@[j]@ == x);
    }
    true
}

/// Whether `a` and `b` hold the same set of texts.
pub fn same_set(a: &Vec<String>, b: &Vec<String>) -> (r: bool)
    ensures
        r == (texts(a@).to_set() == texts(b@).to_set()),
{
    let x = all_in(a, b);
    let y = all_in(b, a);
    proof {
        if x && y {
            assert(texts(a@).to_set() =~= texts(b@).to_set());
        }
    }
    x && y
}

} // verus!

verus! {

/// The text that `str::to_lowercase` returns for `s` (full Unicode
/// lowercase mapping).
pub uninterp spec fn lowercase(s: Seq<char>) -> Seq<char>;

/// All characters of `s` are ASCII.
pub open spec fn is_ascii_text(s: Seq<char>) -> bool {
    forall|i: int| 0 <= i < s.len() ==> #[trigger] s[i] <= '\u{7f}'
}

/// Calls `str::to_lowercase`. Claimed: the result is `lowercase(s)`, a
/// function of the text alone; the empty text stays empty; and ASCII text
/// is lowered letter by letter (`A`–`Z` to `a`–`z`, all else kept), as the
/// Unicode lowercase mapping that the documentation names does for ASCII.
/// Nothing more is said of the mapping beyond ASCII.
#[verifier::external_body]
pub(crate) fn to_lowercase(s: &str) -> (r: String)
    ensures
        r@ == lowercase(s@),
        s@.len() == 0 ==> r@.len() == 0,
        is_ascii_text(s@) ==> r@.len() == s@.len() && forall|i: int|
            0 <= i < s@.len() ==> #[trigger] r@[i] as int == ascii_fold(s@[i]),
{
    s.to_lowercase()
}

} // verus!

verus! {

/// Calls `String::push`. Claimed, as its documentation says: `c` is appended
/// to the end of `s`.
#[verifier::external_body]
pub(crate) fn push_char(s: &mut String, c: char)
    ensures
        final(s)@ == old(s)@.push(c),
{
    s.push(c)
}

/// `s` begins with `pat`.
pub open spec fn starts_with_seq(s: Seq<char>, pat: Seq<char>) -> bool {
    pat.len() <= s.len() && s.subrange(0, pat.len() as int) == pat
}

/// Whether `s` begins with `pat`.
pub fn starts_with_text(s: &str, pat: &str) -> (r: bool)
    ensures
        r == starts_with_seq(s@, pat@),
{
    let c = chars_of(s);
    let p = chars_of(pat);
    if p.len() > c.len() {
        return false;
    }
    let mut k: usize = 0;
    while k < p.len()
        invariant
            c@ == s@,
            p@ == pat@,
            p.len() <= c.len(),
            k <= p.len(),
            forall|m: int| 0 <= m < k ==> c@[m] == p@[m],
        decreases p.len() - k,
    {
        if c[k] != p[k] {
            return false;
        }
        k = k + 1;
    }
    assert(s@.subrange(0, pat@.len() as int) =~= pat@);
    true
}

} // verus!
