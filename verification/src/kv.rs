//! KeyValues (VDF) documents, held as the flat token stream of their tree, and
//! the lookups that Steam's files need.
//!
//! A document `"key" { "a" "1" "b" { } }` is the stream
//! `Open(key) Str(a, 1) Open(b) Close Close`. Inside an object the entries come
//! in the order in which the parser keeps them: by key, and for a key that
//! occurs more than once, its values one after the other.

use keyvalues_parser::Value::{Obj as ValObj, Str as ValStr};
use vstd::prelude::*;

use crate::text::{eq_ignore_ascii_case, eq_ignore_ascii_case_spec, same_text};

verus! {

use KvToken::{Close, Open, Str};

/// One token of a parsed KeyValues document.
#[derive(Debug)]
pub enum KvToken {
    /// An object value under this key begins.
    Open(String),
    /// A string value under a key.
    Str(String, String),
    /// The innermost open object ends.
    Close,
}

/// The mathematical form of a [`KvToken`].
pub enum KvTok {
    Open(Seq<char>),
    Str(Seq<char>, Seq<char>),
    Close,
}

impl View for KvToken {
    type V = KvTok;

    open spec fn view(&self) -> KvTok {
        match self {
            KvToken::Open(k) => KvTok::Open(k@),
            KvToken::Str(k, s) => KvTok::Str(k@, s@),
            KvToken::Close => KvTok::Close,
        }
    }
}

pub open spec fn toks_view(s: Seq<KvToken>) -> Seq<KvTok> {
    s.map_values(|t: KvToken| t@)
}

/// The token stream of the KeyValues document that `text` spells, by the
/// grammar of `keyvalues_parser::parse`; `None` when `text` is not such a
/// document.
pub uninterp spec fn kv_document(text: Seq<char>) -> Option<Seq<KvTok>>;

/// Calls `keyvalues_parser::parse` (escaped strings, the crate's default) and
/// lists the resulting tree in document order: a string pair becomes one
/// `Str`, an object becomes `Open`, its entries (keys in the map's order, each
/// key's values in order), then `Close`. The error is the parser error's
/// `Display` text.
///
/// Claimed: a successful parse gives `kv_document(text)`, and text that is
/// no document is refused. The parser (pest) also fails when too little
/// native stack is left, which depends on the calling thread, so a failure
/// is not claimed to mean that the text is no document, and its message is
/// left unsaid.
#[verifier::external_body]
fn parse_tokens(text: &str) -> (r: Result<Vec<KvToken>, String>)
    ensures
        r matches Ok(v) ==> kv_document(text@) == Some(toks_view(v@)),
        kv_document(text@) is None ==> r is Err,
{
    let vdf = keyvalues_parser::parse(text).map_err(|e| e.to_string())?;
    let mut toks = vec![];
    let mut todo = vec![Some((&vdf.key, &vdf.value))];
    while let Some(next) = todo.pop() {
        match next {
            None => toks.push(Close),
            Some((k, ValStr(s))) => toks.push(Str(k.to_string(), s.to_string())),
            Some((k, ValObj(obj))) => {
                toks.push(Open(k.to_string()));
                todo.push(None);
                todo.extend(obj.iter().flat_map(|(k, vs)| vs.iter().map(move |v| Some((k, v)))).rev())
            }
        }
    }
    Ok(toks)
}

/// Parse KeyValues text into its token stream. A success is the document
/// the text spells; text that is no document is an error. The parser may
/// also fail on deeply nested text for want of stack.
pub fn parse_kv(text: &str) -> (r: Result<Vec<KvToken>, String>)
    ensures
        r matches Ok(v) ==> kv_document(text@) == Some(toks_view(v@)),
        kv_document(text@) is None ==> r is Err,
{
    parse_tokens(text)
}

/// The key of a token (empty for `Close`).
pub open spec fn tok_key(t: KvTok) -> Seq<char> {
    match t {
        KvTok::Open(k) => k,
        KvTok::Str(k, _) => k,
        KvTok::Close => Seq::empty(),
    }
}

/// Scanning from `k` with `depth` objects open, the index just past the
/// `Close` that ends the outermost of them (the end of the stream if none).
pub open spec fn close_after(t: Seq<KvTok>, k: int, depth: int) -> int
    decreases t.len() - k,
{
    if k < 0 || k >= t.len() {
        t.len() as int
    } else {
        match t[k] {
            KvTok::Close => if depth <= 1 {
                k + 1
            } else {
                close_after(t, k + 1, depth - 1)
            },
            KvTok::Open(_) => close_after(t, k + 1, depth + 1),
            KvTok::Str(_, _) => close_after(t, k + 1, depth),
        }
    }
}

/// The index just past the entry that starts at `j`.
pub open spec fn item_end(t: Seq<KvTok>, j: int) -> int {
    if 0 <= j < t.len() && t[j] is Open {
        close_after(t, j + 1, 1)
    } else {
        j + 1
    }
}

/// The entries of an object from index `k` on, one per key: the first value
/// of each run of equal keys (`prev` is the key of the run in progress).
pub open spec fn entries_from(t: Seq<KvTok>, k: int, prev: Option<Seq<char>>) -> Seq<int>
    decreases t.len() - k,
{
    if 0 <= k < t.len() && !(t[k] is Close) && k < item_end(t, k) <= t.len() {
        if prev == Some(tok_key(t[k])) {
            entries_from(t, item_end(t, k), prev)
        } else {
            seq![k].add(entries_from(t, item_end(t, k), Some(tok_key(t[k]))))
        }
    } else {
        Seq::empty()
    }
}

/// The entries (first value per key) of the object opened at `p`.
pub open spec fn obj_entries(t: Seq<KvTok>, p: int) -> Seq<int> {
    entries_from(t, p + 1, None)
}

/// The text of the first entry in `es` whose key matches `name` (ASCII case
/// ignored) and whose value is a string.
pub open spec fn first_str(t: Seq<KvTok>, es: Seq<int>, name: Seq<char>) -> Option<Seq<char>>
    decreases es.len(),
{
    if es.len() == 0 {
        None
    } else {
        let e = es[0];
        if eq_ignore_ascii_case_spec(tok_key(t[e]), name) && t[e] is Str {
            Some(t[e]->Str_1)
        } else {
            first_str(t, es.drop_first(), name)
        }
    }
}

/// The index of the first entry in `es` whose key matches `name` (ASCII case
/// ignored) and whose value is an object.
pub open spec fn first_obj(t: Seq<KvTok>, es: Seq<int>, name: Seq<char>) -> Option<int>
    decreases es.len(),
{
    if es.len() == 0 {
        None
    } else {
        let e = es[0];
        if eq_ignore_ascii_case_spec(tok_key(t[e]), name) && t[e] is Open {
            Some(e)
        } else {
            first_obj(t, es.drop_first(), name)
        }
    }
}

/// A string field of the object opened at `p`.
pub open spec fn obj_str_spec(t: Seq<KvTok>, p: int, name: Seq<char>) -> Option<Seq<char>> {
    first_str(t, obj_entries(t, p), name)
}

/// The object stored under `name` in the object opened at `p`.
pub open spec fn child_obj_spec(t: Seq<KvTok>, p: int, name: Seq<char>) -> Option<int> {
    first_obj(t, obj_entries(t, p), name)
}

/// The document's root value is an object.
pub open spec fn root_is_obj(t: Seq<KvTok>) -> bool {
    t.len() > 0 && t[0] is Open
}

pub proof fn lemma_close_after_bounds(t: Seq<KvTok>, k: int, depth: int)
    requires
        0 <= k <= t.len(),
    ensures
        k <= close_after(t, k, depth) <= t.len(),
    decreases t.len() - k,
{
    if k < t.len() {
        match t[k] {
            KvTok::Close => if depth > 1 {
                lemma_close_after_bounds(t, k + 1, depth - 1);
            },
            KvTok::Open(_) => lemma_close_after_bounds(t, k + 1, depth + 1),
            KvTok::Str(_, _) => lemma_close_after_bounds(t, k + 1, depth),
        }
    }
}

pub proof fn lemma_item_end_bounds(t: Seq<KvTok>, j: int)
    requires
        0 <= j < t.len(),
    ensures
        j < item_end(t, j) <= t.len(),
{
    if t[j] is Open {
        lemma_close_after_bounds(t, j + 1, 1);
    }
}

/// The index just past the `Close` that ends the object whose contents start
/// at `k`.
pub fn close_after_exec(t: &Vec<KvToken>, k: usize) -> (r: usize)
    requires
        1 <= k <= t.len(),
    ensures
        r == close_after(toks_view(t@), k as int, 1),
{
    let ghost tv = toks_view(t@);
    let mut i = k;
    let mut depth: usize = 1;
    while i < t.len()
        invariant
            tv == toks_view(t@),
            1 <= k <= i <= t.len(),
            1 <= depth <= i - k + 1,
            close_after(tv, k as int, 1) == close_after(tv, i as int, depth as int),
        decreases t.len() - i,
    {
        match &t[i] {
            KvToken::Close => {
                if depth <= 1 {
                    return i + 1;
                }
                depth = depth - 1;
            },
            KvToken::Open(_) => {
                depth = depth + 1;
            },
            KvToken::Str(_, _) => {},
        }
        i = i + 1;
    }
    t.len()
}

/// The index just past the entry that starts at `j`.
pub fn item_end_exec(t: &Vec<KvToken>, j: usize) -> (r: usize)
    requires
        j < t.len(),
    ensures
        r == item_end(toks_view(t@), j as int),
        j < r <= t.len(),
{
    proof {
        lemma_item_end_bounds(toks_view(t@), j as int);
    }
    match &t[j] {
        KvToken::Open(_) => close_after_exec(t, j + 1),
        _ => j + 1,
    }
}

/// Whether the token ends an object.
pub fn is_close(t: &KvToken) -> (r: bool)
    ensures
        r == (t@ is Close),
{
    match t {
        KvToken::Close => true,
        _ => false,
    }
}

/// The key of an entry token.
pub fn token_key(t: &KvToken) -> (r: &str)
    requires
        !(t is Close),
    ensures
        r@ == tok_key(t@),
{
    match t {
        KvToken::Open(k) => k.as_str(),
        KvToken::Str(k, _) => k.as_str(),
        KvToken::Close => "",
    }
}

/// The entries (first value per key) of the object opened at `p`.
pub fn obj_entries_exec(t: &Vec<KvToken>, p: usize) -> (r: Vec<usize>)
    requires
        p < t.len(),
    ensures
        r@.map_values(|i: usize| i as int) == obj_entries(toks_view(t@), p as int),
        forall|i: int| 0 <= i < r@.len() ==> p < #[trigger] r@[i] < t.len(),
        forall|i: int| 0 <= i < r@.len() ==> !(t@[#[trigger] r@[i] as int]@ is Close),
{
    let ghost tv = toks_view(t@);
    let mut out: Vec<usize> = Vec::new();
    let mut k = p + 1;
    let mut prev: Option<String> = None;
    while k < t.len() && !is_close(&t[k])
        invariant
            tv == toks_view(t@),
            p < k <= t.len(),
            obj_entries(tv, p as int) == out@.map_values(|i: usize| i as int).add(
                entries_from(tv, k as int, match prev { Some(s) => Some(s@), None => None }),
            ),
            forall|i: int| 0 <= i < out@.len() ==> p < #[trigger] out@[i] < k,
            forall|i: int| 0 <= i < out@.len() ==> !(t@[#[trigger] out@[i] as int]@ is Close),
        decreases t.len() - k,
    {
        let next = item_end_exec(t, k);
        let key = token_key(&t[k]);
        let same = match &prev {
            Some(s) => same_text(s.as_str(), key),
            None => false,
        };
        let ghost old_out = out@;
        if !same {
            out.push(k);
            prev = Some(key.to_owned());
            assert(out@.map_values(|i: usize| i as int) =~= old_out.map_values(|i: usize| i as int).push(
                k as int,
            ));
        }
        k = next;
    }
    out
}

/// A string field of the object opened at `p`: the first entry whose key
/// matches `name` (ASCII case ignored) and holds a string.
pub fn obj_str(t: &Vec<KvToken>, p: usize, name: &str) -> (r: Option<String>)
    requires
        p < t.len(),
    ensures
        match (r, obj_str_spec(toks_view(t@), p as int, name@)) {
            (Some(s), Some(x)) => s@ == x,
            (None, None) => true,
            _ => false,
        },
{
    let es = obj_entries_exec(t, p);
    let ghost tv = toks_view(t@);
    let ghost esv = es@.map_values(|i: usize| i as int);
    let mut i: usize = 0;
    assert(esv.skip(0) =~= esv);
    while i < es.len()
        invariant
            tv == toks_view(t@),
            esv == es@.map_values(|i: usize| i as int),
            esv == obj_entries(tv, p as int),
            forall|j: int| 0 <= j < es@.len() ==> p < #[trigger] es@[j] < t.len(),
            i <= es.len(),
            obj_str_spec(tv, p as int, name@) == first_str(tv, esv.skip(i as int), name@),
        decreases es.len() - i,
    {
        let e = es[i];
        assert(esv.skip(i as int)[0] == e as int);
        assert(esv.skip(i as int).drop_first() =~= esv.skip(i + 1));
        match &t[e] {
            KvToken::Str(k, s) => {
                if eq_ignore_ascii_case(k.as_str(), name) {
                    return Some(s.clone());
                }
            },
            _ => {},
        }
        i = i + 1;
    }
    None
}

/// The object stored under `name` (ASCII case ignored) in the object opened at
/// `p`, as the index of its `Open` token.
pub fn child_obj(t: &Vec<KvToken>, p: usize, name: &str) -> (r: Option<usize>)
    requires
        p < t.len(),
    ensures
        match r {
            Some(e) => child_obj_spec(toks_view(t@), p as int, name@) == Some(e as int) && e
                < t.len(),
            None => child_obj_spec(toks_view(t@), p as int, name@) is None,
        },
{
    let es = obj_entries_exec(t, p);
    let ghost tv = toks_view(t@);
    let ghost esv = es@.map_values(|i: usize| i as int);
    let mut i: usize = 0;
    assert(esv.skip(0) =~= esv);
    while i < es.len()
        invariant
            tv == toks_view(t@),
            esv == es@.map_values(|i: usize| i as int),
            esv == obj_entries(tv, p as int),
            forall|j: int| 0 <= j < es@.len() ==> p < #[trigger] es@[j] < t.len(),
            i <= es.len(),
            child_obj_spec(tv, p as int, name@) == first_obj(tv, esv.skip(i as int), name@),
        decreases es.len() - i,
    {
        let e = es[i];
        assert(esv.skip(i as int)[0] == e as int);
        assert(esv.skip(i as int).drop_first() =~= esv.skip(i + 1));
        match &t[e] {
            KvToken::Open(k) => {
                if eq_ignore_ascii_case(k.as_str(), name) {
                    return Some(e);
                }
            },
            _ => {},
        }
        i = i + 1;
    }
    None
}

} // verus!
