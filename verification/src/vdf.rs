//! Reading and editing Steam's `config/loginusers.vdf` (Valve KeyValues text)
//! — the saved-account list behind both Steam's own account picker and this
//! app's menu. Reading the file and writing it back are left to the caller;
//! this module works on its text.
//!
//! How Steam treats edits to this file:
//! - Steam reads it only at startup. Its account picker keeps showing a removed
//!   account until Steam restarts.
//! - A normal Steam exit does not write a removed entry back, so a removal
//!   survives Steam restarts.
//! - Signing in to an account writes its entry again.

use vstd::prelude::*;

use crate::kv::{
    kv_document, obj_entries, obj_entries_exec, obj_str, obj_str_spec, parse_kv, root_is_obj,
    tok_key, token_key, toks_view, KvTok, KvToken,
};
use crate::path::{join_path, joinable_base, joined, lemma_join_again};
use crate::scan::{entry_shape, entry_span, find_entry_span, law_entry_span_is_the_entry};
use crate::text::{
    chars_of, concat2, concat3, contains_text, lemma_push_to_set, same_set, same_text, starts_with_seq,
    texts,
};

verus! {

/// A single account entry as stored in `loginusers.vdf`.
#[derive(Debug, Clone)]
pub struct VdfUser {
    pub steam_id64: String,
    pub account_name: String,
    pub persona_name: String,
    pub remember_password: bool,
    pub most_recent: bool,
    pub timestamp: u64,
}

/// Path of `loginusers.vdf` inside a Steam installation:
/// `<steam_path>\\config\\loginusers.vdf`, each piece joined on with one
/// separator (see [`joined`]).
pub fn login_users_path(steam_path: &str) -> (r: String)
    ensures
        joinable_base(steam_path@) ==> exists|config: Seq<char>|
            joined(config, steam_path@, "config"@) && joined(r@, config, "loginusers.vdf"@),
{
    proof {
        reveal_strlit("config");
        reveal_strlit("loginusers.vdf");
        assert("config"@ =~= seq!['c', 'o', 'n', 'f', 'i', 'g']);
        assert("loginusers.vdf"@ =~= seq![
            'l', 'o', 'g', 'i', 'n', 'u', 's', 'e', 'r', 's', '.', 'v', 'd', 'f',
        ]);
    }
    let config = join_path(steam_path, "config");
    proof {
        if joinable_base(steam_path@) {
            lemma_join_again(config@, steam_path@, "config"@);
        }
    }
    join_path(config.as_str(), "loginusers.vdf")
}

/// The value of a string of ASCII decimal digits.
pub open spec fn digits_value(d: Seq<char>) -> int
    decreases d.len(),
{
    if d.len() == 0 {
        0
    } else {
        digits_value(d.drop_last()) * 10 + (d.last() as int - '0' as int)
    }
}

pub open spec fn all_digits(d: Seq<char>) -> bool {
    forall|i: int| 0 <= i < d.len() ==> '0' <= #[trigger] d[i] && d[i] <= '9'
}

/// What `str::parse::<u64>` accepts: an optional `+`, then one or more ASCII
/// digits whose value fits in a `u64`.
pub open spec fn u64_from_str(s: Seq<char>) -> Option<u64> {
    let d = if s.len() > 0 && s[0] == '+' {
        s.drop_first()
    } else {
        s
    };
    if d.len() > 0 && all_digits(d) && digits_value(d) <= u64::MAX {
        Some(digits_value(d) as u64)
    } else {
        None
    }
}

proof fn lemma_digits_value_nonneg(d: Seq<char>)
    requires
        all_digits(d),
    ensures
        digits_value(d) >= 0,
    decreases d.len(),
{
    if d.len() > 0 {
        assert(all_digits(d.drop_last()));
        lemma_digits_value_nonneg(d.drop_last());
    }
}

proof fn lemma_digits_value_grows(d: Seq<char>, i: int)
    requires
        all_digits(d),
        0 <= i <= d.len(),
    ensures
        digits_value(d.take(i)) <= digits_value(d),
    decreases d.len() - i,
{
    if i < d.len() {
        assert(d.drop_last().take(i) =~= d.take(i));
        assert(all_digits(d.drop_last()));
        lemma_digits_value_grows(d.drop_last(), i);
        lemma_digits_value_nonneg(d.drop_last());
    } else {
        assert(d.take(i) =~= d);
    }
}

/// `s` parsed as a `u64` the way `str::parse::<u64>` does it.
pub fn parse_u64(s: &str) -> (r: Option<u64>)
    ensures
        r == u64_from_str(s@),
{
    let c = chars_of(s);
    let start: usize = if c.len() > 0 && c[0] == '+' {
        1
    } else {
        0
    };
    let ghost d = if s@.len() > 0 && s@[0] == '+' {
        s@.drop_first()
    } else {
        s@
    };
    assert(d =~= c@.subrange(start as int, c@.len() as int));
    if start >= c.len() {
        return None;
    }
    let mut v: u64 = 0;
    let mut i = start;
    while i < c.len()
        invariant
            c@ == s@,
            start <= i <= c.len(),
            start < c.len(),
            d == c@.subrange(start as int, c@.len() as int),
            d == (if s@.len() > 0 && s@[0] == '+' {
                s@.drop_first()
            } else {
                s@
            }),
            all_digits(d.take(i - start)),
            v as int == digits_value(d.take(i - start)),
        decreases c.len() - i,
    {
        let ch = c[i];
        assert(d[i - start] == ch);
        if !('0' <= ch && ch <= '9') {
            assert(!all_digits(d));
            return None;
        }
        let digit = (ch as u64) - ('0' as u64);
        assert(d.take(i + 1 - start).drop_last() =~= d.take(i - start));
        assert(all_digits(d.take(i + 1 - start)));
        assert(d.take(i + 1 - start).last() == ch);
        assert(digits_value(d.take(i + 1 - start)) == v * 10 + digit);
        if v > (u64::MAX - digit) / 10 {
            proof {
                assert(v * 10 + digit > u64::MAX);
                if all_digits(d) {
                    lemma_digits_value_grows(d, i + 1 - start);
                }
            }
            return None;
        }
        v = v * 10 + digit;
        i = i + 1;
    }
    assert(d.take(i - start) =~= d);
    Some(v)
}

/// The keys of the entries `es` of a token stream.
pub open spec fn entry_keys(t: Seq<KvTok>, es: Seq<int>) -> Seq<Seq<char>> {
    es.map_values(|e: int| tok_key(t[e]))
}

/// The keys directly under the root object of a parsed `loginusers.vdf` —
/// one SteamID64 per saved account — or the error message.
pub open spec fn keys_of_doc(t: Seq<KvTok>) -> Result<Seq<Seq<char>>, Seq<char>> {
    if root_is_obj(t) {
        Ok(entry_keys(t, obj_entries(t, 0)))
    } else {
        Err("loginusers.vdf root is not an object"@)
    }
}

/// The keys directly under the root object of `loginusers.vdf` text; `None`
/// when the text is no document or its root is no object.
pub open spec fn top_level_keys_spec(text: Seq<char>) -> Option<Seq<Seq<char>>> {
    match kv_document(text) {
        None => None,
        Some(t) => match keys_of_doc(t) {
            Ok(ks) => Some(ks),
            Err(_) => None,
        },
    }
}

/// The prefix of the message for text the parser refused.
pub open spec fn parse_failure(m: Seq<char>) -> bool {
    starts_with_seq(m, "failed to parse loginusers.vdf: "@)
}

/// The message for text the parser refused, with the parser's own message.
fn parse_error(e: &str) -> (m: String)
    ensures
        m@ == "failed to parse loginusers.vdf: "@ + e@,
        parse_failure(m@),
{
    proof {
        reveal_strlit("failed to parse loginusers.vdf: ");
    }
    let m = concat2("failed to parse loginusers.vdf: ", e);
    assert(m@.subrange(0, "failed to parse loginusers.vdf: "@.len() as int)
        =~= "failed to parse loginusers.vdf: "@);
    m
}

/// The keys directly under the root object — one SteamID64 per saved
/// account. A parser failure gives `failed to parse loginusers.vdf: …`.
pub fn top_level_keys(content: &str) -> (r: Result<Vec<String>, String>)
    ensures
        r matches Ok(v) ==> top_level_keys_spec(content@) == Some(texts(v@)),
        top_level_keys_spec(content@) is None ==> r is Err,
        r matches Err(m) ==> parse_failure(m@) || (kv_document(content@) matches Some(t)
            && keys_of_doc(t) == Err::<Seq<Seq<char>>, Seq<char>>(m@)),
{
    let t = match parse_kv(content) {
        Ok(t) => t,
        Err(e) => {
            return Err(parse_error(e.as_str()));
        },
    };
    keys_in_tokens(&t)
}

/// The keys directly under the root object of a parsed `loginusers.vdf`.
pub fn keys_in_tokens(t: &Vec<KvToken>) -> (r: Result<Vec<String>, String>)
    ensures
        match (r, keys_of_doc(toks_view(t@))) {
            (Ok(v), Ok(ks)) => texts(v@) == ks,
            (Err(m), Err(n)) => m@ == n,
            _ => false,
        },
{
    let ghost tv = toks_view(t@);
    if t.len() == 0 || !is_open(&t[0]) {
        return Err(String::from_str("loginusers.vdf root is not an object"));
    }
    let es = obj_entries_exec(t, 0);
    let ghost esv = es@.map_values(|i: usize| i as int);
    let mut keys: Vec<String> = Vec::new();
    let mut i: usize = 0;
    while i < es.len()
        invariant
            tv == toks_view(t@),
            esv == es@.map_values(|i: usize| i as int),
            esv == obj_entries(tv, 0),
            forall|j: int| 0 <= j < es@.len() ==> 0 < #[trigger] es@[j] < t.len(),
            forall|j: int| 0 <= j < es@.len() ==> !(t@[#[trigger] es@[j] as int]@ is Close),
            i <= es.len(),
            texts(keys@) == entry_keys(tv, esv.take(i as int)),
        decreases es.len() - i,
    {
        let e = es[i];
        assert(esv[i as int] == e as int);
        let k = token_key(&t[e]);
        let ghost old_keys = keys@;
        keys.push(k.to_owned());
        assert(tv[e as int] == t@[e as int]@);
        assert(texts(keys@) =~= texts(old_keys).push(k@));
        assert(entry_keys(tv, esv.take(i + 1)) =~= entry_keys(tv, esv.take(i as int)).push(
            tok_key(tv[e as int]),
        ));
        i = i + 1;
    }
    assert(esv.take(es.len() as int) =~= esv);
    Ok(keys)
}

/// Whether the token opens an object.
pub fn is_open(t: &KvToken) -> (r: bool)
    ensures
        r == (t@ is Open),
{
    match t {
        KvToken::Open(_) => true,
        _ => false,
    }
}

/// `content` without the characters in `[s, e)`.
pub open spec fn cut(content: Seq<char>, s: int, e: int) -> Seq<char> {
    content.subrange(0, s) + content.subrange(e, content.len() as int)
}

/// What removing the account `id` from `loginusers.vdf` text gives, when
/// the text parses: `Some(None)` when the file lists no such account;
/// `Some(Some(u))` with `u` the text with the account's block cut out,
/// provided the scanner finds the block and `u` lists exactly the old
/// accounts minus this one; `None` (an error) otherwise.
pub open spec fn removal_spec(content: Seq<char>, id: Seq<char>) -> Option<Option<Seq<char>>> {
    match top_level_keys_spec(content) {
        None => None,
        Some(ks) => if !ks.contains(id) {
            Some(None)
        } else {
            match entry_span(content, id) {
                None => None,
                Some((s, e)) => match top_level_keys_spec(cut(content, s, e)) {
                    None => None,
                    Some(ks2) => if ks2.to_set() == ks.to_set().remove(id) {
                        Some(Some(cut(content, s, e)))
                    } else {
                        None
                    },
                },
            }
        },
    }
}

/// The first half of a removal, on the parsed file `t`: the error of the
/// parsed file, `Ok(None)` when it lists no account `id`, else the text with
/// the account's block cut out (not yet checked).
pub open spec fn candidate_spec(content: Seq<char>, id: Seq<char>, t: Seq<KvTok>) -> Result<
    Option<Seq<char>>,
    Seq<char>,
> {
    match keys_of_doc(t) {
        Err(m) => Err(m),
        Ok(ks) => if !ks.contains(id) {
            Ok(None)
        } else {
            match entry_span(content, id) {
                None => Err("could not locate account "@ + id + " in loginusers.vdf"@),
                Some((s, e)) => Ok(Some(cut(content, s, e))),
            }
        },
    }
}

/// Cut the block of the account `steam_id64` out of `content`, whose parse
/// is `before`. The result is not yet checked; see [`removal_check`].
pub fn removal_candidate(content: &str, steam_id64: &str, before: &Vec<KvToken>) -> (r: Result<
    Option<String>,
    String,
>)
    ensures
        match (r, candidate_spec(content@, steam_id64@, toks_view(before@))) {
            (Ok(Some(u)), Ok(Some(x))) => u@ == x,
            (Ok(None), Ok(None)) => true,
            (Err(m), Err(n)) => m@ == n,
            _ => false,
        },
{
    let keys = match keys_in_tokens(before) {
        Ok(v) => v,
        Err(m) => {
            return Err(m);
        },
    };
    if !contains_text(&keys, steam_id64) {
        return Ok(None);
    }
    let c = chars_of(content);
    let k = chars_of(steam_id64);
    let (s, e) = match find_entry_span(&c, &k) {
        Some(span) => span,
        None => {
            return Err(concat3("could not locate account ", steam_id64, " in loginusers.vdf"));
        },
    };
    let head = content.substring_char(0, s);
    let tail = content.substring_char(e, c.len());
    let updated = concat2(head, tail);
    assert(updated@ == cut(content@, s as int, e as int));
    Ok(Some(updated))
}

/// What [`removal_check`] decides for the parses `t` (before) and `t2`
/// (after): `Ok` when the edited file lists exactly the old accounts minus
/// `id`, else the error.
pub open spec fn check_spec(t: Seq<KvTok>, id: Seq<char>, t2: Seq<KvTok>) -> Result<(), Seq<char>> {
    match (keys_of_doc(t), keys_of_doc(t2)) {
        (Err(n), _) => Err(n),
        (Ok(_), Err(n)) => Err(n),
        (Ok(ks), Ok(ks2)) => if ks2.to_set() == ks.to_set().remove(id) {
            Ok(())
        } else {
            Err("removing the account would corrupt loginusers.vdf"@)
        },
    }
}

/// The second half of a removal: the edited file, parsed as `after`, must
/// list exactly the accounts of the original, parsed as `before`, minus
/// `steam_id64`. The error of either parse's root, or the corruption error.
pub fn removal_check(before: &Vec<KvToken>, steam_id64: &str, after: &Vec<KvToken>) -> (r: Result<
    (),
    String,
>)
    ensures
        match (r, check_spec(toks_view(before@), steam_id64@, toks_view(after@))) {
            (Ok(_), Ok(_)) => true,
            (Err(m), Err(n)) => m@ == n,
            _ => false,
        },
{
    let before_keys = match keys_in_tokens(before) {
        Ok(v) => v,
        Err(m) => {
            return Err(m);
        },
    };
    let mut expected: Vec<String> = Vec::new();
    let mut i: usize = 0;
    while i < before_keys.len()
        invariant
            i <= before_keys.len(),
            texts(expected@).to_set() == texts(before_keys@.take(i as int)).to_set().remove(
                steam_id64@,
            ),
        decreases before_keys.len() - i,
    {
        let ghost old_exp = expected@;
        if !same_text(before_keys[i].as_str(), steam_id64) {
            expected.push(before_keys[i].clone());
        }
        assert(texts(before_keys@.take(i + 1)) =~= texts(before_keys@.take(i as int)).push(
            before_keys@[i as int]@,
        ));
        assert(texts(expected@).to_set() =~= texts(before_keys@.take(i + 1)).to_set().remove(
            steam_id64@,
        )) by {
            lemma_push_to_set(texts(before_keys@.take(i as int)), before_keys@[i as int]@);
            if before_keys@[i as int]@ != steam_id64@ {
                assert(texts(expected@) =~= texts(old_exp).push(before_keys@[i as int]@));
                lemma_push_to_set(texts(old_exp), before_keys@[i as int]@);
            } else {
                assert(texts(expected@) =~= texts(old_exp));
            }
        }
        i = i + 1;
    }
    assert(before_keys@.take(before_keys.len() as int) =~= before_keys@);
    let after_keys = match keys_in_tokens(after) {
        Ok(v) => v,
        Err(m) => {
            return Err(m);
        },
    };
    if !same_set(&after_keys, &expected) {
        return Err(String::from_str("removing the account would corrupt loginusers.vdf"));
    }
    Ok(())
}

/// Cut the top-level entry `"<steam_id64>" { … }` out of `loginusers.vdf`
/// text. `Ok(None)` when the file lists no such account.
///
/// Only the account's own block is cut out (widened to whole lines when it
/// sits on lines of its own); every other character stays as it was. The
/// result is parsed back before it is returned: it must still be valid
/// KeyValues and list exactly the old accounts minus this one. Anything else
/// is an error, so a scanner mistake can never reach Steam's file.
///
/// A success is the removal that [`removal_spec`] describes, and every case
/// that it calls an error is one. The parser may fail besides (for want of
/// stack); the outcome for given parses is fixed by [`removal_candidate`]
/// and [`removal_check`].
pub fn remove_user_entry(content: &str, steam_id64: &str) -> (r: Result<Option<String>, String>)
    ensures
        r matches Ok(o) ==> removal_spec(content@, steam_id64@) == Some(
            match o {
                Some(u) => Some(u@),
                None => None::<Seq<char>>,
            },
        ),
        removal_spec(content@, steam_id64@) is None ==> r is Err,
        r matches Err(m) ==> parse_failure(m@) || (kv_document(content@) matches Some(t) && (
        candidate_spec(content@, steam_id64@, t) == Err::<Option<Seq<char>>, Seq<char>>(m@) || (
        candidate_spec(content@, steam_id64@, t) matches Ok(Some(u)) && kv_document(u) matches Some(
            t2,
        ) && check_spec(t, steam_id64@, t2) == Err::<(), Seq<char>>(m@)))),
{
    let before = match parse_kv(content) {
        Ok(t) => t,
        Err(e) => {
            return Err(parse_error(e.as_str()));
        },
    };
    let updated = match removal_candidate(content, steam_id64, &before) {
        Ok(Some(u)) => u,
        Ok(None) => {
            return Ok(None);
        },
        Err(m) => {
            return Err(m);
        },
    };
    let after = match parse_kv(updated.as_str()) {
        Ok(t) => t,
        Err(e) => {
            return Err(parse_error(e.as_str()));
        },
    };
    match removal_check(&before, steam_id64, &after) {
        Ok(()) => Ok(Some(updated)),
        Err(m) => Err(m),
    }
}

/// Text of an optional field, empty when it is absent.
pub open spec fn or_empty(o: Option<Seq<char>>) -> Seq<char> {
    match o {
        Some(s) => s,
        None => Seq::empty(),
    }
}

/// A `"0"`/`"1"` flag of the object opened at `p`.
pub open spec fn obj_flag(t: Seq<KvTok>, p: int, name: Seq<char>) -> bool {
    obj_str_spec(t, p, name) == Some("1"@)
}

/// The `Timestamp` field of the object opened at `p`, 0 when it is absent or
/// not a `u64`.
pub open spec fn obj_timestamp(t: Seq<KvTok>, p: int) -> u64 {
    match obj_str_spec(t, p, "Timestamp"@) {
        Some(s) => match u64_from_str(s) {
            Some(v) => v,
            None => 0,
        },
        None => 0,
    }
}

/// `u` is the account stored in the object opened at `p`.
pub open spec fn user_of(u: VdfUser, t: Seq<KvTok>, p: int) -> bool {
    &&& u.steam_id64@ == tok_key(t[p])
    &&& u.account_name@ == or_empty(obj_str_spec(t, p, "AccountName"@))
    &&& u.persona_name@ == or_empty(obj_str_spec(t, p, "PersonaName"@))
    &&& u.remember_password == obj_flag(t, p, "RememberPassword"@)
    &&& u.most_recent == obj_flag(t, p, "MostRecent"@)
    &&& u.timestamp == obj_timestamp(t, p)
}

/// The entries among `es` whose value is an object.
pub open spec fn object_entries(t: Seq<KvTok>, es: Seq<int>) -> Seq<int> {
    es.filter(|e: int| t[e] is Open)
}

/// Read a `"0"`/`"1"` flag as a bool.
fn obj_bool(t: &Vec<KvToken>, p: usize, name: &str) -> (r: bool)
    requires
        p < t.len(),
    ensures
        r == obj_flag(toks_view(t@), p as int, name@),
{
    proof {
        reveal_strlit("1");
    }
    match obj_str(t, p, name) {
        Some(s) => same_text(s.as_str(), "1"),
        None => false,
    }
}

/// The account stored in the object opened at `p`.
fn read_user(t: &Vec<KvToken>, p: usize) -> (u: VdfUser)
    requires
        p < t.len(),
        !(t@[p as int]@ is Close),
    ensures
        user_of(u, toks_view(t@), p as int),
{
    let account_name = match obj_str(t, p, "AccountName") {
        Some(s) => s,
        None => String::new(),
    };
    let persona_name = match obj_str(t, p, "PersonaName") {
        Some(s) => s,
        None => String::new(),
    };
    let timestamp = match obj_str(t, p, "Timestamp") {
        Some(s) => match parse_u64(s.as_str()) {
            Some(v) => v,
            None => 0,
        },
        None => 0,
    };
    VdfUser {
        steam_id64: token_key(&t[p]).to_owned(),
        account_name,
        persona_name,
        remember_password: obj_bool(t, p, "RememberPassword"),
        most_recent: obj_bool(t, p, "MostRecent"),
        timestamp,
    }
}

/// `v` is the list of users of the parsed `loginusers.vdf` `t`: one per
/// entry of the root whose value is an object, in the parser's key order.
pub open spec fn users_of_doc(v: Seq<VdfUser>, t: Seq<KvTok>) -> bool {
    &&& v.len() == object_entries(t, obj_entries(t, 0)).len()
    &&& forall|i: int|
        0 <= i < v.len() ==> user_of(#[trigger] v[i], t, object_entries(t, obj_entries(t, 0))[i])
}

/// Parse `loginusers.vdf` text into its list of users, in the parser's key
/// order. An entry whose value is not an object is skipped. Text that is no
/// document, or whose root is no object, is an error; the parser may fail
/// besides (for want of stack). See [`users_in_tokens`] for the parsed file.
pub fn parse_login_users(content: &str) -> (r: Result<Vec<VdfUser>, String>)
    ensures
        r matches Ok(v) ==> kv_document(content@) matches Some(t) && root_is_obj(t)
            && users_of_doc(v@, t),
        kv_document(content@) is None ==> r is Err,
        kv_document(content@) matches Some(t) && !root_is_obj(t) ==> r is Err,
        r matches Err(m) ==> parse_failure(m@) || m@ == "loginusers.vdf root is not an object"@,
{
    match parse_kv(content) {
        Ok(t) => users_in_tokens(&t),
        Err(e) => Err(parse_error(e.as_str())),
    }
}

/// The users of a parsed `loginusers.vdf`, or the error for a root that is
/// no object.
pub fn users_in_tokens(t: &Vec<KvToken>) -> (r: Result<Vec<VdfUser>, String>)
    ensures
        root_is_obj(toks_view(t@)) ==> (r matches Ok(v) && users_of_doc(v@, toks_view(t@))),
        !root_is_obj(toks_view(t@)) ==> (r matches Err(m) && m@
            == "loginusers.vdf root is not an object"@),
{
    let ghost tv = toks_view(t@);
    if t.len() == 0 || !is_open(&t[0]) {
        return Err(String::from_str("loginusers.vdf root is not an object"));
    }
    let es = obj_entries_exec(t, 0);
    let ghost esv = es@.map_values(|i: usize| i as int);
    let ghost pred = |e: int| tv[e] is Open;
    let mut users: Vec<VdfUser> = Vec::new();
    let mut i: usize = 0;
    while i < es.len()
        invariant
            tv == toks_view(t@),
            esv == es@.map_values(|i: usize| i as int),
            esv == obj_entries(tv, 0),
            pred == (|e: int| tv[e] is Open),
            forall|j: int| 0 <= j < es@.len() ==> 0 < #[trigger] es@[j] < t.len(),
            forall|j: int| 0 <= j < es@.len() ==> !(t@[#[trigger] es@[j] as int]@ is Close),
            i <= es.len(),
            users@.len() == esv.take(i as int).filter(pred).len(),
            forall|j: int|
                0 <= j < users@.len() ==> user_of(
                    #[trigger] users@[j],
                    tv,
                    esv.take(i as int).filter(pred)[j],
                ),
        decreases es.len() - i,
    {
        reveal(Seq::filter);
        let e = es[i];
        assert(esv.take(i + 1).drop_last() =~= esv.take(i as int));
        assert(esv.take(i + 1).last() == e as int);
        if is_open(&t[e]) {
            let u = read_user(t, e);
            users.push(u);
        }
        i = i + 1;
    }
    assert(esv.take(es.len() as int) =~= esv);
    Ok(users)
}

} // verus!

verus! {

/// A successful removal cuts one span out of the text and nothing else, and
/// that span is the account's own block: the quoted SteamID (at `w.2`)
/// through a closing brace (before `w.3`), with only blanks and line breaks
/// around it. The new text parses and lists exactly the old accounts minus
/// the removed one.
pub proof fn law_removal_cuts_only_the_entry(content: Seq<char>, id: Seq<char>, u: Seq<char>) -> (w: (
    int,
    int,
    int,
    int,
))
    requires
        removal_spec(content, id) == Some(Some(u)),
    ensures
        u == cut(content, w.0, w.1),
        entry_shape(content, id, w.0, w.1, w.2, w.3),
        top_level_keys_spec(content) matches Some(ks) && top_level_keys_spec(u) matches Some(ks2)
            && ks2.to_set() == ks.to_set().remove(id),
{
    let (s, e) = entry_span(content, id)->0;
    let v = law_entry_span_is_the_entry(content, id);
    (s, e, v.0, v.1)
}

/// An account the file does not list is no edit, and a file that does not
/// parse is never edited.
pub proof fn law_no_edit_without_the_account(content: Seq<char>, id: Seq<char>)
    ensures
        top_level_keys_spec(content) matches Some(ks) && !ks.contains(id) ==> removal_spec(
            content,
            id,
        ) == Some(None::<Seq<char>>),
        top_level_keys_spec(content) is None ==> removal_spec(content, id) is None,
{
}

} // verus!

verus! {

/// An account the file lists is always cut out or the removal fails: a
/// listed account is never answered with "not listed".
pub proof fn law_listed_account_is_never_left(content: Seq<char>, id: Seq<char>)
    ensures
        top_level_keys_spec(content) matches Some(ks) && ks.contains(id) ==> removal_spec(
            content,
            id,
        ) != Some(None::<Seq<char>>),
        removal_spec(content, id) == Some(None::<Seq<char>>) ==> (top_level_keys_spec(content) is Some
            && !top_level_keys_spec(content)->0.contains(id)),
{
}

/// On a parsed file, the first half of a removal answers "not listed"
/// exactly when the account id is not among the top-level keys.
pub proof fn law_candidate_not_listed_iff_absent(content: Seq<char>, id: Seq<char>, t: Seq<KvTok>)
    ensures
        candidate_spec(content, id, t) == Ok::<Option<Seq<char>>, Seq<char>>(None) <==> (
        keys_of_doc(t) is Ok && !keys_of_doc(t)->Ok_0.contains(id)),
{
}

} // verus!
