//! Which accounts Steam still has a saved login for.
//!
//! `config/loginusers.vdf` keeps listing an account long after its credentials
//! are gone: a Steam reinstall (or a cleared credential store) rewrites that
//! file with every old entry intact, but Steam can no longer log those accounts
//! in without a password. Steam's own credential store is
//! `config/config.vdf` → `InstallConfigStore/Software/Valve/Steam/Accounts`,
//! which holds one entry per account Steam still knows on this machine.
//!
//! Comparing the two tells which menu entries would drop the user at the
//! Steam login screen instead of switching.

use vstd::prelude::*;

use crate::kv::{
    child_obj, child_obj_spec, kv_document, obj_entries, obj_entries_exec, obj_str, obj_str_spec,
    root_is_obj, tok_key, token_key, toks_view, KvTok, KvToken, parse_kv,
};
use crate::text::{contains_text, lowercase, texts, to_lowercase};
use crate::vdf::is_open;

verus! {

/// The accounts `config.vdf` lists under `Accounts`, by login name and
/// SteamID.
///
/// Both are kept because the two files spell an account differently: the
/// `Accounts` keys are login names (whose case need not match
/// `loginusers.vdf`), while the nested `SteamID` is an exact identifier.
#[derive(Debug, Clone, Default)]
pub struct CachedLogins {
    names: Vec<String>,
    steam_ids: Vec<String>,
}

impl View for CachedLogins {
    /// The lowercased login names, and the SteamIDs.
    type V = (Set<Seq<char>>, Set<Seq<char>>);

    closed spec fn view(&self) -> (Set<Seq<char>>, Set<Seq<char>>) {
        (texts(self.names@).to_set(), texts(self.steam_ids@).to_set())
    }
}

impl CachedLogins {
    /// Whether Steam still has a saved login for this account: its SteamID is
    /// listed, or its login name is, compared in lowercase.
    pub fn contains(&self, account_name: &str, steam_id64: &str) -> (r: bool)
        ensures
            r == (self@.1.contains(steam_id64@) || self@.0.contains(lowercase(account_name@))),
    {
        if contains_text(&self.steam_ids, steam_id64) {
            return true;
        }
        let lower = to_lowercase(account_name);
        contains_text(&self.names, lower.as_str())
    }
}

/// Whether a switch to this account can log in without a password. When the
/// saved logins are unknown (`None`), every account counts as fine: a false
/// "all good" only keeps the old behaviour, while a false "login required"
/// on every entry would look broken.
pub fn has_cached_login(logins: Option<&CachedLogins>, account_name: &str, steam_id64: &str) -> (r:
    bool)
    ensures
        r == match logins {
            None => true,
            Some(c) => c@.1.contains(steam_id64@) || c@.0.contains(lowercase(account_name@)),
        },
{
    match logins {
        None => true,
        Some(c) => c.contains(account_name, steam_id64),
    }
}

/// The `Accounts` object of `config.vdf`:
/// root / Software / Valve / Steam / Accounts, keys matched without ASCII case.
pub open spec fn accounts_obj(t: Seq<KvTok>) -> Option<int> {
    if !root_is_obj(t) {
        None
    } else {
        match child_obj_spec(t, 0, "Software"@) {
            None => None,
            Some(p1) => match child_obj_spec(t, p1, "Valve"@) {
                None => None,
                Some(p2) => match child_obj_spec(t, p2, "Steam"@) {
                    None => None,
                    Some(p3) => child_obj_spec(t, p3, "Accounts"@),
                },
            },
        }
    }
}

/// The lowercased keys of the entries `es`.
pub open spec fn lower_keys(t: Seq<KvTok>, es: Seq<int>) -> Seq<Seq<char>> {
    es.map_values(|e: int| lowercase(tok_key(t[e])))
}

/// The `SteamID` strings of those entries among `es` that are objects and
/// have one.
pub open spec fn steam_ids_of(t: Seq<KvTok>, es: Seq<int>) -> Seq<Seq<char>>
    decreases es.len(),
{
    if es.len() == 0 {
        Seq::empty()
    } else {
        let rest = steam_ids_of(t, es.drop_last());
        let e = es.last();
        if t[e] is Open && obj_str_spec(t, e, "SteamID"@) is Some {
            rest.push(obj_str_spec(t, e, "SteamID"@)->0)
        } else {
            rest
        }
    }
}

/// What the parsed `config.vdf` `t` says of saved logins: `None` when the
/// `Accounts` object is missing or empty; otherwise its lowercased keys and
/// the SteamIDs of its entries.
pub open spec fn cached_logins_of(t: Seq<KvTok>) -> Option<(Set<Seq<char>>, Set<Seq<char>>)> {
    match accounts_obj(t) {
        None => None,
        Some(p) => if obj_entries(t, p).len() == 0 {
            None
        } else {
            Some(
                (
                    lower_keys(t, obj_entries(t, p)).to_set(),
                    steam_ids_of(t, obj_entries(t, p)).to_set(),
                ),
            )
        },
    }
}

/// Read the saved-login set from the text of `config.vdf`.
///
/// `None` means "unknown", and callers must then treat every account as fine.
/// It is returned when the text is unparsable, and also when the `Accounts`
/// section is absent or empty — a Steam build that stores its credentials
/// elsewhere would otherwise make every account look as if it needed a
/// password. The parser may also fail (for want of stack), which gives
/// `None` too; see [`cached_logins_in_tokens`] for the parsed file.
pub fn parse_cached_logins(content: &str) -> (r: Option<CachedLogins>)
    ensures
        r matches Some(c) ==> kv_document(content@) matches Some(t) && cached_logins_of(t) == Some(
            c@,
        ),
        kv_document(content@) is None ==> r is None,
        kv_document(content@) matches Some(t) && cached_logins_of(t) is None ==> r is None,
{
    match parse_kv(content) {
        Ok(t) => cached_logins_in_tokens(&t),
        Err(_) => None,
    }
}

/// The saved-login set of a parsed `config.vdf`.
pub fn cached_logins_in_tokens(t: &Vec<KvToken>) -> (r: Option<CachedLogins>)
    ensures
        match (r, cached_logins_of(toks_view(t@))) {
            (Some(c), Some(v)) => c@ == v,
            (None, None) => true,
            _ => false,
        },
{
    let ghost tv = toks_view(t@);
    if t.len() == 0 || !is_open(&t[0]) {
        return None;
    }
    let p1 = match child_obj(t, 0, "Software") {
        Some(p) => p,
        None => {
            return None;
        },
    };
    let p2 = match child_obj(t, p1, "Valve") {
        Some(p) => p,
        None => {
            return None;
        },
    };
    let p3 = match child_obj(t, p2, "Steam") {
        Some(p) => p,
        None => {
            return None;
        },
    };
    let p = match child_obj(t, p3, "Accounts") {
        Some(p) => p,
        None => {
            return None;
        },
    };
    let es = obj_entries_exec(t, p);
    let ghost esv = es@.map_values(|i: usize| i as int);
    let mut names: Vec<String> = Vec::new();
    let mut ids: Vec<String> = Vec::new();
    let mut i: usize = 0;
    while i < es.len()
        invariant
            tv == toks_view(t@),
            p < t.len(),
            esv == es@.map_values(|i: usize| i as int),
            esv == obj_entries(tv, p as int),
            forall|j: int| 0 <= j < es@.len() ==> p < #[trigger] es@[j] < t.len(),
            forall|j: int| 0 <= j < es@.len() ==> !(t@[#[trigger] es@[j] as int]@ is Close),
            i <= es.len(),
            texts(names@) == lower_keys(tv, esv.take(i as int)),
            texts(ids@) == steam_ids_of(tv, esv.take(i as int)),
        decreases es.len() - i,
    {
        let e = es[i];
        assert(esv[i as int] == e as int);
        assert(tv[e as int] == t@[e as int]@);
        assert(esv.take(i + 1).drop_last() =~= esv.take(i as int));
        assert(esv.take(i + 1).last() == e as int);
        let ghost old_names = names@;
        let ghost old_ids = ids@;
        let lower = to_lowercase(token_key(&t[e]));
        names.push(lower);
        assert(texts(names@) =~= texts(old_names).push(lowercase(tok_key(tv[e as int]))));
        assert(lower_keys(tv, esv.take(i + 1)) =~= lower_keys(tv, esv.take(i as int)).push(
            lowercase(tok_key(tv[e as int])),
        ));
        if is_open(&t[e]) {
            match obj_str(t, e, "SteamID") {
                Some(id) => {
                    ids.push(id);
                    assert(texts(ids@) =~= texts(old_ids).push(ids@.last()@));
                },
                None => {},
            }
        }
        i = i + 1;
    }
    assert(esv.take(es.len() as int) =~= esv);
    if names.len() == 0 {
        return None;
    }
    Some(CachedLogins { names, steam_ids: ids })
}

} // verus!

verus! {

/// Login names are compared without case: two spellings of a name that
/// lowercase alike are both found or both not.
pub proof fn law_login_name_case_insensitive(
    logins: (Set<Seq<char>>, Set<Seq<char>>),
    a: Seq<char>,
    b: Seq<char>,
    steam_id64: Seq<char>,
)
    requires
        lowercase(a) == lowercase(b),
    ensures
        (logins.1.contains(steam_id64) || logins.0.contains(lowercase(a))) == (logins.1.contains(
            steam_id64,
        ) || logins.0.contains(lowercase(b))),
{
}

/// Every login name listed under `Accounts` is among the saved logins.
pub proof fn law_listed_name_is_cached(t: Seq<KvTok>, i: int)
    requires
        accounts_obj(t) is Some,
        0 <= i < obj_entries(t, accounts_obj(t)->0).len(),
    ensures
        cached_logins_of(t) matches Some(v) && v.0.contains(
            lowercase(tok_key(t[obj_entries(t, accounts_obj(t)->0)[i]])),
        ),
{
    let p = accounts_obj(t)->0;
    let es = obj_entries(t, p);
    assert(lower_keys(t, es)[i] == lowercase(tok_key(t[es[i]])));
}

} // verus!
