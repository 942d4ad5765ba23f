//! Aggregating Steam accounts into the model shown in the menu.

use vstd::prelude::*;

use crate::kv::{kv_document, obj_entries, root_is_obj, tok_key, KvTok};
use crate::text::{lowercase, same_text, to_lowercase};
use crate::vdf::{object_entries, parse_failure, parse_login_users, user_of, users_of_doc, VdfUser};

verus! {

/// An account as presented to the UI.
#[derive(Debug, Clone)]
pub struct Account {
    pub steam_id64: String,
    pub account_name: String,
    pub persona_name: String,
    pub remember_password: bool,
    pub most_recent: bool,
    pub timestamp: u64,
    /// True if this account is the one Steam will auto-login (the active one).
    pub is_current: bool,
}

/// `p` lists each of `0..n` exactly once.
pub open spec fn is_perm(p: Seq<int>, n: int) -> bool {
    &&& p.len() == n
    &&& forall|k: int| 0 <= k < n ==> 0 <= #[trigger] p[k] < n
    &&& forall|a: int, b: int| 0 <= a < b < n ==> p[a] != p[b]
}

/// In the account order, entry `i` comes before entry `j`: the active
/// account first, then the most recently used, ties in their original order.
pub open spec fn account_before(cur: Seq<bool>, ts: Seq<u64>, i: int, j: int) -> bool {
    ||| (cur[i] && !cur[j])
    ||| (cur[i] == cur[j] && ts[i] > ts[j])
    ||| (cur[i] == cur[j] && ts[i] == ts[j] && i < j)
}

/// The account is the active one: `current` (the lowercased auto-login
/// user) is set and equals the lowercased account name.
pub open spec fn is_current_spec(account_name: Seq<char>, current: Seq<char>) -> bool {
    current.len() > 0 && lowercase(account_name) == current
}

/// `a` presents `u`, with `is_current` decided against `current`.
pub open spec fn account_of(a: Account, u: VdfUser, current: Seq<char>) -> bool {
    &&& a.steam_id64@ == u.steam_id64@
    &&& a.account_name@ == u.account_name@
    &&& a.persona_name@ == u.persona_name@
    &&& a.remember_password == u.remember_password
    &&& a.most_recent == u.most_recent
    &&& a.timestamp == u.timestamp
    &&& a.is_current == is_current_spec(u.account_name@, current)
}

/// The lowercased auto-login user, empty when there is none.
pub open spec fn current_key(auto_login_user: Option<&str>) -> Seq<char> {
    match auto_login_user {
        Some(s) => lowercase(s@),
        None => Seq::empty(),
    }
}

fn insert_ordered(order: &mut Vec<usize>, i: usize, cur: &Vec<bool>, ts: &Vec<u64>)
    requires
        i < cur.len(),
        cur.len() == ts.len(),
        is_perm(old(order)@.map_values(|k: usize| k as int), i as int),
        forall|a: int, b: int|
            0 <= a < b < old(order)@.len() ==> account_before(
                cur@,
                ts@,
                #[trigger] old(order)@[a] as int,
                #[trigger] old(order)@[b] as int,
            ),
    ensures
        is_perm(final(order)@.map_values(|k: usize| k as int), i + 1),
        forall|a: int, b: int|
            0 <= a < b < final(order)@.len() ==> account_before(
                cur@,
                ts@,
                #[trigger] final(order)@[a] as int,
                #[trigger] final(order)@[b] as int,
            ),
{
    let ghost o = order@;
    proof {
        assert forall|k: int| 0 <= k < o.len() implies 0 <= #[trigger] o[k] < i by {
            assert(o.map_values(|k: usize| k as int)[k] == o[k] as int);
        }
    }
    let mut pos: usize = 0;
    while pos < order.len() && !(cur[i] && !cur[order[pos]] || cur[i] == cur[order[pos]] && ts[i]
        > ts[order[pos]])
        invariant
            order@ == o,
            i < cur.len(),
            cur.len() == ts.len(),
            o.len() == i,
            forall|k: int| 0 <= k < o.len() ==> 0 <= #[trigger] o[k] < i,
            pos <= o.len(),
            forall|k: int| 0 <= k < pos ==> account_before(cur@, ts@, #[trigger] o[k] as int, i as int),
        decreases o.len() - pos,
    {
        pos = pos + 1;
    }
    proof {
        if pos < o.len() {
            assert forall|k: int| pos <= k < o.len() implies account_before(
                cur@,
                ts@,
                i as int,
                #[trigger] o[k] as int,
            ) by {
                if k > pos {
                    assert(account_before(cur@, ts@, o[pos as int] as int, o[k] as int));
                }
            }
        }
    }
    order.insert(pos, i);
    proof {
        let n = order@;
        assert(n == o.insert(pos as int, i));
        let nm = n.map_values(|k: usize| k as int);
        let om = o.map_values(|k: usize| k as int);
        assert forall|k: int| 0 <= k < i + 1 implies 0 <= #[trigger] nm[k] < i + 1 by {
            if k < pos {
                assert(nm[k] == om[k]);
            } else if k > pos {
                assert(nm[k] == om[k - 1]);
            }
        }
        assert forall|a: int, b: int| 0 <= a < b < i + 1 implies nm[a] != nm[b] by {
            if a < pos && b < pos {
                assert(nm[a] == om[a] && nm[b] == om[b]);
            } else if a < pos && b == pos {
                assert(nm[a] == om[a]);
            } else if a < pos && b > pos {
                assert(nm[a] == om[a] && nm[b] == om[b - 1]);
            } else if a == pos {
                assert(nm[b] == om[b - 1]);
            } else {
                assert(nm[a] == om[a - 1] && nm[b] == om[b - 1]);
            }
        }
        assert forall|a: int, b: int| 0 <= a < b < n.len() implies account_before(
            cur@,
            ts@,
            #[trigger] n[a] as int,
            #[trigger] n[b] as int,
        ) by {
            if a < pos && b < pos {
                assert(n[a] == o[a] && n[b] == o[b]);
            } else if a < pos && b == pos {
                assert(n[a] == o[a]);
            } else if a < pos && b > pos {
                assert(n[a] == o[a] && n[b] == o[b - 1]);
            } else if a == pos {
                assert(n[b] == o[b - 1]);
            } else {
                assert(n[a] == o[a - 1] && n[b] == o[b - 1]);
            }
        }
    }
}

/// The order of the accounts: active first, then by descending timestamp,
/// ties kept in their original order (what two stable sorts give: by
/// descending timestamp, then active first).
fn account_order(cur: &Vec<bool>, ts: &Vec<u64>) -> (order: Vec<usize>)
    requires
        cur.len() == ts.len(),
    ensures
        is_perm(order@.map_values(|k: usize| k as int), cur.len() as int),
        forall|a: int, b: int|
            0 <= a < b < order@.len() ==> account_before(
                cur@,
                ts@,
                #[trigger] order@[a] as int,
                #[trigger] order@[b] as int,
            ),
{
    let mut order: Vec<usize> = Vec::new();
    let mut i: usize = 0;
    while i < cur.len()
        invariant
            cur.len() == ts.len(),
            i <= cur.len(),
            is_perm(order@.map_values(|k: usize| k as int), i as int),
            forall|a: int, b: int|
                0 <= a < b < order@.len() ==> account_before(
                    cur@,
                    ts@,
                    #[trigger] order@[a] as int,
                    #[trigger] order@[b] as int,
                ),
        decreases cur.len() - i,
    {
        insert_ordered(&mut order, i, cur, ts);
        i = i + 1;
    }
    order
}

/// The accounts of `users`, each marked active when its lowercased account
/// name equals the lowercased `auto_login_user`, ordered active first, then
/// most recently used first.
pub fn accounts_from_users(users: &Vec<VdfUser>, auto_login_user: Option<&str>) -> (r: Vec<
    Account,
>)
    ensures
        exists|p: Seq<int>|
            {
                &&& is_perm(p, users@.len() as int)
                &&& r@.len() == users@.len()
                &&& forall|k: int|
                    0 <= k < r@.len() ==> account_of(
                        #[trigger] r@[k],
                        users@[p[k]],
                        current_key(auto_login_user),
                    )
                &&& forall|a: int, b: int|
                    0 <= a < b < r@.len() ==> account_before(
                        users@.map_values(
                            |u: VdfUser| is_current_spec(u.account_name@, current_key(auto_login_user)),
                        ),
                        users@.map_values(|u: VdfUser| u.timestamp),
                        #[trigger] p[a],
                        #[trigger] p[b],
                    )
            },
{
    let ghost ck = current_key(auto_login_user);
    let current = match auto_login_user {
        Some(s) => to_lowercase(s),
        None => String::new(),
    };
    assert(current@ == ck);
    let mut cur: Vec<bool> = Vec::new();
    let mut ts: Vec<u64> = Vec::new();
    let mut i: usize = 0;
    while i < users.len()
        invariant
            i <= users.len(),
            current@ == ck,
            cur@.len() == i,
            ts@.len() == i,
            forall|k: int|
                0 <= k < i ==> #[trigger] cur@[k] == is_current_spec(users@[k].account_name@, ck),
            forall|k: int| 0 <= k < i ==> #[trigger] ts@[k] == users@[k].timestamp,
        decreases users.len() - i,
    {
        let name = to_lowercase(users[i].account_name.as_str());
        let c = !current.as_str().is_empty() && same_text(name.as_str(), current.as_str());
        cur.push(c);
        ts.push(users[i].timestamp);
        i = i + 1;
    }
    let ghost curs = users@.map_values(|u: VdfUser| is_current_spec(u.account_name@, ck));
    let ghost tss = users@.map_values(|u: VdfUser| u.timestamp);
    assert(cur@ =~= curs);
    assert(ts@ =~= tss);
    let order = account_order(&cur, &ts);
    let ghost p = order@.map_values(|k: usize| k as int);
    let mut out: Vec<Account> = Vec::new();
    let mut k: usize = 0;
    while k < order.len()
        invariant
            order@.len() == users@.len(),
            cur@ == curs,
            curs == users@.map_values(|u: VdfUser| is_current_spec(u.account_name@, ck)),
            p == order@.map_values(|k: usize| k as int),
            is_perm(p, users@.len() as int),
            k <= order.len(),
            out@.len() == k,
            forall|j: int| 0 <= j < k ==> account_of(#[trigger] out@[j], users@[p[j]], ck),
        decreases order.len() - k,
    {
        let idx = order[k];
        assert(p[k as int] == idx as int);
        assert(idx < users.len());
        assert(cur@[idx as int] == is_current_spec(users@[idx as int].account_name@, ck));
        let u = &users[idx];
        out.push(
            Account {
                steam_id64: u.steam_id64.clone(),
                account_name: u.account_name.clone(),
                persona_name: u.persona_name.clone(),
                remember_password: u.remember_password,
                most_recent: u.most_recent,
                timestamp: u.timestamp,
                is_current: cur[idx],
            },
        );
        k = k + 1;
    }
    assert forall|a: int, b: int| 0 <= a < b < out@.len() implies account_before(
        curs,
        tss,
        #[trigger] p[a],
        #[trigger] p[b],
    ) by {
        assert(p[a] == order@[a] as int && p[b] == order@[b] as int);
    }
    out
}

/// List all Steam accounts known to this machine — the active account first,
/// then most-recently-used — marking the one set to auto-login.
/// `login_users_vdf` is the text of `loginusers.vdf`, `None` when no Steam
/// installation was found; `auto_login_user` is Steam's `AutoLoginUser`.
/// Text that is no document, or whose root is no object, is an error; the
/// parser may fail besides (for want of stack). For the parsed users the
/// list is [`accounts_from_users`].
pub fn list_accounts(login_users_vdf: Option<&str>, auto_login_user: Option<&str>) -> (r: Result<
    Vec<Account>,
    String,
>)
    ensures
        login_users_vdf is None ==> (r matches Err(m) && m@ == "Steam installation not found"@),
        r matches Ok(v) ==> login_users_vdf matches Some(text) && kv_document(text@) matches Some(
            t,
        ) && root_is_obj(t) && listed(v@, t, current_key(auto_login_user)),
        login_users_vdf matches Some(text) && kv_document(text@) is None ==> r is Err,
        login_users_vdf matches Some(text) && kv_document(text@) matches Some(t) && !root_is_obj(t)
            ==> r is Err,
        login_users_vdf is Some ==> !(r matches Err(m) && m@ == "Steam installation not found"@),
        login_users_vdf is Some ==> (r matches Err(m) ==> parse_failure(m@) || m@
            == "loginusers.vdf root is not an object"@),
{
    let text = match login_users_vdf {
        Some(t) => t,
        None => {
            return Err(String::from_str("Steam installation not found"));
        },
    };
    let users = match parse_login_users(text) {
        Ok(u) => u,
        Err(m) => {
            proof {
                reveal_strlit("Steam installation not found");
                reveal_strlit("failed to parse loginusers.vdf: ");
                reveal_strlit("loginusers.vdf root is not an object");
                if parse_failure(m@) {
                    assert(m@[0] == "failed to parse loginusers.vdf: "@[0]);
                }
                if m@ =~= "Steam installation not found"@ {
                    assert(m@[0] == 'S');
                }
            }
            return Err(m);
        },
    };
    let r = accounts_from_users(&users, auto_login_user);
    proof {
        let t = kv_document(text@)->0;
        let ck = current_key(auto_login_user);
        let p = choose|p: Seq<int>|
            {
                &&& is_perm(p, users@.len() as int)
                &&& r@.len() == users@.len()
                &&& forall|k: int|
                    0 <= k < r@.len() ==> account_of(#[trigger] r@[k], users@[p[k]], ck)
                &&& forall|a: int, b: int|
                    0 <= a < b < r@.len() ==> account_before(
                        users@.map_values(|u: VdfUser| is_current_spec(u.account_name@, ck)),
                        users@.map_values(|u: VdfUser| u.timestamp),
                        #[trigger] p[a],
                        #[trigger] p[b],
                    )
            };
        assert(listed_by(r@, t, ck, users@, p));
    }
    Ok(r)
}

/// `v` presents the users `us` (read from the accounts of `t`) in the order
/// `p`.
pub open spec fn listed_by(
    v: Seq<Account>,
    t: Seq<KvTok>,
    current: Seq<char>,
    us: Seq<VdfUser>,
    p: Seq<int>,
) -> bool {
    &&& users_of_doc(us, t)
    &&& is_perm(p, us.len() as int)
    &&& v.len() == us.len()
    &&& forall|k: int| 0 <= k < v.len() ==> account_of(#[trigger] v[k], us[p[k]], current)
    &&& forall|a: int, b: int|
        0 <= a < b < v.len() ==> account_before(
            us.map_values(|u: VdfUser| is_current_spec(u.account_name@, current)),
            us.map_values(|u: VdfUser| u.timestamp),
            #[trigger] p[a],
            #[trigger] p[b],
        )
}

/// `v` is the account list of the document `t`: every account of the file
/// once, marked active against `current`, active first, then by descending
/// timestamp, ties in the file's order.
pub open spec fn listed(v: Seq<Account>, t: Seq<KvTok>, current: Seq<char>) -> bool {
    exists|us: Seq<VdfUser>, p: Seq<int>| listed_by(v, t, current, us, p)
}

} // verus!

verus! {

/// The active account, if the list has one, is listed first.
pub proof fn law_active_account_first(v: Seq<Account>, t: Seq<KvTok>, current: Seq<char>, k: int)
    requires
        listed(v, t, current),
        0 <= k < v.len(),
        v[k].is_current,
    ensures
        v[0].is_current,
{
    let (us, p) = choose|us: Seq<VdfUser>, p: Seq<int>| listed_by(v, t, current, us, p);
    let curs = us.map_values(|u: VdfUser| is_current_spec(u.account_name@, current));
    let tss = us.map_values(|u: VdfUser| u.timestamp);
    assert(account_of(v[0], us[p[0]], current));
    assert(account_of(v[k], us[p[k]], current));
    if k > 0 {
        assert(account_before(curs, tss, p[0], p[k]));
    }
}

/// With no auto-login user, no account is marked active.
pub proof fn law_no_auto_login_user_no_active_account(v: Seq<Account>, t: Seq<KvTok>, k: int)
    requires
        listed(v, t, current_key(None)),
        0 <= k < v.len(),
    ensures
        !v[k].is_current,
{
    let (us, p) = choose|us: Seq<VdfUser>, p: Seq<int>| listed_by(v, t, current_key(None), us, p);
    assert(account_of(v[k], us[p[k]], current_key(None)));
}

/// Among accounts that are both active or both not, the more recently used
/// one comes first.
pub proof fn law_most_recent_first(v: Seq<Account>, t: Seq<KvTok>, current: Seq<char>, a: int, b: int)
    requires
        listed(v, t, current),
        0 <= a < b < v.len(),
        v[a].is_current == v[b].is_current,
    ensures
        v[a].timestamp >= v[b].timestamp,
{
    let (us, p) = choose|us: Seq<VdfUser>, p: Seq<int>| listed_by(v, t, current, us, p);
    let curs = us.map_values(|u: VdfUser| is_current_spec(u.account_name@, current));
    let tss = us.map_values(|u: VdfUser| u.timestamp);
    assert(account_of(v[a], us[p[a]], current));
    assert(account_of(v[b], us[p[b]], current));
    assert(account_before(curs, tss, p[a], p[b]));
}

/// The list holds one account per account entry of the file, and every
/// entry's account is among them.
pub proof fn law_each_account_listed_once(v: Seq<Account>, t: Seq<KvTok>, current: Seq<char>, i: int)
    requires
        listed(v, t, current),
        0 <= i < object_entries(t, obj_entries(t, 0)).len(),
    ensures
        v.len() == object_entries(t, obj_entries(t, 0)).len(),
        exists|k: int| 0 <= k < v.len() && v[k].steam_id64@ == tok_key(t[object_entries(t, obj_entries(t, 0))[i]]),
{
    let (us, p) = choose|us: Seq<VdfUser>, p: Seq<int>| listed_by(v, t, current, us, p);
    let n = us.len() as int;
    lemma_perm_onto(p, n, i);
    let k = choose|k: int| 0 <= k < n && p[k] == i;
    assert(account_of(v[k], us[p[k]], current));
    assert(user_of(us[i], t, object_entries(t, obj_entries(t, 0))[i]));
}

/// A permutation of `0..n` reaches every index.
pub proof fn lemma_perm_onto(p: Seq<int>, n: int, i: int)
    requires
        is_perm(p, n),
        0 <= i < n,
    ensures
        exists|k: int| 0 <= k < n && p[k] == i,
    decreases n,
{
    // Counting: the n distinct values of p in 0..n cover 0..n.
    let s = p.to_set();
    let full = Set::new(|x: int| 0 <= x < n);
    assert(p.no_duplicates()) by {
        assert forall|a: int, b: int| 0 <= a < p.len() && 0 <= b < p.len() && a != b implies p[a]
            != p[b] by {
            if a < b {
            } else {
            }
        }
    }
    p.unique_seq_to_set();
    assert(s.subset_of(full));
    vstd::set_lib::lemma_int_range(0, n);
    assert(full =~= vstd::set_lib::set_int_range(0, n));
    if !s.contains(i) {
        vstd::set_lib::lemma_len_subset(s, full.remove(i));
        assert(s.subset_of(full.remove(i)));
        assert(full.remove(i).len() == n - 1);
    }
}

} // verus!

verus! {

/// An account is marked active exactly when the auto-login key is set and
/// equals its lowercased account name: so only accounts with that very name
/// are active.
pub proof fn law_active_means_the_auto_login_name(a: Account, u: VdfUser, current: Seq<char>)
    requires
        account_of(a, u, current),
    ensures
        a.is_current ==> current.len() > 0 && lowercase(a.account_name@) == current,
        current.len() > 0 && lowercase(a.account_name@) == current ==> a.is_current,
{
}

/// In a listed account list, the active accounts are exactly those whose
/// lowercased account name is the (non-empty) auto-login key.
pub proof fn law_listed_active_accounts(v: Seq<Account>, t: Seq<KvTok>, current: Seq<char>, k: int)
    requires
        listed(v, t, current),
        0 <= k < v.len(),
    ensures
        v[k].is_current <==> (current.len() > 0 && lowercase(v[k].account_name@) == current),
{
    let (us, p) = choose|us: Seq<VdfUser>, p: Seq<int>| listed_by(v, t, current, us, p);
    assert(account_of(v[k], us[p[k]], current));
}

} // verus!
