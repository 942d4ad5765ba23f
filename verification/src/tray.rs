//! The tray menu's model: labels, order, item ids and what a click on an
//! item asks for. Building the native menu is left to the caller.

use vstd::prelude::*;

use crate::accounts::{is_perm, Account};
use crate::credentials::{has_cached_login, CachedLogins};
use crate::i18n::Labels;
use crate::text::{
    chars_of, concat2, concat3, is_blank_text, lowercase, push_char, same_text, starts_with_seq,
    starts_with_text, to_lowercase, trim_spec,
};

verus! {

/// The name shown for an account: the account (login) name in `"account"`
/// mode; otherwise the Steam profile name, or the account name when the
/// profile name is blank.
pub open spec fn display_name_spec(name_mode: Seq<char>, a: Account) -> Seq<char> {
    if name_mode == "account"@ {
        a.account_name@
    } else if trim_spec(a.persona_name@).len() == 0 {
        a.account_name@
    } else {
        a.persona_name@
    }
}

/// Display name: Steam profile name or account name, per the name mode.
pub fn display_name(name_mode: &str, account: &Account) -> (r: String)
    ensures
        r@ == display_name_spec(name_mode@, *account),
{
    if same_text(name_mode, "account") {
        return account.account_name.clone();
    }
    if is_blank_text(account.persona_name.as_str()) {
        account.account_name.clone()
    } else {
        account.persona_name.clone()
    }
}

/// The characters a lowercased character sorts as: German umlauts fold to
/// their base letter, `ß` to `ss`.
pub open spec fn fold_char_spec(c: char) -> Seq<char> {
    if c == 'ä' {
        seq!['a']
    } else if c == 'ö' {
        seq!['o']
    } else if c == 'ü' {
        seq!['u']
    } else if c == 'ß' {
        seq!['s', 's']
    } else {
        seq![c]
    }
}

/// Every character of `s` folded.
pub open spec fn fold_seq(s: Seq<char>) -> Seq<char>
    decreases s.len(),
{
    if s.len() == 0 {
        Seq::empty()
    } else {
        fold_seq(s.drop_last()) + fold_char_spec(s.last())
    }
}

/// The sort key of a name: lowercased, umlauts folded.
pub open spec fn sort_key_spec(name: Seq<char>) -> Seq<char> {
    fold_seq(lowercase(name))
}

/// Case-insensitive sort key. German umlauts fold to their base letter so
/// "Ärger" sorts under A instead of after Z.
pub fn sort_key(name: &str) -> (r: String)
    ensures
        r@ == sort_key_spec(name@),
{
    let lower = to_lowercase(name);
    let c = chars_of(lower.as_str());
    let mut key = String::new();
    let mut i: usize = 0;
    while i < c.len()
        invariant
            c@ == lowercase(name@),
            i <= c.len(),
            key@ == fold_seq(c@.take(i as int)),
        decreases c.len() - i,
    {
        let ch = c[i];
        let ghost before = key@;
        if ch == 'ä' {
            push_char(&mut key, 'a');
        } else if ch == 'ö' {
            push_char(&mut key, 'o');
        } else if ch == 'ü' {
            push_char(&mut key, 'u');
        } else if ch == 'ß' {
            push_char(&mut key, 's');
            push_char(&mut key, 's');
        } else {
            push_char(&mut key, ch);
        }
        assert(c@.take(i + 1).drop_last() =~= c@.take(i as int));
        assert(key@ =~= before + fold_char_spec(ch));
        i = i + 1;
    }
    assert(c@.take(c.len() as int) =~= c@);
    key
}

/// `a` comes before `b` in code point order (the order of `String`s).
pub open spec fn lex_lt(a: Seq<char>, b: Seq<char>) -> bool
    decreases a.len(),
{
    if a.len() == 0 {
        b.len() > 0
    } else if b.len() == 0 {
        false
    } else if a[0] != b[0] {
        (a[0] as int) < (b[0] as int)
    } else {
        lex_lt(a.drop_first(), b.drop_first())
    }
}

pub proof fn lemma_lex_transitive(a: Seq<char>, b: Seq<char>, c: Seq<char>)
    requires
        lex_lt(a, b),
        lex_lt(b, c),
    ensures
        lex_lt(a, c),
    decreases a.len(),
{
    if a.len() > 0 && b.len() > 0 && c.len() > 0 && a[0] == b[0] && b[0] == c[0] {
        lemma_lex_transitive(a.drop_first(), b.drop_first(), c.drop_first());
    }
}

pub proof fn lemma_lex_total(a: Seq<char>, b: Seq<char>)
    requires
        a != b,
    ensures
        lex_lt(a, b) || lex_lt(b, a),
    decreases a.len(),
{
    if a.len() > 0 && b.len() > 0 && a[0] == b[0] {
        if a.drop_first() == b.drop_first() {
            assert(a =~= seq![a[0]] + a.drop_first());
            assert(b =~= seq![b[0]] + b.drop_first());
        }
        lemma_lex_total(a.drop_first(), b.drop_first());
    } else if a.len() == 0 && b.len() == 0 {
        assert(a =~= b);
    }
}

/// Whether `a` sorts before `b`.
fn lex_less(a: &Vec<char>, b: &Vec<char>) -> (r: bool)
    ensures
        r == lex_lt(a@, b@),
{
    let mut i: usize = 0;
    assert(a@.skip(0) =~= a@);
    assert(b@.skip(0) =~= b@);
    while i < a.len() && i < b.len() && a[i] == b[i]
        invariant
            i <= a.len(),
            i <= b.len(),
            lex_lt(a@, b@) == lex_lt(a@.skip(i as int), b@.skip(i as int)),
        decreases a.len() - i,
    {
        assert(a@.skip(i as int).drop_first() =~= a@.skip(i + 1));
        assert(b@.skip(i as int).drop_first() =~= b@.skip(i + 1));
        i = i + 1;
    }
    let ghost sa = a@.skip(i as int);
    let ghost sb = b@.skip(i as int);
    if i == a.len() {
        assert(sa.len() == 0);
        i < b.len()
    } else if i == b.len() {
        assert(sb.len() == 0);
        false
    } else {
        assert(sa[0] == a@[i as int] && sb[0] == b@[i as int]);
        let x = a[i];
        let y = b[i];
        x < y
    }
}

/// In the alphabetical order, entry `i` comes before entry `j`: its key
/// sorts first, or the keys are equal and it came first.
pub open spec fn name_before(keys: Seq<Seq<char>>, i: int, j: int) -> bool {
    lex_lt(keys[i], keys[j]) || (keys[i] == keys[j] && i < j)
}

proof fn lemma_name_before_trans(keys: Seq<Seq<char>>, a: int, b: int, c: int)
    requires
        name_before(keys, a, b),
        name_before(keys, b, c),
    ensures
        name_before(keys, a, c),
{
    if lex_lt(keys[a], keys[b]) && lex_lt(keys[b], keys[c]) {
        lemma_lex_transitive(keys[a], keys[b], keys[c]);
    }
}

fn insert_by_key(order: &mut Vec<usize>, i: usize, keys: &Vec<Vec<char>>)
    requires
        i < keys.len(),
        is_perm(old(order)@.map_values(|k: usize| k as int), i as int),
        forall|a: int, b: int|
            0 <= a < b < old(order)@.len() ==> name_before(
                keys@.map_values(|k: Vec<char>| k@),
                #[trigger] old(order)@[a] as int,
                #[trigger] old(order)@[b] as int,
            ),
    ensures
        is_perm(final(order)@.map_values(|k: usize| k as int), i + 1),
        forall|a: int, b: int|
            0 <= a < b < final(order)@.len() ==> name_before(
                keys@.map_values(|k: Vec<char>| k@),
                #[trigger] final(order)@[a] as int,
                #[trigger] final(order)@[b] as int,
            ),
{
    let ghost o = order@;
    let ghost kv = keys@.map_values(|k: Vec<char>| k@);
    proof {
        assert forall|k: int| 0 <= k < o.len() implies 0 <= #[trigger] o[k] < i by {
            assert(o.map_values(|k: usize| k as int)[k] == o[k] as int);
        }
    }
    let mut pos: usize = 0;
    while pos < order.len() && !lex_less(&keys[i], &keys[order[pos]])
        invariant
            order@ == o,
            kv == keys@.map_values(|k: Vec<char>| k@),
            i < keys.len(),
            o.len() == i,
            forall|k: int| 0 <= k < o.len() ==> 0 <= #[trigger] o[k] < i,
            pos <= o.len(),
            forall|k: int| 0 <= k < pos ==> name_before(kv, #[trigger] o[k] as int, i as int),
        decreases o.len() - pos,
    {
        proof {
            let j = o[pos as int] as int;
            assert(kv[j] == keys@[j]@ && kv[i as int] == keys@[i as int]@);
            if kv[j] != kv[i as int] {
                lemma_lex_total(kv[j], kv[i as int]);
            }
        }
        pos = pos + 1;
    }
    proof {
        if pos < o.len() {
            let j0 = o[pos as int] as int;
            assert(kv[j0] == keys@[j0]@ && kv[i as int] == keys@[i as int]@);
            assert forall|k: int| pos <= k < o.len() implies name_before(
                kv,
                i as int,
                #[trigger] o[k] as int,
            ) by {
                if k > pos {
                    assert(name_before(kv, j0, o[k] as int));
                    lemma_name_before_trans(kv, i as int, j0, o[k] as int);
                }
            }
        }
    }
    order.insert(pos, i);
    proof {
        let n = order@;
        assert(n == o.insert(pos as int, i));
        let nm = n.map_values(|k: usize| k as int);
        let om = o.map_values(|k: usize| k as int);
        assert forall|k: int| 0 <= k < i + 1 implies 0 <= #[trigger] nm[k] < i + 1 by {
            if k < pos {
                assert(nm[k] == om[k]);
            } else if k > pos {
                assert(nm[k] == om[k - 1]);
            }
        }
        assert forall|a: int, b: int| 0 <= a < b < i + 1 implies nm[a] != nm[b] by {
            if a < pos && b < pos {
                assert(nm[a] == om[a] && nm[b] == om[b]);
            } else if a < pos && b == pos {
                assert(nm[a] == om[a]);
            } else if a < pos && b > pos {
                assert(nm[a] == om[a] && nm[b] == om[b - 1]);
            } else if a == pos {
                assert(nm[b] == om[b - 1]);
            } else {
                assert(nm[a] == om[a - 1] && nm[b] == om[b - 1]);
            }
        }
        assert forall|a: int, b: int| 0 <= a < b < n.len() implies name_before(
            kv,
            #[trigger] n[a] as int,
            #[trigger] n[b] as int,
        ) by {
            if a < pos && b < pos {
                assert(n[a] == o[a] && n[b] == o[b]);
            } else if a < pos && b == pos {
                assert(n[a] == o[a]);
            } else if a < pos && b > pos {
                assert(n[a] == o[a] && n[b] == o[b - 1]);
                lemma_name_before_trans(kv, o[a] as int, i as int, o[b - 1] as int);
            } else if a == pos {
                assert(n[b] == o[b - 1]);
            } else {
                assert(n[a] == o[a - 1] && n[b] == o[b - 1]);
            }
        }
    }
}

/// The sort keys of the accounts' display names.
pub open spec fn name_keys(name_mode: Seq<char>, accounts: Seq<Account>) -> Seq<Seq<char>> {
    accounts.map_values(|a: Account| sort_key_spec(display_name_spec(name_mode, a)))
}

/// Order accounts for the menu, per the sort setting.
///
/// `"recent"` (any value but `"name"`) keeps the given order — active account
/// first, then most recently used. `"name"` sorts by the sort key of the
/// display name, stably, so the active account sorts in with the rest and
/// accounts sharing a name keep their given order.
pub fn sorted_accounts<'a>(sort_mode: &str, name_mode: &str, accounts: &'a [Account]) -> (r: Vec<
    &'a Account,
>)
    ensures
        sort_mode@ != "name"@ ==> r@.len() == accounts@.len() && forall|k: int|
            0 <= k < r@.len() ==> *#[trigger] r@[k] == accounts@[k],
        sort_mode@ == "name"@ ==> exists|p: Seq<int>|
            {
                &&& is_perm(p, accounts@.len() as int)
                &&& r@.len() == accounts@.len()
                &&& forall|k: int| 0 <= k < r@.len() ==> *#[trigger] r@[k] == accounts@[p[k]]
                &&& forall|a: int, b: int|
                    0 <= a < b < r@.len() ==> name_before(
                        name_keys(name_mode@, accounts@),
                        #[trigger] p[a],
                        #[trigger] p[b],
                    )
            },
{
    let mut keys: Vec<Vec<char>> = Vec::new();
    let mut i: usize = 0;
    while i < accounts.len()
        invariant
            i <= accounts.len(),
            keys@.len() == i,
            forall|k: int|
                0 <= k < i ==> #[trigger] keys@[k]@ == sort_key_spec(
                    display_name_spec(name_mode@, accounts@[k]),
                ),
        decreases accounts.len() - i,
    {
        let d = display_name(name_mode, &accounts[i]);
        let key = sort_key(d.as_str());
        keys.push(chars_of(key.as_str()));
        i = i + 1;
    }
    let ghost kv = keys@.map_values(|k: Vec<char>| k@);
    assert(kv =~= name_keys(name_mode@, accounts@));
    let mut order: Vec<usize> = Vec::new();
    if same_text(sort_mode, "name") {
        let mut i: usize = 0;
        while i < accounts.len()
            invariant
                keys@.len() == accounts.len(),
                i <= accounts.len(),
                is_perm(order@.map_values(|k: usize| k as int), i as int),
                forall|a: int, b: int|
                    0 <= a < b < order@.len() ==> name_before(
                        keys@.map_values(|k: Vec<char>| k@),
                        #[trigger] order@[a] as int,
                        #[trigger] order@[b] as int,
                    ),
            decreases accounts.len() - i,
        {
            insert_by_key(&mut order, i, &keys);
            i = i + 1;
        }
    } else {
        let mut i: usize = 0;
        while i < accounts.len()
            invariant
                i <= accounts.len(),
                order@.len() == i,
                forall|k: int| 0 <= k < i ==> #[trigger] order@[k] == k,
            decreases accounts.len() - i,
        {
            order.push(i);
            i = i + 1;
        }
    }
    let ghost p = order@.map_values(|k: usize| k as int);
    proof {
        if sort_mode@ != "name"@ {
            assert forall|k: int| 0 <= k < order@.len() implies 0 <= #[trigger] p[k] < order@.len() by {
                assert(p[k] == order@[k] as int);
            }
            assert(is_perm(p, accounts@.len() as int));
        }
    }
    let mut out: Vec<&'a Account> = Vec::new();
    let mut k: usize = 0;
    while k < order.len()
        invariant
            p == order@.map_values(|k: usize| k as int),
            is_perm(p, accounts@.len() as int),
            k <= order.len(),
            out@.len() == k,
            forall|j: int| 0 <= j < k ==> *#[trigger] out@[j] == accounts@[p[j]],
        decreases order.len() - k,
    {
        let idx = order[k];
        assert(p[k as int] == idx as int);
        out.push(&accounts[idx]);
        k = k + 1;
    }
    proof {
        if sort_mode@ == "name"@ {
            assert forall|a: int, b: int| 0 <= a < b < out@.len() implies name_before(
                name_keys(name_mode@, accounts@),
                #[trigger] p[a],
                #[trigger] p[b],
            ) by {
                assert(p[a] == order@[a] as int && p[b] == order@[b] as int);
            }
        } else {
            assert forall|j: int| 0 <= j < out@.len() implies *#[trigger] out@[j] == accounts@[j] by {
                assert(p[j] == order@[j] as int);
            }
        }
    }
    out
}

/// One account item of the tray menu.
#[derive(Debug)]
pub struct MenuEntry {
    /// The menu id, `switch:<SteamID64>`.
    pub id: String,
    pub label: String,
    /// Only other accounts can be clicked.
    pub enabled: bool,
}

/// The separator between a name and its marker in the menu.
pub open spec fn marker_sep() -> Seq<char> {
    seq![' ', ' ', '•', ' ', ' ']
}

/// The label of an account's menu item: its display name, marked as active
/// for the active account, or as needing a login for an account Steam has
/// no saved login for.
pub open spec fn entry_label(
    name_mode: Seq<char>,
    a: Account,
    has_cached_login: bool,
    active: Seq<char>,
    login_required: Seq<char>,
) -> Seq<char> {
    if a.is_current {
        display_name_spec(name_mode, a) + marker_sep() + active
    } else if !has_cached_login {
        display_name_spec(name_mode, a) + marker_sep() + login_required
    } else {
        display_name_spec(name_mode, a)
    }
}

/// The menu item for `account`.
pub fn account_entry(
    name_mode: &str,
    account: &Account,
    has_cached_login: bool,
    active_label: &str,
    login_required_label: &str,
) -> (r: MenuEntry)
    ensures
        r.id@ == "switch:"@ + account.steam_id64@,
        r.label@ == entry_label(
            name_mode@,
            *account,
            has_cached_login,
            active_label@,
            login_required_label@,
        ),
        r.enabled == !account.is_current,
{
    let name = display_name(name_mode, account);
    proof {
        reveal_strlit("  •  ");
    }
    let label = if account.is_current {
        concat3(name.as_str(), "  •  ", active_label)
    } else if !has_cached_login {
        concat3(name.as_str(), "  •  ", login_required_label)
    } else {
        name
    };
    MenuEntry {
        id: concat2("switch:", account.steam_id64.as_str()),
        label,
        enabled: !account.is_current,
    }
}

/// What a click on a menu item asks for.
#[derive(Debug)]
pub enum MenuCommand {
    /// Switch to the account with this SteamID64.
    Switch(String),
    SetLanguage(String),
    SetNameMode(String),
    SetSortMode(String),
    ToggleAutostart,
    Quit,
    /// An id that means nothing (such as the disabled placeholder).
    Ignore,
}

/// The command behind the menu item `id`.
pub open spec fn menu_command_spec(id: Seq<char>) -> MenuCommandView {
    if starts_with_seq(id, "switch:"@) {
        MenuCommandView::Switch(id.skip(7))
    } else if id == "lang:en"@ {
        MenuCommandView::SetLanguage("en"@)
    } else if id == "lang:de"@ {
        MenuCommandView::SetLanguage("de"@)
    } else if id == "name:persona"@ {
        MenuCommandView::SetNameMode("persona"@)
    } else if id == "name:account"@ {
        MenuCommandView::SetNameMode("account"@)
    } else if id == "sort:recent"@ {
        MenuCommandView::SetSortMode("recent"@)
    } else if id == "sort:name"@ {
        MenuCommandView::SetSortMode("name"@)
    } else if id == "autostart"@ {
        MenuCommandView::ToggleAutostart
    } else if id == "quit"@ {
        MenuCommandView::Quit
    } else {
        MenuCommandView::Ignore
    }
}

/// The mathematical form of a [`MenuCommand`].
pub enum MenuCommandView {
    Switch(Seq<char>),
    SetLanguage(Seq<char>),
    SetNameMode(Seq<char>),
    SetSortMode(Seq<char>),
    ToggleAutostart,
    Quit,
    Ignore,
}

impl View for MenuCommand {
    type V = MenuCommandView;

    open spec fn view(&self) -> MenuCommandView {
        match self {
            MenuCommand::Switch(s) => MenuCommandView::Switch(s@),
            MenuCommand::SetLanguage(s) => MenuCommandView::SetLanguage(s@),
            MenuCommand::SetNameMode(s) => MenuCommandView::SetNameMode(s@),
            MenuCommand::SetSortMode(s) => MenuCommandView::SetSortMode(s@),
            MenuCommand::ToggleAutostart => MenuCommandView::ToggleAutostart,
            MenuCommand::Quit => MenuCommandView::Quit,
            MenuCommand::Ignore => MenuCommandView::Ignore,
        }
    }
}

/// Decode the id of a clicked menu item.
pub fn menu_command(id: &str) -> (r: MenuCommand)
    ensures
        r@ == menu_command_spec(id@),
{
    proof {
        reveal_strlit("switch:");
    }
    if starts_with_text(id, "switch:") {
        let c = chars_of(id);
        let mut rest = String::new();
        let mut i: usize = 7;
        while i < c.len()
            invariant
                c@ == id@,
                7 <= i <= c.len(),
                rest@ == id@.subrange(7, i as int),
            decreases c.len() - i,
        {
            push_char(&mut rest, c[i]);
            assert(id@.subrange(7, i + 1) =~= id@.subrange(7, i as int).push(c@[i as int]));
            i = i + 1;
        }
        assert(id@.skip(7) =~= id@.subrange(7, c.len() as int));
        return MenuCommand::Switch(rest);
    }
    if same_text(id, "lang:en") {
        MenuCommand::SetLanguage(String::from_str("en"))
    } else if same_text(id, "lang:de") {
        MenuCommand::SetLanguage(String::from_str("de"))
    } else if same_text(id, "name:persona") {
        MenuCommand::SetNameMode(String::from_str("persona"))
    } else if same_text(id, "name:account") {
        MenuCommand::SetNameMode(String::from_str("account"))
    } else if same_text(id, "sort:recent") {
        MenuCommand::SetSortMode(String::from_str("recent"))
    } else if same_text(id, "sort:name") {
        MenuCommand::SetSortMode(String::from_str("name"))
    } else if same_text(id, "autostart") {
        MenuCommand::ToggleAutostart
    } else if same_text(id, "quit") {
        MenuCommand::Quit
    } else {
        MenuCommand::Ignore
    }
}

/// The lowercased active-account key, used to detect switches made outside
/// the app; empty when there is no auto-login user.
pub fn current_account_key(auto_login_user: Option<&str>) -> (r: String)
    ensures
        r@ == match auto_login_user {
            Some(u) => lowercase(u@),
            None => Seq::empty(),
        },
{
    match auto_login_user {
        Some(u) => to_lowercase(u),
        None => String::new(),
    }
}

/// Whether the active account changed between two polls of the
/// auto-login key, so the tray must be refreshed.
pub fn account_switched(last_key: &str, now_key: &str) -> (r: bool)
    ensures
        r == (last_key@ != now_key@),
{
    !same_text(last_key, now_key)
}

/// The body of the "no saved login" confirmation: which account is affected
/// — `Persona (account)`, or the account name alone when the profile name is
/// blank — then, after a blank line, the localized explanation `prompt`.
pub fn login_prompt(account: &Account, prompt: &str) -> (r: String)
    ensures
        r@ == (if trim_spec(account.persona_name@).len() == 0 {
            account.account_name@
        } else {
            account.persona_name@ + " ("@ + account.account_name@ + ")"@
        }) + "\n\n"@ + prompt@,
{
    let name = if is_blank_text(account.persona_name.as_str()) {
        account.account_name.clone()
    } else {
        concat2(
            concat3(account.persona_name.as_str(), " (", account.account_name.as_str()).as_str(),
            ")",
        )
    };
    concat3(name.as_str(), "\n\n", prompt)
}

/// The index of the account with this SteamID64 (the first, if several).
pub fn find_account(accounts: &[Account], steam_id64: &str) -> (r: Option<usize>)
    ensures
        match r {
            Some(i) => i < accounts@.len() && accounts@[i as int].steam_id64@ == steam_id64@
                && forall|j: int| 0 <= j < i ==> accounts@[j].steam_id64@ != steam_id64@,
            None => forall|j: int|
                0 <= j < accounts@.len() ==> accounts@[j].steam_id64@ != steam_id64@,
        },
{
    let mut i: usize = 0;
    while i < accounts.len()
        invariant
            i <= accounts.len(),
            forall|j: int| 0 <= j < i ==> accounts@[j].steam_id64@ != steam_id64@,
        decreases accounts.len() - i,
    {
        if same_text(accounts[i].steam_id64.as_str(), steam_id64) {
            return Some(i);
        }
        i = i + 1;
    }
    None
}

/// The account whose avatar and name the tray icon shows: the active one,
/// else the first one; `None` when there are no accounts.
pub fn icon_account(accounts: &[Account]) -> (r: Option<usize>)
    ensures
        (exists|j: int| 0 <= j < accounts@.len() && accounts@[j].is_current) ==> (r matches Some(
            i,
        ) && i < accounts@.len() && accounts@[i as int].is_current && forall|j: int|
            0 <= j < i ==> !accounts@[j].is_current),
        !(exists|j: int| 0 <= j < accounts@.len() && accounts@[j].is_current) ==> r == (if accounts@.len()
            > 0 {
            Some(0usize)
        } else {
            None
        }),
{
    let mut i: usize = 0;
    while i < accounts.len()
        invariant
            i <= accounts.len(),
            forall|j: int| 0 <= j < i ==> !accounts@[j].is_current,
        decreases accounts.len() - i,
    {
        if accounts[i].is_current {
            return Some(i);
        }
        i = i + 1;
    }
    if accounts.len() > 0 {
        Some(0)
    } else {
        None
    }
}

} // verus!

verus! {

/// The id of an account's menu item decodes back to a switch to that
/// account.
pub proof fn law_menu_id_roundtrip(steam_id64: Seq<char>)
    ensures
        menu_command_spec("switch:"@ + steam_id64) == MenuCommandView::Switch(steam_id64),
{
    reveal_strlit("switch:");
    let id = "switch:"@ + steam_id64;
    assert(id.subrange(0, 7) =~= "switch:"@);
    assert(id.skip(7) =~= steam_id64);
}

} // verus!

verus! {

/// The kind of a menu item. Items between `SubmenuStart` and its
/// `SubmenuEnd` belong to that submenu.
#[derive(Debug, Clone, Copy, PartialEq, Eq, Structural)]
pub enum MenuItemKind {
    /// A plain clickable item.
    Item,
    /// An item with a check mark.
    Check,
    Separator,
    /// Opens a submenu titled with the label.
    SubmenuStart,
    SubmenuEnd,
}

/// One item of the tray menu, in order.
#[derive(Debug)]
pub struct MenuItemModel {
    pub kind: MenuItemKind,
    /// The id a click reports (empty for separators and submenu bounds).
    pub id: String,
    pub label: String,
    pub enabled: bool,
    /// For `Check` items: whether the mark is set.
    pub checked: bool,
    /// The SteamID64 whose avatar the item shows, if any.
    pub avatar: Option<String>,
}

/// The mathematical form of a [`MenuItemModel`].
pub struct MenuItemView {
    pub kind: MenuItemKind,
    pub id: Seq<char>,
    pub label: Seq<char>,
    pub enabled: bool,
    pub checked: bool,
    pub avatar: Option<Seq<char>>,
}

impl View for MenuItemModel {
    type V = MenuItemView;

    open spec fn view(&self) -> MenuItemView {
        MenuItemView {
            kind: self.kind,
            id: self.id@,
            label: self.label@,
            enabled: self.enabled,
            checked: self.checked,
            avatar: match self.avatar {
                Some(a) => Some(a@),
                None => None,
            },
        }
    }
}

pub open spec fn menu_views(v: Seq<MenuItemModel>) -> Seq<MenuItemView> {
    v.map_values(|m: MenuItemModel| m@)
}

/// An item without an avatar.
pub open spec fn item_view(
    kind: MenuItemKind,
    id: Seq<char>,
    label: Seq<char>,
    enabled: bool,
    checked: bool,
) -> MenuItemView {
    MenuItemView { kind, id, label, enabled, checked, avatar: None }
}

pub open spec fn separator_view() -> MenuItemView {
    item_view(MenuItemKind::Separator, Seq::empty(), Seq::empty(), true, false)
}

pub open spec fn submenu_view(label: Seq<char>) -> MenuItemView {
    item_view(MenuItemKind::SubmenuStart, Seq::empty(), label, true, false)
}

pub open spec fn submenu_end_view() -> MenuItemView {
    item_view(MenuItemKind::SubmenuEnd, Seq::empty(), Seq::empty(), true, false)
}

pub open spec fn check_view(id: Seq<char>, label: Seq<char>, checked: bool) -> MenuItemView {
    item_view(MenuItemKind::Check, id, label, true, checked)
}

/// Whether Steam can log in to `a` without a password, by the saved logins
/// (unknown saved logins count as yes).
pub open spec fn login_known(logins: Option<(Set<Seq<char>>, Set<Seq<char>>)>, a: Account) -> bool {
    match logins {
        None => true,
        Some(c) => c.1.contains(a.steam_id64@) || c.0.contains(lowercase(a.account_name@)),
    }
}

/// The menu item of an account.
pub open spec fn account_view(
    name_mode: Seq<char>,
    a: Account,
    logins: Option<(Set<Seq<char>>, Set<Seq<char>>)>,
    l: Labels,
) -> MenuItemView {
    MenuItemView {
        kind: MenuItemKind::Item,
        id: "switch:"@ + a.steam_id64@,
        label: entry_label(name_mode, a, login_known(logins, a), l.active@, l.login_required@),
        enabled: !a.is_current,
        checked: false,
        avatar: Some(a.steam_id64@),
    }
}

/// The items after the accounts: a separator; the Settings submenu with
/// its Language, Display name and Sort order submenus (each option checked
/// when it is the current one) and the autostart toggle; a separator; Quit.
pub open spec fn settings_views(
    l: Labels,
    lang: Seq<char>,
    name_mode: Seq<char>,
    sort_mode: Seq<char>,
    autostart_on: bool,
) -> Seq<MenuItemView> {
    seq![
        separator_view(),
        submenu_view(l.settings@),
        submenu_view(l.language@),
        check_view("lang:en"@, "English"@, lang == "en"@),
        check_view("lang:de"@, "Deutsch"@, lang == "de"@),
        submenu_end_view(),
        submenu_view(l.display_name@),
        check_view("name:persona"@, l.name_persona@, name_mode == "persona"@),
        check_view("name:account"@, l.name_account@, name_mode == "account"@),
        submenu_end_view(),
        submenu_view(l.sort_order@),
        check_view("sort:recent"@, l.sort_recent@, sort_mode == "recent"@),
        check_view("sort:name"@, l.sort_name@, sort_mode == "name"@),
        submenu_end_view(),
        check_view("autostart"@, l.autostart@, autostart_on),
        submenu_end_view(),
        separator_view(),
        item_view(MenuItemKind::Item, "quit"@, l.quit@, true, false),
    ]
}

/// `order` is `accounts` in the menu's order for `sort_mode` (see
/// [`sorted_accounts`]).
pub open spec fn menu_order(
    sort_mode: Seq<char>,
    name_mode: Seq<char>,
    accounts: Seq<Account>,
    order: Seq<Account>,
) -> bool {
    if sort_mode != "name"@ {
        order == accounts
    } else {
        exists|p: Seq<int>|
            {
                &&& is_perm(p, accounts.len() as int)
                &&& order.len() == accounts.len()
                &&& forall|k: int| 0 <= k < order.len() ==> #[trigger] order[k] == accounts[p[k]]
                &&& forall|a: int, b: int|
                    0 <= a < b < order.len() ==> name_before(
                        name_keys(name_mode, accounts),
                        #[trigger] p[a],
                        #[trigger] p[b],
                    )
            }
    }
}

fn menu_item(kind: MenuItemKind, id: &str, label: &str, enabled: bool, checked: bool) -> (r:
    MenuItemModel)
    ensures
        r@ == item_view(kind, id@, label@, enabled, checked),
{
    MenuItemModel {
        kind,
        id: String::from_str(id),
        label: String::from_str(label),
        enabled,
        checked,
        avatar: None,
    }
}

/// The whole tray menu, in order: the accounts in menu order (or, with no
/// accounts, one disabled `noop` item saying so), then the settings and
/// Quit. `l` are the texts of `lang`; `logins` are the saved logins, `None`
/// when unknown.
pub fn menu_model(
    accounts: &[Account],
    logins: Option<&CachedLogins>,
    l: &Labels,
    lang: &str,
    name_mode: &str,
    sort_mode: &str,
    autostart_on: bool,
) -> (r: Vec<MenuItemModel>)
    ensures
        accounts@.len() == 0 ==> menu_views(r@) == seq![
            item_view(MenuItemKind::Item, "noop"@, l.no_accounts@, false, false),
        ] + settings_views(*l, lang@, name_mode@, sort_mode@, autostart_on),
        accounts@.len() > 0 ==> exists|order: Seq<Account>|
            menu_order(sort_mode@, name_mode@, accounts@, order) && menu_views(r@) == order.map_values(
                |a: Account|
                    account_view(
                        name_mode@,
                        a,
                        match logins {
                            Some(c) => Some(c@),
                            None => None,
                        },
                        *l,
                    ),
            ) + settings_views(*l, lang@, name_mode@, sort_mode@, autostart_on),
{
    let ghost lv = match logins {
        Some(c) => Some(c@),
        None => None,
    };
    let mut out: Vec<MenuItemModel> = Vec::new();
    let ghost mut order: Seq<Account> = Seq::empty();
    if accounts.len() == 0 {
        proof {
            reveal_strlit("noop");
        }
        out.push(menu_item(MenuItemKind::Item, "noop", l.no_accounts, false, false));
    } else {
        let ordered = sorted_accounts(sort_mode, name_mode, accounts);
        proof {
            order = ordered@.map_values(|a: &Account| *a);
            if sort_mode@ != "name"@ {
                assert(order =~= accounts@);
            } else {
                let p = choose|p: Seq<int>|
                    {
                        &&& is_perm(p, accounts@.len() as int)
                        &&& ordered@.len() == accounts@.len()
                        &&& forall|k: int|
                            0 <= k < ordered@.len() ==> *#[trigger] ordered@[k] == accounts@[p[k]]
                        &&& forall|a: int, b: int|
                            0 <= a < b < ordered@.len() ==> name_before(
                                name_keys(name_mode@, accounts@),
                                #[trigger] p[a],
                                #[trigger] p[b],
                            )
                    };
                assert(forall|k: int| 0 <= k < order.len() ==> #[trigger] order[k] == accounts@[p[k]]);
            }
            assert(menu_order(sort_mode@, name_mode@, accounts@, order));
        }
        let mut k: usize = 0;
        while k < ordered.len()
            invariant
                k <= ordered.len(),
                order == ordered@.map_values(|a: &Account| *a),
                lv == match logins {
                    Some(c) => Some(c@),
                    None => None::<(Set<Seq<char>>, Set<Seq<char>>)>,
                },
                menu_views(out@) == order.take(k as int).map_values(
                    |a: Account| account_view(name_mode@, a, lv, *l),
                ),
            decreases ordered.len() - k,
        {
            let a = ordered[k];
            let cached = has_cached_login(logins, a.account_name.as_str(), a.steam_id64.as_str());
            let e = account_entry(name_mode, a, cached, l.active, l.login_required);
            let ghost before = menu_views(out@);
            out.push(
                MenuItemModel {
                    kind: MenuItemKind::Item,
                    id: e.id,
                    label: e.label,
                    enabled: e.enabled,
                    checked: false,
                    avatar: Some(a.steam_id64.clone()),
                },
            );
            proof {
                assert(order[k as int] == *a);
                assert(menu_views(out@) =~= before.push(account_view(name_mode@, *a, lv, *l)));
                assert(order.take(k + 1) =~= order.take(k as int).push(*a));
                assert(order.take(k + 1).map_values(|a: Account| account_view(name_mode@, a, lv, *l))
                    =~= order.take(k as int).map_values(
                    |a: Account| account_view(name_mode@, a, lv, *l),
                ).push(account_view(name_mode@, *a, lv, *l)));
            }
            k = k + 1;
        }
        proof {
            assert(order.take(k as int) =~= order);
            assert(menu_views(out@) == order.map_values(
                |a: Account| account_view(name_mode@, a, lv, *l),
            ));
        }
    }
    let ghost head = menu_views(out@);
    proof {
        reveal_strlit("lang:en");
        reveal_strlit("lang:de");
        reveal_strlit("English");
        reveal_strlit("Deutsch");
        reveal_strlit("name:persona");
        reveal_strlit("name:account");
        reveal_strlit("sort:recent");
        reveal_strlit("sort:name");
        reveal_strlit("autostart");
        reveal_strlit("quit");
        reveal_strlit("");
        reveal_strlit("en");
        reveal_strlit("de");
        reveal_strlit("persona");
        reveal_strlit("account");
        reveal_strlit("recent");
        reveal_strlit("name");
    }
    out.push(menu_item(MenuItemKind::Separator, "", "", true, false));
    out.push(menu_item(MenuItemKind::SubmenuStart, "", l.settings, true, false));
    out.push(menu_item(MenuItemKind::SubmenuStart, "", l.language, true, false));
    out.push(menu_item(MenuItemKind::Check, "lang:en", "English", true, same_text(lang, "en")));
    out.push(menu_item(MenuItemKind::Check, "lang:de", "Deutsch", true, same_text(lang, "de")));
    out.push(menu_item(MenuItemKind::SubmenuEnd, "", "", true, false));
    out.push(menu_item(MenuItemKind::SubmenuStart, "", l.display_name, true, false));
    out.push(
        menu_item(
            MenuItemKind::Check,
            "name:persona",
            l.name_persona,
            true,
            same_text(name_mode, "persona"),
        ),
    );
    out.push(
        menu_item(
            MenuItemKind::Check,
            "name:account",
            l.name_account,
            true,
            same_text(name_mode, "account"),
        ),
    );
    out.push(menu_item(MenuItemKind::SubmenuEnd, "", "", true, false));
    out.push(menu_item(MenuItemKind::SubmenuStart, "", l.sort_order, true, false));
    out.push(
        menu_item(
            MenuItemKind::Check,
            "sort:recent",
            l.sort_recent,
            true,
            same_text(sort_mode, "recent"),
        ),
    );
    out.push(
        menu_item(MenuItemKind::Check, "sort:name", l.sort_name, true, same_text(sort_mode, "name")),
    );
    out.push(menu_item(MenuItemKind::SubmenuEnd, "", "", true, false));
    out.push(menu_item(MenuItemKind::Check, "autostart", l.autostart, true, autostart_on));
    out.push(menu_item(MenuItemKind::SubmenuEnd, "", "", true, false));
    out.push(menu_item(MenuItemKind::Separator, "", "", true, false));
    out.push(menu_item(MenuItemKind::Item, "quit", l.quit, true, false));
    proof {
        assert(""@ =~= Seq::<char>::empty());
        assert(menu_views(out@) =~= head + settings_views(*l, lang@, name_mode@, sort_mode@, autostart_on));
    }
    out
}

} // verus!

verus! {

/// Each settings item carries its own option: the item with a given id has
/// that option's label, and its check mark is set exactly when that option
/// is the current one; Quit is a plain enabled item.
pub proof fn law_settings_items_carry_their_own_labels(
    l: Labels,
    lang: Seq<char>,
    name_mode: Seq<char>,
    sort_mode: Seq<char>,
    autostart_on: bool,
    i: int,
)
    requires
        0 <= i < settings_views(l, lang, name_mode, sort_mode, autostart_on).len(),
    ensures
        ({
            let it = settings_views(l, lang, name_mode, sort_mode, autostart_on)[i];
            &&& it.id == "lang:en"@ ==> it.kind == MenuItemKind::Check && it.label == "English"@
                && it.checked == (lang == "en"@)
            &&& it.id == "lang:de"@ ==> it.kind == MenuItemKind::Check && it.label == "Deutsch"@
                && it.checked == (lang == "de"@)
            &&& it.id == "name:persona"@ ==> it.kind == MenuItemKind::Check && it.label
                == l.name_persona@ && it.checked == (name_mode == "persona"@)
            &&& it.id == "name:account"@ ==> it.kind == MenuItemKind::Check && it.label
                == l.name_account@ && it.checked == (name_mode == "account"@)
            &&& it.id == "sort:recent"@ ==> it.kind == MenuItemKind::Check && it.label
                == l.sort_recent@ && it.checked == (sort_mode == "recent"@)
            &&& it.id == "sort:name"@ ==> it.kind == MenuItemKind::Check && it.label == l.sort_name@
                && it.checked == (sort_mode == "name"@)
            &&& it.id == "autostart"@ ==> it.kind == MenuItemKind::Check && it.label
                == l.autostart@ && it.checked == autostart_on
            &&& it.id == "quit"@ ==> it.kind == MenuItemKind::Item && it.label == l.quit@
                && it.enabled
        }),
{
    reveal_strlit("lang:en");
    reveal_strlit("lang:de");
    reveal_strlit("name:persona");
    reveal_strlit("name:account");
    reveal_strlit("sort:recent");
    reveal_strlit("sort:name");
    reveal_strlit("autostart");
    reveal_strlit("quit");
    assert("lang:en"@[5] != "lang:de"@[5]);
    assert("lang:en"@ != "lang:de"@);
    assert("name:persona"@[5] != "name:account"@[5]);
    assert("name:persona"@ != "name:account"@);
    assert("sort:name"@[0] != "autostart"@[0]);
    assert("sort:name"@ != "autostart"@);
    let s = settings_views(l, lang, name_mode, sort_mode, autostart_on);
    let it = s[i];
    assert(it.id.len() == 0 || it.id == "lang:en"@ || it.id == "lang:de"@ || it.id
        == "name:persona"@ || it.id == "name:account"@ || it.id == "sort:recent"@ || it.id
        == "sort:name"@ || it.id == "autostart"@ || it.id == "quit"@);
}

} // verus!

verus! {

/// The fold changes only `ä`, `ö`, `ü` and `ß`: every other character
/// stands for itself.
pub proof fn law_fold_keeps_other_characters(c: char)
    requires
        c != 'ä' && c != 'ö' && c != 'ü' && c != 'ß',
    ensures
        fold_char_spec(c) == seq![c],
{
}

/// A text without `ä`, `ö`, `ü` and `ß` folds to itself.
pub proof fn law_fold_is_identity_without_umlauts(s: Seq<char>)
    requires
        forall|i: int|
            0 <= i < s.len() ==> #[trigger] s[i] != 'ä' && s[i] != 'ö' && s[i] != 'ü' && s[i]
                != 'ß',
    ensures
        fold_seq(s) == s,
    decreases s.len(),
{
    if s.len() > 0 {
        law_fold_is_identity_without_umlauts(s.drop_last());
        assert(s.drop_last() + seq![s.last()] =~= s);
    }
}

/// The sort key of a name whose lowercase has no `ä`, `ö`, `ü` or `ß` is
/// that lowercase itself.
pub proof fn law_sort_key_is_the_lowercase_without_umlauts(name: Seq<char>)
    requires
        forall|i: int|
            0 <= i < lowercase(name).len() ==> #[trigger] lowercase(name)[i] != 'ä'
                && lowercase(name)[i] != 'ö' && lowercase(name)[i] != 'ü' && lowercase(name)[i]
                != 'ß',
    ensures
        sort_key_spec(name) == lowercase(name),
{
    law_fold_is_identity_without_umlauts(lowercase(name));
}

/// Umlauts fold to their base letter and `ß` to `ss`, after lowercasing.
pub proof fn law_umlauts_fold_to_their_base_letter()
    ensures
        fold_char_spec('ä') == seq!['a'],
        fold_char_spec('ö') == seq!['o'],
        fold_char_spec('ü') == seq!['u'],
        fold_char_spec('ß') == seq!['s', 's'],
{
}

} // verus!
