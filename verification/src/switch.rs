//! Switching the active Steam account: the decisions. The caller performs
//! the steps (process inspection, killing, registry writes, relaunch).
//!
//! The mechanism (no admin rights required):
//!   1. Close the running foreground game (the one Steam reports via
//!      `RunningAppID`), then hard-kill Steam (`steam.exe` +
//!      `steamwebhelper.exe`).
//!   2. Point `AutoLoginUser` at the target account.
//!   3. Relaunch via `steam.exe -login <account>`, which uses Steam's own
//!      cached login token.
//!
//! Only the foreground game is touched: only processes inside its install
//! directory are killed, and that directory comes from the game's manifest
//! only if its `installdir` is a plain relative folder name.

use vstd::prelude::*;

use crate::kv::{
    kv_document, obj_entries, obj_entries_exec, parse_kv, root_is_obj, tok_key, toks_view, KvTok,
    KvToken,
};
use crate::path::{
    is_safe_relative_dir, join_path, joinable_base, joined, lemma_join_again, relative_part,
    safe_relative_spec,
};
use crate::text::{
    chars_of, concat2, eq_ignore_ascii_case, eq_ignore_ascii_case_spec, lowercase, starts_with_seq,
    to_lowercase, trim_spec,
};
use crate::vdf::is_open;

verus! {

/// The first entry among `es` whose key is `installdir` (ASCII case ignored),
/// whose value is a string, and whose string is a safe relative folder.
pub open spec fn safe_installdir(t: Seq<KvTok>, es: Seq<int>) -> Option<Seq<char>>
    decreases es.len(),
{
    if es.len() == 0 {
        None
    } else {
        let e = es[0];
        if eq_ignore_ascii_case_spec(tok_key(t[e]), "installdir"@) && t[e] is Str
            && safe_relative_spec(trim_spec(t[e]->Str_1)) {
            Some(t[e]->Str_1)
        } else {
            safe_installdir(t, es.drop_first())
        }
    }
}

/// What `installdir_from_manifest` returns for the parsed manifest `t`.
pub open spec fn installdir_spec(t: Seq<KvTok>) -> Option<Seq<char>> {
    if root_is_obj(t) {
        safe_installdir(t, obj_entries(t, 0))
    } else {
        None
    }
}

/// Read the `installdir` value out of a parsed `appmanifest` `AppState`
/// object (its token stream).
///
/// The value is only returned if it is a safe, plain relative folder name. An
/// empty, absolute, or traversal (`..`) `installdir` is rejected: it is joined
/// onto the trusted library path to form the directory whose processes are
/// terminated, so a crafted value must never escape `steamapps\common`.
pub fn installdir_from_manifest(appstate: &Vec<KvToken>) -> (r: Option<String>)
    ensures
        match (r, installdir_spec(toks_view(appstate@))) {
            (Some(s), Some(x)) => s@ == x && safe_relative_spec(trim_spec(s@)),
            (None, None) => true,
            _ => false,
        },
{
    let t = appstate;
    let ghost tv = toks_view(t@);
    if t.len() == 0 || !is_open(&t[0]) {
        return None;
    }
    let es = obj_entries_exec(t, 0);
    let ghost esv = es@.map_values(|i: usize| i as int);
    let mut i: usize = 0;
    assert(esv.skip(0) =~= esv);
    while i < es.len()
        invariant
            t == appstate,
            tv == toks_view(t@),
            esv == es@.map_values(|i: usize| i as int),
            esv == obj_entries(tv, 0),
            forall|j: int| 0 <= j < es@.len() ==> 0 < #[trigger] es@[j] < t.len(),
            i <= es.len(),
            root_is_obj(tv),
            installdir_spec(tv) == safe_installdir(tv, esv.skip(i as int)),
        decreases es.len() - i,
    {
        let e = es[i];
        assert(esv.skip(i as int)[0] == e as int);
        assert(esv.skip(i as int).drop_first() =~= esv.skip(i + 1));
        assert(tv[e as int] == t@[e as int]@);
        match &t[e] {
            KvToken::Str(k, s) => {
                assert(tv[e as int] == KvTok::Str(k@, s@));
                if eq_ignore_ascii_case(k.as_str(), "installdir") && is_safe_relative_dir(
                    s.as_str(),
                ) {
                    return Some(s.clone());
                }
            },
            _ => {},
        }
        i = i + 1;
    }
    None
}

/// The `installdir` of an `appmanifest_<id>.acf` text, `None` when the text
/// does not parse or holds no safe `installdir`. The parser may also fail
/// (for want of stack), which gives `None` too.
pub fn manifest_installdir(content: &str) -> (r: Option<String>)
    ensures
        r matches Some(s) ==> kv_document(content@) matches Some(t) && installdir_spec(t) == Some(
            s@,
        ),
        kv_document(content@) is None ==> r is None,
        kv_document(content@) matches Some(t) && installdir_spec(t) is None ==> r is None,
{
    match parse_kv(content) {
        Ok(t) => installdir_from_manifest(&t),
        Err(_) => None,
    }
}

/// The `path` strings of the entries `fs`: keys `path` (ASCII case ignored)
/// with a string value.
pub open spec fn path_values(t: Seq<KvTok>, fs: Seq<int>) -> Seq<Seq<char>>
    decreases fs.len(),
{
    if fs.len() == 0 {
        Seq::empty()
    } else {
        let rest = path_values(t, fs.drop_last());
        let f = fs.last();
        if eq_ignore_ascii_case_spec(tok_key(t[f]), "path"@) && t[f] is Str {
            rest.push(t[f]->Str_1)
        } else {
            rest
        }
    }
}

/// The library paths under the object entries `es` of the root.
pub open spec fn library_paths(t: Seq<KvTok>, es: Seq<int>) -> Seq<Seq<char>>
    decreases es.len(),
{
    if es.len() == 0 {
        Seq::empty()
    } else {
        let rest = library_paths(t, es.drop_last());
        let e = es.last();
        if 0 <= e < t.len() && t[e] is Open {
            rest + path_values(t, obj_entries(t, e))
        } else {
            rest
        }
    }
}

/// The extra library folders that the parsed `libraryfolders.vdf` `t`
/// lists: the `path` of every numbered entry, in the parser's order; none
/// when its root is not an object.
pub open spec fn library_paths_of(t: Seq<KvTok>) -> Seq<Seq<char>> {
    if root_is_obj(t) {
        library_paths(t, obj_entries(t, 0))
    } else {
        Seq::empty()
    }
}

/// The extra library folders that a `libraryfolders.vdf` text lists. `None`
/// when the text does not parse (the parser may also fail for want of
/// stack); see [`library_paths_in_tokens`] for the parsed file.
pub fn library_folder_paths(content: &str) -> (r: Option<Vec<String>>)
    ensures
        r matches Some(v) ==> kv_document(content@) matches Some(t) && v@.map_values(
            |s: String| s@,
        ) == library_paths_of(t),
        kv_document(content@) is None ==> r is None,
{
    match parse_kv(content) {
        Ok(t) => Some(library_paths_in_tokens(&t)),
        Err(_) => None,
    }
}

/// The extra library folders of a parsed `libraryfolders.vdf`.
pub fn library_paths_in_tokens(t: &Vec<KvToken>) -> (r: Vec<String>)
    ensures
        r@.map_values(|s: String| s@) == library_paths_of(toks_view(t@)),
{
    let ghost tv = toks_view(t@);
    let mut out: Vec<String> = Vec::new();
    if t.len() == 0 || !is_open(&t[0]) {
        assert(out@.map_values(|s: String| s@) =~= Seq::<Seq<char>>::empty());
        return out;
    }
    let es = obj_entries_exec(t, 0);
    let ghost esv = es@.map_values(|i: usize| i as int);
    let mut i: usize = 0;
    while i < es.len()
        invariant
            tv == toks_view(t@),
            esv == es@.map_values(|i: usize| i as int),
            esv == obj_entries(tv, 0),
            forall|j: int| 0 <= j < es@.len() ==> 0 < #[trigger] es@[j] < t.len(),
            i <= es.len(),
            out@.map_values(|s: String| s@) == library_paths(tv, esv.take(i as int)),
        decreases es.len() - i,
    {
        let e = es[i];
        assert(esv[i as int] == e as int);
        assert(tv[e as int] == t@[e as int]@);
        assert(esv.take(i + 1).drop_last() =~= esv.take(i as int));
        assert(esv.take(i + 1).last() == e as int);
        if is_open(&t[e]) {
            let fs = obj_entries_exec(t, e);
            let ghost fsv = fs@.map_values(|i: usize| i as int);
            let ghost base = out@.map_values(|s: String| s@);
            let mut j: usize = 0;
            while j < fs.len()
                invariant
                    tv == toks_view(t@),
                    fsv == fs@.map_values(|i: usize| i as int),
                    forall|m: int| 0 <= m < fs@.len() ==> e < #[trigger] fs@[m] < t.len(),
                    j <= fs.len(),
                    out@.map_values(|s: String| s@) == base + path_values(tv, fsv.take(j as int)),
                decreases fs.len() - j,
            {
                let f = fs[j];
                assert(fsv[j as int] == f as int);
                assert(tv[f as int] == t@[f as int]@);
                assert(fsv.take(j + 1).drop_last() =~= fsv.take(j as int));
                assert(fsv.take(j + 1).last() == f as int);
                let ghost before = out@;
                match &t[f] {
                    KvToken::Str(k, s) => {
                        if eq_ignore_ascii_case(k.as_str(), "path") {
                            out.push(s.clone());
                            assert(out@.map_values(|s: String| s@) =~= before.map_values(
                                |s: String| s@,
                            ).push(s@));
                        }
                    },
                    _ => {},
                }
                j = j + 1;
            }
            assert(fsv.take(fs.len() as int) =~= fsv);
        }
        i = i + 1;
    }
    assert(esv.take(es.len() as int) =~= esv);
    out
}

/// `s` contains `pat` as a contiguous piece.
pub open spec fn contains_seq(s: Seq<char>, pat: Seq<char>) -> bool {
    exists|i: int| 0 <= i && i + pat.len() <= s.len() && #[trigger] s.subrange(i, i + pat.len()) == pat
}

fn starts_with_at(s: &Vec<char>, at: usize, pat: &Vec<char>) -> (r: bool)
    requires
        at <= s.len(),
    ensures
        r == (at + pat.len() <= s.len() && s@.subrange(at as int, at + pat.len()) == pat@),
{
    if pat.len() > s.len() - at {
        return false;
    }
    let mut k: usize = 0;
    while k < pat.len()
        invariant
            at + pat.len() <= s.len(),
            k <= pat.len(),
            forall|m: int| 0 <= m < k ==> s@[at + m] == pat@[m],
        decreases pat.len() - k,
    {
        if s[at + k] != pat[k] {
            return false;
        }
        k = k + 1;
    }
    assert(s@.subrange(at as int, at + pat.len()) =~= pat@);
    true
}

/// Whether `s` contains `pat`.
pub fn contains_text_piece(s: &str, pat: &str) -> (r: bool)
    ensures
        r == contains_seq(s@, pat@),
{
    let c = chars_of(s);
    let p = chars_of(pat);
    let mut i: usize = 0;
    while i < c.len()
        invariant
            c@ == s@,
            p@ == pat@,
            i <= c.len(),
            forall|k: int|
                0 <= k < i && k + p@.len() <= c@.len() ==> #[trigger] c@.subrange(k, k + p@.len())
                    != p@,
        decreases c.len() - i,
    {
        if starts_with_at(&c, i, &p) {
            return true;
        }
        i = i + 1;
    }
    starts_with_at(&c, c.len(), &p)
}

/// Whether `tasklist` reported a running `steam.exe`: its output, lowercased,
/// mentions `steam.exe`. `None` (the command could not run) counts as not
/// running.
pub fn is_steam_running(tasklist_output: Option<&str>) -> (r: bool)
    ensures
        r == match tasklist_output {
            Some(o) => contains_seq(lowercase(o@), "steam.exe"@),
            None => false,
        },
{
    match tasklist_output {
        Some(o) => {
            let lower = to_lowercase(o);
            contains_text_piece(lower.as_str(), "steam.exe")
        },
        None => false,
    }
}

/// Whether the process at `exe` (lowercased) lies inside the game directory
/// `dir` (lowercased, then a `\`).
pub open spec fn inside_dir(exe: Option<Seq<char>>, dir: Seq<char>) -> bool {
    match exe {
        Some(p) => starts_with_seq(lowercase(p), lowercase(dir) + seq!['\\']),
        None => false,
    }
}

/// The processes to force-terminate for the running game in `game_dir`:
/// the indices, in order, of the executables in `exe_paths` that lie inside
/// that directory. A process without a known executable is never selected.
pub fn kill_targets(game_dir: &str, exe_paths: &Vec<Option<String>>) -> (r: Vec<usize>)
    ensures
        forall|k: int| 0 <= k < r@.len() ==> #[trigger] r@[k] < exe_paths@.len(),
        forall|a: int, b: int| 0 <= a < b < r@.len() ==> #[trigger] r@[a] < #[trigger] r@[b],
        forall|i: int|
            0 <= i < exe_paths@.len() ==> (r@.contains(i as usize) <==> inside_dir(
                match #[trigger] exe_paths@[i] {
                    Some(s) => Some(s@),
                    None => None,
                },
                game_dir@,
            )),
{
    let lower_dir = to_lowercase(game_dir);
    let prefix = concat2(lower_dir.as_str(), "\\");
    proof {
        reveal_strlit("\\");
    }
    let pc = chars_of(prefix.as_str());
    let mut out: Vec<usize> = Vec::new();
    let mut i: usize = 0;
    while i < exe_paths.len()
        invariant
            pc@ == lowercase(game_dir@) + seq!['\\'],
            i <= exe_paths.len(),
            forall|k: int| 0 <= k < out@.len() ==> #[trigger] out@[k] < i,
            forall|a: int, b: int| 0 <= a < b < out@.len() ==> #[trigger] out@[a] < #[trigger] out@[b],
            forall|j: int|
                0 <= j < i ==> (out@.contains(j as usize) <==> inside_dir(
                    match #[trigger] exe_paths@[j] {
                        Some(s) => Some(s@),
                        None => None,
                    },
                    game_dir@,
                )),
        decreases exe_paths.len() - i,
    {
        let ghost old_out = out@;
        match &exe_paths[i] {
            Some(p) => {
                let lp = to_lowercase(p.as_str());
                let lc = chars_of(lp.as_str());
                if starts_with_at(&lc, 0, &pc) {
                    out.push(i);
                }
            },
            None => {},
        }
        proof {
            assert forall|j: int| 0 <= j < i + 1 implies (out@.contains(j as usize) <==> inside_dir(
                match #[trigger] exe_paths@[j] {
                    Some(s) => Some(s@),
                    None => None,
                },
                game_dir@,
            )) by {
                if j < i {
                    if out@.contains(j as usize) {
                        let k = choose|k: int| 0 <= k < out@.len() && out@[k] == j as usize;
                        if k < old_out.len() {
                            assert(old_out[k] == j as usize);
                        }
                    }
                    if old_out.contains(j as usize) {
                        let k = choose|k: int| 0 <= k < old_out.len() && old_out[k] == j as usize;
                        assert(out@[k] == j as usize);
                    }
                } else {
                    if out@.contains(j as usize) {
                        let k = choose|k: int| 0 <= k < out@.len() && out@[k] == j as usize;
                        if k < old_out.len() {
                            assert(old_out[k] < i);
                        }
                    }
                    if out@.len() > old_out.len() {
                        assert(out@[old_out.len() as int] == i);
                    }
                }
            }
        }
        i = i + 1;
    }
    out
}

/// `steam.exe` inside the Steam installation at `steam_path`, joined on with
/// one separator (see [`joined`]).
pub fn steam_exe_path(steam_path: &str) -> (r: String)
    ensures
        joinable_base(steam_path@) ==> joined(r@, steam_path@, "steam.exe"@),
{
    proof {
        reveal_strlit("steam.exe");
        assert("steam.exe"@ =~= seq!['s', 't', 'e', 'a', 'm', '.', 'e', 'x', 'e']);
    }
    join_path(steam_path, "steam.exe")
}

/// The install folder of a game in the library at `library_root`:
/// `<library_root>\\steamapps\\common\\<installdir>`, each piece joined on
/// with one separator (see [`joined`]).
pub fn game_dir(library_root: &str, installdir: &str) -> (r: String)
    ensures
        joinable_base(library_root@) && relative_part(installdir@) ==> exists|
            steamapps: Seq<char>,
            common: Seq<char>,
        |
            joined(steamapps, library_root@, "steamapps"@) && joined(common, steamapps, "common"@)
                && joined(r@, common, installdir@),
{
    proof {
        reveal_strlit("steamapps");
        reveal_strlit("common");
        assert("steamapps"@ =~= seq!['s', 't', 'e', 'a', 'm', 'a', 'p', 'p', 's']);
        assert("common"@ =~= seq!['c', 'o', 'm', 'm', 'o', 'n']);
    }
    let steamapps = join_path(library_root, "steamapps");
    proof {
        if joinable_base(library_root@) {
            lemma_join_again(steamapps@, library_root@, "steamapps"@);
        }
    }
    let common = join_path(steamapps.as_str(), "common");
    proof {
        if joinable_base(library_root@) {
            lemma_join_again(common@, steamapps@, "common"@);
        }
    }
    join_path(common.as_str(), installdir)
}

/// One step of an account switch, for the caller to perform in order.
#[derive(Debug)]
pub enum SwitchAction {
    /// Force-terminate the foreground game Steam reports as running.
    CloseRunningGame,
    /// Force-kill `steam.exe` and `steamwebhelper.exe` and wait until Steam
    /// is gone; a timeout aborts the switch.
    HardCloseSteam,
    /// Write `AutoLoginUser` (and `RememberPassword`) for this account; a
    /// failure aborts the switch.
    SetAutoLoginUser(String),
    /// Start `steam_exe -login account_name`; a failure aborts the switch.
    Relaunch { steam_exe: String, account_name: String },
}

/// Plan a switch to `account_name`: close the running game and hard-kill
/// Steam if Steam is running, point `AutoLoginUser` at the account, then
/// relaunch Steam through its own `-login` path. Fails when `steam.exe` does
/// not exist.
pub fn switch_account(
    steam_exe: &str,
    steam_exe_exists: bool,
    steam_running: bool,
    account_name: &str,
) -> (r: Result<Vec<SwitchAction>, String>)
    ensures
        !steam_exe_exists ==> (r matches Err(m) && m@ == "steam.exe not found at "@ + steam_exe@),
        steam_exe_exists ==> (r matches Ok(v) && v@.len() == (if steam_running {
            4int
        } else {
            2int
        }) && (steam_running ==> v@[0] is CloseRunningGame && v@[1] is HardCloseSteam) && (
        v@[v@.len() - 2] matches SwitchAction::SetAutoLoginUser(a) && a@ == account_name@) && (
        v@[v@.len() - 1] matches SwitchAction::Relaunch { steam_exe: e, account_name: a } && e@
            == steam_exe@ && a@ == account_name@)),
{
    if !steam_exe_exists {
        return Err(concat2("steam.exe not found at ", steam_exe));
    }
    let mut steps: Vec<SwitchAction> = Vec::new();
    if steam_running {
        steps.push(SwitchAction::CloseRunningGame);
        steps.push(SwitchAction::HardCloseSteam);
    }
    steps.push(SwitchAction::SetAutoLoginUser(String::from_str(account_name)));
    steps.push(
        SwitchAction::Relaunch {
            steam_exe: String::from_str(steam_exe),
            account_name: String::from_str(account_name),
        },
    );
    Ok(steps)
}

/// How long to wait for Steam to disappear after the force-kill, in
/// milliseconds.
pub const KILL_CONFIRM_TIMEOUT_MS: u64 = 5000;

/// How long to sleep between two checks, in milliseconds.
pub const POLL_INTERVAL_MS: u64 = 300;

/// What to do while waiting for a killed Steam to exit.
#[derive(Debug)]
pub enum CloseWait {
    /// Steam is gone.
    Closed,
    /// Sleep for the poll interval and check again.
    KeepWaiting,
    /// Give up: "Steam did not shut down in time".
    TimedOut,
}

/// One check of the wait after the force-kill: past the timeout the wait
/// fails, otherwise it ends once Steam no longer runs.
pub fn close_wait_step(elapsed_ms: u64, steam_running: bool) -> (r: CloseWait)
    ensures
        elapsed_ms >= KILL_CONFIRM_TIMEOUT_MS ==> r is TimedOut,
        elapsed_ms < KILL_CONFIRM_TIMEOUT_MS && !steam_running ==> r is Closed,
        elapsed_ms < KILL_CONFIRM_TIMEOUT_MS && steam_running ==> r is KeepWaiting,
{
    if elapsed_ms >= KILL_CONFIRM_TIMEOUT_MS {
        CloseWait::TimedOut
    } else if !steam_running {
        CloseWait::Closed
    } else {
        CloseWait::KeepWaiting
    }
}

} // verus!
