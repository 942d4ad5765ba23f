//! Steam-related values from the Windows registry: which of the raw values
//! the app uses. Reading and writing the registry is left to the caller.

use vstd::prelude::*;

use crate::text::{chars_of, is_blank_text, push_char, trim_spec};

verus! {

/// A registry value that is present and not blank.
pub open spec fn usable(v: Option<&str>) -> bool {
    match v {
        Some(s) => trim_spec(s@).len() > 0,
        None => false,
    }
}

/// `s` with every `/` turned into `\`.
pub open spec fn backslashed(s: Seq<char>) -> Seq<char> {
    s.map_values(|c: char| if c == '/' { '\\' } else { c })
}

/// `s` with every `/` turned into `\`.
pub fn to_backslashes(s: &str) -> (r: String)
    ensures
        r@ == backslashed(s@),
{
    let c = chars_of(s);
    let mut out = String::new();
    let mut i: usize = 0;
    while i < c.len()
        invariant
            c@ == s@,
            i <= c.len(),
            out@ == backslashed(s@.take(i as int)),
        decreases c.len() - i,
    {
        let ch = if c[i] == '/' {
            '\\'
        } else {
            c[i]
        };
        push_char(&mut out, ch);
        assert(backslashed(s@.take(i + 1)) =~= backslashed(s@.take(i as int)).push(ch));
        i = i + 1;
    }
    assert(s@.take(c.len() as int) =~= s@);
    out
}

/// The Steam installation directory, from the registry values that name it.
///
/// Prefers `HKCU\Software\Valve\Steam\SteamPath` (set by the running client,
/// stored with forward slashes, which become backslashes), falling back to
/// the machine-wide `InstallPath` under `WOW6432Node`, then the native one.
/// Blank values are skipped.
pub fn steam_path(
    hkcu_steam_path: Option<&str>,
    hklm_wow64_install_path: Option<&str>,
    hklm_install_path: Option<&str>,
) -> (r: Option<String>)
    ensures
        usable(hkcu_steam_path) ==> (r matches Some(p) && p@ == backslashed(
            hkcu_steam_path->0@,
        )),
        !usable(hkcu_steam_path) && usable(hklm_wow64_install_path) ==> (r matches Some(p) && p@
            == hklm_wow64_install_path->0@),
        !usable(hkcu_steam_path) && !usable(hklm_wow64_install_path) && usable(hklm_install_path)
            ==> (r matches Some(p) && p@ == hklm_install_path->0@),
        !usable(hkcu_steam_path) && !usable(hklm_wow64_install_path) && !usable(hklm_install_path)
            ==> r is None,
{
    if let Some(p) = hkcu_steam_path {
        if !is_blank_text(p) {
            return Some(to_backslashes(p));
        }
    }
    if let Some(p) = hklm_wow64_install_path {
        if !is_blank_text(p) {
            return Some(String::from_str(p));
        }
    }
    if let Some(p) = hklm_install_path {
        if !is_blank_text(p) {
            return Some(String::from_str(p));
        }
    }
    None
}

/// The account name Steam will auto-login on next launch, from the
/// `AutoLoginUser` value: `None` when it is absent or blank.
pub fn auto_login_user(value: Option<&str>) -> (r: Option<String>)
    ensures
        usable(value) ==> (r matches Some(u) && u@ == value->0@),
        !usable(value) ==> r is None,
{
    match value {
        Some(v) => if is_blank_text(v) {
            None
        } else {
            Some(String::from_str(v))
        },
        None => None,
    }
}

} // verus!
