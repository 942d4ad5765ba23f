//! Persistent settings: which stored values count, and their defaults. The
//! store itself (and the OS locale) is read by the caller.

use vstd::prelude::*;

use crate::text::{lowercase, same_text, starts_with_seq, starts_with_text, to_lowercase};

verus! {

/// The OS locale is known and, lowercased, starts with `de`.
pub open spec fn locale_is_german(os_locale: Option<&str>) -> bool {
    match os_locale {
        Some(l) => starts_with_seq(lowercase(l@), "de"@),
        None => false,
    }
}

/// Calls `sys_locale::get_locale`: the OS's current locale tag, `None` when
/// it cannot be determined. It depends on the machine's settings, so nothing
/// is claimed of the result.
#[verifier::external_body]
fn system_locale() -> (r: Option<String>) {
    sys_locale::get_locale()
}

/// The language that the OS locale `os_locale` suggests: German for a `de*`
/// locale (any case), English otherwise, also when the locale is unknown.
pub fn language_for_locale(os_locale: Option<&str>) -> (r: String)
    ensures
        r@ == (if locale_is_german(os_locale) {
            "de"@
        } else {
            "en"@
        }),
{
    match os_locale {
        Some(l) => {
            let lower = to_lowercase(l);
            if starts_with_text(lower.as_str(), "de") {
                String::from_str("de")
            } else {
                String::from_str("en")
            }
        },
        None => String::from_str("en"),
    }
}

/// The language to use when none is stored: the one the OS locale suggests
/// (see [`language_for_locale`]), `"de"` or `"en"`.
pub fn detect_language() -> (r: String)
    ensures
        r@ == "de"@ || r@ == "en"@,
{
    let locale = system_locale();
    match &locale {
        Some(l) => language_for_locale(Some(l.as_str())),
        None => language_for_locale(None),
    }
}

/// A stored `language` setting counts when it is `"de"` or `"en"`.
pub open spec fn valid_language(stored: Option<&str>) -> bool {
    stored matches Some(s) && (s@ == "de"@ || s@ == "en"@)
}

/// The UI language for the stored `language` setting and the OS locale
/// `os_locale`: the stored value when it counts, else the one the locale
/// suggests.
pub fn language_with_locale(stored: Option<&str>, os_locale: Option<&str>) -> (r: String)
    ensures
        valid_language(stored) ==> r@ == stored->0@,
        !valid_language(stored) ==> r@ == (if locale_is_german(os_locale) {
            "de"@
        } else {
            "en"@
        }),
{
    if let Some(s) = stored {
        if same_text(s, "de") || same_text(s, "en") {
            return String::from_str(s);
        }
    }
    language_for_locale(os_locale)
}

/// The UI language, `"en"` or `"de"`: the stored `language` setting when it
/// is one of the two, else the one the OS locale suggests (the OS is only
/// asked then).
pub fn language(stored: Option<&str>) -> (r: String)
    ensures
        r@ == "de"@ || r@ == "en"@,
        valid_language(stored) ==> r@ == stored->0@,
{
    if let Some(s) = stored {
        if same_text(s, "de") || same_text(s, "en") {
            return String::from_str(s);
        }
    }
    detect_language()
}

/// How account names are shown: the stored `nameMode` when it is `"account"`
/// or `"persona"`, else `"persona"` (the Steam profile name).
pub fn name_mode(stored: Option<&str>) -> (r: String)
    ensures
        r@ == "account"@ || r@ == "persona"@,
        (stored matches Some(s) && (s@ == "account"@ || s@ == "persona"@)) ==> r@
            == stored->0@,
        !(stored matches Some(s) && (s@ == "account"@ || s@ == "persona"@)) ==> r@
            == "persona"@,
{
    if let Some(s) = stored {
        if same_text(s, "account") || same_text(s, "persona") {
            return String::from_str(s);
        }
    }
    String::from_str("persona")
}

} // verus!

verus! {

/// The menu order: the stored `sortMode` when it is `"name"` or `"recent"`,
/// else `"recent"` (active account first, then most recently used).
pub fn sort_mode(stored: Option<&str>) -> (r: String)
    ensures
        r@ == "name"@ || r@ == "recent"@,
        (stored matches Some(s) && (s@ == "name"@ || s@ == "recent"@)) ==> r@ == stored->0@,
        !(stored matches Some(s) && (s@ == "name"@ || s@ == "recent"@)) ==> r@ == "recent"@,
{
    if let Some(s) = stored {
        if same_text(s, "name") || same_text(s, "recent") {
            return String::from_str(s);
        }
    }
    String::from_str("recent")
}

} // verus!

verus! {

/// One step of moving the app's data out of the folders of its old bundle
/// identifier.
#[derive(Debug, Clone, Copy, PartialEq, Eq, Structural)]
pub enum MigrationStep {
    /// Create the new data folder and copy the old settings store into it
    /// (skipped if the folder cannot be created).
    CopyStore,
    /// Remove the old folder under Roaming app data.
    RemoveLegacyData,
    /// Remove the old folder under Local app data.
    RemoveLegacyLocal,
}

/// The migration steps, in order: with an old Roaming folder, copy its
/// settings store when it has one and the new store does not exist yet, then
/// remove it; then remove an old Local folder.
pub open spec fn migration_steps(
    legacy_is_dir: bool,
    legacy_store_is_file: bool,
    new_store_exists: bool,
    legacy_local_is_dir: bool,
) -> Seq<MigrationStep> {
    (if legacy_is_dir {
        (if legacy_store_is_file && !new_store_exists {
            seq![MigrationStep::CopyStore]
        } else {
            Seq::empty()
        }) + seq![MigrationStep::RemoveLegacyData]
    } else {
        Seq::empty()
    }) + (if legacy_local_is_dir {
        seq![MigrationStep::RemoveLegacyLocal]
    } else {
        Seq::empty()
    })
}

/// Plan the one-time migration from the old data folders, given what
/// exists on disk: whether the old Roaming folder is a directory, whether
/// it holds a settings store, whether the new store already exists, and
/// whether the old Local folder is a directory.
pub fn migration_plan(
    legacy_is_dir: bool,
    legacy_store_is_file: bool,
    new_store_exists: bool,
    legacy_local_is_dir: bool,
) -> (r: Vec<MigrationStep>)
    ensures
        r@ == migration_steps(
            legacy_is_dir,
            legacy_store_is_file,
            new_store_exists,
            legacy_local_is_dir,
        ),
{
    let mut steps: Vec<MigrationStep> = Vec::new();
    if legacy_is_dir {
        if legacy_store_is_file && !new_store_exists {
            steps.push(MigrationStep::CopyStore);
        }
        steps.push(MigrationStep::RemoveLegacyData);
    }
    if legacy_local_is_dir {
        steps.push(MigrationStep::RemoveLegacyLocal);
    }
    assert(steps@ =~= migration_steps(
        legacy_is_dir,
        legacy_store_is_file,
        new_store_exists,
        legacy_local_is_dir,
    ));
    steps
}

/// The migration copies the store only when there is one and no new store
/// yet, does so before it removes the old folder, and removes each old
/// folder exactly when it exists.
pub proof fn law_migration_copies_before_removing(
    legacy_is_dir: bool,
    legacy_store_is_file: bool,
    new_store_exists: bool,
    legacy_local_is_dir: bool,
)
    ensures
        ({
            let s = migration_steps(
                legacy_is_dir,
                legacy_store_is_file,
                new_store_exists,
                legacy_local_is_dir,
            );
            &&& s.contains(MigrationStep::CopyStore) <==> (legacy_is_dir && legacy_store_is_file
                && !new_store_exists)
            &&& s.contains(MigrationStep::RemoveLegacyData) <==> legacy_is_dir
            &&& s.contains(MigrationStep::RemoveLegacyLocal) <==> legacy_local_is_dir
            &&& s.contains(MigrationStep::CopyStore) ==> s[0] == MigrationStep::CopyStore
        }),
{
    let s = migration_steps(legacy_is_dir, legacy_store_is_file, new_store_exists, legacy_local_is_dir);
    let a = if legacy_is_dir && legacy_store_is_file && !new_store_exists {
        seq![MigrationStep::CopyStore]
    } else {
        Seq::<MigrationStep>::empty()
    };
    let b = if legacy_is_dir {
        a + seq![MigrationStep::RemoveLegacyData]
    } else {
        Seq::<MigrationStep>::empty()
    };
    let c = if legacy_local_is_dir {
        seq![MigrationStep::RemoveLegacyLocal]
    } else {
        Seq::<MigrationStep>::empty()
    };
    assert(s =~= b + c);
    if legacy_is_dir {
        assert((b + c)[b.len() - 1] == MigrationStep::RemoveLegacyData);
    }
    if legacy_local_is_dir {
        assert((b + c)[(b + c).len() - 1] == MigrationStep::RemoveLegacyLocal);
    }
    if legacy_is_dir && legacy_store_is_file && !new_store_exists {
        assert((b + c)[0] == MigrationStep::CopyStore);
    }
    assert forall|x: MigrationStep| #[trigger] s.contains(x) implies (x == MigrationStep::CopyStore
        ==> legacy_is_dir && legacy_store_is_file && !new_store_exists) && (x
        == MigrationStep::RemoveLegacyData ==> legacy_is_dir) && (x
        == MigrationStep::RemoveLegacyLocal ==> legacy_local_is_dir) by {
        let i = choose|i: int| 0 <= i < s.len() && s[i] == x;
        if i < b.len() {
            if i < a.len() {
            } else {
                assert(b[i] == MigrationStep::RemoveLegacyData);
            }
        } else {
            assert(s[i] == c[i - b.len()]);
        }
    }
}

/// Once both old folders are gone, the migration does nothing: running it
/// again changes nothing.
pub proof fn law_migration_is_idempotent(legacy_store_is_file: bool, new_store_exists: bool)
    ensures
        migration_steps(false, legacy_store_is_file, new_store_exists, false).len() == 0,
{
}

/// Whether to turn "start with Windows" on at startup: only on the first
/// run, when the store holds no `autostartConfigured` flag yet. The caller
/// then records the flag, so a later choice to turn it off stands.
pub fn autostart_default_action(flag_present: bool) -> (r: bool)
    ensures
        r == !flag_present,
{
    !flag_present
}

} // verus!
