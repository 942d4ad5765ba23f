//! Minimal tray-menu translations (English / German).

use vstd::prelude::*;

use crate::text::same_text;

verus! {

/// The texts of the tray menu in one language.
pub struct Labels {
    pub settings: &'static str,
    pub language: &'static str,
    pub autostart: &'static str,
    pub display_name: &'static str,
    pub name_persona: &'static str,
    pub name_account: &'static str,
    pub sort_order: &'static str,
    pub sort_recent: &'static str,
    pub sort_name: &'static str,
    pub quit: &'static str,
    pub active: &'static str,
    pub no_accounts: &'static str,
    pub switch_failed: &'static str,
    pub remove_account: &'static str,
    pub remove_none: &'static str,
    pub remove_failed: &'static str,
    /// Marks an account Steam has no saved login for.
    pub login_required: &'static str,
    /// Title and text of the question asked before switching to such an
    /// account.
    pub login_required_title: &'static str,
    pub login_required_prompt: &'static str,
}

/// `l` holds the German texts.
pub open spec fn german_labels(l: Labels) -> bool {
    &&& l.settings@ == "Einstellungen"@
    &&& l.language@ == "Sprache"@
    &&& l.autostart@ == "Mit Windows starten"@
    &&& l.display_name@ == "Angezeigter Name"@
    &&& l.name_persona@ == "Profilname"@
    &&& l.name_account@ == "Kontoname"@
    &&& l.sort_order@ == "Sortierung"@
    &&& l.sort_recent@ == "Zuletzt benutzt"@
    &&& l.sort_name@ == "Name (A–Z)"@
    &&& l.quit@ == "Beenden"@
    &&& l.active@ == "aktiv"@
    &&& l.no_accounts@ == "Keine Konten gefunden"@
    &&& l.switch_failed@ == "Konto konnte nicht gewechselt werden"@
    &&& l.remove_account@ == "Konto entfernen"@
    &&& l.remove_none@ == "Keine weiteren Konten"@
    &&& l.remove_failed@ == "Konto konnte nicht entfernt werden"@
    &&& l.login_required@ == "Anmeldung nötig"@
    &&& l.login_required_title@ == "Anmeldung nötig"@
    &&& l.login_required_prompt@ == "Steam hat für dieses Konto keine gespeicherte Anmeldung. Steam wird geschlossen und zeigt danach den Anmeldebildschirm. Trotzdem wechseln?"@
}

/// `l` holds the English texts.
pub open spec fn english_labels(l: Labels) -> bool {
    &&& l.settings@ == "Settings"@
    &&& l.language@ == "Language"@
    &&& l.autostart@ == "Start with Windows"@
    &&& l.display_name@ == "Display name"@
    &&& l.name_persona@ == "Profile name"@
    &&& l.name_account@ == "Account name"@
    &&& l.sort_order@ == "Sort order"@
    &&& l.sort_recent@ == "Last used"@
    &&& l.sort_name@ == "Name (A–Z)"@
    &&& l.quit@ == "Quit"@
    &&& l.active@ == "active"@
    &&& l.no_accounts@ == "No accounts found"@
    &&& l.switch_failed@ == "Couldn't switch account"@
    &&& l.remove_account@ == "Remove account"@
    &&& l.remove_none@ == "No other accounts"@
    &&& l.remove_failed@ == "Couldn't remove account"@
    &&& l.login_required@ == "login required"@
    &&& l.login_required_title@ == "Login required"@
    &&& l.login_required_prompt@ == "Steam has no saved login for this account. Steam will be closed and then show its login screen. Switch anyway?"@
}

/// The menu texts for `lang`: German for `"de"`, English for anything else.
pub fn labels(lang: &str) -> (r: Labels)
    ensures
        lang@ == "de"@ ==> german_labels(r),
        lang@ != "de"@ ==> english_labels(r),
{
    if same_text(lang, "de") {
        Labels {
            settings: "Einstellungen",
            language: "Sprache",
            autostart: "Mit Windows starten",
            display_name: "Angezeigter Name",
            name_persona: "Profilname",
            name_account: "Kontoname",
            sort_order: "Sortierung",
            sort_recent: "Zuletzt benutzt",
            sort_name: "Name (A–Z)",
            quit: "Beenden",
            active: "aktiv",
            no_accounts: "Keine Konten gefunden",
            switch_failed: "Konto konnte nicht gewechselt werden",
            remove_account: "Konto entfernen",
            remove_none: "Keine weiteren Konten",
            remove_failed: "Konto konnte nicht entfernt werden",
            login_required: "Anmeldung nötig",
            login_required_title: "Anmeldung nötig",
            login_required_prompt: "Steam hat für dieses Konto keine gespeicherte Anmeldung. Steam wird geschlossen und zeigt danach den Anmeldebildschirm. Trotzdem wechseln?",
        }
    } else {
        Labels {
            settings: "Settings",
            language: "Language",
            autostart: "Start with Windows",
            display_name: "Display name",
            name_persona: "Profile name",
            name_account: "Account name",
            sort_order: "Sort order",
            sort_recent: "Last used",
            sort_name: "Name (A–Z)",
            quit: "Quit",
            active: "active",
            no_accounts: "No accounts found",
            switch_failed: "Couldn't switch account",
            remove_account: "Remove account",
            remove_none: "No other accounts",
            remove_failed: "Couldn't remove account",
            login_required: "login required",
            login_required_title: "Login required",
            login_required_prompt: "Steam has no saved login for this account. Steam will be closed and then show its login screen. Switch anyway?",
        }
    }
}

} // verus!
