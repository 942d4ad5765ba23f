use steam_quick_switch::accounts::{accounts_from_users, list_accounts, Account};
use steam_quick_switch::avatar::avatar_path;
use steam_quick_switch::i18n::labels;
use steam_quick_switch::registry::{auto_login_user, steam_path};
use steam_quick_switch::settings::{
    detect_language, language, language_for_locale, language_with_locale, name_mode, sort_mode,
};
use steam_quick_switch::switch::{
    close_wait_step, game_dir, is_steam_running, kill_targets, library_folder_paths, manifest_installdir,
    steam_exe_path, switch_account, CloseWait, SwitchAction,
};
use steam_quick_switch::tray::{
    account_entry, current_account_key, display_name, find_account, icon_account, login_prompt,
    account_switched, menu_command, menu_model, sort_key, sorted_accounts, MenuCommand,
    MenuItemKind,
};
use steam_quick_switch::settings::{autostart_default_action, migration_plan, MigrationStep};
use steam_quick_switch::vdf::{login_users_path, parse_u64, VdfUser};

fn user(id: &str, name: &str, persona: &str, ts: u64) -> VdfUser {
    VdfUser {
        steam_id64: id.to_string(),
        account_name: name.to_string(),
        persona_name: persona.to_string(),
        remember_password: true,
        most_recent: false,
        timestamp: ts,
    }
}

fn account(id: &str, name: &str, persona: &str, current: bool) -> Account {
    Account {
        steam_id64: id.to_string(),
        account_name: name.to_string(),
        persona_name: persona.to_string(),
        remember_password: true,
        most_recent: false,
        timestamp: 0,
        is_current: current,
    }
}

#[test]
fn german_labels_for_de_english_otherwise() {
    assert_eq!(labels("de").quit, "Beenden");
    assert_eq!(labels("de").no_accounts, "Keine Konten gefunden");
    assert_eq!(labels("en").quit, "Quit");
    assert_eq!(labels("fr").settings, "Settings");
    assert_eq!(labels("DE").active, "active");
}

#[test]
fn stored_language_wins_else_locale_decides() {
    assert_eq!(language_with_locale(Some("de"), Some("en-US")), "de");
    assert_eq!(language_with_locale(Some("en"), Some("de-DE")), "en");
    assert_eq!(language_with_locale(Some("fr"), Some("de-AT")), "de");
    assert_eq!(language_with_locale(None, Some("DE_ch")), "de");
    assert_eq!(language_with_locale(None, Some("en-GB")), "en");
    assert_eq!(language_with_locale(None, None), "en");
    assert_eq!(language_for_locale(Some("de")), "de");
    assert_eq!(language_for_locale(Some("d")), "en");
}

#[test]
fn stored_language_is_used_without_asking_the_os() {
    assert_eq!(language(Some("de")), "de");
    assert_eq!(language(Some("en")), "en");
    let guessed = language(Some("fr"));
    assert!(guessed == "de" || guessed == "en");
    assert_eq!(language(None), detect_language());
}

#[test]
fn name_mode_defaults_to_persona() {
    assert_eq!(name_mode(Some("account")), "account");
    assert_eq!(name_mode(Some("persona")), "persona");
    assert_eq!(name_mode(Some("Account")), "persona");
    assert_eq!(name_mode(None), "persona");
}

#[test]
fn sort_mode_defaults_to_recent() {
    assert_eq!(sort_mode(Some("name")), "name");
    assert_eq!(sort_mode(Some("recent")), "recent");
    assert_eq!(sort_mode(Some("Name")), "recent");
    assert_eq!(sort_mode(None), "recent");
}

#[test]
fn steam_path_prefers_the_user_value_with_backslashes() {
    assert_eq!(
        steam_path(Some("c:/program files (x86)/steam"), Some("D:\\Steam"), None).as_deref(),
        Some("c:\\program files (x86)\\steam")
    );
    assert_eq!(steam_path(Some("   "), Some("D:\\Steam"), Some("E:\\Steam")).as_deref(), Some("D:\\Steam"));
    assert_eq!(steam_path(None, Some(""), Some("E:/Steam")).as_deref(), Some("E:/Steam"));
    assert_eq!(steam_path(None, None, Some(" \t")), None);
}

#[test]
fn blank_auto_login_user_is_none() {
    assert_eq!(auto_login_user(Some("player")).as_deref(), Some("player"));
    assert_eq!(auto_login_user(Some("  ")), None);
    assert_eq!(auto_login_user(None), None);
}

#[test]
fn active_account_first_then_most_recent() {
    let users = vec![
        user("1", "alpha", "A", 10),
        user("2", "Bravo", "B", 30),
        user("3", "charlie", "C", 20),
        user("4", "delta", "D", 30),
    ];
    let accounts = accounts_from_users(&users, Some("CHARLIE"));
    let ids: Vec<&str> = accounts.iter().map(|a| a.steam_id64.as_str()).collect();
    assert_eq!(ids, vec!["3", "2", "4", "1"]);
    assert!(accounts[0].is_current);
    assert!(accounts[1..].iter().all(|a| !a.is_current));
}

#[test]
fn no_auto_login_user_marks_no_account() {
    let users = vec![user("1", "", "A", 1), user("2", "b", "B", 2)];
    let accounts = accounts_from_users(&users, None);
    assert!(accounts.iter().all(|a| !a.is_current));
    assert_eq!(accounts[0].steam_id64, "2");
}

#[test]
fn list_accounts_reads_the_file() {
    let content = "\"users\"\n{\n\t\"1\"\n\t{\n\t\t\"AccountName\"\t\"old\"\n\t\t\"Timestamp\"\t\"5\"\n\t}\n\t\"2\"\n\t{\n\t\t\"AccountName\"\t\"Main\"\n\t\t\"Timestamp\"\t\"3\"\n\t}\n\t\"3\"\n\t{\n\t\t\"AccountName\"\t\"new\"\n\t\t\"Timestamp\"\t\"9\"\n\t}\n}\n";
    let accounts = list_accounts(Some(content), Some("main")).unwrap();
    let ids: Vec<&str> = accounts.iter().map(|a| a.steam_id64.as_str()).collect();
    assert_eq!(ids, vec!["2", "3", "1"]);
    assert_eq!(list_accounts(None, None).unwrap_err(), "Steam installation not found");
    assert!(list_accounts(Some("{{{"), None).is_err());
}

#[test]
fn list_accounts_passes_the_parse_error_on() {
    let bad = "this is not KeyValues {{{";
    let expected = steam_quick_switch::vdf::parse_login_users(bad).unwrap_err();
    assert!(expected.starts_with("failed to parse loginusers.vdf: "));
    assert_eq!(list_accounts(Some(bad), None).unwrap_err(), expected);
    assert_eq!(
        list_accounts(Some("\"users\" \"flat\""), None).unwrap_err(),
        "loginusers.vdf root is not an object"
    );
}

#[test]
fn display_name_follows_the_mode() {
    let a = account("1", "login", "Persona", false);
    let b = account("2", "login2", "  ", false);
    assert_eq!(display_name("persona", &a), "Persona");
    assert_eq!(display_name("account", &a), "login");
    assert_eq!(display_name("persona", &b), "login2");
}

#[test]
fn umlauts_sort_under_their_base_letter() {
    assert_eq!(sort_key("Ärger"), "arger");
    assert_eq!(sort_key("Straße"), "strasse");
    assert_eq!(sort_key("ÖL Über"), "ol uber");
    assert!(sort_key("Ärger") < sort_key("Zebra"));
}

#[test]
fn name_sort_is_alphabetical_and_stable() {
    let accounts = vec![
        account("1", "zed", "Zed", true),
        account("2", "x", "Ärger", false),
        account("3", "y", "bob", false),
        account("4", "w", "Bob", false),
    ];
    let by_name: Vec<&str> = sorted_accounts("name", "persona", &accounts)
        .iter()
        .map(|a| a.steam_id64.as_str())
        .collect();
    assert_eq!(by_name, vec!["2", "3", "4", "1"]);
    let recent: Vec<&str> = sorted_accounts("recent", "persona", &accounts)
        .iter()
        .map(|a| a.steam_id64.as_str())
        .collect();
    assert_eq!(recent, vec!["1", "2", "3", "4"]);
    let by_login: Vec<&str> = sorted_accounts("name", "account", &accounts)
        .iter()
        .map(|a| a.steam_id64.as_str())
        .collect();
    assert_eq!(by_login, vec!["4", "2", "3", "1"]);
}

#[test]
fn menu_entries_mark_active_and_uncached_accounts() {
    let active = account("7", "me", "Me", true);
    let other = account("8", "you", "", false);
    let e = account_entry("persona", &active, true, "active", "login required");
    assert_eq!(e.id, "switch:7");
    assert_eq!(e.label, "Me  •  active");
    assert!(!e.enabled);
    let f = account_entry("persona", &other, false, "active", "login required");
    assert_eq!(f.label, "you  •  login required");
    assert!(f.enabled);
    let g = account_entry("account", &other, true, "active", "login required");
    assert_eq!(g.label, "you");
}

#[test]
fn menu_ids_decode_to_commands() {
    let entry = account_entry("persona", &account("765", "a", "A", false), true, "", "");
    assert!(matches!(menu_command(&entry.id), MenuCommand::Switch(ref id) if id == "765"));
    assert!(matches!(menu_command("lang:de"), MenuCommand::SetLanguage(ref l) if l == "de"));
    assert!(matches!(menu_command("name:account"), MenuCommand::SetNameMode(ref m) if m == "account"));
    assert!(matches!(menu_command("sort:name"), MenuCommand::SetSortMode(ref m) if m == "name"));
    assert!(matches!(menu_command("autostart"), MenuCommand::ToggleAutostart));
    assert!(matches!(menu_command("quit"), MenuCommand::Quit));
    assert!(matches!(menu_command("noop"), MenuCommand::Ignore));
    assert!(matches!(menu_command("switch:"), MenuCommand::Switch(ref id) if id.is_empty()));
}

#[test]
fn account_key_is_lowercased() {
    assert_eq!(current_account_key(Some("MixedCase")), "mixedcase");
    assert_eq!(current_account_key(None), "");
}

#[test]
fn login_prompt_names_the_account() {
    let a = account("1", "login", "Persona", false);
    let b = account("2", "login2", " ", false);
    assert_eq!(login_prompt(&a, "Needs a password."), "Persona (login)\n\nNeeds a password.");
    assert_eq!(login_prompt(&b, "x"), "login2\n\nx");
}

#[test]
fn finding_accounts_and_the_icon_account() {
    let accounts = vec![account("1", "a", "A", false), account("2", "b", "B", true)];
    assert_eq!(find_account(&accounts, "2"), Some(1));
    assert_eq!(find_account(&accounts, "3"), None);
    assert_eq!(icon_account(&accounts), Some(1));
    assert_eq!(icon_account(&accounts[..1]), Some(0));
    assert_eq!(icon_account(&[]), None);
}

#[test]
fn kill_targets_are_inside_the_game_directory_only() {
    let exes = vec![
        Some("C:\\Games\\Steam\\steamapps\\common\\Game\\game.exe".to_string()),
        None,
        Some("c:\\games\\steam\\steamapps\\common\\gamex\\other.exe".to_string()),
        Some("C:\\GAMES\\STEAM\\STEAMAPPS\\COMMON\\GAME\\bin\\helper.exe".to_string()),
        Some("C:\\Games\\Steam\\steamapps\\common\\Game".to_string()),
    ];
    assert_eq!(
        kill_targets("C:\\Games\\Steam\\steamapps\\common\\Game", &exes),
        vec![0, 3]
    );
}

#[test]
fn steam_running_is_read_from_tasklist() {
    assert!(is_steam_running(Some("\"Steam.exe\",\"1234\",\"Console\"")));
    assert!(!is_steam_running(Some("INFO: No tasks are running which match the specified criteria.")));
    assert!(!is_steam_running(None));
}

#[test]
fn switch_plan_closes_steam_only_when_it_runs() {
    let plan = switch_account("C:\\Steam\\steam.exe", true, true, "player").unwrap();
    assert_eq!(plan.len(), 4);
    assert!(matches!(plan[0], SwitchAction::CloseRunningGame));
    assert!(matches!(plan[1], SwitchAction::HardCloseSteam));
    assert!(matches!(plan[2], SwitchAction::SetAutoLoginUser(ref a) if a == "player"));
    assert!(matches!(plan[3], SwitchAction::Relaunch { ref steam_exe, ref account_name } if steam_exe == "C:\\Steam\\steam.exe" && account_name == "player"));
    let quiet = switch_account("C:\\Steam\\steam.exe", true, false, "player").unwrap();
    assert_eq!(quiet.len(), 2);
    assert_eq!(
        switch_account("C:\\Steam\\steam.exe", false, true, "player").unwrap_err(),
        "steam.exe not found at C:\\Steam\\steam.exe"
    );
}

#[test]
fn close_wait_times_out_after_five_seconds() {
    assert!(matches!(close_wait_step(0, false), CloseWait::Closed));
    assert!(matches!(close_wait_step(4999, true), CloseWait::KeepWaiting));
    assert!(matches!(close_wait_step(5000, false), CloseWait::TimedOut));
}

#[test]
fn library_folders_list_their_paths() {
    let vdf = r#""libraryfolders" { "0" { "path" "C:\\Steam" "label" "" } "1" { "PATH" "D:\\Games" } "contentstatsid" "1" }"#;
    assert_eq!(
        library_folder_paths(vdf).unwrap(),
        vec!["C:\\Steam".to_string(), "D:\\Games".to_string()]
    );
    assert!(library_folder_paths("{{{").is_none());
    assert_eq!(library_folder_paths("\"x\" \"y\"").unwrap(), Vec::<String>::new());
}

#[test]
fn manifest_text_yields_a_safe_installdir() {
    assert_eq!(
        manifest_installdir("\"AppState\" { \"installdir\" \"Game\" }").as_deref(),
        Some("Game")
    );
    assert_eq!(manifest_installdir("\"AppState\" { \"installdir\" \"C:\\\\x\" }"), None);
    assert_eq!(manifest_installdir("{{{"), None);
}

#[test]
fn u64_parsing_matches_std() {
    for s in ["0", "+7", "1780000000", "18446744073709551615", "18446744073709551616", "", "+", "-1", " 1", "1a", "٣"] {
        assert_eq!(parse_u64(s), s.parse::<u64>().ok(), "{s:?}");
    }
}

#[test]
fn paths_are_joined_below_the_install() {
    let p = login_users_path("C:\\Steam");
    let sep = std::path::MAIN_SEPARATOR;
    assert_eq!(p, format!("C:\\Steam{sep}config{sep}loginusers.vdf"));
    assert!(p.starts_with("C:\\Steam"));
    assert!(p.ends_with("loginusers.vdf"));
    assert!(p.contains("config"));
    let a = avatar_path("C:\\Steam", "765");
    assert!(a.ends_with("765.png"));
    assert!(a.contains("avatarcache"));
    assert!(steam_exe_path("C:\\Steam").ends_with("steam.exe"));
}

#[test]
fn avatar_and_steam_paths_use_one_separator_per_join() {
    let sep = std::path::MAIN_SEPARATOR;
    assert_eq!(
        avatar_path("C:\\Steam", "765"),
        format!("C:\\Steam{sep}config{sep}avatarcache{sep}765.png")
    );
    assert_eq!(steam_exe_path("C:\\Steam"), format!("C:\\Steam{sep}steam.exe"));
    assert_eq!(steam_exe_path(""), "steam.exe");
}

#[test]
fn empty_account_list_gives_the_noop_item_then_settings() {
    let l = labels("en");
    let m = menu_model(&[], None, &l, "en", "persona", "recent", true);
    assert_eq!(m.len(), 19);
    assert_eq!(m[0].id, "noop");
    assert_eq!(m[0].label, "No accounts found");
    assert!(!m[0].enabled);
    assert_eq!(m[1].kind, MenuItemKind::Separator);
    assert_eq!(m[2].kind, MenuItemKind::SubmenuStart);
    assert_eq!(m[2].label, "Settings");
    assert_eq!(m[4].id, "lang:en");
    assert!(m[4].checked);
    assert!(!m[5].checked);
    assert_eq!(m[8].id, "name:persona");
    assert!(m[8].checked);
    assert_eq!(m[12].id, "sort:recent");
    assert!(m[12].checked);
    assert_eq!(m[15].id, "autostart");
    assert!(m[15].checked);
    assert_eq!(m[18].id, "quit");
    assert_eq!(m[18].label, "Quit");
}

#[test]
fn menu_lists_accounts_in_menu_order_first() {
    let l = labels("de");
    let accounts = vec![
        account("1", "zed", "Zed", true),
        account("2", "amy", "Amy", false),
    ];
    let m = menu_model(&accounts, None, &l, "de", "persona", "name", false);
    assert_eq!(m.len(), 2 + 18);
    assert_eq!(m[0].id, "switch:2");
    assert_eq!(m[0].label, "Amy");
    assert!(m[0].enabled);
    assert_eq!(m[0].avatar.as_deref(), Some("2"));
    assert_eq!(m[1].id, "switch:1");
    assert_eq!(m[1].label, "Zed  •  aktiv");
    assert!(!m[1].enabled);
    assert_eq!(m[3].label, "Einstellungen");
    assert!(m[6].checked);
    assert!(m[14].checked);
    assert!(!m[16].checked);
}

#[test]
fn migration_copies_then_removes_and_then_does_nothing() {
    assert_eq!(
        migration_plan(true, true, false, true),
        vec![
            MigrationStep::CopyStore,
            MigrationStep::RemoveLegacyData,
            MigrationStep::RemoveLegacyLocal
        ]
    );
    assert_eq!(migration_plan(true, true, true, false), vec![MigrationStep::RemoveLegacyData]);
    assert_eq!(migration_plan(false, true, false, true), vec![MigrationStep::RemoveLegacyLocal]);
    assert!(migration_plan(false, true, false, false).is_empty());
}

#[test]
fn autostart_is_enabled_only_without_the_flag() {
    assert!(autostart_default_action(false));
    assert!(!autostart_default_action(true));
}

#[test]
fn watcher_refreshes_only_on_a_change() {
    assert!(account_switched("alice", "bob"));
    assert!(!account_switched("alice", "alice"));
    assert!(account_switched("", "bob"));
}

#[test]
fn no_user_and_no_locale_give_the_empty_key_and_english() {
    assert_eq!(current_account_key(None), "");
    assert_eq!(language_for_locale(None), "en");
    assert_eq!(language_for_locale(Some("")), "en");
    assert_eq!(labels("en").login_required, "login required");
    assert_eq!(labels("de").login_required_title, "Anmeldung nötig");
}

#[test]
fn game_folder_lies_under_steamapps_common() {
    let sep = std::path::MAIN_SEPARATOR;
    assert_eq!(
        game_dir("D:\\Lib", "wallpaper_engine"),
        format!("D:\\Lib{sep}steamapps{sep}common{sep}wallpaper_engine")
    );
}
