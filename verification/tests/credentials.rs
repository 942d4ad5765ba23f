use steam_quick_switch::credentials::{
    cached_logins_in_tokens, has_cached_login, parse_cached_logins,
};
use steam_quick_switch::kv::parse_kv;

/// Shaped like the real file: the store sits four levels below the root.
const CONFIG: &str = r#"
"InstallConfigStore"
{
    "Software"
    {
        "Valve"
        {
            "Steam"
            {
                "Accounts"
                {
                    "example_login"
                    {
                        "SteamID"		"76561190000000001"
                    }
                    "second_login"
                    {
                        "SteamID"		"76561190000000002"
                    }
                }
                "CellIDServerOverride"		"87"
            }
        }
    }
}
"#;

#[test]
fn accounts_section_is_read() {
    let logins = parse_cached_logins(CONFIG).expect("Accounts section present");
    assert!(logins.contains("example_login", "76561190000000001"));
    assert!(logins.contains("second_login", "76561190000000002"));
}

#[test]
fn accounts_missing_from_the_section_are_reported_as_uncached() {
    let logins = parse_cached_logins(CONFIG).expect("Accounts section present");
    // Still listed in loginusers.vdf after a Steam reinstall, but Steam has
    // no credentials for it any more.
    assert!(!logins.contains("stale_login", "76561190000000003"));
}

#[test]
fn login_name_matches_case_insensitively() {
    let logins = parse_cached_logins(CONFIG).expect("Accounts section present");
    // The SteamID will not match, so this only passes via the name set.
    assert!(logins.contains("Example_Login", "0"));
}

#[test]
fn matches_on_steam_id_when_the_login_name_differs() {
    let logins = parse_cached_logins(CONFIG).expect("Accounts section present");
    assert!(logins.contains("renamed_login", "76561190000000001"));
}

#[test]
fn missing_accounts_section_is_unknown() {
    let config = r#"
"InstallConfigStore"
{
    "Software"
    {
        "Valve"
        {
            "Steam"
            {
                "CellIDServerOverride"		"87"
            }
        }
    }
}
"#;
    assert!(parse_cached_logins(config).is_none());
}

#[test]
fn empty_accounts_section_is_unknown() {
    // Treated as "cannot tell" rather than "nothing is cached": flagging
    // every account would look broken on a Steam build that keeps its
    // credentials somewhere else.
    let config = r#"
"InstallConfigStore"
{
    "Software"
    {
        "Valve"
        {
            "Steam"
            {
                "Accounts"
                {
                }
            }
        }
    }
}
"#;
    assert!(parse_cached_logins(config).is_none());
}

#[test]
fn unparsable_config_is_unknown() {
    assert!(parse_cached_logins("this is not KeyValues {{{").is_none());
}

#[test]
fn section_keys_are_matched_without_ascii_case() {
    let config = r#""InstallConfigStore" { "software" { "VALVE" { "steam" { "accounts" { "Mixed_Case" { "steamid" "7" } } } } } }"#;
    let logins = parse_cached_logins(config).expect("Accounts section present");
    assert!(logins.contains("MIXED_CASE", "0"));
    assert!(logins.contains("other", "7"));
}

#[test]
fn unknown_saved_logins_count_every_account_as_fine() {
    assert!(has_cached_login(None, "anyone", "1"));
    let logins = parse_cached_logins(CONFIG).expect("Accounts section present");
    assert!(has_cached_login(Some(&logins), "EXAMPLE_LOGIN", "0"));
    assert!(!has_cached_login(Some(&logins), "stale_login", "76561190000000003"));
}

#[test]
fn saved_logins_are_read_from_a_given_parse() {
    let t = parse_kv(CONFIG).unwrap();
    let logins = cached_logins_in_tokens(&t).expect("Accounts section present");
    assert!(logins.contains("second_login", "0"));
    assert!(!logins.contains("third", "3"));
}
