use steam_quick_switch::kv::parse_kv;
use steam_quick_switch::path::is_safe_relative_dir;
use steam_quick_switch::switch::{installdir_from_manifest, library_paths_in_tokens};

#[test]
fn installdir_is_extracted_from_manifest() {
    let acf = r#"
"AppState"
{
    "appid"      "431960"
    "name"       "Wallpaper Engine"
    "installdir" "wallpaper_engine"
}
"#;
    let parsed = parse_kv(acf).expect("valid ACF");
    assert_eq!(
        installdir_from_manifest(&parsed).as_deref(),
        Some("wallpaper_engine")
    );
}

#[test]
fn missing_installdir_returns_none() {
    let acf = r#"
"AppState"
{
    "appid" "12345"
    "name"  "Some Game"
}
"#;
    let parsed = parse_kv(acf).expect("valid ACF");
    assert_eq!(installdir_from_manifest(&parsed), None);
}

#[test]
fn traversal_installdir_is_rejected() {
    // A crafted manifest must not be able to point the kill target outside
    // the Steam library via path traversal.
    let acf = r#"
"AppState"
{
    "appid"      "12345"
    "installdir" "..\\..\\..\\Windows\\System32"
}
"#;
    let parsed = parse_kv(acf).expect("valid ACF");
    assert_eq!(installdir_from_manifest(&parsed), None);
}

#[test]
fn empty_installdir_is_rejected() {
    let acf = r#"
"AppState"
{
    "appid"      "12345"
    "installdir" ""
}
"#;
    let parsed = parse_kv(acf).expect("valid ACF");
    assert_eq!(installdir_from_manifest(&parsed), None);
}

#[test]
fn safe_relative_dir_accepts_plain_names_only() {
    assert!(is_safe_relative_dir("wallpaper_engine"));
    assert!(is_safe_relative_dir("Counter-Strike Global Offensive"));
    assert!(!is_safe_relative_dir(""));
    assert!(!is_safe_relative_dir("   "));
    assert!(!is_safe_relative_dir(".."));
    assert!(!is_safe_relative_dir("..\\evil"));
    assert!(!is_safe_relative_dir("C:\\Windows"));
    assert!(!is_safe_relative_dir("\\\\server\\share"));
}

#[test]
fn library_paths_are_read_from_a_given_parse() {
    let t = parse_kv(r#""libraryfolders" { "0" { "path" "C:\\Steam" } "1" { "PATH" "D:\\Games" "apps" { } } }"#).unwrap();
    assert_eq!(library_paths_in_tokens(&t), vec!["C:\\Steam".to_string(), "D:\\Games".to_string()]);
}
