use steam_quick_switch::kv::parse_kv;
use steam_quick_switch::vdf::{
    keys_in_tokens, parse_login_users, removal_candidate, removal_check, remove_user_entry,
    top_level_keys, users_in_tokens,
};

const FIRST: &str = "76561190000000001";
const SECOND: &str = "76561190000000002";
const THIRD: &str = "76561190000000003";

/// One account block, shaped exactly like Steam writes it (tab-indented).
/// `persona` is inserted verbatim, so escapes can be passed through as-is.
fn block(steam_id: &str, login: &str, persona: &str, newline: &str) -> String {
    [
        format!("\t\"{steam_id}\""),
        "\t{".to_string(),
        format!("\t\t\"AccountName\"\t\t\"{login}\""),
        format!("\t\t\"PersonaName\"\t\t\"{persona}\""),
        "\t\t\"RememberPassword\"\t\t\"1\"".to_string(),
        "\t\t\"Timestamp\"\t\t\"1780000000\"".to_string(),
        "\t}".to_string(),
    ]
    .iter()
    .map(|line| format!("{line}{newline}"))
    .collect()
}

/// A whole `loginusers.vdf` wrapping the given blocks, in order.
fn users(blocks: &[String], newline: &str) -> String {
    format!("\"users\"{newline}{{{newline}{}}}{newline}", blocks.concat())
}

fn lf_blocks() -> [String; 3] {
    [
        block(FIRST, "first_login", "First", "\n"),
        block(SECOND, "second_login", "Second", "\n"),
        block(THIRD, "third_login", "Third", "\n"),
    ]
}

#[test]
fn removes_only_the_target_entry_byte_for_byte() {
    let [a, b, c] = lf_blocks();
    let content = users(&[a.clone(), b, c.clone()], "\n");
    let updated = remove_user_entry(&content, SECOND).unwrap().unwrap();
    assert_eq!(updated, users(&[a, c], "\n"));
}

#[test]
fn removes_the_first_and_the_last_entry() {
    let [a, b, c] = lf_blocks();
    let content = users(&[a.clone(), b.clone(), c.clone()], "\n");
    assert_eq!(
        remove_user_entry(&content, FIRST).unwrap().unwrap(),
        users(&[b.clone(), c], "\n")
    );
    assert_eq!(
        remove_user_entry(&content, THIRD).unwrap().unwrap(),
        users(&[a, b], "\n")
    );
}

#[test]
fn removing_the_only_entry_leaves_an_empty_list() {
    let [a, _, _] = lf_blocks();
    let content = users(&[a], "\n");
    let updated = remove_user_entry(&content, FIRST).unwrap().unwrap();
    assert_eq!(updated, users(&[], "\n"));
    assert!(top_level_keys(&updated).unwrap().is_empty());
}

#[test]
fn unlisted_account_is_not_an_edit() {
    let content = users(&lf_blocks(), "\n");
    assert_eq!(remove_user_entry(&content, "76561190000000009").unwrap(), None);
}

#[test]
fn escaped_quotes_and_braces_in_names_do_not_confuse_the_scanner() {
    // Persona names are free text; an escaped quote followed by braces would
    // shift the brace depth of a naive scanner and cut the wrong span.
    let tricky = block(FIRST, "first_login", r#"a\"}{\"b {c}"#, "\n");
    let [_, b, c] = lf_blocks();
    let content = users(&[tricky.clone(), b.clone(), c.clone()], "\n");

    assert_eq!(
        remove_user_entry(&content, SECOND).unwrap().unwrap(),
        users(&[tricky, c.clone()], "\n")
    );
    assert_eq!(
        remove_user_entry(&content, FIRST).unwrap().unwrap(),
        users(&[b, c], "\n")
    );
}

#[test]
fn a_nested_string_equal_to_the_id_is_never_cut() {
    // The id appears as a value inside another account, but not as a
    // top-level key: nothing may be removed.
    let decoy = block(FIRST, SECOND, "Decoy", "\n");
    let content = users(&[decoy], "\n");
    assert_eq!(remove_user_entry(&content, SECOND).unwrap(), None);
}

#[test]
fn crlf_line_endings_are_preserved() {
    let a = block(FIRST, "first_login", "First", "\r\n");
    let b = block(SECOND, "second_login", "Second", "\r\n");
    let c = block(THIRD, "third_login", "Third", "\r\n");
    let content = users(&[a.clone(), b, c.clone()], "\r\n");
    let updated = remove_user_entry(&content, SECOND).unwrap().unwrap();
    assert_eq!(updated, users(&[a, c], "\r\n"));
}

#[test]
fn unparsable_file_is_an_error_and_never_edited() {
    assert!(remove_user_entry("this is not KeyValues {{{", FIRST).is_err());
}

#[test]
fn unparsable_file_error_names_the_file() {
    let err = remove_user_entry("this is not KeyValues {{{", FIRST).unwrap_err();
    assert!(err.starts_with("failed to parse loginusers.vdf: "));
}

#[test]
fn root_that_is_not_an_object_is_an_error() {
    assert_eq!(
        top_level_keys("\"users\" \"nothing\"").unwrap_err(),
        "loginusers.vdf root is not an object"
    );
    assert_eq!(
        remove_user_entry("\"users\" \"nothing\"", FIRST).unwrap_err(),
        "loginusers.vdf root is not an object"
    );
}

#[test]
fn entry_on_a_shared_line_is_cut_exactly() {
    let content = format!("\"users\" {{ \"{FIRST}\" {{ \"AccountName\" \"a\" }} \"{SECOND}\" {{ \"AccountName\" \"b\" }} }}");
    let updated = remove_user_entry(&content, FIRST).unwrap().unwrap();
    assert_eq!(
        updated,
        format!("\"users\" {{  \"{SECOND}\" {{ \"AccountName\" \"b\" }} }}")
    );
}

#[test]
fn comments_are_skipped_by_the_scanner() {
    let content = format!(
        "\"users\"\n{{\n// \"{SECOND}\" {{ }}\n{}{}}}\n",
        block(FIRST, "first_login", "First", "\n"),
        block(SECOND, "second_login", "Second", "\n")
    );
    let updated = remove_user_entry(&content, SECOND).unwrap().unwrap();
    assert_eq!(
        updated,
        format!(
            "\"users\"\n{{\n// \"{SECOND}\" {{ }}\n{}}}\n",
            block(FIRST, "first_login", "First", "\n")
        )
    );
}

#[test]
fn top_level_keys_lists_every_account() {
    let content = users(&lf_blocks(), "\n");
    let keys = top_level_keys(&content).unwrap();
    assert_eq!(keys, vec![FIRST.to_string(), SECOND.to_string(), THIRD.to_string()]);
}

#[test]
fn parse_login_users_reads_every_field() {
    let content = users(&lf_blocks(), "\n");
    let users = parse_login_users(&content).unwrap();
    assert_eq!(users.len(), 3);
    assert_eq!(users[0].steam_id64, FIRST);
    assert_eq!(users[0].account_name, "first_login");
    assert_eq!(users[0].persona_name, "First");
    assert!(users[0].remember_password);
    assert!(!users[0].most_recent);
    assert_eq!(users[0].timestamp, 1780000000);
    assert_eq!(users[2].account_name, "third_login");
}

#[test]
fn parse_login_users_fields_are_case_insensitive_and_defaulted() {
    let content = "\"users\"\n{\n\t\"1\"\n\t{\n\t\t\"accountname\"\t\"x\"\n\t\t\"MOSTRECENT\"\t\"1\"\n\t\t\"Timestamp\"\t\"not a number\"\n\t}\n\t\"2\"\t\"not an object\"\n}\n";
    let users = parse_login_users(content).unwrap();
    assert_eq!(users.len(), 1);
    assert_eq!(users[0].steam_id64, "1");
    assert_eq!(users[0].account_name, "x");
    assert_eq!(users[0].persona_name, "");
    assert!(users[0].most_recent);
    assert!(!users[0].remember_password);
    assert_eq!(users[0].timestamp, 0);
}

#[test]
fn parse_login_users_rejects_unparsable_text() {
    let err = parse_login_users("this is not KeyValues {{{").unwrap_err();
    assert!(err.starts_with("failed to parse loginusers.vdf: "));
}

#[test]
fn removal_halves_work_on_given_parses() {
    let [a, b, c] = lf_blocks();
    let content = users(&[a.clone(), b, c.clone()], "\n");
    let before = parse_kv(&content).unwrap();
    assert_eq!(keys_in_tokens(&before).unwrap().len(), 3);
    assert_eq!(users_in_tokens(&before).unwrap().len(), 3);
    let cut = removal_candidate(&content, SECOND, &before).unwrap().unwrap();
    assert_eq!(cut, users(&[a.clone(), c.clone()], "\n"));
    let after = parse_kv(&cut).unwrap();
    assert!(removal_check(&before, SECOND, &after).is_ok());
    // Claiming that the untouched file is the result is caught.
    assert_eq!(
        removal_check(&before, SECOND, &before).unwrap_err(),
        "removing the account would corrupt loginusers.vdf"
    );
    assert_eq!(removal_candidate(&content, "9", &before).unwrap(), None);
}
