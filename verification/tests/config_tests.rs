use sra_core::config::{
    config_name_of_file, create_default_config, create_new_config, default_config_content,
    escape_unicode_chars, json_escape_string, retain_other_names,
};

#[test]
fn ascii_text_passes_through_unchanged() {
    assert_eq!(escape_unicode_chars("plain ASCII 123 {}"), "plain ASCII 123 {}");
    assert_eq!(escape_unicode_chars(""), "");
}

#[test]
fn non_ascii_becomes_u_escapes() {
    assert_eq!(escape_unicode_chars("中"), "\\u4e2d");
    assert_eq!(escape_unicode_chars("当前配置: Default"), "\\u5f53\\u524d\\u914d\\u7f6e: Default");
    // A scalar below 0x1000 is padded to four digits; one above keeps all
    // its digits.
    assert_eq!(escape_unicode_chars("é"), "\\u00e9");
    assert_eq!(escape_unicode_chars("\u{10348}"), "\\u10348");
}

#[test]
fn json_string_escapes_match_the_serializer() {
    assert_eq!(json_escape_string("plain"), "plain");
    assert_eq!(json_escape_string("a\"b\\c"), "a\\\"b\\\\c");
    assert_eq!(json_escape_string("tab\there"), "tab\\there");
    assert_eq!(json_escape_string("line\nbreak\r"), "line\\nbreak\\r");
    assert_eq!(json_escape_string("\u{08}\u{0C}"), "\\b\\f");
    assert_eq!(json_escape_string("\u{01}\u{1f}"), "\\u0001\\u001f");
}

#[test]
fn default_config_is_valid_json_with_defaults() {
    let content = create_default_config();
    let value: serde_json::Value = serde_json::from_str(&content).expect("content parses");
    assert_eq!(value["Name"], "Default");
    assert_eq!(value["Version"], 3);
    assert_eq!(value["AfterExitApp"], false);
    assert_eq!(value["EnabledTasks"].as_array().unwrap().len(), 5);
    assert_eq!(value["ReceiveRewards"].as_array().unwrap().len(), 7);
    assert_eq!(value["TrailblazePowerTaskList"].as_array().unwrap().len(), 0);
    assert_eq!(value["StartGamePassword"], "");
    assert_eq!(value["SimulatedUniverseMode"], 0);
}

#[test]
fn default_config_text_matches_the_pretty_serializer() {
    // For an ASCII name the escaping is the identity, so the content must
    // agree byte for byte with serde_json's own pretty form of it.
    let content = create_new_config("Test".to_string());
    let value: serde_json::Value = serde_json::from_str(&content).expect("content parses");
    assert_eq!(serde_json::to_string_pretty(&value).unwrap(), content);
    assert_eq!(value["Name"], "Test");
}

#[test]
fn config_name_is_escaped_into_the_content() {
    let content = default_config_content("测试");
    assert!(content.contains("\"Name\": \"\\u6d4b\\u8bd5\""), "content: {content}");
    let quoted = default_config_content("a\"b");
    assert!(quoted.contains("\"Name\": \"a\\\"b\""), "content: {quoted}");
}

#[test]
fn config_names_come_from_json_files_only() {
    assert_eq!(config_name_of_file("Default.json"), Some("Default".to_string()));
    assert_eq!(config_name_of_file("a.b.json"), Some("a.b".to_string()));
    assert_eq!(config_name_of_file("notes.txt"), None);
    assert_eq!(config_name_of_file(".json"), None);
    assert_eq!(config_name_of_file("json"), None);
}

#[test]
fn deleted_name_leaves_the_task_order() {
    let order = vec![
        "Default".to_string(),
        "Daily".to_string(),
        "Default".to_string(),
        "Weekly".to_string(),
    ];
    let kept = retain_other_names(order, "Default");
    assert_eq!(kept, ["Daily", "Weekly"]);
}
