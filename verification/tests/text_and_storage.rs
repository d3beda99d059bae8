use taskcli::sync::{
    config_base, config_dir_name, home_config_subdir, token_file_name, ConfigBase, ConfigError,
    get_token, keychain_entry, parse_task_ids, save_token, task_ids_content, task_ids_file_name,
    KeychainError,
};
use taskcli::text::{i32_to_decimal, join_strings, pad_right_str, split_lines, trim_str};

fn strings(v: &[&str]) -> Vec<String> {
    v.iter().map(|s| s.to_string()).collect()
}

#[test]
fn trim_removes_unicode_white_space_at_both_ends() {
    assert_eq!(trim_str("  token \n"), "token");
    assert_eq!(trim_str("\u{3000}\u{a0}a b\t\r"), "a b");
    assert_eq!(trim_str("   "), "");
    assert_eq!(trim_str(""), "");
    assert_eq!(trim_str("x"), "x");
    for s in ["  token \n", "\u{2028}y\u{85}", " \u{200b}z "] {
        assert_eq!(trim_str(s), s.trim());
    }
}

#[test]
fn split_lines_matches_std_lines() {
    for s in ["", "a", "a\n", "a\nb", "a\r\nb\r\n", "\n\na", "foo\r\nbar\n\nbaz\r", "\r", "x\r\r\n"] {
        let expected: Vec<String> = s.lines().map(str::to_owned).collect();
        assert_eq!(split_lines(s), expected, "input {:?}", s);
    }
}

#[test]
fn join_puts_separator_between_parts() {
    assert_eq!(join_strings(&strings(&[]), " & "), "");
    assert_eq!(join_strings(&strings(&["a"]), " & "), "a");
    assert_eq!(join_strings(&strings(&["a", "b", "c"]), " & "), "a & b & c");
}

#[test]
fn pad_right_pads_to_width_in_characters() {
    assert_eq!(pad_right_str("ab", 5), "ab   ");
    assert_eq!(pad_right_str("abcdef", 3), "abcdef");
    assert_eq!(pad_right_str("Tod\u{23F0}", 6), format!("{:<6}", "Tod\u{23F0}"));
}

#[test]
fn decimal_matches_to_string() {
    for n in [0, 7, 10, 25, -1, -250, i32::MAX, i32::MIN] {
        assert_eq!(i32_to_decimal(n), n.to_string());
    }
}

#[test]
fn task_ids_round_trip_through_file_text() {
    let ids = strings(&["6X7rM8997g3RQmvh", "6X7rfFVPjhvv84XG", "", "abc"]);
    let text = task_ids_content(&ids);
    assert_eq!(text, "6X7rM8997g3RQmvh\n6X7rfFVPjhvv84XG\n\nabc");
    assert_eq!(parse_task_ids(&text), ids);
    assert_eq!(parse_task_ids(&task_ids_content(&Vec::new())), Vec::<String>::new());
}

#[test]
fn task_ids_with_empty_last_do_not_round_trip() {
    let ids = strings(&["a", ""]);
    assert_eq!(parse_task_ids(&task_ids_content(&ids)), strings(&["a"]));
}

#[test]
fn task_ids_file_lines_drop_carriage_returns() {
    assert_eq!(parse_task_ids("a\r\nb\r\n"), strings(&["a", "b"]));
    assert_eq!(task_ids_file_name(), "task_ids.txt");
}

#[test]
fn token_is_saved_as_given_and_read_trimmed() {
    let w = save_token(" secret\n");
    assert_eq!(w.entry.service, "todo-cli");
    assert_eq!(w.entry.account, "todoist-api-token");
    assert_eq!(w.password, " secret\n");
    let read = get_token(Ok(w.password.clone())).unwrap();
    assert_eq!(read, "secret");
    let entry = keychain_entry();
    assert_eq!((entry.service.as_str(), entry.account.as_str()), ("todo-cli", "todoist-api-token"));
}

#[test]
fn token_errors_pass_through() {
    match get_token(Err(KeychainError::ReadFailed { cause: String::from("locked") })) {
        Err(KeychainError::ReadFailed { cause }) => assert_eq!(cause, "locked"),
        other => panic!("unexpected {:?}", other),
    }
}

#[test]
fn listed_index_resolves_before_an_unstorable_tail() {
    let ids = strings(&["a", ""]);
    let back = parse_task_ids(&task_ids_content(&ids));
    assert_eq!(back[0], "a");
    let cr_last = strings(&["a", "b\r"]);
    assert_eq!(parse_task_ids(&task_ids_content(&cr_last)), cr_last);
    let cr_before = strings(&["a\r", "b"]);
    let back = parse_task_ids(&task_ids_content(&cr_before));
    assert_eq!(back[1], "b");
    assert_eq!(back[0], "a");
    let newline_after = strings(&["x", "y\nz"]);
    assert_eq!(parse_task_ids(&task_ids_content(&newline_after))[0], "x");
}

#[test]
fn config_base_prefers_xdg_then_home() {
    assert_eq!(config_base(true, true), Ok(ConfigBase::XdgConfigHome));
    assert_eq!(config_base(true, false), Ok(ConfigBase::XdgConfigHome));
    assert_eq!(config_base(false, true), Ok(ConfigBase::HomeDotConfig));
    assert_eq!(config_base(false, false), Err(ConfigError::HomeNotSet));
    assert_eq!((home_config_subdir(), config_dir_name(), token_file_name()), (".config", "todoist", "auth.txt"));
}

#[test]
fn storage_messages() {
    assert_eq!(ConfigError::HomeNotSet.message(), "HOME is not set");
    assert_eq!(
        KeychainError::ReadFailed { cause: String::from("x") }.message(),
        "failed to read token from OS keychain"
    );
    assert_eq!(
        KeychainError::WriteFailed { cause: String::from("x") }.message(),
        "failed to save token in OS keychain"
    );
    assert_eq!(KeychainError::EntryUnavailable { cause: String::from("no backend") }.message(), "no backend");
    assert_eq!(taskcli::sync::token_saved_message(), "Successfully saved token.");
}
