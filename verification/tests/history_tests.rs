use ghosttype::history::{
    hash_command, history_entry, history_lines, import_shell_history_to_db, load_history_lines,
    persist_command_to_history, unique_lines,
};

fn lines(items: &[&str]) -> Vec<String> {
    items.iter().map(|s| s.to_string()).collect()
}

#[test]
fn repeats_are_dropped_and_order_is_kept() {
    let input = lines(&["git status", "ls", "git status", "cd ..", "ls", "ls"]);
    assert_eq!(unique_lines(input.clone()), lines(&["git status", "ls", "cd .."]));
    assert_eq!(load_history_lines(input.clone(), true), lines(&["git status", "ls", "cd .."]));
    assert_eq!(load_history_lines(input.clone(), false), input);
    assert!(unique_lines(Vec::new()).is_empty());
}

#[test]
fn file_text_is_split_into_lines() {
    assert_eq!(history_lines("git status\r\nls -la\n\ncd ..\n"), lines(&["git status", "ls -la", "", "cd .."]));
    assert!(history_lines("").is_empty());
    let entry = history_entry("make".to_string(), "one\ntwo\n");
    assert_eq!(entry.cmd, "make");
    assert_eq!(entry.output_lines, lines(&["one", "two"]));
}

#[test]
fn commands_are_keyed_by_their_sha256_in_hex() {
    assert_eq!(
        hash_command("git status"),
        "e62b04aadf39df1a47b771265e4ae5c452df3f1903d5c263ab00f088e86102f6"
    );
    assert_eq!(
        hash_command(""),
        "e3b0c44298fc1c149afbf4c8996fb92427ae41e4649b934ca495991b7852b855"
    );
    assert_ne!(hash_command("git status"), "git status");
}

#[test]
fn blank_commands_are_not_stored() {
    assert!(persist_command_to_history("").is_none());
    assert!(persist_command_to_history(" \t\n").is_none());
    let record = persist_command_to_history("  ls -la \n").unwrap();
    assert_eq!(record.command, "ls -la");
    assert_eq!(record.hash, "1de700c29687cae34561545f50d3c8b3d9afe88e04cc11069f8a6dc6e4ce9464");
}

#[test]
fn shell_history_is_prepared_for_import() {
    let records = import_shell_history_to_db(lines(&["git status", "", "  ", "git status", " ls -la"]));
    assert_eq!(records.len(), 2);
    assert_eq!(records[0].command, "git status");
    assert_eq!(records[0].hash, hash_command("git status"));
    assert_eq!(records[1].command, "ls -la");
}
