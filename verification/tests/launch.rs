use ishi::launch::{
    continue_launcher_name, continue_launcher_script, new_thread_id, new_thread_launcher_name,
    new_thread_launcher_script, prompt_file_name, shell_word, terminal_app, workspace_options,
};

#[test]
fn shell_words_follow_posix_quoting() {
    assert_eq!(
        shell_word("abcdefghijklmnopqrstuvwxyzABCDEFGHIJKLMNOPQRSTUVWXYZ0123456789-_=/,.+"),
        "abcdefghijklmnopqrstuvwxyzABCDEFGHIJKLMNOPQRSTUVWXYZ0123456789-_=/,.+"
    );
    assert_eq!(shell_word("linker=gcc -L/foo -Wl,bar"), "'linker=gcc -L/foo -Wl,bar'");
    assert_eq!(shell_word("it's!"), "'it'\\''s'\\!''");
    assert_eq!(shell_word(""), "''");
}

#[test]
fn continue_script_text() {
    let s = continue_launcher_script("/my ws", "T-1", "/tmp/T-1.launch.sh");
    assert_eq!(
        s,
        "#!/usr/bin/env bash\ncd '/my ws' || exit 1\namp threads continue T-1\nrm -f /tmp/T-1.launch.sh\n"
    );
}

#[test]
fn new_thread_script_text() {
    let s = new_thread_launcher_script("/ws", "/tmp/T-9.prompt", "T-9", "/tmp/T-9.sh");
    assert_eq!(
        s,
        "#!/usr/bin/env bash\ncd /ws || exit 1\ncat /tmp/T-9.prompt | amp threads continue T-9\nrm -f /tmp/T-9.prompt /tmp/T-9.sh\n"
    );
}

#[test]
fn detect_terminal_defaults_to_terminal() {
    assert_eq!(terminal_app(None), "Terminal");
    assert_eq!(terminal_app(Some("vscode")), "Terminal");
    assert_eq!(terminal_app(Some("iTerm.app")), "iTerm");
    assert_eq!(terminal_app(Some("ghostty")), "Ghostty");
    assert_eq!(terminal_app(Some("kitty")), "kitty");
    assert!(!terminal_app(None).is_empty());
}

#[test]
fn workspace_options_put_current_directory_first() {
    let history = vec!["/a".to_string(), "/here".to_string(), "/b".to_string()];
    assert_eq!(workspace_options(&history, Some("/here")), vec!["/here", "/a", "/b"]);
    assert_eq!(workspace_options(&history, Some("/new")), vec!["/new", "/a", "/here", "/b"]);
    assert_eq!(workspace_options(&history, None), history);
}

#[test]
fn new_thread_ids_are_trimmed() {
    assert_eq!(new_thread_id("  T-123\n"), Some("T-123".to_string()));
    assert_eq!(new_thread_id(" \n"), None);
}

#[test]
fn launcher_file_names() {
    assert_eq!(continue_launcher_name("T-1"), "T-1.launch.sh");
    assert_eq!(prompt_file_name("T-1"), "T-1.prompt");
    assert_eq!(new_thread_launcher_name("T-1"), "T-1.sh");
}
