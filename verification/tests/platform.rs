use localllm::paths::{is_below, join};
use localllm::platform::{exe_name, exe_name_for, python_command, resolve_llama_binary};

#[test]
fn exe_name_adds_suffix_on_windows_only() {
    let n = exe_name("llama-server");
    if std::path::MAIN_SEPARATOR == '\\' {
        assert_eq!(n, "llama-server.exe");
    } else {
        assert_eq!(n, "llama-server");
    }
    assert_eq!(exe_name_for("llama-server", true), "llama-server.exe");
    assert_eq!(exe_name_for("llama-server", false), "llama-server");
}

#[test]
fn resolve_returns_none_for_missing_dir() {
    let dir = "/definitely/not/a/real/llama/dir";
    assert!(resolve_llama_binary(dir, "llama-server", false, &[]).is_none());
}

#[test]
fn resolve_takes_what_exists() {
    let existing = vec!["/e/build/bin/llama-server".to_string()];
    assert_eq!(
        resolve_llama_binary("/e", "llama-server", false, &existing).as_deref(),
        Some("/e/build/bin/llama-server")
    );
}

#[test]
fn python_command_returns_nonempty() {
    assert!(!python_command(false, &[]).is_empty());
    assert!(!python_command(true, &[]).is_empty());
    assert_eq!(python_command(false, &["python".to_string()]), "python");
}

#[test]
fn paths_join_and_nest() {
    assert_eq!(join("/a", "b", false), "/a/b");
    assert_eq!(join("/a/", "b", false), "/a/b");
    assert_eq!(join("/a", "/b", false), "/b");
    assert_eq!(join("", "b", false), "b");
    assert!(is_below("/a/b", "/a", '/'));
    assert!(is_below("/a", "/a", '/'));
    assert!(!is_below("/ab", "/a", '/'));
    assert!(!is_below("/b", "/a", '/'));
    assert!(is_below("/b", "/", '/'));
}

#[test]
fn paths_join_on_windows() {
    assert_eq!(join("C:\\models", "x", true), "C:\\models\\x");
    assert_eq!(join("C:\\models\\", "x", true), "C:\\models\\x");
    assert_eq!(join("C:/models/", "x", true), "C:/models/x");
    assert_eq!(join("C:\\models", "D:\\x", true), "D:\\x");
    assert_eq!(join("C:\\models", "\\x", true), "C:\\x");
    assert_eq!(join("\\\\server\\share\\m", "/x", true), "\\\\server\\share/x");
    assert_eq!(join("m", "\\\\server\\share", true), "\\\\server\\share");
    assert_eq!(join("\\\\server\\share", "x", true), "\\\\server\\share\\x");
    assert_eq!(join("C:", "x", true), "C:x");
    assert_eq!(join("", "x", true), "x");
    assert_eq!(join("/a", "D:\\x", false), "/a/D:\\x");
    assert!(is_below(&join("C:\\models", "x/y", true), "C:\\models", '\\'));
}

#[test]
fn both_separators_count_where_the_separator_is_a_backslash() {
    assert!(is_below("C:\\models/x", "C:\\models", '\\'));
    assert!(is_below("C:\\models\\x", "C:/models", '\\'));
    assert!(is_below("C:\\models/x", "C:\\models\\x", '\\'));
    assert!(!is_below("C:\\modelsx", "C:/models", '\\'));
    assert!(!is_below("/a\\b", "/a", '/'));
    assert!(!is_below("/a/b", "/a\\b", '/'));
}
