use localllm::cli::style::{clear_line, dim, err, ok, pad_colored, spinner_line, warn};

#[test]
fn styles_wrap_and_reset() {
    assert_eq!(ok("fine"), "\x1b[32mfine\x1b[0m");
    assert_eq!(warn("hm"), "\x1b[33mhm\x1b[0m");
    assert_eq!(err("bad"), "\x1b[31mbad\x1b[0m");
    assert_eq!(dim("aside"), "\x1b[2maside\x1b[0m");
}

#[test]
fn padding_counts_visible_columns() {
    assert_eq!(pad_colored("ab", 2, 5), "ab   ");
    assert_eq!(pad_colored(&ok("ab"), 2, 3), "\x1b[32mab\x1b[0m ");
    assert_eq!(pad_colored("abcdef", 6, 3), "abcdef");
}

#[test]
fn spinner_cycles() {
    assert_eq!(spinner_line("wait", 0), "\r\x1b[2m⠋ wait\x1b[0m");
    assert_eq!(spinner_line("wait", 11), "\r\x1b[2m⠙ wait\x1b[0m");
    assert_eq!(clear_line(), "\r\x1b[K");
}
