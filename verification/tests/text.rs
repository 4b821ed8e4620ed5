use mxu::text::{build_user_agent, get_cli_help_text, split_lines, stdout_log_lines};

fn std_lines(s: &str) -> Vec<String> {
    s.lines().map(|l| l.to_string()).collect()
}

#[test]
fn split_lines_matches_std_lines() {
    for s in ["", "a", "a\n", "a\r\nb", "a\rb", "a\r", "\n\n", "x\n\ny\r\n", "日本\r\n語", "\r\n"] {
        assert_eq!(split_lines(s), std_lines(s), "input {:?}", s);
    }
}

#[test]
fn split_lines_examples() {
    assert_eq!(split_lines("a\r\nb\n"), vec!["a".to_string(), "b".to_string()]);
    assert_eq!(split_lines("a\rb"), vec!["a\rb".to_string()]);
    assert!(split_lines("").is_empty());
}

#[test]
fn stdout_lines_are_prefixed() {
    assert_eq!(
        stdout_log_lines("2024-01-01 10:00:00.000", "one\ntwo"),
        vec![
            "[2024-01-01 10:00:00.000] one".to_string(),
            "[2024-01-01 10:00:00.000] two".to_string()
        ]
    );
    assert!(stdout_log_lines("t", "").is_empty());
}

#[test]
fn user_agent_format() {
    assert_eq!(build_user_agent("1.2.3", "linux", "x86_64", "2.0.0"), "MXU/1.2.3 (linux; x86_64) Tauri/2.0.0");
}

#[test]
fn help_text_uses_exe_name() {
    let text = get_cli_help_text(Some("mxu.exe".to_string()));
    assert!(text.starts_with("MXU 命令行参数\n\n用法:\n  mxu.exe [参数]\n"));
    assert!(text.contains("\n  mxu.exe --autostart --instance \"日常任务\"\n"));
    assert!(text.ends_with("  mxu.exe --autostart -i \"日常任务\" --quit-after-run\n"));
    assert!(text.contains("  -q, --quit-after-run\n      当本次启动实际触发自动执行后，在任务完成时自动退出\n"));
}

#[test]
fn help_text_falls_back_to_mxu() {
    let none = get_cli_help_text(None);
    let empty = get_cli_help_text(Some(String::new()));
    assert_eq!(none, empty);
    assert!(none.contains("\n  mxu [参数]\n"));
    assert_eq!(none.matches("mxu --autostart").count(), 2);
}

#[test]
fn final_line_ending_is_optional() {
    assert_eq!(split_lines("abc\n"), split_lines("abc"));
    assert_eq!(split_lines("x\nabc\r\n"), split_lines("x\nabc"));
    assert_eq!(split_lines("\n"), vec![String::new()]);
    assert!(split_lines("").is_empty());
}

#[test]
fn lines_never_hold_line_feeds() {
    for line in split_lines("a\n\nb\r\nc\rd\n") {
        assert!(!line.contains('\n'));
    }
}
