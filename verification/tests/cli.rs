use mxu::cli::{
    any_arg_equals, get_cli_arg_value, get_start_instance, has_help_flag, has_prefix,
    has_quit_after_run_flag, is_autostart,
};

fn args(list: &[&str]) -> Vec<String> {
    list.iter().map(|s| s.to_string()).collect()
}

#[test]
fn instance_value_follows_flag() {
    assert_eq!(get_start_instance(&args(&["mxu", "--autostart", "-i", "daily"])), Some("daily".to_string()));
    assert_eq!(get_start_instance(&args(&["mxu", "--instance", "日常任务"])), Some("日常任务".to_string()));
}

#[test]
fn instance_value_with_equals() {
    assert_eq!(get_start_instance(&args(&["mxu", "--instance=abc"])), Some("abc".to_string()));
    assert_eq!(get_start_instance(&args(&["mxu", "-i=x=y"])), Some("x=y".to_string()));
    assert_eq!(get_start_instance(&args(&["mxu", "-i="])), Some(String::new()));
}

#[test]
fn instance_value_missing_or_dash() {
    assert_eq!(get_start_instance(&args(&["mxu", "-i"])), None);
    assert_eq!(get_start_instance(&args(&["mxu", "-i", "-q", "-i", "x"])), None);
    assert_eq!(get_start_instance(&args(&["mxu"])), None);
    assert_eq!(get_start_instance(&args(&[])), None);
}

#[test]
fn first_occurrence_wins() {
    assert_eq!(get_start_instance(&args(&["mxu", "-i=a", "-i", "b"])), Some("a".to_string()));
    assert_eq!(get_cli_arg_value(&args(&["p", "--mode", "fast"]), "-m", "--mode"), Some("fast".to_string()));
}

#[test]
fn autostart_flag_anywhere() {
    assert!(is_autostart(&args(&["mxu", "--autostart"])));
    assert!(!is_autostart(&args(&["mxu", "--autostart=1"])));
    assert!(is_autostart(&args(&["--autostart"])));
}

#[test]
fn help_flag_skips_program_name() {
    assert!(has_help_flag(&args(&["mxu", "-h"])));
    assert!(has_help_flag(&args(&["mxu", "x", "--help"])));
    assert!(!has_help_flag(&args(&["-h"])));
    assert!(!has_help_flag(&args(&[])));
}

#[test]
fn quit_after_run_flag() {
    assert!(has_quit_after_run_flag(&args(&["mxu", "-q"])));
    assert!(has_quit_after_run_flag(&args(&["mxu", "--quit-after-run"])));
    assert!(!has_quit_after_run_flag(&args(&["mxu", "--quit"])));
}

#[test]
fn prefix_and_equality_helpers() {
    assert!(has_prefix("--instance=a", "--instance="));
    assert!(!has_prefix("-i", "-i="));
    assert!(has_prefix("abc", ""));
    assert!(any_arg_equals(&args(&["a", "b"]), "b"));
    assert!(!any_arg_equals(&args(&["a", "b"]), "c"));
}
