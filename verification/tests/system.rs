use mxu::system::{
    app_data_dir_plan, build_launch_command, check_vcredist_missing, get_system_info, get_web_server_port_step,
    get_webview2_dir, is_process_dir_name, open_file_command, set_vcredist_missing, PortPoll, TargetOs,
    VcredistFlag, MAX_PORT_WAITS, PORT_WAIT_MS,
};

fn strings(list: &[&str]) -> Vec<String> {
    list.iter().map(|s| s.to_string()).collect()
}

#[test]
fn vcredist_flag_reports_once() {
    let mut flag = VcredistFlag::new();
    assert!(!check_vcredist_missing(&mut flag));
    set_vcredist_missing(&mut flag, true);
    assert!(check_vcredist_missing(&mut flag));
    assert!(!check_vcredist_missing(&mut flag));
    set_vcredist_missing(&mut flag, true);
    set_vcredist_missing(&mut flag, false);
    assert!(!check_vcredist_missing(&mut flag));
}

#[test]
fn webview2_dir_choices() {
    let configured = get_webview2_dir(Some("D:\\wv2".to_string()));
    assert_eq!(configured.path, "D:\\wv2");
    assert!(!configured.system);
    let system = get_webview2_dir(None);
    assert_eq!(system.path, "");
    assert!(system.system);
}

#[test]
fn system_info_joins_type_and_version() {
    let info = get_system_info("linux".into(), "Ubuntu", "22.04", "x86_64".into(), "2.1.0".into());
    assert_eq!(info.os, "linux");
    assert_eq!(info.os_version, "Ubuntu 22.04");
    assert_eq!(info.arch, "x86_64");
    assert_eq!(info.tauri_version, "2.1.0");
}

#[test]
fn launch_through_cmd_on_windows() {
    let plan = build_launch_command(true, "run.bat", &strings(&["a", "b"]), true);
    assert_eq!(plan.program, "cmd.exe");
    assert_eq!(plan.args, strings(&["/c", "run.bat", "a", "b"]));
    assert!(plan.hide_window);
}

#[test]
fn launch_directly_otherwise() {
    let plan = build_launch_command(false, "run.sh", &strings(&["a"]), true);
    assert_eq!(plan.program, "run.sh");
    assert_eq!(plan.args, strings(&["a"]));
    assert!(!plan.hide_window);
    let plan = build_launch_command(true, "tool.exe", &strings(&[]), false);
    assert_eq!(plan.program, "tool.exe");
    assert!(plan.args.is_empty());
    assert!(!plan.hide_window);
}

#[test]
fn open_file_per_platform() {
    let w = open_file_command(TargetOs::Windows, "a b.txt").unwrap();
    assert_eq!(w.program, "cmd");
    assert_eq!(w.args, strings(&["/c", "start", "", "a b.txt"]));
    assert!(w.hide_window);
    let m = open_file_command(TargetOs::MacOs, "f").unwrap();
    assert_eq!((m.program.as_str(), m.args.clone()), ("open", strings(&["f"])));
    let l = open_file_command(TargetOs::Linux, "f").unwrap();
    assert_eq!((l.program.as_str(), l.args.clone()), ("xdg-open", strings(&["f"])));
    assert!(open_file_command(TargetOs::Other, "f").is_none());
}

#[test]
fn data_dir_on_windows() {
    let p = app_data_dir_plan(TargetOs::Windows, Some("C:\\Users\\u\\AppData\\Roaming".into()), None, None).unwrap();
    assert_eq!(p.base, "C:\\Users\\u\\AppData\\Roaming");
    assert_eq!(p.children, strings(&["KKAFIO"]));
    let e = app_data_dir_plan(TargetOs::Windows, None, Some("/home/u".into()), None).unwrap_err();
    assert_eq!(e, "Cannot read APPDATA environment variable");
}

#[test]
fn data_dir_on_macos() {
    let p = app_data_dir_plan(TargetOs::MacOs, None, Some("/Users/u".into()), None).unwrap();
    assert_eq!(p.base, "/Users/u");
    assert_eq!(p.children, strings(&["Library", "Application Support", "KKAFIO"]));
    let e = app_data_dir_plan(TargetOs::MacOs, None, None, None).unwrap_err();
    assert_eq!(e, "Cannot read HOME environment variable");
}

#[test]
fn data_dir_on_linux() {
    let p = app_data_dir_plan(TargetOs::Linux, None, Some("/home/u".into()), Some("/cfg".into())).unwrap();
    assert_eq!(p.base, "/cfg");
    assert_eq!(p.children, strings(&["KKAFIO"]));
    let p = app_data_dir_plan(TargetOs::Linux, None, Some("/home/u".into()), None).unwrap();
    assert_eq!(p.base, "/home/u/.config");
    let p = app_data_dir_plan(TargetOs::Linux, None, None, None).unwrap();
    assert_eq!(p.base, "./.config");
}

#[test]
fn proc_entry_names() {
    assert!(is_process_dir_name("1234"));
    assert!(is_process_dir_name(""));
    assert!(!is_process_dir_name("self"));
    assert!(!is_process_dir_name("12a"));
    assert!(!is_process_dir_name("１２"));
}

#[test]
fn port_poll_steps() {
    assert_eq!(MAX_PORT_WAITS, 50);
    assert_eq!(PORT_WAIT_MS, 100);
    assert_eq!(get_web_server_port_step(0, 8080), PortPoll::Answer(8080));
    assert_eq!(get_web_server_port_step(0, 0), PortPoll::WaitAndRead(1));
    assert_eq!(get_web_server_port_step(49, 0), PortPoll::WaitAndRead(50));
    assert_eq!(get_web_server_port_step(50, 0), PortPoll::Answer(0));
    assert_eq!(get_web_server_port_step(50, 7), PortPoll::Answer(7));
}

#[test]
fn port_poll_gives_up_after_fifty_waits() {
    let mut waits = 0;
    let mut reads = 0;
    let answer = loop {
        reads += 1;
        match get_web_server_port_step(waits, 0) {
            PortPoll::Answer(p) => break p,
            PortPoll::WaitAndRead(next) => waits = next,
        }
    };
    assert_eq!(answer, 0);
    assert_eq!(reads, 51);
}
