//! Decisions behind the system commands: the VC++ runtime flag, which
//! program a command launches, where the data directory lies, which `/proc`
//! entries are processes, and how long to wait for the web server's port.
//! The caller reads the environment and performs the I/O.

use crate::text::views;
use crate::types::{SystemInfo, WebView2DirInfo};
use vstd::prelude::*;
use vstd::string::*;

verus! {

broadcast use vstd::string::group_string_axioms;

// ---------------------------------------------------------------------------
// The VC++ runtime flag
// ---------------------------------------------------------------------------

/// Whether a missing VC++ runtime was detected and not yet reported.
pub struct VcredistFlag {
    missing: bool,
}

impl View for VcredistFlag {
    type V = bool;

    closed spec fn view(&self) -> bool {
        self.missing
    }
}

impl VcredistFlag {
    /// A flag with nothing detected.
    pub fn new() -> (r: Self)
        ensures
            r@ == false,
    {
        VcredistFlag { missing: false }
    }
}

/// What reading the flag gives: the value it held, and the flag after the
/// read, which is always clear.
pub open spec fn check_outcome(held: bool) -> (bool, bool) {
    (held, false)
}

/// Records whether the VC++ runtime seems to be missing.
pub fn set_vcredist_missing(flag: &mut VcredistFlag, missing: bool)
    ensures
        final(flag)@ == missing,
{
    flag.missing = missing;
}

/// Reports whether a missing VC++ runtime was detected, and clears the flag.
pub fn check_vcredist_missing(flag: &mut VcredistFlag) -> (r: bool)
    ensures
        (r, final(flag)@) == check_outcome(old(flag)@),
{
    let missing = flag.missing;
    flag.missing = false;
    missing
}

/// A check right after the flag was set reports what was set; a second
/// check reports nothing.
pub proof fn law_check_reports_once(missing: bool)
    ensures
        check_outcome(missing).0 == missing,
        check_outcome(check_outcome(missing).1).0 == false,
{
}

// ---------------------------------------------------------------------------
// Small records
// ---------------------------------------------------------------------------

/// The WebView2 directory: the configured browser folder when the variable
/// `WEBVIEW2_BROWSER_EXECUTABLE_FOLDER` is set, else the system runtime.
pub fn get_webview2_dir(browser_folder: Option<String>) -> (r: WebView2DirInfo)
    ensures
        match browser_folder {
            Some(f) => r.path@ == f@ && !r.system,
            None => r.path@.len() == 0 && r.system,
        },
{
    match browser_folder {
        Some(folder) => WebView2DirInfo { path: folder, system: false },
        None => WebView2DirInfo { path: String::new(), system: true },
    }
}

/// System information; the OS version reads `<os type> <version>`.
pub fn get_system_info(
    os: String,
    os_type: &str,
    version: &str,
    arch: String,
    tauri_version: String,
) -> (r: SystemInfo)
    ensures
        r.os@ == os@,
        r.os_version@ == os_type@ + " "@ + version@,
        r.arch@ == arch@,
        r.tauri_version@ == tauri_version@,
{
    let mut os_version = String::new();
    os_version.append(os_type);
    os_version.append(" ");
    os_version.append(version);
    assert(os_version@ =~= os_type@ + " "@ + version@);
    SystemInfo { os, os_version, arch, tauri_version }
}

// ---------------------------------------------------------------------------
// Launching programs
// ---------------------------------------------------------------------------

/// The operating system the program was built for.
#[derive(Debug, Clone, Copy, PartialEq, Eq, Structural)]
pub enum TargetOs {
    Windows,
    MacOs,
    Linux,
    Other,
}

/// A program to start: its name or path, its arguments, and whether it must
/// run without a console window (a Windows creation flag).
#[derive(Debug)]
pub struct LaunchPlan {
    pub program: String,
    pub args: Vec<String>,
    pub hide_window: bool,
}

/// Copies a list of strings.
fn copy_strings(v: &Vec<String>) -> (r: Vec<String>)
    ensures
        views(r@) == views(v@),
{
    let mut r: Vec<String> = Vec::new();
    let n = v.len();
    for i in 0..n
        invariant
            n == v@.len(),
            r@.len() == i,
            forall|j: int| 0 <= j < i ==> #[trigger] r@[j]@ == v@[j]@,
    {
        r.push(v[i].clone());
    }
    assert(views(r@) =~= views(v@));
    r
}

/// How a program is started: through `cmd.exe /c` when asked for on
/// Windows (then without a console window), else directly.
pub fn build_launch_command(
    on_windows: bool,
    program: &str,
    args: &Vec<String>,
    use_cmd: bool,
) -> (r: LaunchPlan)
    ensures
        on_windows && use_cmd ==> {
            &&& r.program@ == "cmd.exe"@
            &&& views(r.args@) == seq!["/c"@, program@] + views(args@)
            &&& r.hide_window
        },
        !(on_windows && use_cmd) ==> {
            &&& r.program@ == program@
            &&& views(r.args@) == views(args@)
            &&& !r.hide_window
        },
{
    if on_windows && use_cmd {
        let mut all: Vec<String> = Vec::new();
        all.push("/c".to_owned());
        all.push(program.to_owned());
        let n = args.len();
        for i in 0..n
            invariant
                n == args@.len(),
                all@.len() == i + 2,
                all@[0]@ == "/c"@,
                all@[1]@ == program@,
                forall|j: int| 0 <= j < i ==> #[trigger] all@[j + 2]@ == args@[j]@,
        {
            all.push(args[i].clone());
        }
        assert forall|j: int| 0 <= j < all@.len() implies #[trigger] views(all@)[j] == (seq![
            "/c"@,
            program@,
        ] + views(args@))[j] by {
            if j >= 2 {
                assert(all@[(j - 2) + 2]@ == args@[j - 2]@);
            }
        }
        assert(views(all@) =~= seq!["/c"@, program@] + views(args@));
        LaunchPlan { program: "cmd.exe".to_owned(), args: all, hide_window: true }
    } else {
        LaunchPlan { program: program.to_owned(), args: copy_strings(args), hide_window: false }
    }
}

/// How a file is opened with the system's default program: `cmd /c start ""
/// <file>` without a console window on Windows, `open` on macOS, `xdg-open`
/// on Linux; elsewhere nothing is started.
pub fn open_file_command(os: TargetOs, file_path: &str) -> (r: Option<LaunchPlan>)
    ensures
        os == TargetOs::Windows ==> (r matches Some(p) && p.program@ == "cmd"@ && views(p.args@)
            == seq!["/c"@, "start"@, ""@, file_path@] && p.hide_window),
        os == TargetOs::MacOs ==> (r matches Some(p) && p.program@ == "open"@ && views(p.args@)
            == seq![file_path@] && !p.hide_window),
        os == TargetOs::Linux ==> (r matches Some(p) && p.program@ == "xdg-open"@ && views(
            p.args@,
        ) == seq![file_path@] && !p.hide_window),
        os == TargetOs::Other ==> r is None,
{
    match os {
        TargetOs::Windows => {
            let mut args: Vec<String> = Vec::new();
            args.push("/c".to_owned());
            args.push("start".to_owned());
            args.push("".to_owned());
            args.push(file_path.to_owned());
            assert(views(args@) =~= seq!["/c"@, "start"@, ""@, file_path@]);
            Some(LaunchPlan { program: "cmd".to_owned(), args, hide_window: true })
        },
        TargetOs::MacOs => {
            let mut args: Vec<String> = Vec::new();
            args.push(file_path.to_owned());
            assert(views(args@) =~= seq![file_path@]);
            Some(LaunchPlan { program: "open".to_owned(), args, hide_window: false })
        },
        TargetOs::Linux => {
            let mut args: Vec<String> = Vec::new();
            args.push(file_path.to_owned());
            assert(views(args@) =~= seq![file_path@]);
            Some(LaunchPlan { program: "xdg-open".to_owned(), args, hide_window: false })
        },
        TargetOs::Other => None,
    }
}

// ---------------------------------------------------------------------------
// The application data directory
// ---------------------------------------------------------------------------

/// A directory given as a base path and the names to join below it.
#[derive(Debug)]
pub struct DirPlan {
    pub base: String,
    pub children: Vec<String>,
}

/// The Linux configuration directory: `$XDG_CONFIG_HOME`, else
/// `$HOME/.config`, else `./.config`.
pub open spec fn linux_config_home(xdg_config_home: Option<String>, home: Option<String>) -> Seq<
    char,
> {
    match xdg_config_home {
        Some(x) => x@,
        None => match home {
            Some(h) => h@ + "/.config"@,
            None => "."@ + "/.config"@,
        },
    }
}

/// Where the application data lies, from the environment variables that
/// were read (`None` when unset or unreadable):
/// - Windows: `%APPDATA%/KKAFIO`;
/// - macOS: `~/Library/Application Support/KKAFIO`;
/// - Linux: `$XDG_CONFIG_HOME/KKAFIO`, falling back to `~/.config/KKAFIO`
///   and, without `HOME`, to `./.config/KKAFIO`.
pub fn app_data_dir_plan(
    os: TargetOs,
    appdata: Option<String>,
    home: Option<String>,
    xdg_config_home: Option<String>,
) -> (r: Result<DirPlan, String>)
    requires
        os != TargetOs::Other,
    ensures
        os == TargetOs::Windows ==> match appdata {
            Some(a) => r matches Ok(p) && p.base@ == a@ && views(p.children@) == seq!["KKAFIO"@],
            None => r matches Err(e) && e@ == "Cannot read APPDATA environment variable"@,
        },
        os == TargetOs::MacOs ==> match home {
            Some(h) => r matches Ok(p) && p.base@ == h@ && views(p.children@) == seq![
                "Library"@,
                "Application Support"@,
                "KKAFIO"@,
            ],
            None => r matches Err(e) && e@ == "Cannot read HOME environment variable"@,
        },
        os == TargetOs::Linux ==> (r matches Ok(p) && views(p.children@) == seq!["KKAFIO"@]
            && p.base@ == linux_config_home(xdg_config_home, home)),
{
    match os {
        TargetOs::Windows => match appdata {
            Some(a) => {
                let mut children: Vec<String> = Vec::new();
                children.push("KKAFIO".to_owned());
                assert(views(children@) =~= seq!["KKAFIO"@]);
                Ok(DirPlan { base: a, children })
            },
            None => Err("Cannot read APPDATA environment variable".to_owned()),
        },
        TargetOs::MacOs => match home {
            Some(h) => {
                let mut children: Vec<String> = Vec::new();
                children.push("Library".to_owned());
                children.push("Application Support".to_owned());
                children.push("KKAFIO".to_owned());
                assert(views(children@) =~= seq!["Library"@, "Application Support"@, "KKAFIO"@]);
                Ok(DirPlan { base: h, children })
            },
            None => Err("Cannot read HOME environment variable".to_owned()),
        },
        _ => {
            let base = match xdg_config_home {
                Some(x) => x,
                None => {
                    let mut b = match home {
                        Some(h) => h,
                        None => ".".to_owned(),
                    };
                    b.append("/.config");
                    b
                },
            };
            let mut children: Vec<String> = Vec::new();
            children.push("KKAFIO".to_owned());
            assert(views(children@) =~= seq!["KKAFIO"@]);
            Ok(DirPlan { base, children })
        },
    }
}

// ---------------------------------------------------------------------------
// Processes
// ---------------------------------------------------------------------------

/// Every character of `s` is an ASCII digit (so the empty name passes).
pub open spec fn all_ascii_digits(s: Seq<char>) -> bool {
    forall|i: int| 0 <= i < s.len() ==> '0' <= #[trigger] s[i] <= '9'
}

/// The decimal digit character for `d` (for `d` below ten).
pub open spec fn digit_char(d: nat) -> char {
    if d == 0 {
        '0'
    } else if d == 1 {
        '1'
    } else if d == 2 {
        '2'
    } else if d == 3 {
        '3'
    } else if d == 4 {
        '4'
    } else if d == 5 {
        '5'
    } else if d == 6 {
        '6'
    } else if d == 7 {
        '7'
    } else if d == 8 {
        '8'
    } else {
        '9'
    }
}

/// The decimal writing of `n`, without leading zeros.
pub open spec fn decimal(n: nat) -> Seq<char>
    decreases n,
{
    if n < 10 {
        seq![digit_char(n)]
    } else {
        decimal(n / 10).push(digit_char(n % 10))
    }
}

/// A one-character name passes exactly when that character is one of the
/// ten ASCII digits; a name passes exactly when each of its characters
/// would pass alone, so names join and split without changing the answer.
pub proof fn law_digit_names(c: char, s: Seq<char>, t: Seq<char>)
    ensures
        all_ascii_digits(seq![c]) <==> (c == '0' || c == '1' || c == '2' || c == '3' || c == '4' || c
            == '5' || c == '6' || c == '7' || c == '8' || c == '9'),
        all_ascii_digits(s + t) <==> (all_ascii_digits(s) && all_ascii_digits(t)),
{
    assert(seq![c][0] == c);
    if all_ascii_digits(s) && all_ascii_digits(t) {
        assert forall|i: int| 0 <= i < (s + t).len() implies '0' <= #[trigger] (s + t)[i] <= '9' by {
            if i < s.len() {
                assert((s + t)[i] == s[i]);
            } else {
                assert((s + t)[i] == t[i - s.len()]);
            }
        }
    }
    if all_ascii_digits(s + t) {
        assert forall|i: int| 0 <= i < s.len() implies '0' <= #[trigger] s[i] <= '9' by {
            assert((s + t)[i] == s[i]);
        }
        assert forall|i: int| 0 <= i < t.len() implies '0' <= #[trigger] t[i] <= '9' by {
            assert((s + t)[s.len() + i] == t[i]);
        }
    }
}

/// The `/proc` entry of every process id, its decimal writing, passes.
pub proof fn law_pid_names_pass(n: nat)
    ensures
        all_ascii_digits(decimal(n)),
    decreases n,
{
    if n >= 10 {
        law_pid_names_pass(n / 10);
        let d = decimal(n / 10);
        let c = digit_char(n % 10);
        assert forall|i: int| 0 <= i < d.push(c).len() implies '0' <= #[trigger] d.push(c)[i]
            <= '9' by {
            if i < d.len() {
                assert(d.push(c)[i] == d[i]);
            }
        }
    }
}

/// Whether an entry name under `/proc` names a process: it is made of ASCII
/// digits only.
pub fn is_process_dir_name(name: &str) -> (r: bool)
    ensures
        r == all_ascii_digits(name@),
{
    let n = name.unicode_len();
    let mut i: usize = 0;
    while i < n
        invariant
            n == name@.len(),
            i <= n,
            forall|j: int| 0 <= j < i ==> '0' <= #[trigger] name@[j] <= '9',
        decreases n - i,
    {
        let c = name.get_char(i);
        if !('0' <= c && c <= '9') {
            return false;
        }
        i = i + 1;
    }
    true
}

// ---------------------------------------------------------------------------
// Waiting for the web server's port
// ---------------------------------------------------------------------------

/// How many times the port is read again after the first read.
pub const MAX_PORT_WAITS: u32 = 50;

/// How long to wait before each new read, in milliseconds.
pub const PORT_WAIT_MS: u64 = 100;

/// What to do after reading the web server's port.
#[derive(Debug, Clone, Copy, PartialEq, Eq, Structural)]
pub enum PortPoll {
    /// Answer with this port (0 means the server never reported one).
    Answer(u16),
    /// Wait `PORT_WAIT_MS`, then read again; this many waits are then done.
    WaitAndRead(u32),
}

/// The decision after a read of `port`, with `waits_done` waits behind.
pub open spec fn port_poll_step(waits_done: u32, port: u16) -> PortPoll {
    if port != 0 {
        PortPoll::Answer(port)
    } else if waits_done < MAX_PORT_WAITS {
        PortPoll::WaitAndRead((waits_done + 1) as u32)
    } else {
        PortPoll::Answer(0)
    }
}

/// Decides what follows a read of the web server's port: a port that is
/// not 0 is the answer; otherwise wait and read again, at most
/// `MAX_PORT_WAITS` times, and answer 0 after that.
pub fn get_web_server_port_step(waits_done: u32, port: u16) -> (r: PortPoll)
    requires
        waits_done <= MAX_PORT_WAITS,
    ensures
        r == port_poll_step(waits_done, port),
{
    if port != 0 {
        PortPoll::Answer(port)
    } else if waits_done < MAX_PORT_WAITS {
        PortPoll::WaitAndRead(waits_done + 1)
    } else {
        PortPoll::Answer(0)
    }
}

/// The answer when the successive reads of the port give `reads`, starting
/// with `waits_done` waits behind (`None` while more reads are needed).
pub open spec fn port_poll_run(reads: Seq<u16>, waits_done: u32) -> Option<u16>
    decreases reads.len(),
{
    if reads.len() == 0 {
        None
    } else {
        match port_poll_step(waits_done, reads[0]) {
            PortPoll::Answer(p) => Some(p),
            PortPoll::WaitAndRead(w) => port_poll_run(reads.drop_first(), w),
        }
    }
}

/// The first port that is not 0 among the first `k` reads, or 0.
pub open spec fn first_nonzero(reads: Seq<u16>, k: nat) -> u16
    decreases k,
{
    if k == 0 || reads.len() == 0 {
        0
    } else if reads[0] != 0 {
        reads[0]
    } else {
        first_nonzero(reads.drop_first(), (k - 1) as nat)
    }
}

proof fn lemma_port_poll_run(reads: Seq<u16>, waits_done: u32)
    requires
        waits_done <= MAX_PORT_WAITS,
        reads.len() >= MAX_PORT_WAITS + 1 - waits_done,
    ensures
        port_poll_run(reads, waits_done) == Some(
            first_nonzero(reads, (MAX_PORT_WAITS + 1 - waits_done) as nat),
        ),
    decreases MAX_PORT_WAITS - waits_done,
{
    let k = (MAX_PORT_WAITS + 1 - waits_done) as nat;
    if reads[0] == 0 && waits_done < MAX_PORT_WAITS {
        lemma_port_poll_run(reads.drop_first(), (waits_done + 1) as u32);
        assert(port_poll_step(waits_done, reads[0]) == PortPoll::WaitAndRead((waits_done + 1) as u32));
        assert(first_nonzero(reads, k) == first_nonzero(reads.drop_first(), (k - 1) as nat));
    } else if reads[0] == 0 {
        assert(port_poll_step(waits_done, reads[0]) == PortPoll::Answer(0));
        assert(k == 1);
        assert(first_nonzero(reads.drop_first(), 0) == 0);
    } else {
        assert(port_poll_step(waits_done, reads[0]) == PortPoll::Answer(reads[0]));
    }
}

/// Starting afresh, the answer is the first non-zero port among the first
/// `MAX_PORT_WAITS + 1` reads, or 0 when all of them are 0; no more reads
/// are made.
pub proof fn law_port_poll_answers_first_port(reads: Seq<u16>)
    requires
        reads.len() >= MAX_PORT_WAITS + 1,
    ensures
        port_poll_run(reads, 0) == Some(first_nonzero(reads, (MAX_PORT_WAITS + 1) as nat)),
        port_poll_run(reads, 0) == port_poll_run(reads.take(MAX_PORT_WAITS + 1), 0),
{
    lemma_port_poll_run(reads, 0);
    lemma_port_poll_run(reads.take(MAX_PORT_WAITS + 1), 0);
    lemma_first_nonzero_prefix(reads, (MAX_PORT_WAITS + 1) as nat);
}

proof fn lemma_first_nonzero_prefix(reads: Seq<u16>, k: nat)
    requires
        reads.len() >= k,
    ensures
        first_nonzero(reads, k) == first_nonzero(reads.take(k as int), k),
    decreases k,
{
    if k > 0 && reads[0] == 0 {
        lemma_first_nonzero_prefix(reads.drop_first(), (k - 1) as nat);
        assert(reads.take(k as int).drop_first() =~= reads.drop_first().take(k - 1));
    }
}

} // verus!
