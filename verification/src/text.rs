//! Text building: splitting a message into lines, the stdout log format,
//! the HTTP user agent and the command-line help text.

use vstd::prelude::*;
use vstd::string::*;

verus! {

broadcast use vstd::string::group_string_axioms;

/// The views of a list of strings.
pub open spec fn views(v: Seq<String>) -> Seq<Seq<char>> {
    v.map_values(|l: String| l@)
}

/// `cur` without one trailing carriage return.
pub open spec fn strip_cr(cur: Seq<char>) -> Seq<char> {
    if cur.len() > 0 && cur.last() == '\r' {
        cur.drop_last()
    } else {
        cur
    }
}

/// Scanning `s` from the left: the lines finished so far, and the text of
/// the line not yet ended.
pub open spec fn lines_scan(s: Seq<char>) -> (Seq<Seq<char>>, Seq<char>)
    decreases s.len(),
{
    if s.len() == 0 {
        (Seq::empty(), Seq::empty())
    } else {
        let (done, cur) = lines_scan(s.drop_last());
        if s.last() == '\n' {
            (done.push(strip_cr(cur)), Seq::empty())
        } else {
            (done, cur.push(s.last()))
        }
    }
}

/// The lines of `s` as `str::lines` yields them: split at `\n`, a `\r`
/// right before that `\n` removed, and no empty last line for a text that
/// ends in a line break.
pub open spec fn text_lines(s: Seq<char>) -> Seq<Seq<char>> {
    let (done, cur) = lines_scan(s);
    if cur.len() == 0 {
        done
    } else {
        done.push(cur)
    }
}

/// Splits `text` into lines with the meaning of `str::lines`.
pub fn split_lines(text: &str) -> (r: Vec<String>)
    ensures
        views(r@) == text_lines(text@),
{
    let ghost s = text@;
    let n = text.unicode_len();
    let mut lines: Vec<String> = Vec::new();
    let mut start: usize = 0;
    let mut pos: usize = 0;
    let mut prev_cr = false;
    for c in it: text.chars()
        invariant
            n == s.len(),
            s == text@,
            it.seq() == s,
            pos == it.index(),
            start <= pos <= n,
            views(lines@) == lines_scan(s.take(pos as int)).0,
            s.subrange(start as int, pos as int) == lines_scan(s.take(pos as int)).1,
            prev_cr == (pos > start && s[pos - 1] == '\r'),
    {
        let ghost before = s.take(pos as int);
        assert(s.take(pos + 1).drop_last() =~= before);
        assert(s.take(pos + 1).last() == c);
        if c == '\n' {
            let end = if prev_cr {
                pos - 1
            } else {
                pos
            };
            let line = text.substring_char(start, end).to_owned();
            assert(line@ =~= strip_cr(s.subrange(start as int, pos as int)));
            lines.push(line);
            assert(views(lines@) =~= lines_scan(before).0.push(line@));
            start = pos + 1;
        } else {
            assert(s.subrange(start as int, pos + 1) =~= s.subrange(start as int, pos as int).push(c));
        }
        prev_cr = c == '\r';
        pos = pos + 1;
    }
    assert(s.take(n as int) =~= s);
    if start < pos {
        let line = text.substring_char(start, pos).to_owned();
        lines.push(line);
        assert(views(lines@) =~= text_lines(s));
    } else {
        assert(views(lines@) =~= text_lines(s));
    }
    lines
}

/// No character of `s` is a line feed.
pub open spec fn no_line_feed(s: Seq<char>) -> bool {
    forall|j: int| 0 <= j < s.len() ==> #[trigger] s[j] != '\n'
}

proof fn lemma_scan_no_line_feed(s: Seq<char>)
    ensures
        forall|i: int|
            0 <= i < lines_scan(s).0.len() ==> no_line_feed(#[trigger] lines_scan(s).0[i]),
        no_line_feed(lines_scan(s).1),
    decreases s.len(),
{
    if s.len() > 0 {
        lemma_scan_no_line_feed(s.drop_last());
        let (done, cur) = lines_scan(s.drop_last());
        if s.last() == '\n' {
            assert(no_line_feed(strip_cr(cur)));
            assert forall|i: int| 0 <= i < lines_scan(s).0.len() implies no_line_feed(
                #[trigger] lines_scan(s).0[i],
            ) by {
                if i < done.len() {
                    assert(lines_scan(s).0[i] == done[i]);
                }
            }
        } else {
            assert(no_line_feed(cur.push(s.last())));
        }
    }
}

/// No line that `split_lines` yields contains a line feed.
pub proof fn law_lines_have_no_line_feed(s: Seq<char>)
    ensures
        forall|i: int| 0 <= i < text_lines(s).len() ==> no_line_feed(#[trigger] text_lines(s)[i]),
{
    lemma_scan_no_line_feed(s);
    let (done, cur) = lines_scan(s);
    assert forall|i: int| 0 <= i < text_lines(s).len() implies no_line_feed(
        #[trigger] text_lines(s)[i],
    ) by {
        if i < done.len() {
            assert(text_lines(s)[i] == done[i]);
        }
    }
}

/// The final line ending is optional: a non-empty text that does not end in
/// a line break has the same lines with `\n` or `\r\n` appended (for `\n`
/// alone, the text must not end in `\r` either). On the empty text the two
/// differ: it has no line, while `"\n"` has one empty line.
pub proof fn law_final_line_ending_optional(t: Seq<char>)
    requires
        t.len() > 0,
        t.last() != '\n',
    ensures
        t.last() != '\r' ==> text_lines(t.push('\n')) == text_lines(t),
        text_lines(t.push('\r').push('\n')) == text_lines(t),
{
    let (done, cur) = lines_scan(t.drop_last());
    assert(t.push('\n').drop_last() =~= t);
    assert(t.push('\r').drop_last() =~= t);
    assert(t.push('\r').push('\n').drop_last() =~= t.push('\r'));
    assert(lines_scan(t) == (done, cur.push(t.last())));
    let t2 = t.push('\r');
    assert(lines_scan(t2) == (done, cur.push(t.last()).push('\r')));
    assert(strip_cr(cur.push(t.last()).push('\r')) =~= cur.push(t.last()));
}

/// The lines of `d`, each followed by a line feed.
pub open spec fn lines_with_breaks(d: Seq<Seq<char>>) -> Seq<char>
    decreases d.len(),
{
    if d.len() == 0 {
        Seq::empty()
    } else {
        lines_with_breaks(d.drop_last()) + d.last().push('\n')
    }
}

/// The lines of `l` joined with line feeds between them.
pub open spec fn join_lines(l: Seq<Seq<char>>) -> Seq<char> {
    if l.len() == 0 {
        Seq::empty()
    } else {
        lines_with_breaks(l.drop_last()) + l.last()
    }
}

/// No character of `s` is a carriage return.
pub open spec fn no_carriage_return(s: Seq<char>) -> bool {
    forall|j: int| 0 <= j < s.len() ==> #[trigger] s[j] != '\r'
}

proof fn lemma_scan_reassembles(s: Seq<char>)
    requires
        no_carriage_return(s),
    ensures
        lines_with_breaks(lines_scan(s).0) + lines_scan(s).1 == s,
        no_carriage_return(lines_scan(s).1),
    decreases s.len(),
{
    if s.len() > 0 {
        let init = s.drop_last();
        assert(no_carriage_return(init)) by {
            assert forall|j: int| 0 <= j < init.len() implies #[trigger] init[j] != '\r' by {
                assert(init[j] == s[j]);
            }
        }
        lemma_scan_reassembles(init);
        let (done, cur) = lines_scan(init);
        assert(s.last() == s[s.len() - 1]);
        if s.last() == '\n' {
            assert(strip_cr(cur) == cur);
            assert(done.push(cur).drop_last() =~= done);
            assert(lines_with_breaks(done.push(cur)) == lines_with_breaks(done) + cur.push('\n'));
            assert(lines_with_breaks(done) + cur.push('\n') + Seq::<char>::empty() =~= init.push(
                '\n',
            ));
            assert(init.push(s.last()) =~= s);
        } else {
            assert(lines_with_breaks(done) + cur.push(s.last()) =~= init.push(s.last()));
            assert(init.push(s.last()) =~= s);
        }
    }
}

proof fn lemma_breaks_end_in_line_feed(d: Seq<Seq<char>>)
    requires
        d.len() > 0,
    ensures
        lines_with_breaks(d).len() > 0,
        lines_with_breaks(d).last() == '\n',
{
}

/// Lines are copied verbatim: for a text without carriage returns that does
/// not end in a line feed, joining its lines with line feeds gives the text
/// back.
pub proof fn law_lines_rejoin_to_text(s: Seq<char>)
    requires
        no_carriage_return(s),
        s.len() == 0 || s.last() != '\n',
    ensures
        join_lines(text_lines(s)) == s,
{
    lemma_scan_reassembles(s);
    let (done, cur) = lines_scan(s);
    if cur.len() > 0 {
        assert(done.push(cur).drop_last() =~= done);
    } else {
        assert(lines_with_breaks(done) + cur =~= lines_with_breaks(done));
        if done.len() > 0 {
            lemma_breaks_end_in_line_feed(done);
        }
    }
}

proof fn lemma_scan_without_line_feed(s: Seq<char>)
    requires
        no_line_feed(s),
    ensures
        lines_scan(s) == (Seq::<Seq<char>>::empty(), s),
    decreases s.len(),
{
    if s.len() > 0 {
        let init = s.drop_last();
        assert(no_line_feed(init)) by {
            assert forall|j: int| 0 <= j < init.len() implies #[trigger] init[j] != '\n' by {
                assert(init[j] == s[j]);
            }
        }
        lemma_scan_without_line_feed(init);
        assert(s.last() == s[s.len() - 1]);
        assert(init.push(s.last()) =~= s);
    }
}

/// A non-empty text without line feeds is one line, exactly that text
/// (carriage returns included).
pub proof fn law_single_line_is_verbatim(s: Seq<char>)
    requires
        s.len() > 0,
        no_line_feed(s),
    ensures
        text_lines(s) == seq![s],
{
    lemma_scan_without_line_feed(s);
    assert(Seq::<Seq<char>>::empty().push(s) =~= seq![s]);
}

/// One line of the stdout log: the timestamp in brackets, a space, the text.
pub open spec fn stdout_line(timestamp: Seq<char>, line: Seq<char>) -> Seq<char> {
    seq!['['] + timestamp + seq![']', ' '] + line
}

/// Formats `message` for stdout: each of its lines (as `split_lines` cuts
/// them) prefixed with `[timestamp] `.
pub fn stdout_log_lines(timestamp: &str, message: &str) -> (r: Vec<String>)
    ensures
        r@.len() == text_lines(message@).len(),
        forall|i: int|
            0 <= i < r@.len() ==> #[trigger] r@[i]@ == stdout_line(
                timestamp@,
                text_lines(message@)[i],
            ),
{
    let lines = split_lines(message);
    let ghost ls = text_lines(message@);
    assert(lines@.len() == ls.len());
    let mut out: Vec<String> = Vec::new();
    let n = lines.len();
    for i in 0..n
        invariant
            n == lines@.len(),
            views(lines@) == ls,
            out@.len() == i,
            forall|j: int| 0 <= j < i ==> #[trigger] out@[j]@ == stdout_line(timestamp@, ls[j]),
    {
        let mut line = String::new();
        line.append("[");
        line.append(timestamp);
        line.append("] ");
        line.append(lines[i].as_str());
        proof {
            reveal_strlit("[");
            reveal_strlit("] ");
            assert(lines@[i as int]@ == ls[i as int]);
            assert(line@ =~= stdout_line(timestamp@, ls[i as int]));
        }
        out.push(line);
    }
    out
}

/// The HTTP user agent: `MXU/<version> (<os>; <arch>) Tauri/<tauri_version>`.
pub fn build_user_agent(version: &str, os: &str, arch: &str, tauri_version: &str) -> (r: String)
    ensures
        r@ == "MXU/"@ + version@ + " ("@ + os@ + "; "@ + arch@ + ") Tauri/"@ + tauri_version@,
{
    let mut r = String::new();
    r.append("MXU/");
    r.append(version);
    r.append(" (");
    r.append(os);
    r.append("; ");
    r.append(arch);
    r.append(") Tauri/");
    r.append(tauri_version);
    assert(r@ =~= "MXU/"@ + version@ + " ("@ + os@ + "; "@ + arch@ + ") Tauri/"@ + tauri_version@);
    r
}

/// Help text before the first program name.
pub const HELP_HEAD: &'static str = "MXU 命令行参数\n\n用法:\n  ";

/// Help text between the usage line's program name and the first example.
pub const HELP_BODY: &'static str = " [参数]\n\n参数:\n  -h, --help\n      显示本帮助并退出\n\n  --autostart\n      以开机自启动模式运行\n      通常由 MXU 创建的系统自启动任务自动传入\n\n  -i, --instance <实例名>\n      指定自动执行时使用的实例名\n      仅在 --autostart 模式下生效\n\n  -q, --quit-after-run\n      当本次启动实际触发自动执行后，在任务完成时自动退出\n\n示例:\n  ";

/// Help text after the first example's program name.
pub const HELP_EXAMPLE_ONE: &'static str = " --autostart --instance \"日常任务\"\n  ";

/// Help text after the second example's program name.
pub const HELP_EXAMPLE_TWO: &'static str = " --autostart -i \"日常任务\" --quit-after-run\n";

/// The program name shown in the help: the executable's file name when it
/// is known and not empty, `mxu` otherwise.
pub open spec fn help_program_name(exe_file_name: Option<String>) -> Seq<char> {
    match exe_file_name {
        Some(name) => if name@.len() > 0 {
            name@
        } else {
            "mxu"@
        },
        None => "mxu"@,
    }
}

/// The help text with `name` as the program name.
pub open spec fn help_text(name: Seq<char>) -> Seq<char> {
    HELP_HEAD@ + name + HELP_BODY@ + name + HELP_EXAMPLE_ONE@ + name + HELP_EXAMPLE_TWO@
}

/// The command-line help, naming the program by `exe_file_name` (the file
/// name of the running executable, when it could be read).
pub fn get_cli_help_text(exe_file_name: Option<String>) -> (r: String)
    ensures
        r@ == help_text(help_program_name(exe_file_name)),
{
    let ghost chosen = help_program_name(exe_file_name);
    let name: String = match exe_file_name {
        Some(n) => if n.unicode_len() > 0 {
            n
        } else {
            "mxu".to_owned()
        },
        None => "mxu".to_owned(),
    };
    assert(name@ == chosen);
    let mut r = String::new();
    r.append(HELP_HEAD);
    r.append(name.as_str());
    r.append(HELP_BODY);
    r.append(name.as_str());
    r.append(HELP_EXAMPLE_ONE);
    r.append(name.as_str());
    r.append(HELP_EXAMPLE_TWO);
    assert(r@ =~= help_text(chosen));
    r
}

} // verus!
