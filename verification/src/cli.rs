//! Command-line flags: the process arguments (program name first) are read
//! by the caller and handed in as strings.

use crate::text::views;
use vstd::prelude::*;
use vstd::string::*;

verus! {

broadcast use vstd::string::group_string_axioms;

/// Some argument equals `flag` (the program name counts as an argument).
pub open spec fn any_arg_is(args: Seq<Seq<char>>, flag: Seq<char>) -> bool {
    exists|i: int| 0 <= i < args.len() && #[trigger] args[i] == flag
}

/// `p` is a prefix of `s`.
pub open spec fn starts_with(s: Seq<char>, p: Seq<char>) -> bool {
    p.len() <= s.len() && s.take(p.len() as int) == p
}

/// `s` begins with `-`.
pub open spec fn starts_with_dash(s: Seq<char>) -> bool {
    s.len() > 0 && s[0] == '-'
}

/// The value of the option `short`/`long`, scanning `args` from index `i`:
/// the first argument that is the option itself takes the next argument as
/// its value unless that one is missing or begins with `-` (then there is no
/// value); the first argument `short=...` or `long=...` gives the text after
/// the `=`.
pub open spec fn option_value_from(
    args: Seq<Seq<char>>,
    short: Seq<char>,
    long: Seq<char>,
    i: int,
) -> Option<Seq<char>>
    decreases args.len() - i,
{
    if i < 0 || i >= args.len() {
        None
    } else if args[i] == short || args[i] == long {
        if i + 1 < args.len() && !starts_with_dash(args[i + 1]) {
            Some(args[i + 1])
        } else {
            None
        }
    } else if starts_with(args[i], short.push('=')) {
        Some(args[i].skip(short.len() + 1int))
    } else if starts_with(args[i], long.push('=')) {
        Some(args[i].skip(long.len() + 1int))
    } else {
        option_value_from(args, short, long, i + 1)
    }
}

/// `a` is one of the forms of the option: `short`, `long`, `short=...`
/// or `long=...`.
pub open spec fn is_option_form(a: Seq<char>, short: Seq<char>, long: Seq<char>) -> bool {
    a == short || a == long || starts_with(a, short.push('=')) || starts_with(a, long.push('='))
}

proof fn lemma_skip_non_options(args: Seq<Seq<char>>, short: Seq<char>, long: Seq<char>, k: int, i: int)
    requires
        0 <= k <= i <= args.len(),
        forall|j: int| 0 <= j < i ==> !is_option_form(#[trigger] args[j], short, long),
    ensures
        option_value_from(args, short, long, k) == option_value_from(args, short, long, i),
    decreases i - k,
{
    if k < i {
        assert(!is_option_form(args[k], short, long));
        lemma_skip_non_options(args, short, long, k + 1, i);
    }
}

/// Arguments before the first form of the option are ignored. When that
/// first form is the bare option, its value is the next argument, verbatim,
/// if there is one and it does not begin with `-` (a `-` elsewhere in it
/// does not matter); otherwise there is no value.
pub proof fn law_value_follows_bare_option(
    args: Seq<Seq<char>>,
    short: Seq<char>,
    long: Seq<char>,
    i: int,
)
    requires
        0 <= i < args.len(),
        args[i] == short || args[i] == long,
        forall|j: int| 0 <= j < i ==> !is_option_form(#[trigger] args[j], short, long),
    ensures
        i + 1 < args.len() && (args[i + 1].len() == 0 || args[i + 1][0] != '-') ==> option_value_from(
            args,
            short,
            long,
            0,
        ) == Some(args[i + 1]),
        (i + 1 >= args.len() || (args[i + 1].len() > 0 && args[i + 1][0] == '-'))
            ==> option_value_from(args, short, long, 0) is None,
{
    lemma_skip_non_options(args, short, long, 0, i);
}

/// When the first form of the option is `short=...` or `long=...` (and not
/// the bare option), the value is the text after the first `=`, verbatim.
pub proof fn law_value_after_equals(args: Seq<Seq<char>>, short: Seq<char>, long: Seq<char>, i: int)
    requires
        0 <= i < args.len(),
        args[i] != short && args[i] != long,
        forall|j: int| 0 <= j < i ==> !is_option_form(#[trigger] args[j], short, long),
    ensures
        starts_with(args[i], short.push('=')) ==> option_value_from(args, short, long, 0) == Some(
            args[i].skip(short.len() + 1int),
        ),
        !starts_with(args[i], short.push('=')) && starts_with(args[i], long.push('='))
            ==> option_value_from(args, short, long, 0) == Some(args[i].skip(long.len() + 1int)),
{
    lemma_skip_non_options(args, short, long, 0, i);
}

/// Without any form of the option there is no value.
pub proof fn law_no_option_no_value(args: Seq<Seq<char>>, short: Seq<char>, long: Seq<char>)
    requires
        forall|j: int| 0 <= j < args.len() ==> !is_option_form(#[trigger] args[j], short, long),
    ensures
        option_value_from(args, short, long, 0) is None,
{
    lemma_skip_non_options(args, short, long, 0, args.len() as int);
}

/// Whether `prefix` is a prefix of `s`.
pub fn has_prefix(s: &str, prefix: &str) -> (r: bool)
    ensures
        r == starts_with(s@, prefix@),
{
    let n = s.unicode_len();
    let m = prefix.unicode_len();
    if m > n {
        return false;
    }
    let mut i: usize = 0;
    while i < m
        invariant
            n == s@.len(),
            m == prefix@.len(),
            m <= n,
            i <= m,
            forall|j: int| 0 <= j < i ==> s@[j] == prefix@[j],
        decreases m - i,
    {
        if s.get_char(i) != prefix.get_char(i) {
            assert(s@.take(m as int)[i as int] != prefix@[i as int]);
            return false;
        }
        i = i + 1;
    }
    assert(s@.take(m as int) =~= prefix@);
    true
}

/// Whether some argument equals `flag`.
pub fn any_arg_equals(args: &Vec<String>, flag: &str) -> (r: bool)
    ensures
        r == any_arg_is(views(args@), flag@),
{
    let target = flag.to_owned();
    let n = args.len();
    for i in 0..n
        invariant
            n == args@.len(),
            target@ == flag@,
            forall|j: int| 0 <= j < i ==> #[trigger] args@[j]@ != flag@,
    {
        if args[i] == target {
            assert(views(args@)[i as int] == flag@);
            return true;
        }
    }
    assert forall|j: int| 0 <= j < views(args@).len() implies #[trigger] views(args@)[j] != flag@ by {
        assert(args@[j]@ != flag@);
    }
    false
}

/// Whether the program was started by the system autostart entry: some
/// argument is `--autostart`.
pub fn is_autostart(args: &Vec<String>) -> (r: bool)
    ensures
        r == any_arg_is(views(args@), "--autostart"@),
{
    any_arg_equals(args, "--autostart")
}

/// Whether help was asked for: some argument after the program name is
/// `-h` or `--help`.
pub fn has_help_flag(args: &Vec<String>) -> (r: bool)
    ensures
        r == exists|i: int|
            1 <= i < args@.len() && (#[trigger] args@[i]@ == "-h"@ || args@[i]@ == "--help"@),
{
    let short = "-h".to_owned();
    let long = "--help".to_owned();
    let n = args.len();
    let mut i: usize = 1;
    while i < n
        invariant
            n == args@.len(),
            1 <= i,
            short@ == "-h"@,
            long@ == "--help"@,
            forall|j: int|
                1 <= j < i && j < n ==> !(#[trigger] args@[j]@ == "-h"@ || args@[j]@ == "--help"@),
        decreases n - i,
    {
        if args[i] == short || args[i] == long {
            return true;
        }
        i = i + 1;
    }
    false
}

/// Whether the program should quit after the run it started: some argument
/// is `-q` or `--quit-after-run`.
pub fn has_quit_after_run_flag(args: &Vec<String>) -> (r: bool)
    ensures
        r == (any_arg_is(views(args@), "-q"@) || any_arg_is(views(args@), "--quit-after-run"@)),
{
    any_arg_equals(args, "-q") || any_arg_equals(args, "--quit-after-run")
}

/// The text of `arg` after its first `skip` characters.
fn tail_of(arg: &String, skip: usize) -> (r: String)
    requires
        skip <= arg@.len(),
    ensures
        r@ == arg@.skip(skip as int),
{
    let n = arg.as_str().unicode_len();
    let r = arg.as_str().substring_char(skip, n).to_owned();
    assert(r@ =~= arg@.skip(skip as int));
    r
}

/// The value given to the option `short`/`long` (see `option_value_from`,
/// scanning from the first argument).
pub fn get_cli_arg_value(args: &Vec<String>, short: &str, long: &str) -> (r: Option<String>)
    ensures
        match r {
            Some(v) => option_value_from(views(args@), short@, long@, 0) == Some(v@),
            None => option_value_from(views(args@), short@, long@, 0) is None,
        },
{
    let ghost a = views(args@);
    let short_s = short.to_owned();
    let long_s = long.to_owned();
    let mut short_eq = short.to_owned();
    short_eq.append("=");
    let mut long_eq = long.to_owned();
    long_eq.append("=");
    proof {
        reveal_strlit("=");
        assert(short_eq@ =~= short@.push('='));
        assert(long_eq@ =~= long@.push('='));
    }
    let short_len = short_eq.as_str().unicode_len();
    let long_len = long_eq.as_str().unicode_len();
    let n = args.len();
    let mut i: usize = 0;
    while i < n
        invariant
            n == args@.len(),
            a == views(args@),
            i <= n,
            short_s@ == short@,
            long_s@ == long@,
            short_eq@ == short@.push('='),
            long_eq@ == long@.push('='),
            short_len == short@.len() + 1,
            long_len == long@.len() + 1,
            option_value_from(a, short@, long@, 0) == option_value_from(a, short@, long@, i as int),
        decreases n - i,
    {
        assert(a[i as int] == args@[i as int]@);
        if args[i] == short_s || args[i] == long_s {
            assert(a[i as int] == short@ || a[i as int] == long@);
            if i + 1 < n {
                let next = &args[i + 1];
                assert(a[i + 1] == next@);
                let dash = has_prefix(next.as_str(), "-");
                proof {
                    reveal_strlit("-");
                    assert("-"@ =~= seq!['-']);
                    if next@.len() > 0 {
                        assert(next@.take(1) =~= seq![next@[0]]);
                    }
                    if next@.len() > 0 {
                        assert(next@.take(1)[0] == next@[0]);
                        assert(seq!['-'][0] == '-');
                    }
                    assert(dash == starts_with_dash(next@));
                }
                if !dash {
                    return Some(next.clone());
                }
            }
            return None;
        }
        if has_prefix(args[i].as_str(), short_eq.as_str()) {
            return Some(tail_of(&args[i], short_len));
        }
        if has_prefix(args[i].as_str(), long_eq.as_str()) {
            return Some(tail_of(&args[i], long_len));
        }
        i = i + 1;
    }
    None
}

/// The instance named with `-i`/`--instance`, if any.
pub fn get_start_instance(args: &Vec<String>) -> (r: Option<String>)
    ensures
        match r {
            Some(v) => option_value_from(views(args@), "-i"@, "--instance"@, 0) == Some(v@),
            None => option_value_from(views(args@), "-i"@, "--instance"@, 0) is None,
        },
{
    get_cli_arg_value(args, "-i", "--instance")
}

} // verus!
