//! Command-line arguments.
use vstd::prelude::*;

verus! {

/// An argument that is reported and then answered with the usage text.
#[derive(Debug)]
pub enum CliDiagnostic {
    /// An argument starting with `-` that is no known flag.
    UnknownFlag(String),
    /// Any other argument; the program takes none.
    UnexpectedPositional(String),
}

/// What the program does after reading its arguments.
#[derive(Debug, Clone, Copy, PartialEq, Eq, Structural)]
pub enum CliAction {
    /// Start, opening a capture session at once when `capture_on_start`.
    Run { capture_on_start: bool },
    /// Print the version and exit.
    PrintVersion,
    /// Print the usage text and exit.
    PrintHelp,
}

/// The outcome of reading the arguments: the diagnostics to print first,
/// in order, and the action.
#[derive(Debug)]
pub struct CliParse {
    pub diagnostics: Vec<CliDiagnostic>,
    pub action: CliAction,
}

/// A diagnostic as `(is_unknown_flag, argument)`.
pub open spec fn diagnostic_view(d: CliDiagnostic) -> (bool, Seq<char>) {
    match d {
        CliDiagnostic::UnknownFlag(a) => (true, a@),
        CliDiagnostic::UnexpectedPositional(a) => (false, a@),
    }
}

/// The kinds of argument.
#[derive(Debug, Clone, Copy, PartialEq, Eq, Structural)]
pub enum CliArgKind {
    Capture,
    Help,
    Version,
    Other,
}

/// `--capture`/`-c`, `--help`/`-h`, `--version`/`-V`, or anything else.
pub open spec fn arg_kind(a: Seq<char>) -> CliArgKind {
    if a == "--capture"@ || a == "-c"@ {
        CliArgKind::Capture
    } else if a == "--help"@ || a == "-h"@ {
        CliArgKind::Help
    } else if a == "--version"@ || a == "-V"@ {
        CliArgKind::Version
    } else {
        CliArgKind::Other
    }
}

pub open spec fn is_capture_flag(a: Seq<char>) -> bool {
    arg_kind(a) == CliArgKind::Capture
}

pub open spec fn is_help_flag(a: Seq<char>) -> bool {
    arg_kind(a) == CliArgKind::Help
}

pub open spec fn is_version_flag(a: Seq<char>) -> bool {
    arg_kind(a) == CliArgKind::Version
}

pub open spec fn is_known_flag(a: Seq<char>) -> bool {
    arg_kind(a) != CliArgKind::Other
}

/// The diagnostics for the arguments `args`, in order.
pub open spec fn cli_diagnostics(args: Seq<Seq<char>>) -> Seq<(bool, Seq<char>)>
    decreases args.len(),
{
    if args.len() == 0 {
        seq![]
    } else {
        let before = cli_diagnostics(args.drop_last());
        let a = args.last();
        if is_known_flag(a) {
            before
        } else {
            before.push((a.len() > 0 && a[0] == '-', a))
        }
    }
}

/// Some argument of `args` satisfies `p`.
pub open spec fn any_arg(args: Seq<Seq<char>>, p: spec_fn(Seq<char>) -> bool) -> bool {
    exists|i: int| 0 <= i < args.len() && p(#[trigger] args[i])
}

pub open spec fn is_version_fn() -> spec_fn(Seq<char>) -> bool {
    |a: Seq<char>| is_version_flag(a)
}

pub open spec fn is_capture_fn() -> spec_fn(Seq<char>) -> bool {
    |a: Seq<char>| is_capture_flag(a)
}

pub open spec fn is_help_fn() -> spec_fn(Seq<char>) -> bool {
    |a: Seq<char>| is_help_flag(a)
}

/// Position of the first version flag (meaningful when there is one).
pub open spec fn first_version_flag(args: Seq<Seq<char>>) -> int {
    choose|i: int|
        0 <= i < args.len() && is_version_flag(args[i]) && forall|j: int|
            0 <= j < i ==> !is_version_flag(#[trigger] args[j])
}

/// The arguments read before stopping: all of them, or those before the
/// first version flag.
pub open spec fn read_args(args: Seq<Seq<char>>) -> Seq<Seq<char>> {
    if any_arg(args, is_version_fn()) {
        args.take(first_version_flag(args))
    } else {
        args
    }
}

/// Arguments are read in order. A version flag stops reading and prints
/// the version; otherwise a help flag, an unknown flag or a positional
/// argument prints the usage text; otherwise the program runs, capturing
/// at once when asked to. Unknown and positional arguments read before
/// stopping are reported first.
pub open spec fn spec_parse_cli(args: Seq<Seq<char>>) -> ((Seq<(bool, Seq<char>)>, CliAction)) {
    let read = read_args(args);
    let diags = cli_diagnostics(read);
    let action = if any_arg(args, is_version_fn()) {
        CliAction::PrintVersion
    } else if any_arg(read, is_help_fn()) || diags.len() > 0 {
        CliAction::PrintHelp
    } else {
        CliAction::Run { capture_on_start: any_arg(read, is_capture_fn()) }
    };
    (diags, action)
}

pub open spec fn args_view(args: Seq<String>) -> Seq<Seq<char>> {
    args.map_values(|a: String| a@)
}

fn str_eq(a: &str, b: &str) -> (r: bool)
    ensures
        r == (a@ == b@),
{
    let n = a.unicode_len();
    if n != b.unicode_len() {
        return false;
    }
    let mut i: usize = 0;
    while i < n
        invariant
            i <= n,
            n == a@.len(),
            n == b@.len(),
            forall|j: int| 0 <= j < i ==> a@[j] == b@[j],
        decreases n - i,
    {
        if a.get_char(i) != b.get_char(i) {
            return false;
        }
        i += 1;
    }
    assert(a@ =~= b@);
    true
}

/// Reads the program's arguments (without the program name).
pub fn parse_cli_args(args: &[String]) -> (r: CliParse)
    ensures
        (r.diagnostics@.map_values(|d: CliDiagnostic| diagnostic_view(d)), r.action)
            == spec_parse_cli(args_view(args@)),
{
    let ghost all = args_view(args@);
    let mut capture_on_start = false;
    let mut show_help = false;
    let mut diagnostics: Vec<CliDiagnostic> = Vec::new();
    let mut i: usize = 0;
    while i < args.len()
        invariant
            i <= args@.len(),
            all == args_view(args@),
            forall|j: int| 0 <= j < i ==> !is_version_flag(#[trigger] all[j]),
            diagnostics@.map_values(|d: CliDiagnostic| diagnostic_view(d)) == cli_diagnostics(
                all.take(i as int),
            ),
            capture_on_start == any_arg(all.take(i as int), is_capture_fn()),
            show_help == (any_arg(all.take(i as int), is_help_fn()) || cli_diagnostics(
                all.take(i as int),
            ).len() > 0),
        decreases args.len() - i,
    {
        let arg = args[i].as_str();
        let ghost a = all[i as int];
        assert(a == arg@);
        assert(all.take(i as int + 1).drop_last() =~= all.take(i as int));
        assert(all.take(i as int + 1).last() == a);
        let ghost prev = all.take(i as int);
        let ghost next = all.take(i as int + 1);
        assert forall|p: spec_fn(Seq<char>) -> bool| any_arg(next, p) == (any_arg(prev, p) || p(a)) by {
            if any_arg(next, p) {
                let k = choose|k: int| 0 <= k < next.len() && p(#[trigger] next[k]);
                if k < i {
                    assert(prev[k] == next[k]);
                }
            }
            if any_arg(prev, p) {
                let k = choose|k: int| 0 <= k < prev.len() && p(#[trigger] prev[k]);
                assert(next[k] == prev[k]);
            }
            if p(a) {
                assert(next[i as int] == a);
            }
        }
        if str_eq(arg, "--capture") || str_eq(arg, "-c") {
            capture_on_start = true;
        } else if str_eq(arg, "--help") || str_eq(arg, "-h") {
            show_help = true;
        } else if str_eq(arg, "--version") || str_eq(arg, "-V") {
            proof {
                assert(any_arg(all, is_version_fn())) by {
                    assert(is_version_fn()(all[i as int]));
                }
                let f = first_version_flag(all);
                assert(0 <= i < all.len() && is_version_flag(all[i as int]) && forall|j: int|
                    0 <= j < i ==> !is_version_flag(#[trigger] all[j]));
                if f < i {
                    assert(!is_version_flag(all[f]));
                } else if f > i {
                    assert(!is_version_flag(all[i as int]));
                }
                assert(f == i);
            }
            return CliParse { diagnostics, action: CliAction::PrintVersion };
        } else {
            let is_flag = arg.unicode_len() > 0 && arg.get_char(0) == '-';
            let text = args[i].clone();
            let ghost before = diagnostics@;
            if is_flag {
                diagnostics.push(CliDiagnostic::UnknownFlag(text));
            } else {
                diagnostics.push(CliDiagnostic::UnexpectedPositional(text));
            }
            assert(diagnostics@.map_values(|d: CliDiagnostic| diagnostic_view(d)) =~= before.map_values(
                |d: CliDiagnostic| diagnostic_view(d),
            ).push((is_flag, a)));
            show_help = true;
        }
        i += 1;
    }
    proof {
        assert(all.take(args@.len() as int) =~= all);
        assert(!any_arg(all, is_version_fn()));
    }
    let action = if show_help {
        CliAction::PrintHelp
    } else {
        CliAction::Run { capture_on_start }
    };
    CliParse { diagnostics, action }
}

/// A version flag anywhere among the arguments prints the version, whatever
/// else they hold, and only the arguments before the first one are reported.
pub proof fn lemma_version_flag_wins(args: Seq<Seq<char>>, i: int)
    requires
        0 <= i < args.len(),
        is_version_flag(args[i]),
    ensures
        spec_parse_cli(args).1 == CliAction::PrintVersion,
        spec_parse_cli(args).0 == cli_diagnostics(args.take(first_version_flag(args))),
{
    assert(is_version_fn()(args[i]));
    assert(any_arg(args, is_version_fn()));
}

} // verus!
