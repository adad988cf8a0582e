//! Command-line options: what to do for the arguments the program was
//! started with, and the texts it prints for them.
use vstd::prelude::*;
use crate::text::{chars_of, push_str};

verus! {

/// What the program does for its command-line arguments.
#[derive(Clone, Debug)]
pub enum CliAction {
    /// No option: run the monitor.
    Run,
    /// `-v` or `--version`: print the version and exit.
    Version,
    /// `-h` or `--help`: print the help and exit.
    Help,
    /// Anything else: report the option and exit with an error.
    Unknown(String),
}

/// Whether two strings hold the same characters.
pub fn str_equal(a: &str, b: &str) -> (r: bool)
    ensures
        r == (a@ == b@),
{
    let x = chars_of(a);
    let y = chars_of(b);
    if x.len() != y.len() {
        return false;
    }
    let n = x.len();
    for i in 0..n
        invariant
            x@ == a@,
            y@ == b@,
            n == x@.len(),
            n == y@.len(),
            forall|j: int| 0 <= j < i ==> x@[j] == y@[j],
    {
        if x[i] != y[i] {
            return false;
        }
    }
    assert(x@ =~= y@);
    true
}

/// The action for the arguments `args`, the program name first: only the
/// first argument after the program name matters.
pub open spec fn cli_action_spec(args: Seq<Seq<char>>) -> Option<Seq<char>> {
    if args.len() > 1 {
        Some(args[1])
    } else {
        None
    }
}

/// Decides what to do for the command-line arguments `args` (the program
/// name first).
pub fn parse_args(args: &Vec<String>) -> (r: CliAction)
    ensures
        args@.len() <= 1 ==> r is Run,
        args@.len() > 1 ==> {
            let a = args@[1]@;
            if a == "-v"@ || a == "--version"@ {
                r is Version
            } else if a == "-h"@ || a == "--help"@ {
                r is Help
            } else {
                r matches CliAction::Unknown(o) && o@ == a
            }
        },
{
    if args.len() <= 1 {
        return CliAction::Run;
    }
    let a = args[1].as_str();
    if str_equal(a, "-v") || str_equal(a, "--version") {
        CliAction::Version
    } else if str_equal(a, "-h") || str_equal(a, "--help") {
        CliAction::Help
    } else {
        CliAction::Unknown(args[1].clone())
    }
}

/// The line printed for `--version`: `MyNMON v` and the version.
pub fn version_line(version: &str) -> (r: String)
    ensures
        r@ == "MyNMON v"@ + version@,
{
    let mut r = String::new();
    push_str(&mut r, "MyNMON v");
    push_str(&mut r, version);
    r
}

/// The two lines printed to the error stream for an unknown option.
pub fn unknown_option_lines(option: &str, program: &str) -> (r: Vec<String>)
    ensures
        r@.map_values(|s: String| s@) == seq![
            "Error: Unknown option '"@ + option@ + "'"@,
            "Usage: "@ + program@ + " [-h | --help] [-v | --version]"@,
        ],
{
    let mut e = String::new();
    push_str(&mut e, "Error: Unknown option '");
    push_str(&mut e, option);
    push_str(&mut e, "'");
    let mut u = String::new();
    push_str(&mut u, "Usage: ");
    push_str(&mut u, program);
    push_str(&mut u, " [-h | --help] [-v | --version]");
    let mut r: Vec<String> = Vec::new();
    r.push(e);
    r.push(u);
    assert(r@.map_values(|s: String| s@) =~= seq![
        "Error: Unknown option '"@ + option@ + "'"@,
        "Usage: "@ + program@ + " [-h | --help] [-v | --version]"@,
    ]);
    r
}

/// The help text, line by line.
pub open spec fn help_text_spec(version: Seq<char>) -> Seq<Seq<char>> {
    seq![
        "MyNMON v"@ + version,
        "A lightweight, cross-platform CLI system monitor inspired by nmon."@,
        ""@,
        "Usage:"@,
        "  MyNMON [options]"@,
        ""@,
        "Options:"@,
        "  -h, --help     Print this help message"@,
        "  -v, --version  Print version information"@,
        ""@,
        "Interactive Keys (while running):"@,
        "  C  Toggle Total CPU utilization display"@,
        "  c  Toggle Individual CPU Core utilization display"@,
        "  m  Toggle Memory allocation display"@,
        "  d  Toggle Disk mounts & space display"@,
        "  n  Toggle Network interface speed display"@,
        "  p  Toggle Top processes display (also 't' key)"@,
        "  g  Toggle Process Spawn/Exit history log (also 'l' key)"@,
        "  f  Search/Filter processes by name (Enter/Esc to exit search)"@,
        "  r  Set screen refresh interval in seconds (Enter/Esc to save/cancel)"@,
        "  q  Quit the application (also 'Esc' key)"@,
    ]
}

fn push_text(lines: &mut Vec<String>, text: &str)
    ensures
        final(lines)@.map_values(|s: String| s@) == old(lines)@.map_values(|s: String| s@).push(text@),
{
    lines.push(text.to_string());
    assert(lines@.map_values(|s: String| s@) =~= old(lines)@.map_values(|s: String| s@).push(text@));
}

/// The help text printed for `--help`: usage, options and the keys that
/// work while the monitor runs.
pub fn help_text(version: &str) -> (r: Vec<String>)
    ensures
        r@.map_values(|s: String| s@) == help_text_spec(version@),
{
    let mut r: Vec<String> = Vec::new();
    let first = version_line(version);
    r.push(first);
    assert(r@.map_values(|s: String| s@) =~= seq!["MyNMON v"@ + version@]);
    push_text(&mut r, "A lightweight, cross-platform CLI system monitor inspired by nmon.");
    push_text(&mut r, "");
    push_text(&mut r, "Usage:");
    push_text(&mut r, "  MyNMON [options]");
    push_text(&mut r, "");
    push_text(&mut r, "Options:");
    push_text(&mut r, "  -h, --help     Print this help message");
    push_text(&mut r, "  -v, --version  Print version information");
    push_text(&mut r, "");
    push_text(&mut r, "Interactive Keys (while running):");
    push_text(&mut r, "  C  Toggle Total CPU utilization display");
    push_text(&mut r, "  c  Toggle Individual CPU Core utilization display");
    push_text(&mut r, "  m  Toggle Memory allocation display");
    push_text(&mut r, "  d  Toggle Disk mounts & space display");
    push_text(&mut r, "  n  Toggle Network interface speed display");
    push_text(&mut r, "  p  Toggle Top processes display (also 't' key)");
    push_text(&mut r, "  g  Toggle Process Spawn/Exit history log (also 'l' key)");
    push_text(&mut r, "  f  Search/Filter processes by name (Enter/Esc to exit search)");
    push_text(&mut r, "  r  Set screen refresh interval in seconds (Enter/Esc to save/cancel)");
    push_text(&mut r, "  q  Quit the application (also 'Esc' key)");
    assert(r@.map_values(|s: String| s@) =~= help_text_spec(version@));
    r
}

} // verus!
