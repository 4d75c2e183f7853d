//! Command-line modes.

use vstd::prelude::*;
use vstd::string::StrSliceExecFns;

verus! {

/// How the program runs.
#[derive(Clone, Copy, Debug, PartialEq, Eq, Structural)]
pub enum Mode {
    /// Settings window plus server; the window may start hidden.
    Gui { start_minimized: bool },
    /// Server only, logging to the console.
    Headless,
    /// List the controller's HID interfaces and dump a few seconds of input.
    Probe,
}

/// The mode a single argument selects, if it is a recognized flag.
pub open spec fn flag_mode(a: Seq<char>) -> Option<Mode> {
    if a == "--probe"@ || a == "-p"@ {
        Some(Mode::Probe)
    } else if a == "--headless"@ || a == "-H"@ {
        Some(Mode::Headless)
    } else if a == "--tray"@ || a == "--minimized"@ {
        Some(Mode::Gui { start_minimized: true })
    } else if a == "--gui"@ {
        Some(Mode::Gui { start_minimized: false })
    } else {
        None
    }
}

/// The mode of an argument list: that of its first recognized flag; a visible
/// settings window when no flag is recognized.
pub open spec fn mode_of(args: Seq<Seq<char>>) -> Mode
    decreases args.len(),
{
    if args.len() == 0 {
        Mode::Gui { start_minimized: false }
    } else {
        match flag_mode(args[0]) {
            Some(m) => m,
            None => mode_of(args.drop_first()),
        }
    }
}

/// The text of each argument.
pub open spec fn args_view(args: Seq<String>) -> Seq<Seq<char>> {
    args.map_values(|s: String| s@)
}

/// Whether two strings hold the same characters.
pub fn str_eq(a: &str, b: &str) -> (r: bool)
    ensures
        r == (a@ == b@),
{
    let n = a.unicode_len();
    if n != b.unicode_len() {
        return false;
    }
    let mut i: usize = 0;
    while i < n
        invariant
            n == a@.len(),
            n == b@.len(),
            i <= n,
            forall|k: int| 0 <= k < i ==> a@[k] == b@[k],
        decreases n - i,
    {
        if a.get_char(i) != b.get_char(i) {
            return false;
        }
        i = i + 1;
    }
    assert(a@ =~= b@);
    true
}

/// The mode selected by the arguments (program name excluded): the first
/// recognized flag wins, later arguments are not looked at, and with no
/// recognized flag the settings window opens visible.
pub fn parse_args_from(args: &[String]) -> (m: Mode)
    ensures
        m == mode_of(args_view(args@)),
{
    let ghost av = args_view(args@);
    let n = args.len();
    let mut i: usize = 0;
    assert(av.skip(0) =~= av);
    while i < n
        invariant
            n == args@.len(),
            av == args_view(args@),
            i <= n,
            mode_of(av) == mode_of(av.skip(i as int)),
        decreases n - i,
    {
        let a = args[i].as_str();
        assert(a@ == av[i as int]);
        proof {
            let rest = av.skip(i as int);
            assert(rest[0] == av[i as int]);
            assert(rest.drop_first() =~= av.skip(i + 1));
        }
        if str_eq(a, "--probe") || str_eq(a, "-p") {
            return Mode::Probe;
        }
        if str_eq(a, "--headless") || str_eq(a, "-H") {
            return Mode::Headless;
        }
        if str_eq(a, "--tray") || str_eq(a, "--minimized") {
            return Mode::Gui { start_minimized: true };
        }
        if str_eq(a, "--gui") {
            return Mode::Gui { start_minimized: false };
        }
        i = i + 1;
    }
    assert(av.skip(n as int).len() == 0);
    Mode::Gui { start_minimized: false }
}

} // verus!
