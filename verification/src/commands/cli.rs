//! Reading the command line: which command `xtop` runs, and which
//! subcommand of `xtop plugin`, `xtop widget` and `xtop layout` (with the
//! usage line printed when an argument is missing).

use vstd::prelude::*;
use crate::text::str_eq;

verus! {

/// What `xtop` does with its arguments.
#[derive(Debug, PartialEq, Eq)]
pub enum MainCommand {
    /// Start the TUI system monitor.
    Run,
    /// Start the MCP server on stdio.
    Mcp,
    /// Manage plugins (`xtop plugin ...`).
    Plugin,
    /// Print the usage text.
    Help,
}

/// The command for an argument vector (program name first).
pub open spec fn spec_main_command(args: Seq<Seq<char>>) -> MainCommand {
    if args.len() > 1 {
        let a = args[1];
        if a == "mcp"@ {
            MainCommand::Mcp
        } else if a == "plugin"@ {
            MainCommand::Plugin
        } else if a == "--help"@ || a == "-h"@ {
            MainCommand::Help
        } else {
            MainCommand::Run
        }
    } else {
        MainCommand::Run
    }
}

/// The views of an argument vector.
pub open spec fn arg_views(args: Seq<String>) -> Seq<Seq<char>> {
    args.map_values(|a: String| a@)
}

/// Which command `xtop` runs: `mcp`, `plugin`, `--help`/`-h`, else the TUI.
pub fn main_command(args: &Vec<String>) -> (r: MainCommand)
    ensures
        r == spec_main_command(arg_views(args@)),
{
    if args.len() > 1 {
        let a = args[1].as_str();
        proof {
            assert(arg_views(args@)[1] == a@);
        }
        if str_eq(a, "mcp") {
            MainCommand::Mcp
        } else if str_eq(a, "plugin") {
            MainCommand::Plugin
        } else if str_eq(a, "--help") || str_eq(a, "-h") {
            MainCommand::Help
        } else {
            MainCommand::Run
        }
    } else {
        MainCommand::Run
    }
}

/// A subcommand of `xtop plugin`, `xtop widget` or `xtop layout`.
#[derive(Debug, PartialEq, Eq)]
pub enum Subcommand {
    /// An argument is missing: print this usage line and stop.
    Usage(String),
    /// `list`.
    List,
    /// `install <arg>`.
    Install(String),
    /// `scaffold <name>`.
    Scaffold(String),
    /// `check <file>`.
    Check(String),
    /// Anything else: the unknown subcommand.
    Unknown(String),
}

/// The kind of a subcommand (0 usage, 1 list, 2 install, 3 scaffold, 4
/// check, 5 unknown) with its text.
pub open spec fn sub_view(s: Subcommand) -> (int, Seq<char>) {
    match s {
        Subcommand::Usage(t) => (0, t@),
        Subcommand::List => (1, Seq::empty()),
        Subcommand::Install(t) => (2, t@),
        Subcommand::Scaffold(t) => (3, t@),
        Subcommand::Check(t) => (4, t@),
        Subcommand::Unknown(t) => (5, t@),
    }
}

/// `xtop plugin <list|install|scaffold>`.
pub open spec fn spec_plugin_subcommand(args: Seq<Seq<char>>) -> (int, Seq<char>) {
    if args.len() < 3 {
        (0, "Usage: xtop plugin <list|install|scaffold>"@)
    } else if args[2] == "list"@ {
        (1, Seq::empty())
    } else if args[2] == "install"@ {
        if args.len() < 4 {
            (0, "Usage: xtop plugin install <git-url|name>"@)
        } else {
            (2, args[3])
        }
    } else if args[2] == "scaffold"@ {
        if args.len() < 4 {
            (0, "Usage: xtop plugin scaffold <name>"@)
        } else {
            (3, args[3])
        }
    } else {
        (5, args[2])
    }
}

/// `xtop widget <list|install|scaffold>`.
pub open spec fn spec_widget_subcommand(args: Seq<Seq<char>>) -> (int, Seq<char>) {
    if args.len() < 3 {
        (0, "Usage: xtop widget <list|install|scaffold>"@)
    } else if args[2] == "list"@ {
        (1, Seq::empty())
    } else if args[2] == "install"@ {
        if args.len() < 4 {
            (0, "Usage: xtop widget install <repo|path|name>"@)
        } else {
            (2, args[3])
        }
    } else if args[2] == "scaffold"@ {
        if args.len() < 4 {
            (0, "Usage: xtop widget scaffold <name>"@)
        } else {
            (3, args[3])
        }
    } else {
        (5, args[2])
    }
}

/// `xtop layout <install|check>`.
pub open spec fn spec_layout_subcommand(args: Seq<Seq<char>>) -> (int, Seq<char>) {
    if args.len() < 3 {
        (0, "Usage: xtop layout <install|check>"@)
    } else if args[2] == "install"@ {
        if args.len() < 4 {
            (0, "Usage: xtop layout install <name>"@)
        } else {
            (2, args[3])
        }
    } else if args[2] == "check"@ {
        if args.len() < 4 {
            (0, "Usage: xtop layout check <file.jsonc|file.json>"@)
        } else {
            (4, args[3])
        }
    } else {
        (5, args[2])
    }
}

fn arg_at(args: &Vec<String>, i: usize) -> (r: String)
    requires
        i < args@.len(),
    ensures
        r@ == arg_views(args@)[i as int],
{
    args[i].clone()
}

/// The `xtop plugin` subcommand (see `spec_plugin_subcommand`).
pub fn plugin_subcommand(args: &Vec<String>) -> (r: Subcommand)
    ensures
        sub_view(r) == spec_plugin_subcommand(arg_views(args@)),
{
    if args.len() < 3 {
        return Subcommand::Usage("Usage: xtop plugin <list|install|scaffold>".to_string());
    }
    let sub = args[2].as_str();
    proof {
        assert(arg_views(args@)[2] == sub@);
    }
    if str_eq(sub, "list") {
        Subcommand::List
    } else if str_eq(sub, "install") {
        if args.len() < 4 {
            Subcommand::Usage("Usage: xtop plugin install <git-url|name>".to_string())
        } else {
            Subcommand::Install(arg_at(args, 3))
        }
    } else if str_eq(sub, "scaffold") {
        if args.len() < 4 {
            Subcommand::Usage("Usage: xtop plugin scaffold <name>".to_string())
        } else {
            Subcommand::Scaffold(arg_at(args, 3))
        }
    } else {
        Subcommand::Unknown(arg_at(args, 2))
    }
}

/// The `xtop widget` subcommand (see `spec_widget_subcommand`).
pub fn widget_subcommand(args: &Vec<String>) -> (r: Subcommand)
    ensures
        sub_view(r) == spec_widget_subcommand(arg_views(args@)),
{
    if args.len() < 3 {
        return Subcommand::Usage("Usage: xtop widget <list|install|scaffold>".to_string());
    }
    let sub = args[2].as_str();
    proof {
        assert(arg_views(args@)[2] == sub@);
    }
    if str_eq(sub, "list") {
        Subcommand::List
    } else if str_eq(sub, "install") {
        if args.len() < 4 {
            Subcommand::Usage("Usage: xtop widget install <repo|path|name>".to_string())
        } else {
            Subcommand::Install(arg_at(args, 3))
        }
    } else if str_eq(sub, "scaffold") {
        if args.len() < 4 {
            Subcommand::Usage("Usage: xtop widget scaffold <name>".to_string())
        } else {
            Subcommand::Scaffold(arg_at(args, 3))
        }
    } else {
        Subcommand::Unknown(arg_at(args, 2))
    }
}

/// The `xtop layout` subcommand (see `spec_layout_subcommand`).
pub fn layout_subcommand(args: &Vec<String>) -> (r: Subcommand)
    ensures
        sub_view(r) == spec_layout_subcommand(arg_views(args@)),
{
    if args.len() < 3 {
        return Subcommand::Usage("Usage: xtop layout <install|check>".to_string());
    }
    let sub = args[2].as_str();
    proof {
        assert(arg_views(args@)[2] == sub@);
    }
    if str_eq(sub, "install") {
        if args.len() < 4 {
            Subcommand::Usage("Usage: xtop layout install <name>".to_string())
        } else {
            Subcommand::Install(arg_at(args, 3))
        }
    } else if str_eq(sub, "check") {
        if args.len() < 4 {
            Subcommand::Usage("Usage: xtop layout check <file.jsonc|file.json>".to_string())
        } else {
            Subcommand::Check(arg_at(args, 3))
        }
    } else {
        Subcommand::Unknown(arg_at(args, 2))
    }
}

} // verus!
