//! The command line: which command to run and its options.

use vstd::prelude::*;
use crate::text::same_text;

verus! {

broadcast use vstd::string::group_string_axioms;

/// The argument that startup entries pass to run the agent.
pub const AGENT_FLAG: &'static str = "--agent-loop";

/// What the command line asks for.
pub enum Command {
    /// `--install`, with the URL given after `--sound`, if any.
    Install { sound_url: Option<String> },
    /// `--uninstall`.
    Uninstall,
    /// `--agent-loop`, or `--agent`: run the watcher in the foreground.
    Agent,
    /// `--status`.
    Status,
    /// `--self-test`.
    SelfTest,
    /// No command at all: install when not installed, else uninstall.
    Toggle,
    /// Anything else: print how to use the program.
    Usage,
}

/// The argument after the first `--sound`, if there is one.
pub open spec fn sound_arg(args: Seq<String>) -> Option<Seq<char>>
    decreases args.len(),
{
    if args.len() == 0 {
        None
    } else if args[0]@ == "--sound"@ {
        if args.len() > 1 {
            Some(args[1]@)
        } else {
            None
        }
    } else {
        sound_arg(args.drop_first())
    }
}

/// The text of an optional string.
pub open spec fn opt_view(o: Option<String>) -> Option<Seq<char>> {
    match o {
        Some(s) => Some(s@),
        None => None,
    }
}

/// The argument that follows the first `--sound` among `args`.
pub fn parse_sound_arg(args: &[String]) -> (r: Option<String>)
    ensures
        opt_view(r) == sound_arg(args@),
{
    let mut i: usize = 0;
    assert(args@.skip(0) =~= args@);
    while i < args.len()
        invariant
            i <= args@.len(),
            sound_arg(args@) == sound_arg(args@.skip(i as int)),
        decreases args.len() - i,
    {
        assert(args@.skip(i as int).drop_first() =~= args@.skip(i + 1));
        assert(args@.skip(i as int)[0] == args@[i as int]);
        if same_text(args[i].as_str(), "--sound") {
            if i + 1 < args.len() {
                assert(args@.skip(i as int)[1] == args@[i + 1]);
                return Some(args[i + 1].clone());
            } else {
                return None;
            }
        }
        i = i + 1;
    }
    assert(args@.skip(i as int) =~= Seq::<String>::empty());
    None
}

/// Reads the command from the arguments that follow the program's name.
pub fn parse_command(args: &[String]) -> (r: Command)
    ensures
        match r {
            Command::Install { sound_url } => args@.len() > 0 && args@[0]@ == "--install"@
                && opt_view(sound_url) == sound_arg(args@),
            Command::Uninstall => args@.len() > 0 && args@[0]@ == "--uninstall"@,
            Command::Agent => args@.len() > 0 && (args@[0]@ == AGENT_FLAG@ || args@[0]@ == "--agent"@),
            Command::Status => args@.len() > 0 && args@[0]@ == "--status"@,
            Command::SelfTest => args@.len() > 0 && args@[0]@ == "--self-test"@,
            Command::Toggle => args@.len() == 0,
            Command::Usage => args@.len() > 0 && (args@[0]@ != "--install"@ && args@[0]@
                != "--uninstall"@ && args@[0]@ != AGENT_FLAG@ && args@[0]@ != "--agent"@ && args@[0]@ != "--status"@
                && args@[0]@ != "--self-test"@),
        },
{
    if args.len() == 0 {
        return Command::Toggle;
    }
    let cmd = args[0].as_str();
    if same_text(cmd, "--install") {
        Command::Install { sound_url: parse_sound_arg(args) }
    } else if same_text(cmd, "--uninstall") {
        Command::Uninstall
    } else if same_text(cmd, AGENT_FLAG) || same_text(cmd, "--agent") {
        Command::Agent
    } else if same_text(cmd, "--status") {
        Command::Status
    } else if same_text(cmd, "--self-test") {
        Command::SelfTest
    } else {
        Command::Usage
    }
}

/// What running with no command does: install when the program is not
/// installed yet, uninstall when it is.
pub fn toggle_command(installed: bool) -> (r: Command)
    ensures
        installed ==> r is Uninstall,
        !installed ==> r matches Command::Install { sound_url: None },
{
    if installed {
        Command::Uninstall
    } else {
        Command::Install { sound_url: None }
    }
}

/// The process exit code for what a command returned: 0 for success, 1 for
/// an error.
pub fn exit_code(outcome: &Result<String, String>) -> (code: i32)
    ensures
        code == if outcome is Ok {
            0i32
        } else {
            1i32
        },
{
    match outcome {
        Ok(_) => 0,
        Err(_) => 1,
    }
}

} // verus!
