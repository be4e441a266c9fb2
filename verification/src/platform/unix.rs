//! Linux and macOS: where the agent is registered to start with the session.

use vstd::prelude::*;
use crate::text::{lemma_strip_affixes, lemma_strip_affixes_exact, push_text, strip_affixes, strip_affixes_text};

verus! {

broadcast use vstd::string::group_string_axioms;

/// The name of the directory, under the local data directory, that holds
/// the installation.
pub const INSTALL_DIR_NAME: &'static str = "YameteKudasai";

/// The agent's identifier in startup entries.
pub const APP_ID: &'static str = "com.yamete-kudasai.agent";

/// The program's file name once installed.
pub fn installed_exe_name() -> (r: &'static str)
    ensures
        r@ == "yamete-kudasai-system"@,
{
    "yamete-kudasai-system"
}

/// The directory a startup entry goes in.
pub enum StartupDir {
    /// `~/Library/LaunchAgents`, on macOS.
    LaunchAgents,
    /// The `autostart` directory in the user's configuration directory.
    Autostart,
}

/// A startup entry to write: its directory, its file name, its text.
pub struct StartupFile {
    pub dir: StartupDir,
    pub file_name: String,
    pub content: String,
}

/// The file name of the startup entry: a LaunchAgent property list on macOS,
/// an XDG desktop entry elsewhere.
pub fn startup_file_name(macos: bool) -> (r: String)
    ensures
        r@ == APP_ID@ + if macos {
            ".plist"@
        } else {
            ".desktop"@
        },
{
    let mut s = APP_ID.to_owned();
    if macos {
        push_text(&mut s, ".plist");
    } else {
        push_text(&mut s, ".desktop");
    }
    s
}

/// The directory of the startup entry.
pub fn startup_dir(macos: bool) -> (r: StartupDir)
    ensures
        r == if macos {
            StartupDir::LaunchAgents
        } else {
            StartupDir::Autostart
        },
{
    if macos {
        StartupDir::LaunchAgents
    } else {
        StartupDir::Autostart
    }
}

/// The text of the XDG desktop entry that starts `installed_exe` as the agent.
pub fn desktop_entry(installed_exe: &str) -> (r: String)
    ensures
        r@ == DESKTOP_HEAD@ + installed_exe@ + DESKTOP_TAIL@,
{
    let mut s = DESKTOP_HEAD.to_owned();
    push_text(&mut s, installed_exe);
    push_text(&mut s, DESKTOP_TAIL);
    s
}

/// The desktop entry up to the program's path.
pub const DESKTOP_HEAD: &'static str = "[Desktop Entry]\nType=Application\nName=YameteKudasai\nExec=\"";

/// The desktop entry after the program's path.
pub const DESKTOP_TAIL: &'static str = "\" --agent-loop\nHidden=false\nNoDisplay=true\nX-GNOME-Autostart-enabled=true\nComment=Terminal error sound agent\n";

/// The property list up to the agent's label.
pub const PLIST_HEAD: &'static str = "<?xml version=\"1.0\" encoding=\"UTF-8\"?>\n<!DOCTYPE plist PUBLIC \"-//Apple//DTD PLIST 1.0//EN\" \"http://www.apple.com/DTDs/PropertyList-1.0.dtd\">\n<plist version=\"1.0\">\n<dict>\n    <key>Label</key>\n    <string>";

/// The property list between the label and the program's path.
pub const PLIST_MIDDLE: &'static str = "</string>\n    <key>ProgramArguments</key>\n    <array>\n        <string>";

/// The property list after the program's path.
pub const PLIST_TAIL: &'static str = "</string>\n        <string>--agent-loop</string>\n    </array>\n    <key>RunAtLoad</key>\n    <true/>\n    <key>KeepAlive</key>\n    <false/>\n</dict>\n</plist>\n";

/// The text of the LaunchAgent property list that starts `installed_exe` as
/// the agent when the user logs in.
pub fn launch_agent_plist(installed_exe: &str) -> (r: String)
    ensures
        r@ == PLIST_HEAD@ + APP_ID@ + PLIST_MIDDLE@ + installed_exe@ + PLIST_TAIL@,
{
    let mut s = PLIST_HEAD.to_owned();
    push_text(&mut s, APP_ID);
    push_text(&mut s, PLIST_MIDDLE);
    push_text(&mut s, installed_exe);
    push_text(&mut s, PLIST_TAIL);
    s
}

/// The startup entry that starts `installed_exe` as the agent.
pub fn configure_startup(installed_exe: &str, macos: bool) -> (r: StartupFile)
    ensures
        r.dir == startup_dir_spec(macos),
        r.file_name@ == APP_ID@ + if macos {
            ".plist"@
        } else {
            ".desktop"@
        },
        r.content@ == if macos {
            PLIST_HEAD@ + APP_ID@ + PLIST_MIDDLE@ + installed_exe@ + PLIST_TAIL@
        } else {
            DESKTOP_HEAD@ + installed_exe@ + DESKTOP_TAIL@
        },
{
    let content = if macos {
        launch_agent_plist(installed_exe)
    } else {
        desktop_entry(installed_exe)
    };
    StartupFile { dir: startup_dir(macos), file_name: startup_file_name(macos), content }
}

/// The directory of the startup entry, as a value.
pub open spec fn startup_dir_spec(macos: bool) -> StartupDir {
    if macos {
        StartupDir::LaunchAgents
    } else {
        StartupDir::Autostart
    }
}

/// The status line for a startup entry that starts `program` as the agent.
pub open spec fn program_line(program: Seq<char>) -> Seq<char> {
    "startup: "@ + program + " --agent-loop"@
}

/// The program that the startup entry `content` starts as the agent, if the
/// entry has the form that `configure_startup` writes.
pub open spec fn entry_program(macos: bool, content: Seq<char>) -> Option<Seq<char>> {
    if macos {
        strip_affixes(content, PLIST_HEAD@ + APP_ID@ + PLIST_MIDDLE@, PLIST_TAIL@)
    } else {
        strip_affixes(content, DESKTOP_HEAD@, DESKTOP_TAIL@)
    }
}

/// The status line for the startup entry. `entry` is the entry's path and
/// its text when the file exists, or nothing when its directory could not be
/// located. An entry in the form `configure_startup` writes shows the
/// program it starts and the agent flag; another shows its path.
pub fn startup_status(macos: bool, entry: Option<(&str, Option<&str>)>) -> (r: String)
    ensures
        r@ == match entry {
            Some((path, Some(content))) => match entry_program(macos, content@) {
                Some(program) => program_line(program),
                None => "startup: "@ + path@,
            },
            Some((_, None)) => "startup: (missing)"@,
            None => if macos {
                "startup: (unknown home)"@
            } else {
                "startup: (unknown config dir)"@
            },
        },
{
    match entry {
        Some((path, Some(content))) => {
            let program = if macos {
                let mut head = PLIST_HEAD.to_owned();
                push_text(&mut head, APP_ID);
                push_text(&mut head, PLIST_MIDDLE);
                strip_affixes_text(content, head.as_str(), PLIST_TAIL)
            } else {
                strip_affixes_text(content, DESKTOP_HEAD, DESKTOP_TAIL)
            };
            let mut s = "startup: ".to_owned();
            match program {
                Some(p) => {
                    push_text(&mut s, p.as_str());
                    push_text(&mut s, " --agent-loop");
                },
                None => push_text(&mut s, path),
            }
            s
        },
        Some((_, None)) => "startup: (missing)".to_owned(),
        None => if macos {
            "startup: (unknown home)".to_owned()
        } else {
            "startup: (unknown config dir)".to_owned()
        },
    }
}

/// The status line names a program only for an entry whose text is exactly
/// what `configure_startup` writes for that program; any other entry is
/// shown by its path.
pub proof fn lemma_status_names_program_only_for_own_entry(macos: bool, content: Seq<char>)
    ensures
        entry_program(macos, content) matches Some(p) ==> content == if macos {
            PLIST_HEAD@ + APP_ID@ + PLIST_MIDDLE@ + p + PLIST_TAIL@
        } else {
            DESKTOP_HEAD@ + p + DESKTOP_TAIL@
        },
        entry_program(macos, content) is None ==> forall|p: Seq<char>|
            content != if macos {
                PLIST_HEAD@ + APP_ID@ + PLIST_MIDDLE@ + p + PLIST_TAIL@
            } else {
                DESKTOP_HEAD@ + p + DESKTOP_TAIL@
            },
{
    let head = if macos {
        PLIST_HEAD@ + APP_ID@ + PLIST_MIDDLE@
    } else {
        DESKTOP_HEAD@
    };
    let tail = if macos {
        PLIST_TAIL@
    } else {
        DESKTOP_TAIL@
    };
    lemma_strip_affixes_exact(content, head, tail);
}

/// Once `configure_startup` has written the entry for `installed_exe`, the
/// status line shows that program and the agent flag, which is never the
/// line for a missing entry; once the entry is removed, the line is the one
/// for a missing entry.
pub proof fn lemma_startup_status_follows_entry(installed_exe: Seq<char>, macos: bool)
    ensures
        entry_program(
            macos,
            if macos {
                PLIST_HEAD@ + APP_ID@ + PLIST_MIDDLE@ + installed_exe + PLIST_TAIL@
            } else {
                DESKTOP_HEAD@ + installed_exe + DESKTOP_TAIL@
            },
        ) == Some(installed_exe),
        program_line(installed_exe) != "startup: (missing)"@,
{
    if macos {
        lemma_strip_affixes(PLIST_HEAD@ + APP_ID@ + PLIST_MIDDLE@, installed_exe, PLIST_TAIL@);
        assert(PLIST_HEAD@ + APP_ID@ + PLIST_MIDDLE@ + installed_exe + PLIST_TAIL@ =~= (PLIST_HEAD@
            + APP_ID@ + PLIST_MIDDLE@) + installed_exe + PLIST_TAIL@);
    } else {
        lemma_strip_affixes(DESKTOP_HEAD@, installed_exe, DESKTOP_TAIL@);
    }
    lemma_program_line_not_missing(installed_exe);
}

/// A status line that names a program is never the line for a missing entry.
pub proof fn lemma_program_line_not_missing(program: Seq<char>)
    ensures
        program_line(program) != "startup: (missing)"@,
{
    reveal_strlit("startup: ");
    reveal_strlit(" --agent-loop");
    reveal_strlit("startup: (missing)");
    assert(program_line(program).len() >= 22);
}

/// Bash and Zsh hooks are shared by all platforms; there is nothing more to
/// install here.
pub fn install_platform_shell_hooks(event_file: &str) -> (r: Result<(), String>)
    ensures
        r is Ok,
{
    Ok(())
}

/// There is nothing platform-specific to remove here.
pub fn remove_platform_shell_hooks() -> (r: Result<(), String>)
    ensures
        r is Ok,
{
    Ok(())
}

/// There are no platform-specific shell profiles to report on here.
pub fn platform_profile_hooks_state() -> (r: Vec<String>)
    ensures
        r.len() == 0,
{
    Vec::new()
}

} // verus!
