//! The texts the program prints and writes: numbers, reports, event lines.

use vstd::prelude::*;
use crate::event::{
    code_text, error_event, hook_event_line, is_space, lacks, lemma_decimal_text,
    lemma_failed_command_detected,
};
use crate::text::{push_char, push_text};

verus! {

broadcast use vstd::string::group_string_axioms;

/// The decimal digit character for `d`.
pub open spec fn digit_char(d: int) -> char {
    ('0' as int + d) as char
}

/// `n` written in decimal, without leading zeros.
pub open spec fn decimal_text(n: nat) -> Seq<char>
    decreases n,
{
    if n < 10 {
        seq![digit_char(n as int)]
    } else {
        decimal_text(n / 10).push(digit_char((n % 10) as int))
    }
}

fn digit(d: u64) -> (c: char)
    requires
        d < 10,
    ensures
        c == digit_char(d as int),
{
    let b: u8 = 48u8 + (d as u8);
    b as char
}

/// Appends `n` in decimal to `s`.
pub fn push_decimal(s: &mut String, n: u64)
    ensures
        final(s)@ == old(s)@ + decimal_text(n as nat),
    decreases n,
{
    if n < 10 {
        push_char(s, digit(n));
        assert(final(s)@ =~= old(s)@ + decimal_text(n as nat));
    } else {
        push_decimal(s, n / 10);
        push_char(s, digit(n % 10));
        assert(final(s)@ =~= old(s)@ + decimal_text(n as nat));
    }
}

/// `n` in decimal.
pub fn u64_text(n: u64) -> (r: String)
    ensures
        r@ == decimal_text(n as nat),
{
    let mut s = String::new();
    push_decimal(&mut s, n);
    assert(s@ =~= decimal_text(n as nat));
    s
}

/// `true` or `false`, as `Display` writes a `bool`.
pub open spec fn bool_text(b: bool) -> Seq<char> {
    if b {
        "true"@
    } else {
        "false"@
    }
}

/// Appends `b` as `true` or `false`.
pub fn push_bool(s: &mut String, b: bool)
    ensures
        final(s)@ == old(s)@ + bool_text(b),
{
    if b {
        push_text(s, "true");
    } else {
        push_text(s, "false");
    }
}

/// A timestamp for a self-test event: `unix-` and the seconds since the
/// Unix epoch.
pub fn chrono_like_timestamp(unix_secs: u64) -> (r: String)
    ensures
        r@ == "unix-"@ + decimal_text(unix_secs as nat),
{
    let mut s = "unix-".to_owned();
    push_decimal(&mut s, unix_secs);
    s
}

/// The event line that a self-test appends to the log.
pub fn self_test_event_line(timestamp: &str) -> (r: String)
    ensures
        r@ == timestamp@ + "|self-test|1|manual self test"@,
{
    let mut s = timestamp.to_owned();
    push_text(&mut s, "|self-test|1|manual self test");
    s
}

/// The line a self-test appends is an error event, whatever the time and
/// whatever the pattern: its exit code field is 1.
pub proof fn lemma_self_test_line_is_error(unix_secs: u64, pattern: Seq<char>)
    ensures
        error_event(
            "unix-"@ + decimal_text(unix_secs as nat) + "|self-test|1|manual self test"@,
            pattern,
        ),
{
    reveal_strlit("unix-");
    reveal_strlit("|self-test|1|manual self test");
    reveal_strlit("self-test");
    reveal_strlit("manual self test");
    let d = decimal_text(unix_secs as nat);
    lemma_decimal_text(unix_secs as nat);
    let ts = "unix-"@ + d;
    assert(digit_char(1) == '1');
    assert(code_text(1) =~= seq!['1']);
    assert forall|k: int| 0 <= k < ts.len() implies ts[k] != '|' by {
        if k >= 5 {
            assert(ts[k] == d[k - 5]);
        }
    }
    assert(lacks("self-test"@, '|'));
    assert(!is_space(ts[0]));
    assert(ts + "|self-test|1|manual self test"@ =~= hook_event_line(
        ts,
        "self-test"@,
        1,
        "manual self test"@,
    ));
    lemma_failed_command_detected(ts, "self-test"@, 1, "manual self test"@, pattern);
}

/// What a self-test reports.
pub fn self_test_report(sound: &str, log: &str) -> (r: String)
    ensures
        r@ == "self-test: event appended and direct audio playback executed.\nSound: "@ + sound@
            + "\nlog: "@ + log@,
{
    let mut s = "self-test: event appended and direct audio playback executed.\nSound: ".to_owned();
    push_text(&mut s, sound);
    push_text(&mut s, "\nlog: ");
    push_text(&mut s, log);
    s
}

/// The name of the bundled sound file in the install directory.
pub const SOUND_FILE_NAME: &'static str = "yamete-kudasai-sound.mp3";

/// The name of a downloaded sound file in the install directory.
pub const CUSTOM_SOUND_FILE_NAME: &'static str = "yamete-kudasai-custom-sound.mp3";

/// The name of the event log in the install directory.
pub const EVENT_FILE_NAME: &'static str = "terminal-errors.log";

/// The name of the lock file that keeps a second agent from running.
pub const LOCK_FILE_NAME: &'static str = "agent.lock";

/// The sound to play: the downloaded one when it is there, else the bundled one.
pub fn sound_file_name(custom_exists: bool) -> (r: &'static str)
    ensures
        r@ == if custom_exists {
            CUSTOM_SOUND_FILE_NAME@
        } else {
            SOUND_FILE_NAME@
        },
{
    if custom_exists {
        CUSTOM_SOUND_FILE_NAME
    } else {
        SOUND_FILE_NAME
    }
}

/// Whether the bundled sound must be (re)written: the file is missing, its
/// size is unknown, or its size differs from the bundled sound's.
pub fn sound_file_needs_write(existing_len: Option<u64>, bundled_len: u64) -> (r: bool)
    ensures
        r == match existing_len {
            Some(n) => n != bundled_len,
            None => true,
        },
{
    match existing_len {
        Some(n) => n != bundled_len,
        None => true,
    }
}

/// A download of `len` bytes from `url` is only kept when it is not empty.
pub fn check_download(url: &str, len: usize) -> (r: Result<(), String>)
    ensures
        r is Ok <==> len > 0,
        r matches Err(msg) ==> msg@ == "Downloaded file from '"@ + url@ + "' is empty."@,
{
    if len == 0 {
        let mut s = "Downloaded file from '".to_owned();
        push_text(&mut s, url);
        push_text(&mut s, "' is empty.");
        Err(s)
    } else {
        Ok(())
    }
}

/// The outcome of copying the program into the install directory when the
/// copy failed with `err`: a copy that is already there (perhaps running)
/// is kept; otherwise the copy fails.
pub fn copy_failure(from: &str, to: &str, dest_exists: bool, err: &str) -> (r: Result<(), String>)
    ensures
        r is Ok <==> dest_exists,
        r matches Err(msg) ==> msg@ == "Failed to copy '"@ + from@ + "' to '"@ + to@ + "': "@
            + err@,
{
    if dest_exists {
        Ok(())
    } else {
        let mut s = "Failed to copy '".to_owned();
        push_text(&mut s, from);
        push_text(&mut s, "' to '");
        push_text(&mut s, to);
        push_text(&mut s, "': ");
        push_text(&mut s, err);
        Err(s)
    }
}

/// What a finished installation reports; `custom_sound` is the path of a
/// downloaded sound, if one was given.
pub fn install_report(install_dir: &str, custom_sound: Option<&str>, event_file: &str) -> (r: String)
    ensures
        r@ == "Installed successfully.\nInstall dir: "@ + install_dir@ + "\n"@ + match custom_sound {
            Some(p) => "Custom sound: "@ + p@,
            None => "Sound: built-in default"@,
        } + "\nAgent startup: enabled\nError log: "@ + event_file@,
{
    let mut s = "Installed successfully.\nInstall dir: ".to_owned();
    push_text(&mut s, install_dir);
    push_text(&mut s, "\n");
    let ghost before = s@;
    match custom_sound {
        Some(p) => {
            push_text(&mut s, "Custom sound: ");
            push_text(&mut s, p);
            assert(s@ =~= before + ("Custom sound: "@ + p@));
        },
        None => {
            push_text(&mut s, "Sound: built-in default");
        },
    }
    push_text(&mut s, "\nAgent startup: enabled\nError log: ");
    push_text(&mut s, event_file);
    s
}

/// What the uninstaller reports.
pub fn uninstall_report() -> (r: String)
    ensures
        r@ == "Uninstall steps completed (startup + shell hooks removed)."@,
{
    "Uninstall steps completed (startup + shell hooks removed).".to_owned()
}

/// `parts` joined with commas.
pub open spec fn join_commas(parts: Seq<Seq<char>>) -> Seq<char>
    decreases parts.len(),
{
    if parts.len() == 0 {
        Seq::empty()
    } else if parts.len() == 1 {
        parts[0]
    } else {
        join_commas(parts.drop_last()) + seq![','] + parts.last()
    }
}

/// The texts of a vector of strings.
pub open spec fn texts(v: Seq<String>) -> Seq<Seq<char>> {
    v.map_values(|s: String| s@)
}

/// Appends `parts` joined with commas.
pub fn push_joined(s: &mut String, parts: &Vec<String>)
    ensures
        final(s)@ == old(s)@ + join_commas(texts(parts@)),
{
    let mut i: usize = 0;
    while i < parts.len()
        invariant
            i <= parts.len(),
            s@ == old(s)@ + join_commas(texts(parts@.take(i as int))),
        decreases parts.len() - i,
    {
        if i > 0 {
            push_char(s, ',');
        }
        push_text(s, parts[i].as_str());
        proof {
            let t = texts(parts@.take(i + 1));
            assert(t.drop_last() =~= texts(parts@.take(i as int)));
            assert(t.last() == parts@[i as int]@);
            if i == 0 {
                assert(texts(parts@.take(0)) =~= Seq::<Seq<char>>::empty());
                assert(s@ =~= old(s)@ + join_commas(t));
            } else {
                assert(s@ =~= old(s)@ + join_commas(t));
            }
        }
        i = i + 1;
    }
    assert(parts@.take(parts.len() as int) =~= parts@);
}

/// The state of one shell's hook for the status report: `name=true`,
/// `name=false`, or `name=unknown` when its profile could not be located.
pub fn hook_state(name: &str, present: Option<bool>) -> (r: String)
    ensures
        r@ == name@ + "="@ + match present {
            Some(b) => bool_text(b),
            None => "unknown"@,
        },
{
    let mut s = name.to_owned();
    push_text(&mut s, "=");
    match present {
        Some(b) => push_bool(&mut s, b),
        None => push_text(&mut s, "unknown"),
    }
    s
}

/// What the status command finds out.
pub struct StatusFacts {
    pub install_dir: String,
    pub installed_exe_exists: bool,
    pub sound_path: String,
    pub event_file_exists: bool,
    pub event_file_size: u64,
    pub startup_line: String,
    pub profile_hooks: Vec<String>,
}

/// The status report, one `key: value` line each.
pub fn status_report(f: &StatusFacts) -> (r: String)
    ensures
        r@ == "status: ok\ninstall_dir: "@ + f.install_dir@ + "\ninstalled_exe_exists: "@
            + bool_text(f.installed_exe_exists) + "\nsound_path: "@ + f.sound_path@
            + "\nevent_file_exists: "@ + bool_text(f.event_file_exists) + "\nevent_file_size: "@
            + decimal_text(f.event_file_size as nat) + " bytes\n"@ + f.startup_line@
            + "\nprofile_hooks: "@ + join_commas(texts(f.profile_hooks@)),
{
    let mut s = "status: ok\ninstall_dir: ".to_owned();
    push_text(&mut s, f.install_dir.as_str());
    push_text(&mut s, "\ninstalled_exe_exists: ");
    push_bool(&mut s, f.installed_exe_exists);
    push_text(&mut s, "\nsound_path: ");
    push_text(&mut s, f.sound_path.as_str());
    push_text(&mut s, "\nevent_file_exists: ");
    push_bool(&mut s, f.event_file_exists);
    push_text(&mut s, "\nevent_file_size: ");
    push_decimal(&mut s, f.event_file_size);
    push_text(&mut s, " bytes\n");
    push_text(&mut s, f.startup_line.as_str());
    push_text(&mut s, "\nprofile_hooks: ");
    push_joined(&mut s, &f.profile_hooks);
    s
}

/// How to use the program; `exe` is the name it was started by.
pub fn usage_text(exe: &str) -> (r: String)
    ensures
        r@ == "Usage: "@ + exe@ + USAGE_COMMANDS@,
{
    let mut s = "Usage: ".to_owned();
    push_text(&mut s, exe);
    push_text(&mut s, USAGE_COMMANDS);
    s
}

/// The command list that follows the usage line.
pub const USAGE_COMMANDS: &'static str = " <command> [options]\n\nCommands:\n  (no command)           Install if missing, uninstall if already installed\n  --install              Install agent, configure startup, and start background watcher\n  --install --sound URL  Install with a custom sound file from a URL\n  --uninstall            Stop the agent and remove installed files, startup config, and shell hooks\n  --status               Show current installation status\n  --self-test            Trigger a test sound to verify audio playback";

} // verus!
