//! Windows: the registry startup entry and the PowerShell profile hooks.

use vstd::prelude::*;
use crate::hooks::{block_text, lemma_block_is_marked, marked_block, MARKER_END, MARKER_START};
use crate::text::contains;
use crate::marked::{
    is_marked_block, lemma_strip_after_upsert, lemma_upsert_idempotent, strip_marked,
    strip_terminates, upserted, with_line_end,
};
use crate::quote::{ps_single_quote, replace_char};
use crate::report::{bool_text, push_bool};
use crate::platform::unix::{lemma_program_line_not_missing, program_line};
use crate::text::{lemma_strip_affixes, lemma_strip_affixes_exact, push_text, strip_affixes, strip_affixes_text};

verus! {

broadcast use vstd::string::group_string_axioms;

/// The name of the directory, under `LOCALAPPDATA`, that holds the installation.
pub const INSTALL_DIR_NAME: &'static str = "YameteKudasai";

/// The name of the value in the `Run` registry key that starts the agent.
pub const STARTUP_VALUE_NAME: &'static str = "YameteKudasai";

/// The registry key whose values Windows runs when the user logs in.
pub const RUN_KEY: &'static str = "Software\\Microsoft\\Windows\\CurrentVersion\\Run";

/// The program's file name once installed.
pub fn installed_exe_name() -> (r: &'static str)
    ensures
        r@ == "yamete-kudasai-system.exe"@,
{
    "yamete-kudasai-system.exe"
}

/// The startup entry that starts `installed_exe` as the agent: the command
/// line to store under `STARTUP_VALUE_NAME` in `RUN_KEY`.
pub fn configure_startup(installed_exe: &str) -> (r: String)
    ensures
        r@ == "\""@ + installed_exe@ + "\" --agent-loop"@,
{
    let mut s = "\"".to_owned();
    push_text(&mut s, installed_exe);
    push_text(&mut s, "\" --agent-loop");
    s
}

/// The program that the registry value `value` starts as the agent, if it
/// has the form that `configure_startup` writes.
pub open spec fn value_program(value: Seq<char>) -> Option<Seq<char>> {
    strip_affixes(value, "\""@, "\" --agent-loop"@)
}

/// The status line for the startup entry: the registry key could not be
/// opened (`Err`), or the stored command, if there is one. A command in the
/// form `configure_startup` writes shows the program it starts and the agent
/// flag; another is shown as it is.
pub fn startup_status(value: Result<Option<&str>, &str>) -> (r: String)
    ensures
        r@ == match value {
            Err(e) => "startup: error ("@ + e@ + ")"@,
            Ok(Some(v)) => match value_program(v@) {
                Some(program) => program_line(program),
                None => "startup: "@ + v@,
            },
            Ok(None) => "startup: (missing)"@,
        },
{
    match value {
        Err(e) => {
            let mut s = "startup: error (".to_owned();
            push_text(&mut s, e);
            push_text(&mut s, ")");
            s
        },
        Ok(Some(v)) => {
            let mut s = "startup: ".to_owned();
            match strip_affixes_text(v, "\"", "\" --agent-loop") {
                Some(p) => {
                    push_text(&mut s, p.as_str());
                    push_text(&mut s, " --agent-loop");
                },
                None => push_text(&mut s, v),
            }
            s
        },
        Ok(None) => "startup: (missing)".to_owned(),
    }
}

/// The status line names a program only for a value that is exactly the
/// command `configure_startup` writes for that program; any other value is
/// shown as it is stored.
pub proof fn lemma_status_names_program_only_for_own_value(value: Seq<char>)
    ensures
        value_program(value) matches Some(p) ==> value == "\""@ + p + "\" --agent-loop"@,
        value_program(value) is None ==> forall|p: Seq<char>|
            value != "\""@ + p + "\" --agent-loop"@,
{
    lemma_strip_affixes_exact(value, "\""@, "\" --agent-loop"@);
}

/// Once `configure_startup` has stored the command for `installed_exe`, the
/// status line shows that program and the agent flag, never the line for a
/// missing entry; once the value is deleted, the line is the one for a
/// missing entry.
pub proof fn lemma_startup_status_follows_entry(installed_exe: Seq<char>)
    ensures
        value_program("\""@ + installed_exe + "\" --agent-loop"@) == Some(installed_exe),
        program_line(installed_exe) != "startup: (missing)"@,
{
    lemma_strip_affixes("\""@, installed_exe, "\" --agent-loop"@);
    lemma_program_line_not_missing(installed_exe);
}

/// The text between the start marker and the event log's path.
pub const PS_HEAD: &'static str = "\n$env:YAMETE_KUDASAI_EVENT_FILE = '";

/// The rest of the PowerShell block, after the event log's path.
pub const PS_BODY: &'static str = "'\nif (-not (Get-Variable -Scope Global -Name __yk_prompt_wrapped -ErrorAction SilentlyContinue)) {\n  $global:__yk_prompt_wrapped = $true\n  $global:__yk_original_prompt = (Get-Command prompt -CommandType Function).ScriptBlock\n  function global:prompt {\n    try {\n      $yk_failed = -not $?\n      $yk_code = $global:LASTEXITCODE\n      $yk_native_failed = ($yk_code -is [int]) -and ($yk_code -ne 0)\n      if ($yk_failed -or $yk_native_failed) {\n        if (-not ($yk_code -is [int])) { $yk_code = if ($yk_failed) { 1 } else { 0 } }\n        $yk_cmd = (Get-History -Count 1 -ErrorAction SilentlyContinue).CommandLine\n        $yk_line = \"{0}|powershell|{1}|{2}\" -f (Get-Date -Format o), $yk_code, $yk_cmd\n        Add-Content -Path $env:YAMETE_KUDASAI_EVENT_FILE -Value $yk_line -Encoding UTF8\n      }\n    } catch {}\n    & $global:__yk_original_prompt\n  }\n}\n";

/// The path as the PowerShell block writes it: quoted.
pub open spec fn ps_path(event_file: Seq<char>) -> Seq<char> {
    replace_char(event_file, '\'', seq!['\'', '\''])
}

/// The PowerShell block is a marked block when the path it writes does not
/// hold the end marker.
pub proof fn lemma_ps_block_marked(event_file: Seq<char>)
    requires
        !contains(ps_path(event_file), MARKER_END@),
    ensures
        is_marked_block(block_text(PS_HEAD@, ps_path(event_file), PS_BODY@), MARKER_START@, MARKER_END@),
{
    reveal_strlit("\n$env:YAMETE_KUDASAI_EVENT_FILE = '");
    reveal_strlit("'\nif (-not (Get-Variable -Scope Global -Name __yk_prompt_wrapped -ErrorAction SilentlyContinue)) {\n  $global:__yk_prompt_wrapped = $true\n  $global:__yk_original_prompt = (Get-Command prompt -CommandType Function).ScriptBlock\n  function global:prompt {\n    try {\n      $yk_failed = -not $?\n      $yk_code = $global:LASTEXITCODE\n      $yk_native_failed = ($yk_code -is [int]) -and ($yk_code -ne 0)\n      if ($yk_failed -or $yk_native_failed) {\n        if (-not ($yk_code -is [int])) { $yk_code = if ($yk_failed) { 1 } else { 0 } }\n        $yk_cmd = (Get-History -Count 1 -ErrorAction SilentlyContinue).CommandLine\n        $yk_line = \"{0}|powershell|{1}|{2}\" -f (Get-Date -Format o), $yk_code, $yk_cmd\n        Add-Content -Path $env:YAMETE_KUDASAI_EVENT_FILE -Value $yk_line -Encoding UTF8\n      }\n    } catch {}\n    & $global:__yk_original_prompt\n  }\n}\n");
    assert(PS_BODY@[0] == '\'');
    lemma_block_is_marked(PS_HEAD@, ps_path(event_file), PS_BODY@);
}

/// The PowerShell profile block: it sets the event log's path, quoted, and
/// wraps the prompt so that each failed command is appended to the log.
pub fn powershell_hook_block(event_file: &str) -> (r: String)
    ensures
        r@ == block_text(PS_HEAD@, ps_path(event_file@), PS_BODY@),
{
    let quoted = ps_single_quote(event_file);
    marked_block(PS_HEAD, quoted.as_str(), PS_BODY)
}

/// The block to write into both PowerShell profiles, or the error when the
/// Documents directory that holds them could not be located.
pub fn install_platform_shell_hooks(event_file: &str, documents_known: bool) -> (r: Result<String, String>)
    ensures
        r is Ok <==> documents_known,
        r matches Ok(b) ==> b@ == block_text(PS_HEAD@, ps_path(event_file@), PS_BODY@),
        r matches Err(e) ==> e@ == "Could not resolve Documents directory for PowerShell profiles."@,
{
    if documents_known {
        Ok(powershell_hook_block(event_file))
    } else {
        Err("Could not resolve Documents directory for PowerShell profiles.".to_owned())
    }
}

/// The hook state of Windows PowerShell's and PowerShell 7's profiles, or
/// `unknown` for both when the Documents directory could not be located.
pub fn platform_profile_hooks_state(found: Option<(bool, bool)>) -> (r: Vec<String>)
    ensures
        r.len() == 2,
        r[0]@ == "windows_powershell="@ + match found {
            Some((a, _)) => bool_text(a),
            None => "unknown"@,
        },
        r[1]@ == "pwsh="@ + match found {
            Some((_, b)) => bool_text(b),
            None => "unknown"@,
        },
{
    let mut first = "windows_powershell=".to_owned();
    let mut second = "pwsh=".to_owned();
    match found {
        Some((a, b)) => {
            push_bool(&mut first, a);
            push_bool(&mut second, b);
        },
        None => {
            push_text(&mut first, "unknown");
            push_text(&mut second, "unknown");
        },
    }
    let mut v = Vec::new();
    v.push(first);
    v.push(second);
    v
}

/// Installing the PowerShell hook into a profile that already has it
/// changes nothing, and removal takes back what it added. The path the block
/// writes must not hold the end marker.
pub proof fn lemma_ps_hook_reinstall(profile: Seq<char>, event_file: Seq<char>)
    requires
        !contains(ps_path(event_file), MARKER_END@),
    ensures
        ({
            let b = block_text(PS_HEAD@, ps_path(event_file), PS_BODY@);
            let once = upserted(profile, MARKER_START@, MARKER_END@, b);
            &&& upserted(once, MARKER_START@, MARKER_END@, b) == once
            &&& strip_marked(once, MARKER_START@, MARKER_END@) == with_line_end(
                strip_marked(profile, MARKER_START@, MARKER_END@),
            )
        }),
{
    let b = block_text(PS_HEAD@, ps_path(event_file), PS_BODY@);
    lemma_ps_block_marked(event_file);
    assert(strip_terminates(profile, MARKER_START@, MARKER_END@));
    lemma_upsert_idempotent(profile, MARKER_START@, MARKER_END@, b);
    lemma_strip_after_upsert(profile, MARKER_START@, MARKER_END@, b);
}

} // verus!
