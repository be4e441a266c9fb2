use yamete_kudasai_system::hooks::{bash_hook_block, zsh_hook_block, MARKER_END, MARKER_START};
use yamete_kudasai_system::platform::{unix, windows};
use yamete_kudasai_system::quote::{bash_single_quote, posix_path, ps_single_quote};

#[test]
fn quoting() {
    assert_eq!(ps_single_quote("it's 'x'"), "it''s ''x''");
    assert_eq!(bash_single_quote("it's"), "it'\\''s");
    assert_eq!(posix_path("C:\\Users\\me\\log"), "C:/Users/me/log");
    assert_eq!(ps_single_quote(""), "");
}

#[test]
fn bash_block_text() {
    let path = "C:\\it's\\log";
    let escaped = "C:/it'\\''s/log";
    let expected = format!(
        "{start}\nexport YAMETE_KUDASAI_EVENT_FILE='{path}'\n__yamete_kudasai_precmd() {{\n  local yk_code=$?\n  if [ \"$yk_code\" -ne 0 ]; then\n    local yk_cmd\n    yk_cmd=\"$(history 1 2>/dev/null | sed 's/^ *[0-9]\\+ *//')\"\n    printf '%s|bash|%s|%s\\n' \"$(date +%Y-%m-%dT%H:%M:%S%z)\" \"$yk_code\" \"$yk_cmd\" >> \"$YAMETE_KUDASAI_EVENT_FILE\" 2>/dev/null\n  fi\n}}\ncase \";$PROMPT_COMMAND;\" in\n  *\";__yamete_kudasai_precmd;\"*) ;;\n  *) PROMPT_COMMAND=\"__yamete_kudasai_precmd${{PROMPT_COMMAND:+;$PROMPT_COMMAND}}\" ;;\nesac\n{end}\n",
        start = MARKER_START,
        end = MARKER_END,
        path = escaped
    );
    assert_eq!(bash_hook_block(path), expected);
}

#[test]
fn zsh_block_text() {
    let expected = format!(
        "{start}\nexport YAMETE_KUDASAI_EVENT_FILE='{path}'\n__yamete_kudasai_precmd() {{\n  local yk_code=$?\n  if [[ $yk_code -ne 0 ]]; then\n    local yk_cmd=\"${{history[$((HISTCMD-1))]}}\"\n    printf '%s|zsh|%s|%s\\n' \"$(date +%Y-%m-%dT%H:%M:%S%z)\" \"$yk_code\" \"$yk_cmd\" >> \"$YAMETE_KUDASAI_EVENT_FILE\" 2>/dev/null\n  fi\n}}\nautoload -Uz add-zsh-hook 2>/dev/null\nadd-zsh-hook precmd __yamete_kudasai_precmd\n{end}\n",
        start = MARKER_START,
        end = MARKER_END,
        path = "/a/b.log"
    );
    assert_eq!(zsh_hook_block("\\a\\b.log"), expected);
}

#[test]
fn powershell_block_text() {
    let expected = format!(
        "{start}\n$env:YAMETE_KUDASAI_EVENT_FILE = '{path}'\nif (-not (Get-Variable -Scope Global -Name __yk_prompt_wrapped -ErrorAction SilentlyContinue)) {{\n  $global:__yk_prompt_wrapped = $true\n  $global:__yk_original_prompt = (Get-Command prompt -CommandType Function).ScriptBlock\n  function global:prompt {{\n    try {{\n      $yk_failed = -not $?\n      $yk_code = $global:LASTEXITCODE\n      $yk_native_failed = ($yk_code -is [int]) -and ($yk_code -ne 0)\n      if ($yk_failed -or $yk_native_failed) {{\n        if (-not ($yk_code -is [int])) {{ $yk_code = if ($yk_failed) {{ 1 }} else {{ 0 }} }}\n        $yk_cmd = (Get-History -Count 1 -ErrorAction SilentlyContinue).CommandLine\n        $yk_line = \"{{0}}|powershell|{{1}}|{{2}}\" -f (Get-Date -Format o), $yk_code, $yk_cmd\n        Add-Content -Path $env:YAMETE_KUDASAI_EVENT_FILE -Value $yk_line -Encoding UTF8\n      }}\n    }} catch {{}}\n    & $global:__yk_original_prompt\n  }}\n}}\n{end}\n",
        start = MARKER_START,
        end = MARKER_END,
        path = "C:\\Users\\O''Neil\\e.log"
    );
    assert_eq!(windows::powershell_hook_block("C:\\Users\\O'Neil\\e.log"), expected);
    assert_eq!(windows::install_platform_shell_hooks("C:\\Users\\O'Neil\\e.log", true), Ok(expected));
    assert_eq!(
        windows::install_platform_shell_hooks("x", false),
        Err("Could not resolve Documents directory for PowerShell profiles.".to_string())
    );
}

#[test]
fn exe_names() {
    assert_eq!(unix::installed_exe_name(), "yamete-kudasai-system");
    assert_eq!(windows::installed_exe_name(), "yamete-kudasai-system.exe");
}

#[test]
fn linux_startup_entry() {
    let f = unix::configure_startup("/opt/yk", false);
    assert!(matches!(f.dir, unix::StartupDir::Autostart));
    assert_eq!(f.file_name, "com.yamete-kudasai.agent.desktop");
    assert_eq!(
        f.content,
        "[Desktop Entry]\nType=Application\nName=YameteKudasai\nExec=\"/opt/yk\" --agent-loop\nHidden=false\nNoDisplay=true\nX-GNOME-Autostart-enabled=true\nComment=Terminal error sound agent\n"
    );
}

#[test]
fn macos_startup_entry() {
    let f = unix::configure_startup("/Applications/yk", true);
    assert!(matches!(f.dir, unix::StartupDir::LaunchAgents));
    assert_eq!(f.file_name, "com.yamete-kudasai.agent.plist");
    let expected = format!(
        r#"<?xml version="1.0" encoding="UTF-8"?>
<!DOCTYPE plist PUBLIC "-//Apple//DTD PLIST 1.0//EN" "http://www.apple.com/DTDs/PropertyList-1.0.dtd">
<plist version="1.0">
<dict>
    <key>Label</key>
    <string>{app_id}</string>
    <key>ProgramArguments</key>
    <array>
        <string>{exe}</string>
        <string>--agent-loop</string>
    </array>
    <key>RunAtLoad</key>
    <true/>
    <key>KeepAlive</key>
    <false/>
</dict>
</plist>
"#,
        app_id = "com.yamete-kudasai.agent",
        exe = "/Applications/yk"
    );
    assert_eq!(f.content, expected);
}

#[test]
fn unix_startup_status() {
    let linux = unix::configure_startup("/home/u/.local/share/YameteKudasai/yamete-kudasai-system", false);
    assert_eq!(
        unix::startup_status(false, Some(("/c/a.desktop", Some(&linux.content)))),
        "startup: /home/u/.local/share/YameteKudasai/yamete-kudasai-system --agent-loop"
    );
    let mac = unix::configure_startup("/Users/u/yk", true);
    assert_eq!(unix::startup_status(true, Some(("/p.plist", Some(&mac.content)))), "startup: /Users/u/yk --agent-loop");
    assert_eq!(unix::startup_status(false, Some(("/c/a.desktop", Some("edited by hand")))), "startup: /c/a.desktop");
    assert_eq!(unix::startup_status(false, Some(("/c/a.desktop", Some(&mac.content)))), "startup: /c/a.desktop");
    assert_eq!(unix::startup_status(false, Some(("/c/a.desktop", None))), "startup: (missing)");
    assert_eq!(unix::startup_status(false, None), "startup: (unknown config dir)");
    assert_eq!(unix::startup_status(true, None), "startup: (unknown home)");
}

#[test]
fn unix_platform_hooks_are_empty() {
    assert_eq!(unix::install_platform_shell_hooks("/x"), Ok(()));
    assert_eq!(unix::remove_platform_shell_hooks(), Ok(()));
    assert!(unix::platform_profile_hooks_state().is_empty());
}

#[test]
fn windows_startup() {
    assert_eq!(windows::configure_startup("C:\\yk.exe"), "\"C:\\yk.exe\" --agent-loop");
    let value = windows::configure_startup("C:\\yk.exe");
    assert_eq!(windows::startup_status(Ok(Some(&value))), "startup: C:\\yk.exe --agent-loop");
    assert_eq!(windows::startup_status(Ok(Some("other.exe /run"))), "startup: other.exe /run");
    assert_eq!(windows::startup_status(Ok(None)), "startup: (missing)");
    assert_eq!(windows::startup_status(Err("denied")), "startup: error (denied)");
}

#[test]
fn windows_profile_states() {
    assert_eq!(windows::platform_profile_hooks_state(Some((true, false))), vec!["windows_powershell=true", "pwsh=false"]);
    assert_eq!(windows::platform_profile_hooks_state(None), vec!["windows_powershell=unknown", "pwsh=unknown"]);
}
