use yamete_kudasai_system::report::{
    check_download, chrono_like_timestamp, copy_failure, hook_state, install_report,
    self_test_event_line, self_test_report, sound_file_name, sound_file_needs_write, status_report,
    u64_text, uninstall_report, usage_text, StatusFacts, CUSTOM_SOUND_FILE_NAME, SOUND_FILE_NAME,
};

#[test]
fn decimal_numbers() {
    for n in [0u64, 7, 10, 1234, u64::MAX] {
        assert_eq!(u64_text(n), n.to_string());
    }
}

#[test]
fn timestamps() {
    assert_eq!(chrono_like_timestamp(1700000000), "unix-1700000000");
    assert_eq!(chrono_like_timestamp(0), "unix-0");
}

#[test]
fn self_test_texts() {
    assert_eq!(self_test_event_line("unix-5"), "unix-5|self-test|1|manual self test");
    assert_eq!(
        self_test_report("/s.mp3", "/e.log"),
        "self-test: event appended and direct audio playback executed.\nSound: /s.mp3\nlog: /e.log"
    );
}

#[test]
fn custom_sound_takes_priority() {
    assert_eq!(sound_file_name(true), CUSTOM_SOUND_FILE_NAME);
    assert_eq!(sound_file_name(false), SOUND_FILE_NAME);
}

#[test]
fn bundled_sound_rewritten_when_needed() {
    assert!(sound_file_needs_write(None, 10));
    assert!(sound_file_needs_write(Some(9), 10));
    assert!(!sound_file_needs_write(Some(10), 10));
}

#[test]
fn empty_download_is_refused() {
    assert_eq!(check_download("http://x", 0), Err("Downloaded file from 'http://x' is empty.".to_string()));
    assert_eq!(check_download("http://x", 3), Ok(()));
}

#[test]
fn failed_copy_keeps_existing_program() {
    assert_eq!(copy_failure("a", "b", true, "busy"), Ok(()));
    assert_eq!(copy_failure("a", "b", false, "denied"), Err("Failed to copy 'a' to 'b': denied".to_string()));
}

#[test]
fn install_reports() {
    assert_eq!(
        install_report("/d", None, "/d/e.log"),
        "Installed successfully.\nInstall dir: /d\nSound: built-in default\nAgent startup: enabled\nError log: /d/e.log"
    );
    assert_eq!(
        install_report("/d", Some("/d/c.mp3"), "/d/e.log"),
        "Installed successfully.\nInstall dir: /d\nCustom sound: /d/c.mp3\nAgent startup: enabled\nError log: /d/e.log"
    );
    assert_eq!(uninstall_report(), "Uninstall steps completed (startup + shell hooks removed).");
}

#[test]
fn hook_states() {
    assert_eq!(hook_state("bash", Some(true)), "bash=true");
    assert_eq!(hook_state("zsh", Some(false)), "zsh=false");
    assert_eq!(hook_state("bash", None), "bash=unknown");
}

#[test]
fn status_report_lines() {
    let facts = StatusFacts {
        install_dir: "/path/to/install".to_string(),
        installed_exe_exists: true,
        sound_path: "/path/to/yamete-kudasai-sound.mp3".to_string(),
        event_file_exists: true,
        event_file_size: 1234,
        startup_line: "startup: /path/to/exe --agent-loop".to_string(),
        profile_hooks: vec!["windows_powershell=true".to_string(), "pwsh=true".to_string(), "bash=true".to_string(), "zsh=true".to_string()],
    };
    assert_eq!(
        status_report(&facts),
        "status: ok\ninstall_dir: /path/to/install\ninstalled_exe_exists: true\nsound_path: /path/to/yamete-kudasai-sound.mp3\nevent_file_exists: true\nevent_file_size: 1234 bytes\nstartup: /path/to/exe --agent-loop\nprofile_hooks: windows_powershell=true,pwsh=true,bash=true,zsh=true"
    );
    let empty = StatusFacts { profile_hooks: vec![], event_file_size: 0, installed_exe_exists: false, ..facts };
    assert!(status_report(&empty).ends_with("event_file_size: 0 bytes\nstartup: /path/to/exe --agent-loop\nprofile_hooks: "));
}

#[test]
fn usage_lists_commands() {
    let u = usage_text("yk");
    assert!(u.starts_with("Usage: yk <command> [options]\n\nCommands:\n"));
    for c in ["--install", "--uninstall", "--status", "--self-test", "--sound URL"] {
        assert!(u.contains(c));
    }
}
