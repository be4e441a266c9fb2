use yamete_kudasai_system::hooks::{bash_hook_block, zsh_hook_block, MARKER_END, MARKER_START};
use yamete_kudasai_system::marked::{
    content_has_marker, remove_marked_ranges, removal_ends, upsert_marked_text,
};

fn removed(content: &str, start: &str, end: &str) -> String {
    let mut s = content.to_string();
    remove_marked_ranges(&mut s, start, end);
    s
}

fn upserted(content: &str, block: &str) -> String {
    let mut s = content.to_string();
    upsert_marked_text(&mut s, MARKER_START, MARKER_END, block);
    s
}

#[test]
fn removes_block_and_following_newlines() {
    let text = "a\n# >>> YAMETE_KUDASAI >>>\nhook\n# <<< YAMETE_KUDASAI <<<\n\n\nb\n";
    assert_eq!(removed(text, MARKER_START, MARKER_END), "a\nb\n");
}

#[test]
fn removes_every_block() {
    let text = "x<s>1<e>\ny<s>2<e>z";
    assert_eq!(removed(text, "<s>", "<e>"), "xyz");
}

#[test]
fn start_without_end_cuts_the_rest() {
    assert_eq!(removed("keep\n<s>dangling\nmore", "<s>", "<e>"), "keep\n");
}

#[test]
fn end_before_start_is_left_alone() {
    assert_eq!(removed("<e>a<s>b<e>c", "<s>", "<e>"), "<e>ac");
}

#[test]
fn text_without_markers_is_unchanged() {
    assert_eq!(removed("plain text\n", MARKER_START, MARKER_END), "plain text\n");
    assert_eq!(removed("", MARKER_START, MARKER_END), "");
}

#[test]
fn empty_start_marker_removes_everything() {
    assert_eq!(removed("a<e>b<e>\nc", "", "<e>"), "");
}

#[test]
fn newline_start_marker_with_empty_end() {
    assert_eq!(removed("a\n\nb", "\n", ""), "ab");
}

#[test]
fn non_ascii_text_around_blocks() {
    assert_eq!(removed("héllo ✓\n<s>ü<e>\nñ", "<s>", "<e>"), "héllo ✓\nñ");
}

#[test]
fn removal_is_idempotent() {
    let text = "a<s>b<e>\n\nc<s>d";
    let once = removed(text, "<s>", "<e>");
    assert_eq!(removed(&once, "<s>", "<e>"), once);
}

#[test]
fn upsert_into_empty_profile() {
    let block = bash_hook_block("/tmp/log");
    assert_eq!(upserted("", &block), block);
}

#[test]
fn upsert_adds_missing_line_end() {
    let block = zsh_hook_block("/tmp/log");
    assert_eq!(upserted("alias x=y", &block), format!("alias x=y\n{block}"));
    assert_eq!(upserted("alias x=y\n", &block), format!("alias x=y\n{block}"));
}

#[test]
fn upsert_twice_keeps_one_block() {
    let block = bash_hook_block("/home/u/it's/terminal-errors.log");
    let once = upserted("export A=1\n", &block);
    let twice = upserted(&once, &block);
    assert_eq!(once, twice);
    assert_eq!(twice.matches(MARKER_START).count(), 1);
}

#[test]
fn upsert_replaces_old_block() {
    let old = bash_hook_block("/old/path.log");
    let new = bash_hook_block("/new/path.log");
    let first = upserted("x\n", &old);
    let second = upserted(&first, &new);
    assert_eq!(second, format!("x\n{new}"));
}

#[test]
fn remove_after_upsert_restores_profile() {
    let block = zsh_hook_block("/tmp/log");
    let installed = upserted("line one\nline two", &block);
    assert_eq!(removed(&installed, MARKER_START, MARKER_END), "line one\nline two\n");
}

#[test]
fn markers_present_after_upsert_only() {
    let block = bash_hook_block("/tmp/log");
    let installed = upserted("x\n", &block);
    assert!(content_has_marker(&installed, MARKER_START, MARKER_END));
    let cleaned = removed(&installed, MARKER_START, MARKER_END);
    assert!(!content_has_marker(&cleaned, MARKER_START, MARKER_END));
    assert!(!content_has_marker(MARKER_START, MARKER_START, MARKER_END));
}

#[test]
fn removal_ends_unless_markers_stall() {
    assert!(removal_ends("a<s>b", "<s>", "<e>"));
    assert!(removal_ends("no start here", "<s>", ""));
    assert!(removal_ends("a\nb", "\n", ""));
    assert!(!removal_ends("a<s>b", "<s>", ""));
    assert!(!removal_ends("", "", ""));
}

#[test]
fn reinstall_holds_for_paths_with_hash() {
    let block = bash_hook_block("/tmp/#weird#/log");
    let once = upserted("a\n", &block);
    assert_eq!(upserted(&once, &block), once);
    assert_eq!(removed(&once, MARKER_START, MARKER_END), "a\n");
}

#[test]
fn reinstall_fails_when_path_holds_end_marker() {
    let block = zsh_hook_block("/tmp/# <<< YAMETE_KUDASAI <<</log");
    let once = upserted("a\n", &block);
    assert_ne!(upserted(&once, &block), once);
}
