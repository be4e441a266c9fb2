//! The shell profile blocks that append failed commands to the event log.

use vstd::prelude::*;
use crate::marked::{
    is_marked_block, lemma_strip_after_upsert, lemma_upsert_has_markers, lemma_upsert_idempotent,
    no_line_feed, strip_marked, strip_terminates, upserted, with_line_end,
};
use crate::text::contains;
use crate::quote::{bash_single_quote, posix_path, replace_char};
use crate::text::{lemma_find_from_is, matches_at, newline_end};
use crate::text::push_text;

verus! {

/// The line that opens every block the installer writes.
pub const MARKER_START: &'static str = "# >>> YAMETE_KUDASAI >>>";

/// The line that closes every block the installer writes.
pub const MARKER_END: &'static str = "# <<< YAMETE_KUDASAI <<<";

/// The text between the start marker and the event log's path.
pub const EXPORT_HEAD: &'static str = "\nexport YAMETE_KUDASAI_EVENT_FILE='";

/// The rest of the Bash block, after the event log's path.
pub const BASH_HOOK_BODY: &'static str = "'\n__yamete_kudasai_precmd() {\n  local yk_code=$?\n  if [ \"$yk_code\" -ne 0 ]; then\n    local yk_cmd\n    yk_cmd=\"$(history 1 2>/dev/null | sed 's/^ *[0-9]\\+ *//')\"\n    printf '%s|bash|%s|%s\\n' \"$(date +%Y-%m-%dT%H:%M:%S%z)\" \"$yk_code\" \"$yk_cmd\" >> \"$YAMETE_KUDASAI_EVENT_FILE\" 2>/dev/null\n  fi\n}\ncase \";$PROMPT_COMMAND;\" in\n  *\";__yamete_kudasai_precmd;\"*) ;;\n  *) PROMPT_COMMAND=\"__yamete_kudasai_precmd${PROMPT_COMMAND:+;$PROMPT_COMMAND}\" ;;\nesac\n";

/// The rest of the Zsh block, after the event log's path.
pub const ZSH_HOOK_BODY: &'static str = "'\n__yamete_kudasai_precmd() {\n  local yk_code=$?\n  if [[ $yk_code -ne 0 ]]; then\n    local yk_cmd=\"${history[$((HISTCMD-1))]}\"\n    printf '%s|zsh|%s|%s\\n' \"$(date +%Y-%m-%dT%H:%M:%S%z)\" \"$yk_code\" \"$yk_cmd\" >> \"$YAMETE_KUDASAI_EVENT_FILE\" 2>/dev/null\n  fi\n}\nautoload -Uz add-zsh-hook 2>/dev/null\nadd-zsh-hook precmd __yamete_kudasai_precmd\n";

/// The text that ends every block, after the end marker.
pub const LINE_END: &'static str = "\n";

/// The text of a block: the markers around a head, a path and a body.
pub open spec fn block_text(head: Seq<char>, path: Seq<char>, body: Seq<char>) -> Seq<char> {
    MARKER_START@ + head + path + body + MARKER_END@ + LINE_END@
}

/// The path as the Bash block writes it: slashes for backslashes, quoted.
pub open spec fn bash_path(event_file: Seq<char>) -> Seq<char> {
    replace_char(
        replace_char(event_file, '\\', seq!['/']),
        '\'',
        seq!['\'', '\\', '\'', '\''],
    )
}

/// The path as the Zsh block writes it: slashes for backslashes.
pub open spec fn zsh_path(event_file: Seq<char>) -> Seq<char> {
    replace_char(event_file, '\\', seq!['/'])
}

/// A block: the markers around a head, a path and a body.
pub fn marked_block(head: &str, path: &str, body: &str) -> (r: String)
    ensures
        r@ == MARKER_START@ + head@ + path@ + body@ + MARKER_END@ + LINE_END@,
{
    let mut s = MARKER_START.to_owned();
    push_text(&mut s, head);
    push_text(&mut s, path);
    push_text(&mut s, body);
    push_text(&mut s, MARKER_END);
    push_text(&mut s, LINE_END);
    s
}

/// The Bash profile block: it exports the event log's path, quoted, and
/// adds a prompt command that appends each failed command to the log.
pub fn bash_hook_block(event_file: &str) -> (r: String)
    ensures
        r@ == block_text(EXPORT_HEAD@, bash_path(event_file@), BASH_HOOK_BODY@),
{
    let posix = posix_path(event_file);
    let quoted = bash_single_quote(posix.as_str());
    marked_block(EXPORT_HEAD, quoted.as_str(), BASH_HOOK_BODY)
}

/// The Zsh profile block: it exports the event log's path and adds a
/// precmd hook that appends each failed command to the log.
pub fn zsh_hook_block(event_file: &str) -> (r: String)
    ensures
        r@ == block_text(EXPORT_HEAD@, zsh_path(event_file@), ZSH_HOOK_BODY@),
{
    let posix = posix_path(event_file);
    marked_block(EXPORT_HEAD, posix.as_str(), ZSH_HOOK_BODY)
}

/// No character of `s` is `#`.
pub open spec fn no_hash(s: Seq<char>) -> bool {
    forall|k: int| 0 <= k < s.len() ==> s[k] != '#'
}

proof fn lemma_marker_chars()
    ensures
        MARKER_START@.len() == 24,
        MARKER_END@.len() == 24,
        MARKER_START@[0] == '#',
        MARKER_END@[0] == '#',
        MARKER_START@[2] == '>',
        MARKER_END@[2] == '<',
        forall|k: int| 1 <= k < 24 ==> MARKER_START@[k] != '#',
        forall|k: int| 0 <= k < 24 ==> MARKER_END@[k] != '\'',
        no_line_feed(MARKER_START@),
        LINE_END@ == seq!['\n'],
{
    reveal_strlit("# >>> YAMETE_KUDASAI >>>");
    reveal_strlit("# <<< YAMETE_KUDASAI <<<");
    reveal_strlit("\n");
    assert(LINE_END@ =~= seq!['\n']);
}

/// A block is delimited by the markers as upserting and removal expect when
/// its head and body hold no `#`, its body opens with a quote, and its path
/// does not hold the end marker.
pub proof fn lemma_block_is_marked(head: Seq<char>, path: Seq<char>, body: Seq<char>)
    requires
        no_hash(head),
        !contains(path, MARKER_END@),
        no_hash(body),
        body.len() > 0,
        body[0] == '\'',
    ensures
        is_marked_block(block_text(head, path, body), MARKER_START@, MARKER_END@),
{
    lemma_marker_chars();
    let s = MARKER_START@;
    let e = MARKER_END@;
    let pre = s + head + path + body;
    let b = block_text(head, path, body);
    let l = pre.len() as int;
    assert(b =~= pre + e + seq!['\n']);
    assert(b.subrange(0, 24) =~= s);
    assert(b.subrange(l, l + 24) =~= e);
    assert forall|j: int| 0 <= j < l implies !matches_at(b, e, j) by {
        if matches_at(b, e, j) {
            assert(b.subrange(j, j + 24)[0] == b[j]);
            if j == 0 {
                assert(b.subrange(0, 24)[2] == b[2]);
            } else if j < 24 {
                assert(b[j] == s[j]);
            } else if j < 24 + head.len() {
                assert(b[j] == head[j - 24]);
            } else if j < 24 + head.len() + path.len() {
                let p0 = 24 + head.len() as int;
                if j + 24 <= p0 + path.len() {
                    assert(path.subrange(j - p0, j - p0 + 24) =~= b.subrange(j, j + 24));
                    assert(matches_at(path, e, j - p0));
                } else {
                    let q = p0 + path.len() as int;
                    assert(b[q] == body[0]);
                    assert(b.subrange(j, j + 24)[q - j] == b[q]);
                }
            } else {
                assert(b[j] == body[j - 24 - head.len() - path.len()]);
            }
        }
    }
    lemma_find_from_is(b, e, 0, l);
    assert(newline_end(b, l + 24) == b.len()) by {
        assert(b[l + 24] == '\n');
        assert(newline_end(b, l + 25) == l + 25);
    }
}

/// The Bash block is a marked block when the path it writes does not hold
/// the end marker.
pub proof fn lemma_bash_block_marked(event_file: Seq<char>)
    requires
        !contains(bash_path(event_file), MARKER_END@),
    ensures
        is_marked_block(
            block_text(EXPORT_HEAD@, bash_path(event_file), BASH_HOOK_BODY@),
            MARKER_START@,
            MARKER_END@,
        ),
{
    lemma_head_and_bodies();
    lemma_block_is_marked(EXPORT_HEAD@, bash_path(event_file), BASH_HOOK_BODY@);
}

/// The Zsh block is a marked block when the path it writes does not hold
/// the end marker.
pub proof fn lemma_zsh_block_marked(event_file: Seq<char>)
    requires
        !contains(zsh_path(event_file), MARKER_END@),
    ensures
        is_marked_block(
            block_text(EXPORT_HEAD@, zsh_path(event_file), ZSH_HOOK_BODY@),
            MARKER_START@,
            MARKER_END@,
        ),
{
    lemma_head_and_bodies();
    lemma_block_is_marked(EXPORT_HEAD@, zsh_path(event_file), ZSH_HOOK_BODY@);
}

proof fn lemma_head_and_bodies()
    ensures
        no_hash(EXPORT_HEAD@),
        no_hash(BASH_HOOK_BODY@),
        no_hash(ZSH_HOOK_BODY@),
        BASH_HOOK_BODY@.len() > 0 && BASH_HOOK_BODY@[0] == '\'',
        ZSH_HOOK_BODY@.len() > 0 && ZSH_HOOK_BODY@[0] == '\'',
{
    reveal_strlit("\nexport YAMETE_KUDASAI_EVENT_FILE='");
    reveal_strlit("'\n__yamete_kudasai_precmd() {\n  local yk_code=$?\n  if [ \"$yk_code\" -ne 0 ]; then\n    local yk_cmd\n    yk_cmd=\"$(history 1 2>/dev/null | sed 's/^ *[0-9]\\+ *//')\"\n    printf '%s|bash|%s|%s\\n' \"$(date +%Y-%m-%dT%H:%M:%S%z)\" \"$yk_code\" \"$yk_cmd\" >> \"$YAMETE_KUDASAI_EVENT_FILE\" 2>/dev/null\n  fi\n}\ncase \";$PROMPT_COMMAND;\" in\n  *\";__yamete_kudasai_precmd;\"*) ;;\n  *) PROMPT_COMMAND=\"__yamete_kudasai_precmd${PROMPT_COMMAND:+;$PROMPT_COMMAND}\" ;;\nesac\n");
    reveal_strlit("'\n__yamete_kudasai_precmd() {\n  local yk_code=$?\n  if [[ $yk_code -ne 0 ]]; then\n    local yk_cmd=\"${history[$((HISTCMD-1))]}\"\n    printf '%s|zsh|%s|%s\\n' \"$(date +%Y-%m-%dT%H:%M:%S%z)\" \"$yk_code\" \"$yk_cmd\" >> \"$YAMETE_KUDASAI_EVENT_FILE\" 2>/dev/null\n  fi\n}\nautoload -Uz add-zsh-hook 2>/dev/null\nadd-zsh-hook precmd __yamete_kudasai_precmd\n");
}

/// Installing the Bash hook into a profile that already has it changes
/// nothing; removing the hooks afterwards leaves the profile as it was
/// without them, ending in a line feed; and the installed profile holds both
/// markers. The path the block writes must not hold the end marker.
pub proof fn lemma_bash_hook_reinstall(profile: Seq<char>, event_file: Seq<char>)
    requires
        !contains(bash_path(event_file), MARKER_END@),
    ensures
        ({
            let b = block_text(EXPORT_HEAD@, bash_path(event_file), BASH_HOOK_BODY@);
            let once = upserted(profile, MARKER_START@, MARKER_END@, b);
            &&& upserted(once, MARKER_START@, MARKER_END@, b) == once
            &&& strip_marked(once, MARKER_START@, MARKER_END@) == with_line_end(
                strip_marked(profile, MARKER_START@, MARKER_END@),
            )
            &&& contains(once, MARKER_START@)
            &&& contains(once, MARKER_END@)
        }),
{
    let b = block_text(EXPORT_HEAD@, bash_path(event_file), BASH_HOOK_BODY@);
    lemma_marker_chars();
    assert(strip_terminates(profile, MARKER_START@, MARKER_END@));
    lemma_bash_block_marked(event_file);
    lemma_upsert_idempotent(profile, MARKER_START@, MARKER_END@, b);
    lemma_strip_after_upsert(profile, MARKER_START@, MARKER_END@, b);
    lemma_upsert_has_markers(profile, MARKER_START@, MARKER_END@, b);
}

/// The same for the Zsh hook: installing it again changes nothing, removal
/// takes back what it added, and the installed profile holds both markers,
/// when the path the block writes does not hold the end marker.
pub proof fn lemma_zsh_hook_reinstall(profile: Seq<char>, event_file: Seq<char>)
    requires
        !contains(zsh_path(event_file), MARKER_END@),
    ensures
        ({
            let b = block_text(EXPORT_HEAD@, zsh_path(event_file), ZSH_HOOK_BODY@);
            let once = upserted(profile, MARKER_START@, MARKER_END@, b);
            &&& upserted(once, MARKER_START@, MARKER_END@, b) == once
            &&& strip_marked(once, MARKER_START@, MARKER_END@) == with_line_end(
                strip_marked(profile, MARKER_START@, MARKER_END@),
            )
            &&& contains(once, MARKER_START@)
            &&& contains(once, MARKER_END@)
        }),
{
    let b = block_text(EXPORT_HEAD@, zsh_path(event_file), ZSH_HOOK_BODY@);
    lemma_marker_chars();
    assert(strip_terminates(profile, MARKER_START@, MARKER_END@));
    lemma_zsh_block_marked(event_file);
    lemma_upsert_idempotent(profile, MARKER_START@, MARKER_END@, b);
    lemma_strip_after_upsert(profile, MARKER_START@, MARKER_END@, b);
    lemma_upsert_has_markers(profile, MARKER_START@, MARKER_END@, b);
}

} // verus!
