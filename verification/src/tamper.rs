//! Recognition of shell commands that disable or clear command history.
use vstd::prelude::*;
use crate::text::{
    ascii_lower, ascii_upper, ascii_uppercase, ascii_lowercase, chars_of, contains_text, ends_with_text, has_infix, has_prefix, has_suffix,
    lowercase_chars, starts_with_text, trim_chars, trimmed,
};

verus! {

/// The anti-forensic command classes, judged on already lowercased and trimmed text:
/// the verb plus the well-known history target, across bash/zsh/PowerShell.
pub open spec fn tamper_text(c: Seq<char>) -> bool {
    ||| has_infix(c, "unset histfile"@)
    ||| has_infix(c, "histfile=/dev/null"@)
    ||| has_infix(c, "histsize=0"@)
    ||| has_infix(c, "histfilesize=0"@)
    ||| (has_infix(c, "history"@) && (has_infix(c, " -c"@) || has_suffix(c, "-c"@)))
    ||| has_infix(c, "history -c"@)
    ||| has_infix(c, "clear-history"@)
    ||| (has_infix(c, "remove-item"@) && has_infix(c, "consolehost_history"@))
    ||| (has_infix(c, "rm "@) && has_infix(c, ".bash_history"@))
    ||| (has_infix(c, "rm "@) && has_infix(c, ".zsh_history"@))
    ||| (has_prefix(c, "> "@) && has_infix(c, "history"@))
}

/// Whether the command `cmd` disables or clears command history: the command is
/// ASCII-lowercased, trimmed of surrounding whitespace, then matched by class.
pub open spec fn history_tamper(cmd: Seq<char>) -> bool {
    tamper_text(trimmed(ascii_lowercase(cmd)))
}

/// Does this shell command disable or clear command history?
///
/// Recognizes the common anti-forensic primitives across bash/zsh/PowerShell. The
/// match is on structure (the verb + the well-known history target), not on a
/// hardcoded full command line, so any member of the class is caught.
pub fn is_history_tamper(cmd: &str) -> (r: bool)
    ensures
        r == history_tamper(cmd@),
{
    let raw = chars_of(cmd);
    let lower = lowercase_chars(&raw);
    let c = trim_chars(&lower);
    contains_text(&c, "unset histfile") || contains_text(&c, "histfile=/dev/null")
        || contains_text(&c, "histsize=0") || contains_text(&c, "histfilesize=0") || (
    contains_text(&c, "history") && (contains_text(&c, " -c") || ends_with_text(&c, "-c")))
        || contains_text(&c, "history -c") || contains_text(&c, "clear-history") || (
    contains_text(&c, "remove-item") && contains_text(&c, "consolehost_history")) || (
    contains_text(&c, "rm ") && contains_text(&c, ".bash_history")) || (contains_text(
        &c,
        "rm ",
    ) && contains_text(&c, ".zsh_history")) || (starts_with_text(&c, "> ") && contains_text(
        &c,
        "history",
    ))
}


/// Recognition ignores ASCII case: a command reads the same in upper or lower case.
pub proof fn tamper_ignores_ascii_case(cmd: Seq<char>)
    ensures
        history_tamper(ascii_uppercase(cmd)) == history_tamper(cmd),
        history_tamper(ascii_lowercase(cmd)) == history_tamper(cmd),
{
    assert forall|i: int| 0 <= i < cmd.len() implies ascii_lower(ascii_upper(#[trigger] cmd[i]))
        == ascii_lower(cmd[i]) && ascii_lower(ascii_lower(cmd[i])) == ascii_lower(cmd[i]) by {
        let u = cmd[i] as u32;
        if 0x61 <= u <= 0x7a {
            assert((((u - 32) as char) as u32) == u - 32);
            vstd::utf8::char_u32_cast(cmd[i], u);
        } else if 0x41 <= u <= 0x5a {
            assert((((u + 32) as char) as u32) == u + 32);
        }
    }
    assert(ascii_lowercase(ascii_uppercase(cmd)) =~= ascii_lowercase(cmd));
    assert(ascii_lowercase(ascii_lowercase(cmd)) =~= ascii_lowercase(cmd));
}


/// The documented anti-forensic classes, each stated on the command's
/// ASCII-lowercased, whitespace-trimmed text `c`: a command is recognized exactly
/// when `c` unsets the history file, points it at `/dev/null`, zeroes `HISTSIZE` or
/// `HISTFILESIZE`, runs `history` with `-c`, clears PowerShell history
/// (`Clear-History`, or `Remove-Item` of `ConsoleHost_history`), removes
/// `.bash_history` or `.zsh_history` with `rm `, or truncates a history file with a
/// leading `> ` redirect.
pub proof fn tamper_classes(cmd: Seq<char>)
    ensures
        ({
            let c = trimmed(cmd.map_values(|x: char| ascii_lower(x)));
            history_tamper(cmd) <==> {
                ||| has_infix(c, "unset histfile"@)
                ||| has_infix(c, "histfile=/dev/null"@)
                ||| has_infix(c, "histsize=0"@)
                ||| has_infix(c, "histfilesize=0"@)
                ||| (has_infix(c, "history"@) && (has_infix(c, " -c"@) || has_suffix(c, "-c"@)))
                ||| has_infix(c, "history -c"@)
                ||| has_infix(c, "clear-history"@)
                ||| (has_infix(c, "remove-item"@) && has_infix(c, "consolehost_history"@))
                ||| (has_infix(c, "rm "@) && has_infix(c, ".bash_history"@))
                ||| (has_infix(c, "rm "@) && has_infix(c, ".zsh_history"@))
                ||| (has_prefix(c, "> "@) && has_infix(c, "history"@))
            }
        }),
{
    assert(cmd.map_values(|x: char| ascii_lower(x)) =~= ascii_lowercase(cmd));
}

} // verus!
