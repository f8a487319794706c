//! Launching agent threads in a terminal window: shell quoting, the
//! launcher scripts, the terminal application and the workspace choices.

use crate::amp::state::{history_after_use, string_views};
use crate::text::{copy_strings, owned, str_eq, trim, trim_str};
use vstd::prelude::*;

verus! {

/// Characters that need no quoting in a POSIX shell word.
pub open spec fn shell_safe(c: char) -> bool {
    ||| ('a' as int) <= (c as int) <= ('z' as int)
    ||| ('A' as int) <= (c as int) <= ('Z' as int)
    ||| ('0' as int) <= (c as int) <= ('9' as int)
    ||| c == '-' || c == '_' || c == '=' || c == '/' || c == ',' || c == '.' || c == '+'
}

/// The characters of `s` inside single quotes: `'` and `!` each become
/// `'\` followed by the character and `'`.
pub open spec fn single_quoted_body(s: Seq<char>) -> Seq<char>
    decreases s.len(),
{
    if s.len() == 0 {
        Seq::empty()
    } else {
        single_quoted_body(s.drop_last()) + if s.last() == '\'' || s.last() == '!' {
            seq!['\'', '\\', s.last(), '\'']
        } else {
            seq![s.last()]
        }
    }
}

/// `s` as one shell word: unchanged when it is not empty and every
/// character is safe, else in single quotes with `'` and `!` escaped.
pub open spec fn shell_quoted(s: Seq<char>) -> Seq<char> {
    if s.len() > 0 && (forall|i: int| 0 <= i < s.len() ==> shell_safe(#[trigger] s[i])) {
        s
    } else {
        seq!['\''] + single_quoted_body(s) + seq!['\'']
    }
}

/// `shell_escape::unix::escape`: returns `s` unchanged when it is not empty
/// and made only of ASCII letters, digits and `-_=/,.+`; otherwise `s` in
/// single quotes, each `'` or `!` in it written as `'\` + the character +
/// `'`.
#[verifier::external_body]
fn shell_escape_unix(s: &str) -> (r: String)
    ensures
        r@ == shell_quoted(s@),
{
    shell_escape::unix::escape(s.into()).into_owned()
}

/// `s` quoted as one word for a POSIX shell.
pub fn shell_word(s: &str) -> (r: String)
    ensures
        r@ == shell_quoted(s@),
{
    shell_escape_unix(s)
}

/// The script that reopens thread `thread_id` in `workspace` and then
/// deletes itself from `launcher`.
pub open spec fn continue_script(workspace: Seq<char>, thread_id: Seq<char>, launcher: Seq<char>) -> Seq<
    char,
> {
    "#!/usr/bin/env bash\ncd "@ + shell_quoted(workspace) + " || exit 1\namp threads continue "@
        + shell_quoted(thread_id) + "\nrm -f "@ + shell_quoted(launcher) + "\n"@
}

/// Launcher script for continuing an existing thread.
pub fn continue_launcher_script(workspace: &str, thread_id: &str, launcher: &str) -> (r: String)
    ensures
        r@ == continue_script(workspace@, thread_id@, launcher@),
{
    let mut s = owned("#!/usr/bin/env bash\ncd ");
    s.push_str(shell_word(workspace).as_str());
    s.push_str(" || exit 1\namp threads continue ");
    s.push_str(shell_word(thread_id).as_str());
    s.push_str("\nrm -f ");
    s.push_str(shell_word(launcher).as_str());
    s.push_str("\n");
    s
}

/// The script that feeds the prompt file to a new thread `thread_id` in
/// `workspace`, then deletes the prompt file and itself.
pub open spec fn new_thread_script(
    workspace: Seq<char>,
    prompt_file: Seq<char>,
    thread_id: Seq<char>,
    launcher: Seq<char>,
) -> Seq<char> {
    "#!/usr/bin/env bash\ncd "@ + shell_quoted(workspace) + " || exit 1\ncat "@ + shell_quoted(
        prompt_file,
    ) + " | amp threads continue "@ + shell_quoted(thread_id) + "\nrm -f "@ + shell_quoted(
        prompt_file,
    ) + " "@ + shell_quoted(launcher) + "\n"@
}

/// Launcher script for a newly created thread seeded with a prompt file.
pub fn new_thread_launcher_script(
    workspace: &str,
    prompt_file: &str,
    thread_id: &str,
    launcher: &str,
) -> (r: String)
    ensures
        r@ == new_thread_script(workspace@, prompt_file@, thread_id@, launcher@),
{
    let mut s = owned("#!/usr/bin/env bash\ncd ");
    s.push_str(shell_word(workspace).as_str());
    s.push_str(" || exit 1\ncat ");
    let quoted_prompt = shell_word(prompt_file);
    s.push_str(quoted_prompt.as_str());
    s.push_str(" | amp threads continue ");
    s.push_str(shell_word(thread_id).as_str());
    s.push_str("\nrm -f ");
    s.push_str(quoted_prompt.as_str());
    s.push_str(" ");
    s.push_str(shell_word(launcher).as_str());
    s.push_str("\n");
    s
}

/// The application to open a window in, named by the terminal the program
/// runs in (`$TERM_PROGRAM`); `Terminal` when it is unknown.
pub open spec fn terminal_for(term_program: Option<Seq<char>>) -> Seq<char> {
    match term_program {
        Some(t) => if t == "iTerm.app"@ {
            "iTerm"@
        } else if t == "WezTerm"@ {
            "WezTerm"@
        } else if t == "Alacritty"@ {
            "Alacritty"@
        } else if t == "ghostty"@ {
            "Ghostty"@
        } else if t == "kitty"@ {
            "kitty"@
        } else {
            "Terminal"@
        },
        None => "Terminal"@,
    }
}

/// The terminal application for `open -a`, given `$TERM_PROGRAM`.
pub fn terminal_app(term_program: Option<&str>) -> (r: &'static str)
    ensures
        r@ == terminal_for(
            match term_program {
                Some(t) => Some(t@),
                None => None,
            },
        ),
{
    match term_program {
        Some(t) => {
            if str_eq(t, "iTerm.app") {
                "iTerm"
            } else if str_eq(t, "WezTerm") {
                "WezTerm"
            } else if str_eq(t, "Alacritty") {
                "Alacritty"
            } else if str_eq(t, "ghostty") {
                "Ghostty"
            } else if str_eq(t, "kitty") {
                "kitty"
            } else {
                "Terminal"
            }
        },
        None => "Terminal",
    }
}

/// The choices of the workspace picker: the working directory first (when
/// known), then the history without it.
pub fn workspace_options(history: &[String], cwd: Option<&str>) -> (r: Vec<String>)
    ensures
        cwd matches Some(d) ==> string_views(r@) == history_after_use(string_views(history@), d@),
        cwd is None ==> r@ == history@,
{
    match cwd {
        None => copy_strings(history),
        Some(d) => {
            let ghost h = string_views(history@);
            let mut kept: Vec<String> = Vec::new();
            kept.push(owned(d));
            let mut i: usize = 0;
            while i < history.len()
                invariant
                    h == string_views(history@),
                    i <= history@.len(),
                    string_views(kept@) == seq![d@] + crate::amp::state::without(
                        h.take(i as int),
                        d@,
                    ),
                decreases history@.len() - i,
            {
                let w = &history[i];
                proof {
                    assert(h.take(i + 1).drop_last() =~= h.take(i as int));
                    assert(h.take(i + 1).last() == w@);
                }
                let ghost old_kept = kept@;
                if !str_eq(w.as_str(), d) {
                    kept.push(w.clone());
                    proof {
                        assert(string_views(kept@) =~= string_views(old_kept).push(w@));
                    }
                }
                i = i + 1;
            }
            assert(h.take(history@.len() as int) =~= h);
            kept
        },
    }
}

/// The thread ID printed by the command that creates a thread: its output
/// trimmed, `None` when nothing is left.
pub fn new_thread_id(output: &str) -> (r: Option<String>)
    ensures
        r is Some == (trim(output@).len() > 0),
        r matches Some(id) ==> id@ == trim(output@),
{
    let id = trim_str(output);
    if id.as_str().unicode_len() > 0 {
        Some(id)
    } else {
        None
    }
}

/// File name of the launcher script that continues a thread.
pub fn continue_launcher_name(thread_id: &str) -> (r: String)
    ensures
        r@ == thread_id@ + ".launch.sh"@,
{
    let mut s = owned(thread_id);
    s.push_str(".launch.sh");
    s
}

/// File name of the prompt handed to a new thread.
pub fn prompt_file_name(thread_id: &str) -> (r: String)
    ensures
        r@ == thread_id@ + ".prompt"@,
{
    let mut s = owned(thread_id);
    s.push_str(".prompt");
    s
}

/// File name of the launcher script of a new thread.
pub fn new_thread_launcher_name(thread_id: &str) -> (r: String)
    ensures
        r@ == thread_id@ + ".sh"@,
{
    let mut s = owned(thread_id);
    s.push_str(".sh");
    s
}

} // verus!
