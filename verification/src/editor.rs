//! Deciding how to open a file in the user's editor: with `$VISUAL` (or
//! `$EDITOR`, or `vi`), in a new pane of the multiplexer or terminal we run
//! inside — Zellij, then tmux, then Kitty — or inline in a plain terminal. The
//! decision is a function of the environment, given as a name-to-value map.

use vstd::prelude::*;

use crate::names::NameMap;
use crate::text::{owned, views};

verus! {

/// How to launch the editor: the argv to run, and whether it runs inline
/// (taking over this terminal) rather than in a pane beside it.
#[derive(Clone, PartialEq, Eq, Debug)]
pub struct EditorLaunch {
    pub argv: Vec<String>,
    pub inline: bool,
}

/// The editor command: `$VISUAL`, then `$EDITOR`, then `vi`.
pub open spec fn editor_of(env: NameMap<String>) -> Seq<char> {
    match env.lookup("VISUAL"@) {
        Some(v) => v@,
        None => match env.lookup("EDITOR"@) {
            Some(v) => v@,
            None => "vi"@,
        },
    }
}

/// The argv and inline flag for editing `file` under `env`.
pub open spec fn launch_for(env: NameMap<String>, file: Seq<char>) -> (Seq<Seq<char>>, bool) {
    let editor = editor_of(env);
    if env.has("ZELLIJ"@) {
        (seq!["zellij"@, "action"@, "new-pane"@, "--close-on-exit"@, "--"@, editor, file], false)
    } else if env.has("TMUX"@) {
        (seq!["tmux"@, "split-window"@, editor, file], false)
    } else if env.has("KITTY_WINDOW_ID"@) {
        (seq!["kitty"@, "@"@, "launch"@, "--type=window"@, editor, file], false)
    } else {
        (seq![editor, file], true)
    }
}

/// The editor command name: `$VISUAL`, then `$EDITOR`, then `vi`.
pub fn resolve_editor(env: &NameMap<String>) -> (r: String)
    ensures
        r@ == editor_of(*env),
{
    match env.get("VISUAL") {
        Some(v) => v.clone(),
        None => match env.get("EDITOR") {
            Some(v) => v.clone(),
            None => owned("vi"),
        },
    }
}

fn push_lit(v: &mut Vec<String>, s: &str)
    ensures
        views(final(v)@) == views(old(v)@).push(s@),
{
    let ghost before = v@;
    v.push(owned(s));
    assert(views(v@) =~= views(before).push(s@));
}

fn push_owned(v: &mut Vec<String>, s: String)
    ensures
        views(final(v)@) == views(old(v)@).push(s@),
{
    let ghost before = v@;
    v.push(s);
    assert(views(v@) =~= views(before).push(s@));
}

/// Resolves the editor command for `file`, choosing a pane of the
/// multiplexer we are inside (Zellij, then tmux, then Kitty) and running
/// inline otherwise.
pub fn editor_launch(file: &str, env: &NameMap<String>) -> (r: EditorLaunch)
    ensures
        (views(r.argv@), r.inline) == launch_for(*env, file@),
{
    let editor = resolve_editor(env);
    let mut argv: Vec<String> = Vec::new();
    let inline;
    if env.contains_key("ZELLIJ") {
        push_lit(&mut argv, "zellij");
        push_lit(&mut argv, "action");
        push_lit(&mut argv, "new-pane");
        push_lit(&mut argv, "--close-on-exit");
        push_lit(&mut argv, "--");
        inline = false;
    } else if env.contains_key("TMUX") {
        push_lit(&mut argv, "tmux");
        push_lit(&mut argv, "split-window");
        inline = false;
    } else if env.contains_key("KITTY_WINDOW_ID") {
        push_lit(&mut argv, "kitty");
        push_lit(&mut argv, "@");
        push_lit(&mut argv, "launch");
        push_lit(&mut argv, "--type=window");
        inline = false;
    } else {
        inline = true;
    }
    push_owned(&mut argv, editor);
    push_lit(&mut argv, file);
    assert(views(argv@) =~= launch_for(*env, file@).0);
    EditorLaunch { argv, inline }
}

/// The argv to run the editor inline, never in a pane: a caller that must
/// wait for the edit to finish (to read the file back) needs this.
pub fn inline_editor(file: &str, env: &NameMap<String>) -> (r: Vec<String>)
    ensures
        views(r@) == seq![editor_of(*env), file@],
{
    let mut argv: Vec<String> = Vec::new();
    push_owned(&mut argv, resolve_editor(env));
    push_lit(&mut argv, file);
    assert(views(argv@) =~= seq![editor_of(*env), file@]);
    argv
}

} // verus!
