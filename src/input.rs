use vstd::prelude::*;

use crate::config::{binding_of, Config};
use crate::path::{path_text, texts, Path};
use crate::prompt::{edited, Key, PromptReader};
use crate::state::{entries_of, paths, Mode, State};

verus! {

/// What a keystroke asks the session to do.
#[derive(Debug)]
pub enum Action {
    ShellCommand(String),
    Command(String),
    ModeSwitch(Mode),
    SetErrorMessage(String),
    Quit,
}

/// Whether `p` is a fresh editor holding `text`, with the cursor at its end.
pub open spec fn fresh_editor(p: PromptReader, text: Seq<char>) -> bool {
    p.text() == text && p.cursor() == text.len() && !p.finished()
}

/// Whether `a` runs the command line `line`.
pub open spec fn runs(a: Action, line: Seq<char>) -> bool {
    a matches Action::Command(s) && s@ == line
}

/// Whether `a` shows the error message `msg`.
pub open spec fn reports(a: Action, msg: Seq<char>) -> bool {
    a matches Action::SetErrorMessage(s) && s@ == msg
}

/// Whether `a` switches to command mode with `text` typed in.
pub open spec fn opens_command(a: Action, text: Seq<char>) -> bool {
    a matches Action::ModeSwitch(Mode::CommandMode(p)) && fresh_editor(p, text)
}

/// Whether `a` switches to shell mode with `text` typed in.
pub open spec fn opens_shell(a: Action, text: Seq<char>) -> bool {
    a matches Action::ModeSwitch(Mode::ShellCommandMode(p)) && fresh_editor(p, text)
}

/// The words, with one space between each two.
pub open spec fn join_words(ws: Seq<Seq<char>>) -> Seq<char>
    decreases ws.len(),
{
    if ws.len() == 0 {
        Seq::empty()
    } else if ws.len() == 1 {
        ws[0]
    } else {
        join_words(ws.drop_last()) + seq![' '] + ws.last()
    }
}

/// What a selection-wide shortcut acts on: the multi-selected entries of the
/// working directory when there are any, else the entry under the cursor; none
/// in an empty directory with nothing of it multi-selected.
pub open spec fn targets(state: State, names: Seq<Seq<char>>) -> Option<Seq<Seq<Seq<char>>>> {
    if entries_of(paths(state.multi_select@), state.pwd@).len() > 0 {
        Some(entries_of(paths(state.multi_select@), state.pwd@))
    } else {
        match state.selected_entry(names) {
            Some(p) => Some(seq![p]),
            None => None,
        }
    }
}

/// The targets written out as command arguments.
pub open spec fn target_words(ps: Seq<Seq<Seq<char>>>) -> Seq<char> {
    join_words(ps.map_values(|p: Seq<Seq<char>>| path_text(p)))
}

/// The actions of the normal-mode shortcut `c`, in a session whose working
/// directory lists `names`.
pub open spec fn normal_actions(
    c: char,
    state: State,
    names: Seq<Seq<char>>,
    config: Config,
    r: Seq<Action>,
) -> bool {
    let name = names[clamp_in(state, names)];
    if c == 'q' {
        r.len() == 1 && r[0] is Quit
    } else if c == 'j' {
        r.len() == 1 && runs(r[0], ":cursor_down"@)
    } else if c == 'k' {
        r.len() == 1 && runs(r[0], ":cursor_up"@)
    } else if c == 'h' {
        r.len() == 1 && runs(r[0], ":cursor_ascend"@)
    } else if c == 'l' {
        r.len() == 1 && runs(r[0], ":cursor_descend"@)
    } else if c == 'p' {
        r.len() == 1 && runs(r[0], ":paste"@)
    } else if c == ':' {
        r.len() == 1 && opens_command(r[0], ":"@)
    } else if c == '!' {
        r.len() == 1 && opens_shell(r[0], "!"@)
    } else if c == 'D' {
        r.len() == 1 && match targets(state, names) {
            Some(ps) => opens_command(r[0], ":delete "@ + target_words(ps)),
            None => reports(r[0], "Failed to read filename of selected"@),
        }
    } else if c == 'y' {
        match targets(state, names) {
            Some(ps) => r.len() == 2 && runs(r[0], ":yank "@ + target_words(ps)) && runs(
                r[1],
                ":clear_selection"@,
            ),
            None => r.len() == 1 && reports(r[0], "Failed to read filename of selected"@),
        }
    } else if c == ' ' {
        if names.len() > 0 {
            r.len() == 2 && runs(r[0], ":toggle_select "@ + name) && runs(r[1], ":cursor_down"@)
        } else {
            r.len() == 1 && reports(r[0], "Failed to read filename"@)
        }
    } else if c == 'A' {
        r.len() == 1 && if names.len() > 0 {
            opens_command(r[0], ":rename "@ + name)
        } else {
            reports(r[0], "Failed to read filename"@)
        }
    } else {
        match binding_of(config.simple@, c) {
            Some(line) => r.len() == 1 && runs(r[0], line),
            None => r.len() == 0,
        }
    }
}

/// The index that the cursor of the working directory stands on.
pub open spec fn clamp_in(state: State, names: Seq<Seq<char>>) -> int {
    crate::state::clamp(state.cursor() as int, names.len() as int)
}

fn one(a: Action) -> (r: Vec<Action>)
    ensures
        r@ == seq![a],
{
    let mut r: Vec<Action> = Vec::new();
    r.push(a);
    r
}

fn two(a: Action, b: Action) -> (r: Vec<Action>)
    ensures
        r@ == seq![a, b],
{
    let mut r: Vec<Action> = Vec::new();
    r.push(a);
    r.push(b);
    r
}

fn run(prefix: &str, rest: &String) -> (r: Action)
    ensures
        runs(r, prefix@ + rest@),
{
    let mut line = String::from_str(prefix);
    line.append(rest.as_str());
    Action::Command(line)
}

fn run_lit(line: &str) -> (r: Action)
    ensures
        runs(r, line@),
{
    Action::Command(String::from_str(line))
}

fn report(msg: &str) -> (r: Action)
    ensures
        reports(r, msg@),
{
    Action::SetErrorMessage(String::from_str(msg))
}

fn open_command(prefix: &str, rest: &String) -> (r: Action)
    ensures
        opens_command(r, prefix@ + rest@),
{
    let mut text = String::from_str(prefix);
    text.append(rest.as_str());
    Action::ModeSwitch(Mode::CommandMode(PromptReader::new_with_placeholder(text.as_str())))
}

/// The full paths of `ps`, separated by single spaces.
fn path_words(ps: &Vec<Path>) -> (r: String)
    ensures
        r@ == target_words(paths(ps@)),
{
    let ghost all = paths(ps@);
    let ghost words = all.map_values(|p: Seq<Seq<char>>| path_text(p));
    let mut r = String::new();
    let mut i: usize = 0;
    while i < ps.len()
        invariant
            all == paths(ps@),
            words == all.map_values(|p: Seq<Seq<char>>| path_text(p)),
            i <= ps@.len(),
            r@ == join_words(words.take(i as int)),
        decreases ps@.len() - i,
    {
        let ghost prev = r@;
        let w = ps[i].full_path_str();
        let ghost t = words.take(i as int + 1);
        assert(t.drop_last() == words.take(i as int));
        assert(t.last() == w@);
        if i > 0 {
            r.append(" ");
            proof {
                reveal_strlit(" ");
            }
        } else {
            assert(t == seq![w@]);
        }
        r.append(w.as_str());
        i = i + 1;
    }
    assert(words.take(i as int) == words);
    r
}

/// Turns a normal-mode keystroke into actions: the fixed shortcuts first, then
/// the user's bindings. `names` is the working directory's listing.
pub fn normal_mode_input(key: &Key, state: &State, names: &Vec<String>, config: &Config) -> (r: Vec<
    Action,
>)
    ensures
        match *key {
            Key::Char(c) => normal_actions(c, *state, texts(names@), *config, r@),
            _ => r@.len() == 0,
        },
{
    let c = match key {
        Key::Char(c) => *c,
        _ => {
            return Vec::new();
        },
    };
    if c == 'q' {
        one(Action::Quit)
    } else if c == 'j' {
        one(run_lit(":cursor_down"))
    } else if c == 'k' {
        one(run_lit(":cursor_up"))
    } else if c == 'h' {
        one(run_lit(":cursor_ascend"))
    } else if c == 'l' {
        one(run_lit(":cursor_descend"))
    } else if c == 'p' {
        one(run_lit(":paste"))
    } else if c == ':' {
        one(Action::ModeSwitch(Mode::CommandMode(PromptReader::new_with_placeholder(":"))))
    } else if c == '!' {
        one(Action::ModeSwitch(Mode::ShellCommandMode(PromptReader::new_with_placeholder("!"))))
    } else if c == 'D' {
        match state.multi_select_or_selected(names) {
            Ok(v) => one(open_command(":delete ", &path_words(&v))),
            Err(_) => one(report("Failed to read filename of selected")),
        }
    } else if c == 'y' {
        match state.multi_select_or_selected(names) {
            Ok(v) => two(run(":yank ", &path_words(&v)), run_lit(":clear_selection")),
            Err(_) => one(report("Failed to read filename of selected")),
        }
    } else if c == ' ' {
        match state.filename_of_selected(names) {
            Ok(n) => two(run(":toggle_select ", &n), run_lit(":cursor_down")),
            Err(_) => one(report("Failed to read filename")),
        }
    } else if c == 'A' {
        match state.filename_of_selected(names) {
            Ok(n) => one(open_command(":rename ", &n)),
            Err(_) => one(report("Failed to read filename")),
        }
    } else {
        custom_simple_binding(config, c)
    }
}

/// The actions that the user bound to `c`: the bound command line, if any.
pub fn custom_simple_binding(config: &Config, c: char) -> (r: Vec<Action>)
    ensures
        match binding_of(config.simple@, c) {
            Some(line) => r@.len() == 1 && runs(r@[0], line),
            None => r@.len() == 0,
        },
{
    match config.binding(c) {
        Some(line) => one(Action::Command(line)),
        None => Vec::new(),
    }
}

/// Feeds a keystroke to the editor of command mode: Escape leaves the mode,
/// and a finished line is run, after which the mode is left.
pub fn command_mode_input(key: &Key, reader: &mut PromptReader) -> (r: Vec<Action>)
    ensures
        *key is Esc ==> *final(reader) == *old(reader) && r@.len() == 1 && r@[0] matches Action::ModeSwitch(Mode::NormalMode),
        !(*key is Esc) ==> edited(*old(reader), *key, *final(reader)),
        !(*key is Esc) && final(reader).finished() ==> r@.len() == 2 && runs(r@[0], final(reader).text()) && r@[1] matches Action::ModeSwitch(Mode::NormalMode),
        !(*key is Esc) && !final(reader).finished() ==> r@.len() == 0,
{
    if let Key::Esc = key {
        return one(Action::ModeSwitch(Mode::NormalMode));
    }
    reader.next_key(key);
    if reader.done() {
        two(Action::Command(reader.result()), Action::ModeSwitch(Mode::NormalMode))
    } else {
        Vec::new()
    }
}

/// Feeds a keystroke to the editor of shell mode: Escape leaves the mode, and
/// a finished line is run as a program, after which the mode is left.
pub fn shell_mode_input(key: &Key, reader: &mut PromptReader) -> (r: Vec<Action>)
    ensures
        *key is Esc ==> *final(reader) == *old(reader) && r@.len() == 1 && r@[0] matches Action::ModeSwitch(Mode::NormalMode),
        !(*key is Esc) ==> edited(*old(reader), *key, *final(reader)),
        !(*key is Esc) && final(reader).finished() ==> r@.len() == 2 && (r@[0] matches Action::ShellCommand(s) && s@ == final(reader).text()) && r@[1] matches Action::ModeSwitch(Mode::NormalMode),
        !(*key is Esc) && !final(reader).finished() ==> r@.len() == 0,
{
    if let Key::Esc = key {
        return one(Action::ModeSwitch(Mode::NormalMode));
    }
    reader.next_key(key);
    if reader.done() {
        two(Action::ShellCommand(reader.result()), Action::ModeSwitch(Mode::NormalMode))
    } else {
        Vec::new()
    }
}

} // verus!
