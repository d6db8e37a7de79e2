use vstd::prelude::*;

use crate::path::{texts, Path};
use crate::state::{entries_of, paths, Mode, State};

verus! {

/// One row of the working directory's listing: a name and its size text.
#[derive(Debug)]
pub struct DirectoryEntry {
    pub name: String,
    pub info: String,
}

/// What the display shows of a session, derived afresh for every frame.
pub struct RenderState {
    pub files_in_pwd: Vec<DirectoryEntry>,
    pub selected_in_pwd: Option<usize>,
    pub multi_select: Vec<String>,
    pub yanked: Vec<String>,
    pub files_in_parent: Vec<String>,
    pub selected_in_parent: Option<usize>,
    pub preview: String,
    pub command: Option<String>,
    pub error_message: Option<String>,
}

/// The text of one listing row: `>> name` under the cursor, else a `Y` mark for
/// a staged entry and an `S` mark for a multi-selected one (blank when not),
/// a space, and the name.
pub open spec fn row_text(name: Seq<char>, selected: bool, yanked: bool, multi_selected: bool) -> Seq<
    char,
> {
    if selected {
        ">> "@ + name
    } else {
        seq![if yanked { 'Y' } else { ' ' }, if multi_selected { 'S' } else { ' ' }, ' '] + name
    }
}

/// Formats one listing row.
pub fn format_file(file: &DirectoryEntry, selected: bool, yanked: bool, multi_selected: bool) -> (r:
    String)
    ensures
        r@ == row_text(file.name@, selected, yanked, multi_selected),
{
    if selected {
        let mut r = String::from_str(">> ");
        r.append(file.name.as_str());
        return r;
    }
    let mut r = String::new();
    if yanked {
        r.append("Y");
    } else {
        r.append(" ");
    }
    if multi_selected {
        r.append("S");
    } else {
        r.append(" ");
    }
    r.append(" ");
    r.append(file.name.as_str());
    proof {
        reveal_strlit("Y");
        reveal_strlit("S");
        reveal_strlit(" ");
    }
    assert(r@ =~= row_text(file.name@, selected, yanked, multi_selected));
    r
}

/// The last components of the paths.
pub open spec fn last_names(ps: Seq<Seq<Seq<char>>>) -> Seq<Seq<char>> {
    ps.map_values(|p: Seq<Seq<char>>| p.last())
}

/// The names of the paths of `ps` that are entries of `dir`, in order.
fn names_in(ps: &Vec<Path>, dir: &Path) -> (r: Vec<String>)
    ensures
        texts(r@) == last_names(entries_of(paths(ps@), dir@)),
{
    let mut r: Vec<String> = Vec::new();
    let mut i: usize = 0;
    while i < ps.len()
        invariant
            i <= ps@.len(),
            texts(r@) == last_names(entries_of(paths(ps@).take(i as int), dir@)),
        decreases ps@.len() - i,
    {
        let ghost t = paths(ps@).take(i as int + 1);
        assert(t.drop_last() == paths(ps@).take(i as int));
        assert(t.last() == ps@[i as int]@);
        let ghost before = r@;
        if ps[i].is_in(dir) {
            let n = ps[i].parts.len();
            assert(ps@[i as int]@.last() == ps@[i as int].parts@[n - 1]@);
            r.push(ps[i].parts[n - 1].clone());
            assert(texts(r@) == texts(before).push(ps@[i as int]@.last()));
            assert(last_names(entries_of(t, dir@)) =~= last_names(
                entries_of(paths(ps@).take(i as int), dir@),
            ).push(ps@[i as int]@.last()));
        }
        i = i + 1;
    }
    assert(paths(ps@).take(i as int) == paths(ps@));
    r
}

/// The text of the editor that the mode has open, if any.
pub open spec fn command_text(mode: Mode) -> Option<Seq<char>> {
    match mode {
        Mode::NormalMode => None,
        Mode::CommandMode(p) => Some(p.text()),
        Mode::ShellCommandMode(p) => Some(p.text()),
    }
}

fn copy_text(s: &Option<String>) -> (r: Option<String>)
    ensures
        r == *s,
{
    match s {
        Some(t) => Some(t.clone()),
        None => None,
    }
}

impl RenderState {
    /// The display of `state`, given the rows of its working directory and the
    /// names that its parent lists. The cursor is shown read against the rows.
    pub fn from_state(state: &State, files: Vec<DirectoryEntry>, parent_names: Vec<String>) -> (r:
        RenderState)
        ensures
            r.files_in_pwd == files,
            files@.len() == 0 ==> r.selected_in_pwd is None,
            files@.len() > 0 ==> r.selected_in_pwd == Some(
                crate::state::clamp(state.cursor() as int, files@.len() as int) as usize,
            ),
            texts(r.multi_select@) == last_names(entries_of(paths(state.multi_select@), state.pwd@)),
            texts(r.yanked@) == last_names(entries_of(paths(state.yanked@), state.pwd@)),
            r.files_in_parent == parent_names,
            state.pwd@.len() == 0 ==> r.selected_in_parent is None,
            state.pwd@.len() > 0 ==> match r.selected_in_parent {
                Some(i) => i < parent_names@.len() && parent_names@[i as int]@ == state.pwd@.last()
                    && forall|j: int| 0 <= j < i ==> parent_names@[j]@ != state.pwd@.last(),
                None => forall|j: int|
                    0 <= j < parent_names@.len() ==> parent_names@[j]@ != state.pwd@.last(),
            },
            r.preview@ == (match state.file_contents {
                Some(t) => t@,
                None => "Binary file"@,
            }),
            match command_text(state.mode) {
                Some(t) => r.command matches Some(s) && s@ == t,
                None => r.command is None,
            },
            r.error_message == state.error_message,
    {
        let command = match &state.mode {
            Mode::NormalMode => None,
            Mode::CommandMode(p) => Some(p.result()),
            Mode::ShellCommandMode(p) => Some(p.result()),
        };
        let preview = match &state.file_contents {
            Some(t) => t.clone(),
            None => String::from_str("Binary file"),
        };
        let selected_in_parent = state.selected_index_in_parent(&parent_names);
        let selected_in_pwd = if files.len() > 0 {
            Some(state.clamped_cursor(files.len()))
        } else {
            None
        };
        RenderState {
            files_in_pwd: files,
            selected_in_pwd,
            multi_select: names_in(&state.multi_select, &state.pwd),
            yanked: names_in(&state.yanked, &state.pwd),
            files_in_parent: parent_names,
            selected_in_parent,
            preview,
            command,
            error_message: copy_text(&state.error_message),
        }
    }
}

} // verus!
