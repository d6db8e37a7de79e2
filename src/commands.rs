use vstd::prelude::*;

use crate::error::FilmanError;
use crate::path::{filename_of, resolve, same_text, split_on, split_str, texts, Path};
use crate::state::{clamp, cursor_of, paths, State};

verus! {

/// A parsed command line: the command and its arguments.
#[derive(Debug)]
pub enum Command {
    Rename(Vec<String>),
    Delete(Vec<String>),
    Yank(Vec<String>),
    Paste(Vec<String>),
    ToggleSelect(Vec<String>),
    CursorDown,
    CursorUp,
    CursorAscend,
    CursorDescend,
    ClearSelection,
}

/// Whether `name` is one of the command names.
pub open spec fn known_command(name: Seq<char>) -> bool {
    name == ":rename"@ || name == ":delete"@ || name == ":yank"@ || name == ":paste"@ || name
        == ":toggle_select"@ || name == ":cursor_down"@ || name == ":cursor_up"@ || name
        == ":cursor_ascend"@ || name == ":cursor_descend"@ || name == ":clear_selection"@
}

/// Whether `c` is the command named `name` with the arguments `args`.
pub open spec fn command_is(c: Command, name: Seq<char>, args: Seq<Seq<char>>) -> bool {
    match c {
        Command::Rename(a) => name == ":rename"@ && texts(a@) == args,
        Command::Delete(a) => name == ":delete"@ && texts(a@) == args,
        Command::Yank(a) => name == ":yank"@ && texts(a@) == args,
        Command::Paste(a) => name == ":paste"@ && texts(a@) == args,
        Command::ToggleSelect(a) => name == ":toggle_select"@ && texts(a@) == args,
        Command::CursorDown => name == ":cursor_down"@,
        Command::CursorUp => name == ":cursor_up"@,
        Command::CursorAscend => name == ":cursor_ascend"@,
        Command::CursorDescend => name == ":cursor_descend"@,
        Command::ClearSelection => name == ":clear_selection"@,
    }
}

fn text_is(s: &String, lit: &str) -> (r: bool)
    ensures
        r == (s@ == lit@),
{
    same_text(s, &String::from_str(lit))
}

fn tail(v: &Vec<String>) -> (r: Vec<String>)
    requires
        v@.len() > 0,
    ensures
        texts(r@) == texts(v@).drop_first(),
{
    let mut r: Vec<String> = Vec::new();
    let mut i: usize = 1;
    while i < v.len()
        invariant
            1 <= i <= v@.len(),
            texts(r@) == texts(v@).subrange(1, i as int),
        decreases v@.len() - i,
    {
        let ghost before = r@;
        r.push(v[i].clone());
        assert(texts(r@) == texts(before).push(v@[i as int]@));
        assert(texts(r@) =~= texts(v@).subrange(1, i as int + 1));
        i = i + 1;
    }
    r
}

/// Reads a command line: space-separated tokens, the first one naming the
/// command. An empty line cannot be split; an unknown name is refused.
pub fn parse_command(cmd: &str) -> (r: Result<Command, FilmanError>)
    ensures
        cmd@.len() == 0 ==> (r matches Err(FilmanError::CommandParseError(m)) && m@
            == "Could not split command string into command name and arguments "@ + cmd@),
        cmd@.len() > 0 && known_command(split_on(cmd@, ' ')[0]) ==> (r matches Ok(c)
            && command_is(c, split_on(cmd@, ' ')[0], split_on(cmd@, ' ').drop_first())),
        cmd@.len() > 0 && !known_command(split_on(cmd@, ' ')[0]) ==> (r matches Err(
            FilmanError::CommandError(m),
        ) && m@ == "Unrecognized command "@ + cmd@),
{
    if cmd.unicode_len() == 0 {
        let mut m = String::from_str(
            "Could not split command string into command name and arguments ",
        );
        m.append(cmd);
        return Err(FilmanError::CommandParseError(m));
    }
    let tokens = split_str(cmd, ' ');
    proof {
        crate::path::lemma_split_on_nonempty(cmd@, ' ');
    }
    assert(tokens@.len() > 0);
    let name = &tokens[0];
    let args = tail(&tokens);
    assert(name@ == split_on(cmd@, ' ')[0]);
    if text_is(name, ":rename") {
        Ok(Command::Rename(args))
    } else if text_is(name, ":delete") {
        Ok(Command::Delete(args))
    } else if text_is(name, ":yank") {
        Ok(Command::Yank(args))
    } else if text_is(name, ":paste") {
        Ok(Command::Paste(args))
    } else if text_is(name, ":toggle_select") {
        Ok(Command::ToggleSelect(args))
    } else if text_is(name, ":cursor_down") {
        Ok(Command::CursorDown)
    } else if text_is(name, ":cursor_up") {
        Ok(Command::CursorUp)
    } else if text_is(name, ":cursor_ascend") {
        Ok(Command::CursorAscend)
    } else if text_is(name, ":cursor_descend") {
        Ok(Command::CursorDescend)
    } else if text_is(name, ":clear_selection") {
        Ok(Command::ClearSelection)
    } else {
        let mut m = String::from_str("Unrecognized command ");
        m.append(cmd);
        Err(FilmanError::CommandError(m))
    }
}

/// Reads a shell line: the first token without its leading character names
/// the program, the other tokens are its arguments.
pub fn parse_shell_command(cmd: &str) -> (r: (String, Vec<String>))
    ensures
        r.0@ == (if split_on(cmd@, ' ')[0].len() > 0 {
            split_on(cmd@, ' ')[0].drop_first()
        } else {
            Seq::empty()
        }),
        texts(r.1@) == split_on(cmd@, ' ').drop_first(),
{
    let tokens = split_str(cmd, ' ');
    proof {
        crate::path::lemma_split_on_nonempty(cmd@, ' ');
    }
    assert(tokens@.len() > 0);
    let first = tokens[0].as_str();
    let n = first.unicode_len();
    let program = if n > 0 {
        String::from_str(first.substring_char(1, n))
    } else {
        String::new()
    };
    (program, tail(&tokens))
}

/// The paths that the arguments name from `dir`.
pub open spec fn resolve_all(dir: Seq<Seq<char>>, args: Seq<Seq<char>>) -> Seq<Seq<Seq<char>>> {
    args.map_values(|a: Seq<char>| resolve(dir, a))
}

fn resolve_args(dir: &Path, args: &Vec<String>) -> (r: Vec<Path>)
    ensures
        paths(r@) == resolve_all(dir@, texts(args@)),
{
    let mut r: Vec<Path> = Vec::new();
    let mut i: usize = 0;
    while i < args.len()
        invariant
            i <= args@.len(),
            paths(r@) == resolve_all(dir@, texts(args@)).take(i as int),
        decreases args@.len() - i,
    {
        let ghost before = r@;
        r.push(dir.join(args[i].as_str()));
        assert(paths(r@) == paths(before).push(resolve(dir@, args@[i as int]@)));
        assert(paths(r@) =~= resolve_all(dir@, texts(args@)).take(i as int + 1));
        i = i + 1;
    }
    assert(resolve_all(dir@, texts(args@)).take(i as int) == resolve_all(dir@, texts(args@)));
    r
}

/// Renames the entry under the cursor to the one argument, read from the
/// working directory: gives the source and the target of the move.
pub fn rename(args: &Vec<String>, state: &State, names: &Vec<String>) -> (r: Result<
    (Path, Path),
    FilmanError,
>)
    ensures
        args@.len() != 1 ==> (r matches Err(FilmanError::CommandError(m)) && m@
            == ":rename takes one argument"@),
        args@.len() == 1 && names@.len() == 0 ==> r matches Err(FilmanError::EmptyDirectory),
        args@.len() == 1 && names@.len() > 0 ==> (r matches Ok((from, to)) && state.selected_entry(
            texts(names@),
        ) == Some(from@) && to@ == resolve(state.pwd@, args@[0]@)),
{
    if args.len() != 1 {
        return Err(FilmanError::CommandError(String::from_str(":rename takes one argument")));
    }
    match state.path_of_selected(names) {
        Some(from) => Ok((from, state.pwd.join(args[0].as_str()))),
        None => Err(FilmanError::EmptyDirectory),
    }
}

/// The entries to remove, in the order given. Once removals are done,
/// `forget_deleted` takes those that were tried out of the multi-selection.
pub fn delete(args: &Vec<String>, state: &State) -> (r: Result<Vec<Path>, FilmanError>)
    ensures
        args@.len() == 0 ==> (r matches Err(FilmanError::CommandError(m)) && m@
            == ":delete takes at least one argument"@),
        args@.len() > 0 ==> (r matches Ok(v) && paths(v@) == resolve_all(
            state.pwd@,
            texts(args@),
        )),
{
    if args.len() == 0 {
        return Err(
            FilmanError::CommandError(String::from_str(":delete takes at least one argument")),
        );
    }
    Ok(resolve_args(&state.pwd, args))
}

/// The selection with each path of `ps` taken out.
pub open spec fn minus_paths(s: Set<Seq<Seq<char>>>, ps: Seq<Seq<Seq<char>>>) -> Set<
    Seq<Seq<char>>,
>
    decreases ps.len(),
{
    if ps.len() == 0 {
        s
    } else {
        minus_paths(s, ps.drop_last()).remove(ps.last())
    }
}

/// How many of `len` removals were tried, when the first failure, if any, was
/// at `failed_at`.
pub open spec fn tried(len: int, failed_at: Option<usize>) -> int {
    match failed_at {
        Some(k) => if k < len {
            k + 1
        } else {
            len
        },
        None => len,
    }
}

/// Settles the multi-selection after the removals of a delete of `targets`,
/// made in order until the first one that failed, at `failed_at` (none when all
/// succeeded): every target whose removal was tried leaves the multi-selection,
/// the ones after a failure stay.
pub fn forget_deleted(state: &mut State, targets: &Vec<Path>, failed_at: Option<usize>)
    ensures
        final(state).same_but_selection(old(state)),
        final(state).selection() == minus_paths(
            old(state).selection(),
            paths(targets@).take(tried(targets@.len() as int, failed_at)),
        ),
        old(state).wf() ==> final(state).wf(),
{
    let n = match failed_at {
        Some(k) => if k < targets.len() {
            k + 1
        } else {
            targets.len()
        },
        None => targets.len(),
    };
    let ghost all = paths(targets@);
    let mut i: usize = 0;
    while i < n
        invariant
            all == paths(targets@),
            n <= targets@.len(),
            n == tried(targets@.len() as int, failed_at),
            i <= n,
            state.same_but_selection(old(state)),
            state.selection() == minus_paths(old(state).selection(), all.take(i as int)),
            old(state).wf() ==> state.wf(),
        decreases n - i,
    {
        assert(all.take(i as int + 1).drop_last() == all.take(i as int));
        assert(all.take(i as int + 1).last() == targets@[i as int]@);
        state.deselect(&targets[i]);
        i = i + 1;
    }
}

/// The staged paths after a yank of `args` from `dir`: a yank with no
/// argument changes nothing, any other replaces what was staged.
pub open spec fn yanked_after(
    staged: Seq<Seq<Seq<char>>>,
    dir: Seq<Seq<char>>,
    args: Seq<Seq<char>>,
) -> Seq<Seq<Seq<char>>> {
    if args.len() == 0 {
        staged
    } else {
        resolve_all(dir, args)
    }
}

/// Stages the paths that the arguments name, in place of what was staged.
pub fn yank(args: &Vec<String>, state: &mut State) -> (r: Result<(), FilmanError>)
    ensures
        args@.len() == 0 ==> (r matches Err(FilmanError::CommandError(m)) && m@
            == ":yank takes at least one argument"@ && *final(state) == *old(state)),
        args@.len() > 0 ==> r is Ok,
        paths(final(state).yanked@) == yanked_after(
            paths(old(state).yanked@),
            old(state).pwd@,
            texts(args@),
        ),
        final(state).pwd == old(state).pwd,
        final(state).selected_in_pwd == old(state).selected_in_pwd,
        final(state).multi_select == old(state).multi_select,
        old(state).wf() ==> final(state).wf(),
{
    if args.len() == 0 {
        return Err(
            FilmanError::CommandError(String::from_str(":yank takes at least one argument")),
        );
    }
    state.yanked = resolve_args(&state.pwd, args);
    Ok(())
}

/// What a paste does: the copies to make, in order, and how it ends once they
/// are made.
pub struct PastePlan {
    pub copies: Vec<(Path, Path)>,
    pub outcome: Result<(), FilmanError>,
}

/// Whether the `i`-th staged path can be copied into a directory that lists
/// `names`, after the ones before it: it has a name, and neither the listing
/// nor an earlier copy has that name.
pub open spec fn paste_clear(staged: Seq<Seq<Seq<char>>>, names: Seq<Seq<char>>, i: int) -> bool {
    &&& filename_of(staged[i]) is Some
    &&& !names.contains(filename_of(staged[i])->0)
    &&& forall|j: int| 0 <= j < i ==> filename_of(staged[j]) != filename_of(staged[i])
}

/// Where a paste of `staged` into a directory listing `names` stops: the first
/// staged path that cannot be copied, counting from `i`, or the end.
pub open spec fn first_blocked(staged: Seq<Seq<Seq<char>>>, names: Seq<Seq<char>>, i: int) -> int
    decreases staged.len() - i,
{
    if i < 0 || i >= staged.len() {
        staged.len() as int
    } else if !paste_clear(staged, names, i) {
        i
    } else {
        first_blocked(staged, names, i + 1)
    }
}

/// How many of the staged paths a paste copies.
pub open spec fn paste_stop(staged: Seq<Seq<Seq<char>>>, names: Seq<Seq<char>>) -> int {
    first_blocked(staged, names, 0)
}

/// Where the scan stops: everything before is clear, the stop itself is not.
pub proof fn lemma_first_blocked(staged: Seq<Seq<Seq<char>>>, names: Seq<Seq<char>>, i: int)
    requires
        0 <= i <= staged.len(),
    ensures
        i <= first_blocked(staged, names, i) <= staged.len(),
        forall|j: int| i <= j < first_blocked(staged, names, i) ==> paste_clear(staged, names, j),
        first_blocked(staged, names, i) < staged.len() ==> !paste_clear(
            staged,
            names,
            first_blocked(staged, names, i),
        ),
    decreases staged.len() - i,
{
    if i < staged.len() && paste_clear(staged, names, i) {
        lemma_first_blocked(staged, names, i + 1);
    }
}

/// A scan that has passed clear paths stops where a scan from the start does.
pub proof fn lemma_first_blocked_skip(staged: Seq<Seq<Seq<char>>>, names: Seq<Seq<char>>, i: int)
    requires
        0 <= i <= staged.len(),
        forall|j: int| 0 <= j < i ==> paste_clear(staged, names, j),
    ensures
        paste_stop(staged, names) == first_blocked(staged, names, i),
    decreases i,
{
    if i > 0 {
        lemma_first_blocked_skip(staged, names, i - 1);
    }
}

fn contains_text(v: &Vec<String>, s: &String) -> (r: bool)
    ensures
        r == texts(v@).contains(s@),
{
    let mut i: usize = 0;
    while i < v.len()
        invariant
            i <= v@.len(),
            forall|j: int| 0 <= j < i ==> v@[j]@ != s@,
        decreases v@.len() - i,
    {
        if same_text(&v[i], s) {
            assert(texts(v@)[i as int] == s@);
            return true;
        }
        i = i + 1;
    }
    assert(!texts(v@).contains(s@)) by {
        if texts(v@).contains(s@) {
            let j = choose|j: int| 0 <= j < texts(v@).len() && texts(v@)[j] == s@;
            assert(v@[j]@ == s@);
        }
    }
    false
}

/// Copies the staged paths into the working directory, which lists `names`,
/// in order. It never overwrites: at the first staged path whose name the
/// directory already has, or that has no name, it stops with an error; the
/// copies before it are made.
pub fn paste(args: &Vec<String>, state: &State, names: &Vec<String>) -> (r: PastePlan)
    ensures
        args@.len() > 0 ==> r.copies@.len() == 0,
        args@.len() > 0 ==> (r.outcome matches Err(FilmanError::CommandError(m)) && m@
            == ":paste takes not arguments"@),
        args@.len() == 0 ==> ({
            let staged = paths(state.yanked@);
            let k = r.copies@.len() as int;
            &&& k == paste_stop(staged, texts(names@))
            &&& k <= staged.len()
            &&& forall|j: int|
                0 <= j < k ==> paste_clear(staged, texts(names@), j) && r.copies@[j].0@
                    == staged[j] && r.copies@[j].1@ == state.pwd@.push(filename_of(staged[j])->0)
            &&& k == staged.len() ==> r.outcome is Ok
            &&& k < staged.len() ==> !paste_clear(staged, texts(names@), k)
            &&& k < staged.len() ==> match filename_of(staged[k]) {
                None => r.outcome matches Err(FilmanError::PathHasNoFilename),
                Some(n) => (r.outcome matches Err(FilmanError::FileOverwriteError(m)) && m@ == n),
            }
        }),
{
    let mut copies: Vec<(Path, Path)> = Vec::new();
    if args.len() > 0 {
        return PastePlan {
            copies,
            outcome: Err(FilmanError::CommandError(String::from_str(":paste takes not arguments"))),
        };
    }
    let ghost staged = paths(state.yanked@);
    let mut copied: Vec<String> = Vec::new();
    let mut i: usize = 0;
    while i < state.yanked.len()
        invariant
            staged == paths(state.yanked@),
            args@.len() == 0,
            i <= staged.len(),
            copies@.len() == i,
            copied@.len() == i,
            forall|j: int|
                0 <= j < i ==> paste_clear(staged, texts(names@), j) && copies@[j].0@ == staged[j]
                    && copies@[j].1@ == state.pwd@.push(filename_of(staged[j])->0)
                    && filename_of(staged[j]) == Some(copied@[j]@),
        decreases staged.len() - i,
    {
        let src = &state.yanked[i];
        proof {
            lemma_first_blocked_skip(staged, texts(names@), i as int);
        }
        let name = match src.filename() {
            Ok(n) => n,
            Err(e) => {
                return PastePlan { copies, outcome: Err(e) };
            },
        };
        if contains_text(names, &name) || contains_text(&copied, &name) {
            proof {
                if texts(copied@).contains(name@) {
                    let j = choose|j: int| 0 <= j < texts(copied@).len() && texts(copied@)[j] == name@;
                    assert(filename_of(staged[j]) == filename_of(staged[i as int]));
                }
            }
            return PastePlan { copies, outcome: Err(FilmanError::FileOverwriteError(name)) };
        }
        assert forall|j: int| 0 <= j < i implies filename_of(staged[j]) != filename_of(
            staged[i as int],
        ) by {
            assert(texts(copied@)[j] == copied@[j]@);
        }
        let target = state.pwd.child(&name);
        copies.push((src.copy(), target));
        copied.push(name);
        i = i + 1;
    }
    proof {
        lemma_first_blocked_skip(staged, texts(names@), i as int);
    }
    PastePlan { copies, outcome: Ok(()) }
}

/// The selection after flipping each path of `ps` in turn.
pub open spec fn toggled(s: Set<Seq<Seq<char>>>, ps: Seq<Seq<Seq<char>>>) -> Set<Seq<Seq<char>>>
    decreases ps.len(),
{
    if ps.len() == 0 {
        s
    } else {
        let t = toggled(s, ps.drop_last());
        if t.contains(ps.last()) {
            t.remove(ps.last())
        } else {
            t.insert(ps.last())
        }
    }
}

/// Flips the multi-selection of each path that the arguments name.
pub fn toggle_select(args: &Vec<String>, state: &mut State) -> (r: Result<(), FilmanError>)
    ensures
        args@.len() == 0 ==> (r matches Err(FilmanError::CommandError(m)) && m@
            == ":select takes at least one argument"@),
        args@.len() > 0 ==> r is Ok,
        final(state).same_but_selection(old(state)),
        final(state).selection() == toggled(
            old(state).selection(),
            resolve_all(old(state).pwd@, texts(args@)),
        ),
        old(state).wf() ==> final(state).wf(),
{
    if args.len() == 0 {
        return Err(
            FilmanError::CommandError(String::from_str(":select takes at least one argument")),
        );
    }
    let targets = resolve_args(&state.pwd, args);
    let ghost all = resolve_all(old(state).pwd@, texts(args@));
    let mut i: usize = 0;
    while i < targets.len()
        invariant
            paths(targets@) == all,
            i <= targets@.len(),
            state.same_but_selection(old(state)),
            state.selection() == toggled(old(state).selection(), all.take(i as int)),
            old(state).wf() ==> state.wf(),
        decreases targets@.len() - i,
    {
        assert(all.take(i as int + 1).drop_last() == all.take(i as int));
        state.toggle(targets[i].copy());
        i = i + 1;
    }
    assert(all.take(i as int) == all);
    Ok(())
}

/// Empties the multi-selection.
pub fn clear_selection(state: &mut State)
    ensures
        final(state).same_but_selection(old(state)),
        final(state).selection() == Set::<Seq<Seq<char>>>::empty(),
        old(state).wf() ==> final(state).wf(),
{
    state.multi_select = Vec::new();
    assert(final(state).selection() =~= Set::<Seq<Seq<char>>>::empty());
    assert(paths(state.multi_select@).len() == 0);
}

/// The cursor after moving down one entry in a listing of `len` entries, from
/// the recorded cursor `c`: past the last entry it wraps to the first.
pub open spec fn next_down(c: int, len: int) -> int {
    if len == 0 || clamp(c, len) + 1 >= len {
        0
    } else {
        clamp(c, len) + 1
    }
}

/// The cursor after moving up one entry: above the first it wraps to the last.
pub open spec fn next_up(c: int, len: int) -> int {
    if clamp(c, len) == 0 {
        len - 1
    } else {
        clamp(c, len) - 1
    }
}

/// Moves the cursor of the working directory, which lists `len` entries, down
/// one entry, wrapping around.
pub fn cursor_down(state: &mut State, len: usize)
    ensures
        final(state).same_but_cursors(old(state)),
        final(state).cursor() == next_down(old(state).cursor() as int, len as int),
        forall|d: Seq<Seq<char>>|
            d != old(state).pwd@ ==> cursor_of(final(state).selected_in_pwd@, d) == cursor_of(
                old(state).selected_in_pwd@,
                d,
            ),
        old(state).wf() ==> final(state).wf(),
{
    let next = if len == 0 {
        0
    } else {
        let c = state.clamped_cursor(len);
        if c + 1 >= len {
            0
        } else {
            c + 1
        }
    };
    let dir = state.pwd.copy();
    state.set_cursor(&dir, next);
}

/// Moves the cursor of the working directory, which lists `len` entries, up
/// one entry, wrapping around; nothing changes in an empty directory.
pub fn cursor_up(state: &mut State, len: usize)
    ensures
        len == 0 ==> *final(state) == *old(state),
        final(state).same_but_cursors(old(state)),
        len > 0 ==> final(state).cursor() == next_up(old(state).cursor() as int, len as int),
        forall|d: Seq<Seq<char>>|
            d != old(state).pwd@ ==> cursor_of(final(state).selected_in_pwd@, d) == cursor_of(
                old(state).selected_in_pwd@,
                d,
            ),
        old(state).wf() ==> final(state).wf(),
{
    if len == 0 {
        return;
    }
    let c = state.clamped_cursor(len);
    let next = if c == 0 {
        len - 1
    } else {
        c - 1
    };
    let dir = state.pwd.copy();
    state.set_cursor(&dir, next);
}

/// Enters the entry under the cursor; `selected_is_dir` tells whether it is a
/// directory. The cursor kept for that directory, if any, comes back.
pub fn cursor_descend(state: &mut State, names: &Vec<String>, selected_is_dir: bool) -> (r: Result<
    (),
    FilmanError,
>)
    ensures
        names@.len() == 0 ==> r matches Err(FilmanError::EmptyDirectory),
        names@.len() > 0 && !selected_is_dir ==> r matches Err(FilmanError::NotADirectory),
        r is Err ==> *final(state) == *old(state),
        r is Ok <==> names@.len() > 0 && selected_is_dir,
        r is Ok ==> Some(final(state).pwd@) == old(state).selected_entry(texts(names@)),
        final(state).selected_in_pwd == old(state).selected_in_pwd,
        final(state).multi_select == old(state).multi_select,
        final(state).yanked == old(state).yanked,
        old(state).wf() ==> final(state).wf(),
{
    match state.path_of_selected(names) {
        None => Err(FilmanError::EmptyDirectory),
        Some(p) => {
            if selected_is_dir {
                state.pwd = p;
                Ok(())
            } else {
                Err(FilmanError::NotADirectory)
            }
        },
    }
}

/// Leaves the working directory for its parent, which lists `parent_names`,
/// with the cursor on the directory just left. `new_len` is the length of the
/// parent's listing read again after the move: should that entry be gone by
/// then, or missing from `parent_names` already, the cursor goes to 0. Only the
/// root has no parent to go to.
pub fn cursor_ascend(state: &mut State, parent_names: &Vec<String>, new_len: usize) -> (r: Result<
    (),
    FilmanError,
>)
    ensures
        r is Ok <==> old(state).pwd@.len() > 0,
        r is Err ==> (r matches Err(FilmanError::NoParentError) && *final(state) == *old(state)),
        r is Ok ==> ({
            &&& final(state).pwd@ == old(state).pwd@.drop_last()
            &&& texts(parent_names@).contains(old(state).pwd@.last()) ==> exists|i: int|
                0 <= i < parent_names@.len() && parent_names@[i]@ == old(state).pwd@.last() && (
                forall|j: int| 0 <= j < i ==> parent_names@[j]@ != old(state).pwd@.last())
                    && final(state).cursor() == (if i >= new_len {
                    0
                } else {
                    i
                })
            &&& !texts(parent_names@).contains(old(state).pwd@.last()) ==> final(state).cursor()
                == 0
            &&& forall|d: Seq<Seq<char>>|
                d != final(state).pwd@ ==> cursor_of(final(state).selected_in_pwd@, d)
                    == cursor_of(old(state).selected_in_pwd@, d)
        }),
        final(state).multi_select == old(state).multi_select,
        final(state).yanked == old(state).yanked,
        old(state).wf() ==> final(state).wf(),
{
    let parent = match state.pwd.parent() {
        Some(p) => p,
        None => {
            return Err(FilmanError::NoParentError);
        },
    };
    let found = state.selected_index_in_parent(parent_names);
    let index = match found {
        Some(i) => {
            proof {
                assert(texts(parent_names@)[i as int] == state.pwd@.last());
            }
            if i >= new_len {
                0
            } else {
                i
            }
        },
        None => {
            proof {
                if texts(parent_names@).contains(state.pwd@.last()) {
                    let j = choose|j: int|
                        0 <= j < texts(parent_names@).len() && texts(parent_names@)[j]
                            == state.pwd@.last();
                    assert(parent_names@[j]@ == state.pwd@.last());
                }
            }
            0
        },
    };
    state.pwd = parent;
    let dir = state.pwd.copy();
    state.set_cursor(&dir, index);
    Ok(())
}

} // verus!
