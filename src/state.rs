use vstd::prelude::*;

use crate::error::FilmanError;
use crate::path::{texts, Path};
use crate::prompt::PromptReader;

verus! {

/// How keystrokes are read: as shortcuts, or into a command or shell line.
#[derive(Debug)]
pub enum Mode {
    NormalMode,
    CommandMode(PromptReader),
    ShellCommandMode(PromptReader),
}

/// The components of each path, in order.
pub open spec fn paths(s: Seq<Path>) -> Seq<Seq<Seq<char>>> {
    s.map_values(|p: Path| p@)
}

/// The set of paths that a list holds.
pub open spec fn path_set(s: Seq<Path>) -> Set<Seq<Seq<char>>> {
    Set::new(|x: Seq<Seq<char>>| paths(s).contains(x))
}

/// The cursor recorded for `dir`: the latest entry for it wins, and a
/// directory without one starts at 0.
pub open spec fn cursor_of(entries: Seq<(Path, usize)>, dir: Seq<Seq<char>>) -> usize
    decreases entries.len(),
{
    if entries.len() == 0 {
        0
    } else if entries.last().0@ == dir {
        entries.last().1
    } else {
        cursor_of(entries.drop_last(), dir)
    }
}

/// A recorded cursor read against a listing of `len` entries.
pub open spec fn clamp(c: int, len: int) -> int {
    if c < len {
        c
    } else {
        len - 1
    }
}

/// The paths of `s` that are entries of `dir`, in order.
pub open spec fn entries_of(s: Seq<Seq<Seq<char>>>, dir: Seq<Seq<char>>) -> Seq<Seq<Seq<char>>>
    decreases s.len(),
{
    if s.len() == 0 {
        Seq::empty()
    } else if s.last().len() > 0 && s.last().drop_last() == dir {
        entries_of(s.drop_last(), dir).push(s.last())
    } else {
        entries_of(s.drop_last(), dir)
    }
}

/// What a sequence holds after one more element is pushed.
pub proof fn lemma_contains_push<A>(s: Seq<A>, e: A, y: A)
    ensures
        s.push(e).contains(y) <==> (s.contains(y) || y == e),
{
    if s.contains(y) {
        let i = choose|i: int| 0 <= i < s.len() && s[i] == y;
        assert(s.push(e)[i] == y);
    }
    if y == e {
        assert(s.push(e)[s.len() as int] == e);
    }
    if s.push(e).contains(y) {
        let i = choose|i: int| 0 <= i < s.len() + 1 && s.push(e)[i] == y;
        if i < s.len() {
            assert(s[i] == y);
        }
    }
}

/// Pushing an element that is not there keeps a sequence free of duplicates.
pub proof fn lemma_push_distinct<A>(s: Seq<A>, e: A)
    requires
        s.no_duplicates(),
        !s.contains(e),
    ensures
        s.push(e).no_duplicates(),
{
    assert forall|i: int, j: int|
        0 <= i < s.len() + 1 && 0 <= j < s.len() + 1 && i != j implies s.push(e)[i] != s.push(e)[
        j] by {
        if i == s.len() {
            assert(s[j] == s.push(e)[j]);
        } else if j == s.len() {
            assert(s[i] == s.push(e)[i]);
        }
    }
}

/// The directories that cursor entries are recorded for, in order.
pub open spec fn keys(s: Seq<(Path, usize)>) -> Seq<Seq<Seq<char>>> {
    s.map_values(|e: (Path, usize)| e.0@)
}

/// Files of this many bytes or more are not previewed.
pub const PREVIEW_LIMIT: u64 = 2048;

/// Whether a file of `size` bytes is small enough to preview.
pub fn previewable(size: u64) -> (r: bool)
    ensures
        r == (size < PREVIEW_LIMIT),
{
    size < PREVIEW_LIMIT
}

/// The session: where the browser stands, what is selected and staged, and how
/// keys are read.
#[derive(Debug)]
pub struct State {
    pub pwd: Path,
    pub selected_in_pwd: Vec<(Path, usize)>,
    pub mode: Mode,
    pub file_contents: Option<String>,
    pub yanked: Vec<Path>,
    pub multi_select: Vec<Path>,
    pub error_message: Option<String>,
}

/// The paths of `s` other than `x`, in order.
fn without(s: &Vec<Path>, x: &Path) -> (r: Vec<Path>)
    ensures
        forall|y: Seq<Seq<char>>| paths(r@).contains(y) <==> (paths(s@).contains(y) && y != x@),
        paths(s@).no_duplicates() ==> paths(r@).no_duplicates(),
{
    let mut r: Vec<Path> = Vec::new();
    let mut i: usize = 0;
    while i < s.len()
        invariant
            i <= s@.len(),
            forall|y: Seq<Seq<char>>|
                paths(r@).contains(y) <==> (paths(s@).take(i as int).contains(y) && y != x@),
            paths(s@).no_duplicates() ==> paths(r@).no_duplicates(),
        decreases s@.len() - i,
    {
        let ghost before = r@;
        assert(paths(s@).take(i as int + 1) == paths(s@).take(i as int).push(s@[i as int]@));
        if !s[i].same(x) {
            r.push(s[i].copy());
            assert(paths(r@) == paths(before).push(s@[i as int]@));
            proof {
                if paths(s@).no_duplicates() {
                    if paths(before).contains(s@[i as int]@) {
                        let j = choose|j: int|
                            0 <= j < i && paths(s@).take(i as int)[j] == s@[i as int]@;
                        assert(paths(s@)[j] == paths(s@)[i as int]);
                    }
                    lemma_push_distinct(paths(before), s@[i as int]@);
                }
            }
        } else {
            assert(r@ == before);
        }
        assert forall|y: Seq<Seq<char>>|
            paths(r@).contains(y) <==> (paths(s@).take(i as int + 1).contains(y) && y != x@) by {
            lemma_contains_push(paths(s@).take(i as int), s@[i as int]@, y);
            lemma_contains_push(paths(before), s@[i as int]@, y);
        }
        i = i + 1;
    }
    assert(paths(s@).take(i as int) == paths(s@));
    r
}

/// Whether some path of `s` equals `x`.
fn holds(s: &Vec<Path>, x: &Path) -> (r: bool)
    ensures
        r == paths(s@).contains(x@),
{
    let mut i: usize = 0;
    while i < s.len()
        invariant
            i <= s@.len(),
            forall|j: int| 0 <= j < i ==> s@[j]@ != x@,
        decreases s@.len() - i,
    {
        if s[i].same(x) {
            assert(paths(s@)[i as int] == x@);
            return true;
        }
        i = i + 1;
    }
    assert(!paths(s@).contains(x@)) by {
        if paths(s@).contains(x@) {
            let j = choose|j: int| 0 <= j < paths(s@).len() && paths(s@)[j] == x@;
            assert(s@[j]@ == x@);
        }
    }
    false
}

impl State {
    /// The cursor recorded for the working directory.
    pub open spec fn cursor(&self) -> usize {
        cursor_of(self.selected_in_pwd@, self.pwd@)
    }

    /// The multi-selection, as a set of paths.
    pub open spec fn selection(&self) -> Set<Seq<Seq<char>>> {
        path_set(self.multi_select@)
    }

    /// The entry under the cursor, for the working directory's listing `names`.
    pub open spec fn selected_entry(&self, names: Seq<Seq<char>>) -> Option<Seq<Seq<char>>> {
        if names.len() == 0 {
            None
        } else {
            Some(self.pwd@.push(names[clamp(self.cursor() as int, names.len() as int)]))
        }
    }

    /// No path is multi-selected twice, and no directory has two cursor entries.
    pub open spec fn wf(&self) -> bool {
        &&& paths(self.multi_select@).no_duplicates()
        &&& keys(self.selected_in_pwd@).no_duplicates()
    }

    /// Whether only the cursor memory may differ between the two states.
    pub open spec fn same_but_cursors(&self, other: &State) -> bool {
        &&& self.pwd == other.pwd
        &&& self.mode == other.mode
        &&& self.file_contents == other.file_contents
        &&& self.yanked == other.yanked
        &&& self.multi_select == other.multi_select
        &&& self.error_message == other.error_message
    }

    /// Whether only the multi-selection may differ between the two states.
    pub open spec fn same_but_selection(&self, other: &State) -> bool {
        &&& self.pwd == other.pwd
        &&& self.selected_in_pwd == other.selected_in_pwd
        &&& self.mode == other.mode
        &&& self.file_contents == other.file_contents
        &&& self.yanked == other.yanked
        &&& self.error_message == other.error_message
    }

    /// A session in `pwd`, with its cursor at 0, nothing selected or staged,
    /// in normal mode.
    pub fn new(pwd: Path) -> (r: State)
        ensures
            r.pwd@ == pwd@,
            r.cursor() == 0,
            r.selection() == Set::<Seq<Seq<char>>>::empty(),
            r.yanked@.len() == 0,
            r.mode is NormalMode,
            r.error_message is None,
            r.file_contents is None,
            r.wf(),
    {
        let key = pwd.copy();
        let mut selected_in_pwd: Vec<(Path, usize)> = Vec::new();
        selected_in_pwd.push((key, 0));
        let r = State {
            pwd,
            selected_in_pwd,
            mode: Mode::NormalMode,
            file_contents: None,
            yanked: Vec::new(),
            multi_select: Vec::new(),
            error_message: None,
        };
        assert(r.selected_in_pwd@.drop_last().len() == 0);
        assert(r.selection() == Set::<Seq<Seq<char>>>::empty());
        assert(paths(r.multi_select@).len() == 0);
        assert(keys(r.selected_in_pwd@).len() == 1);
        r
    }

    /// The cursor recorded for the working directory, not yet read against a listing.
    pub fn selected_index_in_pwd(&self) -> (r: usize)
        ensures
            r == self.cursor(),
    {
        let mut i: usize = self.selected_in_pwd.len();
        assert(self.selected_in_pwd@.take(i as int) == self.selected_in_pwd@);
        while i > 0
            invariant
                i <= self.selected_in_pwd@.len(),
                cursor_of(self.selected_in_pwd@, self.pwd@) == cursor_of(
                    self.selected_in_pwd@.take(i as int),
                    self.pwd@,
                ),
            decreases i,
        {
            let ghost t = self.selected_in_pwd@.take(i as int);
            assert(t.last() == self.selected_in_pwd@[i - 1]);
            assert(t.drop_last() == self.selected_in_pwd@.take(i - 1));
            if self.selected_in_pwd[i - 1].0.same(&self.pwd) {
                return self.selected_in_pwd[i - 1].1;
            }
            i = i - 1;
        }
        0
    }

    /// Records `index` as the cursor of `dir`.
    pub fn set_cursor(&mut self, dir: &Path, index: usize)
        ensures
            final(self).same_but_cursors(old(self)),
            forall|d: Seq<Seq<char>>|
                cursor_of(final(self).selected_in_pwd@, d) == (if d == dir@ {
                    index
                } else {
                    cursor_of(old(self).selected_in_pwd@, d)
                }),
            old(self).wf() ==> final(self).wf(),
    {
        let ghost old_entries = self.selected_in_pwd@;
        let ghost w = keys(old_entries).no_duplicates();
        let mut entries: Vec<(Path, usize)> = Vec::new();
        let mut i: usize = 0;
        while i < self.selected_in_pwd.len()
            invariant
                self.selected_in_pwd@ == old_entries,
                i <= old_entries.len(),
                forall|d: Seq<Seq<char>>|
                    d != dir@ ==> cursor_of(entries@, d) == cursor_of(
                        old_entries.take(i as int),
                        d,
                    ),
                w == keys(old_entries).no_duplicates(),
                w ==> keys(entries@).no_duplicates(),
                forall|k: int| 0 <= k < entries@.len() ==> keys(entries@)[k] != dir@,
                forall|y: Seq<Seq<char>>|
                    keys(entries@).contains(y) ==> keys(old_entries).take(i as int).contains(y),
            decreases old_entries.len() - i,
        {
            let ghost t = old_entries.take(i as int + 1);
            assert(t.last() == old_entries[i as int]);
            assert(t.drop_last() == old_entries.take(i as int));
            let ghost before = entries@;
            if !self.selected_in_pwd[i].0.same(dir) {
                entries.push((self.selected_in_pwd[i].0.copy(), self.selected_in_pwd[i].1));
                assert(entries@.drop_last() == before);
                let ghost key = old_entries[i as int].0@;
                assert(keys(entries@) == keys(before).push(key));
                assert(keys(old_entries).take(i as int + 1) == keys(old_entries).take(i as int).push(
                    key,
                ));
                proof {
                    if w {
                        if keys(before).contains(key) {
                            assert(keys(old_entries).take(i as int).contains(key));
                            let j = choose|j: int|
                                0 <= j < i && keys(old_entries).take(i as int)[j] == key;
                            assert(keys(old_entries)[j] == keys(old_entries)[i as int]);
                        }
                        lemma_push_distinct(keys(before), key);
                    }
                    assert forall|y: Seq<Seq<char>>| keys(entries@).contains(y) implies keys(
                        old_entries,
                    ).take(i as int + 1).contains(y) by {
                        lemma_contains_push(keys(before), key, y);
                        lemma_contains_push(keys(old_entries).take(i as int), key, y);
                    }
                }
                assert forall|d: Seq<Seq<char>>| d != dir@ implies cursor_of(entries@, d)
                    == cursor_of(t, d) by {
                    assert(cursor_of(before, d) == cursor_of(t.drop_last(), d));
                }
            } else {
                assert forall|d: Seq<Seq<char>>| d != dir@ implies cursor_of(entries@, d)
                    == cursor_of(t, d) by {
                    assert(cursor_of(before, d) == cursor_of(t.drop_last(), d));
                }
                assert(keys(old_entries).take(i as int + 1) == keys(old_entries).take(i as int).push(
                    old_entries[i as int].0@,
                ));
                assert forall|y: Seq<Seq<char>>| keys(entries@).contains(y) implies keys(
                    old_entries,
                ).take(i as int + 1).contains(y) by {
                    lemma_contains_push(keys(old_entries).take(i as int), old_entries[i as int].0@, y);
                }
            }
            i = i + 1;
        }
        assert(old_entries.take(i as int) == old_entries);
        let ghost before = entries@;
        entries.push((dir.copy(), index));
        assert(entries@.drop_last() == before);
        assert(keys(entries@) == keys(before).push(dir@));
        proof {
            if w {
                if keys(before).contains(dir@) {
                    let k = choose|k: int| 0 <= k < keys(before).len() && keys(before)[k] == dir@;
                }
                lemma_push_distinct(keys(before), dir@);
            }
        }
        assert forall|d: Seq<Seq<char>>|
            cursor_of(entries@, d) == (if d == dir@ {
                index
            } else {
                cursor_of(old_entries, d)
            }) by {
            if d != dir@ {
                assert(cursor_of(before, d) == cursor_of(old_entries, d));
            }
        }
        self.selected_in_pwd = entries;
    }

    /// The recorded cursor read against a listing of `len` entries.
    pub fn clamped_cursor(&self, len: usize) -> (r: usize)
        requires
            len > 0,
        ensures
            r == clamp(self.cursor() as int, len as int),
    {
        let c = self.selected_index_in_pwd();
        if c < len {
            c
        } else {
            len - 1
        }
    }

    /// The entry under the cursor, given the names that the working directory
    /// lists; none when it lists nothing.
    pub fn path_of_selected(&self, names: &Vec<String>) -> (r: Option<Path>)
        ensures
            match self.selected_entry(texts(names@)) {
                Some(p) => r matches Some(q) && q@ == p,
                None => r is None,
            },
    {
        if names.len() == 0 {
            return None;
        }
        let i = self.clamped_cursor(names.len());
        Some(self.pwd.child(&names[i]))
    }

    /// The name of the entry under the cursor.
    pub fn filename_of_selected(&self, names: &Vec<String>) -> (r: Result<String, FilmanError>)
        ensures
            names@.len() == 0 ==> r matches Err(FilmanError::NoFileSelectedError),
            names@.len() > 0 ==> (r matches Ok(n) && n@ == names@[clamp(
                self.cursor() as int,
                names@.len() as int,
            )]@),
    {
        if names.len() == 0 {
            return Err(FilmanError::NoFileSelectedError);
        }
        let i = self.clamped_cursor(names.len());
        Ok(names[i].clone())
    }

    /// Where the working directory stands in its parent's listing `parent_names`:
    /// the first entry with its name; none for the root or when it is missing.
    pub fn selected_index_in_parent(&self, parent_names: &Vec<String>) -> (r: Option<usize>)
        ensures
            self.pwd@.len() == 0 ==> r is None,
            self.pwd@.len() > 0 ==> match r {
                Some(i) => i < parent_names@.len() && parent_names@[i as int]@ == self.pwd@.last()
                    && forall|j: int|
                    0 <= j < i ==> parent_names@[j]@ != self.pwd@.last(),
                None => forall|j: int|
                    0 <= j < parent_names@.len() ==> parent_names@[j]@ != self.pwd@.last(),
            },
    {
        let n = self.pwd.parts.len();
        if n == 0 {
            return None;
        }
        let name = &self.pwd.parts[n - 1];
        assert(self.pwd@.len() == n);
        let mut i: usize = 0;
        while i < parent_names.len()
            invariant
                n == self.pwd@.len(),
                n > 0,
                name@ == self.pwd@.last(),
                i <= parent_names@.len(),
                forall|j: int| 0 <= j < i ==> parent_names@[j]@ != self.pwd@.last(),
            decreases parent_names@.len() - i,
        {
            if parent_names[i].eq(name) {
                return Some(i);
            }
            i = i + 1;
        }
        None
    }

    /// The multi-selected paths that are entries of the working directory.
    pub fn multiselected_in_pwd(&self) -> (r: Vec<Path>)
        ensures
            paths(r@) == entries_of(paths(self.multi_select@), self.pwd@),
    {
        let mut r: Vec<Path> = Vec::new();
        let mut i: usize = 0;
        while i < self.multi_select.len()
            invariant
                i <= self.multi_select@.len(),
                paths(r@) == entries_of(paths(self.multi_select@).take(i as int), self.pwd@),
            decreases self.multi_select@.len() - i,
        {
            let ghost t = paths(self.multi_select@).take(i as int + 1);
            assert(t.drop_last() == paths(self.multi_select@).take(i as int));
            assert(t.last() == self.multi_select@[i as int]@);
            let ghost before = r@;
            if self.multi_select[i].is_in(&self.pwd) {
                r.push(self.multi_select[i].copy());
                assert(paths(r@) == paths(before).push(self.multi_select@[i as int]@));
            }
            i = i + 1;
        }
        assert(paths(self.multi_select@).take(i as int) == paths(self.multi_select@));
        r
    }

    /// What a selection-wide command acts on: the multi-selected entries of the
    /// working directory when there are any, else the entry under the cursor.
    pub fn multi_select_or_selected(&self, names: &Vec<String>) -> (r: Result<
        Vec<Path>,
        FilmanError,
    >)
        ensures
            entries_of(paths(self.multi_select@), self.pwd@).len() > 0 ==> (r matches Ok(v)
                && paths(v@) == entries_of(paths(self.multi_select@), self.pwd@)),
            entries_of(paths(self.multi_select@), self.pwd@).len() == 0 ==> match self.selected_entry(
                texts(names@),
            ) {
                Some(p) => r matches Ok(v) && paths(v@) == seq![p],
                None => r matches Err(FilmanError::NoFileSelectedError),
            },
    {
        let here = self.multiselected_in_pwd();
        if here.len() > 0 {
            return Ok(here);
        }
        match self.path_of_selected(names) {
            Some(p) => {
                let mut v: Vec<Path> = Vec::new();
                v.push(p);
                assert(paths(v@) == seq![v@[0]@]);
                Ok(v)
            },
            None => Err(FilmanError::NoFileSelectedError),
        }
    }

    /// Whether `p` is multi-selected.
    pub fn is_multi_selected(&self, p: &Path) -> (r: bool)
        ensures
            r == self.selection().contains(p@),
    {
        holds(&self.multi_select, p)
    }

    /// Takes `p` out of the multi-selection.
    pub fn deselect(&mut self, p: &Path)
        ensures
            final(self).same_but_selection(old(self)),
            final(self).selection() == old(self).selection().remove(p@),
            old(self).wf() ==> final(self).wf(),
    {
        let rest = without(&self.multi_select, p);
        self.multi_select = rest;
        assert(self.selection() =~= old(self).selection().remove(p@));
    }

    /// Adds `p` to the multi-selection, or takes it out if it is there.
    pub fn toggle(&mut self, p: Path)
        ensures
            final(self).same_but_selection(old(self)),
            final(self).selection() == (if old(self).selection().contains(p@) {
                old(self).selection().remove(p@)
            } else {
                old(self).selection().insert(p@)
            }),
            old(self).wf() ==> final(self).wf(),
    {
        if self.is_multi_selected(&p) {
            self.deselect(&p);
        } else {
            let ghost before = self.multi_select@;
            let ghost x = p@;
            self.multi_select.push(p);
            assert(paths(self.multi_select@) == paths(before).push(x));
            proof {
                if old(self).wf() {
                    lemma_push_distinct(paths(before), x);
                }
            }
            assert forall|y: Seq<Seq<char>>|
                self.selection().contains(y) == old(self).selection().insert(x).contains(y) by {
                lemma_contains_push(paths(before), x, y);
            }
            assert(self.selection() =~= old(self).selection().insert(x));
        }
    }
}

} // verus!
