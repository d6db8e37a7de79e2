use vstd::prelude::*;

use crate::error::FilmanError;

verus! {

/// The text of each string, in order.
pub open spec fn texts(v: Seq<String>) -> Seq<Seq<char>> {
    v.map_values(|t: String| t@)
}

/// `s` cut at every occurrence of `sep`: `n` separators give `n + 1` pieces,
/// empty ones included.
pub open spec fn split_on(s: Seq<char>, sep: char) -> Seq<Seq<char>>
    decreases s.len(),
{
    if s.len() == 0 {
        seq![Seq::empty()]
    } else {
        let prev = split_on(s.drop_last(), sep);
        if s.last() == sep {
            prev.push(Seq::empty())
        } else {
            prev.update(prev.len() - 1, prev.last().push(s.last()))
        }
    }
}

/// Splitting always gives at least one piece.
pub proof fn lemma_split_on_nonempty(s: Seq<char>, sep: char)
    ensures
        split_on(s, sep).len() >= 1,
    decreases s.len(),
{
    if s.len() > 0 {
        lemma_split_on_nonempty(s.drop_last(), sep);
    }
}

/// Splits `s` at every `sep`, keeping empty pieces.
pub fn split_str(s: &str, sep: char) -> (r: Vec<String>)
    ensures
        texts(r@) == split_on(s@, sep),
{
    let n = s.unicode_len();
    let mut done: Vec<String> = Vec::new();
    let mut cur = String::new();
    let mut i: usize = 0;
    while i < n
        invariant
            n == s@.len(),
            i <= n,
            texts(done@).push(cur@) == split_on(s@.take(i as int), sep),
        decreases n - i,
    {
        let c = s.get_char(i);
        let ghost pre = s@.take(i as int);
        assert(s@.take(i as int + 1).drop_last() == pre);
        assert(s@.take(i as int + 1).last() == c);
        proof {
            lemma_split_on_nonempty(pre, sep);
        }
        if c == sep {
            done.push(cur);
            cur = String::new();
            assert(texts(done@).push(cur@) == split_on(pre, sep).push(Seq::empty()));
        } else {
            let ghost old_cur = cur@;
            cur.append(s.substring_char(i, i + 1));
            assert(cur@ == old_cur.push(c));
            assert(texts(done@).push(cur@) == split_on(pre, sep).update(
                split_on(pre, sep).len() - 1,
                split_on(pre, sep).last().push(c),
            ));
        }
        i = i + 1;
    }
    assert(s@.take(n as int) == s@);
    done.push(cur);
    done
}

/// Whether a piece of a path argument names a component: `""` and `"."` name none.
pub open spec fn is_component(t: Seq<char>) -> bool {
    t.len() > 0 && t != seq!['.']
}

/// The components that the pieces name, in order.
pub open spec fn components(ts: Seq<Seq<char>>) -> Seq<Seq<char>>
    decreases ts.len(),
{
    if ts.len() == 0 {
        Seq::empty()
    } else if is_component(ts.last()) {
        components(ts.drop_last()).push(ts.last())
    } else {
        components(ts.drop_last())
    }
}

/// The path that `arg` names from the directory `base`: an argument that starts
/// with `/` is absolute.
pub open spec fn resolve(base: Seq<Seq<char>>, arg: Seq<char>) -> Seq<Seq<char>> {
    if arg.len() > 0 && arg[0] == '/' {
        components(split_on(arg, '/'))
    } else {
        base + components(split_on(arg, '/'))
    }
}

/// The last component of a path, unless the path is the root or ends in `..`.
pub open spec fn filename_of(p: Seq<Seq<char>>) -> Option<Seq<char>> {
    if p.len() > 0 && p.last() != seq!['.', '.'] {
        Some(p.last())
    } else {
        None
    }
}

/// The text of an absolute path: `/` before each component, `/` for the root.
pub open spec fn path_text(p: Seq<Seq<char>>) -> Seq<char>
    decreases p.len(),
{
    if p.len() == 0 {
        seq!['/']
    } else if p.len() == 1 {
        seq!['/'] + p[0]
    } else {
        path_text(p.drop_last()) + seq!['/'] + p.last()
    }
}

/// An absolute path, as the sequence of its components from the root.
#[derive(Debug)]
pub struct Path {
    pub parts: Vec<String>,
}

impl View for Path {
    type V = Seq<Seq<char>>;

    open spec fn view(&self) -> Seq<Seq<char>> {
        texts(self.parts@)
    }
}

/// Whether two strings hold the same text.
pub fn same_text(a: &String, b: &String) -> (r: bool)
    ensures
        r == (a@ == b@),
{
    a.eq(b)
}

impl Path {
    /// The root directory.
    pub fn root() -> (r: Path)
        ensures
            r@ == Seq::<Seq<char>>::empty(),
    {
        Path { parts: Vec::new() }
    }

    /// A path with the same components.
    pub fn copy(&self) -> (r: Path)
        ensures
            r@ == self@,
    {
        let mut parts: Vec<String> = Vec::new();
        let mut i: usize = 0;
        while i < self.parts.len()
            invariant
                i <= self.parts@.len(),
                texts(parts@) == texts(self.parts@).take(i as int),
            decreases self.parts@.len() - i,
        {
            parts.push(self.parts[i].clone());
            assert(texts(self.parts@).take(i as int + 1) == texts(self.parts@).take(i as int).push(
                self.parts@[i as int]@,
            ));
            i = i + 1;
        }
        assert(texts(self.parts@).take(i as int) == texts(self.parts@));
        Path { parts }
    }

    /// Whether the two paths have the same components.
    pub fn same(&self, other: &Path) -> (r: bool)
        ensures
            r == (self@ == other@),
    {
        if self.parts.len() != other.parts.len() {
            assert(self@.len() != other@.len());
            return false;
        }
        let mut i: usize = 0;
        while i < self.parts.len()
            invariant
                self.parts@.len() == other.parts@.len(),
                i <= self.parts@.len(),
                forall|j: int| 0 <= j < i ==> self@[j] == other@[j],
            decreases self.parts@.len() - i,
        {
            if !same_text(&self.parts[i], &other.parts[i]) {
                assert(self@[i as int] != other@[i as int]);
                return false;
            }
            i = i + 1;
        }
        assert(self@ == other@);
        true
    }

    /// The entry `name` of this directory.
    pub fn child(&self, name: &String) -> (r: Path)
        ensures
            r@ == self@.push(name@),
    {
        let mut r = self.copy();
        r.parts.push(name.clone());
        assert(r@ == self@.push(name@));
        r
    }

    /// The directory that holds this path; none for the root.
    pub fn parent(&self) -> (r: Option<Path>)
        ensures
            r is None <==> self@.len() == 0,
            r matches Some(p) ==> p@ == self@.drop_last(),
    {
        if self.parts.len() == 0 {
            None
        } else {
            let mut r = self.copy();
            r.parts.pop();
            assert(r@ == self@.drop_last());
            Some(r)
        }
    }

    /// Whether this path is an entry of the directory `dir`.
    pub fn is_in(&self, dir: &Path) -> (r: bool)
        ensures
            r == (self@.len() > 0 && self@.drop_last() == dir@),
    {
        match self.parent() {
            Some(p) => p.same(dir),
            None => false,
        }
    }

    /// The path that `arg` names from this directory; `""` and `"."` pieces
    /// are skipped, an argument starting with `/` is absolute.
    pub fn join(&self, arg: &str) -> (r: Path)
        ensures
            r@ == resolve(self@, arg@),
    {
        let pieces = split_str(arg, '/');
        let absolute = arg.unicode_len() > 0 && arg.get_char(0) == '/';
        let mut r = if absolute {
            Path::root()
        } else {
            self.copy()
        };
        let ghost base = r@;
        let mut i: usize = 0;
        while i < pieces.len()
            invariant
                i <= pieces@.len(),
                texts(pieces@) == split_on(arg@, '/'),
                r@ == base + components(texts(pieces@).take(i as int)),
            decreases pieces@.len() - i,
        {
            let ghost ts = texts(pieces@).take(i as int + 1);
            assert(ts.drop_last() == texts(pieces@).take(i as int));
            assert(ts.last() == pieces@[i as int]@);
            let piece = &pieces[i];
            let n = piece.as_str().unicode_len();
            let dot = n == 1 && piece.as_str().get_char(0) == '.';
            if n > 0 && !dot {
                assert(is_component(piece@)) by {
                    if piece@ == seq!['.'] {
                        assert(piece@[0] == '.');
                    }
                }
                let ghost before = r@;
                r.parts.push(piece.clone());
                assert(r@ == before.push(piece@));
            } else {
                assert(!is_component(piece@)) by {
                    if n == 1 {
                        assert(piece@ == seq!['.']);
                    }
                }
            }
            i = i + 1;
        }
        assert(texts(pieces@).take(i as int) == texts(pieces@));
        r
    }

    /// The last component.
    pub fn filename(&self) -> (r: Result<String, FilmanError>)
        ensures
            match filename_of(self@) {
                Some(n) => r matches Ok(s) && s@ == n,
                None => r matches Err(FilmanError::PathHasNoFilename),
            },
    {
        let n = self.parts.len();
        if n == 0 {
            return Err(FilmanError::PathHasNoFilename);
        }
        let last = &self.parts[n - 1];
        let k = last.as_str().unicode_len();
        if k == 2 && last.as_str().get_char(0) == '.' && last.as_str().get_char(1) == '.' {
            assert(last@ == seq!['.', '.']);
            return Err(FilmanError::PathHasNoFilename);
        }
        assert(self@.last() == last@);
        assert(last@ != seq!['.', '.']) by {
            if last@ == seq!['.', '.'] {
                assert(last@[0] == '.' && last@[1] == '.');
            }
        }
        Ok(last.clone())
    }

    /// The path written out from the root.
    pub fn full_path_str(&self) -> (r: String)
        ensures
            r@ == path_text(self@),
    {
        if self.parts.len() == 0 {
            proof {
                reveal_strlit("/");
            }
            return String::from_str("/");
        }
        let mut r = String::from_str("/");
        r.append(self.parts[0].as_str());
        proof {
            reveal_strlit("/");
            assert(self@.take(1) == seq![self@[0]]);
        }
        let mut i: usize = 1;
        while i < self.parts.len()
            invariant
                1 <= i <= self.parts@.len(),
                r@ == path_text(self@.take(i as int)),
            decreases self.parts@.len() - i,
        {
            let ghost prev = r@;
            r.append("/");
            r.append(self.parts[i].as_str());
            proof {
                reveal_strlit("/");
                let t = self@.take(i as int + 1);
                assert(t.drop_last() == self@.take(i as int));
                assert(t.last() == self@[i as int]);
                assert(r@ == prev + seq!['/'] + self@[i as int]);
            }
            i = i + 1;
        }
        assert(self@.take(i as int) == self@);
        r
    }
}

} // verus!
