use vstd::prelude::*;

verus! {

/// A key as the input layer sees it.
#[derive(Debug)]
pub enum Key {
    Char(char),
    Enter,
    Left,
    Right,
    Backspace,
    Delete,
    Esc,
    Other,
}

/// Relies on `String::push`: appends one character.
#[verifier::external_body]
pub(crate) fn push_char(s: &mut String, c: char)
    ensures
        final(s)@ == old(s)@.push(c),
{
    s.push(c);
}

/// Whether `after` is the editor `before` once `key` has been fed to it.
pub open spec fn edited(before: PromptReader, key: Key, after: PromptReader) -> bool {
    &&& after.finished() == (before.finished() || key is Enter)
    &&& after.cursor() <= after.text().len()
    &&& match key {
        Key::Char(c) => after.text() == before.text().insert(before.cursor() as int, c)
            && after.cursor() == before.cursor() + 1,
        Key::Left => after.text() == before.text() && after.cursor() == (if before.cursor() > 0 {
            before.cursor() - 1
        } else {
            0
        }),
        Key::Right => after.text() == before.text() && after.cursor() == (if before.cursor()
            < before.text().len() {
            before.cursor() + 1
        } else {
            before.cursor()
        }),
        Key::Backspace => if before.cursor() > 0 {
            after.text() == before.text().remove(before.cursor() - 1) && after.cursor()
                == before.cursor() - 1
        } else {
            after.text() == before.text() && after.cursor() == 0
        },
        Key::Delete => if before.cursor() < before.text().len() {
            after.text() == before.text().remove(before.cursor() as int) && after.cursor()
                == before.cursor()
        } else {
            after.text() == before.text() && after.cursor() == before.cursor()
        },
        _ => after.text() == before.text() && after.cursor() == before.cursor(),
    }
}

/// The line editor that collects a command or shell line: the text so far, an
/// edit cursor inside it, and whether Enter has finished it.
#[derive(Debug)]
pub struct PromptReader {
    text: Vec<char>,
    cursor: usize,
    finished: bool,
}

impl PromptReader {
    /// The text collected so far.
    pub closed spec fn text(&self) -> Seq<char> {
        self.text@
    }

    /// Where the next character goes in.
    pub closed spec fn cursor(&self) -> nat {
        self.cursor as nat
    }

    /// Whether Enter has been pressed.
    pub closed spec fn finished(&self) -> bool {
        self.finished
    }

    #[verifier::type_invariant]
    spec fn cursor_in_text(&self) -> bool {
        self.cursor <= self.text@.len()
    }

    /// A fresh editor holding `placeholder`, with the cursor at its end.
    pub fn new_with_placeholder(placeholder: &str) -> (r: PromptReader)
        ensures
            r.text() == placeholder@,
            r.cursor() == placeholder@.len(),
            !r.finished(),
    {
        let n = placeholder.unicode_len();
        let mut text: Vec<char> = Vec::new();
        let mut i: usize = 0;
        while i < n
            invariant
                n == placeholder@.len(),
                i <= n,
                text@ == placeholder@.take(i as int),
            decreases n - i,
        {
            text.push(placeholder.get_char(i));
            assert(text@ == placeholder@.take(i as int + 1));
            i = i + 1;
        }
        assert(placeholder@.take(n as int) == placeholder@);
        PromptReader { text, cursor: n, finished: false }
    }

    /// Feeds one key: a character goes in at the cursor, the arrows move the
    /// cursor, Backspace and Delete take out the character before or under it,
    /// Enter finishes the line. Other keys change nothing.
    pub fn next_key(&mut self, key: &Key)
        ensures
            edited(*old(self), *key, *final(self)),
    {
        proof {
            use_type_invariant(&*self);
        }
        match key {
            Key::Char(c) => {
                let at = self.cursor;
                let mut t = self.text.clone();
                assert(t@ =~= self.text@);
                t.insert(at, *c);
                let n = t.len();
                assert(at < n);
                *self = PromptReader { text: t, cursor: at + 1, finished: self.finished };
            },
            Key::Left => {
                if self.cursor > 0 {
                    self.cursor = self.cursor - 1;
                }
            },
            Key::Right => {
                if self.cursor < self.text.len() {
                    self.cursor = self.cursor + 1;
                }
            },
            Key::Backspace => {
                if self.cursor > 0 {
                    let at = self.cursor - 1;
                    let mut t = self.text.clone();
                    assert(t@ =~= self.text@);
                    t.remove(at);
                    *self = PromptReader { text: t, cursor: at, finished: self.finished };
                }
            },
            Key::Delete => {
                if self.cursor < self.text.len() {
                    let at = self.cursor;
                    let mut t = self.text.clone();
                    assert(t@ =~= self.text@);
                    t.remove(at);
                    self.text = t;
                }
            },
            Key::Enter => {
                self.finished = true;
            },
            _ => {},
        }
    }

    /// Whether Enter has finished the line.
    pub fn done(&self) -> (r: bool)
        ensures
            r == self.finished(),
    {
        self.finished
    }

    /// The text collected so far.
    pub fn result(&self) -> (r: String)
        ensures
            r@ == self.text(),
    {
        let mut r = String::new();
        let mut i: usize = 0;
        while i < self.text.len()
            invariant
                i <= self.text@.len(),
                r@ == self.text@.take(i as int),
            decreases self.text@.len() - i,
        {
            push_char(&mut r, self.text[i]);
            assert(r@ == self.text@.take(i as int + 1));
            i = i + 1;
        }
        assert(self.text@.take(i as int) == self.text@);
        r
    }
}

} // verus!
