use vstd::prelude::*;

verus! {

/// The user's key bindings: each key runs the command line bound to it.
#[derive(Debug)]
pub struct Config {
    pub simple: Vec<(char, String)>,
}

/// The command line bound to `c`: the first binding of it wins.
pub open spec fn binding_of(simple: Seq<(char, String)>, c: char) -> Option<Seq<char>>
    decreases simple.len(),
{
    if simple.len() == 0 {
        None
    } else if simple[0].0 == c {
        Some(simple[0].1@)
    } else {
        binding_of(simple.drop_first(), c)
    }
}

impl Config {
    /// The command line bound to `c`, if any.
    pub fn binding(&self, c: char) -> (r: Option<String>)
        ensures
            match binding_of(self.simple@, c) {
                Some(t) => r matches Some(s) && s@ == t,
                None => r is None,
            },
    {
        let mut i: usize = 0;
        assert(self.simple@.subrange(0, self.simple@.len() as int) == self.simple@);
        while i < self.simple.len()
            invariant
                i <= self.simple@.len(),
                binding_of(self.simple@, c) == binding_of(self.simple@.subrange(
                    i as int,
                    self.simple@.len() as int,
                ), c),
            decreases self.simple@.len() - i,
        {
            let ghost rest = self.simple@.subrange(i as int, self.simple@.len() as int);
            assert(rest.drop_first() == self.simple@.subrange(
                i as int + 1,
                self.simple@.len() as int,
            ));
            if self.simple[i].0 == c {
                return Some(self.simple[i].1.clone());
            }
            i = i + 1;
        }
        None
    }
}

} // verus!
