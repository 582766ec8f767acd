//! The single-pass, peekable position tracker over the input characters.

use vstd::prelude::*;

verus! {

/// A single-pass cursor over a sequence of characters.
///
/// Its view is the sequence of characters that have not been consumed yet.
/// The cursor only moves forward: [`Cursor::peek`] looks at the next
/// character without consuming it, and [`Cursor::advance`] commits to it.
pub struct Cursor {
    input: Vec<char>,
    pos: usize,
}

impl View for Cursor {
    type V = Seq<char>;

    closed spec fn view(&self) -> Seq<char> {
        if self.pos as int <= self.input@.len() {
            self.input@.skip(self.pos as int)
        } else {
            Seq::empty()
        }
    }
}

impl Cursor {
    /// Makes a cursor that will hand out the characters of `input` in order.
    pub fn new(input: Vec<char>) -> (c: Cursor)
        ensures
            c@ == input@,
    {
        let c = Cursor { input, pos: 0 };
        proof {
            assert(c@ =~= c.input@);
        }
        c
    }

    /// Looks at the next character without consuming it.
    pub fn peek(&self) -> (r: Option<char>)
        ensures
            match r {
                Some(c) => self@.len() > 0 && c == self@[0],
                None => self@.len() == 0,
            },
    {
        if self.pos < self.input.len() {
            Some(self.input[self.pos])
        } else {
            None
        }
    }

    /// Consumes exactly the next character.
    pub fn advance(&mut self)
        requires
            old(self)@.len() > 0,
        ensures
            final(self)@ == old(self)@.skip(1),
    {
        let n = self.input.len();
        proof {
            assert(self.pos < n);
        }
        self.pos = self.pos + 1;
        proof {
            assert(self@ =~= old(self)@.skip(1));
        }
    }

    /// Copies out the characters that have not been consumed yet.
    #[verifier::loop_isolation(false)]
    pub fn remaining(&self) -> (v: Vec<char>)
        ensures
            v@ == self@,
    {
        let len = self.input.len();
        let start: usize = if self.pos <= len {
            self.pos
        } else {
            len
        };
        let mut v: Vec<char> = Vec::new();
        let mut i: usize = start;
        while i < len
            invariant
                start <= i <= len,
                v@ =~= self@.take(i - start),
            decreases len - i,
        {
            v.push(self.input[i]);
            i = i + 1;
        }
        proof {
            assert(v@ =~= self@);
        }
        v
    }
}

} // verus!
