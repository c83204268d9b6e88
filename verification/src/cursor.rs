//! The cursor iterates over the characters of the source text. It keeps
//! the current position and the character consumed last, and offers
//! lookahead and pushback.

use vstd::prelude::*;

use crate::text::str_chars;

verus! {

/// A character-level cursor over the source text.
pub struct Cursor {
    pub chars: Vec<char>,
    pub position: usize,
    pub previous: Option<char>,
}

impl Clone for Cursor {
    /// Clone the cursor: the copy reads the same characters and stands
    /// at the same position.
    fn clone(&self) -> (r: Self)
        ensures
            r.chars@ == self.chars@,
            r.position == self.position,
            r.previous == self.previous,
    {
        let chars = self.chars.clone();
        proof {
            assert(chars@ =~= self.chars@);
        }
        Cursor { chars, position: self.position, previous: self.previous }
    }
}

impl Cursor {
    /// Make a cursor over the characters of `input`, at position 0 with no
    /// previous character.
    pub fn new(input: String) -> (c: Cursor)
        ensures
            c.chars@ == input@,
            c.position == 0,
            c.previous is None,
    {
        let chars = str_chars(input.as_str());
        Cursor { chars, position: 0, previous: None }
    }

    /// Consume one character: return the character at the current position,
    /// record it as the previous one, and move one position forward. At the
    /// end of the input, return nothing and change nothing.
    pub fn next(&mut self) -> (r: Option<char>)
        ensures
            final(self).chars == old(self).chars,
            old(self).position < old(self).chars@.len() ==> {
                &&& r == Some(old(self).chars@[old(self).position as int])
                &&& final(self).position == old(self).position + 1
                &&& final(self).previous == r
            },
            old(self).position >= old(self).chars@.len() ==> r is None && *final(self) == *old(
                self,
            ),
    {
        if self.position < self.chars.len() {
            let c = self.chars[self.position];
            self.previous = Some(c);
            self.position = self.position + 1;
            Some(c)
        } else {
            None
        }
    }

    /// Consume the character at the current position and skip `n` more:
    /// return that character, record it as the previous one, and move
    /// `n + 1` positions forward. At the end of the input, return nothing
    /// and change nothing.
    pub fn nth(&mut self, n: usize) -> (r: Option<char>)
        requires
            old(self).position + n + 1 <= usize::MAX,
        ensures
            final(self).chars == old(self).chars,
            old(self).position < old(self).chars@.len() ==> {
                &&& r == Some(old(self).chars@[old(self).position as int])
                &&& final(self).position == old(self).position + n + 1
                &&& final(self).previous == r
            },
            old(self).position >= old(self).chars@.len() ==> r is None && *final(self) == *old(
                self,
            ),
    {
        if self.position < self.chars.len() {
            let c = self.chars[self.position];
            self.previous = Some(c);
            self.position = self.position + n + 1;
            Some(c)
        } else {
            None
        }
    }

    /// Look at the `n` characters from the current position on, without
    /// consuming anything. Returns nothing unless at least `n + 1`
    /// characters remain.
    pub fn peak_nth(&self, n: usize) -> (r: Option<Vec<char>>)
        ensures
            self.position + n >= self.chars@.len() ==> r is None,
            self.position + n < self.chars@.len() ==> {
                &&& r is Some
                &&& r->0@ == self.chars@.subrange(
                    self.position as int,
                    self.position + n as int,
                )
            },
    {
        if n >= self.chars.len() || self.position >= self.chars.len() - n {
            return None;
        }
        let mut out: Vec<char> = Vec::new();
        let mut i: usize = 0;
        while i < n
            invariant
                i <= n,
                self.position + n < self.chars@.len(),
                self.chars@.len() <= usize::MAX,
                out@ =~= self.chars@.subrange(self.position as int, self.position + i as int),
            decreases n - i,
        {
            out.push(self.chars[self.position + i]);
            i += 1;
        }
        assert(out@ =~= self.chars@.subrange(self.position as int, self.position + n as int));
        Some(out)
    }

    /// Look at the character at the current position without consuming it.
    pub fn peek(&self) -> (r: Option<char>)
        ensures
            self.position < self.chars@.len() ==> r == Some(
                self.chars@[self.position as int],
            ),
            self.position >= self.chars@.len() ==> r is None,
    {
        if self.position < self.chars.len() {
            Some(self.chars[self.position])
        } else {
            None
        }
    }

    /// The current position.
    pub fn position(&self) -> (r: usize)
        ensures
            r == self.position,
    {
        self.position
    }

    /// The character consumed last, if any.
    pub fn previous(&self) -> (r: Option<char>)
        ensures
            r == self.previous,
    {
        self.previous
    }

    /// Skip `n` positions forward without recording a previous character.
    pub fn advance_pos(&mut self, n: usize)
        requires
            old(self).position + n <= usize::MAX,
        ensures
            final(self).chars == old(self).chars,
            final(self).previous == old(self).previous,
            final(self).position == old(self).position + n,
    {
        self.position = self.position + n;
    }

    /// Move `n` positions back. The caller must never rewind past the
    /// start of the input.
    pub fn advance_back(&mut self, n: usize)
        requires
            n <= old(self).position,
        ensures
            final(self).chars == old(self).chars,
            final(self).previous == old(self).previous,
            final(self).position == old(self).position - n,
    {
        self.position = self.position - n;
    }
}

} // verus!
