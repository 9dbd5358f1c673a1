use vstd::prelude::*;

verus! {

/// An offset-based view over the remaining input. The character buffer
/// itself travels alongside the cursor as a `&Vec<char>`, so narrowing a
/// cursor never copies text: it only moves `pos` forward. Two cursors over
/// the same buffer compare equal exactly when their offsets are equal.
#[derive(Clone, Copy, PartialEq, Eq, Structural, Debug)]
pub struct Cursor {
    /// Offset into the buffer at which the remaining input starts.
    pub pos: usize,
}

impl Cursor {
    /// True when the cursor lies inside (or at the end of) `text`.
    pub open spec fn in_bounds(self, text: Seq<char>) -> bool {
        self.pos <= text.len()
    }

    /// The remaining input this cursor denotes.
    pub open spec fn rest(self, text: Seq<char>) -> Seq<char> {
        text.subrange(self.pos as int, text.len() as int)
    }

    /// A cursor standing at the start of the buffer.
    pub fn start() -> (c: Cursor)
        ensures
            c.pos == 0,
    {
        Cursor { pos: 0 }
    }

    /// A cursor standing at a given offset.
    pub fn at(pos: usize) -> (c: Cursor)
        ensures
            c.pos == pos,
    {
        Cursor { pos }
    }

    /// How many characters remain from this cursor to the end of `text`.
    pub fn remaining_len(self, text: &Vec<char>) -> (n: usize)
        requires
            self.in_bounds(text@),
        ensures
            n == text@.len() - self.pos,
    {
        text.len() - self.pos
    }

    /// Whether the cursor has reached the end of `text`.
    pub fn at_end(self, text: &Vec<char>) -> (b: bool)
        requires
            self.in_bounds(text@),
        ensures
            b == (self.pos == text@.len()),
    {
        self.pos == text.len()
    }
}

} // verus!
