//! A single-pass reader over the characters of a source unit.

use vstd::prelude::*;

verus! {

/// Reads the characters of a source unit from front to back, one character of lookahead
/// at a time, and counts the characters consumed.
pub struct Cursor {
    chars: Vec<char>,
    pos: usize,
}

/// The view of a [`Cursor`]: the whole text and how much of it has been consumed.
pub struct CursorView {
    pub source: Seq<char>,
    pub offset: nat,
}

impl CursorView {
    /// The characters not yet consumed.
    pub open spec fn remaining(self) -> Seq<char> {
        self.source.subrange(self.offset as int, self.source.len() as int)
    }
}

/// Length of the longest run of characters of `s` that starts at `from` and whose members
/// all satisfy `p`.
pub open spec fn run_len(s: Seq<char>, from: int, p: spec_fn(char) -> bool) -> nat
    decreases s.len() - from,
{
    if 0 <= from < s.len() && p(s[from]) {
        1 + run_len(s, from + 1, p)
    } else {
        0
    }
}

/// A run never leaves the text.
pub proof fn lemma_run_len_bound(s: Seq<char>, from: int, p: spec_fn(char) -> bool)
    requires
        0 <= from <= s.len(),
    ensures
        from + run_len(s, from, p) <= s.len(),
    decreases s.len() - from,
{
    if from < s.len() && p(s[from]) {
        lemma_run_len_bound(s, from + 1, p);
    }
}

/// A stretch whose members all satisfy `p`, followed by the end of the text or by a
/// character that does not, is the longest run.
pub proof fn lemma_run_len_is(s: Seq<char>, from: int, n: nat, p: spec_fn(char) -> bool)
    requires
        0 <= from,
        from + n <= s.len(),
        forall|i: int| from <= i < from + n ==> p(#[trigger] s[i]),
        from + n < s.len() ==> !p(s[from + n]),
    ensures
        run_len(s, from, p) == n,
    decreases n,
{
    if n > 0 {
        lemma_run_len_is(s, from + 1, (n - 1) as nat, p);
    }
}

/// The blank that indentation is made of. A tab is not one.
pub open spec fn spec_is_space(c: char) -> bool {
    c == ' '
}

impl View for Cursor {
    type V = CursorView;

    closed spec fn view(&self) -> CursorView {
        CursorView { source: self.chars@, offset: self.pos as nat }
    }
}

impl Cursor {
    /// The offset lies within the text.
    pub open spec fn wf(&self) -> bool {
        self@.offset <= self@.source.len()
    }

    /// A cursor at the start of `source_code`.
    pub fn new(source_code: &str) -> (cursor: Cursor)
        ensures
            cursor.wf(),
            cursor@.source == source_code@,
            cursor@.offset == 0,
    {
        let mut chars: Vec<char> = Vec::new();
        for c in it: source_code.chars()
            invariant
                chars@ == it.seq().take(it.index() as int),
        {
            chars.push(c);
        }
        Cursor { chars, pos: 0 }
    }

    /// The number of characters consumed so far.
    pub fn offset(&self) -> (offset: usize)
        ensures
            offset == self@.offset,
    {
        self.pos
    }

    /// The next character, which stays unconsumed; `None` at the end of the text.
    pub fn peek(&self) -> (c: Option<char>)
        requires
            self.wf(),
        ensures
            c == if self@.offset < self@.source.len() {
                Some(self@.source[self@.offset as int])
            } else {
                None
            },
    {
        if self.pos < self.chars.len() {
            Some(self.chars[self.pos])
        } else {
            None
        }
    }

    /// The character consumed last; `None` where nothing has been consumed.
    pub fn previous(&self) -> (c: Option<char>)
        requires
            self.wf(),
        ensures
            c == if self@.offset > 0 {
                Some(self@.source[self@.offset - 1])
            } else {
                None
            },
    {
        if self.pos > 0 {
            Some(self.chars[self.pos - 1])
        } else {
            None
        }
    }

    /// Consumes and returns the next character; `None`, and nothing consumed, at the end of
    /// the text.
    pub fn next(&mut self) -> (c: Option<char>)
        requires
            old(self).wf(),
        ensures
            final(self).wf(),
            final(self)@.source == old(self)@.source,
            old(self)@.offset < old(self)@.source.len() ==> {
                &&& c == Some(old(self)@.source[old(self)@.offset as int])
                &&& final(self)@.offset == old(self)@.offset + 1
            },
            old(self)@.offset >= old(self)@.source.len() ==> {
                &&& c is None
                &&& final(self)@.offset == old(self)@.offset
            },
    {
        if self.pos < self.chars.len() {
            let c = self.chars[self.pos];
            self.pos += 1;
            Some(c)
        } else {
            None
        }
    }

    /// Consumes the longest run of characters that `predicate` accepts and returns it. The
    /// first character that `predicate` rejects stays unconsumed.
    pub fn take_while<F: Fn(char) -> bool>(&mut self, predicate: F) -> (taken: Vec<char>)
        requires
            old(self).wf(),
            forall|i: int|
                old(self)@.offset <= i < old(self)@.source.len() ==> predicate.requires(
                    (#[trigger] old(self)@.source[i],),
                ),
        ensures
            final(self).wf(),
            final(self)@.source == old(self)@.source,
            final(self)@.offset == old(self)@.offset + taken@.len(),
            taken@ == old(self)@.source.subrange(
                old(self)@.offset as int,
                final(self)@.offset as int,
            ),
            forall|i: int|
                0 <= i < taken@.len() ==> predicate.ensures((#[trigger] taken@[i],), true),
            final(self)@.offset < old(self)@.source.len() ==> predicate.ensures(
                (old(self)@.source[final(self)@.offset as int],),
                false,
            ),
    {
        let mut taken: Vec<char> = Vec::new();
        loop
            invariant
                self.pos <= self.chars.len(),
                self.chars == old(self).chars,
                self.pos == old(self).pos + taken@.len(),
                taken@ == self.chars@.subrange(old(self).pos as int, self.pos as int),
                forall|i: int|
                    old(self).pos <= i < self.chars.len() ==> predicate.requires(
                        (#[trigger] self.chars@[i],),
                    ),
                forall|i: int|
                    0 <= i < taken@.len() ==> predicate.ensures((#[trigger] taken@[i],), true),
            ensures
                self.pos < self.chars.len() ==> predicate.ensures(
                    (self.chars@[self.pos as int],),
                    false,
                ),
            decreases self.chars.len() - self.pos,
        {
            if self.pos >= self.chars.len() {
                break;
            }
            let c = self.chars[self.pos];
            if predicate(c) {
                taken.push(c);
                self.pos += 1;
            } else {
                break;
            }
        }
        taken
    }

    /// Consumes the run of spaces at the current position and returns its length.
    pub fn skip_whitespace(&mut self) -> (width: usize)
        requires
            old(self).wf(),
        ensures
            final(self).wf(),
            final(self)@.source == old(self)@.source,
            final(self)@.offset == old(self)@.offset + width,
            width == run_len(
                old(self)@.source,
                old(self)@.offset as int,
                |c: char| spec_is_space(c),
            ),
    {
        let ghost start = self.pos;
        let mut width: usize = 0;
        while self.pos < self.chars.len() && self.chars[self.pos] == ' '
            invariant
                self.pos <= self.chars.len(),
                self.chars == old(self).chars,
                start == old(self).pos,
                self.pos == start + width,
                forall|i: int| start <= i < self.pos ==> spec_is_space(#[trigger] self.chars@[i]),
            decreases self.chars.len() - self.pos,
        {
            self.pos += 1;
            width += 1;
        }
        proof {
            lemma_run_len_is(self.chars@, start as int, width as nat, |c: char| spec_is_space(c));
        }
        width
    }
}

} // verus!
