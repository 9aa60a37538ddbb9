//! The tokenizer as a state machine over the source text: what each pull yields and what
//! the whole stream is.

use vstd::prelude::*;
use crate::lexer::cursor::{lemma_run_len_bound, run_len, spec_is_space};
use crate::lexer::scan::{lemma_lexeme_extent, lexeme_at};
use crate::lexer::token::{dedent_at, indent_at, newline_at, span_of, LexError, SpecToken};

verus! {

/// Whether `stack` is a well-formed record of open indentation levels: it starts with the
/// base level `0` and grows strictly from bottom to top.
pub open spec fn levels_wf(stack: Seq<usize>) -> bool {
    &&& stack.len() >= 1
    &&& stack[0] == 0
    &&& forall|i: int, j: int| 0 <= i < j < stack.len() ==> stack[i] < stack[j]
}

/// `stack` after every level wider than `width` has been popped off its top.
pub open spec fn unwind(stack: Seq<usize>, width: nat) -> Seq<usize>
    decreases stack.len(),
{
    if stack.len() > 0 && stack.last() > width {
        unwind(stack.drop_last(), width)
    } else {
        stack
    }
}

/// The state of a tokenizer between two pulls.
pub struct LexState {
    /// The text being tokenized.
    pub source: Seq<char>,
    /// The number of characters consumed.
    pub offset: nat,
    /// Tokens that are due before anything else is read, first out first.
    pub queue: Seq<SpecToken>,
    /// The open indentation levels, the base level at the bottom.
    pub stack: Seq<usize>,
    /// Whether the indentation of the current line is still to be settled.
    pub is_line_start: bool,
    /// The offset of the first character of the current line.
    pub line_start: nat,
    /// Whether the end of the stream has been settled.
    pub closed: bool,
}

/// What one pull does: what it yields, and the state it leaves.
pub struct Step {
    pub yielded: Option<Result<SpecToken, LexError>>,
    pub state: LexState,
}

impl LexState {
    /// The state before the first pull on `source`.
    pub open spec fn initial(source: Seq<char>) -> LexState {
        LexState {
            source,
            offset: 0,
            queue: Seq::empty(),
            stack: seq![0usize],
            is_line_start: true,
            line_start: 0,
            closed: false,
        }
    }

    /// The state is consistent: positions lie within the text, every position that a token
    /// can be stamped with fits the machine word, and the indentation levels are well
    /// formed, with none left open once the stream is closed.
    pub open spec fn wf(self) -> bool {
        &&& self.source.len() < usize::MAX
        &&& self.line_start <= self.offset <= self.source.len()
        &&& levels_wf(self.stack)
        &&& self.closed ==> self.stack.len() == 1
        &&& forall|i: int| 0 <= i < self.queue.len() ==> (#[trigger] self.queue[i]).span.wf()
    }

    /// The number of spaces at the current position.
    pub open spec fn width(self) -> nat {
        run_len(self.source, self.offset as int, |c: char| spec_is_space(c))
    }

    /// The offset of the first character behind the spaces at the current position.
    pub open spec fn content_start(self) -> nat {
        self.offset + self.width()
    }

    /// Hands out the head of the queue; with an empty queue, nothing.
    pub open spec fn deliver(self) -> Step {
        if self.queue.len() > 0 {
            Step {
                yielded: Some(Ok(self.queue[0])),
                state: LexState { queue: self.queue.drop_first(), ..self },
            }
        } else {
            Step { yielded: None, state: self }
        }
    }

    /// A line indented deeper than the innermost open block opens a block: the width is
    /// pushed and one `Indent` is yielded, at the start of the line.
    pub open spec fn open_block(self) -> Step {
        Step {
            yielded: Some(Ok(indent_at(self.line_start as int))),
            state: LexState {
                offset: self.content_start(),
                stack: self.stack.push(self.width() as usize),
                is_line_start: false,
                ..self
            },
        }
    }

    /// A line indented back to the width of an enclosing block closes every block deeper
    /// than that: one `Dedent` for each, all at the start of the line, the first yielded at
    /// once and the others queued.
    pub open spec fn close_blocks(self) -> Step {
        let kept = unwind(self.stack, self.width());
        let popped = (self.stack.len() - kept.len()) as nat;
        LexState {
            offset: self.content_start(),
            queue: Seq::new(popped, |i: int| dedent_at(self.line_start as int)),
            stack: kept,
            is_line_start: false,
            ..self
        }.deliver()
    }

    /// A line indented less than the innermost open block, to a width that no enclosing
    /// block has, is an error. It ends the stream.
    pub open spec fn fail(self) -> Step {
        Step {
            yielded: Some(
                Err(
                    LexError::InconsistentIndentation {
                        width: self.width() as usize,
                        offset: self.line_start as usize,
                    },
                ),
            ),
            state: LexState {
                offset: self.content_start(),
                stack: seq![0usize],
                is_line_start: false,
                closed: true,
                ..self
            },
        }
    }

    /// The tokens that close the stream: a `NewLine` just behind the text, unless the text
    /// is empty or ends with a line end of its own, then one `Dedent` for each block still
    /// open, at the start of the line that would follow.
    pub open spec fn closing_tokens(self) -> Seq<SpecToken> {
        let end = self.source.len() as int;
        let newline = if end > 0 && self.source.last() != '\n' {
            seq![newline_at(end)]
        } else {
            Seq::empty()
        };
        newline + Seq::new(
            (self.stack.len() - 1) as nat,
            |i: int| dedent_at(end + newline.len()),
        )
    }

    /// At the end of the text the stream is closed: the closing tokens are queued, the
    /// first of them is yielded, and every block counts as closed.
    pub open spec fn finish(self) -> Step {
        LexState {
            offset: self.source.len(),
            queue: self.closing_tokens(),
            stack: seq![0usize],
            is_line_start: false,
            closed: true,
            ..self
        }.deliver()
    }

    /// Reads the content token behind the spaces at the current position. A `NewLine`
    /// starts a new line just behind itself.
    pub open spec fn read(self) -> Step {
        let at = self.content_start() as int;
        let lexeme = lexeme_at(self.source, at);
        let line_ends = lexeme.kind is NewLine;
        Step {
            yielded: Some(Ok(SpecToken { kind: lexeme.kind, span: span_of(at, at + lexeme.len) })),
            state: LexState {
                offset: (at + lexeme.len) as nat,
                is_line_start: line_ends,
                line_start: if line_ends {
                    (at + 1) as nat
                } else {
                    self.line_start
                },
                ..self
            },
        }
    }

    /// One pull.
    ///
    /// Queued tokens go first. A closed stream yields nothing more. Otherwise the spaces
    /// at the current position are skipped. At the start of a line their number is the
    /// line's indentation, held against the innermost open block: deeper opens a block,
    /// shallower closes blocks or is an error, equal changes nothing. Where nothing was
    /// yielded for the indentation, the end of the text closes the stream, and anything
    /// else is read as a content token.
    pub open spec fn step(self) -> Step {
        if self.queue.len() > 0 {
            self.deliver()
        } else if self.closed {
            Step { yielded: None, state: self }
        } else if self.is_line_start && self.width() > self.stack.last() {
            self.open_block()
        } else if self.is_line_start && self.width() < self.stack.last() {
            if self.stack.contains(self.width() as usize) {
                self.close_blocks()
            } else {
                self.fail()
            }
        } else if self.content_start() >= self.source.len() {
            self.finish()
        } else {
            self.read()
        }
    }

    /// The tokens of all pulls from this state on, in order, up to the end of the stream;
    /// or the error that ends it.
    pub open spec fn rest(self) -> Result<Seq<SpecToken>, LexError>
        decreases
            (if self.closed { 0nat } else { 1nat }),
            self.source.len() - self.offset,
            (if self.is_line_start { 1nat } else { 0nat }),
            self.queue.len(),
        when self.wf()
        via Self::rest_decreases
    {
        let step = self.step();
        match step.yielded {
            None => Ok(Seq::empty()),
            Some(Err(e)) => Err(e),
            Some(Ok(token)) => match step.state.rest() {
                Ok(tokens) => Ok(seq![token] + tokens),
                Err(e) => Err(e),
            },
        }
    }

    #[via_fn]
    proof fn rest_decreases(self) {
        self.lemma_step_wf();
    }

    /// A pull keeps the state consistent and the text in place, the span of what it yields
    /// is well formed, and it makes progress: it closes the stream, or consumes text, or
    /// settles a line's indentation, or shortens the queue, in that order of weight.
    pub proof fn lemma_step_wf(self)
        requires
            self.wf(),
        ensures
            self.step().state.wf(),
            self.step().state.source == self.source,
            self.step().yielded matches Some(Ok(token)) ==> token.span.wf(),
            self.step().state.offset >= self.offset,
            self.closed ==> self.step().state.closed,
            self.step().yielded is Some ==> {
                let next = self.step().state;
                ||| next.closed && !self.closed
                ||| next.closed == self.closed && next.offset > self.offset
                ||| next.closed == self.closed && next.offset == self.offset
                    && !next.is_line_start && self.is_line_start
                ||| next.closed == self.closed && next.offset == self.offset
                    && next.is_line_start == self.is_line_start && next.queue.len()
                    < self.queue.len()
            },
    {
        lemma_run_len_bound(self.source, self.offset as int, |c: char| spec_is_space(c));
        if self.queue.len() > 0 || self.closed {
        } else {
            let at = self.content_start() as int;
            if at < self.source.len() {
                lemma_lexeme_extent(self.source, at);
            }
            lemma_unwind(self.stack, self.width());
        }
    }
}

/// Unwinding a well-formed stack to `width` leaves a well-formed stack whose top is the
/// widest level not wider than `width`. That top is `width` exactly where `width` is one
/// of the levels.
pub proof fn lemma_unwind(stack: Seq<usize>, width: nat)
    requires
        levels_wf(stack),
    ensures
        levels_wf(unwind(stack, width)),
        unwind(stack, width).len() <= stack.len(),
        unwind(stack, width) == stack.take(unwind(stack, width).len() as int),
        unwind(stack, width).last() <= width,
        unwind(stack, width).len() < stack.len() ==> stack[unwind(stack, width).len() as int]
            > width,
        stack.contains(width as usize) && width <= usize::MAX <==> unwind(stack, width).last()
            == width,
    decreases stack.len(),
{
    if stack.last() > width {
        let shorter = stack.drop_last();
        assert(shorter.len() >= 1) by {
            if stack.len() == 1 {
                assert(stack.last() == stack[0]);
            }
        }
        lemma_unwind(shorter, width);
        let kept = unwind(shorter, width);
        assert(kept == stack.take(kept.len() as int));
        if shorter.contains(width as usize) {
            let i = choose|i: int| 0 <= i < shorter.len() && shorter[i] == width as usize;
            assert(stack[i] == width as usize);
        }
        if stack.contains(width as usize) {
            let i = choose|i: int| 0 <= i < stack.len() && stack[i] == width as usize;
            assert(shorter[i] == width as usize);
        }
    } else {
        assert(stack == stack.take(stack.len() as int));
        if stack.contains(width as usize) && width <= usize::MAX {
            let i = choose|i: int| 0 <= i < stack.len() && stack[i] == width as usize;
            if i < stack.len() - 1 {
                assert(stack[i] < stack[stack.len() - 1]);
            }
        }
    }
}

/// The token stream of `source`: every token in order, or the error that ends the stream.
pub open spec fn lex(source: Seq<char>) -> Result<Seq<SpecToken>, LexError> {
    LexState::initial(source).rest()
}

} // verus!
