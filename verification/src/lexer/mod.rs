//! The tokenizer: turns source text into a stream of tokens with positions.

pub mod cursor;
pub mod laws;
pub mod rules;
pub mod scan;
pub mod state;
pub mod token;

use std::collections::VecDeque;
use vstd::prelude::*;
use crate::span::Span;

pub use cursor::Cursor;
pub use rules::rule_string_ident;
pub use scan::{is_digit, is_ident_body, is_ident_start, scan};
pub use state::{lex, LexState};
pub use token::{LexError, SpecToken, SpecTokenKind, Token, TokenKind};

use state::{lemma_unwind, unwind};
use token::{dedent_at, token_views};

verus! {

/// A pull-based tokenizer over one source unit: each call of [`Lexer::next`] yields the
/// next token.
pub struct Lexer {
    cursor: Cursor,
    token_queue: VecDeque<Token>,
    indentation_stack: Vec<usize>,
    is_line_start: bool,
    line_start_idx: usize,
    closed: bool,
}

/// The view of what a pull yields.
pub open spec fn item_view(item: Option<Result<Token, LexError>>) -> Option<
    Result<SpecToken, LexError>,
> {
    match item {
        None => None,
        Some(Err(e)) => Some(Err(e)),
        Some(Ok(token)) => Some(Ok(token@)),
    }
}

/// The view of a collected stream.
pub open spec fn stream_view(stream: Result<Vec<Token>, LexError>) -> Result<
    Seq<SpecToken>,
    LexError,
> {
    match stream {
        Ok(tokens) => Ok(token_views(tokens@)),
        Err(e) => Err(e),
    }
}

/// The stream `rest` with `tokens` before it.
pub open spec fn prepend(tokens: Seq<SpecToken>, rest: Result<Seq<SpecToken>, LexError>) -> Result<
    Seq<SpecToken>,
    LexError,
> {
    match rest {
        Ok(more) => Ok(tokens + more),
        Err(e) => Err(e),
    }
}

impl View for Lexer {
    type V = LexState;

    closed spec fn view(&self) -> LexState {
        LexState {
            source: self.cursor@.source,
            offset: self.cursor@.offset,
            queue: token_views(self.token_queue@),
            stack: self.indentation_stack@,
            is_line_start: self.is_line_start,
            line_start: self.line_start_idx as nat,
            closed: self.closed,
        }
    }
}

impl Lexer {
    /// The lexer's state is consistent.
    pub open spec fn wf(&self) -> bool {
        self@.wf()
    }

    /// A lexer at the start of `source_code`.
    pub fn new(source_code: &str) -> (lexer: Lexer)
        requires
            source_code@.len() < usize::MAX,
        ensures
            lexer.wf(),
            lexer@ == LexState::initial(source_code@),
    {
        let mut indentation_stack: Vec<usize> = Vec::new();
        indentation_stack.push(0);
        let lexer = Lexer {
            cursor: Cursor::new(source_code),
            token_queue: VecDeque::new(),
            indentation_stack,
            is_line_start: true,
            line_start_idx: 0,
            closed: false,
        };
        assert(lexer@.queue =~= Seq::empty());
        assert(lexer@.stack =~= seq![0usize]);
        lexer
    }

    /// Queues `count` `Dedent` tokens, each of no width at `at`.
    fn queue_dedents(&mut self, count: usize, at: usize)
        ensures
            final(self)@ == (LexState {
                queue: old(self)@.queue + Seq::new(count as nat, |i: int| dedent_at(at as int)),
                ..old(self)@
            }),
    {
        let mut queued: usize = 0;
        while queued < count
            invariant
                queued <= count,
                self@ == (LexState {
                    queue: old(self)@.queue + Seq::new(
                        queued as nat,
                        |i: int| dedent_at(at as int),
                    ),
                    ..old(self)@
                }),
            decreases count - queued,
        {
            let ghost before = self.token_queue@;
            self.token_queue.push_back(Token { kind: TokenKind::Dedent, span: Span::new(at, at) });
            queued += 1;
            assert(token_views(self.token_queue@) =~= token_views(before).push(
                dedent_at(at as int),
            ));
            assert(token_views(self.token_queue@) =~= old(self)@.queue + Seq::new(
                queued as nat,
                |i: int| dedent_at(at as int),
            ));
        }
    }

    /// Takes the head of the queue, if there is one.
    fn deliver(&mut self) -> (item: Option<Result<Token, LexError>>)
        ensures
            final(self)@ == old(self)@.deliver().state,
            item_view(item) == old(self)@.deliver().yielded,
    {
        let token = self.token_queue.pop_front();
        assert(token_views(self.token_queue@) =~= if old(self)@.queue.len() > 0 {
            old(self)@.queue.drop_first()
        } else {
            old(self)@.queue
        });
        match token {
            Some(token) => Some(Ok(token)),
            None => None,
        }
    }

    /// The number of indentation levels, from the bottom up, that are not wider than
    /// `width`.
    fn levels_kept(&self, width: usize) -> (kept: usize)
        requires
            self.wf(),
        ensures
            kept == unwind(self@.stack, width as nat).len(),
    {
        let mut kept = self.indentation_stack.len();
        assert(self@.stack.take(kept as int) =~= self@.stack);
        while self.indentation_stack[kept - 1] > width
            invariant
                self.wf(),
                1 <= kept <= self.indentation_stack.len(),
                unwind(self@.stack, width as nat) == unwind(
                    self@.stack.take(kept as int),
                    width as nat,
                ),
            decreases kept,
        {
            assert(self@.stack.take(kept as int).drop_last() =~= self@.stack.take(kept - 1));
            kept -= 1;
        }
        kept
    }

    /// Yields the next token of the stream, `None` once the stream has ended, or the error
    /// that ends it. What is yielded, and what the lexer is afterwards, is what
    /// [`LexState::step`] says.
    pub fn next(&mut self) -> (item: Option<Result<Token, LexError>>)
        requires
            old(self).wf(),
        ensures
            final(self).wf(),
            final(self)@ == old(self)@.step().state,
            item_view(item) == old(self)@.step().yielded,
    {
        proof {
            old(self)@.lemma_step_wf();
        }
        if self.token_queue.len() > 0 {
            return self.deliver();
        }
        if self.closed {
            return None;
        }
        let width = self.cursor.skip_whitespace();
        let line_start = self.line_start_idx;
        if self.is_line_start {
            let top = self.indentation_stack[self.indentation_stack.len() - 1];
            if width > top {
                self.is_line_start = false;
                self.indentation_stack.push(width);
                return Some(
                    Ok(Token { kind: TokenKind::Indent, span: Span::new(line_start, line_start) }),
                );
            } else if width < top {
                proof {
                    lemma_unwind(old(self)@.stack, width as nat);
                }
                let kept = self.levels_kept(width);
                self.is_line_start = false;
                if self.indentation_stack[kept - 1] != width {
                    self.indentation_stack.truncate(1);
                    self.closed = true;
                    assert(self@.stack =~= seq![0usize]);
                    return Some(
                        Err(LexError::InconsistentIndentation { width, offset: line_start }),
                    );
                }
                let popped = self.indentation_stack.len() - kept;
                self.indentation_stack.truncate(kept);
                self.queue_dedents(popped, line_start);
                return self.deliver();
            }
        }
        self.is_line_start = false;
        match self.cursor.peek() {
            None => {
                let end = self.cursor.offset();
                let open = self.indentation_stack.len() - 1;
                let mut after = end;
                match self.cursor.previous() {
                    Some(last) if last != '\n' => {
                        after = end + 1;
                        self.token_queue.push_back(
                            Token { kind: TokenKind::NewLine, span: Span::new(end, after) },
                        );
                    },
                    _ => {},
                }
                self.indentation_stack.truncate(1);
                self.closed = true;
                self.queue_dedents(open, after);
                assert(self@.stack =~= seq![0usize]);
                assert(self@.queue =~= old(self)@.closing_tokens());
                self.deliver()
            },
            Some(c) => {
                let start = self.cursor.offset();
                if let Some(kind) = rule_string_ident(self, c) {
                    let end = self.cursor.offset();
                    return Some(Ok(Token { kind, span: Span::new(start, end) }));
                }
                let kind = scan(&mut self.cursor);
                let end = self.cursor.offset();
                if let TokenKind::NewLine = kind {
                    self.is_line_start = true;
                    self.line_start_idx = start + 1;
                }
                Some(Ok(Token { kind, span: Span::new(start, end) }))
            },
        }
    }

    /// Pulls until the stream ends and returns every token in order, or the error that
    /// ended the stream.
    pub fn collect(self) -> (stream: Result<Vec<Token>, LexError>)
        requires
            self.wf(),
        ensures
            stream_view(stream) == self@.rest(),
    {
        let mut lexer = self;
        let mut tokens: Vec<Token> = Vec::new();
        loop
            invariant
                lexer.wf(),
                self@.rest() == prepend(token_views(tokens@), lexer@.rest()),
            decreases
                (if lexer@.closed { 0nat } else { 1nat }),
                lexer@.source.len() - lexer@.offset,
                (if lexer@.is_line_start { 1nat } else { 0nat }),
                lexer@.queue.len(),
        {
            proof {
                lexer@.lemma_step_wf();
            }
            let ghost before = tokens@;
            match lexer.next() {
                None => {
                    assert(token_views(tokens@) + Seq::empty() =~= token_views(tokens@));
                    return Ok(tokens);
                },
                Some(Err(e)) => {
                    return Err(e);
                },
                Some(Ok(token)) => {
                    tokens.push(token);
                    assert forall|more: Seq<SpecToken>|
                        token_views(before) + (seq![token@] + more) == token_views(tokens@)
                            + more by {
                        assert(token_views(before) + (seq![token@] + more) =~= token_views(
                            tokens@,
                        ) + more);
                    }
                },
            }
        }
    }
}

} // verus!
