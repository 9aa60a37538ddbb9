//! The token vocabulary: kinds, tokens, and their mathematical views.

use vstd::prelude::*;
use crate::span::Span;

verus! {

/// Classification of a token.
#[derive(Debug, Clone, PartialEq, Eq)]
pub enum TokenKind {
    /// `#` up to the end of its line.
    Comment,
    /// A name, with its exact text.
    Identifier(String),
    /// A run of decimal digits, with its exact text.
    IntegerLiteral(String),
    /// A quoted string, with its text.
    StringLiteral(String),
    /// End of a logical line, `\n`.
    NewLine,
    /// Opening of a nested block.
    Indent,
    /// Closing of a nested block.
    Dedent,
    /// `(`
    LParen,
    /// `)`
    RParen,
    /// `[`
    LBracket,
    /// `]`
    RBracket,
    /// `{`
    LBrace,
    /// `}`
    RBrace,
    /// `:`
    Colon,
    /// `;`
    Semi,
    /// `.`
    Dot,
    /// `,`
    Comma,
    /// `+`
    Plus,
    /// `-`
    Minus,
    /// `*`
    Star,
    /// `/`
    Slash,
    /// `%`
    Percent,
    /// `^`
    Caret,
    /// `&`
    Amper,
    /// `|`
    Pipe,
    /// `~`
    Tilde,
    /// `=`
    Equals,
    /// `<`
    Less,
    /// `>`
    Greater,
    /// `!`
    Not,
    /// `@`
    At,
    /// `->`
    RArrow,
    /// `==`
    EqualsEquals,
    /// `!=`
    NotEquals,
    /// `<=`
    LessEquals,
    /// `>=`
    GreaterEquals,
    /// `<<`
    LShift,
    /// `>>`
    RShift,
    /// `**`
    StarStar,
    /// `+=`
    PlusEquals,
    /// `-=`
    MinusEquals,
    /// `*=`
    StarEquals,
    /// `/=`
    SlashEquals,
    /// `%=`
    PercentEquals,
    /// `&=`
    AmperEquals,
    /// `|=`
    PipeEquals,
    /// `^=`
    CaretEquals,
    /// `<<=`
    LShiftEquals,
    /// `>>=`
    RShiftEquals,
    /// `**=`
    StarStarEquals,
    /// A character that starts no token.
    Unknown,
}

/// The view of a [`TokenKind`]: the same variants, text as a sequence of characters.
pub enum SpecTokenKind {
    Comment,
    Identifier(Seq<char>),
    IntegerLiteral(Seq<char>),
    StringLiteral(Seq<char>),
    NewLine,
    Indent,
    Dedent,
    LParen,
    RParen,
    LBracket,
    RBracket,
    LBrace,
    RBrace,
    Colon,
    Semi,
    Dot,
    Comma,
    Plus,
    Minus,
    Star,
    Slash,
    Percent,
    Caret,
    Amper,
    Pipe,
    Tilde,
    Equals,
    Less,
    Greater,
    Not,
    At,
    RArrow,
    EqualsEquals,
    NotEquals,
    LessEquals,
    GreaterEquals,
    LShift,
    RShift,
    StarStar,
    PlusEquals,
    MinusEquals,
    StarEquals,
    SlashEquals,
    PercentEquals,
    AmperEquals,
    PipeEquals,
    CaretEquals,
    LShiftEquals,
    RShiftEquals,
    StarStarEquals,
    Unknown,
}

impl View for TokenKind {
    type V = SpecTokenKind;

    open spec fn view(&self) -> SpecTokenKind {
        match *self {
            TokenKind::Comment => SpecTokenKind::Comment,
            TokenKind::Identifier(text) => SpecTokenKind::Identifier(text@),
            TokenKind::IntegerLiteral(text) => SpecTokenKind::IntegerLiteral(text@),
            TokenKind::StringLiteral(text) => SpecTokenKind::StringLiteral(text@),
            TokenKind::NewLine => SpecTokenKind::NewLine,
            TokenKind::Indent => SpecTokenKind::Indent,
            TokenKind::Dedent => SpecTokenKind::Dedent,
            TokenKind::LParen => SpecTokenKind::LParen,
            TokenKind::RParen => SpecTokenKind::RParen,
            TokenKind::LBracket => SpecTokenKind::LBracket,
            TokenKind::RBracket => SpecTokenKind::RBracket,
            TokenKind::LBrace => SpecTokenKind::LBrace,
            TokenKind::RBrace => SpecTokenKind::RBrace,
            TokenKind::Colon => SpecTokenKind::Colon,
            TokenKind::Semi => SpecTokenKind::Semi,
            TokenKind::Dot => SpecTokenKind::Dot,
            TokenKind::Comma => SpecTokenKind::Comma,
            TokenKind::Plus => SpecTokenKind::Plus,
            TokenKind::Minus => SpecTokenKind::Minus,
            TokenKind::Star => SpecTokenKind::Star,
            TokenKind::Slash => SpecTokenKind::Slash,
            TokenKind::Percent => SpecTokenKind::Percent,
            TokenKind::Caret => SpecTokenKind::Caret,
            TokenKind::Amper => SpecTokenKind::Amper,
            TokenKind::Pipe => SpecTokenKind::Pipe,
            TokenKind::Tilde => SpecTokenKind::Tilde,
            TokenKind::Equals => SpecTokenKind::Equals,
            TokenKind::Less => SpecTokenKind::Less,
            TokenKind::Greater => SpecTokenKind::Greater,
            TokenKind::Not => SpecTokenKind::Not,
            TokenKind::At => SpecTokenKind::At,
            TokenKind::RArrow => SpecTokenKind::RArrow,
            TokenKind::EqualsEquals => SpecTokenKind::EqualsEquals,
            TokenKind::NotEquals => SpecTokenKind::NotEquals,
            TokenKind::LessEquals => SpecTokenKind::LessEquals,
            TokenKind::GreaterEquals => SpecTokenKind::GreaterEquals,
            TokenKind::LShift => SpecTokenKind::LShift,
            TokenKind::RShift => SpecTokenKind::RShift,
            TokenKind::StarStar => SpecTokenKind::StarStar,
            TokenKind::PlusEquals => SpecTokenKind::PlusEquals,
            TokenKind::MinusEquals => SpecTokenKind::MinusEquals,
            TokenKind::StarEquals => SpecTokenKind::StarEquals,
            TokenKind::SlashEquals => SpecTokenKind::SlashEquals,
            TokenKind::PercentEquals => SpecTokenKind::PercentEquals,
            TokenKind::AmperEquals => SpecTokenKind::AmperEquals,
            TokenKind::PipeEquals => SpecTokenKind::PipeEquals,
            TokenKind::CaretEquals => SpecTokenKind::CaretEquals,
            TokenKind::LShiftEquals => SpecTokenKind::LShiftEquals,
            TokenKind::RShiftEquals => SpecTokenKind::RShiftEquals,
            TokenKind::StarStarEquals => SpecTokenKind::StarStarEquals,
            TokenKind::Unknown => SpecTokenKind::Unknown,
        }
    }
}

impl SpecTokenKind {
    /// The fixed spelling of a punctuation or operator kind; `None` for every other kind.
    pub open spec fn glyph(self) -> Option<Seq<char>> {
        match self {
            SpecTokenKind::LParen => Some(seq!['(']),
            SpecTokenKind::RParen => Some(seq![')']),
            SpecTokenKind::LBracket => Some(seq!['[']),
            SpecTokenKind::RBracket => Some(seq![']']),
            SpecTokenKind::LBrace => Some(seq!['{']),
            SpecTokenKind::RBrace => Some(seq!['}']),
            SpecTokenKind::Colon => Some(seq![':']),
            SpecTokenKind::Semi => Some(seq![';']),
            SpecTokenKind::Dot => Some(seq!['.']),
            SpecTokenKind::Comma => Some(seq![',']),
            SpecTokenKind::Plus => Some(seq!['+']),
            SpecTokenKind::Minus => Some(seq!['-']),
            SpecTokenKind::Star => Some(seq!['*']),
            SpecTokenKind::Slash => Some(seq!['/']),
            SpecTokenKind::Percent => Some(seq!['%']),
            SpecTokenKind::Caret => Some(seq!['^']),
            SpecTokenKind::Amper => Some(seq!['&']),
            SpecTokenKind::Pipe => Some(seq!['|']),
            SpecTokenKind::Tilde => Some(seq!['~']),
            SpecTokenKind::Equals => Some(seq!['=']),
            SpecTokenKind::Less => Some(seq!['<']),
            SpecTokenKind::Greater => Some(seq!['>']),
            SpecTokenKind::Not => Some(seq!['!']),
            SpecTokenKind::At => Some(seq!['@']),
            SpecTokenKind::RArrow => Some(seq!['-', '>']),
            SpecTokenKind::EqualsEquals => Some(seq!['=', '=']),
            SpecTokenKind::NotEquals => Some(seq!['!', '=']),
            SpecTokenKind::LessEquals => Some(seq!['<', '=']),
            SpecTokenKind::GreaterEquals => Some(seq!['>', '=']),
            SpecTokenKind::LShift => Some(seq!['<', '<']),
            SpecTokenKind::RShift => Some(seq!['>', '>']),
            SpecTokenKind::StarStar => Some(seq!['*', '*']),
            SpecTokenKind::PlusEquals => Some(seq!['+', '=']),
            SpecTokenKind::MinusEquals => Some(seq!['-', '=']),
            SpecTokenKind::StarEquals => Some(seq!['*', '=']),
            SpecTokenKind::SlashEquals => Some(seq!['/', '=']),
            SpecTokenKind::PercentEquals => Some(seq!['%', '=']),
            SpecTokenKind::AmperEquals => Some(seq!['&', '=']),
            SpecTokenKind::PipeEquals => Some(seq!['|', '=']),
            SpecTokenKind::CaretEquals => Some(seq!['^', '=']),
            SpecTokenKind::LShiftEquals => Some(seq!['<', '<', '=']),
            SpecTokenKind::RShiftEquals => Some(seq!['>', '>', '=']),
            SpecTokenKind::StarStarEquals => Some(seq!['*', '*', '=']),
            _ => None,
        }
    }
}

/// A classified unit of lexical output and where it sits in the source.
#[derive(Debug, Clone, PartialEq, Eq)]
pub struct Token {
    pub kind: TokenKind,
    pub span: Span,
}

/// The view of a [`Token`].
pub struct SpecToken {
    pub kind: SpecTokenKind,
    pub span: Span,
}

impl View for Token {
    type V = SpecToken;

    open spec fn view(&self) -> SpecToken {
        SpecToken { kind: self.kind@, span: self.span }
    }
}

/// The views of a sequence of tokens, in order.
pub open spec fn token_views(tokens: Seq<Token>) -> Seq<SpecToken> {
    tokens.map_values(|t: Token| t@)
}

/// The span covering `[start, end)`.
pub open spec fn span_of(start: int, end: int) -> Span {
    Span { start_idx: start as usize, end_idx: end as usize, len: (end - start) as usize }
}

/// The zero-width `Indent` token at `at`.
pub open spec fn indent_at(at: int) -> SpecToken {
    SpecToken { kind: SpecTokenKind::Indent, span: span_of(at, at) }
}

/// The zero-width `Dedent` token at `at`.
pub open spec fn dedent_at(at: int) -> SpecToken {
    SpecToken { kind: SpecTokenKind::Dedent, span: span_of(at, at) }
}

/// The one-character `NewLine` token at `at`.
pub open spec fn newline_at(at: int) -> SpecToken {
    SpecToken { kind: SpecTokenKind::NewLine, span: span_of(at, at + 1) }
}

/// A failure of lexical analysis.
#[derive(Debug, Clone, Copy, PartialEq, Eq, Structural)]
pub enum LexError {
    /// A line is indented less than the enclosing block, to a width that matches no open
    /// block. `width` is the line's indentation, `offset` the offset of its first character.
    InconsistentIndentation { width: usize, offset: usize },
}

} // verus!
