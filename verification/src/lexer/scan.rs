//! The scanner: which content token starts at a position of the text, and how long it is.

use vstd::prelude::*;
use crate::lexer::cursor::{lemma_run_len_bound, lemma_run_len_is, run_len, Cursor};
use crate::lexer::token::{SpecTokenKind, TokenKind};

verus! {

/// `String::push` appends its character to the end of the string.
pub assume_specification[ String::push ](s: &mut String, c: char)
    ensures
        final(s)@ == old(s)@.push(c),
;

/// An ASCII letter or `_`.
pub open spec fn spec_is_ident_start(c: char) -> bool {
    c == '_' || ('a' <= c && c <= 'z') || ('A' <= c && c <= 'Z')
}

/// An ASCII letter, a decimal digit or `_`.
pub open spec fn spec_is_ident_body(c: char) -> bool {
    spec_is_ident_start(c) || spec_is_digit(c)
}

/// A decimal digit.
pub open spec fn spec_is_digit(c: char) -> bool {
    '0' <= c && c <= '9'
}

/// Anything but the end of a line.
pub open spec fn spec_is_line_body(c: char) -> bool {
    c != '\n'
}

/// Whether `c` can start an identifier.
#[verifier::when_used_as_spec(spec_is_ident_start)]
pub fn is_ident_start(c: char) -> (b: bool)
    ensures
        b == spec_is_ident_start(c),
{
    c == '_' || ('a' <= c && c <= 'z') || ('A' <= c && c <= 'Z')
}

/// Whether `c` can continue an identifier.
#[verifier::when_used_as_spec(spec_is_ident_body)]
pub fn is_ident_body(c: char) -> (b: bool)
    ensures
        b == spec_is_ident_body(c),
{
    is_ident_start(c) || is_digit(c)
}

/// Whether `c` is a decimal digit.
#[verifier::when_used_as_spec(spec_is_digit)]
pub fn is_digit(c: char) -> (b: bool)
    ensures
        b == spec_is_digit(c),
{
    '0' <= c && c <= '9'
}

/// Whether `c` belongs to the body of a line.
#[verifier::when_used_as_spec(spec_is_line_body)]
pub fn is_line_body(c: char) -> (b: bool)
    ensures
        b == spec_is_line_body(c),
{
    c != '\n'
}

/// A content token as the scanner sees it: its kind and the number of characters it spans.
pub struct Lexeme {
    pub kind: SpecTokenKind,
    pub len: nat,
}

/// Whether the character of `src` at `i` is `c`.
pub open spec fn has(src: Seq<char>, i: int, c: char) -> bool {
    0 <= i < src.len() && src[i] == c
}

/// `single`, or `compound` where `=` follows the first character.
pub open spec fn with_equals(
    src: Seq<char>,
    at: int,
    single: SpecTokenKind,
    compound: SpecTokenKind,
) -> Lexeme {
    if has(src, at + 1, '=') {
        Lexeme { kind: compound, len: 2 }
    } else {
        Lexeme { kind: single, len: 1 }
    }
}

/// The longest of: `single`; `compound` where `=` follows; `double` where the first
/// character is repeated; `triple` where `=` follows the repetition.
pub open spec fn with_repeat(
    src: Seq<char>,
    at: int,
    single: SpecTokenKind,
    compound: SpecTokenKind,
    double: SpecTokenKind,
    triple: SpecTokenKind,
) -> Lexeme {
    if has(src, at + 1, src[at]) {
        if has(src, at + 2, '=') {
            Lexeme { kind: triple, len: 3 }
        } else {
            Lexeme { kind: double, len: 2 }
        }
    } else {
        with_equals(src, at, single, compound)
    }
}

/// The punctuation or operator token that starts at `at`, chosen by longest match; `None`
/// where the character at `at` starts none.
pub open spec fn glyph_at(src: Seq<char>, at: int) -> Option<Lexeme>
    recommends
        0 <= at < src.len(),
{
    let c = src[at];
    if c == '(' {
        Some(Lexeme { kind: SpecTokenKind::LParen, len: 1 })
    } else if c == ')' {
        Some(Lexeme { kind: SpecTokenKind::RParen, len: 1 })
    } else if c == '[' {
        Some(Lexeme { kind: SpecTokenKind::LBracket, len: 1 })
    } else if c == ']' {
        Some(Lexeme { kind: SpecTokenKind::RBracket, len: 1 })
    } else if c == '{' {
        Some(Lexeme { kind: SpecTokenKind::LBrace, len: 1 })
    } else if c == '}' {
        Some(Lexeme { kind: SpecTokenKind::RBrace, len: 1 })
    } else if c == ':' {
        Some(Lexeme { kind: SpecTokenKind::Colon, len: 1 })
    } else if c == ';' {
        Some(Lexeme { kind: SpecTokenKind::Semi, len: 1 })
    } else if c == '.' {
        Some(Lexeme { kind: SpecTokenKind::Dot, len: 1 })
    } else if c == ',' {
        Some(Lexeme { kind: SpecTokenKind::Comma, len: 1 })
    } else if c == '~' {
        Some(Lexeme { kind: SpecTokenKind::Tilde, len: 1 })
    } else if c == '@' {
        Some(Lexeme { kind: SpecTokenKind::At, len: 1 })
    } else if c == '+' {
        Some(with_equals(src, at, SpecTokenKind::Plus, SpecTokenKind::PlusEquals))
    } else if c == '-' {
        if has(src, at + 1, '>') {
            Some(Lexeme { kind: SpecTokenKind::RArrow, len: 2 })
        } else {
            Some(with_equals(src, at, SpecTokenKind::Minus, SpecTokenKind::MinusEquals))
        }
    } else if c == '*' {
        Some(
            with_repeat(
                src,
                at,
                SpecTokenKind::Star,
                SpecTokenKind::StarEquals,
                SpecTokenKind::StarStar,
                SpecTokenKind::StarStarEquals,
            ),
        )
    } else if c == '/' {
        Some(with_equals(src, at, SpecTokenKind::Slash, SpecTokenKind::SlashEquals))
    } else if c == '%' {
        Some(with_equals(src, at, SpecTokenKind::Percent, SpecTokenKind::PercentEquals))
    } else if c == '^' {
        Some(with_equals(src, at, SpecTokenKind::Caret, SpecTokenKind::CaretEquals))
    } else if c == '&' {
        Some(with_equals(src, at, SpecTokenKind::Amper, SpecTokenKind::AmperEquals))
    } else if c == '|' {
        Some(with_equals(src, at, SpecTokenKind::Pipe, SpecTokenKind::PipeEquals))
    } else if c == '=' {
        Some(with_equals(src, at, SpecTokenKind::Equals, SpecTokenKind::EqualsEquals))
    } else if c == '!' {
        Some(with_equals(src, at, SpecTokenKind::Not, SpecTokenKind::NotEquals))
    } else if c == '<' {
        Some(
            with_repeat(
                src,
                at,
                SpecTokenKind::Less,
                SpecTokenKind::LessEquals,
                SpecTokenKind::LShift,
                SpecTokenKind::LShiftEquals,
            ),
        )
    } else if c == '>' {
        Some(
            with_repeat(
                src,
                at,
                SpecTokenKind::Greater,
                SpecTokenKind::GreaterEquals,
                SpecTokenKind::RShift,
                SpecTokenKind::RShiftEquals,
            ),
        )
    } else {
        None
    }
}

/// The content token that starts at `at`.
///
/// `#` opens a comment that runs up to, not including, the end of the line. A letter or `_`
/// opens an identifier, a digit an integer literal, each as long as it can be. Punctuation
/// and operators go by [`glyph_at`]. `\n` is a `NewLine`. Any other character is an
/// `Unknown` token of its own.
pub open spec fn lexeme_at(src: Seq<char>, at: int) -> Lexeme
    recommends
        0 <= at < src.len(),
{
    let c = src[at];
    if c == '#' {
        Lexeme {
            kind: SpecTokenKind::Comment,
            len: run_len(src, at, |c: char| spec_is_line_body(c)),
        }
    } else if spec_is_ident_start(c) {
        let len = run_len(src, at, |c: char| spec_is_ident_body(c));
        Lexeme { kind: SpecTokenKind::Identifier(src.subrange(at, at + len)), len }
    } else if spec_is_digit(c) {
        let len = run_len(src, at, |c: char| spec_is_digit(c));
        Lexeme { kind: SpecTokenKind::IntegerLiteral(src.subrange(at, at + len)), len }
    } else if c == '\n' {
        Lexeme { kind: SpecTokenKind::NewLine, len: 1 }
    } else {
        match glyph_at(src, at) {
            Some(lexeme) => lexeme,
            None => Lexeme { kind: SpecTokenKind::Unknown, len: 1 },
        }
    }
}

/// Every content token spans at least one character and ends within the text.
pub proof fn lemma_lexeme_extent(src: Seq<char>, at: int)
    requires
        0 <= at < src.len(),
    ensures
        1 <= lexeme_at(src, at).len,
        at + lexeme_at(src, at).len <= src.len(),
{
    lemma_run_len_bound(src, at, |c: char| spec_is_line_body(c));
    lemma_run_len_bound(src, at, |c: char| spec_is_ident_body(c));
    lemma_run_len_bound(src, at, |c: char| spec_is_digit(c));
}

/// A character that satisfies `p`, followed by a stretch `rest` whose members all do and
/// which ends at `end`, where the text ends or `p` fails, is the longest run, and its text
/// is that character followed by `rest`.
proof fn lemma_run_after_first(
    src: Seq<char>,
    at: int,
    rest: Seq<char>,
    end: int,
    p: spec_fn(char) -> bool,
)
    requires
        0 <= at < end <= src.len(),
        p(src[at]),
        rest == src.subrange(at + 1, end),
        forall|i: int| 0 <= i < rest.len() ==> p(#[trigger] rest[i]),
        end < src.len() ==> !p(src[end]),
    ensures
        run_len(src, at, p) == end - at,
        seq![src[at]] + rest == src.subrange(at, end),
{
    assert forall|i: int| at <= i < end implies p(#[trigger] src[i]) by {
        if i > at {
            assert(src[i] == rest[i - at - 1]);
        }
    }
    lemma_run_len_is(src, at, (end - at) as nat, p);
    assert(seq![src[at]] + rest =~= src.subrange(at, end));
}

/// The text made of `first` followed by `rest`.
fn text_of(first: char, rest: &Vec<char>) -> (text: String)
    ensures
        text@ == seq![first] + rest@,
{
    let mut text = String::new();
    text.push(first);
    let mut i: usize = 0;
    while i < rest.len()
        invariant
            i <= rest.len(),
            text@ == seq![first] + rest@.take(i as int),
        decreases rest.len() - i,
    {
        text.push(rest[i]);
        i += 1;
    }
    text
}

/// Consumes `=` if it is the next character, and picks `compound` then, else `single`.
fn scan_equals(cursor: &mut Cursor, single: TokenKind, compound: TokenKind) -> (kind: TokenKind)
    requires
        old(cursor).wf(),
        old(cursor)@.offset >= 1,
        single@.glyph() is Some,
        compound@.glyph() is Some,
    ensures
        final(cursor).wf(),
        final(cursor)@.source == old(cursor)@.source,
        kind@ == with_equals(
            old(cursor)@.source,
            old(cursor)@.offset - 1,
            single@,
            compound@,
        ).kind,
        final(cursor)@.offset - old(cursor)@.offset + 1 == with_equals(
            old(cursor)@.source,
            old(cursor)@.offset - 1,
            single@,
            compound@,
        ).len,
{
    match cursor.peek() {
        Some('=') => {
            cursor.next();
            compound
        },
        _ => single,
    }
}

/// After the first character of a family that also repeats it: consumes the repetition and
/// the `=` behind it where they stand, and picks the longest kind of the four.
fn scan_repeat(
    cursor: &mut Cursor,
    first: char,
    single: TokenKind,
    compound: TokenKind,
    double: TokenKind,
    triple: TokenKind,
) -> (kind: TokenKind)
    requires
        old(cursor).wf(),
        old(cursor)@.offset >= 1,
        old(cursor)@.source[old(cursor)@.offset - 1] == first,
        first != '=',
        single@.glyph() is Some,
        compound@.glyph() is Some,
        double@.glyph() is Some,
        triple@.glyph() is Some,
    ensures
        final(cursor).wf(),
        final(cursor)@.source == old(cursor)@.source,
        kind@ == with_repeat(
            old(cursor)@.source,
            old(cursor)@.offset - 1,
            single@,
            compound@,
            double@,
            triple@,
        ).kind,
        final(cursor)@.offset - old(cursor)@.offset + 1 == with_repeat(
            old(cursor)@.source,
            old(cursor)@.offset - 1,
            single@,
            compound@,
            double@,
            triple@,
        ).len,
{
    match cursor.peek() {
        Some(c) if c == first => {
            cursor.next();
            match cursor.peek() {
                Some('=') => {
                    cursor.next();
                    triple
                },
                _ => double,
            }
        },
        _ => scan_equals(cursor, single, compound),
    }
}

/// Consumes the content token at the cursor and returns its kind.
pub fn scan(cursor: &mut Cursor) -> (kind: TokenKind)
    requires
        old(cursor).wf(),
        old(cursor)@.offset < old(cursor)@.source.len(),
    ensures
        final(cursor).wf(),
        final(cursor)@.source == old(cursor)@.source,
        kind@ == lexeme_at(old(cursor)@.source, old(cursor)@.offset as int).kind,
        final(cursor)@.offset == old(cursor)@.offset + lexeme_at(
            old(cursor)@.source,
            old(cursor)@.offset as int,
        ).len,
{
    let ghost src = cursor@.source;
    let ghost at = cursor@.offset as int;
    let first = cursor.next().unwrap();
    if first == '#' {
        let rest = cursor.take_while(is_line_body);
        proof {
            lemma_run_after_first(
                src,
                at,
                rest@,
                cursor@.offset as int,
                |c: char| spec_is_line_body(c),
            );
        }
        TokenKind::Comment
    } else if is_ident_start(first) {
        let rest = cursor.take_while(is_ident_body);
        proof {
            lemma_run_after_first(
                src,
                at,
                rest@,
                cursor@.offset as int,
                |c: char| spec_is_ident_body(c),
            );
        }
        TokenKind::Identifier(text_of(first, &rest))
    } else if is_digit(first) {
        let rest = cursor.take_while(is_digit);
        proof {
            lemma_run_after_first(
                src,
                at,
                rest@,
                cursor@.offset as int,
                |c: char| spec_is_digit(c),
            );
        }
        TokenKind::IntegerLiteral(text_of(first, &rest))
    } else {
        match first {
            '\n' => TokenKind::NewLine,
            '(' => TokenKind::LParen,
            ')' => TokenKind::RParen,
            '[' => TokenKind::LBracket,
            ']' => TokenKind::RBracket,
            '{' => TokenKind::LBrace,
            '}' => TokenKind::RBrace,
            ':' => TokenKind::Colon,
            ';' => TokenKind::Semi,
            '.' => TokenKind::Dot,
            ',' => TokenKind::Comma,
            '~' => TokenKind::Tilde,
            '@' => TokenKind::At,
            '+' => scan_equals(cursor, TokenKind::Plus, TokenKind::PlusEquals),
            '-' => match cursor.peek() {
                Some('>') => {
                    cursor.next();
                    TokenKind::RArrow
                },
                _ => scan_equals(cursor, TokenKind::Minus, TokenKind::MinusEquals),
            },
            '*' => scan_repeat(
                cursor,
                first,
                TokenKind::Star,
                TokenKind::StarEquals,
                TokenKind::StarStar,
                TokenKind::StarStarEquals,
            ),
            '/' => scan_equals(cursor, TokenKind::Slash, TokenKind::SlashEquals),
            '%' => scan_equals(cursor, TokenKind::Percent, TokenKind::PercentEquals),
            '^' => scan_equals(cursor, TokenKind::Caret, TokenKind::CaretEquals),
            '&' => scan_equals(cursor, TokenKind::Amper, TokenKind::AmperEquals),
            '|' => scan_equals(cursor, TokenKind::Pipe, TokenKind::PipeEquals),
            '=' => scan_equals(cursor, TokenKind::Equals, TokenKind::EqualsEquals),
            '!' => scan_equals(cursor, TokenKind::Not, TokenKind::NotEquals),
            '<' => scan_repeat(
                cursor,
                first,
                TokenKind::Less,
                TokenKind::LessEquals,
                TokenKind::LShift,
                TokenKind::LShiftEquals,
            ),
            '>' => scan_repeat(
                cursor,
                first,
                TokenKind::Greater,
                TokenKind::GreaterEquals,
                TokenKind::RShift,
                TokenKind::RShiftEquals,
            ),
            _ => TokenKind::Unknown,
        }
    }
}

} // verus!
