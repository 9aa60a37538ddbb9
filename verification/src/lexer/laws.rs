//! What holds of every token stream.

use vstd::prelude::*;
use crate::lexer::cursor::{run_len, spec_is_space};
use crate::lexer::scan::{
    glyph_at, lemma_lexeme_extent, lexeme_at, spec_is_digit, spec_is_ident_start,
};
use crate::lexer::state::{lemma_unwind, lex, unwind, LexState};
use crate::lexer::token::{dedent_at, newline_at, span_of, LexError, SpecToken, SpecTokenKind};

verus! {

/// The number of `Indent` tokens among `tokens`.
pub open spec fn indents(tokens: Seq<SpecToken>) -> nat
    decreases tokens.len(),
{
    if tokens.len() == 0 {
        0
    } else {
        indents(tokens.drop_first()) + if tokens[0].kind is Indent {
            1nat
        } else {
            0nat
        }
    }
}

/// The number of `Dedent` tokens among `tokens`.
pub open spec fn dedents(tokens: Seq<SpecToken>) -> nat
    decreases tokens.len(),
{
    if tokens.len() == 0 {
        0
    } else {
        dedents(tokens.drop_first()) + if tokens[0].kind is Dedent {
            1nat
        } else {
            0nat
        }
    }
}

/// A queue of `Dedent` tokens holds as many `Dedent` tokens as it is long, and no `Indent`.
proof fn lemma_count_dedents(count: nat, token: SpecToken)
    requires
        token.kind is Dedent,
    ensures
        dedents(Seq::new(count, |i: int| token)) == count,
        indents(Seq::new(count, |i: int| token)) == 0,
    decreases count,
{
    if count > 0 {
        lemma_count_dedents((count - 1) as nat, token);
        assert(Seq::new(count, |i: int| token).drop_first() =~= Seq::new(
            (count - 1) as nat,
            |i: int| token,
        ));
    }
}

/// From any consistent state on, the stream closes every block: where it ends without an
/// error, it holds as many more `Dedent` than `Indent` tokens as blocks are open, the
/// tokens in the queue counted with those of the stream.
pub proof fn lemma_rest_closes_blocks(state: LexState)
    requires
        state.wf(),
    ensures
        state.rest() matches Ok(tokens) ==> dedents(tokens) + indents(state.queue) == indents(
            tokens,
        ) + dedents(state.queue) + state.stack.len() - 1,
    decreases
        (if state.closed { 0nat } else { 1nat }),
        state.source.len() - state.offset,
        (if state.is_line_start { 1nat } else { 0nat }),
        state.queue.len(),
{
    state.lemma_step_wf();
    let step = state.step();
    if let Some(Ok(token)) = step.yielded {
        lemma_rest_closes_blocks(step.state);
        if let Ok(more) = step.state.rest() {
            let tokens = seq![token] + more;
            assert(state.rest() == Ok::<Seq<SpecToken>, LexError>(tokens));
            assert(tokens.drop_first() =~= more);
            assert(tokens[0] == token);
            assert(indents(tokens) == indents(more) + if token.kind is Indent {
                1nat
            } else {
                0nat
            });
            assert(dedents(tokens) == dedents(more) + if token.kind is Dedent {
                1nat
            } else {
                0nat
            });
            if state.queue.len() > 0 {
                assert(step.state.queue == state.queue.drop_first());
                assert(state.queue[0] == token);
            } else if state.closed {
            } else if state.is_line_start && state.width() > state.stack.last() {
                assert(step.state.queue.len() == 0);
                assert(token.kind is Indent);
            } else if state.is_line_start && state.width() < state.stack.last() {
                lemma_unwind(state.stack, state.width());
                let kept = unwind(state.stack, state.width());
                let popped = (state.stack.len() - kept.len()) as nat;
                let dedent = dedent_at(state.line_start as int);
                let queued = Seq::new(popped, |i: int| dedent);
                lemma_count_dedents(popped, dedent);
                assert(popped > 0);
                assert(queued.drop_first() =~= step.state.queue);
                assert(queued[0] == token);
                assert(step.state.stack == kept);
            } else if state.content_start() >= state.source.len() {
                let closing = state.closing_tokens();
                assert(closing.len() > 0);
                assert(closing.drop_first() =~= step.state.queue);
                assert(closing[0] == token);
                lemma_closing_counts(state);
                assert(step.state.stack.len() == 1);
            } else {
                lemma_content_kind(state.source, state.content_start() as int);
                assert(step.state.queue.len() == 0);
            }
        }
    } else if step.yielded is None {
        assert(state.queue.len() == 0);
        if !state.closed {
            lemma_unwind(state.stack, state.width());
            assert(state.closing_tokens().len() == 0);
            assert(state.stack.len() == 1);
        }
    }
}

/// The closing tokens hold one `Dedent` for each open block and no `Indent`.
proof fn lemma_closing_counts(state: LexState)
    requires
        state.wf(),
    ensures
        dedents(state.closing_tokens()) == state.stack.len() - 1,
        indents(state.closing_tokens()) == 0,
{
    let end = state.source.len() as int;
    let open = (state.stack.len() - 1) as nat;
    let closing = state.closing_tokens();
    if end > 0 && state.source.last() != '\n' {
        let token = dedent_at(end + 1);
        lemma_count_dedents(open, token);
        assert(closing.drop_first() =~= Seq::new(open, |i: int| token));
    } else {
        let token = dedent_at(end);
        lemma_count_dedents(open, token);
        assert(closing =~= Seq::new(open, |i: int| token));
    }
}

/// The scanner yields neither `Indent` nor `Dedent`.
pub proof fn lemma_content_kind(src: Seq<char>, at: int)
    requires
        0 <= at < src.len(),
    ensures
        !(lexeme_at(src, at).kind is Indent),
        !(lexeme_at(src, at).kind is Dedent),
{
}

/// Every block that a stream opens, it closes: a stream that ends without an error holds
/// as many `Dedent` tokens as `Indent` tokens.
pub proof fn lemma_indents_match_dedents(source: Seq<char>)
    requires
        source.len() < usize::MAX,
    ensures
        lex(source) matches Ok(tokens) ==> indents(tokens) == dedents(tokens),
{
    let state = LexState::initial(source);
    lemma_rest_closes_blocks(state);
    assert(indents(state.queue) == 0);
    assert(dedents(state.queue) == 0);
}

/// Whether the spelling of `kind` stands in `src` at `at`. No kind but punctuation and
/// operators has a spelling.
pub open spec fn spelled_at(src: Seq<char>, at: int, kind: SpecTokenKind) -> bool {
    match kind.glyph() {
        Some(glyph) => at + glyph.len() <= src.len() && src.subrange(at, at + glyph.len())
            == glyph,
        None => false,
    }
}

/// A stretch of `src` that agrees with `glyph` character by character is `glyph`.
proof fn lemma_spelled(src: Seq<char>, at: int, glyph: Seq<char>)
    requires
        0 <= at,
        at + glyph.len() <= src.len(),
        forall|i: int| 0 <= i < glyph.len() ==> src[at + i] == glyph[i],
    ensures
        src.subrange(at, at + glyph.len()) == glyph,
{
    assert(src.subrange(at, at + glyph.len()) =~= glyph);
}

/// Where a spelling stands at `at`, the text agrees with it in its first three places, as
/// far as it reaches.
proof fn lemma_spelled_chars(src: Seq<char>, at: int, kind: SpecTokenKind)
    requires
        0 <= at,
        spelled_at(src, at, kind),
    ensures
        ({
            let glyph = kind.glyph()->0;
            &&& 1 <= glyph.len() <= 3
            &&& src[at] == glyph[0]
            &&& glyph.len() >= 2 ==> src[at + 1] == glyph[1]
            &&& glyph.len() >= 3 ==> src[at + 2] == glyph[2]
        }),
{
    let glyph = kind.glyph()->0;
    let part = src.subrange(at, at + glyph.len());
    assert(part[0] == src[at]);
    if glyph.len() >= 2 {
        assert(part[1] == src[at + 1]);
    }
    if glyph.len() >= 3 {
        assert(part[2] == src[at + 2]);
    }
}

/// What the scanner reads where punctuation or an operator starts is spelled there.
pub proof fn lemma_glyph_is_spelled(src: Seq<char>, at: int)
    requires
        0 <= at < src.len(),
        glyph_at(src, at) is Some,
    ensures
        lexeme_at(src, at) == glyph_at(src, at)->0,
        spelled_at(src, at, lexeme_at(src, at).kind),
        lexeme_at(src, at).len == lexeme_at(src, at).kind.glyph()->0.len(),
{
    let lexeme = glyph_at(src, at)->0;
    let glyph = lexeme.kind.glyph()->0;
    assert(glyph.len() == lexeme.len);
    assert(glyph[0] == src[at]);
    if lexeme.len >= 2 {
        assert(glyph[1] == src[at + 1]);
    }
    if lexeme.len >= 3 {
        assert(glyph[2] == src[at + 2]);
    }
    lemma_spelled(src, at, glyph);
}

/// Longest match: where the spelling of `kind` stands at `at`, the scanner reads
/// punctuation or an operator there whose own spelling stands there too and is at least as
/// long. So where no longer spelling stands there, it reads `kind` itself.
pub proof fn lemma_longest_match(src: Seq<char>, at: int, kind: SpecTokenKind)
    requires
        0 <= at < src.len(),
        spelled_at(src, at, kind),
    ensures
        glyph_at(src, at) == Some(lexeme_at(src, at)),
        spelled_at(src, at, lexeme_at(src, at).kind),
        lexeme_at(src, at).len == lexeme_at(src, at).kind.glyph()->0.len(),
        kind.glyph()->0.len() <= lexeme_at(src, at).len,
        kind.glyph()->0.len() == lexeme_at(src, at).len ==> lexeme_at(src, at).kind == kind,
{
    lemma_spelled_chars(src, at, kind);
    lemma_glyph_is_spelled(src, at);
}

/// Whether `c` starts no token: it is no space, no line end, no `#`, no letter, digit or
/// `_`, and no punctuation or operator begins with it.
pub open spec fn starts_no_token(c: char) -> bool {
    &&& !spec_is_space(c)
    &&& c != '\n'
    &&& c != '#'
    &&& !spec_is_ident_start(c)
    &&& !spec_is_digit(c)
    &&& glyph_at(seq![c], 0) is None
}

/// A text of one character that starts no token is one `Unknown` token, followed by the
/// `NewLine` that closes the stream.
pub proof fn lemma_unknown_alone(c: char)
    requires
        starts_no_token(c),
    ensures
        lex(seq![c]) == Ok::<Seq<SpecToken>, LexError>(
            seq![
                SpecToken { kind: SpecTokenKind::Unknown, span: span_of(0, 1) },
                newline_at(1),
            ],
        ),
{
    let src = seq![c];
    let spaces = |c: char| spec_is_space(c);
    let s0 = LexState::initial(src);
    assert(run_len(src, 0, spaces) == 0);
    assert(run_len(src, 1, spaces) == 0);
    assert(s0.wf());
    s0.lemma_step_wf();
    let s1 = s0.step().state;
    assert(s0.step() == s0.read());
    assert(s0.step().yielded == Some(
        Ok::<SpecToken, LexError>(SpecToken { kind: SpecTokenKind::Unknown, span: span_of(0, 1) }),
    ));
    assert(s1.offset == 1);
    s1.lemma_step_wf();
    assert(s1.step() == s1.finish());
    assert(s1.closing_tokens() =~= seq![newline_at(1)]);
    let s2 = s1.step().state;
    assert(s1.step().yielded == Some(Ok::<SpecToken, LexError>(newline_at(1))));
    assert(s2.queue =~= Seq::empty());
    s2.lemma_step_wf();
    assert(s2.step().yielded is None);
    assert(s2.rest() == Ok::<Seq<SpecToken>, LexError>(Seq::empty()));
    assert(s1.rest() == Ok::<Seq<SpecToken>, LexError>(seq![newline_at(1)] + Seq::empty()));
    assert(seq![newline_at(1)] + Seq::<SpecToken>::empty() =~= seq![newline_at(1)]);
    assert(seq![SpecToken { kind: SpecTokenKind::Unknown, span: span_of(0, 1) }] + seq![
        newline_at(1),
    ] =~= seq![
        SpecToken { kind: SpecTokenKind::Unknown, span: span_of(0, 1) },
        newline_at(1),
    ]);
}

/// The spelling of punctuation or of an operator, alone in a text, is that one token: no
/// shorter kind is read from its beginning. The `NewLine` that closes the stream follows.
pub proof fn lemma_glyph_alone(kind: SpecTokenKind)
    requires
        kind.glyph() is Some,
    ensures
        lex(kind.glyph()->0) == Ok::<Seq<SpecToken>, LexError>(
            seq![
                SpecToken { kind, span: span_of(0, kind.glyph()->0.len() as int) },
                newline_at(kind.glyph()->0.len() as int),
            ],
        ),
{
    let src = kind.glyph()->0;
    let len = src.len() as int;
    let spaces = |c: char| spec_is_space(c);
    let token = SpecToken { kind, span: span_of(0, len) };
    assert(1 <= len <= 3);
    assert(src.subrange(0, len) =~= src);
    assert(spelled_at(src, 0, kind));
    lemma_longest_match(src, 0, kind);
    lemma_lexeme_extent(src, 0);
    assert(lexeme_at(src, 0).kind == kind);
    assert(src[0] != ' ');
    assert(src.last() != '\n');
    assert(run_len(src, 0, spaces) == 0);
    assert(run_len(src, len, spaces) == 0);
    let s0 = LexState::initial(src);
    assert(s0.wf());
    s0.lemma_step_wf();
    assert(s0.step() == s0.read());
    assert(s0.step().yielded == Some(Ok::<SpecToken, LexError>(token)));
    let s1 = s0.step().state;
    assert(s1.offset == len);
    s1.lemma_step_wf();
    assert(s1.step() == s1.finish());
    assert(s1.closing_tokens() =~= seq![newline_at(len)]);
    assert(s1.step().yielded == Some(Ok::<SpecToken, LexError>(newline_at(len))));
    let s2 = s1.step().state;
    assert(s2.queue =~= Seq::empty());
    s2.lemma_step_wf();
    assert(s2.step().yielded is None);
    assert(s2.rest() == Ok::<Seq<SpecToken>, LexError>(Seq::empty()));
    assert(seq![newline_at(len)] + Seq::<SpecToken>::empty() =~= seq![newline_at(len)]);
    assert(s1.rest() == Ok::<Seq<SpecToken>, LexError>(seq![newline_at(len)]));
    assert(seq![token] + seq![newline_at(len)] =~= seq![token, newline_at(len)]);
}

} // verus!
