use silver::lexer::TokenKind as tk;
use silver::lexer::{LexError, Lexer, Token};

fn lex(source_code: &str) -> Vec<Token> {
    match Lexer::new(source_code).collect() {
        Ok(tokens) => tokens,
        Err(error) => panic!("lexing failed: {:?}", error),
    }
}

fn compare_tokens<T>(expected_kinds: T, source_code: &str)
where
    T: IntoIterator<Item = tk>,
{
    let expected_kinds: Vec<tk> = expected_kinds.into_iter().collect();

    let output_toks: Vec<Token> = lex(source_code);

    for i in 0..expected_kinds.len() {
        if output_toks.len() <= i {
            panic!(
                "wrong len. expected={}, got={}",
                expected_kinds.len(),
                output_toks.len(),
            );
        }

        println!("{:?} -- {:?}", expected_kinds[i], output_toks[i].kind);

        assert_eq!(
            expected_kinds[i], output_toks[i].kind,
            "tests[{}] - token kind wrong. expected={:?}, got={:?}",
            i, expected_kinds[i], output_toks[i].kind,
        );
    }

    assert_eq!(
        expected_kinds.len(),
        output_toks.len(),
        "wrong len. expected={}, got={}",
        expected_kinds.len(),
        output_toks.len(),
    );
}

fn compare_tokens_and_span<T>(expected: T, source_code: &str)
where
    T: IntoIterator<Item = (tk, usize, usize)>,
{
    let output_toks: Vec<Token> = lex(source_code);

    for ((i, (_, exp_span_start, exp_span_len)), out_tok) in
        expected.into_iter().enumerate().zip(output_toks.iter())
    {
        assert_eq!(
            exp_span_start, out_tok.span.start_idx,
            "test[{}] - span start wrong. expected={:?}, got={:?}",
            i, exp_span_start, out_tok.span.start_idx
        );
        assert_eq!(
            exp_span_start + exp_span_len,
            out_tok.span.end_idx,
            "test[{}] - span end wrong. expected={:?}, got={:?}",
            i,
            exp_span_start + exp_span_len,
            out_tok.span.end_idx
        );
        assert_eq!(
            exp_span_len, out_tok.span.len,
            "test[{}] - span len wrong. expected={:?}, got={:?}",
            i, exp_span_len, out_tok.span.len
        );
    }
}

fn spans(source_code: &str) -> Vec<(tk, usize, usize)> {
    lex(source_code)
        .into_iter()
        .map(|token| (token.kind, token.span.start_idx, token.span.end_idx))
        .collect()
}

fn count(tokens: &[Token], kind: tk) -> usize {
    tokens.iter().filter(|token| token.kind == kind).count()
}

#[test]
fn math_tokens() {
    let src = "+-*/";
    let kinds = vec![tk::Plus, tk::Minus, tk::Star, tk::Slash, tk::NewLine];

    compare_tokens(kinds, src);
}

#[test]
fn one_char_tokens() {
    let src = "()[]{}:;.,+-*/%^&|~=<>!@";
    let kinds = vec![
        tk::LParen,
        tk::RParen,
        tk::LBracket,
        tk::RBracket,
        tk::LBrace,
        tk::RBrace,
        tk::Colon,
        tk::Semi,
        tk::Dot,
        tk::Comma,
        tk::Plus,
        tk::Minus,
        tk::Star,
        tk::Slash,
        tk::Percent,
        tk::Caret,
        tk::Amper,
        tk::Pipe,
        tk::Tilde,
        tk::Equals,
        tk::Less,
        tk::Greater,
        tk::Not,
        tk::At,
        tk::NewLine,
    ];

    compare_tokens(kinds, src);
}

#[test]
fn multi_char_tokens() {
    let src = "-> == != <= >= << >> ** += -= *= /= %= &= |= ^= <<= >>= **=";
    let kinds = vec![
        tk::RArrow,
        tk::EqualsEquals,
        tk::NotEquals,
        tk::LessEquals,
        tk::GreaterEquals,
        tk::LShift,
        tk::RShift,
        tk::StarStar,
        tk::PlusEquals,
        tk::MinusEquals,
        tk::StarEquals,
        tk::SlashEquals,
        tk::PercentEquals,
        tk::AmperEquals,
        tk::PipeEquals,
        tk::CaretEquals,
        tk::LShiftEquals,
        tk::RShiftEquals,
        tk::StarStarEquals,
        tk::NewLine,
    ];

    compare_tokens(kinds, src);
}

#[test]
fn basic_program() {
    let src = r#"one = 1
print(one)"#;
    let kinds = vec![
        tk::Identifier("one".into()),
        tk::Equals,
        tk::IntegerLiteral("1".into()),
        tk::NewLine,
        tk::Identifier("print".into()),
        tk::LParen,
        tk::Identifier("one".into()),
        tk::RParen,
        tk::NewLine,
    ];

    compare_tokens(kinds, src);
}

#[test]
fn normal_indent() {
    let src = r#"+
    +
+
    +"#;

    let kinds = vec![
        tk::Plus,
        tk::NewLine,
        tk::Indent,
        tk::Plus,
        tk::NewLine,
        tk::Dedent,
        tk::Plus,
        tk::NewLine,
        tk::Indent,
        tk::Plus,
        tk::NewLine,
        tk::Dedent,
    ];

    compare_tokens(kinds, src);
}

// No rule reads string literals: a quote is a character that starts no token, and what
// stands between two quotes is read like any other text.
#[test]
fn basic_func_def() {
    let src = r#"def hello():
    print("Hello world!")"#;

    let kinds = vec![
        tk::Identifier("def".into()),
        tk::Identifier("hello".into()),
        tk::LParen,
        tk::RParen,
        tk::Colon,
        tk::NewLine,
        tk::Indent,
        tk::Identifier("print".into()),
        tk::LParen,
        tk::Unknown,
        tk::Identifier("Hello".into()),
        tk::Identifier("world".into()),
        tk::Not,
        tk::Unknown,
        tk::RParen,
        tk::NewLine,
        tk::Dedent,
    ];

    compare_tokens(kinds, src);
}

#[test]
fn indent_twice() {
    let src = r#"def print_if_five(number: int):
    if number == 5:
        print("It is five!")"#;

    let kinds = vec![
        tk::Identifier("def".into()),
        tk::Identifier("print_if_five".into()),
        tk::LParen,
        tk::Identifier("number".into()),
        tk::Colon,
        tk::Identifier("int".into()),
        tk::RParen,
        tk::Colon,
        tk::NewLine,
        tk::Indent,
        tk::Identifier("if".into()),
        tk::Identifier("number".into()),
        tk::EqualsEquals,
        tk::IntegerLiteral("5".into()),
        tk::Colon,
        tk::NewLine,
        tk::Indent,
        tk::Identifier("print".into()),
        tk::LParen,
        tk::Unknown,
        tk::Identifier("It".into()),
        tk::Identifier("is".into()),
        tk::Identifier("five".into()),
        tk::Not,
        tk::Unknown,
        tk::RParen,
        tk::NewLine,
        tk::Dedent,
        tk::Dedent,
    ];

    compare_tokens(kinds, src);
}

// A digit opens an integer literal, so `1nvalid` is the literal `1` and then a name.
#[test]
fn valid_ident_names() {
    let src = r#"valid _valid __valid v4l1d valid_als0 1nvalid"#;

    let kinds = vec![
        tk::Identifier("valid".into()),
        tk::Identifier("_valid".into()),
        tk::Identifier("__valid".into()),
        tk::Identifier("v4l1d".into()),
        tk::Identifier("valid_als0".into()),
        tk::IntegerLiteral("1".into()),
        tk::Identifier("nvalid".into()),
        tk::NewLine,
    ];

    compare_tokens(kinds, src);
}

#[test]
fn comment() {
    let src = r#"let i = true # This is a comment"#;

    let kinds = vec![
        tk::Identifier("let".into()),
        tk::Identifier("i".into()),
        tk::Equals,
        tk::Identifier("true".into()),
        tk::Comment,
        tk::NewLine,
    ];

    compare_tokens(kinds, src);
}

#[test]
fn tok_lens() {
    let src = r#"let i = true"#;

    let tok_start_and_len = vec![
        (tk::Identifier("let".into()), 0, 3),
        (tk::Identifier("i".into()), 4, 1),
        (tk::Equals, 6, 1),
        (tk::Identifier("true".into()), 8, 4),
        (tk::NewLine, 12, 1),
    ];

    compare_tokens_and_span(tok_start_and_len, src);
}

#[test]
fn tok_lens_are_all_of_the_stream() {
    assert_eq!(
        spans("let i = true"),
        vec![
            (tk::Identifier("let".into()), 0, 3),
            (tk::Identifier("i".into()), 4, 5),
            (tk::Equals, 6, 7),
            (tk::Identifier("true".into()), 8, 12),
            (tk::NewLine, 12, 13),
        ]
    );
}

#[test]
fn empty_source_has_no_tokens() {
    assert_eq!(lex(""), vec![]);
}

#[test]
fn source_that_ends_its_last_line_gets_no_second_newline() {
    assert_eq!(spans("a\n"), vec![(tk::Identifier("a".into()), 0, 1), (tk::NewLine, 1, 2)]);
    assert_eq!(spans("\n"), vec![(tk::NewLine, 0, 1)]);
}

#[test]
fn spaces_behind_the_last_token_do_not_keep_the_stream_open() {
    assert_eq!(
        spans("a\n  b  "),
        vec![
            (tk::Identifier("a".into()), 0, 1),
            (tk::NewLine, 1, 2),
            (tk::Indent, 2, 2),
            (tk::Identifier("b".into()), 4, 5),
            (tk::NewLine, 7, 8),
            (tk::Dedent, 8, 8),
        ]
    );
}

#[test]
fn blocks_left_open_are_closed_behind_a_final_line_end() {
    assert_eq!(
        spans("a\n  b\n"),
        vec![
            (tk::Identifier("a".into()), 0, 1),
            (tk::NewLine, 1, 2),
            (tk::Indent, 2, 2),
            (tk::Identifier("b".into()), 4, 5),
            (tk::NewLine, 5, 6),
            (tk::Dedent, 6, 6),
        ]
    );
}

#[test]
fn a_line_of_spaces_alone_opens_and_closes_a_block() {
    assert_eq!(
        spans("   "),
        vec![(tk::Indent, 0, 0), (tk::NewLine, 3, 4), (tk::Dedent, 4, 4)]
    );
}

#[test]
fn dedent_to_an_enclosing_level_keeps_that_level_open() {
    let src = "a\n  b\n    c\n  d\ne";
    let kinds = vec![
        tk::Identifier("a".into()),
        tk::NewLine,
        tk::Indent,
        tk::Identifier("b".into()),
        tk::NewLine,
        tk::Indent,
        tk::Identifier("c".into()),
        tk::NewLine,
        tk::Dedent,
        tk::Identifier("d".into()),
        tk::NewLine,
        tk::Dedent,
        tk::Identifier("e".into()),
        tk::NewLine,
    ];
    compare_tokens(kinds, src);
}

#[test]
fn dedents_over_several_levels_share_the_start_of_the_line() {
    assert_eq!(
        spans("a\n b\n  c\nd"),
        vec![
            (tk::Identifier("a".into()), 0, 1),
            (tk::NewLine, 1, 2),
            (tk::Indent, 2, 2),
            (tk::Identifier("b".into()), 3, 4),
            (tk::NewLine, 4, 5),
            (tk::Indent, 5, 5),
            (tk::Identifier("c".into()), 7, 8),
            (tk::NewLine, 8, 9),
            (tk::Dedent, 9, 9),
            (tk::Dedent, 9, 9),
            (tk::Identifier("d".into()), 9, 10),
            (tk::NewLine, 10, 11),
        ]
    );
}

#[test]
fn inconsistent_dedent_is_an_error() {
    let result = Lexer::new("a\n    b\n  c").collect();
    assert_eq!(result, Err(LexError::InconsistentIndentation { width: 2, offset: 8 }));
}

#[test]
fn an_error_ends_the_stream() {
    let mut lexer = Lexer::new("a\n    b\n  c");
    let mut kinds = Vec::new();
    let error = loop {
        match lexer.next() {
            Some(Ok(token)) => kinds.push(token.kind),
            Some(Err(error)) => break error,
            None => panic!("the stream ended without the error"),
        }
    };
    assert_eq!(
        kinds,
        vec![
            tk::Identifier("a".into()),
            tk::NewLine,
            tk::Indent,
            tk::Identifier("b".into()),
            tk::NewLine,
        ]
    );
    assert_eq!(error, LexError::InconsistentIndentation { width: 2, offset: 8 });
    assert_eq!(lexer.next(), None);
    assert_eq!(lexer.next(), None);
}

#[test]
fn next_yields_nothing_once_the_stream_has_ended() {
    let mut lexer = Lexer::new("+");
    assert_eq!(lexer.next().map(|item| item.map(|token| token.kind)), Some(Ok(tk::Plus)));
    assert_eq!(lexer.next().map(|item| item.map(|token| token.kind)), Some(Ok(tk::NewLine)));
    assert_eq!(lexer.next(), None);
    assert_eq!(lexer.next(), None);
}

#[test]
fn a_tab_is_no_indentation() {
    let kinds = vec![
        tk::Identifier("a".into()),
        tk::NewLine,
        tk::Unknown,
        tk::Identifier("b".into()),
        tk::NewLine,
    ];
    compare_tokens(kinds, "a\n\tb");
    let kinds =
        vec![tk::Identifier("a".into()), tk::Unknown, tk::Identifier("b".into()), tk::NewLine];
    compare_tokens(kinds, "a\tb");
}

#[test]
fn indents_match_dedents() {
    for src in [
        "",
        "a",
        "a\n  b",
        "a\n  b\n",
        "a\n  b\n    c",
        "a\n  b\n    c\n  d\ne\n      f",
        "  a\n b  ",
        "   ",
        "a\n   \n",
        "def f():\n    if x == 5:\n        print(x)\n    return\n",
    ] {
        if let Ok(tokens) = Lexer::new(src).collect() {
            assert_eq!(
                count(&tokens, tk::Indent),
                count(&tokens, tk::Dedent),
                "source {:?}",
                src
            );
        }
    }
}

#[test]
fn two_level_nesting_closes_in_reverse_order() {
    let tokens = lex("def f():\n    if x == 5:\n        print(x)");
    let kinds: Vec<tk> = tokens.iter().map(|token| token.kind.clone()).collect();
    assert_eq!(count(&tokens, tk::Indent), 2);
    assert_eq!(kinds[kinds.len() - 3..], [tk::NewLine, tk::Dedent, tk::Dedent]);
    let indents: Vec<usize> = tokens
        .iter()
        .filter(|token| token.kind == tk::Indent)
        .map(|token| token.span.start_idx)
        .collect();
    assert_eq!(indents, vec![9, 24]);
}

#[test]
fn longest_spelling_wins() {
    compare_tokens(vec![tk::StarStarEquals, tk::NewLine], "**=");
    compare_tokens(vec![tk::LShiftEquals, tk::NewLine], "<<=");
    compare_tokens(vec![tk::RShiftEquals, tk::NewLine], ">>=");
    compare_tokens(vec![tk::StarStar, tk::Star, tk::NewLine], "***");
    compare_tokens(vec![tk::RArrow, tk::Greater, tk::NewLine], "->>");
    compare_tokens(vec![tk::EqualsEquals, tk::Equals, tk::NewLine], "===");
    compare_tokens(vec![tk::LShift, tk::LessEquals, tk::NewLine], "<<<=");
    compare_tokens(vec![tk::Minus, tk::RArrow, tk::NewLine], "-->");
    compare_tokens(vec![tk::Tilde, tk::Equals, tk::NewLine], "~=");
    compare_tokens(vec![tk::At, tk::Equals, tk::NewLine], "@=");
}

#[test]
fn unknown_character_alone() {
    for src in ["$", "?", "\"", "\t", "\r", "\\", "`", "'", "\u{e9}", "\u{1F600}"] {
        assert_eq!(spans(src), vec![(tk::Unknown, 0, 1), (tk::NewLine, 1, 2)], "source {:?}", src);
    }
}

#[test]
fn spans_count_characters_not_bytes() {
    assert_eq!(
        spans("\u{e9}\u{e9} x"),
        vec![
            (tk::Unknown, 0, 1),
            (tk::Unknown, 1, 2),
            (tk::Identifier("x".into()), 3, 4),
            (tk::NewLine, 4, 5),
        ]
    );
}

#[test]
fn comment_runs_to_the_end_of_its_line() {
    assert_eq!(
        spans("# one\nx # two"),
        vec![
            (tk::Comment, 0, 5),
            (tk::NewLine, 5, 6),
            (tk::Identifier("x".into()), 6, 7),
            (tk::Comment, 8, 13),
            (tk::NewLine, 13, 14),
        ]
    );
}

#[test]
fn literal_and_name_keep_their_text() {
    assert_eq!(
        spans("007 _a9Z"),
        vec![
            (tk::IntegerLiteral("007".into()), 0, 3),
            (tk::Identifier("_a9Z".into()), 4, 8),
            (tk::NewLine, 8, 9),
        ]
    );
}
