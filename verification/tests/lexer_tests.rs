use icy::error::IcyError;
use icy::lexer::lexer::Lexer;
use icy::lexer::number::parse_decimal;
use icy::token::token::{lookup_indentifier, Token};
use icy::token::token_kind::TokenKind;

fn ident(name: &str) -> TokenKind {
    TokenKind::Ident(name.to_string())
}

/// Pulls tokens until `Eof`, which is included.
fn lex_all(source: &str) -> Vec<Token> {
    let mut lexer = Lexer::new(source);
    let mut tokens = Vec::new();
    loop {
        let token = lexer.next();
        let done = token.kind == TokenKind::Eof;
        tokens.push(token);
        if done {
            return tokens;
        }
    }
}

fn assert_tokens(source: &str, expected: &[(TokenKind, &str, usize)]) {
    let tokens = lex_all(source);
    assert_eq!(tokens.len(), expected.len());
    for (token, (kind, literal, line)) in tokens.iter().zip(expected.iter()) {
        assert_eq!(&token.kind, kind);
        assert_eq!(token.literal, *literal);
        assert_eq!(token.line, *line);
    }
}

#[test]
fn kinds() {
    println!("[lexer_tests]: kinds");
    let delim_and_ops: String = String::from("=+-(){},:\n!/*?;<>[]");
    let test_tokens: Vec<Token> = vec![
        Token::new(TokenKind::Equals, "=", 1),
        Token::new(TokenKind::Plus, "+", 1),
        Token::new(TokenKind::Minus, "-", 1),
        Token::new(TokenKind::LParen, "(", 1),
        Token::new(TokenKind::RParen, ")", 1),
        Token::new(TokenKind::LBrace, "{", 1),
        Token::new(TokenKind::RBrace, "}", 1),
        Token::new(TokenKind::Comma, ",", 1),
        Token::new(TokenKind::Colon, ":", 1),
        Token::new(TokenKind::Newline, "\n", 1),
        Token::new(TokenKind::Bang, "!", 2),
        Token::new(TokenKind::Slash, "/", 2),
        Token::new(TokenKind::Asterisk, "*", 2),
        Token::new(TokenKind::QMark, "?", 2),
        Token::new(TokenKind::SemiColon, ";", 2),
        Token::new(TokenKind::LAngle, "<", 2),
        Token::new(TokenKind::RAngle, ">", 2),
        Token::new(TokenKind::LBracket, "[", 2),
        Token::new(TokenKind::RBracket, "]", 2),
    ];

    let mut lexer: Lexer = Lexer::new(&delim_and_ops);

    for (_index, tt) in test_tokens.iter().enumerate() {
        let token = lexer.next();

        assert_eq!(token.kind, tt.kind);
        assert_eq!(token.literal, tt.literal);
    }
}

#[test]
fn basic_add() {
    println!("[lexer_tests]: basic add");

    let bytes: String = String::from(
        "\nvar ten = 10\nvar five = 5\n\nvar added = add(five, ten)\n\nfunc add(x, y) {\n    return x + y\n}\n\nif(added > 10) {\n    return true\n} else {\n    return false\n}\n\n10 == 9\n10 != 8\nvar infer_me_daddy := 1",
    );

    let test_tokens: Vec<Token> = vec![
        Token::new(TokenKind::Newline, "\n", 1),
        // var ten = 10
        Token::new(TokenKind::Var, "var", 2),
        Token::new(TokenKind::Ident("ten".to_string()), "ten", 2),
        Token::new(TokenKind::Equals, "=", 2),
        Token::new(TokenKind::Int(10), "10", 2),
        Token::new(TokenKind::Newline, "\n", 2),
        // var five = 5
        Token::new(TokenKind::Var, "var", 3),
        Token::new(TokenKind::Ident("five".to_string()), "five", 3),
        Token::new(TokenKind::Equals, "=", 3),
        Token::new(TokenKind::Int(5), "5", 3),
        Token::new(TokenKind::Newline, "\n", 3),
        Token::new(TokenKind::Newline, "\n", 3),
        // var added = add(five, ten)
        Token::new(TokenKind::Var, "var", 5),
        Token::new(TokenKind::Ident("added".to_string()), "added", 5),
        Token::new(TokenKind::Equals, "=", 5),
        Token::new(TokenKind::Ident("add".to_string()), "add", 5),
        Token::new(TokenKind::LParen, "(", 5),
        Token::new(TokenKind::Ident("five".to_string()), "five", 5),
        Token::new(TokenKind::Comma, ",", 5),
        Token::new(TokenKind::Ident("ten".to_string()), "ten", 5),
        Token::new(TokenKind::RParen, ")", 5),
        Token::new(TokenKind::Newline, "\n", 5),
        Token::new(TokenKind::Newline, "\n", 6),
        // func add(x, y) {
        Token::new(TokenKind::Function, "func", 7),
        Token::new(TokenKind::Ident("add".to_string()), "add", 7),
        Token::new(TokenKind::LParen, "(", 7),
        Token::new(TokenKind::Ident("x".to_string()), "x", 7),
        Token::new(TokenKind::Comma, ",", 7),
        Token::new(TokenKind::Ident("y".to_string()), "y", 7),
        Token::new(TokenKind::RParen, ")", 7),
        Token::new(TokenKind::LBrace, "{", 7),
        Token::new(TokenKind::Newline, "\n", 7),
        // return x + y
        Token::new(TokenKind::Return, "return", 8),
        Token::new(TokenKind::Ident("x".to_string()), "x", 8),
        Token::new(TokenKind::Plus, "+", 8),
        Token::new(TokenKind::Ident("y".to_string()), "y", 8),
        Token::new(TokenKind::Newline, "\n", 8),
        // }
        Token::new(TokenKind::RBrace, "}", 9),
        Token::new(TokenKind::Newline, "\n", 9),
        Token::new(TokenKind::Newline, "\n", 10),
        // if(added > 10) {
        Token::new(TokenKind::If, "if", 11),
        Token::new(TokenKind::LParen, "(", 11),
        Token::new(TokenKind::Ident("added".to_string()), "added", 11),
        Token::new(TokenKind::RAngle, ">", 11),
        Token::new(TokenKind::Int(10), "10", 11),
        Token::new(TokenKind::RParen, ")", 11),
        Token::new(TokenKind::LBrace, "{", 11),
        Token::new(TokenKind::Newline, "\n", 11),
        // return true
        Token::new(TokenKind::Return, "return", 12),
        Token::new(TokenKind::True, "true", 12),
        Token::new(TokenKind::Newline, "\n", 12),
        // } else {
        Token::new(TokenKind::RBrace, "}", 13),
        Token::new(TokenKind::Else, "else", 13),
        Token::new(TokenKind::LBrace, "{", 13),
        Token::new(TokenKind::Newline, "\n", 13),
        // return false
        Token::new(TokenKind::Return, "return", 14),
        Token::new(TokenKind::False, "false", 14),
        Token::new(TokenKind::Newline, "\n", 14),
        // }
        Token::new(TokenKind::RBrace, "}", 15),
        Token::new(TokenKind::Newline, "\n", 15),
        Token::new(TokenKind::Newline, "\n", 16),
        // 10 == 9
        Token::new(TokenKind::Int(10), "10", 17),
        Token::new(TokenKind::EqualsEquals, "==", 17),
        Token::new(TokenKind::Int(9), "9", 17),
        Token::new(TokenKind::Newline, "\n", 17),
        // 10 != 8
        Token::new(TokenKind::Int(10), "10", 18),
        Token::new(TokenKind::BangEquals, "!=", 18),
        Token::new(TokenKind::Int(8), "8", 18),
        Token::new(TokenKind::Newline, "\n", 18),
        // var infer_me_daddy := 1
        Token::new(TokenKind::Var, "var", 19),
        Token::new(TokenKind::Ident("infer_me_daddy".to_string()), "infer_me_daddy", 19),
        Token::new(TokenKind::Infer, ":=", 19),
        Token::new(TokenKind::Int(1), "1", 19),
    ];

    let mut lexer: Lexer = Lexer::new(bytes.as_str());

    for (_index, tt) in test_tokens.iter().enumerate() {
        let token = lexer.next();

        assert_eq!(token.kind, tt.kind);
        assert_eq!(token.literal, tt.literal);
    }
}

#[test]
fn a_whole_program_line_by_line() {
    let tokens = lex_all(
        "\nvar ten = 10\nvar five = 5\n\nvar added = add(five, ten)\n\nfunc add(x, y) {\n    return x + y\n}\n",
    );
    let lines: Vec<usize> = tokens.iter().map(|token| token.line).collect();
    assert_eq!(
        lines,
        vec![
            1, 2, 2, 2, 2, 2, 3, 3, 3, 3, 3, 4, 5, 5, 5, 5, 5, 5, 5, 5, 5, 5, 6, 7, 7, 7, 7, 7,
            7, 7, 7, 7, 8, 8, 8, 8, 8, 9, 9, 10,
        ]
    );
    assert_eq!(tokens.last().unwrap().kind, TokenKind::Eof);
}

#[test]
fn single_character_tokens_on_one_line() {
    assert_tokens(
        "=+-(){},:\n",
        &[
            (TokenKind::Equals, "=", 1),
            (TokenKind::Plus, "+", 1),
            (TokenKind::Minus, "-", 1),
            (TokenKind::LParen, "(", 1),
            (TokenKind::RParen, ")", 1),
            (TokenKind::LBrace, "{", 1),
            (TokenKind::RBrace, "}", 1),
            (TokenKind::Comma, ",", 1),
            (TokenKind::Colon, ":", 1),
            (TokenKind::Newline, "\n", 1),
            (TokenKind::Eof, "", 2),
        ],
    );
}

#[test]
fn empty_source_is_end_of_input() {
    assert_tokens("", &[(TokenKind::Eof, "", 1)]);
}

#[test]
fn end_of_input_repeats() {
    let mut lexer = Lexer::new("x\n");
    assert_eq!(lexer.next().kind, ident("x"));
    assert_eq!(lexer.next().kind, TokenKind::Newline);
    for _ in 0..3 {
        let token = lexer.next();
        assert_eq!(token.kind, TokenKind::Eof);
        assert_eq!(token.literal, "");
        assert_eq!(token.line, 2);
    }
}

#[test]
fn blanks_are_skipped_but_newlines_are_tokens() {
    assert_tokens(
        " \t\r+ \t\n\r -  ",
        &[
            (TokenKind::Plus, "+", 1),
            (TokenKind::Newline, "\n", 1),
            (TokenKind::Minus, "-", 2),
            (TokenKind::Eof, "", 2),
        ],
    );
}

#[test]
fn infer_is_one_token() {
    assert_tokens(":=", &[(TokenKind::Infer, ":=", 1), (TokenKind::Eof, "", 1)]);
}

#[test]
fn colon_leaves_the_next_character() {
    assert_tokens(
        ":x",
        &[(TokenKind::Colon, ":", 1), (ident("x"), "x", 1), (TokenKind::Eof, "", 1)],
    );
    assert_tokens(
        ":+",
        &[(TokenKind::Colon, ":", 1), (TokenKind::Plus, "+", 1), (TokenKind::Eof, "", 1)],
    );
    assert_tokens(
        ": =",
        &[(TokenKind::Colon, ":", 1), (TokenKind::Equals, "=", 1), (TokenKind::Eof, "", 1)],
    );
    assert_tokens(":", &[(TokenKind::Colon, ":", 1), (TokenKind::Eof, "", 1)]);
}

#[test]
fn compound_operators() {
    assert_tokens(
        "== != = ! =!= ===",
        &[
            (TokenKind::EqualsEquals, "==", 1),
            (TokenKind::BangEquals, "!=", 1),
            (TokenKind::Equals, "=", 1),
            (TokenKind::Bang, "!", 1),
            (TokenKind::Equals, "=", 1),
            (TokenKind::BangEquals, "!=", 1),
            (TokenKind::EqualsEquals, "==", 1),
            (TokenKind::Equals, "=", 1),
            (TokenKind::Eof, "", 1),
        ],
    );
}

#[test]
fn lines_count_newlines() {
    assert_tokens(
        "a\n\nb\n c",
        &[
            (ident("a"), "a", 1),
            (TokenKind::Newline, "\n", 1),
            (TokenKind::Newline, "\n", 2),
            (ident("b"), "b", 3),
            (TokenKind::Newline, "\n", 3),
            (ident("c"), "c", 4),
            (TokenKind::Eof, "", 4),
        ],
    );
}

#[test]
fn lines_never_go_back() {
    let tokens = lex_all("var a = 1\n\n@ 12 := x\nfunc\n\n\n!");
    for pair in tokens.windows(2) {
        assert!(pair[0].line <= pair[1].line);
    }
    assert_eq!(tokens.last().unwrap().line, 7);
}

#[test]
fn keywords_are_reserved() {
    assert_tokens(
        "func var void return true false if else",
        &[
            (TokenKind::Function, "func", 1),
            (TokenKind::Var, "var", 1),
            (TokenKind::Void, "void", 1),
            (TokenKind::Return, "return", 1),
            (TokenKind::True, "true", 1),
            (TokenKind::False, "false", 1),
            (TokenKind::If, "if", 1),
            (TokenKind::Else, "else", 1),
            (TokenKind::Eof, "", 1),
        ],
    );
}

#[test]
fn other_words_are_identifiers() {
    assert_tokens(
        "funky x added Var iff _ exit",
        &[
            (ident("funky"), "funky", 1),
            (ident("x"), "x", 1),
            (ident("added"), "added", 1),
            (ident("Var"), "Var", 1),
            (ident("iff"), "iff", 1),
            (ident("_"), "_", 1),
            (ident("exit"), "exit", 1),
            (TokenKind::Eof, "", 1),
        ],
    );
}

#[test]
fn a_word_ends_at_a_digit() {
    assert_tokens(
        "x1 2y",
        &[
            (ident("x"), "x", 1),
            (TokenKind::Int(1), "1", 1),
            (TokenKind::Int(2), "2", 1),
            (ident("y"), "y", 1),
            (TokenKind::Eof, "", 1),
        ],
    );
}

#[test]
fn words_beyond_ascii() {
    assert_tokens(
        "größe = 京",
        &[
            (ident("größe"), "größe", 1),
            (TokenKind::Equals, "=", 1),
            (ident("京"), "京", 1),
            (TokenKind::Eof, "", 1),
        ],
    );
}

#[test]
fn lookup_of_words() {
    assert_eq!(lookup_indentifier("func"), TokenKind::Function);
    assert_eq!(lookup_indentifier("var"), TokenKind::Var);
    assert_eq!(lookup_indentifier("void"), TokenKind::Void);
    assert_eq!(lookup_indentifier("return"), TokenKind::Return);
    assert_eq!(lookup_indentifier("true"), TokenKind::True);
    assert_eq!(lookup_indentifier("false"), TokenKind::False);
    assert_eq!(lookup_indentifier("if"), TokenKind::If);
    assert_eq!(lookup_indentifier("else"), TokenKind::Else);
    assert_eq!(lookup_indentifier("funky"), ident("funky"));
    assert_eq!(lookup_indentifier("fun"), ident("fun"));
    assert_eq!(lookup_indentifier("elsa"), ident("elsa"));
    assert_eq!(lookup_indentifier(""), ident(""));
}

#[test]
fn integers_have_their_decimal_value() {
    assert_tokens(
        "10 0 007 9223372036854775807",
        &[
            (TokenKind::Int(10), "10", 1),
            (TokenKind::Int(0), "0", 1),
            (TokenKind::Int(7), "007", 1),
            (TokenKind::Int(9223372036854775807), "9223372036854775807", 1),
            (TokenKind::Eof, "", 1),
        ],
    );
}

#[test]
fn an_integer_is_a_maximal_run() {
    assert_tokens(
        "12+345",
        &[
            (TokenKind::Int(12), "12", 1),
            (TokenKind::Plus, "+", 1),
            (TokenKind::Int(345), "345", 1),
            (TokenKind::Eof, "", 1),
        ],
    );
}

#[test]
fn an_integer_that_does_not_fit_is_illegal() {
    let mut lexer = Lexer::new("\n9223372036854775808 1");
    assert_eq!(lexer.next().kind, TokenKind::Newline);
    let token = lexer.next();
    assert_eq!(token.kind, TokenKind::Illegal);
    assert_eq!(token.literal, "9223372036854775808");
    assert_eq!(token.line, 2);
    assert_eq!(lexer.errors().len(), 1);
    assert_eq!(lexer.errors()[0].line, 2);
    assert_eq!(lexer.errors()[0].message, "Invalid number");
    assert_eq!(lexer.next().kind, TokenKind::Int(1));
    assert_eq!(lexer.next().kind, TokenKind::Eof);
    assert_eq!(lexer.errors().len(), 1);
}

#[test]
fn numerals_beyond_ascii_are_illegal() {
    let mut lexer = Lexer::new("٣7");
    let token = lexer.next();
    assert_eq!(token.kind, TokenKind::Illegal);
    assert_eq!(token.literal, "٣7");
    assert_eq!(lexer.errors().len(), 1);
    assert_eq!(lexer.errors()[0].message, "Invalid number");
    assert_eq!(lexer.next().kind, TokenKind::Eof);
}

#[test]
fn an_unexpected_character_is_illegal_and_reported() {
    let mut lexer = Lexer::new("a\n@ #b");
    assert_eq!(lexer.next().kind, ident("a"));
    assert_eq!(lexer.next().kind, TokenKind::Newline);
    assert!(lexer.errors().is_empty());
    let token = lexer.next();
    assert_eq!(token.kind, TokenKind::Illegal);
    assert_eq!(token.literal, "@");
    assert_eq!(token.line, 2);
    assert_eq!(lexer.errors().len(), 1);
    let token = lexer.next();
    assert_eq!(token.kind, TokenKind::Illegal);
    assert_eq!(token.literal, "#");
    assert_eq!(lexer.next().kind, ident("b"));
    assert_eq!(lexer.next().kind, TokenKind::Eof);
    let errors = lexer.errors();
    assert_eq!(errors.len(), 2);
    assert_eq!(errors[0].line, 2);
    assert_eq!(errors[0].message, "Unexpected character");
    assert_eq!(errors[1].line, 2);
    assert_eq!(errors[1].message, "Unexpected character");
}

#[test]
fn an_illegal_character_beyond_ascii_is_one_token() {
    assert_tokens(
        "💝x",
        &[(TokenKind::Illegal, "💝", 1), (ident("x"), "x", 1), (TokenKind::Eof, "", 1)],
    );
}

#[test]
fn lexing_twice_gives_the_same() {
    let source = "var ten = 10\n@ := 99999999999999999999 x\n";
    let first = lex_all(source);
    let second = lex_all(source);
    assert_eq!(first.len(), second.len());
    for (a, b) in first.iter().zip(second.iter()) {
        assert_eq!(a.kind, b.kind);
        assert_eq!(a.literal, b.literal);
        assert_eq!(a.line, b.line);
    }
    let mut one = Lexer::new(source);
    let mut two = Lexer::new(source);
    for _ in 0..first.len() {
        one.next();
        two.next();
    }
    assert_eq!(one.errors().len(), 2);
    assert_eq!(one.errors().len(), two.errors().len());
    for (a, b) in one.errors().iter().zip(two.errors().iter()) {
        assert_eq!(a.line, b.line);
        assert_eq!(a.message, b.message);
    }
}

#[test]
fn decimal_parsing() {
    assert_eq!(parse_decimal("10"), Some(10));
    assert_eq!(parse_decimal("0"), Some(0));
    assert_eq!(parse_decimal("000123"), Some(123));
    assert_eq!(parse_decimal("9223372036854775807"), Some(i64::MAX));
    assert_eq!(parse_decimal("9223372036854775808"), None);
    assert_eq!(parse_decimal("99999999999999999999999"), None);
    assert_eq!(parse_decimal(""), None);
    assert_eq!(parse_decimal("12a"), None);
    assert_eq!(parse_decimal("-1"), None);
    assert_eq!(parse_decimal("٣"), None);
}

#[test]
fn a_token_holds_what_it_is_given() {
    let token = Token::new(TokenKind::Int(5), "5", 3);
    assert_eq!(token.kind, TokenKind::Int(5));
    assert_eq!(token.literal, "5");
    assert_eq!(token.line, 3);
}

#[test]
fn kind_names() {
    assert_eq!(TokenKind::Equals.name(), "Equals");
    assert_eq!(ident("x").name(), "Ident");
    assert_eq!(TokenKind::Int(5).name(), "Int");
    assert_eq!(TokenKind::Eof.name(), "Eof");
    assert_eq!(TokenKind::SemiColon.name(), "SemiColon");
}

#[test]
fn an_error_holds_what_it_is_given() {
    let error = IcyError::new(4, "Unexpected character");
    assert_eq!(error.line, 4);
    assert_eq!(error.message, "Unexpected character");
}
