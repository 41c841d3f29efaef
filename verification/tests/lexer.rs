use script_lexer::error::LexError;
use script_lexer::lexer::tokenize;
use script_lexer::lexer::Lexer;
use script_lexer::token::Token;
use script_lexer::token::TokenType;

fn ident(name: &str) -> TokenType {
    TokenType::Ident(name.into())
}

fn kinds(source: &str) -> Vec<TokenType> {
    tokenize(source.into())
        .expect("the source holds no malformed number")
        .into_iter()
        .map(|token| token.token_type)
        .collect()
}

#[test]
fn test_next_token() {
    let input = r#"let five = 5;
let ten = 10;

let add = fn(x, y) {
  x + y
}

let result = add(five, ten);
!-/*5;
5 < 10 > 5;

if (5 < 10) {
  return true;
} else {
  return false;
}

10 == 10;
10 != 9;
        "#;

    let mut lex = Lexer::new(input.into());

    let tests = vec![
        TokenType::Let,
        TokenType::Ident("five".into()),
        TokenType::Assign,
        TokenType::Int(5),
        TokenType::Semicolon,
        TokenType::Let,
        TokenType::Ident("ten".into()),
        TokenType::Assign,
        TokenType::Int(10),
        TokenType::Semicolon,
        TokenType::Let,
        TokenType::Ident("add".into()),
        TokenType::Assign,
        TokenType::Functiom,
        TokenType::LParen,
        TokenType::Ident("x".into()),
        TokenType::Comma,
        TokenType::Ident("y".into()),
        TokenType::RParen,
        TokenType::LBrace,
        TokenType::Ident("x".into()),
        TokenType::Plus,
        TokenType::Ident("y".into()),
        TokenType::RBrace,
        TokenType::Let,
        TokenType::Ident("result".into()),
        TokenType::Assign,
        TokenType::Ident("add".into()),
        TokenType::LParen,
        TokenType::Ident("five".into()),
        TokenType::Comma,
        TokenType::Ident("ten".into()),
        TokenType::RParen,
        TokenType::Semicolon,
        TokenType::Bang,
        TokenType::Minus,
        TokenType::Slash,
        TokenType::Asterisk,
        TokenType::Int(5),
        TokenType::Semicolon,
        TokenType::Int(5),
        TokenType::LT,
        TokenType::Int(10),
        TokenType::GT,
        TokenType::Int(5),
        TokenType::Semicolon,
        TokenType::If,
        TokenType::LParen,
        TokenType::Int(5),
        TokenType::LT,
        TokenType::Int(10),
        TokenType::RParen,
        TokenType::LBrace,
        TokenType::Return,
        TokenType::True,
        TokenType::Semicolon,
        TokenType::RBrace,
        TokenType::Else,
        TokenType::LBrace,
        TokenType::Return,
        TokenType::False,
        TokenType::Semicolon,
        TokenType::RBrace,
        TokenType::Int(10),
        TokenType::Eq,
        TokenType::Int(10),
        TokenType::Semicolon,
        TokenType::Int(10),
        TokenType::NotEq,
        TokenType::Int(9),
        TokenType::Semicolon,
        TokenType::Eof,
    ];

    for expected in tests {
        let tok = lex.next_token().expect("the input holds no malformed number");

        assert_eq!(
            tok.token_type,
            expected,
            "mismatch in token type. expected: {}, got: {}",
            expected.to_string(),
            tok.token_type.to_string()
        );
    }
}

#[test]
fn end_of_input_repeats() {
    let mut lex = Lexer::new("x".into());
    assert_eq!(lex.next_token(), Ok(Token { token_type: ident("x") }));
    for _ in 0..5 {
        assert_eq!(lex.next_token(), Ok(Token { token_type: TokenType::Eof }));
    }
}

#[test]
fn empty_input_is_end_of_input() {
    let mut lex = Lexer::new(String::new());
    assert_eq!(lex.next_token(), Ok(Token { token_type: TokenType::Eof }));
    assert_eq!(lex.next_token(), Ok(Token { token_type: TokenType::Eof }));
    assert_eq!(kinds(""), vec![TokenType::Eof]);
}

#[test]
fn blanks_alone_hold_no_token() {
    assert_eq!(kinds(" "), vec![TokenType::Eof]);
    assert_eq!(kinds(" \t\r\n \n\n\t"), vec![TokenType::Eof]);
    let mut lex = Lexer::new("   \t ".into());
    assert_eq!(lex.next_token(), Ok(Token { token_type: TokenType::Eof }));
    assert_eq!(lex.next_token(), Ok(Token { token_type: TokenType::Eof }));
}

#[test]
fn blanks_around_tokens_are_skipped() {
    let plain = kinds("a=1;");
    assert_eq!(
        plain,
        vec![
            ident("a"),
            TokenType::Assign,
            TokenType::Int(1),
            TokenType::Semicolon,
            TokenType::Eof
        ]
    );
    assert_eq!(kinds("  a\t=\r\n1 ;\n"), plain);
    assert_eq!(kinds("\n\n\na = 1;"), plain);
}

#[test]
fn only_four_characters_are_blanks() {
    assert_eq!(kinds("\u{c}"), vec![TokenType::Illegal, TokenType::Eof]);
    assert_eq!(kinds("\u{b}"), vec![TokenType::Illegal, TokenType::Eof]);
    assert_eq!(
        kinds("a\u{a0}b"),
        vec![ident("a"), TokenType::Illegal, ident("b"), TokenType::Eof]
    );
}

#[test]
fn two_character_operators() {
    assert_eq!(kinds("=="), vec![TokenType::Eq, TokenType::Eof]);
    assert_eq!(kinds("!="), vec![TokenType::NotEq, TokenType::Eof]);
    assert_eq!(kinds("="), vec![TokenType::Assign, TokenType::Eof]);
    assert_eq!(kinds("!"), vec![TokenType::Bang, TokenType::Eof]);
}

#[test]
fn operators_pair_from_the_left() {
    assert_eq!(kinds("==="), vec![TokenType::Eq, TokenType::Assign, TokenType::Eof]);
    assert_eq!(kinds("!=="), vec![TokenType::NotEq, TokenType::Assign, TokenType::Eof]);
    assert_eq!(kinds("=!"), vec![TokenType::Assign, TokenType::Bang, TokenType::Eof]);
    assert_eq!(kinds("= ="), vec![TokenType::Assign, TokenType::Assign, TokenType::Eof]);
    assert_eq!(
        kinds("!!="),
        vec![TokenType::Bang, TokenType::NotEq, TokenType::Eof]
    );
    assert_eq!(
        kinds("<=>"),
        vec![TokenType::LT, TokenType::Assign, TokenType::GT, TokenType::Eof]
    );
}

#[test]
fn single_character_symbols() {
    assert_eq!(
        kinds(";(){},+-/*<>"),
        vec![
            TokenType::Semicolon,
            TokenType::LParen,
            TokenType::RParen,
            TokenType::LBrace,
            TokenType::RBrace,
            TokenType::Comma,
            TokenType::Plus,
            TokenType::Minus,
            TokenType::Slash,
            TokenType::Asterisk,
            TokenType::LT,
            TokenType::GT,
            TokenType::Eof
        ]
    );
}

#[test]
fn keywords_are_exact() {
    assert_eq!(
        kinds("fn let true false if else return"),
        vec![
            TokenType::Functiom,
            TokenType::Let,
            TokenType::True,
            TokenType::False,
            TokenType::If,
            TokenType::Else,
            TokenType::Return,
            TokenType::Eof
        ]
    );
    assert_eq!(
        kinds("fnx Let result"),
        vec![ident("fnx"), ident("Let"), ident("result"), TokenType::Eof]
    );
    assert_eq!(
        kinds("f lets TRUE iff el returns"),
        vec![
            ident("f"),
            ident("lets"),
            ident("TRUE"),
            ident("iff"),
            ident("el"),
            ident("returns"),
            TokenType::Eof
        ]
    );
}

#[test]
fn numbers_are_parsed() {
    assert_eq!(kinds("0"), vec![TokenType::Int(0), TokenType::Eof]);
    assert_eq!(kinds("12345"), vec![TokenType::Int(12345), TokenType::Eof]);
    assert_eq!(kinds("007"), vec![TokenType::Int(7), TokenType::Eof]);
    assert_eq!(kinds("2147483647"), vec![TokenType::Int(2147483647), TokenType::Eof]);
    assert_eq!(
        kinds("0000000002147483647"),
        vec![TokenType::Int(2147483647), TokenType::Eof]
    );
}

#[test]
fn number_ends_before_a_letter() {
    assert_eq!(kinds("5x"), vec![TokenType::Int(5), ident("x"), TokenType::Eof]);
    assert_eq!(kinds("5if"), vec![TokenType::Int(5), TokenType::If, TokenType::Eof]);
    assert_eq!(kinds("x5"), vec![ident("x"), TokenType::Int(5), TokenType::Eof]);
    assert_eq!(
        kinds("-5"),
        vec![TokenType::Minus, TokenType::Int(5), TokenType::Eof]
    );
}

#[test]
fn underscore_continues_a_word_but_starts_none() {
    assert_eq!(kinds("foo_bar"), vec![ident("foo_bar"), TokenType::Eof]);
    assert_eq!(kinds("a_"), vec![ident("a_"), TokenType::Eof]);
    assert_eq!(kinds("let_"), vec![ident("let_"), TokenType::Eof]);
    assert_eq!(kinds("_"), vec![TokenType::Illegal, TokenType::Eof]);
    assert_eq!(
        kinds("_foo"),
        vec![TokenType::Illegal, ident("foo"), TokenType::Eof]
    );
    assert_eq!(
        kinds("__x"),
        vec![TokenType::Illegal, TokenType::Illegal, ident("x"), TokenType::Eof]
    );
}

#[test]
fn unknown_characters_are_illegal() {
    assert_eq!(kinds("@"), vec![TokenType::Illegal, TokenType::Eof]);
    assert_eq!(
        kinds("#$"),
        vec![TokenType::Illegal, TokenType::Illegal, TokenType::Eof]
    );
    assert_eq!(
        kinds("a@b"),
        vec![ident("a"), TokenType::Illegal, ident("b"), TokenType::Eof]
    );
}

#[test]
fn scenario_let_statement() {
    assert_eq!(
        kinds("let five = 5;"),
        vec![
            TokenType::Let,
            ident("five"),
            TokenType::Assign,
            TokenType::Int(5),
            TokenType::Semicolon,
            TokenType::Eof
        ]
    );
}

#[test]
fn scenario_operators() {
    assert_eq!(
        kinds("!-/*5;"),
        vec![
            TokenType::Bang,
            TokenType::Minus,
            TokenType::Slash,
            TokenType::Asterisk,
            TokenType::Int(5),
            TokenType::Semicolon,
            TokenType::Eof
        ]
    );
}

#[test]
fn scenario_comparisons() {
    assert_eq!(
        kinds("5 < 10 > 5;"),
        vec![
            TokenType::Int(5),
            TokenType::LT,
            TokenType::Int(10),
            TokenType::GT,
            TokenType::Int(5),
            TokenType::Semicolon,
            TokenType::Eof
        ]
    );
}

#[test]
fn scenario_equalities() {
    assert_eq!(
        kinds("10 == 10; 10 != 9;"),
        vec![
            TokenType::Int(10),
            TokenType::Eq,
            TokenType::Int(10),
            TokenType::Semicolon,
            TokenType::Int(10),
            TokenType::NotEq,
            TokenType::Int(9),
            TokenType::Semicolon,
            TokenType::Eof
        ]
    );
}

#[test]
fn scenario_unknown_symbol() {
    let mut lex = Lexer::new("@".into());
    assert_eq!(lex.next_token(), Ok(Token { token_type: TokenType::Illegal }));
    assert_eq!(lex.next_token(), Ok(Token { token_type: TokenType::Eof }));
}

#[test]
fn literal_out_of_range_fails() {
    let mut lex = Lexer::new("2147483648".into());
    assert_eq!(lex.next_token(), Err(LexError::IntegerOverflow));
    assert_eq!(lex.next_token(), Ok(Token { token_type: TokenType::Eof }));

    assert_eq!(tokenize("4294967297".into()), Err(LexError::IntegerOverflow));
    assert_eq!(
        tokenize("99999999999999999999999999999999999999999".into()),
        Err(LexError::IntegerOverflow)
    );
    assert_eq!(tokenize("let x = 3000000000;".into()), Err(LexError::IntegerOverflow));
}

#[test]
fn scanning_goes_on_behind_a_failure() {
    let mut lex = Lexer::new("a = 99999999999 + 1;".into());
    assert_eq!(lex.next_token(), Ok(Token { token_type: ident("a") }));
    assert_eq!(lex.next_token(), Ok(Token { token_type: TokenType::Assign }));
    assert_eq!(lex.next_token(), Err(LexError::IntegerOverflow));
    assert_eq!(lex.next_token(), Ok(Token { token_type: TokenType::Plus }));
    assert_eq!(lex.next_token(), Ok(Token { token_type: TokenType::Int(1) }));
    assert_eq!(lex.next_token(), Ok(Token { token_type: TokenType::Semicolon }));
    assert_eq!(lex.next_token(), Ok(Token { token_type: TokenType::Eof }));
}

#[test]
fn numeric_character_that_is_no_digit_fails() {
    // U+0663 ARABIC-INDIC DIGIT THREE and U+00B2 SUPERSCRIPT TWO are numeric.
    let mut lex = Lexer::new("\u{663}".into());
    assert_eq!(lex.next_token(), Err(LexError::InvalidDigit));
    assert_eq!(lex.next_token(), Ok(Token { token_type: TokenType::Eof }));

    let mut lex = Lexer::new("12\u{b2};".into());
    assert_eq!(lex.next_token(), Err(LexError::InvalidDigit));
    assert_eq!(lex.next_token(), Ok(Token { token_type: TokenType::Semicolon }));

    assert_eq!(
        tokenize("99999999999\u{b2}".into()),
        Err(LexError::InvalidDigit)
    );
}

#[test]
fn words_may_hold_any_alphabetic_character() {
    assert_eq!(
        kinds("\u{e9}t\u{e9} = \u{4eac};"),
        vec![
            ident("\u{e9}t\u{e9}"),
            TokenType::Assign,
            ident("\u{4eac}"),
            TokenType::Semicolon,
            TokenType::Eof
        ]
    );
}

#[test]
fn cursor_counts_characters_not_bytes() {
    assert_eq!(
        kinds("\u{e9}==1"),
        vec![ident("\u{e9}"), TokenType::Eq, TokenType::Int(1), TokenType::Eof]
    );
    assert_eq!(
        kinds("\u{1f49d}!=\u{1f49d}"),
        vec![TokenType::Illegal, TokenType::NotEq, TokenType::Illegal, TokenType::Eof]
    );
}

#[test]
fn tokenize_ends_with_one_end_of_input() {
    let tokens = tokenize("a b c".into()).expect("the source holds no number");
    assert_eq!(tokens.len(), 4);
    assert_eq!(tokens[3].token_type, TokenType::Eof);
    assert!(tokens[..3].iter().all(|token| token.token_type != TokenType::Eof));
}

#[test]
fn peek_reads_the_character_behind_the_cursor() {
    let mut lex = Lexer::new("ab".into());
    assert_eq!(lex.peek_char(), Some('b'));
    assert_eq!(lex.peek_char(), Some('b'));
    lex.read_char();
    assert_eq!(lex.peek_char(), None);
    lex.read_char();
    assert_eq!(lex.peek_char(), None);
    assert_eq!(Lexer::new(String::new()).peek_char(), None);
    assert_eq!(Lexer::new("a".into()).peek_char(), None);
}

#[test]
fn read_char_moves_one_character_on() {
    let mut lex = Lexer::new("a;b".into());
    lex.read_char();
    assert_eq!(lex.next_token(), Ok(Token { token_type: TokenType::Semicolon }));
    lex.read_char();
    assert_eq!(lex.next_token(), Ok(Token { token_type: TokenType::Eof }));
}

#[test]
fn read_char_goes_on_behind_the_end() {
    let mut lex = Lexer::new("x".into());
    for _ in 0..10 {
        lex.read_char();
    }
    assert_eq!(lex.peek_char(), None);
    assert_eq!(lex.next_token(), Ok(Token { token_type: TokenType::Eof }));
    assert_eq!(lex.read_identifier(), "");
    assert_eq!(lex.read_number(), Err(LexError::Empty));
    lex.skip_whitespace();
    assert_eq!(lex.next_token(), Ok(Token { token_type: TokenType::Eof }));
}

#[test]
fn skip_whitespace_stops_at_the_first_token() {
    let mut lex = Lexer::new(" \t\r\n x  y".into());
    lex.skip_whitespace();
    assert_eq!(lex.peek_char(), Some(' '));
    lex.skip_whitespace();
    assert_eq!(lex.read_identifier(), "x");
    lex.skip_whitespace();
    assert_eq!(lex.peek_char(), None);
    assert_eq!(lex.read_identifier(), "y");
    lex.skip_whitespace();
    assert_eq!(lex.next_token(), Ok(Token { token_type: TokenType::Eof }));
}

#[test]
fn read_identifier_takes_the_whole_word() {
    let mut lex = Lexer::new("foo_bar1 baz".into());
    assert_eq!(lex.read_identifier(), "foo_bar");
    assert_eq!(lex.read_identifier(), "");
    assert_eq!(lex.read_number(), Ok(1));
    assert_eq!(lex.read_identifier(), "");
    lex.skip_whitespace();
    assert_eq!(lex.read_identifier(), "baz");
    assert_eq!(lex.read_identifier(), "");

    let mut lex = Lexer::new("_x".into());
    assert_eq!(lex.read_identifier(), "_x");
}

#[test]
fn read_number_takes_the_whole_run() {
    let mut lex = Lexer::new("123abc".into());
    assert_eq!(lex.read_number(), Ok(123));
    assert_eq!(lex.read_number(), Err(LexError::Empty));
    assert_eq!(lex.read_identifier(), "abc");

    let mut lex = Lexer::new("2147483648;12\u{b2}3,7".into());
    assert_eq!(lex.read_number(), Err(LexError::IntegerOverflow));
    assert_eq!(lex.next_token(), Ok(Token { token_type: TokenType::Semicolon }));
    assert_eq!(lex.read_number(), Err(LexError::InvalidDigit));
    assert_eq!(lex.next_token(), Ok(Token { token_type: TokenType::Comma }));
    assert_eq!(lex.read_number(), Ok(7));
}
