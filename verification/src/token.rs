//! Tokens: their kinds, the keyword table and their printed form.

use vstd::prelude::*;
use vstd::string::StrSliceExecFns;
use vstd::string::StringExecFns;
use crate::decimal::decimal_text;
use crate::decimal::push_decimal;

verus! {

/// The kind of a token, with the text of an identifier or the value of an
/// integer literal.
#[derive(PartialEq, Eq, Debug)]
pub enum TokenType {
    /// A character that starts no token.
    Illegal,
    /// The end of the input.
    Eof,
    /// A word that is no keyword.
    Ident(String),
    /// An integer literal.
    Int(i32),
    /// `=`
    Assign,
    /// `+`
    Plus,
    /// `-`
    Minus,
    /// `!`
    Bang,
    /// `*`
    Asterisk,
    /// `/`
    Slash,
    /// `<`
    LT,
    /// `>`
    GT,
    /// `==`
    Eq,
    /// `!=`
    NotEq,
    /// `,`
    Comma,
    /// `;`
    Semicolon,
    /// `(`
    LParen,
    /// `)`
    RParen,
    /// `{`
    LBrace,
    /// `}`
    RBrace,
    /// The keyword `fn`.
    Functiom,
    /// The keyword `let`.
    Let,
    /// The keyword `true`.
    True,
    /// The keyword `false`.
    False,
    /// The keyword `if`.
    If,
    /// The keyword `else`.
    Else,
    /// The keyword `return`.
    Return,
}

/// What a [`TokenType`] stands for in contracts: the same kinds, with
/// an identifier's text as a sequence of characters and a literal's value as
/// a mathematical integer.
pub enum TokenView {
    Illegal,
    Eof,
    Ident(Seq<char>),
    Int(int),
    Assign,
    Plus,
    Minus,
    Bang,
    Asterisk,
    Slash,
    LT,
    GT,
    Eq,
    NotEq,
    Comma,
    Semicolon,
    LParen,
    RParen,
    LBrace,
    RBrace,
    Functiom,
    Let,
    True,
    False,
    If,
    Else,
    Return,
}

impl View for TokenType {
    type V = TokenView;

    open spec fn view(&self) -> TokenView {
        match self {
            TokenType::Illegal => TokenView::Illegal,
            TokenType::Eof => TokenView::Eof,
            TokenType::Ident(name) => TokenView::Ident(name@),
            TokenType::Int(value) => TokenView::Int(*value as int),
            TokenType::Assign => TokenView::Assign,
            TokenType::Plus => TokenView::Plus,
            TokenType::Minus => TokenView::Minus,
            TokenType::Bang => TokenView::Bang,
            TokenType::Asterisk => TokenView::Asterisk,
            TokenType::Slash => TokenView::Slash,
            TokenType::LT => TokenView::LT,
            TokenType::GT => TokenView::GT,
            TokenType::Eq => TokenView::Eq,
            TokenType::NotEq => TokenView::NotEq,
            TokenType::Comma => TokenView::Comma,
            TokenType::Semicolon => TokenView::Semicolon,
            TokenType::LParen => TokenView::LParen,
            TokenType::RParen => TokenView::RParen,
            TokenType::LBrace => TokenView::LBrace,
            TokenType::RBrace => TokenView::RBrace,
            TokenType::Functiom => TokenView::Functiom,
            TokenType::Let => TokenView::Let,
            TokenType::True => TokenView::True,
            TokenType::False => TokenView::False,
            TokenType::If => TokenView::If,
            TokenType::Else => TokenView::Else,
            TokenType::Return => TokenView::Return,
        }
    }
}

/// A token as the scanner hands it out.
#[derive(PartialEq, Eq, Debug)]
pub struct Token {
    pub token_type: TokenType,
}

impl View for Token {
    type V = TokenView;

    open spec fn view(&self) -> TokenView {
        self.token_type@
    }
}

/// The keyword table: the token for `word` if it is, letter for letter, one
/// of `fn`, `let`, `true`, `false`, `if`, `else` and `return`.
pub open spec fn keyword(word: Seq<char>) -> Option<TokenView> {
    if word == "fn"@ {
        Some(TokenView::Functiom)
    } else if word == "let"@ {
        Some(TokenView::Let)
    } else if word == "true"@ {
        Some(TokenView::True)
    } else if word == "false"@ {
        Some(TokenView::False)
    } else if word == "if"@ {
        Some(TokenView::If)
    } else if word == "else"@ {
        Some(TokenView::Else)
    } else if word == "return"@ {
        Some(TokenView::Return)
    } else {
        None
    }
}

/// The token that a word stands for: its keyword, or else an identifier
/// with the word as its text.
pub open spec fn word_token(word: Seq<char>) -> TokenView {
    match keyword(word) {
        Some(token) => token,
        None => TokenView::Ident(word),
    }
}

impl TokenView {
    /// The printed form of a token: a fixed upper-case name, which for an
    /// identifier or a literal is followed by its text or its decimal
    /// notation in parentheses.
    pub open spec fn render(self) -> Seq<char> {
        match self {
            TokenView::Illegal => "ILLEGAL"@,
            TokenView::Eof => "EOF"@,
            TokenView::Ident(name) => "IDENT("@ + name + ")"@,
            TokenView::Int(value) => "INT("@ + decimal_text(value) + ")"@,
            TokenView::Assign => "ASSIGN"@,
            TokenView::Plus => "PLUS"@,
            TokenView::Minus => "MINUS"@,
            TokenView::Bang => "BANG"@,
            TokenView::Asterisk => "ASTERISK"@,
            TokenView::Slash => "SLASH"@,
            TokenView::LT => "LT"@,
            TokenView::GT => "GT"@,
            TokenView::Eq => "EQ"@,
            TokenView::NotEq => "NOTEQ"@,
            TokenView::Comma => "COMMA"@,
            TokenView::Semicolon => "SEMICOLON"@,
            TokenView::LParen => "L_PAREN"@,
            TokenView::RParen => "R_PAREN"@,
            TokenView::LBrace => "L_BRACE"@,
            TokenView::RBrace => "R_BRACE"@,
            TokenView::Functiom => "FUNCTION"@,
            TokenView::Let => "LET"@,
            TokenView::True => "TRUE"@,
            TokenView::False => "FALSE"@,
            TokenView::If => "IF"@,
            TokenView::Else => "ELSE"@,
            TokenView::Return => "RETURN"@,
        }
    }
}

impl TokenType {
    /// The printed form of the token.
    pub fn to_string(&self) -> (text: String)
        ensures
            text@ == self@.render(),
    {
        match self {
            TokenType::Illegal => "ILLEGAL".to_owned(),
            TokenType::Eof => "EOF".to_owned(),
            TokenType::Ident(name) => {
                let mut text = "IDENT(".to_owned();
                text.append(name.as_str());
                text.append(")");
                text
            },
            TokenType::Int(value) => {
                let mut text = "INT(".to_owned();
                push_decimal(&mut text, *value);
                text.append(")");
                text
            },
            TokenType::Assign => "ASSIGN".to_owned(),
            TokenType::Plus => "PLUS".to_owned(),
            TokenType::Minus => "MINUS".to_owned(),
            TokenType::Bang => "BANG".to_owned(),
            TokenType::Asterisk => "ASTERISK".to_owned(),
            TokenType::Slash => "SLASH".to_owned(),
            TokenType::LT => "LT".to_owned(),
            TokenType::GT => "GT".to_owned(),
            TokenType::Eq => "EQ".to_owned(),
            TokenType::NotEq => "NOTEQ".to_owned(),
            TokenType::Comma => "COMMA".to_owned(),
            TokenType::Semicolon => "SEMICOLON".to_owned(),
            TokenType::LParen => "L_PAREN".to_owned(),
            TokenType::RParen => "R_PAREN".to_owned(),
            TokenType::LBrace => "L_BRACE".to_owned(),
            TokenType::RBrace => "R_BRACE".to_owned(),
            TokenType::Functiom => "FUNCTION".to_owned(),
            TokenType::Let => "LET".to_owned(),
            TokenType::True => "TRUE".to_owned(),
            TokenType::False => "FALSE".to_owned(),
            TokenType::If => "IF".to_owned(),
            TokenType::Else => "ELSE".to_owned(),
            TokenType::Return => "RETURN".to_owned(),
        }
    }
}

/// Tests whether two strings hold the same characters.
fn same_text(a: &str, b: &str) -> (same: bool)
    ensures
        same == (a@ == b@),
{
    let n = a.unicode_len();
    if n != b.unicode_len() {
        return false;
    }
    let mut i: usize = 0;
    while i < n
        invariant
            n == a@.len(),
            n == b@.len(),
            i <= n,
            forall|k: int| 0 <= k < i ==> a@[k] == b@[k],
        decreases n - i,
    {
        if a.get_char(i) != b.get_char(i) {
            return false;
        }
        i += 1;
    }
    proof {
        assert(a@ =~= b@);
    }
    true
}

/// Looks `ident` up in the keyword table.
pub fn lookup_ident(ident: String) -> (result: Option<TokenType>)
    ensures
        match result {
            Some(token) => keyword(ident@) == Some(token@),
            None => keyword(ident@) is None,
        },
{
    let word = ident.as_str();
    if same_text(word, "fn") {
        Some(TokenType::Functiom)
    } else if same_text(word, "let") {
        Some(TokenType::Let)
    } else if same_text(word, "true") {
        Some(TokenType::True)
    } else if same_text(word, "false") {
        Some(TokenType::False)
    } else if same_text(word, "if") {
        Some(TokenType::If)
    } else if same_text(word, "else") {
        Some(TokenType::Else)
    } else if same_text(word, "return") {
        Some(TokenType::Return)
    } else {
        None
    }
}

/// The keyword table is exact: each of the seven keywords has its own
/// token, and no other word has one.
pub proof fn lemma_keyword_table()
    ensures
        keyword("fn"@) == Some(TokenView::Functiom),
        keyword("let"@) == Some(TokenView::Let),
        keyword("true"@) == Some(TokenView::True),
        keyword("false"@) == Some(TokenView::False),
        keyword("if"@) == Some(TokenView::If),
        keyword("else"@) == Some(TokenView::Else),
        keyword("return"@) == Some(TokenView::Return),
        forall|word: Seq<char>|
            word != "fn"@ && word != "let"@ && word != "true"@ && word != "false"@ && word
                != "if"@ && word != "else"@ && word != "return"@ ==> #[trigger] keyword(word)
                is None && word_token(word) == TokenView::Ident(word),
{
    reveal_strlit("fn");
    reveal_strlit("let");
    reveal_strlit("true");
    reveal_strlit("false");
    reveal_strlit("if");
    reveal_strlit("else");
    reveal_strlit("return");
    // The keywords differ in their length or in their first letter.
    assert("fn"@.len() == 2 && "fn"@[0] == 'f');
    assert("let"@.len() == 3);
    assert("true"@.len() == 4 && "true"@[0] == 't');
    assert("false"@.len() == 5);
    assert("if"@.len() == 2 && "if"@[0] == 'i');
    assert("else"@.len() == 4 && "else"@[0] == 'e');
    assert("return"@.len() == 6);
}

} // verus!
