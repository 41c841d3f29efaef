//! The scanner: a cursor over a text that hands out one token per call.

use vstd::prelude::*;
use vstd::slice::slice_subrange;
use crate::chars::is_maximal_run;
use crate::chars::lemma_maximal_run_is_run_len;
use crate::chars::lemma_run_len_is_maximal;
use crate::chars::run_len;
use crate::chars::CharClass;
use crate::decimal::parse_decimal;
use crate::decimal::parse_literal;
use crate::error::LexError;
use crate::scan::lemma_scan_consumes;
use crate::scan::lemma_scan_is_never_empty;
use crate::scan::lemma_tokens_end_with_eof;
use crate::scan::scan;
use crate::scan::skip_blanks;
use crate::scan::tokens_of;
use crate::token::lookup_ident;
use crate::token::Token;
use crate::token::TokenType;
use crate::token::TokenView;

verus! {

/// A scanner over a text.
///
/// The text is held as a sequence of characters, so that the character
/// under the cursor and the one behind it are read in constant time. The
/// view of a scanner is the text that is left to scan: the characters from
/// the cursor on.
pub struct Lexer {
    input: Vec<char>,
    position: usize,
    read_position: usize,
    ch: Option<char>,
}

impl View for Lexer {
    type V = Seq<char>;

    open spec fn view(&self) -> Seq<char> {
        self.source().skip(self.cursor() as int)
    }
}

/// The character of `text` at `index`, if there is one.
pub open spec fn char_at(text: Seq<char>, index: nat) -> Option<char> {
    if index < text.len() {
        Some(text[index as int])
    } else {
        None
    }
}

/// Whether a call of `next_token` has met the end of the text.
pub open spec fn is_eof(result: Result<Token, LexError>) -> bool {
    result matches Ok(token) && token@ == TokenView::Eof
}

/// The characters of `s`, in order.
fn code_points(s: &str) -> (chars: Vec<char>)
    ensures
        chars@ == s@,
{
    broadcast use vstd::string::group_string_axioms;

    let mut chars: Vec<char> = Vec::new();
    for c in it: s.chars()
        invariant
            chars@ == it.seq().take(it.index() as int),
            it.seq() == s@,
    {
        chars.push(c);
    }
    chars
}

impl Lexer {
    /// The whole text that the scanner was made for.
    pub closed spec fn source(&self) -> Seq<char> {
        self.input@
    }

    /// The index of the character under the cursor. Every advance moves it
    /// on by one, also behind the end of the text.
    pub closed spec fn position(&self) -> nat {
        self.position as nat
    }

    /// The index of the character that the next advance loads.
    pub closed spec fn read_position(&self) -> nat {
        self.read_position as nat
    }

    /// The character under the cursor, if there is one.
    pub closed spec fn current(&self) -> Option<char> {
        self.ch
    }

    /// Where in the text the cursor stands: at its position, or at the end
    /// of the text once the position is behind it.
    pub open spec fn cursor(&self) -> nat {
        if self.position() <= self.source().len() {
            self.position()
        } else {
            self.source().len()
        }
    }

    /// The invariant of a scanner: the read position is one ahead of the
    /// position, and the current character is the one at the position, so
    /// that there is none exactly when the position is behind the text. The
    /// two positions count on behind the end of the text, and rest only at
    /// the greatest index that the machine has.
    pub open spec fn wf(&self) -> bool {
        &&& self.position() <= usize::MAX
        &&& self.position() < usize::MAX ==> self.read_position() == self.position() + 1
        &&& self.position() == usize::MAX ==> self.read_position() == self.position()
        &&& self.current() == char_at(self.source(), self.position())
    }

    /// Makes a scanner with its cursor on the first character of `input`.
    pub fn new(input: String) -> (lexer: Lexer)
        ensures
            lexer.wf(),
            lexer.source() == input@,
            lexer.position() == 0,
            lexer.read_position() == 1,
            lexer.current() == char_at(input@, 0),
            lexer@ == input@,
    {
        let mut lexer = Lexer {
            input: code_points(input.as_str()),
            position: 0,
            read_position: 0,
            ch: None,
        };
        lexer.read_char();
        lexer
    }

    /// Advances the cursor: the position becomes the read position, the
    /// character there is loaded, if there is one, and the read position
    /// moves one on. Behind the end of the text the positions count on and
    /// there is no character; the read position stops only at `usize::MAX`.
    pub fn read_char(&mut self)
        ensures
            final(self).source() == old(self).source(),
            final(self).position() == old(self).read_position(),
            final(self).read_position() == if old(self).read_position() < usize::MAX {
                old(self).read_position() + 1
            } else {
                old(self).read_position()
            },
            final(self).current() == char_at(old(self).source(), old(self).read_position()),
            final(self).wf(),
            old(self).wf() ==> final(self)@ == if old(self)@.len() > 0 {
                old(self)@.drop_first()
            } else {
                old(self)@
            },
    {
        if self.read_position >= self.input.len() {
            self.ch = None;
        } else {
            self.ch = Some(self.input[self.read_position]);
        }
        self.position = self.read_position;
        if self.read_position < usize::MAX {
            self.read_position += 1;
        }
    }

    /// The character at the read position, if there is one: the one behind
    /// the character under the cursor.
    pub fn peek_char(&self) -> (next: Option<char>)
        ensures
            next == char_at(self.source(), self.read_position()),
            self.wf() ==> next == if self@.len() > 1 {
                Some(self@[1])
            } else {
                None::<char>
            },
    {
        if self.read_position >= self.input.len() {
            None
        } else {
            Some(self.input[self.read_position])
        }
    }

    /// The index in the text at which the cursor stands.
    fn index(&self) -> (i: usize)
        ensures
            i == self.cursor(),
    {
        if self.position <= self.input.len() {
            self.position
        } else {
            self.input.len()
        }
    }

    /// Whether the character under the cursor belongs to `class`.
    fn at(&self, class: CharClass) -> (within: bool)
        requires
            self.wf(),
        ensures
            within == (self@.len() > 0 && class.contains(self@[0])),
    {
        match self.ch {
            Some(c) => class.has(c),
            None => false,
        }
    }

    /// Advances the cursor over the maximal run of `class` that starts
    /// under it.
    fn read_run(&mut self, class: CharClass)
        requires
            old(self).wf(),
        ensures
            final(self).wf(),
            final(self).source() == old(self).source(),
            final(self).position() == old(self).position() + run_len(old(self)@, class),
            final(self)@ == old(self)@.skip(run_len(old(self)@, class) as int),
    {
        let ghost start = self.position();
        let ghost text = self@;
        while self.at(class)
            invariant
                self.wf(),
                self.source() == old(self).source(),
                start == old(self).position(),
                text == old(self)@,
                start <= self.position() <= start + text.len(),
                self@ == text.skip(self.position() - start),
                forall|i: int|
                    0 <= i < self.position() - start ==> class.contains(#[trigger] text[i]),
            decreases self@.len(),
        {
            self.read_char();
        }
        proof {
            lemma_maximal_run_is_run_len(text, class, (self.position() - start) as nat);
        }
    }

    /// Advances the cursor over the blanks that start under it: to the
    /// first character from the cursor on that is no blank, or behind the
    /// text if there is none.
    pub fn skip_whitespace(&mut self)
        requires
            old(self).wf(),
        ensures
            final(self).wf(),
            final(self).source() == old(self).source(),
            final(self).position() == old(self).position() + run_len(
                old(self)@,
                CharClass::Whitespace,
            ),
            is_maximal_run(
                old(self)@,
                CharClass::Whitespace,
                (final(self).position() - old(self).position()) as nat,
            ),
            final(self)@ == skip_blanks(old(self)@),
    {
        proof {
            lemma_run_len_is_maximal(self@, CharClass::Whitespace);
        }
        self.read_run(CharClass::Whitespace);
    }

    /// Reads the word that starts under the cursor: the maximal run of word
    /// characters there, over which the cursor advances.
    pub fn read_identifier(&mut self) -> (word: String)
        requires
            old(self).wf(),
        ensures
            final(self).wf(),
            final(self).source() == old(self).source(),
            final(self).position() == old(self).position() + run_len(
                old(self)@,
                CharClass::Word,
            ),
            word@ == old(self)@.take(run_len(old(self)@, CharClass::Word) as int),
            final(self)@ == old(self)@.skip(run_len(old(self)@, CharClass::Word) as int),
    {
        proof {
            lemma_run_len_is_maximal(self@, CharClass::Word);
        }
        let start_pos = self.index();
        self.read_run(CharClass::Word);
        let end_pos = self.index();
        let mut word = String::new();
        let mut i = start_pos;
        while i < end_pos
            invariant
                start_pos <= i <= end_pos <= self.input.len(),
                word@ == self.input@.subrange(start_pos as int, i as int),
            decreases end_pos - i,
        {
            word.push(self.input[i]);
            i += 1;
        }
        word
    }

    /// Reads the number that starts under the cursor: the maximal run of
    /// numeric characters there, read as an integer literal. The cursor
    /// advances over the whole run, also where the run is no literal.
    pub fn read_number(&mut self) -> (number: Result<i32, LexError>)
        requires
            old(self).wf(),
        ensures
            final(self).wf(),
            final(self).source() == old(self).source(),
            final(self).position() == old(self).position() + run_len(
                old(self)@,
                CharClass::Numeric,
            ),
            final(self)@ == old(self)@.skip(run_len(old(self)@, CharClass::Numeric) as int),
            match number {
                Ok(value) => parse_literal(
                    old(self)@.take(run_len(old(self)@, CharClass::Numeric) as int),
                ) == Ok::<int, LexError>(value as int),
                Err(e) => parse_literal(
                    old(self)@.take(run_len(old(self)@, CharClass::Numeric) as int),
                ) == Err::<int, LexError>(e),
            },
    {
        proof {
            lemma_run_len_is_maximal(self@, CharClass::Numeric);
        }
        let start_pos = self.index();
        self.read_run(CharClass::Numeric);
        let digits = slice_subrange(self.input.as_slice(), start_pos, self.index());
        proof {
            assert(digits@ =~= old(self)@.take(self.cursor() - start_pos));
        }
        parse_decimal(digits)
    }

    /// Reads the next token: skips the blanks under the cursor and reads one
    /// token from what follows, as [`scan`] says. At the end of the text the
    /// token is `Eof`, on this call and on every later one.
    ///
    /// The call fails where a run of numeric characters is no integer
    /// literal: where it holds a character that is no decimal digit, or its
    /// value is too large. The cursor is then behind that run.
    pub fn next_token(&mut self) -> (result: Result<Token, LexError>)
        requires
            old(self).wf(),
        ensures
            final(self).wf(),
            final(self).source() == old(self).source(),
            final(self)@ == scan(old(self)@).rest,
            match result {
                Ok(token) => scan(old(self)@).token == Ok::<TokenView, LexError>(token@),
                Err(e) => scan(old(self)@).token == Err::<TokenView, LexError>(e),
            },
            result != Err::<Token, LexError>(LexError::Empty),
            old(self)@.len() == 0 ==> is_eof(result),
            is_eof(result) ==> final(self)@.len() == 0,
            !is_eof(result) ==> final(self)@.len() < old(self)@.len(),
    {
        proof {
            lemma_scan_consumes(self@);
            lemma_scan_is_never_empty(self@);
        }
        self.skip_whitespace();

        let validated_tok = match self.ch {
            None => TokenType::Eof,
            Some(ch) => match ch {
                '=' => {
                    if self.peek_char() == Some('=') {
                        self.read_char();
                        TokenType::Eq
                    } else {
                        TokenType::Assign
                    }
                },
                ';' => TokenType::Semicolon,
                '(' => TokenType::LParen,
                ')' => TokenType::RParen,
                '{' => TokenType::LBrace,
                '}' => TokenType::RBrace,
                ',' => TokenType::Comma,
                '+' => TokenType::Plus,
                '-' => TokenType::Minus,
                '!' => {
                    if self.peek_char() == Some('=') {
                        self.read_char();
                        TokenType::NotEq
                    } else {
                        TokenType::Bang
                    }
                },
                '/' => TokenType::Slash,
                '*' => TokenType::Asterisk,
                '<' => TokenType::LT,
                '>' => TokenType::GT,
                _ => {
                    if ch.is_alphabetic() {
                        let literal = self.read_identifier();
                        let matching_keyword = lookup_ident(literal.clone());
                        return Ok(
                            Token {
                                token_type: match matching_keyword {
                                    Some(keyword) => keyword,
                                    None => TokenType::Ident(literal),
                                },
                            },
                        );
                    } else if ch.is_numeric() {
                        return match self.read_number() {
                            Ok(number) => Ok(Token { token_type: TokenType::Int(number) }),
                            Err(e) => Err(e),
                        };
                    } else {
                        TokenType::Illegal
                    }
                },
            },
        };

        self.read_char();
        Ok(Token { token_type: validated_tok })
    }
}

/// The views of a sequence of tokens.
pub open spec fn token_views(tokens: Seq<Token>) -> Seq<TokenView> {
    Seq::new(tokens.len(), |i: int| tokens[i]@)
}

/// Scans `source` to its end: the tokens that a scanner over it hands out,
/// up to and with `Eof`. Fails with the first failure of a scan.
pub fn tokenize(source: String) -> (result: Result<Vec<Token>, LexError>)
    ensures
        match result {
            Ok(tokens) => {
                &&& tokens_of(source@) == Ok::<Seq<TokenView>, LexError>(token_views(tokens@))
                &&& tokens.len() > 0
                &&& tokens@.last()@ == TokenView::Eof
                &&& forall|i: int| 0 <= i < tokens.len() - 1 ==> (#[trigger] tokens[i])@ != TokenView::Eof
            },
            Err(e) => tokens_of(source@) == Err::<Seq<TokenView>, LexError>(e),
        },
{
    let mut lexer = Lexer::new(source);
    let mut tokens: Vec<Token> = Vec::new();
    loop
        invariant
            lexer.wf(),
            tokens_of(source@) == match tokens_of(lexer@) {
                Ok(more) => Ok::<Seq<TokenView>, LexError>(token_views(tokens@) + more),
                Err(e) => Err(e),
            },
        decreases lexer@.len(),
    {
        let ghost before = token_views(tokens@);
        match lexer.next_token() {
            Err(e) => {
                return Err(e);
            },
            Ok(token) => {
                let at_end = match token.token_type {
                    TokenType::Eof => true,
                    _ => false,
                };
                tokens.push(token);
                proof {
                    assert(token_views(tokens@) =~= before + seq![token@]);
                }
                if at_end {
                    proof {
                        lemma_tokens_end_with_eof(source@);
                        let views = token_views(tokens@);
                        assert forall|i: int| 0 <= i < tokens.len() - 1 implies (
                        #[trigger] tokens[i])@ != TokenView::Eof by {
                            assert(views.drop_last()[i] == tokens[i]@);
                        }
                    }
                    return Ok(tokens);
                }
                proof {
                    let more = tokens_of(lexer@);
                    if more is Ok {
                        assert(before + (seq![token@] + more->Ok_0) =~= token_views(tokens@)
                            + more->Ok_0);
                    }
                }
            },
        }
    }
}

} // verus!
