//! The grammar of tokens, as functions on the text that is left to scan.
//!
//! A scan skips the blanks at the head of the text and reads one token from
//! what follows. Everything the scanner does is stated against [`scan`], and
//! everything a whole text yields against [`scan_all`] and [`tokens_of`].

use vstd::prelude::*;
use crate::chars::is_whitespace;
use crate::chars::lemma_maximal_run_is_run_len;
use crate::chars::lemma_run_len_is_maximal;
use crate::chars::run_len;
use crate::chars::CharClass;
use crate::decimal::parse_literal;
use crate::error::LexError;
use crate::std_specs::char_is_alphabetic;
use crate::std_specs::char_is_numeric;
use crate::token::keyword;
use crate::token::word_token;
use crate::token::TokenView;

verus! {

/// The outcome of one scan: the token read, or why none could be read, and
/// the text left behind it.
pub struct Scan {
    pub token: Result<TokenView, LexError>,
    pub rest: Seq<char>,
}

/// The token for a character that is a token by itself.
pub open spec fn symbol(c: char) -> Option<TokenView> {
    if c == '=' {
        Some(TokenView::Assign)
    } else if c == ';' {
        Some(TokenView::Semicolon)
    } else if c == '(' {
        Some(TokenView::LParen)
    } else if c == ')' {
        Some(TokenView::RParen)
    } else if c == '{' {
        Some(TokenView::LBrace)
    } else if c == '}' {
        Some(TokenView::RBrace)
    } else if c == ',' {
        Some(TokenView::Comma)
    } else if c == '+' {
        Some(TokenView::Plus)
    } else if c == '-' {
        Some(TokenView::Minus)
    } else if c == '!' {
        Some(TokenView::Bang)
    } else if c == '/' {
        Some(TokenView::Slash)
    } else if c == '*' {
        Some(TokenView::Asterisk)
    } else if c == '<' {
        Some(TokenView::LT)
    } else if c == '>' {
        Some(TokenView::GT)
    } else {
        None
    }
}

/// The token that a run of numeric characters stands for, or the reason why
/// it stands for none.
pub open spec fn literal_token(digits: Seq<char>) -> Result<TokenView, LexError> {
    match parse_literal(digits) {
        Ok(value) => Ok(TokenView::Int(value)),
        Err(e) => Err(e),
    }
}

/// Reads one token from the head of `t`, which is taken as it stands: a
/// blank at its head is no token.
///
/// - At the end of the text the token is `Eof`, and nothing is consumed.
/// - `==` and `!=` are one token each.
/// - A character of [`symbol`] is a token by itself.
/// - An alphabetic character starts a word, which is the maximal run of word
///   characters; the token is its keyword or an identifier.
/// - A numeric character starts a number, which is the maximal run of
///   numeric characters; the run is consumed also where it is no literal.
/// - Any other character is `Illegal` and is consumed alone.
pub open spec fn scan_token(t: Seq<char>) -> Scan {
    if t.len() == 0 {
        Scan { token: Ok(TokenView::Eof), rest: t }
    } else if t[0] == '=' && t.len() > 1 && t[1] == '=' {
        Scan { token: Ok(TokenView::Eq), rest: t.skip(2) }
    } else if t[0] == '!' && t.len() > 1 && t[1] == '=' {
        Scan { token: Ok(TokenView::NotEq), rest: t.skip(2) }
    } else if symbol(t[0]) is Some {
        Scan { token: Ok(symbol(t[0])->0), rest: t.skip(1) }
    } else if char_is_alphabetic(t[0]) {
        let n = run_len(t, CharClass::Word) as int;
        Scan { token: Ok(word_token(t.take(n))), rest: t.skip(n) }
    } else if char_is_numeric(t[0]) {
        let n = run_len(t, CharClass::Numeric) as int;
        Scan { token: literal_token(t.take(n)), rest: t.skip(n) }
    } else {
        Scan { token: Ok(TokenView::Illegal), rest: t.skip(1) }
    }
}

/// What is left of `s` behind the blanks at its head.
pub open spec fn skip_blanks(s: Seq<char>) -> Seq<char> {
    s.skip(run_len(s, CharClass::Whitespace) as int)
}

/// One scan of `s`: the blanks at its head are skipped, and one token is
/// read from what follows.
pub open spec fn scan(s: Seq<char>) -> Scan {
    scan_token(skip_blanks(s))
}

/// The text that is left of `s` after `n` scans.
pub open spec fn rest_after(s: Seq<char>, n: nat) -> Seq<char>
    decreases n,
{
    if n == 0 {
        s
    } else {
        rest_after(scan(s).rest, (n - 1) as nat)
    }
}

/// What scanning a text to its end yields: the tokens before the end of
/// the input or before the first failure, and that failure.
pub struct Scanned {
    pub tokens: Seq<TokenView>,
    pub error: Option<LexError>,
}

/// Scans `s` to its end, or to the first scan that fails: what successive
/// scans yield before they meet the end of the text or fail.
pub open spec fn scan_all(s: Seq<char>) -> Scanned
    decreases s.len(),
    via scan_all_decreases
{
    let next = scan(s);
    match next.token {
        Err(e) => Scanned { tokens: Seq::empty(), error: Some(e) },
        Ok(TokenView::Eof) => Scanned { tokens: Seq::empty(), error: None },
        Ok(token) => {
            let more = scan_all(next.rest);
            Scanned { tokens: seq![token] + more.tokens, error: more.error }
        },
    }
}

#[via_fn]
proof fn scan_all_decreases(s: Seq<char>) {
    lemma_scan_consumes(s);
}

/// The tokens of `s`: what successive scans yield, up to and with the first
/// `Eof`; or the first failure.
pub open spec fn tokens_of(s: Seq<char>) -> Result<Seq<TokenView>, LexError> {
    match scan_all(s).error {
        None => Ok(scan_all(s).tokens.push(TokenView::Eof)),
        Some(e) => Err(e),
    }
}

/// A scan leaves a suffix of the text. It consumes at least one character,
/// unless the text holds nothing but blanks: then, and only then, the token
/// is `Eof` and nothing is left.
pub proof fn lemma_scan_consumes(s: Seq<char>)
    ensures
        scan(s).rest.len() <= s.len(),
        scan(s).rest == s.skip(s.len() - scan(s).rest.len()),
        scan(s).token == Ok::<TokenView, LexError>(TokenView::Eof) <==> run_len(
            s,
            CharClass::Whitespace,
        ) == s.len(),
        scan(s).token == Ok::<TokenView, LexError>(TokenView::Eof) ==> scan(s).rest.len() == 0,
        scan(s).token != Ok::<TokenView, LexError>(TokenView::Eof) ==> scan(s).rest.len()
            < s.len(),
{
    let t = skip_blanks(s);
    lemma_run_len_is_maximal(s, CharClass::Whitespace);
    lemma_run_len_is_maximal(t, CharClass::Word);
    lemma_run_len_is_maximal(t, CharClass::Numeric);
}

/// No scan fails for want of digits: the run of a number holds the
/// character that started it.
pub proof fn lemma_scan_is_never_empty(s: Seq<char>)
    ensures
        scan(s).token != Err::<TokenView, LexError>(LexError::Empty),
        scan_all(s).error != Some(LexError::Empty),
    decreases s.len(),
{
    lemma_run_len_is_maximal(skip_blanks(s), CharClass::Numeric);
    lemma_scan_consumes(s);
    if scan(s).token is Ok && scan(s).token != Ok::<TokenView, LexError>(TokenView::Eof) {
        lemma_scan_is_never_empty(scan(s).rest);
    }
}

/// `Eof` stands nowhere among the tokens before the end of the input: the
/// tokens of a text end with `Eof`, and hold it nowhere else.
pub proof fn lemma_tokens_end_with_eof(s: Seq<char>)
    ensures
        forall|i: int|
            0 <= i < scan_all(s).tokens.len() ==> #[trigger] scan_all(s).tokens[i]
                != TokenView::Eof,
        tokens_of(s) matches Ok(tokens) ==> {
            &&& tokens.len() > 0
            &&& tokens.last() == TokenView::Eof
            &&& tokens.drop_last() == scan_all(s).tokens
        },
    decreases s.len(),
{
    let next = scan(s);
    if next.token is Ok && next.token != Ok::<TokenView, LexError>(TokenView::Eof) {
        lemma_scan_consumes(s);
        lemma_tokens_end_with_eof(next.rest);
    }
}

/// Whether every character of `s` is a blank.
pub open spec fn all_blank(s: Seq<char>) -> bool {
    forall|i: int| 0 <= i < s.len() ==> is_whitespace(#[trigger] s[i])
}

/// A character that starts a word: an alphabetic one that is neither a blank
/// nor a symbol.
pub open spec fn starts_word(c: char) -> bool {
    !is_whitespace(c) && symbol(c) is None && char_is_alphabetic(c)
}

/// A character that starts a number: a numeric one that is neither a blank
/// nor a symbol, and does not start a word.
pub open spec fn starts_number(c: char) -> bool {
    !is_whitespace(c) && symbol(c) is None && !char_is_alphabetic(c) && char_is_numeric(c)
}

/// The text after `n + 1` scans is what the scan of the text after `n`
/// scans leaves.
pub proof fn lemma_rest_after_next(s: Seq<char>, n: nat)
    ensures
        rest_after(s, n + 1) == scan(rest_after(s, n)).rest,
    decreases n,
{
    if n > 0 {
        lemma_rest_after_next(scan(s).rest, (n - 1) as nat);
    } else {
        assert(rest_after(scan(s).rest, 0) == scan(s).rest);
    }
}

/// The end of the text is a terminal state: once a scan has yielded `Eof`,
/// every later scan yields `Eof` again, and the text that is left stays
/// empty.
pub proof fn lemma_eof_is_terminal(s: Seq<char>, reached: nat, later: nat)
    requires
        scan(rest_after(s, reached)).token == Ok::<TokenView, LexError>(TokenView::Eof),
        reached <= later,
    ensures
        scan(rest_after(s, later)).token == Ok::<TokenView, LexError>(TokenView::Eof),
        rest_after(s, later + 1).len() == 0,
    decreases later,
{
    if reached < later {
        let before = (later - 1) as nat;
        lemma_eof_is_terminal(s, reached, before);
        lemma_rest_after_next(s, before);
    }
    lemma_rest_after_next(s, later);
    lemma_scan_consumes(rest_after(s, later));
}

/// `=` and `!` look one character ahead: followed by `=` they make one
/// token of two characters, and otherwise a token of their own.
pub proof fn lemma_operator_lookahead(c: char, s: Seq<char>)
    requires
        c == '=' || c == '!',
    ensures
        s.len() > 0 && s[0] == '=' ==> {
            &&& scan(seq![c] + s).token == Ok::<TokenView, LexError>(
                if c == '=' {
                    TokenView::Eq
                } else {
                    TokenView::NotEq
                },
            )
            &&& scan(seq![c] + s).rest == s.skip(1)
        },
        s.len() == 0 || s[0] != '=' ==> {
            &&& scan(seq![c] + s).token == Ok::<TokenView, LexError>(
                if c == '=' {
                    TokenView::Assign
                } else {
                    TokenView::Bang
                },
            )
            &&& scan(seq![c] + s).rest == s
        },
{
}

/// The length of the run of blanks at the head of a text that starts with
/// blanks only.
proof fn lemma_blank_run(blanks: Seq<char>, s: Seq<char>)
    requires
        all_blank(blanks),
    ensures
        run_len(blanks + s, CharClass::Whitespace) == blanks.len() + run_len(
            s,
            CharClass::Whitespace,
        ),
        skip_blanks(blanks + s) == skip_blanks(s),
{
    let text = blanks + s;
    let n = blanks.len() + run_len(s, CharClass::Whitespace);
    lemma_run_len_is_maximal(s, CharClass::Whitespace);
    lemma_maximal_run_is_run_len(text, CharClass::Whitespace, n);
}

/// Blanks before a token are skipped: a text yields the same tokens, and
/// each scan leaves the same text, whatever blanks are put before it.
pub proof fn lemma_blanks_are_skipped(blanks: Seq<char>, s: Seq<char>)
    requires
        all_blank(blanks),
    ensures
        scan(blanks + s) == scan(s),
        scan_all(blanks + s) == scan_all(s),
        tokens_of(blanks + s) == tokens_of(s),
{
    lemma_blank_run(blanks, s);
}

/// A text of blanks holds no token: its scan meets the end of the text, and
/// leaves nothing.
pub proof fn lemma_blank_text_has_no_tokens(blanks: Seq<char>)
    requires
        all_blank(blanks),
    ensures
        scan(blanks).token == Ok::<TokenView, LexError>(TokenView::Eof),
        scan(blanks).rest.len() == 0,
        scan_all(blanks).tokens.len() == 0,
        scan_all(blanks).error is None,
        tokens_of(blanks) == Ok::<Seq<TokenView>, LexError>(seq![TokenView::Eof]),
{
    lemma_blank_run(blanks, Seq::<char>::empty());
    lemma_scan_consumes(blanks);
}

/// The maximal run of `class` at the head of `run + s`, where `run` is made
/// of `class` and `s` does not go on with it.
proof fn lemma_run_then_rest(run: Seq<char>, s: Seq<char>, class: CharClass)
    requires
        forall|i: int| 0 <= i < run.len() ==> class.contains(#[trigger] run[i]),
        s.len() > 0 ==> !class.contains(s[0]),
    ensures
        run_len(run + s, class) == run.len(),
        (run + s).take(run.len() as int) == run,
        (run + s).skip(run.len() as int) == s,
{
    lemma_maximal_run_is_run_len(run + s, class, run.len());
}

/// A word is read whole and exactly: where a text starts with a run of
/// word characters that does not go on behind it, the token is the keyword
/// that the run spells, or else an identifier with the run as its text, and
/// the scan leaves what follows the run.
pub proof fn lemma_word_is_read_whole(word: Seq<char>, s: Seq<char>)
    requires
        word.len() > 0,
        starts_word(word[0]),
        forall|i: int| 0 <= i < word.len() ==> CharClass::Word.contains(#[trigger] word[i]),
        s.len() > 0 ==> !CharClass::Word.contains(s[0]),
    ensures
        scan(word + s).token == Ok::<TokenView, LexError>(word_token(word)),
        scan(word + s).rest == s,
        keyword(word) is None ==> word_token(word) == TokenView::Ident(word),
{
    assert(skip_blanks(word + s) =~= word + s);
    lemma_run_then_rest(word, s, CharClass::Word);
}

/// A number ends where its digits end: where a text starts with a run of
/// numeric characters that does not go on behind it, the token is the
/// literal that the run denotes, and the scan leaves what follows the run,
/// be it a letter.
pub proof fn lemma_number_is_read_whole(digits: Seq<char>, s: Seq<char>)
    requires
        digits.len() > 0,
        starts_number(digits[0]),
        forall|i: int| 0 <= i < digits.len() ==> CharClass::Numeric.contains(#[trigger] digits[i]),
        s.len() > 0 ==> !CharClass::Numeric.contains(s[0]),
    ensures
        scan(digits + s).token == literal_token(digits),
        scan(digits + s).rest == s,
{
    assert(skip_blanks(digits + s) =~= digits + s);
    lemma_run_then_rest(digits, s, CharClass::Numeric);
}

} // verus!
