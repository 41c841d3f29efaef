//! What a read-eval-print loop does with one line of input, apart from
//! reading and printing it.

use vstd::prelude::*;
use vstd::string::StrSliceExecFns;
use crate::error::LexError;
use crate::lexer::Lexer;
use crate::scan::scan_all;
use crate::token::TokenType;
use crate::token::TokenView;

verus! {

/// A line without its ending: one line feed at its end is dropped, and then
/// one carriage return at the end of what is left.
pub open spec fn without_line_ending(line: Seq<char>) -> Seq<char> {
    let body = if line.len() > 0 && line.last() == '\n' {
        line.drop_last()
    } else {
        line
    };
    if body.len() > 0 && body.last() == '\r' {
        body.drop_last()
    } else {
        body
    }
}

/// The printed form of each token, in order.
pub open spec fn printed(tokens: Seq<TokenView>) -> Seq<Seq<char>> {
    Seq::new(tokens.len(), |i: int| tokens[i].render())
}

/// The views of a sequence of strings.
pub open spec fn string_views(lines: Seq<String>) -> Seq<Seq<char>> {
    Seq::new(lines.len(), |i: int| lines[i]@)
}

/// What is to be printed for a line.
#[derive(PartialEq, Eq, Debug)]
pub struct LineOutput {
    /// The printed form of each token that was read, in order.
    pub lines: Vec<String>,
    /// Why reading stopped before the end of the line, if it did.
    pub error: Option<LexError>,
}

/// Drops the line ending from a line as it was read.
pub fn strip_line_ending(line: &str) -> (stripped: &str)
    ensures
        stripped@ == without_line_ending(line@),
{
    let mut end = line.unicode_len();
    if end > 0 && line.get_char(end - 1) == '\n' {
        end -= 1;
    }
    if end > 0 && line.get_char(end - 1) == '\r' {
        end -= 1;
    }
    line.substring_char(0, end)
}

/// Scans a line as it was read and gives what is to be printed for it: the
/// printed form of each token of the line without its ending, up to the end
/// of the input, which is not printed itself. Where a scan fails, the
/// output holds the tokens before the failure, and the failure.
pub fn token_lines(line: &str) -> (output: LineOutput)
    ensures
        string_views(output.lines@) == printed(scan_all(without_line_ending(line@)).tokens),
        output.error == scan_all(without_line_ending(line@)).error,
{
    let mut lexer = Lexer::new(strip_line_ending(line).to_owned());
    let mut lines: Vec<String> = Vec::new();
    let ghost all = scan_all(without_line_ending(line@));
    let ghost read = Seq::<TokenView>::empty();
    loop
        invariant
            lexer.wf(),
            all == scan_all(without_line_ending(line@)),
            all.tokens == read + scan_all(lexer@).tokens,
            all.error == scan_all(lexer@).error,
            lines.len() == read.len(),
            forall|k: int| 0 <= k < lines.len() ==> (#[trigger] lines[k])@ == read[k].render(),
        decreases lexer@.len(),
    {
        match lexer.next_token() {
            Err(e) => {
                return LineOutput { lines, error: Some(e) };
            },
            Ok(token) => {
                match token.token_type {
                    TokenType::Eof => {
                        return LineOutput { lines, error: None };
                    },
                    _ => {},
                }
                lines.push(token.token_type.to_string());
                proof {
                    read = read.push(token@);
                }
            },
        }
    }
}

} // verus!
