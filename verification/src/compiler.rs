//! The front end. So far it scans a source and lists what it finds: the
//! tokens in order, up to the first piece of the source that is no token.

use crate::scanner::{
    is_scanned_at, lemma_newlines_monotonic, lemma_scan_forward, line_at, line_of, token_end,
    token_kind, token_start, token_starts, Error, Scanner, Token,
};
use crate::text::{align_right, decimal, push_number, push_signed, signed_decimal};
use vstd::prelude::*;

verus! {

/// One row of a token listing.
#[derive(Clone, Copy, Debug, PartialEq, Eq)]
pub struct Row<'src> {
    /// Whether the row is the first of the listing or stands on another
    /// line than the row before it.
    pub new_line: bool,
    /// The token, or the error that ends the listing.
    pub scanned: Result<Token<'src>, Error>,
}

impl<'src> Row<'src> {
    /// The row as a line of text: the line of the token in a column of
    /// four, or a mark in its place where the row before it stands on the
    /// same line; then the number of the token's kind and the token between
    /// quotes, or `E` and the message of the error between quotes.
    pub open spec fn text(self) -> Seq<char> {
        (if self.new_line {
            align_right(signed_decimal(line_of(self.scanned) as int), 4, ' ') + " "@
        } else {
            "   | "@
        }) + match self.scanned {
            Ok(token) => align_right(decimal(token.token_type.ordinal() as nat), 2, ' ') + " '"@
                + token.string@ + "'"@,
            Err(error) => " E '"@ + error.message@ + "'"@,
        }
    }

    /// The row as a line of text.
    pub fn render(&self) -> (text: String)
        ensures
            text@ == self.text(),
    {
        proof {
            reveal_strlit(" ");
        }
        let mut text = String::new();
        if self.new_line {
            let line = match self.scanned {
                Ok(token) => token.line,
                Err(error) => error.line,
            };
            push_signed(&mut text, line, 4);
            text.append(" ");
        } else {
            text.append("   | ");
        }
        match self.scanned {
            Ok(token) => {
                push_number(&mut text, token.token_type.number() as u64, 2, " ");
                text.append(" '");
                text.append(token.string);
                text.append("'");
            },
            Err(error) => {
                text.append(" E '");
                text.append(error.message);
                text.append("'");
            },
        }
        text
    }
}

/// Whether the token at `starts[i]` is the first of its line among the
/// tokens at `starts`.
pub open spec fn begins_line(src: Seq<char>, starts: Seq<int>, i: int) -> bool {
    i == 0 || line_at(src, starts[i - 1]) != line_at(src, starts[i])
}

/// Scans `source` and lists its tokens, up to and with the first error.
pub fn compile<'src>(source: &'src str) -> (rows: Vec<Row<'src>>)
    requires
        line_at(source@, source@.len() as int) <= i32::MAX,
    ensures
        rows@.len() == token_starts(source@, 0, false).len(),
        forall|i: int|
            0 <= i < rows@.len() ==> is_scanned_at(
                (#[trigger] rows@[i]).scanned,
                source@,
                token_starts(source@, 0, false)[i],
            ),
        forall|i: int|
            0 <= i < rows@.len() ==> (#[trigger] rows@[i]).new_line == begins_line(
                source@,
                token_starts(source@, 0, false),
                i,
            ),
{
    let ghost src = source@;
    let ghost starts = token_starts(src, 0, false);
    let mut scanner = Scanner::new(source);
    let mut rows: Vec<Row<'src>> = Vec::new();
    let mut line: i32 = -1;
    loop
        invariant_except_break
            starts.subrange(rows@.len() as int, starts.len() as int) == token_starts(
                src,
                scanner.position(),
                false,
            ),
        invariant
            scanner.wf(),
            scanner.text() == src,
            src == source@,
            starts == token_starts(src, 0, false),
            0 <= scanner.position() <= src.len(),
            rows@.len() <= starts.len(),
            rows@.len() == 0 ==> line == -1,
            rows@.len() > 0 ==> line == line_at(src, starts[rows@.len() - 1]),
            forall|i: int|
                0 <= i < rows@.len() ==> is_scanned_at((#[trigger] rows@[i]).scanned, src, starts[i]),
            forall|i: int|
                0 <= i < rows@.len() ==> (#[trigger] rows@[i]).new_line == begins_line(
                    src,
                    starts,
                    i,
                ),
        ensures
            rows@.len() == starts.len(),
            forall|i: int|
                0 <= i < rows@.len() ==> is_scanned_at((#[trigger] rows@[i]).scanned, src, starts[i]),
            forall|i: int|
                0 <= i < rows@.len() ==> (#[trigger] rows@[i]).new_line == begins_line(
                    src,
                    starts,
                    i,
                ),
        decreases src.len() - scanner.position(),
    {
        let ghost from = scanner.position();
        let ghost rest = token_starts(src, from, false);
        let ghost start = token_start(src, from);
        proof {
            lemma_scan_forward(src, from);
        }
        match scanner.scan_token() {
            None => {
                break ;
            },
            Some(scanned) => {
                proof {
                    lemma_newlines_monotonic(src, start, start);
                    assert(starts.subrange(rows@.len() as int, starts.len() as int)[0] == start);
                    if token_kind(src, start) is Some {
                        assert(rest.subrange(1, rest.len() as int) =~= token_starts(
                            src,
                            token_end(src, start),
                            false,
                        ));
                    }
                }
                let at = match scanned {
                    Ok(token) => token.line,
                    Err(error) => error.line,
                };
                rows.push(Row { new_line: line != at, scanned });
                line = at;
                if scanned.is_err() {
                    break ;
                }
            },
        }
    }
    rows
}

} // verus!
