//! The scanner: source text in, tokens out, one at a time.
//!
//! What the scanner does is stated over the characters of the source, by the
//! spec functions at the top of this file: where the next token starts
//! (`token_start`), where it ends (`token_end`), what it is (`token_kind`) and
//! on which line it stands (`line_at`). The scanner itself walks the UTF-8
//! bytes of the source and never leaves a character boundary.

use crate::utf8::{
    lead, lead_width_of, lemma_encode_injective, lemma_encode_subrange, lemma_lead,
    lemma_offset_step, offset, slice,
};
use vstd::prelude::*;
use vstd::utf8::*;

verus! {

broadcast use lemma_lead;

/// What a token is.
#[derive(Clone, Copy, Debug, PartialEq, Eq, Structural)]
pub enum TokenType {
    // Single-character tokens.
    LeftParen,
    RightParen,
    LeftBrace,
    RightBrace,
    Comma,
    Dot,
    Minus,
    Plus,
    Semicolon,
    Slash,
    Star,
    // One or two character tokens.
    Bang,
    BangEqual,
    Equal,
    EqualEqual,
    Greater,
    GreaterEqual,
    Less,
    LessEqual,
    // Literals.
    Identifier,
    String,
    Number,
    // Keywords.
    And,
    Class,
    Else,
    False,
    For,
    Fun,
    If,
    Nil,
    Or,
    Print,
    Return,
    Super,
    This,
    True,
    Var,
    While,
}

impl TokenType {
    /// The number of the kind: its place in the declaration, counted from 0.
    pub open spec fn ordinal(self) -> u8 {
        match self {
            TokenType::LeftParen => 0,
            TokenType::RightParen => 1,
            TokenType::LeftBrace => 2,
            TokenType::RightBrace => 3,
            TokenType::Comma => 4,
            TokenType::Dot => 5,
            TokenType::Minus => 6,
            TokenType::Plus => 7,
            TokenType::Semicolon => 8,
            TokenType::Slash => 9,
            TokenType::Star => 10,
            TokenType::Bang => 11,
            TokenType::BangEqual => 12,
            TokenType::Equal => 13,
            TokenType::EqualEqual => 14,
            TokenType::Greater => 15,
            TokenType::GreaterEqual => 16,
            TokenType::Less => 17,
            TokenType::LessEqual => 18,
            TokenType::Identifier => 19,
            TokenType::String => 20,
            TokenType::Number => 21,
            TokenType::And => 22,
            TokenType::Class => 23,
            TokenType::Else => 24,
            TokenType::False => 25,
            TokenType::For => 26,
            TokenType::Fun => 27,
            TokenType::If => 28,
            TokenType::Nil => 29,
            TokenType::Or => 30,
            TokenType::Print => 31,
            TokenType::Return => 32,
            TokenType::Super => 33,
            TokenType::This => 34,
            TokenType::True => 35,
            TokenType::Var => 36,
            TokenType::While => 37,
        }
    }

    /// The number of the kind: its place in the declaration, counted from 0.
    pub fn number(self) -> (number: u8)
        ensures
            number == self.ordinal(),
    {
        match self {
            TokenType::LeftParen => 0,
            TokenType::RightParen => 1,
            TokenType::LeftBrace => 2,
            TokenType::RightBrace => 3,
            TokenType::Comma => 4,
            TokenType::Dot => 5,
            TokenType::Minus => 6,
            TokenType::Plus => 7,
            TokenType::Semicolon => 8,
            TokenType::Slash => 9,
            TokenType::Star => 10,
            TokenType::Bang => 11,
            TokenType::BangEqual => 12,
            TokenType::Equal => 13,
            TokenType::EqualEqual => 14,
            TokenType::Greater => 15,
            TokenType::GreaterEqual => 16,
            TokenType::Less => 17,
            TokenType::LessEqual => 18,
            TokenType::Identifier => 19,
            TokenType::String => 20,
            TokenType::Number => 21,
            TokenType::And => 22,
            TokenType::Class => 23,
            TokenType::Else => 24,
            TokenType::False => 25,
            TokenType::For => 26,
            TokenType::Fun => 27,
            TokenType::If => 28,
            TokenType::Nil => 29,
            TokenType::Or => 30,
            TokenType::Print => 31,
            TokenType::Return => 32,
            TokenType::Super => 33,
            TokenType::This => 34,
            TokenType::True => 35,
            TokenType::Var => 36,
            TokenType::While => 37,
        }
    }
}

/// A token: what it is, the piece of the source that it spans, and the line
/// on which its first character stands.
#[derive(Clone, Copy, Debug, PartialEq, Eq)]
pub struct Token<'src> {
    pub token_type: TokenType,
    pub string: &'src str,
    pub line: i32,
}

/// A piece of the source that is no token: what is wrong with it, and the
/// line on which it starts.
#[derive(Clone, Copy, Debug, PartialEq, Eq)]
pub struct Error {
    pub message: &'static str,
    pub line: i32,
}

/// A letter of the ASCII alphabet, or an underscore.
pub open spec fn is_alpha(c: char) -> bool {
    ('a' <= c && c <= 'z') || ('A' <= c && c <= 'Z') || c == '_'
}

/// A decimal digit.
pub open spec fn is_dec_digit(c: char) -> bool {
    '0' <= c && c <= '9'
}

/// A character that separates tokens and is no part of any.
pub open spec fn is_blank(c: char) -> bool {
    c == ' ' || c == '\r' || c == '\t' || c == '\n'
}

/// The index of the first character at or after `from` that starts a token,
/// or the length of the source if there is none. Blanks are passed over, and
/// so is a comment, which runs from `//` to the end of its line. `comment`
/// says whether `from` lies inside a comment.
pub open spec fn skip(src: Seq<char>, from: int, comment: bool) -> int
    decreases src.len() - from,
{
    if from < 0 || from >= src.len() {
        from
    } else if comment {
        skip(src, from + 1, src[from] != '\n')
    } else if is_blank(src[from]) {
        skip(src, from + 1, false)
    } else if src[from] == '/' && from + 1 < src.len() && src[from + 1] == '/' {
        skip(src, from + 2, true)
    } else {
        from
    }
}

/// Where the token starts that is scanned from `from`.
pub open spec fn token_start(src: Seq<char>, from: int) -> int {
    skip(src, from, false)
}

/// The kinds of character runs that make up the longer tokens.
#[derive(Clone, Copy, Debug, PartialEq, Eq, Structural)]
pub enum Run {
    /// Letters, digits and underscores.
    Word,
    /// Decimal digits.
    Digits,
    /// Anything but a double quote.
    Quoted,
}

/// Whether `c` may stand in a run of the given kind.
pub open spec fn in_run(run: Run, c: char) -> bool {
    match run {
        Run::Word => is_alpha(c) || is_dec_digit(c),
        Run::Digits => is_dec_digit(c),
        Run::Quoted => c != '"',
    }
}

/// The end of the longest run of the given kind that starts at `from`.
pub open spec fn run_end(src: Seq<char>, from: int, run: Run) -> int
    decreases src.len() - from,
{
    if 0 <= from < src.len() && in_run(run, src[from]) {
        run_end(src, from + 1, run)
    } else {
        from
    }
}

/// The end of a number that starts at `start`: its digits, and a fraction
/// if a dot and at least one digit follow them.
pub open spec fn number_end(src: Seq<char>, start: int) -> int {
    let whole = run_end(src, start + 1, Run::Digits);
    if whole + 1 < src.len() && src[whole] == '.' && is_dec_digit(src[whole + 1]) {
        run_end(src, whole + 1, Run::Digits)
    } else {
        whole
    }
}

/// Whether the character after `start` is an equals sign.
pub open spec fn equal_follows(src: Seq<char>, start: int) -> bool {
    start + 1 < src.len() && src[start + 1] == '='
}

/// Whether `c` is the first character of an operator that an equals sign
/// makes longer.
pub open spec fn takes_equal(c: char) -> bool {
    c == '!' || c == '=' || c == '<' || c == '>'
}

/// The index of the quote that closes the string opened at `start`, or the
/// length of the source if none does.
pub open spec fn closing_quote(src: Seq<char>, start: int) -> int {
    run_end(src, start + 1, Run::Quoted)
}

/// Where the scanner stands after the token, or the error, that starts at
/// `start`.
pub open spec fn token_end(src: Seq<char>, start: int) -> int {
    let c = src[start];
    if is_alpha(c) {
        run_end(src, start + 1, Run::Word)
    } else if is_dec_digit(c) {
        number_end(src, start)
    } else if c == '"' {
        if closing_quote(src, start) < src.len() {
            closing_quote(src, start) + 1
        } else {
            src.len() as int
        }
    } else if takes_equal(c) && equal_follows(src, start) {
        start + 2
    } else {
        start + 1
    }
}

/// What a word is: one of the keywords, or else an identifier.
pub open spec fn keyword(word: Seq<char>) -> TokenType {
    if word == "and"@ {
        TokenType::And
    } else if word == "class"@ {
        TokenType::Class
    } else if word == "else"@ {
        TokenType::Else
    } else if word == "false"@ {
        TokenType::False
    } else if word == "for"@ {
        TokenType::For
    } else if word == "fun"@ {
        TokenType::Fun
    } else if word == "if"@ {
        TokenType::If
    } else if word == "nil"@ {
        TokenType::Nil
    } else if word == "or"@ {
        TokenType::Or
    } else if word == "print"@ {
        TokenType::Print
    } else if word == "return"@ {
        TokenType::Return
    } else if word == "super"@ {
        TokenType::Super
    } else if word == "this"@ {
        TokenType::This
    } else if word == "true"@ {
        TokenType::True
    } else if word == "var"@ {
        TokenType::Var
    } else if word == "while"@ {
        TokenType::While
    } else {
        TokenType::Identifier
    }
}

/// What an operator or a punctuation mark is, if `c` starts one;
/// `longer` says whether an equals sign follows.
pub open spec fn mark(c: char, longer: bool) -> Option<TokenType> {
    if c == '(' {
        Some(TokenType::LeftParen)
    } else if c == ')' {
        Some(TokenType::RightParen)
    } else if c == '{' {
        Some(TokenType::LeftBrace)
    } else if c == '}' {
        Some(TokenType::RightBrace)
    } else if c == ';' {
        Some(TokenType::Semicolon)
    } else if c == ',' {
        Some(TokenType::Comma)
    } else if c == '.' {
        Some(TokenType::Dot)
    } else if c == '-' {
        Some(TokenType::Minus)
    } else if c == '+' {
        Some(TokenType::Plus)
    } else if c == '/' {
        Some(TokenType::Slash)
    } else if c == '*' {
        Some(TokenType::Star)
    } else if c == '!' {
        Some(if longer { TokenType::BangEqual } else { TokenType::Bang })
    } else if c == '=' {
        Some(if longer { TokenType::EqualEqual } else { TokenType::Equal })
    } else if c == '<' {
        Some(if longer { TokenType::LessEqual } else { TokenType::Less })
    } else if c == '>' {
        Some(if longer { TokenType::GreaterEqual } else { TokenType::Greater })
    } else {
        None
    }
}

/// What the token is that starts at `start`, or `None` where no token
/// starts there: at a string that is never closed, and at a character that
/// starts no token.
pub open spec fn token_kind(src: Seq<char>, start: int) -> Option<TokenType> {
    let c = src[start];
    if is_alpha(c) {
        Some(keyword(src.subrange(start, token_end(src, start))))
    } else if is_dec_digit(c) {
        Some(TokenType::Number)
    } else if c == '"' {
        if closing_quote(src, start) < src.len() {
            Some(TokenType::String)
        } else {
            None
        }
    } else {
        mark(c, equal_follows(src, start))
    }
}

/// What is wrong at `start`, where no token starts there.
pub open spec fn error_message(src: Seq<char>, start: int) -> Seq<char> {
    if src[start] == '"' {
        "Unterminated string."@
    } else {
        "Unexpected character."@
    }
}

/// The number of line feeds among the first `upto` characters.
pub open spec fn newlines(src: Seq<char>, upto: int) -> int
    decreases upto,
{
    if upto <= 0 {
        0
    } else {
        newlines(src, upto - 1) + if upto <= src.len() && src[upto - 1] == '\n' {
            1int
        } else {
            0int
        }
    }
}

/// The line, counted from 1, on which the character with index `at` stands.
pub open spec fn line_at(src: Seq<char>, at: int) -> int {
    1 + newlines(src, at)
}

/// The leading byte of the character with index `at`, if there is one.
spec fn lead_at(src: Seq<char>, at: int) -> Option<u8> {
    if 0 <= at < src.len() {
        Some(lead(src[at]))
    } else {
        None
    }
}

/// The line count never falls along the source.
pub proof fn lemma_newlines_monotonic(src: Seq<char>, i: int, j: int)
    requires
        i <= j,
    ensures
        0 <= newlines(src, i) <= newlines(src, j),
    decreases j - i, j,
{
    if i < j {
        lemma_newlines_monotonic(src, i, j - 1);
    } else if 0 < i {
        lemma_newlines_monotonic(src, i - 1, i - 1);
    }
}

/// Whether a token satisfies what the source holds at `start`.
pub open spec fn is_token_at(token: Token, src: Seq<char>, start: int) -> bool {
    &&& token_kind(src, start) == Some(token.token_type)
    &&& token.string@ == src.subrange(start, token_end(src, start))
    &&& token.line == line_at(src, start)
}

/// Whether an error satisfies what the source holds at `start`.
pub open spec fn is_error_at(error: Error, src: Seq<char>, start: int) -> bool {
    &&& token_kind(src, start) is None
    &&& error.message@ == error_message(src, start)
    &&& error.line == line_at(src, start)
}

/// The line of a token or of an error.
pub open spec fn line_of(scanned: Result<Token, Error>) -> i32 {
    match scanned {
        Ok(token) => token.line,
        Err(error) => error.line,
    }
}

/// Whether `scanned` is what the source holds at `start`: the token that
/// starts there, or the error where none does.
pub open spec fn is_scanned_at(scanned: Result<Token, Error>, src: Seq<char>, start: int) -> bool {
    match scanned {
        Ok(token) => is_token_at(token, src, start),
        Err(error) => is_error_at(error, src, start),
    }
}

/// Whether the byte leads a letter or an underscore.
fn is_alpha_byte(byte: u8) -> (yes: bool)
    ensures
        yes == (byte < 0x80 && is_alpha(byte as char)),
{
    (0x61 <= byte && byte <= 0x7a) || (0x41 <= byte && byte <= 0x5a) || byte == 0x5f
}

/// Whether the byte leads a decimal digit.
fn is_dec_digit_byte(byte: u8) -> (yes: bool)
    ensures
        yes == (byte < 0x80 && is_dec_digit(byte as char)),
{
    0x30 <= byte && byte <= 0x39
}

/// Whether the byte leads a blank.
fn is_blank_byte(byte: u8) -> (yes: bool)
    ensures
        yes == (byte < 0x80 && is_blank(byte as char)),
{
    byte == 0x20 || byte == 0x0d || byte == 0x09 || byte == 0x0a
}

/// Whether the byte leads the ASCII character `expected`.
fn is_char_byte(byte: u8, expected: char) -> (yes: bool)
    requires
        (expected as u32) < 0x80,
    ensures
        yes == (byte < 0x80 && byte as char == expected),
{
    byte == expected as u8
}

/// Skipping blanks and comments goes forward, and not beyond the end.
pub proof fn lemma_skip_bounds(src: Seq<char>, from: int, comment: bool)
    requires
        0 <= from <= src.len(),
    ensures
        from <= skip(src, from, comment) <= src.len(),
    decreases src.len() - from,
{
    if from < src.len() {
        if comment || is_blank(src[from]) {
            lemma_skip_bounds(src, from + 1, comment && src[from] != '\n');
        } else if src[from] == '/' && from + 1 < src.len() && src[from + 1] == '/' {
            lemma_skip_bounds(src, from + 2, true);
        }
    }
}

/// A run ends at or behind its start, and not beyond the end.
pub proof fn lemma_run_end_bounds(src: Seq<char>, from: int, run: Run)
    requires
        0 <= from <= src.len(),
    ensures
        from <= run_end(src, from, run) <= src.len(),
    decreases src.len() - from,
{
    if from < src.len() && in_run(run, src[from]) {
        lemma_run_end_bounds(src, from + 1, run);
    }
}

/// Scanning goes forward: the token that is scanned from `from` starts at
/// `from` or behind it, and where a token or an error starts, the scanner
/// comes to stand behind that start, and not beyond the end.
pub proof fn lemma_scan_forward(src: Seq<char>, from: int)
    requires
        0 <= from <= src.len(),
    ensures
        from <= token_start(src, from) <= src.len(),
        token_start(src, from) < src.len() ==> token_start(src, from) < token_end(
            src,
            token_start(src, from),
        ) <= src.len(),
{
    lemma_skip_bounds(src, from, false);
    let start = token_start(src, from);
    if start < src.len() {
        lemma_run_end_bounds(src, start + 1, Run::Word);
        lemma_run_end_bounds(src, start + 1, Run::Digits);
        lemma_run_end_bounds(src, start + 1, Run::Quoted);
        let whole = run_end(src, start + 1, Run::Digits);
        if whole + 1 < src.len() {
            lemma_run_end_bounds(src, whole + 1, Run::Digits);
        }
    }
}

/// Of two tokens that are scanned one after the other, the second starts
/// behind the first, and its line is not lower. At the end of the source no
/// token starts, however often one is asked for.
pub proof fn lemma_successive_tokens(src: Seq<char>, from: int)
    requires
        0 <= from <= src.len(),
        token_start(src, from) < src.len(),
    ensures
        ({
            let first = token_start(src, from);
            let second = token_start(src, token_end(src, first));
            &&& first < second <= src.len()
            &&& line_at(src, first) <= line_at(src, second)
        }),
        token_start(src, src.len() as int) == src.len(),
{
    lemma_scan_forward(src, from);
    let first = token_start(src, from);
    lemma_scan_forward(src, token_end(src, first));
    lemma_newlines_monotonic(src, first, token_start(src, token_end(src, first)));
}

/// The starts of the tokens and errors that are scanned one after the
/// other from `from`: all of them to the end of the source, or, unless
/// `past_errors`, those up to the first error.
pub open spec fn token_starts(src: Seq<char>, from: int, past_errors: bool) -> Seq<int>
    decreases src.len() - from,
{
    let start = token_start(src, from);
    if 0 <= from <= src.len() && start < src.len() {
        if token_kind(src, start) is None && !past_errors {
            seq![start]
        } else {
            proof {
                lemma_scan_forward(src, from);
            }
            seq![start] + token_starts(src, token_end(src, start), past_errors)
        }
    } else {
        Seq::empty()
    }
}

/// Every token that is scanned from `from` starts at `from` or behind it.
pub proof fn lemma_token_starts_bounds(src: Seq<char>, from: int, past_errors: bool, i: int)
    requires
        0 <= i < token_starts(src, from, past_errors).len(),
    ensures
        0 <= from <= token_starts(src, from, past_errors)[i] < src.len(),
    decreases src.len() - from,
{
    lemma_scan_forward(src, from);
    if i > 0 {
        let start = token_start(src, from);
        lemma_token_starts_bounds(src, token_end(src, start), past_errors, i - 1);
    }
}

/// Along the tokens of a source, each token starts behind the one before
/// it, and its line is not lower.
pub proof fn lemma_token_starts_ordered(
    src: Seq<char>,
    from: int,
    past_errors: bool,
    i: int,
    j: int,
)
    requires
        0 <= i < j < token_starts(src, from, past_errors).len(),
    ensures
        token_starts(src, from, past_errors)[i] < token_starts(src, from, past_errors)[j],
        line_at(src, token_starts(src, from, past_errors)[i]) <= line_at(
            src,
            token_starts(src, from, past_errors)[j],
        ),
    decreases src.len() - from,
{
    lemma_scan_forward(src, from);
    let start = token_start(src, from);
    let end = token_end(src, start);
    if i == 0 {
        lemma_token_starts_bounds(src, end, past_errors, j - 1);
    } else {
        lemma_token_starts_ordered(src, end, past_errors, i - 1, j - 1);
    }
    lemma_newlines_monotonic(
        src,
        token_starts(src, from, past_errors)[i],
        token_starts(src, from, past_errors)[j],
    );
}

/// Whether the lines of `source` can be counted in an `i32`, which is what
/// a scanner asks of its source.
pub fn lines_fit(source: &str) -> (yes: bool)
    ensures
        yes == (line_at(source@, source@.len() as int) <= i32::MAX),
{
    let ghost src = source@;
    let bytes = source.as_bytes();
    let mut current: usize = 0;
    let mut count: usize = 0;
    let ghost mut index: int = 0;
    while current < bytes.len()
        invariant
            src == source@,
            bytes@ == encode_utf8(src),
            0 <= index <= src.len(),
            current == offset(src, index),
            count == newlines(src, index),
            count <= index <= current <= bytes@.len(),
        decreases src.len() - index,
    {
        proof {
            lemma_encode_subrange(src, index, src.len() as int);
            lemma_offset_step(src, index);
        }
        let byte = bytes[current];
        if byte == 0x0a {
            count = count + 1;
        }
        current = current + lead_width_of(byte);
        proof {
            index = index + 1;
        }
    }
    proof {
        lemma_encode_subrange(src, index, src.len() as int);
        if index < src.len() {
            lemma_offset_step(src, index);
        }
    }
    count < i32::MAX as usize
}

/// A scanner over one source text. It hands out the tokens of the text in
/// order, and remembers only where it stands and on which line.
pub struct Scanner<'src> {
    source: &'src str,
    bytes: &'src [u8],
    start: usize,
    current: usize,
    start_line: i32,
    line: i32,
    start_index: Ghost<int>,
    index: Ghost<int>,
}

impl<'src> Scanner<'src> {
    /// The characters of the source.
    pub closed spec fn text(&self) -> Seq<char> {
        self.source@
    }

    /// The index of the next character that has not been scanned.
    pub closed spec fn position(&self) -> int {
        self.index@
    }

    /// The index of the first character of the token being scanned.
    pub closed spec fn token_position(&self) -> int {
        self.start_index@
    }

    /// The scanner stands between two characters of its source, knows the
    /// line it is on, and can count every line of the source.
    pub closed spec fn wf(&self) -> bool {
        &&& self.bytes@ == encode_utf8(self.source@)
        &&& self.bytes@.len() <= usize::MAX
        &&& 0 <= self.start_index@ <= self.index@ <= self.source@.len()
        &&& self.start == offset(self.source@, self.start_index@)
        &&& self.current == offset(self.source@, self.index@)
        &&& self.start_line == line_at(self.source@, self.start_index@)
        &&& self.line == line_at(self.source@, self.index@)
        &&& line_at(self.source@, self.source@.len() as int) <= i32::MAX
    }

    /// A scanner at the start of `source`, on line 1.
    pub fn new(source: &'src str) -> (scanner: Self)
        requires
            line_at(source@, source@.len() as int) <= i32::MAX,
        ensures
            scanner.wf(),
            scanner.text() == source@,
            scanner.position() == 0,
    {
        let bytes = source.as_bytes();
        proof {
            broadcast use vstd::slice::group_slice_axioms;

            assert(bytes@.len() == vstd::slice::spec_slice_len(bytes));
        }
        Scanner {
            source,
            bytes,
            start: 0,
            current: 0,
            start_line: 1,
            line: 1,
            start_index: Ghost(0),
            index: Ghost(0),
        }
    }

    /// The leading byte of the next character, without scanning it.
    fn peek(&self) -> (next: Option<u8>)
        requires
            self.wf(),
        ensures
            next == lead_at(self.text(), self.position()),
    {
        proof {
            lemma_encode_subrange(self.source@, self.index@, self.source@.len() as int);
            if self.index@ < self.source@.len() {
                lemma_offset_step(self.source@, self.index@);
            }
        }
        if self.current < self.bytes.len() {
            Some(self.bytes[self.current])
        } else {
            None
        }
    }

    /// The leading byte of the character after the next one.
    fn peek_next(&self) -> (next: Option<u8>)
        requires
            self.wf(),
        ensures
            next == lead_at(self.text(), self.position() + 1),
    {
        proof {
            lemma_encode_subrange(self.source@, self.index@, self.source@.len() as int);
            if self.index@ < self.source@.len() {
                lemma_offset_step(self.source@, self.index@);
                lemma_lead(self.source@[self.index@]);
                lemma_encode_subrange(self.source@, self.index@ + 1, self.source@.len() as int);
                if self.index@ + 1 < self.source@.len() {
                    lemma_offset_step(self.source@, self.index@ + 1);
                }
            }
        }
        if self.current < self.bytes.len() {
            let after = self.current + lead_width_of(self.bytes[self.current]);
            if after < self.bytes.len() {
                Some(self.bytes[after])
            } else {
                None
            }
        } else {
            None
        }
    }

    /// Whether the next character is the ASCII character `expected`.
    fn check(&self, expected: char) -> (yes: bool)
        requires
            self.wf(),
            (expected as u32) < 0x80,
        ensures
            yes == (self.position() < self.text().len() && self.text()[self.position()]
                == expected),
    {
        match self.peek() {
            Some(byte) => is_char_byte(byte, expected),
            None => false,
        }
    }

    /// Whether the character after the next one is the ASCII character
    /// `expected`.
    fn check_next(&self, expected: char) -> (yes: bool)
        requires
            self.wf(),
            (expected as u32) < 0x80,
        ensures
            yes == (self.position() + 1 < self.text().len() && self.text()[self.position() + 1]
                == expected),
    {
        match self.peek_next() {
            Some(byte) => is_char_byte(byte, expected),
            None => false,
        }
    }

    /// Scans one character, if any is left, and counts the line that it
    /// ends.
    fn advance(&mut self) -> (next: Option<u8>)
        requires
            old(self).wf(),
        ensures
            final(self).wf(),
            final(self).text() == old(self).text(),
            final(self).token_position() == old(self).token_position(),
            next == lead_at(old(self).text(), old(self).position()),
            final(self).position() == if old(self).position() < old(self).text().len() {
                old(self).position() + 1
            } else {
                old(self).position()
            },
    {
        let next = self.peek();
        if let Some(byte) = next {
            proof {
                lemma_offset_step(self.source@, self.index@);
                lemma_lead(self.source@[self.index@]);
                lemma_newlines_monotonic(self.source@, self.index@ + 1, self.source@.len() as int);
            }
            self.current = self.current + lead_width_of(byte);
            if byte == 0x0a {
                self.line = self.line + 1;
            }
            self.index = Ghost(self.index@ + 1);
        }
        next
    }

    /// Scans the next character if it is the ASCII character `expected`.
    fn matches(&mut self, expected: char) -> (hit: bool)
        requires
            old(self).wf(),
            (expected as u32) < 0x80,
            expected != '\n',
        ensures
            final(self).wf(),
            final(self).text() == old(self).text(),
            final(self).token_position() == old(self).token_position(),
            hit == (old(self).position() < old(self).text().len() && old(self).text()[old(
                self,
            ).position()] == expected),
            final(self).position() == old(self).position() + if hit {
                1int
            } else {
                0int
            },
    {
        if self.check(expected) {
            self.advance();
            true
        } else {
            false
        }
    }

    /// Whether the scanner stands at the end of a line or of the source.
    fn at_line_end(&self) -> (yes: bool)
        requires
            self.wf(),
        ensures
            yes == (self.position() >= self.text().len() || self.text()[self.position()] == '\n'),
    {
        match self.peek() {
            Some(byte) => is_char_byte(byte, '\n'),
            None => true,
        }
    }

    /// Whether the next character may stand in a run of the given kind.
    fn check_run(&self, run: Run) -> (yes: bool)
        requires
            self.wf(),
        ensures
            yes == (self.position() < self.text().len() && in_run(
                run,
                self.text()[self.position()],
            )),
    {
        match self.peek() {
            Some(byte) => match run {
                Run::Word => is_alpha_byte(byte) || is_dec_digit_byte(byte),
                Run::Digits => is_dec_digit_byte(byte),
                Run::Quoted => !is_char_byte(byte, '"'),
            },
            None => false,
        }
    }

    /// Scans to the end of the run of the given kind that starts at the next
    /// character.
    fn advance_run(&mut self, run: Run)
        requires
            old(self).wf(),
        ensures
            final(self).wf(),
            final(self).text() == old(self).text(),
            final(self).token_position() == old(self).token_position(),
            final(self).position() == run_end(old(self).text(), old(self).position(), run),
            old(self).position() <= final(self).position(),
    {
        let ghost src = self.text();
        let ghost end = run_end(src, self.position(), run);
        while self.check_run(run)
            invariant
                self.wf(),
                self.text() == src,
                self.token_position() == old(self).token_position(),
                old(self).position() <= self.position(),
                run_end(src, self.position(), run) == end,
            decreases src.len() - self.position(),
        {
            self.advance();
        }
    }

    /// Passes over blanks and comments, to the start of the next token or
    /// to the end of the source.
    fn skip_whitespace(&mut self)
        requires
            old(self).wf(),
        ensures
            final(self).wf(),
            final(self).text() == old(self).text(),
            final(self).token_position() == old(self).token_position(),
            final(self).position() == token_start(old(self).text(), old(self).position()),
            old(self).position() <= final(self).position(),
    {
        let ghost src = self.text();
        let ghost target = token_start(src, self.position());
        loop
            invariant
                self.wf(),
                self.text() == src,
                src == old(self).text(),
                self.token_position() == old(self).token_position(),
                old(self).position() <= self.position(),
                target == token_start(src, old(self).position()),
                token_start(src, self.position()) == target,
            decreases src.len() - self.position(),
        {
            match self.peek() {
                None => {
                    return ;
                },
                Some(byte) => {
                    if is_blank_byte(byte) {
                        self.advance();
                    } else if is_char_byte(byte, '/') && self.check_next('/') {
                        let ghost slash = self.position();
                        proof {
                            assert(skip(src, slash, true) == skip(src, slash + 1, true));
                        }
                        while !self.at_line_end()
                            invariant
                                self.wf(),
                                self.text() == src,
                                self.token_position() == old(self).token_position(),
                                old(self).position() <= slash <= self.position(),
                                skip(src, self.position(), true) == target,
                            decreases src.len() - self.position(),
                        {
                            self.advance();
                        }
                    } else {
                        return ;
                    }
                },
            }
        }
    }

    /// Whether the token being scanned reads `word`.
    fn lexeme_is(&self, word: &str) -> (same: bool)
        requires
            self.wf(),
        ensures
            same == (self.text().subrange(self.token_position(), self.position()) == word@),
    {
        let ghost lexeme = self.source@.subrange(self.start_index@, self.index@);
        let expected = word.as_bytes();
        proof {
            broadcast use vstd::slice::group_slice_axioms;

            lemma_encode_subrange(self.source@, self.start_index@, self.index@);
        }
        let length = self.current - self.start;
        if expected.len() != length {
            return false;
        }
        let mut i: usize = 0;
        while i < length
            invariant
                self.wf(),
                i <= length,
                length == self.current - self.start,
                self.current <= self.bytes@.len(),
                expected@.len() == length,
                expected@ == encode_utf8(word@),
                lexeme == self.text().subrange(self.token_position(), self.position()),
                encode_utf8(lexeme) == self.bytes@.subrange(
                    self.start as int,
                    self.current as int,
                ),
                forall|k: int| 0 <= k < i ==> self.bytes@[self.start + k] == expected@[k],
            decreases length - i,
        {
            if self.bytes[self.start + i] != expected[i] {
                return false;
            }
            i = i + 1;
        }
        proof {
            assert(encode_utf8(lexeme) =~= expected@);
            lemma_encode_injective(lexeme, word@);
        }
        true
    }

    /// The token of the given kind that spans what has been scanned since
    /// the token started.
    fn make_token(&self, token_type: TokenType) -> (result: Result<Token<'src>, Error>)
        requires
            self.wf(),
        ensures
            result matches Ok(token) && token.token_type == token_type && token.string@
                == self.text().subrange(self.token_position(), self.position()) && token.line
                == line_at(self.text(), self.token_position()),
    {
        Ok(
            Token {
                token_type,
                string: slice(self.source, self.start, self.current, self.start_index, self.index),
                line: self.start_line,
            },
        )
    }

    /// The error with the given message, on the line where the token
    /// started.
    fn make_error(&self, message: &'static str) -> (result: Result<Token<'src>, Error>)
        requires
            self.wf(),
        ensures
            result matches Err(error) && error.message@ == message@ && error.line == line_at(
                self.text(),
                self.token_position(),
            ),
    {
        Err(Error { message, line: self.start_line })
    }

    /// Scans the rest of a word and tells a keyword from an identifier.
    fn make_identifier(&mut self) -> (result: Result<Token<'src>, Error>)
        requires
            old(self).wf(),
            old(self).token_position() < old(self).text().len(),
            old(self).position() == old(self).token_position() + 1,
            is_alpha(old(self).text()[old(self).token_position()]),
        ensures
            final(self).wf(),
            final(self).text() == old(self).text(),
            final(self).token_position() == old(self).token_position(),
            final(self).position() == token_end(old(self).text(), old(self).token_position()),
            is_scanned_at(result, old(self).text(), old(self).token_position()),
    {
        self.advance_run(Run::Word);
        let token_type = if self.lexeme_is("and") {
            TokenType::And
        } else if self.lexeme_is("class") {
            TokenType::Class
        } else if self.lexeme_is("else") {
            TokenType::Else
        } else if self.lexeme_is("false") {
            TokenType::False
        } else if self.lexeme_is("for") {
            TokenType::For
        } else if self.lexeme_is("fun") {
            TokenType::Fun
        } else if self.lexeme_is("if") {
            TokenType::If
        } else if self.lexeme_is("nil") {
            TokenType::Nil
        } else if self.lexeme_is("or") {
            TokenType::Or
        } else if self.lexeme_is("print") {
            TokenType::Print
        } else if self.lexeme_is("return") {
            TokenType::Return
        } else if self.lexeme_is("super") {
            TokenType::Super
        } else if self.lexeme_is("this") {
            TokenType::This
        } else if self.lexeme_is("true") {
            TokenType::True
        } else if self.lexeme_is("var") {
            TokenType::Var
        } else if self.lexeme_is("while") {
            TokenType::While
        } else {
            TokenType::Identifier
        };
        self.make_token(token_type)
    }

    /// Scans the rest of a number: its digits, and a fraction if one
    /// follows.
    fn make_number(&mut self) -> (result: Result<Token<'src>, Error>)
        requires
            old(self).wf(),
            old(self).token_position() < old(self).text().len(),
            old(self).position() == old(self).token_position() + 1,
            is_dec_digit(old(self).text()[old(self).token_position()]),
        ensures
            final(self).wf(),
            final(self).text() == old(self).text(),
            final(self).token_position() == old(self).token_position(),
            final(self).position() == token_end(old(self).text(), old(self).token_position()),
            is_scanned_at(result, old(self).text(), old(self).token_position()),
    {
        self.advance_run(Run::Digits);
        if self.check('.') {
            let after = match self.peek_next() {
                Some(byte) => is_dec_digit_byte(byte),
                None => false,
            };
            if after {
                self.advance();  // the decimal point
                self.advance_run(Run::Digits);
            }
        }
        self.make_token(TokenType::Number)
    }

    /// Scans the rest of a string, through the quote that closes it.
    fn make_string(&mut self) -> (result: Result<Token<'src>, Error>)
        requires
            old(self).wf(),
            old(self).token_position() < old(self).text().len(),
            old(self).position() == old(self).token_position() + 1,
            old(self).text()[old(self).token_position()] == '"',
        ensures
            final(self).wf(),
            final(self).text() == old(self).text(),
            final(self).token_position() == old(self).token_position(),
            final(self).position() == token_end(old(self).text(), old(self).token_position()),
            is_scanned_at(result, old(self).text(), old(self).token_position()),
    {
        self.advance_run(Run::Quoted);
        if self.peek().is_none() {
            self.make_error("Unterminated string.")
        } else {
            self.advance();  // the closing quote
            self.make_token(TokenType::String)
        }
    }

    /// Scans the next token. `None` is the end of the source, and stays the
    /// answer from then on; an error stands for a piece of the source that is
    /// no token, and the scanner goes on behind it.
    pub fn scan_token(&mut self) -> (result: Option<Result<Token<'src>, Error>>)
        requires
            old(self).wf(),
        ensures
            final(self).wf(),
            final(self).text() == old(self).text(),
            old(self).position() <= final(self).position() <= final(self).text().len(),
            ({
                let src = old(self).text();
                let start = token_start(src, old(self).position());
                if start < src.len() {
                    &&& result matches Some(scanned)
                    &&& is_scanned_at(scanned, src, start)
                    &&& final(self).token_position() == start
                    &&& final(self).position() == token_end(src, start)
                } else {
                    &&& result is None
                    &&& final(self).position() == src.len()
                }
            }),
    {
        self.skip_whitespace();
        self.start = self.current;
        self.start_line = self.line;
        self.start_index = self.index;
        match self.advance() {
            None => None,
            Some(byte) => Some(
                if is_alpha_byte(byte) {
                    self.make_identifier()
                } else if is_dec_digit_byte(byte) {
                    self.make_number()
                } else if is_char_byte(byte, '(') {
                    self.make_token(TokenType::LeftParen)
                } else if is_char_byte(byte, ')') {
                    self.make_token(TokenType::RightParen)
                } else if is_char_byte(byte, '{') {
                    self.make_token(TokenType::LeftBrace)
                } else if is_char_byte(byte, '}') {
                    self.make_token(TokenType::RightBrace)
                } else if is_char_byte(byte, ';') {
                    self.make_token(TokenType::Semicolon)
                } else if is_char_byte(byte, ',') {
                    self.make_token(TokenType::Comma)
                } else if is_char_byte(byte, '.') {
                    self.make_token(TokenType::Dot)
                } else if is_char_byte(byte, '-') {
                    self.make_token(TokenType::Minus)
                } else if is_char_byte(byte, '+') {
                    self.make_token(TokenType::Plus)
                } else if is_char_byte(byte, '/') {
                    self.make_token(TokenType::Slash)
                } else if is_char_byte(byte, '*') {
                    self.make_token(TokenType::Star)
                } else if is_char_byte(byte, '!') {
                    if self.matches('=') {
                        self.make_token(TokenType::BangEqual)
                    } else {
                        self.make_token(TokenType::Bang)
                    }
                } else if is_char_byte(byte, '=') {
                    if self.matches('=') {
                        self.make_token(TokenType::EqualEqual)
                    } else {
                        self.make_token(TokenType::Equal)
                    }
                } else if is_char_byte(byte, '<') {
                    if self.matches('=') {
                        self.make_token(TokenType::LessEqual)
                    } else {
                        self.make_token(TokenType::Less)
                    }
                } else if is_char_byte(byte, '>') {
                    if self.matches('=') {
                        self.make_token(TokenType::GreaterEqual)
                    } else {
                        self.make_token(TokenType::Greater)
                    }
                } else if is_char_byte(byte, '"') {
                    self.make_string()
                } else {
                    self.make_error("Unexpected character.")
                },
            ),
        }
    }

    /// Scans to the end of the source, and returns in order all that was
    /// scanned on the way, tokens and errors alike.
    pub fn tokens(&mut self) -> (all: Vec<Result<Token<'src>, Error>>)
        requires
            old(self).wf(),
        ensures
            final(self).wf(),
            final(self).text() == old(self).text(),
            final(self).position() == final(self).text().len(),
            all@.len() == token_starts(old(self).text(), old(self).position(), true).len(),
            forall|i: int|
                0 <= i < all@.len() ==> is_scanned_at(
                    #[trigger] all@[i],
                    old(self).text(),
                    token_starts(old(self).text(), old(self).position(), true)[i],
                ),
            forall|i: int, j: int|
                0 <= i <= j < all@.len() ==> line_of(#[trigger] all@[i]) <= line_of(
                    #[trigger] all@[j],
                ),
    {
        let ghost src = self.text();
        let ghost first = self.position();
        let ghost starts = token_starts(src, first, true);
        let mut all: Vec<Result<Token<'src>, Error>> = Vec::new();
        loop
            invariant
                self.wf(),
                self.text() == src,
                src == old(self).text(),
                starts == token_starts(src, old(self).position(), true),
                all@.len() <= starts.len(),
                starts.subrange(all@.len() as int, starts.len() as int) == token_starts(
                    src,
                    self.position(),
                    true,
                ),
                forall|i: int| 0 <= i < all@.len() ==> is_scanned_at(#[trigger] all@[i], src, starts[i]),
            ensures
                self.wf(),
                self.text() == src,
                self.position() == src.len(),
                all@.len() == starts.len(),
                forall|i: int| 0 <= i < all@.len() ==> is_scanned_at(#[trigger] all@[i], src, starts[i]),
            decreases src.len() - self.position(),
        {
            let ghost from = self.position();
            let ghost rest = token_starts(src, from, true);
            proof {
                lemma_scan_forward(src, from);
            }
            match self.scan_token() {
                None => {
                    break ;
                },
                Some(scanned) => {
                    proof {
                        let start = token_start(src, from);
                        assert(starts[all@.len() as int] == rest[0]);
                        assert(rest.subrange(1, rest.len() as int) =~= token_starts(
                            src,
                            token_end(src, start),
                            true,
                        ));
                    }
                    all.push(scanned);
                },
            }
        }
        proof {
            assert forall|i: int, j: int| 0 <= i <= j < all@.len() implies line_of(
                #[trigger] all@[i],
            ) <= line_of(#[trigger] all@[j]) by {
                if i < j {
                    lemma_token_starts_ordered(src, first, true, i, j);
                }
            }
        }
        all
    }
}

} // verus!
