//! Scanner: turns source text into tokens, tracking 1-based line and column
//! and whether whitespace preceded each token.
use vstd::prelude::*;

use crate::chars::{blank, digit, is_alphabetic, is_word_char, word_char, word_start};
use crate::text::{chars_of, string_of};
use crate::token::{is_word_token, Token};

verus! {

/// The 1-based (line, column) of index `i` of `s`, found by a linear scan:
/// a newline moves to column 1 of the next line, any other character one
/// column to the right.
pub open spec fn line_col(s: Seq<char>, i: int) -> (int, int)
    decreases i,
{
    if i <= 0 {
        (1, 1)
    } else {
        let p = line_col(s, i - 1);
        if s[i - 1] == '\n' {
            (p.0 + 1, 1)
        } else {
            (p.0, p.1 + 1)
        }
    }
}

/// `(l1, c1)` comes strictly before `(l2, c2)` in reading order.
pub open spec fn before(a: (int, int), b: (int, int)) -> bool {
    a.0 < b.0 || (a.0 == b.0 && a.1 < b.1)
}

/// Line and column stay between 1 and `i + 1`.
pub proof fn lemma_line_col_bounds(s: Seq<char>, i: int)
    requires
        0 <= i,
    ensures
        1 <= line_col(s, i).0 <= i + 1,
        1 <= line_col(s, i).1 <= i + 1,
    decreases i,
{
    if i > 0 {
        lemma_line_col_bounds(s, i - 1);
    }
}

/// Each newline advances the line counter by exactly one and resets the
/// column; any other character advances the column by one on the same line.
pub proof fn lemma_newline_step(s: Seq<char>, i: int)
    requires
        0 <= i < s.len(),
    ensures
        s[i] == '\n' ==> line_col(s, i + 1) == (line_col(s, i).0 + 1, 1int),
        s[i] != '\n' ==> line_col(s, i + 1) == (line_col(s, i).0, line_col(s, i).1 + 1),
{
}

/// Positions further into the text come strictly later in (line, column)
/// order.
pub proof fn lemma_positions_increase(s: Seq<char>, i: int, j: int)
    requires
        0 <= i < j,
    ensures
        before(line_col(s, i), line_col(s, j)),
    decreases j - i,
{
    if j - 1 > i {
        lemma_positions_increase(s, i, j - 1);
    }
}

/// The value of a string literal whose raw body is `s`: `\n`, `\t`, `\r`,
/// `\\` and `\"` stand for one character each; a backslash before any other
/// character, or at the very end, is kept as written.
pub open spec fn unescape(s: Seq<char>) -> Seq<char>
    decreases s.len(),
{
    if s.len() == 0 {
        Seq::empty()
    } else if s[0] == '\\' && s.len() >= 2 {
        escape_of(s[1]) + unescape(s.subrange(2, s.len() as int))
    } else {
        seq![s[0]] + unescape(s.subrange(1, s.len() as int))
    }
}

/// What a backslash followed by `c` stands for.
pub open spec fn escape_of(c: char) -> Seq<char> {
    if c == 'n' {
        seq!['\n']
    } else if c == 't' {
        seq!['\t']
    } else if c == 'r' {
        seq!['\r']
    } else if c == '\\' {
        seq!['\\']
    } else if c == '"' {
        seq!['"']
    } else {
        seq!['\\', c]
    }
}

/// Digit runs longer than this, without a decimal point, are kept as big
/// integers.
pub const MAX_EXACT_DIGITS: usize = 15;

/// `t` is the token for the numeric literal spelled `text`: a big integer
/// when it has no decimal point and more than fifteen digits, a number
/// otherwise; both keep the text exactly.
pub open spec fn is_number_token(text: Seq<char>, t: Token) -> bool {
    if !text.contains('.') && text.len() > MAX_EXACT_DIGITS {
        t is BigInteger && t->BigInteger_0@ == text
    } else {
        t is Number && t->Number_0@ == text
    }
}

/// Three `"` open at index `i` of `s`.
pub open spec fn triple_quote_at(s: Seq<char>, i: int) -> bool {
    0 <= i && i + 2 < s.len() && s[i] == '"' && s[i + 1] == '"' && s[i + 2] == '"'
}

/// The character after index `i` of `s` is `d`.
pub open spec fn next_is(s: Seq<char>, i: int, d: char) -> bool {
    i + 1 < s.len() && s[i + 1] == d
}

/// The operator or delimiter at index `i` of `s`, taking a second character
/// where one completes a two-character operator; `Illegal` for a character
/// that starts no token.
pub open spec fn punct_token(s: Seq<char>, i: int) -> Token {
    let c = s[i];
    if c == '+' {
        Token::Plus
    } else if c == '-' {
        if next_is(s, i, '>') {
            Token::Arrow
        } else {
            Token::Minus
        }
    } else if c == '*' {
        Token::Multiply
    } else if c == '/' {
        Token::Divide
    } else if c == '%' {
        Token::Modulo
    } else if c == '=' {
        if next_is(s, i, '=') {
            Token::Equal
        } else {
            Token::Assign
        }
    } else if c == '!' {
        if next_is(s, i, '=') {
            Token::NotEqual
        } else {
            Token::Not
        }
    } else if c == '<' {
        if next_is(s, i, '=') {
            Token::LessEqual
        } else {
            Token::Less
        }
    } else if c == '>' {
        if next_is(s, i, '=') {
            Token::GreaterEqual
        } else {
            Token::Greater
        }
    } else if c == '&' {
        if next_is(s, i, '&') {
            Token::And
        } else {
            Token::Illegal('&')
        }
    } else if c == '|' {
        if next_is(s, i, '|') {
            Token::Or
        } else {
            Token::Illegal('|')
        }
    } else if c == '(' {
        Token::LeftParen
    } else if c == ')' {
        Token::RightParen
    } else if c == '{' {
        Token::LeftBrace
    } else if c == '}' {
        Token::RightBrace
    } else if c == '[' {
        Token::LeftBracket
    } else if c == ']' {
        Token::RightBracket
    } else if c == ',' {
        Token::Comma
    } else if c == ':' {
        Token::Colon
    } else if c == ';' {
        Token::Semicolon
    } else {
        Token::Illegal(c)
    }
}

/// How many characters the operator at index `i` of `s` spans.
pub open spec fn punct_width(s: Seq<char>, i: int) -> int {
    let c = s[i];
    if (c == '-' && next_is(s, i, '>')) || ((c == '=' || c == '!' || c == '<' || c == '>')
        && next_is(s, i, '=')) || (c == '&' && next_is(s, i, '&')) || (c == '|' && next_is(
        s,
        i,
        '|',
    )) {
        2
    } else {
        1
    }
}

/// Where the run of blanks and comments that starts at index `i` of `s`
/// ends. `mode` 0 is between tokens, 1 inside a `//` comment (which stops
/// before its newline), 2 inside a `/* */` comment (which stops just past the
/// first `*/`, or at the end of the text).
pub open spec fn trivia_end(s: Seq<char>, i: int, mode: int) -> int
    decreases s.len() - i, mode,
{
    if i < 0 || i > s.len() {
        i
    } else if mode == 1 {
        if i < s.len() && s[i] != '\n' {
            trivia_end(s, i + 1, 1)
        } else {
            trivia_end(s, i, 0)
        }
    } else if mode == 2 {
        if i >= s.len() {
            trivia_end(s, i, 0)
        } else if s[i] == '*' && next_is(s, i, '/') {
            trivia_end(s, i + 2, 0)
        } else {
            trivia_end(s, i + 1, 2)
        }
    } else if i < s.len() && blank(s[i]) {
        trivia_end(s, i + 1, 0)
    } else if i + 1 < s.len() && s[i] == '/' && s[i + 1] == '/' {
        trivia_end(s, i + 2, 1)
    } else if i + 1 < s.len() && s[i] == '/' && s[i + 1] == '*' {
        trivia_end(s, i + 2, 2)
    } else {
        i
    }
}

/// The end of the run of identifier characters that starts at `i`.
pub open spec fn word_end(s: Seq<char>, i: int) -> int
    decreases s.len() - i,
{
    if 0 <= i < s.len() && word_char(s[i]) {
        word_end(s, i + 1)
    } else {
        i
    }
}

/// The end of the run of ASCII digits that starts at `i`.
pub open spec fn digits_end(s: Seq<char>, i: int) -> int
    decreases s.len() - i,
{
    if 0 <= i < s.len() && digit(s[i]) {
        digits_end(s, i + 1)
    } else {
        i
    }
}

/// The end of the numeric literal that starts at `i`: digits, then a `.`
/// and more digits when a digit follows the `.`.
pub open spec fn number_end(s: Seq<char>, i: int) -> int {
    let a = digits_end(s, i);
    if a + 1 < s.len() && s[a] == '.' && digit(s[a + 1]) {
        digits_end(s, a + 1)
    } else {
        a
    }
}

/// The index of the quote that closes a `"` string whose body starts at `i`
/// (a backslash makes the next character part of the body), or the end of
/// the text when none does.
pub open spec fn string_close(s: Seq<char>, i: int) -> int
    decreases s.len() - i,
{
    if i < 0 || i >= s.len() {
        s.len() as int
    } else if s[i] == '"' {
        i
    } else if s[i] == '\\' {
        if i + 1 < s.len() {
            string_close(s, i + 2)
        } else {
            s.len() as int
        }
    } else {
        string_close(s, i + 1)
    }
}

/// The index of the first `"""` at or after `i`, or the end of the text.
pub open spec fn triple_close(s: Seq<char>, i: int) -> int
    decreases s.len() - i,
{
    if i < 0 || i >= s.len() {
        s.len() as int
    } else if triple_quote_at(s, i) {
        i
    } else {
        triple_close(s, i + 1)
    }
}

/// Where the token that starts at `start` ends.
pub open spec fn token_end(s: Seq<char>, start: int) -> int {
    if start < 0 || start >= s.len() {
        start
    } else {
        let c = s[start];
        if c == '"' {
            if triple_quote_at(s, start) {
                let e = triple_close(s, start + 3);
                if e < s.len() {
                    e + 3
                } else {
                    s.len() as int
                }
            } else {
                let e = string_close(s, start + 1);
                if e < s.len() {
                    e + 1
                } else {
                    s.len() as int
                }
            }
        } else if c == '\n' {
            start + 1
        } else if digit(c) {
            number_end(s, start)
        } else if word_start(c) {
            word_end(s, start + 1)
        } else {
            start + punct_width(s, start)
        }
    }
}

/// `t` is the token that starts at `start` of `s`: `EOF` at the end of the
/// text; for a quote a string holding the unescaped body when a closing
/// quote follows, else `Illegal('"')`; a newline token; a number for ASCII
/// digits; a keyword or identifier for a word; else an operator, a
/// delimiter or `Illegal` of the character.
pub open spec fn token_value(s: Seq<char>, start: int, t: Token) -> bool {
    if start >= s.len() {
        t is EOF
    } else {
        let c = s[start];
        let end = token_end(s, start);
        if c == '"' {
            if triple_quote_at(s, start) {
                if triple_close(s, start + 3) < s.len() {
                    t is String && t->String_0@ == unescape(s.subrange(start + 3, end - 3))
                } else {
                    t == Token::Illegal('"')
                }
            } else if string_close(s, start + 1) < s.len() {
                t is String && t->String_0@ == unescape(s.subrange(start + 1, end - 1))
            } else {
                t == Token::Illegal('"')
            }
        } else if c == '\n' {
            t is Newline
        } else if digit(c) {
            is_number_token(s.subrange(start, end), t)
        } else if word_start(c) {
            is_word_token(s.subrange(start, end), t)
        } else {
            t == punct_token(s, start)
        }
    }
}

/// The text `s[start..end]` scans to `t`: `end` is where that token ends and
/// `t` is its value.
pub open spec fn token_matches(s: Seq<char>, start: int, end: int, t: Token) -> bool {
    end == token_end(s, start) && token_value(s, start, t)
}

/// Scanner state over a character buffer.
pub struct Lexer {
    input: Vec<char>,
    pos: usize,
    line: usize,
    column: usize,
    tok_start: usize,
    tok_line: usize,
    tok_column: usize,
    had_whitespace_before_token: bool,
}

impl Lexer {
    /// The characters being scanned.
    pub closed spec fn input_seq(&self) -> Seq<char> {
        self.input@
    }

    /// Index of the first character not yet scanned.
    pub closed spec fn position(&self) -> int {
        self.pos as int
    }

    /// Index where the token last returned starts.
    pub closed spec fn token_start(&self) -> int {
        self.tok_start as int
    }

    /// Whether whitespace directly preceded the token last returned.
    pub closed spec fn spec_had_whitespace(&self) -> bool {
        self.had_whitespace_before_token
    }

    /// The internal counters agree with a linear scan of the input.
    pub closed spec fn wf(&self) -> bool {
        &&& self.pos <= self.input.len()
        &&& self.input.len() < usize::MAX
        &&& self.tok_start <= self.pos
        &&& (self.line as int, self.column as int) == line_col(self.input@, self.pos as int)
        &&& (self.tok_line as int, self.tok_column as int) == line_col(
            self.input@,
            self.tok_start as int,
        )
    }

    /// A scanner at the start of `input`.
    pub fn new(input: &str) -> (r: Self)
        requires
            input@.len() < usize::MAX,
        ensures
            r.wf(),
            r.input_seq() == input@,
            r.position() == 0,
            r.token_start() == 0,
            !r.spec_had_whitespace(),
    {
        Lexer {
            input: chars_of(input),
            pos: 0,
            line: 1,
            column: 1,
            tok_start: 0,
            tok_line: 1,
            tok_column: 1,
            had_whitespace_before_token: false,
        }
    }

    /// Line where the token last returned starts (not the scanner's current
    /// line; see `line_after`).
    pub fn line(&self) -> (r: usize)
        requires
            self.wf(),
        ensures
            r == line_col(self.input_seq(), self.token_start()).0,
    {
        self.tok_line
    }

    /// Line the scanner has reached: the line just past the token last
    /// returned, so a token that spans newlines leaves it that many lines
    /// further on.
    pub fn line_after(&self) -> (r: usize)
        requires
            self.wf(),
        ensures
            r == line_col(self.input_seq(), self.position()).0,
    {
        self.line
    }

    /// Column the scanner has reached, just past the token last returned.
    pub fn column_after(&self) -> (r: usize)
        requires
            self.wf(),
        ensures
            r == line_col(self.input_seq(), self.position()).1,
    {
        self.column
    }

    /// Column where the token last returned starts (not the scanner's
    /// current column; see `column_after`).
    pub fn column(&self) -> (r: usize)
        requires
            self.wf(),
        ensures
            r == line_col(self.input_seq(), self.token_start()).1,
    {
        self.tok_column
    }

    /// Whether whitespace directly preceded the token last returned.
    pub fn had_whitespace(&self) -> (r: bool)
        ensures
            r == self.spec_had_whitespace(),
    {
        self.had_whitespace_before_token
    }

    /// The character at index `i`, if there is one.
    fn char_at(&self, i: usize) -> (r: Option<char>)
        ensures
            i < self.input@.len() ==> r == Some(self.input@[i as int]),
            i >= self.input@.len() ==> r is None,
    {
        if i < self.input.len() {
            Some(self.input[i])
        } else {
            None
        }
    }

    /// Whether the character `k` places ahead of the current one is `c`.
    fn ahead_is(&self, k: usize, c: char) -> (r: bool)
        requires
            self.pos <= self.input.len(),
            k <= 2,
            self.input.len() < usize::MAX,
        ensures
            r == (self.pos + k < self.input@.len() && self.input@[self.pos + k] == c),
    {
        if self.pos >= self.input.len() || k >= self.input.len() - self.pos {
            false
        } else {
            self.input[self.pos + k] == c
        }
    }

    /// Move one character forward.
    fn advance(&mut self)
        requires
            old(self).wf(),
            old(self).pos < old(self).input.len(),
        ensures
            final(self).wf(),
            final(self).pos == old(self).pos + 1,
            final(self).input == old(self).input,
            final(self).tok_start == old(self).tok_start,
            final(self).had_whitespace_before_token == old(self).had_whitespace_before_token,
    {
        proof {
            lemma_line_col_bounds(self.input@, self.pos + 1);
        }
        if self.input[self.pos] == '\n' {
            self.line = self.line + 1;
            self.column = 1;
        } else {
            self.column = self.column + 1;
        }
        self.pos = self.pos + 1;
    }

    /// Skip spaces, tabs and carriage returns.
    fn skip_blanks(&mut self)
        requires
            old(self).wf(),
        ensures
            final(self).wf(),
            final(self).input == old(self).input,
            final(self).tok_start == old(self).tok_start,
            final(self).had_whitespace_before_token == old(self).had_whitespace_before_token,
            old(self).pos <= final(self).pos,
            trivia_end(final(self).input@, final(self).pos as int, 0) == trivia_end(
                old(self).input@,
                old(self).pos as int,
                0,
            ),
            final(self).pos == final(self).input@.len() || !blank(
                final(self).input@[final(self).pos as int],
            ),
    {
        while self.pos < self.input.len() && (self.input[self.pos] == ' '
            || self.input[self.pos] == '\t' || self.input[self.pos] == '\r')
            invariant
                self.wf(),
                self.input == old(self).input,
                self.tok_start == old(self).tok_start,
                self.had_whitespace_before_token == old(self).had_whitespace_before_token,
                old(self).pos <= self.pos,
                trivia_end(self.input@, self.pos as int, 0) == trivia_end(
                    old(self).input@,
                    old(self).pos as int,
                    0,
                ),
            decreases self.input.len() - self.pos,
        {
            self.advance();
        }
    }

    /// Skip a `//` comment up to, not including, the end of its line.
    fn skip_line_comment(&mut self)
        requires
            old(self).wf(),
            old(self).pos + 1 < old(self).input.len(),
            old(self).input@[old(self).pos as int] == '/',
            old(self).input@[old(self).pos + 1] == '/',
        ensures
            final(self).wf(),
            final(self).input == old(self).input,
            final(self).tok_start == old(self).tok_start,
            final(self).had_whitespace_before_token == old(self).had_whitespace_before_token,
            old(self).pos < final(self).pos,
            trivia_end(final(self).input@, final(self).pos as int, 0) == trivia_end(
                old(self).input@,
                old(self).pos as int,
                0,
            ),
    {
        self.advance();
        self.advance();
        while self.pos < self.input.len() && self.input[self.pos] != '\n'
            invariant
                self.wf(),
                self.input == old(self).input,
                self.tok_start == old(self).tok_start,
                self.had_whitespace_before_token == old(self).had_whitespace_before_token,
                old(self).pos < self.pos,
                trivia_end(self.input@, self.pos as int, 1) == trivia_end(
                    old(self).input@,
                    old(self).pos as int,
                    0,
                ),
            decreases self.input.len() - self.pos,
        {
            self.advance();
        }
    }

    /// Skip a `/* ... */` comment, which may span lines, up to just past the
    /// first `*/`; an unterminated one runs to the end of the input.
    fn skip_block_comment(&mut self)
        requires
            old(self).wf(),
            old(self).pos + 1 < old(self).input.len(),
            old(self).input@[old(self).pos as int] == '/',
            old(self).input@[old(self).pos + 1] == '*',
        ensures
            final(self).wf(),
            final(self).input == old(self).input,
            final(self).tok_start == old(self).tok_start,
            final(self).had_whitespace_before_token == old(self).had_whitespace_before_token,
            old(self).pos < final(self).pos,
            trivia_end(final(self).input@, final(self).pos as int, 0) == trivia_end(
                old(self).input@,
                old(self).pos as int,
                0,
            ),
    {
        self.advance();
        self.advance();
        while self.pos < self.input.len() && !(self.input[self.pos] == '*' && self.ahead_is(1, '/'))
            invariant
                self.wf(),
                self.input == old(self).input,
                self.tok_start == old(self).tok_start,
                self.had_whitespace_before_token == old(self).had_whitespace_before_token,
                old(self).pos < self.pos,
                trivia_end(self.input@, self.pos as int, 2) == trivia_end(
                    old(self).input@,
                    old(self).pos as int,
                    0,
                ),
            decreases self.input.len() - self.pos,
        {
            self.advance();
        }
        if self.pos < self.input.len() {
            self.advance();
            self.advance();
        }
    }

    /// Skip whitespace and comments, up to where the next token starts.
    fn skip_trivia(&mut self)
        requires
            old(self).wf(),
        ensures
            final(self).wf(),
            final(self).input == old(self).input,
            old(self).pos <= final(self).pos,
            final(self).tok_start == old(self).tok_start,
            final(self).had_whitespace_before_token == old(self).had_whitespace_before_token,
            final(self).pos == trivia_end(old(self).input@, old(self).pos as int, 0),
    {
        loop
            invariant
                self.wf(),
                self.input == old(self).input,
                old(self).pos <= self.pos,
                self.tok_start == old(self).tok_start,
                self.had_whitespace_before_token == old(self).had_whitespace_before_token,
                trivia_end(self.input@, self.pos as int, 0) == trivia_end(
                    old(self).input@,
                    old(self).pos as int,
                    0,
                ),
            ensures
                self.pos == trivia_end(old(self).input@, old(self).pos as int, 0),
            decreases self.input.len() - self.pos,
        {
            self.skip_blanks();
            if self.ahead_is(0, '/') && self.ahead_is(1, '/') {
                self.skip_line_comment();
            } else if self.ahead_is(0, '/') && self.ahead_is(1, '*') {
                self.skip_block_comment();
            } else {
                break;
            }
        }
    }

    /// The text of `input[start..self.pos]` as a string.
    fn slice_text(&self, start: usize) -> (r: String)
        requires
            start <= self.pos <= self.input.len(),
        ensures
            r@ == self.input@.subrange(start as int, self.pos as int),
    {
        string_of(&self.input.as_slice()[start..self.pos])
    }

    /// Scan an identifier or keyword starting at the current character.
    fn read_word(&mut self) -> (r: Token)
        requires
            old(self).wf(),
            old(self).pos < old(self).input.len(),
            word_start(old(self).input@[old(self).pos as int]),
        ensures
            final(self).wf(),
            final(self).input == old(self).input,
            final(self).tok_start == old(self).tok_start,
            final(self).had_whitespace_before_token == old(self).had_whitespace_before_token,
            final(self).pos == word_end(old(self).input@, old(self).pos + 1),
            old(self).pos < final(self).pos,
            is_word_token(final(self).input@.subrange(old(self).pos as int, final(self).pos as int), r),
    {
        let start = self.pos;
        self.advance();
        while self.pos < self.input.len() && is_word_char(self.input[self.pos])
            invariant
                self.wf(),
                self.input == old(self).input,
                self.tok_start == old(self).tok_start,
                self.had_whitespace_before_token == old(self).had_whitespace_before_token,
                start < self.pos,
                start == old(self).pos,
                word_end(self.input@, self.pos as int) == word_end(self.input@, start + 1),
            decreases self.input.len() - self.pos,
        {
            self.advance();
        }
        let word = self.slice_text(start);
        Token::lookup_keyword(word.as_str())
    }

    /// Skip a run of ASCII digits.
    fn skip_digits(&mut self)
        requires
            old(self).wf(),
        ensures
            final(self).wf(),
            final(self).input == old(self).input,
            final(self).tok_start == old(self).tok_start,
            final(self).had_whitespace_before_token == old(self).had_whitespace_before_token,
            final(self).pos == digits_end(old(self).input@, old(self).pos as int),
            old(self).pos <= final(self).pos,
            old(self).pos < old(self).input@.len() && digit(old(self).input@[old(self).pos as int])
                ==> old(self).pos < final(self).pos,
            forall|k: int|
                old(self).pos <= k < final(self).pos ==> digit(#[trigger] final(self).input@[k]),
    {
        while self.pos < self.input.len() && '0' <= self.input[self.pos] && self.input[self.pos]
            <= '9'
            invariant
                self.wf(),
                self.input == old(self).input,
                self.tok_start == old(self).tok_start,
                self.had_whitespace_before_token == old(self).had_whitespace_before_token,
                old(self).pos <= self.pos,
                digits_end(self.input@, self.pos as int) == digits_end(
                    self.input@,
                    old(self).pos as int,
                ),
                forall|k: int| old(self).pos <= k < self.pos ==> digit(#[trigger] self.input@[k]),
            decreases self.input.len() - self.pos,
        {
            self.advance();
        }
    }

    /// Scan a numeric literal: ASCII digits with at most one decimal point,
    /// which is taken only when a digit follows it.
    fn read_number(&mut self) -> (r: Token)
        requires
            old(self).wf(),
            old(self).pos < old(self).input.len(),
            digit(old(self).input@[old(self).pos as int]),
        ensures
            final(self).wf(),
            final(self).input == old(self).input,
            final(self).tok_start == old(self).tok_start,
            final(self).had_whitespace_before_token == old(self).had_whitespace_before_token,
            final(self).pos == number_end(old(self).input@, old(self).pos as int),
            old(self).pos < final(self).pos,
            is_number_token(final(self).input@.subrange(old(self).pos as int, final(self).pos as int), r),
    {
        let ghost s = self.input@;
        let start = self.pos;
        self.skip_digits();
        let a = self.pos;
        proof {
            assert(a > start);
        }
        let mut has_dot = false;
        if self.pos + 1 < self.input.len() && self.input[self.pos] == '.' && '0' <= self.input[self.pos
            + 1] && self.input[self.pos + 1] <= '9' {
            self.advance();
            self.skip_digits();
            has_dot = true;
        }
        proof {
            let sub = s.subrange(start as int, self.pos as int);
            if has_dot {
                assert(sub[a - start] == '.');
            } else {
                assert(self.pos == a);
                assert forall|k: int| 0 <= k < sub.len() implies sub[k] != '.' by {
                    assert(digit(s[start + k]));
                }
            }
        }
        let text = self.slice_text(start);
        if !has_dot && self.pos - start > MAX_EXACT_DIGITS {
            Token::BigInteger(text)
        } else {
            Token::Number(text)
        }
    }

    /// Scan a `"` string literal; `Illegal('"')` when it is not closed.
    fn read_string(&mut self) -> (r: Token)
        requires
            old(self).wf(),
            old(self).pos < old(self).input.len(),
            old(self).input@[old(self).pos as int] == '"',
            !triple_quote_at(old(self).input@, old(self).pos as int),
        ensures
            final(self).wf(),
            final(self).input == old(self).input,
            final(self).tok_start == old(self).tok_start,
            final(self).had_whitespace_before_token == old(self).had_whitespace_before_token,
            final(self).pos == token_end(old(self).input@, old(self).pos as int),
            old(self).pos < final(self).pos,
            token_value(old(self).input@, old(self).pos as int, r),
    {
        self.advance();
        let body = self.pos;
        while self.pos < self.input.len() && self.input[self.pos] != '"'
            invariant
                self.wf(),
                self.input == old(self).input,
                self.tok_start == old(self).tok_start,
                self.had_whitespace_before_token == old(self).had_whitespace_before_token,
                body == old(self).pos + 1,
                body <= self.pos,
                string_close(self.input@, self.pos as int) == string_close(
                    self.input@,
                    body as int,
                ),
            decreases self.input.len() - self.pos,
        {
            if self.input[self.pos] == '\\' {
                self.advance();
                if self.pos < self.input.len() {
                    self.advance();
                }
            } else {
                self.advance();
            }
        }
        if self.pos >= self.input.len() {
            return Token::Illegal('"');
        }
        let end = self.pos;
        self.advance();
        Token::String(self.process_escapes(body, end))
    }

    /// Scan a `"""` string literal, which may span lines and runs to the next
    /// `"""`; `Illegal('"')` when it is not closed.
    fn read_multiline_string(&mut self) -> (r: Token)
        requires
            old(self).wf(),
            triple_quote_at(old(self).input@, old(self).pos as int),
        ensures
            final(self).wf(),
            final(self).input == old(self).input,
            final(self).tok_start == old(self).tok_start,
            final(self).had_whitespace_before_token == old(self).had_whitespace_before_token,
            final(self).pos == token_end(old(self).input@, old(self).pos as int),
            old(self).pos < final(self).pos,
            token_value(old(self).input@, old(self).pos as int, r),
    {
        self.advance();
        self.advance();
        self.advance();
        let body = self.pos;
        loop
            invariant
                self.wf(),
                self.input == old(self).input,
                self.tok_start == old(self).tok_start,
                self.had_whitespace_before_token == old(self).had_whitespace_before_token,
                body == old(self).pos + 3,
                body <= self.pos,
                triple_quote_at(old(self).input@, old(self).pos as int),
                triple_close(self.input@, self.pos as int) == triple_close(
                    self.input@,
                    body as int,
                ),
            decreases self.input.len() - self.pos,
        {
            if self.pos >= self.input.len() {
                proof {
                    assert(triple_close(self.input@, self.pos as int) == self.input@.len());
                }
                return Token::Illegal('"');
            }
            if self.ahead_is(0, '"') && self.ahead_is(1, '"') && self.ahead_is(2, '"') {
                proof {
                    assert(triple_quote_at(self.input@, self.pos as int));
                    assert(triple_close(self.input@, self.pos as int) == self.pos);
                }
                let end = self.pos;
                self.advance();
                self.advance();
                self.advance();
                return Token::String(self.process_escapes(body, end));
            }
            self.advance();
        }
    }

    /// Scan and return the next token. Whitespace and comments are skipped;
    /// afterwards the line, column and whitespace flag describe this token.
    pub fn next_token(&mut self) -> (r: Token)
        requires
            old(self).wf(),
        ensures
            final(self).wf(),
            final(self).input_seq() == old(self).input_seq(),
            old(self).position() <= final(self).token_start() <= final(self).position(),
            0 <= final(self).token_start(),
            final(self).position() <= final(self).input_seq().len(),
            (r is EOF) == (final(self).token_start() == final(self).input_seq().len()),
            !(r is EOF) ==> final(self).token_start() < final(self).position(),
            final(self).spec_had_whitespace() == (old(self).position() < final(self).token_start()
                && blank(final(self).input_seq()[final(self).token_start() - 1])),
            final(self).token_start() == trivia_end(old(self).input_seq(), old(self).position(), 0),
            token_matches(
                final(self).input_seq(),
                final(self).token_start(),
                final(self).position(),
                r,
            ),
    {
        let old_pos = self.pos;
        self.skip_trivia();
        let start = self.pos;
        self.tok_start = start;
        self.tok_line = self.line;
        self.tok_column = self.column;
        self.had_whitespace_before_token = start > old_pos && (self.input[start - 1] == ' '
            || self.input[start - 1] == '\t' || self.input[start - 1] == '\r');
        if start >= self.input.len() {
            return Token::EOF;
        }
        let c = self.input[start];
        if c == '"' {
            if self.ahead_is(1, '"') && self.ahead_is(2, '"') {
                return self.read_multiline_string();
            }
            return self.read_string();
        }
        if c == '\n' {
            self.advance();
            return Token::Newline;
        }
        if '0' <= c && c <= '9' {
            return self.read_number();
        }
        if c == '_' || is_alphabetic(c) {
            return self.read_word();
        }
        self.advance();
        match c {
            '+' => Token::Plus,
            '-' => {
                if self.ahead_is(0, '>') {
                    self.advance();
                    Token::Arrow
                } else {
                    Token::Minus
                }
            },
            '*' => Token::Multiply,
            '/' => Token::Divide,
            '%' => Token::Modulo,
            '=' => {
                if self.ahead_is(0, '=') {
                    self.advance();
                    Token::Equal
                } else {
                    Token::Assign
                }
            },
            '!' => {
                if self.ahead_is(0, '=') {
                    self.advance();
                    Token::NotEqual
                } else {
                    Token::Not
                }
            },
            '<' => {
                if self.ahead_is(0, '=') {
                    self.advance();
                    Token::LessEqual
                } else {
                    Token::Less
                }
            },
            '>' => {
                if self.ahead_is(0, '=') {
                    self.advance();
                    Token::GreaterEqual
                } else {
                    Token::Greater
                }
            },
            '&' => {
                if self.ahead_is(0, '&') {
                    self.advance();
                    Token::And
                } else {
                    Token::Illegal('&')
                }
            },
            '|' => {
                if self.ahead_is(0, '|') {
                    self.advance();
                    Token::Or
                } else {
                    Token::Illegal('|')
                }
            },
            '(' => Token::LeftParen,
            ')' => Token::RightParen,
            '{' => Token::LeftBrace,
            '}' => Token::RightBrace,
            '[' => Token::LeftBracket,
            ']' => Token::RightBracket,
            ',' => Token::Comma,
            ':' => Token::Colon,
            ';' => Token::Semicolon,
            _ => Token::Illegal(c),
        }
    }

    /// Decode the escapes in a raw string body.
    fn process_escapes(&self, start: usize, end: usize) -> (r: String)
        requires
            start <= end <= self.input.len(),
        ensures
            r@ == unescape(self.input@.subrange(start as int, end as int)),
    {
        let mut out: Vec<char> = Vec::new();
        let mut i = start;
        while i < end
            invariant
                start <= i <= end <= self.input.len(),
                out@ + unescape(self.input@.subrange(i as int, end as int)) == unescape(
                    self.input@.subrange(start as int, end as int),
                ),
            decreases end - i,
        {
            let ghost rest = self.input@.subrange(i as int, end as int);
            let c = self.input[i];
            let ghost before = out@;
            if c == '\\' && i + 1 < end {
                let e = self.input[i + 1];
                if e == 'n' {
                    out.push('\n');
                } else if e == 't' {
                    out.push('\t');
                } else if e == 'r' {
                    out.push('\r');
                } else if e == '\\' {
                    out.push('\\');
                } else if e == '"' {
                    out.push('"');
                } else {
                    out.push('\\');
                    out.push(e);
                }
                proof {
                    assert(rest.subrange(2, rest.len() as int) =~= self.input@.subrange(
                        i + 2,
                        end as int,
                    ));
                    assert(out@ =~= before + escape_of(e));
                }
                i = i + 2;
            } else {
                out.push(c);
                proof {
                    assert(rest.subrange(1, rest.len() as int) =~= self.input@.subrange(
                        i + 1,
                        end as int,
                    ));
                }
                i = i + 1;
            }
        }
        string_of(out.as_slice())
    }
}

} // verus!
