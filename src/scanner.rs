use vstd::prelude::*;

use crate::error::InterpreterError;
use crate::token::{spec_keyword, token_view, Token, TokenType};
use vstd::string::StringSliceAdditionalSpecFns;

verus! {

/// Whether `c` has Unicode's `Alphabetic` property.
pub uninterp spec fn alphabetic(c: char) -> bool;

/// Relies on `char::is_alphabetic`: whether `c` has Unicode's `Alphabetic`
/// property, which depends on `c` alone.
#[verifier::external_body]
fn is_alphabetic(c: char) -> (r: bool)
    ensures
        r == alphabetic(c),
{
    c.is_alphabetic()
}

/// Relies on `String::push`: appends `c` to the end of `s`.
#[verifier::external_body]
fn push_char(s: &mut String, c: char)
    ensures
        final(s)@ == old(s)@.push(c),
{
    s.push(c)
}

/// What the token view holds: kind, text, line, column.
pub type TokenView = (TokenType, Option<Seq<char>>, usize, usize);

pub open spec fn peek_at(s: Seq<char>, i: int) -> Option<char> {
    if 0 <= i < s.len() {
        Some(s[i])
    } else {
        None
    }
}

/// The character at `i`, or NUL where there is none.
pub open spec fn char_at(s: Seq<char>, i: int) -> char {
    if 0 <= i < s.len() {
        s[i]
    } else {
        '\0'
    }
}

/// The characters of `s` from `a` up to `b`.
pub open spec fn chars_between(s: Seq<char>, a: int, b: int) -> Seq<char> {
    Seq::new((b - a) as nat, |k: int| s[a + k])
}

pub open spec fn spec_is_alpha(c: char) -> bool {
    alphabetic(c) || c == '_'
}

pub open spec fn spec_is_digit(c: char) -> bool {
    '0' <= c <= '9'
}

/// The next line number; it stays put at the largest one.
pub open spec fn next_line(line: usize) -> usize {
    if line < usize::MAX {
        (line + 1) as usize
    } else {
        line
    }
}

/// Where the run of identifier characters from `i` ends.
pub open spec fn ident_end(s: Seq<char>, i: int) -> int
    decreases s.len() - i,
{
    if 0 <= i < s.len() && spec_is_alpha(s[i]) {
        ident_end(s, i + 1)
    } else {
        i
    }
}

/// Where the run of digits from `i` ends.
pub open spec fn digits_end(s: Seq<char>, i: int) -> int
    decreases s.len() - i,
{
    if 0 <= i < s.len() && spec_is_digit(s[i]) {
        digits_end(s, i + 1)
    } else {
        i
    }
}

/// Where the number whose remaining digits start at `i` ends: digits, then
/// optionally a point and more digits.
pub open spec fn number_end(s: Seq<char>, i: int) -> int {
    let j = digits_end(s, i);
    if peek_at(s, j) == Some('.') {
        digits_end(s, j + 1)
    } else {
        j
    }
}

/// Where a comment whose text starts at `i` ends: at the newline or at the
/// end of input.
pub open spec fn comment_end(s: Seq<char>, n: int, i: int) -> int
    decreases n - i,
{
    if i < n && peek_at(s, i) != Some('\n') {
        comment_end(s, n, i + 1)
    } else {
        i
    }
}

/// The body of a string literal from `i` on: its text, the offset where it
/// stops (at a quote or the end of input), and the line reached.
pub open spec fn string_scan(s: Seq<char>, n: int, i: int, line: usize) -> (Seq<char>, int, usize)
    decreases n - i,
{
    if peek_at(s, i) == Some('"') || i >= n {
        (Seq::empty(), i, line)
    } else {
        let l2 = if peek_at(s, i) == Some('\n') {
            next_line(line)
        } else {
            line
        };
        let rest = string_scan(s, n, i + 1, l2);
        (seq![char_at(s, i)] + rest.0, rest.1, rest.2)
    }
}

/// The kind of a token that is one character whatever follows.
pub open spec fn single_char_token(c: char) -> Option<TokenType> {
    if c == '(' {
        Some(TokenType::LeftParen)
    } else if c == ')' {
        Some(TokenType::RightParen)
    } else if c == '{' {
        Some(TokenType::LeftBrace)
    } else if c == '}' {
        Some(TokenType::RightBrace)
    } else if c == ',' {
        Some(TokenType::Comma)
    } else if c == '.' {
        Some(TokenType::Dot)
    } else if c == '-' {
        Some(TokenType::Minus)
    } else if c == '+' {
        Some(TokenType::Plus)
    } else if c == ';' {
        Some(TokenType::Semicolon)
    } else if c == '*' {
        Some(TokenType::Star)
    } else {
        None
    }
}

/// The kinds of an operator that may be followed by `=`: alone, and with
/// the `=`.
pub open spec fn operator_tokens(c: char) -> Option<(TokenType, TokenType)> {
    if c == '!' {
        Some((TokenType::Bang, TokenType::BangEqual))
    } else if c == '=' {
        Some((TokenType::Equal, TokenType::EqualEqual))
    } else if c == '<' {
        Some((TokenType::Less, TokenType::LessEqual))
    } else if c == '>' {
        Some((TokenType::Greater, TokenType::GreaterEqual))
    } else {
        None
    }
}

/// The kind of a word: its keyword, or an identifier.
pub open spec fn word_token(lexeme: Seq<char>) -> TokenType {
    match spec_keyword(lexeme) {
        Some(t) => t,
        None => TokenType::Identifier,
    }
}

/// One token scanned from offset `cur` of `s`, whose input is `n` long, at
/// `line`, the token starting at `start`: the token (or `None` for
/// whitespace and comments) or the failure (the offending character, or
/// `None` at an unterminated string or the end of input), then the offset
/// and line reached.
pub open spec fn spec_scan_token(s: Seq<char>, n: int, cur: int, line: usize, start: usize) -> (
    Result<Option<TokenView>, Option<char>>,
    int,
    usize,
) {
    let cur1 = cur + 1;
    match peek_at(s, cur) {
        None => (Err(None), cur1, line),
        Some(c) => if single_char_token(c) is Some {
            (Ok(Some((single_char_token(c)->0, None, line, start))), cur1, line)
        } else if operator_tokens(c) is Some {
            let kinds = operator_tokens(c)->0;
            if cur1 < n && peek_at(s, cur1) == Some('=') {
                (Ok(Some((kinds.1, None, line, start))), cur1 + 1, line)
            } else {
                (Ok(Some((kinds.0, None, line, start))), cur1, line)
            }
        } else if c == '/' {
            if cur1 < n && peek_at(s, cur1) == Some('/') {
                (Ok(None), comment_end(s, n, cur1 + 1), line)
            } else {
                (Ok(Some((TokenType::Slash, None, line, start))), cur1, line)
            }
        } else if c == ' ' || c == '\r' || c == '\t' {
            (Ok(None), cur1, line)
        } else if c == '\n' {
            (Ok(None), cur1, next_line(line))
        } else if c == '"' {
            let (text, e, ln) = string_scan(s, n, cur1, line);
            if e >= n {
                (Err(None), e, ln)
            } else {
                (Ok(Some((TokenType::String, Some(text), ln, start))), e + 1, ln)
            }
        } else if spec_is_digit(c) {
            let e = number_end(s, cur1);
            (Ok(Some((TokenType::Number, Some(seq![c] + chars_between(s, cur1, e)), line, start))), e, line)
        } else if spec_is_alpha(c) {
            let e = ident_end(s, cur1);
            let text = seq![c] + chars_between(s, cur1, e);
            (Ok(Some((word_token(text), Some(text), line, start))), e, line)
        } else {
            (Err(Some(c)), cur1, line)
        },
    }
}

/// Prepends a scanned token, if any, to the tokens after it.
pub open spec fn prepend_token(t: Option<TokenView>, rest: Result<Seq<TokenView>, Option<char>>) -> Result<
    Seq<TokenView>,
    Option<char>,
> {
    match rest {
        Ok(ts) => match t {
            Some(tv) => Ok(seq![tv] + ts),
            None => Ok(ts),
        },
        Err(e) => Err(e),
    }
}

/// Every token from offset `cur` to the end of input, closed by `Eof`, or
/// the first failure; then the offset, line and token start reached.
pub open spec fn spec_scan_all(s: Seq<char>, n: int, cur: int, line: usize, start: usize) -> (
    Result<Seq<TokenView>, Option<char>>,
    int,
    usize,
    usize,
)
    decreases n - cur,
{
    if cur >= n {
        (Ok(seq![(TokenType::Eof, None, line, start)]), cur, line, start)
    } else {
        let st = cur as usize;
        let (r, c2, l2) = spec_scan_token(s, n, cur, line, st);
        match r {
            Err(e) => (Err(e), c2, l2, st),
            Ok(t) => if c2 >= n {
                (prepend_token(t, Ok(seq![(TokenType::Eof, None, l2, st)])), c2, l2, st)
            } else if c2 > cur {
                let rest = spec_scan_all(s, n, c2, l2, st);
                (prepend_token(t, rest.0), rest.1, rest.2, rest.3)
            } else {
                (Err(None), c2, l2, st)
            },
        }
    }
}

/// `e` is the scanner error for the failure `c`: the offending character
/// as text, or none.
pub open spec fn lex_error_matches(e: InterpreterError, c: Option<char>) -> bool {
    match c {
        None => e == InterpreterError::ScannerError(None),
        Some(ch) => e matches InterpreterError::ScannerError(Some(t)) && t@ == seq![ch],
    }
}

/// The views of a list of tokens.
pub open spec fn tokens_view(ts: Seq<Token>) -> Seq<TokenView> {
    ts.map_values(|t: Token| token_view(t))
}

/// Turns source text into tokens.
pub struct Scanner {
    source: Vec<char>,
    start: usize,
    pub current: usize,
    pub line: usize,
    /// The length of the source text in bytes; scanning ends when
    /// `current` reaches it.
    source_length: usize,
}

impl Scanner {
    pub closed spec fn spec_source(&self) -> Seq<char> {
        self.source@
    }

    pub closed spec fn spec_start(&self) -> usize {
        self.start
    }

    pub closed spec fn spec_length(&self) -> usize {
        self.source_length
    }

    pub closed spec fn spec_current(&self) -> usize {
        self.current
    }

    pub closed spec fn spec_line(&self) -> usize {
        self.line
    }

    /// `current` stays within the text, counted in characters or in bytes.
    pub closed spec fn wf(&self) -> bool {
        &&& self.current <= self.source@.len() || self.current <= self.source_length
        &&& self.source@.len() <= usize::MAX
    }

    pub fn new(source: &str) -> (r: Scanner)
        ensures
            r.spec_source() == source@,
            r.spec_length() == source.spec_bytes().len() as usize,
            r.spec_start() == 0,
            r.spec_current() == 0,
            r.spec_line() == 1,
            r.wf(),
    {
        let source_length = source.len();
        let mut chars: Vec<char> = Vec::new();
        for c in it: source.chars()
            invariant
                chars@ == it.seq().subrange(0, it.index() as int),
        {
            chars.push(c);
            assert(chars@ =~= it.seq().subrange(0, it.index() + 1));
        }
        assert(chars@ =~= source@);
        // the call tells the proof that the length fits a usize
        let _ = chars.len();
        Scanner { source: chars, start: 0, current: 0, line: 1, source_length }
    }

    fn is_at_end(&self) -> (r: bool)
        ensures
            r == (self.current >= self.source_length),
    {
        self.current >= self.source_length
    }

    fn peek(&self) -> (r: Option<char>)
        ensures
            r == peek_at(self.source@, self.current as int),
    {
        if self.current < self.source.len() {
            Some(self.source[self.current])
        } else {
            None
        }
    }

    fn advance(&mut self) -> (r: Option<char>)
        requires
            old(self).current < usize::MAX,
        ensures
            r == peek_at(old(self).source@, old(self).current as int),
            final(self).current == old(self).current + 1,
            final(self).source == old(self).source,
            final(self).start == old(self).start,
            final(self).line == old(self).line,
            final(self).source_length == old(self).source_length,
    {
        let r = self.peek();
        self.current = self.current + 1;
        r
    }

    /// Consumes the next character if it is `expected`.
    fn token_match(&mut self, expected: char) -> (r: bool)
        requires
            old(self).wf(),
        ensures
            r == (old(self).current < old(self).source_length && peek_at(
                old(self).source@,
                old(self).current as int,
            ) == Some(expected)),
            final(self).current == if r {
                old(self).current + 1
            } else {
                old(self).current as int
            },
            final(self).source == old(self).source,
            final(self).start == old(self).start,
            final(self).line == old(self).line,
            final(self).source_length == old(self).source_length,
            final(self).wf(),
    {
        if self.is_at_end() {
            return false;
        }
        if self.peek_is(expected) {
            self.advance();
            return true;
        }
        false
    }

    fn is_digit(c: Option<char>) -> (r: bool)
        ensures
            r == (c matches Some(ch) && spec_is_digit(ch)),
    {
        match c {
            Some(c) => '0' <= c && c <= '9',
            None => false,
        }
    }

    fn is_alpha(c: char) -> (r: bool)
        ensures
            r == spec_is_alpha(c),
    {
        is_alphabetic(c) || c == '_'
    }

    fn peek_is(&self, expected: char) -> (r: bool)
        ensures
            r == (peek_at(self.source@, self.current as int) == Some(expected)),
    {
        match self.peek() {
            Some(c) => c == expected,
            None => false,
        }
    }

    fn peek_is_alpha(&self) -> (r: bool)
        ensures
            r == (peek_at(self.source@, self.current as int) matches Some(c) && spec_is_alpha(c)),
    {
        match self.peek() {
            Some(c) => Self::is_alpha(c),
            None => false,
        }
    }
}

/// A run of digits never ends before it starts.
pub proof fn lemma_digits_end(s: Seq<char>, i: int)
    ensures
        digits_end(s, i) >= i,
    decreases s.len() - i,
{
    if 0 <= i < s.len() && spec_is_digit(s[i]) {
        lemma_digits_end(s, i + 1);
    }
}

/// A run of identifier characters never ends before it starts.
pub proof fn lemma_ident_end(s: Seq<char>, i: int)
    ensures
        ident_end(s, i) >= i,
    decreases s.len() - i,
{
    if 0 <= i < s.len() && spec_is_alpha(s[i]) {
        lemma_ident_end(s, i + 1);
    }
}

/// A string body never ends before it starts.
pub proof fn lemma_string_scan_end(s: Seq<char>, n: int, i: int, line: usize)
    ensures
        string_scan(s, n, i, line).1 >= i,
    decreases n - i,
{
    if !(peek_at(s, i) == Some('"') || i >= n) {
        let l2 = if peek_at(s, i) == Some('\n') {
            next_line(line)
        } else {
            line
        };
        lemma_string_scan_end(s, n, i + 1, l2);
    }
}

/// The scanned token's result matches the spec's.
pub open spec fn token_matches(
    r: Result<Option<Token>, InterpreterError>,
    s: Result<Option<TokenView>, Option<char>>,
) -> bool {
    match s {
        Ok(None) => r == Ok::<Option<Token>, InterpreterError>(None),
        Ok(Some(tv)) => r matches Ok(Some(t)) && token_view(t) == tv,
        Err(c) => r matches Err(e) && lex_error_matches(e, c),
    }
}

/// `pre` followed by the tokens of a scan, whose end state is kept.
pub open spec fn after_tokens(
    pre: Seq<TokenView>,
    r: (Result<Seq<TokenView>, Option<char>>, int, usize, usize),
) -> (Result<Seq<TokenView>, Option<char>>, int, usize, usize) {
    (
        match r.0 {
            Ok(ts) => Ok(pre + ts),
            Err(e) => Err(e),
        },
        r.1,
        r.2,
        r.3,
    )
}

impl Scanner {
    /// Whether scanning a string literal goes on: no closing quote yet and
    /// input left.
    fn in_string(&self) -> (r: bool)
        ensures
            r == (peek_at(self.source@, self.current as int) != Some('"') && self.current
                < self.source_length),
    {
        !self.peek_is('"') && !self.is_at_end()
    }

    /// Whether a comment goes on: no newline yet and input left.
    fn in_comment(&self) -> (r: bool)
        ensures
            r == (peek_at(self.source@, self.current as int) != Some('\n') && self.current
                < self.source_length),
    {
        !self.peek_is('\n') && !self.is_at_end()
    }

    fn simple_token(&self, token_type: TokenType) -> (r: Token)
        ensures
            token_view(r) == (token_type, None::<Seq<char>>, self.line, self.start),
    {
        Token::new(token_type, None, self.line, self.start)
    }

    /// Scans the rest of an identifier or keyword whose first character,
    /// already consumed, is `start_char`.
    pub fn scan_identifier(&mut self, start_char: char) -> (r: Result<Option<Token>, InterpreterError>)
        requires
            old(self).wf(),
        ensures
            final(self).wf(),
            final(self).spec_source() == old(self).spec_source(),
            final(self).spec_length() == old(self).spec_length(),
            final(self).spec_start() == old(self).spec_start(),
            final(self).spec_line() == old(self).spec_line(),
            final(self).spec_current() == ident_end(old(self).spec_source(), old(self).spec_current() as int),
            ({
                let text = seq![start_char] + chars_between(
                    old(self).spec_source(),
                    old(self).spec_current() as int,
                    final(self).spec_current() as int,
                );
                r matches Ok(Some(t)) && token_view(t) == (
                    word_token(text),
                    Some(text),
                    old(self).spec_line(),
                    old(self).spec_start(),
                )
            }),
    {
        let ghost s = self.source@;
        let ghost c0 = self.current as int;
        let mut lexeme = String::new();
        push_char(&mut lexeme, start_char);
        while self.peek_is_alpha()
            invariant
                self.source@ == s,
                self.start == old(self).start,
                self.line == old(self).line,
                self.source_length == old(self).source_length,
                self.wf(),
                c0 <= self.current,
                ident_end(s, self.current as int) == ident_end(s, c0),
                lexeme@ == seq![start_char] + chars_between(s, c0, self.current as int),
            decreases s.len() - self.current,
        {
            let c = self.advance();
            match c {
                Some(c) => push_char(&mut lexeme, c),
                None => {},
            }
            assert(lexeme@ =~= seq![start_char] + chars_between(s, c0, self.current as int));
        }
        let token_type = match TokenType::scan_for_keyword(lexeme.as_str()) {
            Some(t) => t,
            None => TokenType::Identifier,
        };
        Ok(Some(Token::new(token_type, Some(lexeme), self.line, self.start)))
    }

    /// Consumes digits for as long as they come.
    fn skip_digits(&mut self, lexeme: &mut String)
        requires
            old(self).wf(),
        ensures
            final(self).wf(),
            final(self).source == old(self).source,
            final(self).source_length == old(self).source_length,
            final(self).start == old(self).start,
            final(self).line == old(self).line,
            final(self).current == digits_end(old(self).source@, old(self).current as int),
            final(lexeme)@ == old(lexeme)@ + chars_between(
                old(self).source@,
                old(self).current as int,
                final(self).current as int,
            ),
    {
        let ghost s = self.source@;
        let ghost c0 = self.current as int;
        let ghost l0 = lexeme@;
        while Self::is_digit(self.peek())
            invariant
                self.source@ == s,
                self.source == old(self).source,
                self.start == old(self).start,
                self.line == old(self).line,
                self.source_length == old(self).source_length,
                self.wf(),
                c0 <= self.current,
                digits_end(s, self.current as int) == digits_end(s, c0),
                lexeme@ == l0 + chars_between(s, c0, self.current as int),
            decreases s.len() - self.current,
        {
            let c = self.advance();
            match c {
                Some(c) => push_char(lexeme, c),
                None => {},
            }
            assert(lexeme@ =~= l0 + chars_between(s, c0, self.current as int));
        }
    }

    /// Scans the rest of a number literal whose first digit, already
    /// consumed, is `start_char`: digits, then a point and digits if a point
    /// follows.
    pub fn scan_number(&mut self, start_char: char) -> (r: Result<Option<Token>, InterpreterError>)
        requires
            old(self).wf(),
        ensures
            final(self).wf(),
            final(self).spec_source() == old(self).spec_source(),
            final(self).spec_length() == old(self).spec_length(),
            final(self).spec_start() == old(self).spec_start(),
            final(self).spec_line() == old(self).spec_line(),
            final(self).spec_current() == number_end(old(self).spec_source(), old(self).spec_current() as int),
            r matches Ok(Some(t)) && token_view(t) == (
                TokenType::Number,
                Some(seq![start_char] + chars_between(
                    old(self).spec_source(),
                    old(self).spec_current() as int,
                    final(self).spec_current() as int,
                )),
                old(self).spec_line(),
                old(self).spec_start(),
            ),
    {
        let ghost s = self.source@;
        let ghost c0 = self.current as int;
        let mut lexeme = String::new();
        push_char(&mut lexeme, start_char);
        self.skip_digits(&mut lexeme);
        if self.peek_is('.') {
            let ghost c1 = self.current as int;
            proof {
                lemma_digits_end(s, c0);
            }
            self.advance();
            push_char(&mut lexeme, '.');
            let ghost l1 = lexeme@;
            self.skip_digits(&mut lexeme);
            proof {
                lemma_digits_end(s, c1 + 1);
                assert(chars_between(s, c0, c1) + seq!['.'] + chars_between(s, c1 + 1, self.current as int)
                    =~= chars_between(s, c0, self.current as int));
                assert(lexeme@ =~= seq![start_char] + chars_between(s, c0, self.current as int));
            }
        }
        assert(lexeme@ =~= seq![start_char] + chars_between(s, c0, self.current as int));
        Ok(Some(Token::new(TokenType::Number, Some(lexeme), self.line, self.start)))
    }

    /// Scans the rest of a string literal whose opening quote is already
    /// consumed, up to and past the closing quote; input that ends first is
    /// an unterminated string.
    pub fn scan_string(&mut self) -> (r: Result<Option<Token>, InterpreterError>)
        requires
            old(self).wf(),
        ensures
            final(self).wf(),
            final(self).spec_source() == old(self).spec_source(),
            final(self).spec_length() == old(self).spec_length(),
            final(self).spec_start() == old(self).spec_start(),
            ({
                let (text, e, ln) = string_scan(
                    old(self).spec_source(),
                    old(self).spec_length() as int,
                    old(self).spec_current() as int,
                    old(self).spec_line(),
                );
                &&& final(self).spec_line() == ln
                &&& e >= old(self).spec_length() ==> {
                    &&& r == Err::<Option<Token>, InterpreterError>(InterpreterError::ScannerError(None))
                    &&& final(self).spec_current() == e
                }
                &&& e < old(self).spec_length() ==> {
                    &&& r matches Ok(Some(t)) && token_view(t) == (
                        TokenType::String,
                        Some(text),
                        ln,
                        old(self).spec_start(),
                    )
                    &&& final(self).spec_current() == e + 1
                }
            }),
    {
        let ghost s = self.source@;
        let ghost n = self.source_length as int;
        let ghost whole = string_scan(s, n, self.current as int, self.line);
        let mut lexeme = String::new();
        while self.in_string()
            invariant
                self.source@ == s,
                self.source_length == n,
                self.start == old(self).start,
                self.wf(),
                ({
                    let rest = string_scan(s, n, self.current as int, self.line);
                    whole == (lexeme@ + rest.0, rest.1, rest.2)
                }),
            decreases n - self.current,
        {
            let ghost before = lexeme@;
            let ghost rest0 = string_scan(s, n, self.current as int, self.line);
            if self.peek_is('\n') {
                if self.line < usize::MAX {
                    self.line = self.line + 1;
                }
            }
            let c = self.advance();
            let c = match c {
                Some(c) => c,
                None => '\0',
            };
            push_char(&mut lexeme, c);
            proof {
                let rest = string_scan(s, n, self.current as int, self.line);
                assert(rest0.0 == seq![c] + rest.0);
                assert(lexeme@ + rest.0 =~= before + rest0.0);
            }
        }
        if self.is_at_end() {
            assert(lexeme@ + Seq::<char>::empty() =~= lexeme@);
            return Err(InterpreterError::ScannerError(None));
        }
        self.advance();
        assert(lexeme@ + Seq::<char>::empty() =~= lexeme@);
        Ok(Some(Token::new(TokenType::String, Some(lexeme), self.line, self.start)))
    }

    /// Scans one token from the current offset: `None` for whitespace and
    /// comments.
    fn scan_token(&mut self) -> (r: Result<Option<Token>, InterpreterError>)
        requires
            old(self).wf(),
            old(self).current < usize::MAX,
        ensures
            r is Ok ==> final(self).wf(),
            final(self).source@ == old(self).source@,
            final(self).source_length == old(self).source_length,
            final(self).start == old(self).start,
            final(self).current > old(self).current,
            ({
                let (s, c, l) = spec_scan_token(
                    old(self).source@,
                    old(self).source_length as int,
                    old(self).current as int,
                    old(self).line,
                    old(self).start,
                );
                &&& token_matches(r, s)
                &&& final(self).current == c
                &&& final(self).line == l
            }),
    {
        let ghost s = self.source@;
        let ghost n = self.source_length as int;
        let c = self.advance();
        let loxchar = match c {
            Some(loxchar) => loxchar,
            None => return Err(InterpreterError::ScannerError(None)),
        };
        let next_token = match loxchar {
            '(' => Some(self.simple_token(TokenType::LeftParen)),
            ')' => Some(self.simple_token(TokenType::RightParen)),
            '{' => Some(self.simple_token(TokenType::LeftBrace)),
            '}' => Some(self.simple_token(TokenType::RightBrace)),
            ',' => Some(self.simple_token(TokenType::Comma)),
            '.' => Some(self.simple_token(TokenType::Dot)),
            '-' => Some(self.simple_token(TokenType::Minus)),
            '+' => Some(self.simple_token(TokenType::Plus)),
            ';' => Some(self.simple_token(TokenType::Semicolon)),
            '*' => Some(self.simple_token(TokenType::Star)),
            '!' => {
                if self.token_match('=') {
                    Some(self.simple_token(TokenType::BangEqual))
                } else {
                    Some(self.simple_token(TokenType::Bang))
                }
            },
            '=' => {
                if self.token_match('=') {
                    Some(self.simple_token(TokenType::EqualEqual))
                } else {
                    Some(self.simple_token(TokenType::Equal))
                }
            },
            '<' => {
                if self.token_match('=') {
                    Some(self.simple_token(TokenType::LessEqual))
                } else {
                    Some(self.simple_token(TokenType::Less))
                }
            },
            '>' => {
                if self.token_match('=') {
                    Some(self.simple_token(TokenType::GreaterEqual))
                } else {
                    Some(self.simple_token(TokenType::Greater))
                }
            },
            '/' => {
                if self.token_match('/') {
                    let ghost c0 = self.current as int;
                    while self.in_comment()
                        invariant
                            self.source@ == s,
                            self.source == old(self).source,
                            self.source_length == n,
                            self.start == old(self).start,
                            self.line == old(self).line,
                            self.wf(),
                            old(self).current < c0 <= self.current,
                            comment_end(s, n, self.current as int) == comment_end(s, n, c0),
                        decreases n - self.current,
                    {
                        self.advance();
                    }
                    None
                } else {
                    Some(self.simple_token(TokenType::Slash))
                }
            },
            ' ' | '\r' | '\t' => None,
            '\n' => {
                if self.line < usize::MAX {
                    self.line = self.line + 1;
                }
                None
            },
            '"' => {
                proof {
                    lemma_string_scan_end(s, n, self.current as int, self.line);
                }
                match self.scan_string() {
                    Ok(t) => t,
                    Err(e) => return Err(e),
                }
            },
            '0'..='9' => {
                proof {
                    lemma_digits_end(s, self.current as int);
                    lemma_digits_end(s, digits_end(s, self.current as int) + 1);
                }
                match self.scan_number(loxchar) {
                    Ok(t) => t,
                    Err(e) => return Err(e),
                }
            },
            ch => {
                if Self::is_alpha(ch) {
                    proof {
                        lemma_ident_end(s, self.current as int);
                    }
                    match self.scan_identifier(loxchar) {
                        Ok(t) => t,
                        Err(e) => return Err(e),
                    }
                } else {
                    let mut text = String::new();
                    push_char(&mut text, loxchar);
                    return Err(InterpreterError::ScannerError(Some(text)));
                }
            },
        };
        Ok(next_token)
    }

    /// Scans the whole input into tokens, closed by an `Eof` token; the
    /// first character that starts no token, or an unterminated string,
    /// stops the scan with a `ScannerError`.
    pub fn scan_tokens(&mut self) -> (r: Result<Vec<Token>, InterpreterError>)
        requires
            old(self).wf(),
        ensures
            final(self).spec_source() == old(self).spec_source(),
            final(self).spec_length() == old(self).spec_length(),
            ({
                let (s, c, l, st) = spec_scan_all(
                    old(self).spec_source(),
                    old(self).spec_length() as int,
                    old(self).spec_current() as int,
                    old(self).spec_line(),
                    old(self).spec_start(),
                );
                &&& match s {
                    Ok(ts) => r matches Ok(v) && tokens_view(v@) == ts,
                    Err(ch) => r matches Err(e) && lex_error_matches(e, ch),
                }
                &&& final(self).spec_current() == c
                &&& final(self).spec_line() == l
                &&& final(self).spec_start() == st
            }),
    {
        let ghost s = self.source@;
        let ghost n = self.source_length as int;
        let ghost whole = spec_scan_all(s, n, self.current as int, self.line, self.start);
        let mut tokens: Vec<Token> = Vec::new();
        while !self.is_at_end()
            invariant
                self.source@ == s,
                self.source_length == n,
                s == old(self).source@,
                n == old(self).source_length,
                whole == spec_scan_all(
                    old(self).spec_source(),
                    old(self).spec_length() as int,
                    old(self).spec_current() as int,
                    old(self).spec_line(),
                    old(self).spec_start(),
                ),
                self.wf(),
                whole == after_tokens(
                    tokens_view(tokens@),
                    spec_scan_all(s, n, self.current as int, self.line, self.start),
                ),
            decreases (if s.len() > n {
                s.len() as int
            } else {
                n
            }) - self.current,
        {
            self.start = self.current;
            let ghost pre = tokens_view(tokens@);
            let ghost step = spec_scan_token(s, n, self.current as int, self.line, self.start);
            let ghost here = spec_scan_all(s, n, self.current as int, self.line, self.start);
            assert(step.0 is Err ==> here == (Err::<Seq<TokenView>, Option<char>>(step.0->Err_0), step.1, step.2, self.start));
            let token = match self.scan_token() {
                Ok(t) => t,
                Err(e) => return Err(e),
            };
            match token {
                Some(token) => {
                    tokens.push(token);
                    assert(tokens_view(tokens@) =~= pre + seq![token_view(token)]);
                },
                None => {},
            }
            proof {
                let rest = spec_scan_all(s, n, self.current as int, self.line, self.start);
                if self.current >= n {
                    match step.0 {
                        Ok(Some(tv)) => {
                            assert(pre + (seq![tv] + seq![(TokenType::Eof, None::<Seq<char>>, self.line, self.start)])
                                =~= pre + seq![tv] + seq![(TokenType::Eof, None::<Seq<char>>, self.line, self.start)]);
                        },
                        _ => {},
                    }
                } else {
                    match rest.0 {
                        Ok(ts) => match step.0 {
                            Ok(Some(tv)) => {
                                assert(pre + (seq![tv] + ts) =~= pre + seq![tv] + ts);
                            },
                            _ => {},
                        },
                        Err(_) => {},
                    }
                }
            }
        }
        let end = Token::end(self.line, self.start);
        let ghost pre = tokens_view(tokens@);
        tokens.push(end);
        assert(tokens_view(tokens@) =~= pre + seq![token_view(end)]);
        Ok(tokens)
    }
}

} // verus!
