use vstd::prelude::*;

use crate::text::{push_decimal, spec_decimal, text_is};

verus! {

/// The kinds of lexical token.
#[derive(Debug, Clone, Copy, PartialEq, Eq, Structural)]
pub enum TokenType {
    // Single-character tokens.
    LeftParen,
    RightParen,
    LeftBrace,
    RightBrace,
    Comma,
    Dot,
    Minus,
    Plus,
    Semicolon,
    Slash,
    Star,
    // One or two character tokens.
    Bang,
    BangEqual,
    Equal,
    EqualEqual,
    Greater,
    GreaterEqual,
    Less,
    LessEqual,
    // Literals.
    Identifier,
    String,
    Number,
    // Keywords.
    And,
    Class,
    Else,
    False,
    Fun,
    For,
    If,
    Nil,
    Or,
    Print,
    Return,
    Super,
    This,
    True,
    Var,
    While,
    // A token that could not be scanned.
    TokenError,
    // End of input.
    Eof,
}

/// The keyword spelled by `s`, if it is one.
pub open spec fn spec_keyword(s: Seq<char>) -> Option<TokenType> {
    if s == "and"@ {
        Some(TokenType::And)
    } else if s == "class"@ {
        Some(TokenType::Class)
    } else if s == "else"@ {
        Some(TokenType::Else)
    } else if s == "false"@ {
        Some(TokenType::False)
    } else if s == "fun"@ {
        Some(TokenType::Fun)
    } else if s == "for"@ {
        Some(TokenType::For)
    } else if s == "if"@ {
        Some(TokenType::If)
    } else if s == "nil"@ {
        Some(TokenType::Nil)
    } else if s == "or"@ {
        Some(TokenType::Or)
    } else if s == "print"@ {
        Some(TokenType::Print)
    } else if s == "return"@ {
        Some(TokenType::Return)
    } else if s == "super"@ {
        Some(TokenType::Super)
    } else if s == "this"@ {
        Some(TokenType::This)
    } else if s == "true"@ {
        Some(TokenType::True)
    } else if s == "var"@ {
        Some(TokenType::Var)
    } else if s == "while"@ {
        Some(TokenType::While)
    } else {
        None
    }
}

/// The name of a token kind, as it is shown.
pub open spec fn spec_type_name(t: TokenType) -> Seq<char> {
    match t {
        TokenType::LeftParen => "LeftParen"@,
        TokenType::RightParen => "RightParen"@,
        TokenType::LeftBrace => "LeftBrace"@,
        TokenType::RightBrace => "RightBrace"@,
        TokenType::Comma => "Comma"@,
        TokenType::Dot => "Dot"@,
        TokenType::Minus => "Minus"@,
        TokenType::Plus => "Plus"@,
        TokenType::Semicolon => "Semicolon"@,
        TokenType::Slash => "Slash"@,
        TokenType::Star => "Star"@,
        TokenType::Bang => "Bang"@,
        TokenType::BangEqual => "BangEqual"@,
        TokenType::Equal => "Equal"@,
        TokenType::EqualEqual => "EqualEqual"@,
        TokenType::Greater => "Greater"@,
        TokenType::GreaterEqual => "GreaterEqual"@,
        TokenType::Less => "Less"@,
        TokenType::LessEqual => "LessEqual"@,
        TokenType::Identifier => "Identifier"@,
        TokenType::String => "String"@,
        TokenType::Number => "Number"@,
        TokenType::And => "And"@,
        TokenType::Class => "Class"@,
        TokenType::Else => "Else"@,
        TokenType::False => "False"@,
        TokenType::Fun => "Fun"@,
        TokenType::For => "For"@,
        TokenType::If => "If"@,
        TokenType::Nil => "Nil"@,
        TokenType::Or => "Or"@,
        TokenType::Print => "Print"@,
        TokenType::Return => "Return"@,
        TokenType::Super => "Super"@,
        TokenType::This => "This"@,
        TokenType::True => "True"@,
        TokenType::Var => "Var"@,
        TokenType::While => "While"@,
        TokenType::TokenError => "TokenError"@,
        TokenType::Eof => "Eof"@,
    }
}

impl TokenType {
    pub open spec fn spec_is_keyword(&self) -> bool {
        *self is And
            || *self is Class
            || *self is Else
            || *self is False
            || *self is Fun
            || *self is For
            || *self is If
            || *self is Nil
            || *self is Or
            || *self is Print
            || *self is Return
            || *self is Super
            || *self is This
            || *self is True
            || *self is Var
            || *self is While
    }

    pub fn is_keyword(&self) -> (r: bool)
        ensures
            r == self.spec_is_keyword(),
    {
        match self {
            TokenType::And | TokenType::Class | TokenType::Else | TokenType::False | TokenType::Fun | TokenType::For | TokenType::If | TokenType::Nil | TokenType::Or | TokenType::Print | TokenType::Return | TokenType::Super | TokenType::This | TokenType::True | TokenType::Var | TokenType::While => true,
            _ => false,
        }
    }

    /// The keyword that `lexeme` spells, if any.
    pub fn scan_for_keyword(lexeme: &str) -> (r: Option<TokenType>)
        ensures
            r == spec_keyword(lexeme@),
    {
        if text_is(lexeme, "and") {
            return Some(TokenType::And);
        }
        if text_is(lexeme, "class") {
            return Some(TokenType::Class);
        }
        if text_is(lexeme, "else") {
            return Some(TokenType::Else);
        }
        if text_is(lexeme, "false") {
            return Some(TokenType::False);
        }
        if text_is(lexeme, "fun") {
            return Some(TokenType::Fun);
        }
        if text_is(lexeme, "for") {
            return Some(TokenType::For);
        }
        if text_is(lexeme, "if") {
            return Some(TokenType::If);
        }
        if text_is(lexeme, "nil") {
            return Some(TokenType::Nil);
        }
        if text_is(lexeme, "or") {
            return Some(TokenType::Or);
        }
        if text_is(lexeme, "print") {
            return Some(TokenType::Print);
        }
        if text_is(lexeme, "return") {
            return Some(TokenType::Return);
        }
        if text_is(lexeme, "super") {
            return Some(TokenType::Super);
        }
        if text_is(lexeme, "this") {
            return Some(TokenType::This);
        }
        if text_is(lexeme, "true") {
            return Some(TokenType::True);
        }
        if text_is(lexeme, "var") {
            return Some(TokenType::Var);
        }
        if text_is(lexeme, "while") {
            return Some(TokenType::While);
        }
        None
    }

    /// The name of this kind, as it is shown.
    pub fn name(&self) -> (r: &'static str)
        ensures
            r@ == spec_type_name(*self),
    {
        match self {
            TokenType::LeftParen => "LeftParen",
            TokenType::RightParen => "RightParen",
            TokenType::LeftBrace => "LeftBrace",
            TokenType::RightBrace => "RightBrace",
            TokenType::Comma => "Comma",
            TokenType::Dot => "Dot",
            TokenType::Minus => "Minus",
            TokenType::Plus => "Plus",
            TokenType::Semicolon => "Semicolon",
            TokenType::Slash => "Slash",
            TokenType::Star => "Star",
            TokenType::Bang => "Bang",
            TokenType::BangEqual => "BangEqual",
            TokenType::Equal => "Equal",
            TokenType::EqualEqual => "EqualEqual",
            TokenType::Greater => "Greater",
            TokenType::GreaterEqual => "GreaterEqual",
            TokenType::Less => "Less",
            TokenType::LessEqual => "LessEqual",
            TokenType::Identifier => "Identifier",
            TokenType::String => "String",
            TokenType::Number => "Number",
            TokenType::And => "And",
            TokenType::Class => "Class",
            TokenType::Else => "Else",
            TokenType::False => "False",
            TokenType::Fun => "Fun",
            TokenType::For => "For",
            TokenType::If => "If",
            TokenType::Nil => "Nil",
            TokenType::Or => "Or",
            TokenType::Print => "Print",
            TokenType::Return => "Return",
            TokenType::Super => "Super",
            TokenType::This => "This",
            TokenType::True => "True",
            TokenType::Var => "Var",
            TokenType::While => "While",
            TokenType::TokenError => "TokenError",
            TokenType::Eof => "Eof",
        }
    }
}

/// A token: its kind, its text where the kind needs one, and where it
/// starts.
#[derive(Debug, Clone)]
pub struct Token {
    pub token_type: TokenType,
    pub lexeme: Option<String>,
    pub line: usize,
    pub column: usize,
}

/// What a token holds, with its text as characters.
pub open spec fn token_view(t: Token) -> (TokenType, Option<Seq<char>>, usize, usize) {
    (
        t.token_type,
        match t.lexeme {
            Some(s) => Some(s@),
            None => None,
        },
        t.line,
        t.column,
    )
}

/// `[line::column] Kind => 'text'`, the text empty where there is none.
pub open spec fn spec_token_text(t: Token) -> Seq<char> {
    "["@ + spec_decimal(t.line as nat) + "::"@ + spec_decimal(t.column as nat) + "] "@
        + spec_type_name(t.token_type) + " => '"@ + match t.lexeme {
        Some(s) => s@,
        None => Seq::empty(),
    } + "'"@
}

impl Token {
    pub fn new(token_type: TokenType, lexeme: Option<String>, line: usize, column: usize) -> (r: Token)
        ensures
            r == (Token { token_type, lexeme, line, column }),
    {
        Token { token_type, lexeme, line, column }
    }

    /// The token that ends every scan.
    pub fn end(line: usize, column: usize) -> (r: Token)
        ensures
            r == (Token { token_type: TokenType::Eof, lexeme: None, line, column }),
    {
        Token { token_type: TokenType::Eof, lexeme: None, line, column }
    }

    /// The token as text, for diagnostics.
    pub fn describe(&self) -> (r: String)
        ensures
            r@ == spec_token_text(*self),
    {
        let mut r = String::from_str("[");
        push_decimal(&mut r, self.line);
        r.append("::");
        push_decimal(&mut r, self.column);
        r.append("] ");
        r.append(self.token_type.name());
        r.append(" => '");
        match &self.lexeme {
            Some(s) => r.append(s.as_str()),
            None => {},
        }
        r.append("'");
        assert(r@ =~= spec_token_text(*self));
        r
    }
}

} // verus!
