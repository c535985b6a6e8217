//! Lexical categories of the language and the keyword table.
use vstd::prelude::*;

use crate::text::{eq_literal, string_of};

verus! {

/// One lexical unit.
///
/// A numeric literal is kept as the exact text that was scanned (a run of
/// digits, optionally followed by `.` and a second run of digits); its
/// floating-point value is left to the consumer.
#[derive(Debug, Clone, PartialEq)]
pub enum Token {
    // Keywords
    SetKw,
    Func,
    Return,
    If,
    Elif,
    Else,
    While,
    For,
    In,
    Break,
    Continue,
    Generator,
    Yield,
    Lazy,
    Force,
    Switch,
    Case,
    Default,
    Import,
    Export,
    From,
    As,
    Lambda,
    Throw,
    Try,
    Catch,
    // Literals
    Number(String),
    BigInteger(String),
    String(String),
    Boolean(bool),
    Null,
    // Identifiers
    Identifier(String),
    // Operators
    Plus,
    Minus,
    Multiply,
    Divide,
    Modulo,
    Assign,
    Equal,
    NotEqual,
    Greater,
    GreaterEqual,
    Less,
    LessEqual,
    And,
    Or,
    Not,
    Arrow,
    // Delimiters
    LeftParen,
    RightParen,
    LeftBracket,
    RightBracket,
    LeftBrace,
    RightBrace,
    Comma,
    Colon,
    Semicolon,
    Newline,
    // Special
    EOF,
    Illegal(char),
}

/// The reserved word spelled by `s`, if any. Lookup is case-sensitive.
pub open spec fn keyword_of(s: Seq<char>) -> Option<Token> {
    if s == "Set"@ {
        Some(Token::SetKw)
    } else if s == "Func"@ {
        Some(Token::Func)
    } else if s == "Return"@ {
        Some(Token::Return)
    } else if s == "If"@ {
        Some(Token::If)
    } else if s == "Elif"@ {
        Some(Token::Elif)
    } else if s == "Else"@ {
        Some(Token::Else)
    } else if s == "While"@ {
        Some(Token::While)
    } else if s == "For"@ {
        Some(Token::For)
    } else if s == "In"@ {
        Some(Token::In)
    } else if s == "Break"@ {
        Some(Token::Break)
    } else if s == "Continue"@ {
        Some(Token::Continue)
    } else if s == "Generator"@ {
        Some(Token::Generator)
    } else if s == "Yield"@ {
        Some(Token::Yield)
    } else if s == "Lazy"@ {
        Some(Token::Lazy)
    } else if s == "Force"@ {
        Some(Token::Force)
    } else if s == "Switch"@ {
        Some(Token::Switch)
    } else if s == "Case"@ {
        Some(Token::Case)
    } else if s == "Default"@ {
        Some(Token::Default)
    } else if s == "Import"@ {
        Some(Token::Import)
    } else if s == "Export"@ {
        Some(Token::Export)
    } else if s == "From"@ {
        Some(Token::From)
    } else if s == "As"@ {
        Some(Token::As)
    } else if s == "Lambda"@ {
        Some(Token::Lambda)
    } else if s == "Throw"@ {
        Some(Token::Throw)
    } else if s == "Try"@ {
        Some(Token::Try)
    } else if s == "Catch"@ {
        Some(Token::Catch)
    } else if s == "True"@ {
        Some(Token::Boolean(true))
    } else if s == "False"@ {
        Some(Token::Boolean(false))
    } else if s == "Null"@ {
        Some(Token::Null)
    } else {
        None
    }
}

/// `t` is the token that the word `s` scans to: its keyword, or else an
/// identifier spelled `s`.
pub open spec fn is_word_token(s: Seq<char>, t: Token) -> bool {
    match keyword_of(s) {
        Some(k) => t == k,
        None => t is Identifier && t->Identifier_0@ == s,
    }
}

impl Token {
    /// The keyword spelled by `ident`, otherwise an identifier holding it.
    pub fn lookup_keyword(ident: &str) -> (r: Token)
        ensures
            is_word_token(ident@, r),
    {
        match keyword_for(ident) {
            Some(k) => k,
            None => Token::Identifier(ident.to_string()),
        }
    }

}

/// The keyword spelled by `ident`, if it is one.
pub fn keyword_for(ident: &str) -> (r: Option<Token>)
    ensures
        r == keyword_of(ident@),
{
    if eq_literal(ident, "Set") {
        Some(Token::SetKw)
    } else if eq_literal(ident, "Func") {
        Some(Token::Func)
    } else if eq_literal(ident, "Return") {
        Some(Token::Return)
    } else if eq_literal(ident, "If") {
        Some(Token::If)
    } else if eq_literal(ident, "Elif") {
        Some(Token::Elif)
    } else if eq_literal(ident, "Else") {
        Some(Token::Else)
    } else if eq_literal(ident, "While") {
        Some(Token::While)
    } else if eq_literal(ident, "For") {
        Some(Token::For)
    } else if eq_literal(ident, "In") {
        Some(Token::In)
    } else if eq_literal(ident, "Break") {
        Some(Token::Break)
    } else if eq_literal(ident, "Continue") {
        Some(Token::Continue)
    } else if eq_literal(ident, "Generator") {
        Some(Token::Generator)
    } else if eq_literal(ident, "Yield") {
        Some(Token::Yield)
    } else if eq_literal(ident, "Lazy") {
        Some(Token::Lazy)
    } else if eq_literal(ident, "Force") {
        Some(Token::Force)
    } else if eq_literal(ident, "Switch") {
        Some(Token::Switch)
    } else if eq_literal(ident, "Case") {
        Some(Token::Case)
    } else if eq_literal(ident, "Default") {
        Some(Token::Default)
    } else if eq_literal(ident, "Import") {
        Some(Token::Import)
    } else if eq_literal(ident, "Export") {
        Some(Token::Export)
    } else if eq_literal(ident, "From") {
        Some(Token::From)
    } else if eq_literal(ident, "As") {
        Some(Token::As)
    } else if eq_literal(ident, "Lambda") {
        Some(Token::Lambda)
    } else if eq_literal(ident, "Throw") {
        Some(Token::Throw)
    } else if eq_literal(ident, "Try") {
        Some(Token::Try)
    } else if eq_literal(ident, "Catch") {
        Some(Token::Catch)
    } else if eq_literal(ident, "True") {
        Some(Token::Boolean(true))
    } else if eq_literal(ident, "False") {
        Some(Token::Boolean(false))
    } else if eq_literal(ident, "Null") {
        Some(Token::Null)
    } else {
        None
    }
}

/// How a token is shown in messages: its category, with its payload in
/// parentheses (text payloads in double quotes, a character in single quotes).
pub open spec fn token_text(t: Token) -> Seq<char> {
    match t {
        Token::Number(s) => "Number("@ + s@ + ")"@,
        Token::BigInteger(s) => "BigInteger(\""@ + s@ + "\")"@,
        Token::String(s) => "String(\""@ + s@ + "\")"@,
        Token::Identifier(s) => "Identifier(\""@ + s@ + "\")"@,
        Token::Boolean(b) => if b {
            "Boolean(true)"@
        } else {
            "Boolean(false)"@
        },
        Token::Illegal(c) => "Illegal('"@ + seq![c] + "')"@,
        Token::SetKw => "Set"@,
        Token::Func => "Func"@,
        Token::Return => "Return"@,
        Token::If => "If"@,
        Token::Elif => "Elif"@,
        Token::Else => "Else"@,
        Token::While => "While"@,
        Token::For => "For"@,
        Token::In => "In"@,
        Token::Break => "Break"@,
        Token::Continue => "Continue"@,
        Token::Generator => "Generator"@,
        Token::Yield => "Yield"@,
        Token::Lazy => "Lazy"@,
        Token::Force => "Force"@,
        Token::Switch => "Switch"@,
        Token::Case => "Case"@,
        Token::Default => "Default"@,
        Token::Import => "Import"@,
        Token::Export => "Export"@,
        Token::From => "From"@,
        Token::As => "As"@,
        Token::Lambda => "Lambda"@,
        Token::Throw => "Throw"@,
        Token::Try => "Try"@,
        Token::Catch => "Catch"@,
        Token::Null => "Null"@,
        Token::Plus => "Plus"@,
        Token::Minus => "Minus"@,
        Token::Multiply => "Multiply"@,
        Token::Divide => "Divide"@,
        Token::Modulo => "Modulo"@,
        Token::Assign => "Assign"@,
        Token::Equal => "Equal"@,
        Token::NotEqual => "NotEqual"@,
        Token::Greater => "Greater"@,
        Token::GreaterEqual => "GreaterEqual"@,
        Token::Less => "Less"@,
        Token::LessEqual => "LessEqual"@,
        Token::And => "And"@,
        Token::Or => "Or"@,
        Token::Not => "Not"@,
        Token::Arrow => "Arrow"@,
        Token::LeftParen => "LeftParen"@,
        Token::RightParen => "RightParen"@,
        Token::LeftBracket => "LeftBracket"@,
        Token::RightBracket => "RightBracket"@,
        Token::LeftBrace => "LeftBrace"@,
        Token::RightBrace => "RightBrace"@,
        Token::Comma => "Comma"@,
        Token::Colon => "Colon"@,
        Token::Semicolon => "Semicolon"@,
        Token::Newline => "Newline"@,
        Token::EOF => "EOF"@,
    }
}

/// The text that `token_text` specifies.
pub fn describe_token(t: &Token) -> (r: String)
    ensures
        r@ == token_text(*t),
{
    match t {
        Token::Number(s) => "Number(".to_string().concat(s.as_str()).concat(")"),
        Token::BigInteger(s) => "BigInteger(\"".to_string().concat(s.as_str()).concat("\")"),
        Token::String(s) => "String(\"".to_string().concat(s.as_str()).concat("\")"),
        Token::Identifier(s) => "Identifier(\"".to_string().concat(s.as_str()).concat("\")"),
        Token::Boolean(b) => if *b {
            "Boolean(true)".to_string()
        } else {
            "Boolean(false)".to_string()
        },
        Token::Illegal(c) => {
            let mut v: Vec<char> = Vec::new();
            v.push(*c);
            "Illegal('".to_string().concat(string_of(v.as_slice()).as_str()).concat("')")
        },
        Token::SetKw => "Set".to_string(),
        Token::Func => "Func".to_string(),
        Token::Return => "Return".to_string(),
        Token::If => "If".to_string(),
        Token::Elif => "Elif".to_string(),
        Token::Else => "Else".to_string(),
        Token::While => "While".to_string(),
        Token::For => "For".to_string(),
        Token::In => "In".to_string(),
        Token::Break => "Break".to_string(),
        Token::Continue => "Continue".to_string(),
        Token::Generator => "Generator".to_string(),
        Token::Yield => "Yield".to_string(),
        Token::Lazy => "Lazy".to_string(),
        Token::Force => "Force".to_string(),
        Token::Switch => "Switch".to_string(),
        Token::Case => "Case".to_string(),
        Token::Default => "Default".to_string(),
        Token::Import => "Import".to_string(),
        Token::Export => "Export".to_string(),
        Token::From => "From".to_string(),
        Token::As => "As".to_string(),
        Token::Lambda => "Lambda".to_string(),
        Token::Throw => "Throw".to_string(),
        Token::Try => "Try".to_string(),
        Token::Catch => "Catch".to_string(),
        Token::Null => "Null".to_string(),
        Token::Plus => "Plus".to_string(),
        Token::Minus => "Minus".to_string(),
        Token::Multiply => "Multiply".to_string(),
        Token::Divide => "Divide".to_string(),
        Token::Modulo => "Modulo".to_string(),
        Token::Assign => "Assign".to_string(),
        Token::Equal => "Equal".to_string(),
        Token::NotEqual => "NotEqual".to_string(),
        Token::Greater => "Greater".to_string(),
        Token::GreaterEqual => "GreaterEqual".to_string(),
        Token::Less => "Less".to_string(),
        Token::LessEqual => "LessEqual".to_string(),
        Token::And => "And".to_string(),
        Token::Or => "Or".to_string(),
        Token::Not => "Not".to_string(),
        Token::Arrow => "Arrow".to_string(),
        Token::LeftParen => "LeftParen".to_string(),
        Token::RightParen => "RightParen".to_string(),
        Token::LeftBracket => "LeftBracket".to_string(),
        Token::RightBracket => "RightBracket".to_string(),
        Token::LeftBrace => "LeftBrace".to_string(),
        Token::RightBrace => "RightBrace".to_string(),
        Token::Comma => "Comma".to_string(),
        Token::Colon => "Colon".to_string(),
        Token::Semicolon => "Semicolon".to_string(),
        Token::Newline => "Newline".to_string(),
        Token::EOF => "EOF".to_string(),
    }
}

} // verus!
