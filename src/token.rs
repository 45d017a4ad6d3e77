//! Token kinds, tokens and the keyword table.
use vstd::prelude::*;

verus! {

/// The closed set of token kinds.
#[derive(PartialEq, Eq, Structural, Debug, Clone, Copy)]
pub enum TokenType {
    Illegal,
    EndOfFile,
    Identifier,
    Integer,
    Double,
    Assign,
    Plus,
    Minus,
    Asterisk,
    Slash,
    GreaterThan,
    LessThan,
    Equal,
    NotEqual,
    GreaterOrEqual,
    LessOrEqual,
    Comma,
    Semicolon,
    Bang,
    OpenParenthesis,
    CloseParenthesis,
    OpenBrace,
    CloseBrace,
    Function,
    Variable,
    True,
    False,
    If,
    Else,
    Return,
}

/// A token: its kind and the text it stands for.
#[derive(Debug)]
pub struct Token {
    pub t_type: TokenType,
    pub literal: String,
}

impl View for Token {
    type V = (TokenType, Seq<char>);

    open spec fn view(&self) -> (TokenType, Seq<char>) {
        (self.t_type, self.literal@)
    }
}

impl PartialEq for Token {
    fn eq(&self, other: &Token) -> (r: bool) {
        self.t_type == other.t_type && self.literal == other.literal
    }
}

impl vstd::std_specs::cmp::PartialEqSpecImpl for Token {
    open spec fn obeys_eq_spec() -> bool {
        true
    }

    open spec fn eq_spec(&self, other: &Token) -> bool {
        self@ == other@
    }
}

impl TokenType {
    /// The name under which a kind is shown: the symbol of an operator or a
    /// punctuation mark, `EOF` for the end of input, a word otherwise.
    pub open spec fn spec_name(self) -> Seq<char> {
        match self {
            TokenType::Illegal => "Illegal"@,
            TokenType::EndOfFile => "EOF"@,
            TokenType::Identifier => "Identifier"@,
            TokenType::Integer => "Integer"@,
            TokenType::Double => "Double"@,
            TokenType::Assign => "="@,
            TokenType::Plus => "+"@,
            TokenType::Minus => "-"@,
            TokenType::Asterisk => "*"@,
            TokenType::Slash => "/"@,
            TokenType::GreaterThan => ">"@,
            TokenType::LessThan => "<"@,
            TokenType::Equal => "=="@,
            TokenType::NotEqual => "!="@,
            TokenType::GreaterOrEqual => ">="@,
            TokenType::LessOrEqual => "<="@,
            TokenType::Comma => ","@,
            TokenType::Semicolon => ";"@,
            TokenType::Bang => "!"@,
            TokenType::OpenParenthesis => "("@,
            TokenType::CloseParenthesis => ")"@,
            TokenType::OpenBrace => "{"@,
            TokenType::CloseBrace => "}"@,
            TokenType::Function => "Function"@,
            TokenType::Variable => "Variable"@,
            TokenType::True => "True"@,
            TokenType::False => "False"@,
            TokenType::If => "If"@,
            TokenType::Else => "Else"@,
            TokenType::Return => "Return"@,
        }
    }

    /// Returns the name under which this kind is shown.
    pub fn as_str(&self) -> (r: &'static str)
        ensures
            r@ == self.spec_name(),
    {
        match self {
            TokenType::Illegal => "Illegal",
            TokenType::EndOfFile => "EOF",
            TokenType::Identifier => "Identifier",
            TokenType::Integer => "Integer",
            TokenType::Double => "Double",
            TokenType::Assign => "=",
            TokenType::Plus => "+",
            TokenType::Minus => "-",
            TokenType::Asterisk => "*",
            TokenType::Slash => "/",
            TokenType::GreaterThan => ">",
            TokenType::LessThan => "<",
            TokenType::Equal => "==",
            TokenType::NotEqual => "!=",
            TokenType::GreaterOrEqual => ">=",
            TokenType::LessOrEqual => "<=",
            TokenType::Comma => ",",
            TokenType::Semicolon => ";",
            TokenType::Bang => "!",
            TokenType::OpenParenthesis => "(",
            TokenType::CloseParenthesis => ")",
            TokenType::OpenBrace => "{",
            TokenType::CloseBrace => "}",
            TokenType::Function => "Function",
            TokenType::Variable => "Variable",
            TokenType::True => "True",
            TokenType::False => "False",
            TokenType::If => "If",
            TokenType::Else => "Else",
            TokenType::Return => "Return",
        }
    }
}

/// The kind that a word of letters gets: a keyword kind for an exact,
/// case-sensitive spelling in the keyword table, `Identifier` otherwise.
pub open spec fn keyword_kind(word: Seq<char>) -> TokenType {
    if word == "func"@ {
        TokenType::Function
    } else if word == "var"@ {
        TokenType::Variable
    } else if word == "true"@ {
        TokenType::True
    } else if word == "false"@ {
        TokenType::False
    } else if word == "if"@ {
        TokenType::If
    } else if word == "else"@ {
        TokenType::Else
    } else if word == "return"@ {
        TokenType::Return
    } else {
        TokenType::Identifier
    }
}

/// Whether `s` spells exactly the characters of `word`.
fn spells(s: &String, word: &str) -> (r: bool)
    ensures
        r == (s@ == word@),
{
    *s == String::from_str(word)
}

/// Looks a word up in the keyword table.
pub fn lookup_identifier(identifier: &String) -> (r: TokenType)
    ensures
        r == keyword_kind(identifier@),
{
    if spells(identifier, "func") {
        TokenType::Function
    } else if spells(identifier, "var") {
        TokenType::Variable
    } else if spells(identifier, "true") {
        TokenType::True
    } else if spells(identifier, "false") {
        TokenType::False
    } else if spells(identifier, "if") {
        TokenType::If
    } else if spells(identifier, "else") {
        TokenType::Else
    } else if spells(identifier, "return") {
        TokenType::Return
    } else {
        TokenType::Identifier
    }
}

} // verus!
