use vstd::prelude::*;

verus! {

/// The closed set of lexical categories of the language.
#[derive(Clone, Copy, PartialEq, Eq, Structural, Debug)]
pub enum Token {
    // Lexical fault markers and the terminal lexeme
    UnexpectedEof,
    InvalidToken,
    EndOfFile,
    // Punctuation
    Semicolon,
    Assign,
    // Relational operators
    Equal,
    NotEqual,
    Lower,
    LowerEqual,
    Greater,
    GreaterEqual,
    // Arithmetic operators
    Add,
    Sub,
    Mul,
    Div,
    Mod,
    Pow,
    // Keywords
    Program,
    While,
    Do,
    Done,
    If,
    Then,
    Else,
    Output,
    True,
    False,
    Read,
    Not,
    // Number literals and identifiers
    Number,
    Var,
}

/// The category of a scanned word: the operator and keyword table, with every
/// other word classified as an identifier.  Number literals never reach this
/// table; the scanner classifies them directly.
pub open spec fn token_of_text(s: Seq<char>) -> Token {
    if s == ";"@ {
        Token::Semicolon
    } else if s == "="@ {
        Token::Assign
    } else if s == "=="@ {
        Token::Equal
    } else if s == "!="@ {
        Token::NotEqual
    } else if s == "<"@ {
        Token::Lower
    } else if s == "<="@ {
        Token::LowerEqual
    } else if s == ">"@ {
        Token::Greater
    } else if s == ">="@ {
        Token::GreaterEqual
    } else if s == "+"@ {
        Token::Add
    } else if s == "-"@ {
        Token::Sub
    } else if s == "*"@ {
        Token::Mul
    } else if s == "/"@ {
        Token::Div
    } else if s == "%"@ {
        Token::Mod
    } else if s == "^"@ {
        Token::Pow
    } else if s == "program"@ {
        Token::Program
    } else if s == "while"@ {
        Token::While
    } else if s == "do"@ {
        Token::Do
    } else if s == "done"@ {
        Token::Done
    } else if s == "if"@ {
        Token::If
    } else if s == "then"@ {
        Token::Then
    } else if s == "else"@ {
        Token::Else
    } else if s == "output"@ {
        Token::Output
    } else if s == "true"@ {
        Token::True
    } else if s == "false"@ {
        Token::False
    } else if s == "read"@ {
        Token::Read
    } else if s == "not"@ {
        Token::Not
    } else {
        Token::Var
    }
}

/// The printable name of each category.
pub open spec fn token_name(t: Token) -> Seq<char> {
    match t {
        Token::UnexpectedEof => "UNEXPECTED_EOF"@,
        Token::InvalidToken => "INVALID_TOKEN"@,
        Token::EndOfFile => "EOF"@,
        Token::Semicolon => "SEMICOLON"@,
        Token::Assign => "ASSIGN"@,
        Token::Equal => "EQUAL"@,
        Token::NotEqual => "NOT_EQUAL"@,
        Token::Lower => "LOWER"@,
        Token::LowerEqual => "LOWER_EQUAL"@,
        Token::Greater => "GREATER"@,
        Token::GreaterEqual => "GREATER_EQUAL"@,
        Token::Add => "ADD"@,
        Token::Sub => "SUB"@,
        Token::Mul => "MUL"@,
        Token::Div => "DIV"@,
        Token::Mod => "MOD"@,
        Token::Pow => "POW"@,
        Token::Program => "PROGRAM"@,
        Token::While => "WHILE"@,
        Token::Do => "DO"@,
        Token::Done => "DONE"@,
        Token::If => "IF"@,
        Token::Then => "THEN"@,
        Token::Else => "ELSE"@,
        Token::Output => "OUTPUT"@,
        Token::True => "TRUE"@,
        Token::False => "FALSE"@,
        Token::Read => "READ"@,
        Token::Not => "NOT"@,
        Token::Number => "NUMBER"@,
        Token::Var => "VAR"@,
    }
}

impl Token {
    /// The printable name of this category; always succeeds.
    pub fn to_string(&self) -> (r: Result<&str, &str>)
        ensures
            r is Ok,
            r matches Ok(n) && n@ == token_name(*self),
    {
        match self {
            Token::UnexpectedEof => Ok("UNEXPECTED_EOF"),
            Token::InvalidToken => Ok("INVALID_TOKEN"),
            Token::EndOfFile => Ok("EOF"),
            Token::Semicolon => Ok("SEMICOLON"),
            Token::Assign => Ok("ASSIGN"),
            Token::Equal => Ok("EQUAL"),
            Token::NotEqual => Ok("NOT_EQUAL"),
            Token::Lower => Ok("LOWER"),
            Token::LowerEqual => Ok("LOWER_EQUAL"),
            Token::Greater => Ok("GREATER"),
            Token::GreaterEqual => Ok("GREATER_EQUAL"),
            Token::Add => Ok("ADD"),
            Token::Sub => Ok("SUB"),
            Token::Mul => Ok("MUL"),
            Token::Div => Ok("DIV"),
            Token::Mod => Ok("MOD"),
            Token::Pow => Ok("POW"),
            Token::Program => Ok("PROGRAM"),
            Token::While => Ok("WHILE"),
            Token::Do => Ok("DO"),
            Token::Done => Ok("DONE"),
            Token::If => Ok("IF"),
            Token::Then => Ok("THEN"),
            Token::Else => Ok("ELSE"),
            Token::Output => Ok("OUTPUT"),
            Token::True => Ok("TRUE"),
            Token::False => Ok("FALSE"),
            Token::Read => Ok("READ"),
            Token::Not => Ok("NOT"),
            Token::Number => Ok("NUMBER"),
            Token::Var => Ok("VAR"),
        }
    }

    /// Classifies a scanned word by the operator and keyword table.
    pub fn from_string(s: &str) -> (t: Token)
        ensures
            t == token_of_text(s@),
    {
        let cs = crate::lexical::chars_of(s);
        Token::from_chars(&cs)
    }

    /// Classifies a scanned word, given as its characters.
    pub fn from_chars(cs: &Vec<char>) -> (t: Token)
        ensures
            t == token_of_text(cs@),
    {
        if crate::lexical::word_eq(cs, ";") {
            Token::Semicolon
        } else if crate::lexical::word_eq(cs, "=") {
            Token::Assign
        } else if crate::lexical::word_eq(cs, "==") {
            Token::Equal
        } else if crate::lexical::word_eq(cs, "!=") {
            Token::NotEqual
        } else if crate::lexical::word_eq(cs, "<") {
            Token::Lower
        } else if crate::lexical::word_eq(cs, "<=") {
            Token::LowerEqual
        } else if crate::lexical::word_eq(cs, ">") {
            Token::Greater
        } else if crate::lexical::word_eq(cs, ">=") {
            Token::GreaterEqual
        } else if crate::lexical::word_eq(cs, "+") {
            Token::Add
        } else if crate::lexical::word_eq(cs, "-") {
            Token::Sub
        } else if crate::lexical::word_eq(cs, "*") {
            Token::Mul
        } else if crate::lexical::word_eq(cs, "/") {
            Token::Div
        } else if crate::lexical::word_eq(cs, "%") {
            Token::Mod
        } else if crate::lexical::word_eq(cs, "^") {
            Token::Pow
        } else if crate::lexical::word_eq(cs, "program") {
            Token::Program
        } else if crate::lexical::word_eq(cs, "while") {
            Token::While
        } else if crate::lexical::word_eq(cs, "do") {
            Token::Do
        } else if crate::lexical::word_eq(cs, "done") {
            Token::Done
        } else if crate::lexical::word_eq(cs, "if") {
            Token::If
        } else if crate::lexical::word_eq(cs, "then") {
            Token::Then
        } else if crate::lexical::word_eq(cs, "else") {
            Token::Else
        } else if crate::lexical::word_eq(cs, "output") {
            Token::Output
        } else if crate::lexical::word_eq(cs, "true") {
            Token::True
        } else if crate::lexical::word_eq(cs, "false") {
            Token::False
        } else if crate::lexical::word_eq(cs, "read") {
            Token::Read
        } else if crate::lexical::word_eq(cs, "not") {
            Token::Not
        } else {
            Token::Var
        }
    }
}

} // verus!
