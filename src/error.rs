use vstd::prelude::*;

verus! {

/// What a lexer or a parser was looking for when it met something else.
#[derive(Clone, Copy, Debug, PartialEq, Eq, Structural)]
pub enum Expected {
    /// `'` that closes a literal
    CloseQuote,
    /// the character after `\` in a literal
    EscapeSequence,
    /// `}` that closes an expression
    CloseBracket,
    /// `:` of a condition
    Colon,
    /// `(` after a function name
    OpenParen,
    /// `)` that closes a group or a call
    CloseParen,
    /// the function name after `#`
    FunctionName,
    /// a variable name in the arguments of a call
    ArgumentName,
}

impl Expected {
    pub fn describe(&self) -> (r: &'static str) {
        match self {
            Expected::CloseQuote => "`'` to close the literal",
            Expected::EscapeSequence => "escape sequence",
            Expected::CloseBracket => "'}'",
            Expected::Colon => "':'",
            Expected::OpenParen => "'('",
            Expected::CloseParen => "')'",
            Expected::FunctionName => "identifier after '#'",
            Expected::ArgumentName => "identifier in arguments",
        }
    }
}

/// Every way in which an expansion, a manifest step or a command line can fail.
#[derive(Debug)]
pub enum Error {
    LexerUnexpected(char),
    LexerExpect(Expected),
    ParserExpected(Expected),
    /// `#name(...)` where `name` is not one of the three functions
    UnknownFunction(String),
    /// a function that takes a file alone given definitions or removals
    TooManyArguments(String),
    /// a file to read or to expand that exists but holds no readable text
    Unreadable(String),
    /// `#make` nested deeper than the context allows
    TooDeep,
    /// a directory entry that is neither a file, a directory nor a symlink
    UnsupportedEntry(String),
    /// a command with an unclosed quote
    CommandSyntax,
    /// a command with no program in it
    MissingProgram,
}

/// The model of an [`Error`], with its texts as character sequences.
pub enum SError {
    LexerUnexpected(char),
    LexerExpect(Expected),
    ParserExpected(Expected),
    UnknownFunction(Seq<char>),
    TooManyArguments(Seq<char>),
    Unreadable(Seq<char>),
    TooDeep,
    UnsupportedEntry(Seq<char>),
    CommandSyntax,
    MissingProgram,
}

impl View for Error {
    type V = SError;

    open spec fn view(&self) -> SError {
        match self {
            Error::LexerUnexpected(c) => SError::LexerUnexpected(*c),
            Error::LexerExpect(e) => SError::LexerExpect(*e),
            Error::ParserExpected(e) => SError::ParserExpected(*e),
            Error::UnknownFunction(s) => SError::UnknownFunction(s@),
            Error::TooManyArguments(s) => SError::TooManyArguments(s@),
            Error::Unreadable(s) => SError::Unreadable(s@),
            Error::TooDeep => SError::TooDeep,
            Error::UnsupportedEntry(s) => SError::UnsupportedEntry(s@),
            Error::CommandSyntax => SError::CommandSyntax,
            Error::MissingProgram => SError::MissingProgram,
        }
    }
}

} // verus!
