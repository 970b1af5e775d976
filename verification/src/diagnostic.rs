use vstd::prelude::*;

verus! {

/// What the scanner can find wrong with a source text.
#[derive(Debug, Clone, Copy, PartialEq, Eq, Structural)]
pub enum ScanError {
    /// A string literal whose closing quote never comes.
    UnterminatedString,
    /// A character that starts no token.
    UnexpectedCharacter,
}

/// A report of the scanner, as a mathematical value.
pub struct DiagnosticView {
    pub error: ScanError,
    /// The 1-based line on which the offending text begins.
    pub line: nat,
    /// The 1-based column at which it begins.
    pub column: nat,
}

/// A report of the scanner: what is wrong, and where the offending text begins.
#[derive(Debug, Clone, Copy, PartialEq, Eq, Structural)]
pub struct Diagnostic {
    error: ScanError,
    line: usize,
    column: usize,
}

impl View for Diagnostic {
    type V = DiagnosticView;

    closed spec fn view(&self) -> DiagnosticView {
        DiagnosticView { error: self.error, line: self.line as nat, column: self.column as nat }
    }
}

impl ScanError {
    /// The sentence that names this error.
    pub open spec fn spec_message(self) -> Seq<char> {
        match self {
            ScanError::UnterminatedString => "Unterminated string."@,
            ScanError::UnexpectedCharacter => "Unexpected character."@,
        }
    }

    /// The sentence that names this error.
    pub fn message(self) -> (text: &'static str)
        ensures
            text@ == self.spec_message(),
    {
        match self {
            ScanError::UnterminatedString => "Unterminated string.",
            ScanError::UnexpectedCharacter => "Unexpected character.",
        }
    }
}

impl Diagnostic {
    /// The report of `error` for the text that begins at `line` and `column`.
    pub fn new(error: ScanError, line: usize, column: usize) -> (diagnostic: Diagnostic)
        ensures
            diagnostic@ == (DiagnosticView { error, line: line as nat, column: column as nat }),
    {
        Diagnostic { error, line, column }
    }

    /// What is wrong.
    pub fn error(&self) -> (error: ScanError)
        ensures
            error == self@.error,
    {
        self.error
    }

    /// The line on which the offending text begins.
    pub fn line(&self) -> (line: usize)
        ensures
            line as nat == self@.line,
    {
        self.line
    }

    /// The column at which the offending text begins.
    pub fn column(&self) -> (column: usize)
        ensures
            column as nat == self@.column,
    {
        self.column
    }
}

} // verus!
