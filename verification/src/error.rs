//! The failures that end a compilation.

use vstd::prelude::*;
use vstd::string::*;

verus! {

/// Every way in which compiling a page can fail. Each one is final: no
/// component recovers from another's failure.
#[derive(Clone, Copy, PartialEq, Eq, Debug, Structural)]
pub enum Error {
    CannotGetWorkingDirectory,
    UnrecognizedToken,
    UnrecognizedControlSequence,
    TooManyHashes,
    UnexpectedEof,
    ExpectedTokenOfClass,
    CannotFindFile,
    CannotReadFile,
    CannotOpenFile,
    CannotWriteFile,
    CannotExtractFileStem,
    CannotReadDir,
}

impl Error {
    /// The fixed wording of this failure, without the diagnostic prefix.
    pub open spec fn wording(self) -> Seq<char> {
        match self {
            Error::CannotGetWorkingDirectory => "cannot get working directory"@,
            Error::UnrecognizedToken => "unrecognized token"@,
            Error::UnrecognizedControlSequence => "unrecongized control sequence"@,
            Error::TooManyHashes => "too many hashes"@,
            Error::UnexpectedEof => "unexpected end of file"@,
            Error::ExpectedTokenOfClass => "expected token of class"@,
            Error::CannotFindFile => "cannot find file"@,
            Error::CannotReadFile => "cannot read file"@,
            Error::CannotOpenFile => "cannot open file"@,
            Error::CannotWriteFile => "cannot write to file"@,
            Error::CannotExtractFileStem => "cannot extract file stem"@,
            Error::CannotReadDir => "cannot read input directory"@,
        }
    }

    /// The diagnostic line for this failure: the prefix, then the wording.
    pub open spec fn diagnostic(self) -> Seq<char> {
        "[ERROR] "@ + self.wording()
    }

    /// The diagnostic line followed by a context value such as a file path.
    pub open spec fn diagnostic_with(self, context: Seq<char>) -> Seq<char> {
        self.diagnostic() + ": "@ + context
    }

    fn wording_text(&self) -> (text: &'static str)
        ensures
            text@ == self.wording(),
    {
        match self {
            Error::CannotGetWorkingDirectory => "cannot get working directory",
            Error::UnrecognizedToken => "unrecognized token",
            Error::UnrecognizedControlSequence => "unrecongized control sequence",
            Error::TooManyHashes => "too many hashes",
            Error::UnexpectedEof => "unexpected end of file",
            Error::ExpectedTokenOfClass => "expected token of class",
            Error::CannotFindFile => "cannot find file",
            Error::CannotReadFile => "cannot read file",
            Error::CannotOpenFile => "cannot open file",
            Error::CannotWriteFile => "cannot write to file",
            Error::CannotExtractFileStem => "cannot extract file stem",
            Error::CannotReadDir => "cannot read input directory",
        }
    }

    /// Renders the one-line diagnostic for this failure.
    pub fn message(&self) -> (line: String)
        ensures
            line@ == self.diagnostic(),
    {
        let mut line = String::from_str("[ERROR] ");
        line.append(self.wording_text());
        line
    }

    /// Renders the diagnostic followed by `": "` and a context value.
    pub fn message_with(&self, context: &str) -> (line: String)
        ensures
            line@ == self.diagnostic_with(context@),
    {
        let mut line = self.message();
        line.append(": ");
        line.append(context);
        line
    }
}

} // verus!
