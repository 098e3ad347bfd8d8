//! The failures that the library reports, and the exit code of each.

use vstd::prelude::*;

verus! {

/// The category of a failure.
#[derive(Debug, Clone, Copy, PartialEq, Eq, Structural)]
pub enum Kind {
    /// A request that contradicts itself, such as custom mode without a path.
    Internal,
    /// Malformed input from the user: a version text or an option token.
    Usage,
    /// A configuration that cannot be read, or that lacks a directory.
    Config,
    /// The operating system refused a read, a directory or a launch.
    Io,
    /// The requested version is absent even after the index was rebuilt.
    ProtonMissing,
    /// The launched program ended without success.
    ProtonExit,
}

/// A failure: its category and one line of text for the user.
#[derive(Debug, Clone, PartialEq, Eq)]
pub struct Error {
    pub kind: Kind,
    pub message: String,
}

/// What an [`Error`] stands for.
pub struct ErrorView {
    pub kind: Kind,
    pub message: Seq<char>,
}

impl View for Error {
    type V = ErrorView;

    open spec fn view(&self) -> ErrorView {
        ErrorView { kind: self.kind, message: self.message@ }
    }
}

/// The process exit code that stands for a failure of the given kind.
///
/// Usage, configuration, internal and I/O failures share code 1; a version that is not
/// installed gives 2; a program that ran and failed gives 3. Success is 0
/// and is no failure.
pub open spec fn exit_code_of(kind: Kind) -> int {
    match kind {
        Kind::Internal => 1,
        Kind::Usage => 1,
        Kind::Config => 1,
        Kind::Io => 1,
        Kind::ProtonMissing => 2,
        Kind::ProtonExit => 3,
    }
}

/// No failure exits with the code of success, and the three categories that
/// callers tell apart have three different codes.
pub proof fn lemma_exit_codes_tell_categories_apart(kind: Kind)
    ensures
        exit_code_of(kind) != 0,
        exit_code_of(kind) == 3 <==> kind == Kind::ProtonExit,
        exit_code_of(kind) == 2 <==> kind == Kind::ProtonMissing,
{
}

/// The line shown to the user: the invoking program, a colon, the message.
pub open spec fn report_of(program: Seq<char>, message: Seq<char>) -> Seq<char> {
    program + seq![':', ' '] + message
}

impl Error {
    /// A failure of the given kind.
    pub fn new(kind: Kind, message: String) -> (e: Error)
        ensures
            e.kind == kind,
            e.message == message,
    {
        Error { kind, message }
    }

    /// The category of this failure.
    pub fn kind(&self) -> (kind: Kind)
        ensures
            kind == self.kind,
    {
        self.kind
    }

    /// The exit code for this failure.
    pub fn exit_code(&self) -> (code: i32)
        ensures
            code == exit_code_of(self.kind),
    {
        match self.kind {
            Kind::Internal => 1,
            Kind::Usage => 1,
            Kind::Config => 1,
            Kind::Io => 1,
            Kind::ProtonMissing => 2,
            Kind::ProtonExit => 3,
        }
    }

    /// The single line that reports this failure on behalf of `program`.
    pub fn report(&self, program: &str) -> (line: String)
        ensures
            line@ == report_of(program@, self.message@),
    {
        let mut line = String::from_str(program);
        crate::text::push_char(&mut line, ':');
        crate::text::push_char(&mut line, ' ');
        line.append(self.message.as_str());
        line
    }
}

} // verus!
