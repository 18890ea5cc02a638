use vstd::prelude::*;

verus! {

#[verifier::external_type_specification]
#[verifier::external_body]
pub struct ExIoError(std::io::Error);

/// Where an empty pipeline stage was found, relative to a pipe operator.
#[derive(Clone, Copy, Debug, PartialEq, Eq, Structural)]
pub enum PipeSide {
    Before,
    After,
}

/// Why a command line was rejected. No stage of a rejected line runs.
#[derive(Clone, Copy, Debug, PartialEq, Eq, Structural)]
pub enum ParseError {
    /// A single or double quote was still open at the end of the line.
    UnclosedQuote,
    /// A redirection operator was not followed by a file name.
    MissingPath,
    /// A pipe operator had no stage on one of its sides.
    EmptyPipeSegment(PipeSide),
}

impl ParseError {
    pub open spec fn spec_message(self) -> Seq<char> {
        match self {
            ParseError::UnclosedQuote => "unclosed quotes"@,
            ParseError::MissingPath => "no file path provided"@,
            ParseError::EmptyPipeSegment(PipeSide::Before) => "no command is provided before the pipe"@,
            ParseError::EmptyPipeSegment(PipeSide::After) => "no command is provided after the pipe"@,
        }
    }

    /// The diagnostic text for this error.
    pub fn message(&self) -> (r: String)
        ensures
            r@ == self.spec_message(),
    {
        match self {
            ParseError::UnclosedQuote => String::from_str("unclosed quotes"),
            ParseError::MissingPath => String::from_str("no file path provided"),
            ParseError::EmptyPipeSegment(PipeSide::Before) => String::from_str(
                "no command is provided before the pipe",
            ),
            ParseError::EmptyPipeSegment(PipeSide::After) => String::from_str(
                "no command is provided after the pipe",
            ),
        }
    }
}

/// An error surfaced by the interpreter: an operating-system failure, or a
/// failure described by its text.
pub enum GenericError {
    IOError(std::io::Error),
    OtherError(String),
}

/// Relies on the `Display` impl of `std::io::Error` to describe the failure.
#[verifier::external_body]
fn io_error_text(err: &std::io::Error) -> String {
    err.to_string()
}

impl GenericError {
    /// The diagnostic text for this error.
    pub fn message(&self) -> (r: String)
        ensures
            self is OtherError ==> r@ == self->OtherError_0@,
    {
        match self {
            GenericError::IOError(err) => io_error_text(err),
            GenericError::OtherError(s) => s.clone(),
        }
    }
}

impl From<String> for GenericError {
    fn from(s: String) -> (r: GenericError)
        ensures
            r == GenericError::OtherError(s),
    {
        GenericError::OtherError(s)
    }
}

impl vstd::std_specs::convert::FromSpecImpl<String> for GenericError {
    open spec fn obeys_from_spec() -> bool {
        true
    }

    open spec fn from_spec(s: String) -> GenericError {
        GenericError::OtherError(s)
    }
}

impl From<&str> for GenericError {
    fn from(s: &str) -> (r: GenericError)
        ensures
            r is OtherError && r->OtherError_0@ == s@,
    {
        GenericError::OtherError(String::from_str(s))
    }
}

impl vstd::std_specs::convert::FromSpecImpl<&str> for GenericError {
    open spec fn obeys_from_spec() -> bool {
        false
    }

    open spec fn from_spec(s: &str) -> GenericError {
        vstd::pervasive::arbitrary()
    }
}

impl From<std::io::Error> for GenericError {
    fn from(err: std::io::Error) -> (r: GenericError)
        ensures
            r == GenericError::IOError(err),
    {
        GenericError::IOError(err)
    }
}

impl vstd::std_specs::convert::FromSpecImpl<std::io::Error> for GenericError {
    open spec fn obeys_from_spec() -> bool {
        true
    }

    open spec fn from_spec(err: std::io::Error) -> GenericError {
        GenericError::IOError(err)
    }
}

} // verus!
