use vstd::prelude::*;

verus! {

/// Relies on std::io::Error as an opaque value: the library carries it
/// through its `Read` variant and never looks inside.
#[verifier::external_type_specification]
#[verifier::external_body]
pub struct ExIoError(std::io::Error);

/// Why a descriptor text could not be decoded.
///
/// Line numbers are one-based and name the line on which decoding stopped.
#[derive(Clone, Copy, Debug, PartialEq, Eq, Structural)]
pub enum DecodeError {
    /// The line is not blank, not a comment, not a table heading and not a
    /// `key = "value"` pair.
    Syntax { line: usize },
    /// A table heading other than the two filter tables.
    UnknownTable { line: usize },
    /// A key outside any table other than the header field.
    UnknownField { line: usize },
    /// A table heading or a key that was already given.
    Duplicate { line: usize },
    /// A filter value that names no known item kind.
    BadKind { line: usize },
    /// The required header field is missing.
    MissingHeader,
}

/// All errors that can happen while parsing headers.
#[derive(Debug)]
pub enum Error {
    /// The descriptor text is malformed or a field is mistyped.
    Deserialize(DecodeError),
    /// Both an allow filter set and a deny filter set are specified.
    DualFilters,
    /// No valid name can be derived from the source file name.
    Filename,
    /// The underlying source cannot be read.
    Read(std::io::Error),
}

impl Error {
    /// A short description of the error, for reporting.
    pub fn message(&self) -> (m: &'static str)
        ensures
            self matches Error::Deserialize(_) ==> m@ == "cannot decode the descriptor text"@,
            self is DualFilters ==> m@ == "both an allow and a deny filter set are specified"@,
            self is Filename ==> m@ == "no valid name can be derived from the file name"@,
            self matches Error::Read(_) ==> m@ == "cannot read the descriptor source"@,
    {
        match self {
            Error::Deserialize(_) => "cannot decode the descriptor text",
            Error::DualFilters => "both an allow and a deny filter set are specified",
            Error::Filename => "no valid name can be derived from the file name",
            Error::Read(_) => "cannot read the descriptor source",
        }
    }
}

impl From<DecodeError> for Error {
    fn from(err: DecodeError) -> (e: Error) {
        Error::Deserialize(err)
    }
}

impl vstd::std_specs::convert::FromSpecImpl<DecodeError> for Error {
    open spec fn obeys_from_spec() -> bool {
        true
    }

    open spec fn from_spec(err: DecodeError) -> Error {
        Error::Deserialize(err)
    }
}

impl From<std::io::Error> for Error {
    fn from(err: std::io::Error) -> (e: Error) {
        Error::Read(err)
    }
}

impl vstd::std_specs::convert::FromSpecImpl<std::io::Error> for Error {
    open spec fn obeys_from_spec() -> bool {
        true
    }

    open spec fn from_spec(err: std::io::Error) -> Error {
        Error::Read(err)
    }
}

} // verus!
