//! The errors of locating and reading log files.
use vstd::prelude::*;

verus! {

/// `std::io::Error`, carried through as it is.
#[verifier::external_type_specification]
#[verifier::external_body]
pub struct ExIoError(std::io::Error);

/// Why log files could not be located or read.
#[derive(Debug)]
pub enum Error {
    /// No logs directory was given and the user's documents directory is unknown.
    DocDirNotFound,
    /// A file or directory could not be read or written.
    File(std::io::Error),
}

impl From<std::io::Error> for Error {
    fn from(e: std::io::Error) -> (r: Error)
        ensures
            r == Error::File(e),
    {
        Error::File(e)
    }
}

impl vstd::std_specs::convert::FromSpecImpl<std::io::Error> for Error {
    open spec fn obeys_from_spec() -> bool {
        true
    }

    open spec fn from_spec(e: std::io::Error) -> Error {
        Error::File(e)
    }
}

} // verus!
