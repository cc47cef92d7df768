//! What can go wrong while a strings file is converted.

use vstd::prelude::*;
use toml::de::Error as TomlError;
use vstd::std_specs::convert::FromSpecImpl;
use vstd::string::{to_string_from_display_ensures, StringExecFns};

verus! {

/// toml's deserialization error, carried through as it came.
#[verifier::external_type_specification]
#[verifier::external_body]
pub struct ExTomlError(TomlError);

/// std's I/O error, carried through as it came.
#[verifier::external_type_specification]
#[verifier::external_body]
pub struct ExIoError(std::io::Error);

/// Why a strings file was not converted.
#[derive(Debug)]
pub enum Error {
    /// The strings file could not be read or the output could not be written.
    IOError(std::io::Error),
    /// The input is not well-formed TOML.
    TOMLParseError(TomlError),
    /// The input is TOML, but not a flat table from strings to strings.
    TOMLStructureError,
}

/// Stands before the text of an I/O error.
pub const IO_PREFIX: &'static str = "I/O error: ";

/// Stands before the text of toml's error.
pub const PARSE_PREFIX: &'static str = "Error parsing TOML: ";

/// All that is said of a document of the wrong shape: neither the key nor
/// the value that was in the way is named.
pub const STRUCTURE_MESSAGE: &'static str = "Strings TOML must be flat string/string table";

impl From<TomlError> for Error {
    fn from(other: TomlError) -> (e: Error) {
        Error::TOMLParseError(other)
    }
}

impl FromSpecImpl<TomlError> for Error {
    open spec fn obeys_from_spec() -> bool {
        true
    }

    open spec fn from_spec(other: TomlError) -> Error {
        Error::TOMLParseError(other)
    }
}

impl From<std::io::Error> for Error {
    fn from(other: std::io::Error) -> (e: Error) {
        Error::IOError(other)
    }
}

impl FromSpecImpl<std::io::Error> for Error {
    open spec fn obeys_from_spec() -> bool {
        true
    }

    open spec fn from_spec(other: std::io::Error) -> Error {
        Error::IOError(other)
    }
}

/// `prefix` followed by `detail`.
pub fn labelled(prefix: &str, detail: &str) -> (s: String)
    ensures
        s@ == prefix@ + detail@,
{
    let mut s = String::from_str(prefix);
    s.append(detail);
    s
}

impl Error {
    /// The text that describes this error to whoever runs the build: for an
    /// error that is carried, its prefix and then what the error shows of
    /// itself.
    pub fn message(&self) -> (s: String)
        ensures
            self is TOMLStructureError ==> s@ == STRUCTURE_MESSAGE@,
            self matches Error::TOMLParseError(err) ==> exists|detail: String|
                #[trigger] to_string_from_display_ensures::<TomlError>(err, detail) && s@
                    == PARSE_PREFIX@ + detail@,
            self matches Error::IOError(err) ==> exists|detail: String|
                #[trigger] to_string_from_display_ensures::<std::io::Error>(err, detail) && s@
                    == IO_PREFIX@ + detail@,
    {
        match self {
            Error::IOError(err) => {
                let detail = err.to_string();
                labelled(IO_PREFIX, detail.as_str())
            },
            Error::TOMLParseError(err) => {
                let detail = err.to_string();
                labelled(PARSE_PREFIX, detail.as_str())
            },
            Error::TOMLStructureError => String::from_str(STRUCTURE_MESSAGE),
        }
    }
}

} // verus!
