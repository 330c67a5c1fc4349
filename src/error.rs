use toml::de::Error as TomlError;
use vstd::prelude::*;

verus! {

#[verifier::external_type_specification]
#[verifier::external_body]
pub struct ExFromUtf16Error(std::string::FromUtf16Error);

#[verifier::external_type_specification]
#[verifier::external_body]
pub struct ExIoError(std::io::Error);

#[verifier::external_type_specification]
#[verifier::external_body]
pub struct ExTomlError(TomlError);

/// Everything that can go wrong while loading the configuration, building the
/// registries, or reading the process under the pointer.
#[derive(Debug)]
pub enum Error {
    /// The executable path reported by the platform is not valid UTF-16.
    FromUtf16Error(std::string::FromUtf16Error),
    /// The configuration file could not be read.
    IoError(std::io::Error),
    /// The configuration file is not valid TOML of the expected shape.
    TomlDeserializationError(TomlError),
    /// An application refers to a cursor name that no cursor declares.
    MissingCursorNameError { name: String },
    /// A cursor's image file does not exist.
    MissingCursorFileError { name: String, path: String },
    /// Two cursors share a name.
    DuplicateCursorName { name: String },
}

impl From<std::string::FromUtf16Error> for Error {
    fn from(e: std::string::FromUtf16Error) -> (r: Error)
        ensures
            r == Error::FromUtf16Error(e),
    {
        Error::FromUtf16Error(e)
    }
}

impl vstd::std_specs::convert::FromSpecImpl<std::string::FromUtf16Error> for Error {
    open spec fn obeys_from_spec() -> bool {
        true
    }

    open spec fn from_spec(e: std::string::FromUtf16Error) -> Error {
        Error::FromUtf16Error(e)
    }
}

impl From<std::io::Error> for Error {
    fn from(e: std::io::Error) -> (r: Error)
        ensures
            r == Error::IoError(e),
    {
        Error::IoError(e)
    }
}

impl vstd::std_specs::convert::FromSpecImpl<std::io::Error> for Error {
    open spec fn obeys_from_spec() -> bool {
        true
    }

    open spec fn from_spec(e: std::io::Error) -> Error {
        Error::IoError(e)
    }
}

impl From<TomlError> for Error {
    fn from(e: TomlError) -> (r: Error)
        ensures
            r == Error::TomlDeserializationError(e),
    {
        Error::TomlDeserializationError(e)
    }
}

impl vstd::std_specs::convert::FromSpecImpl<TomlError> for Error {
    open spec fn obeys_from_spec() -> bool {
        true
    }

    open spec fn from_spec(e: TomlError) -> Error {
        Error::TomlDeserializationError(e)
    }
}

} // verus!
