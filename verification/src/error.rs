use vstd::prelude::*;
use vstd::string::*;

verus! {

/// Why a resolution failed.
#[derive(Clone, Debug, PartialEq, Eq)]
pub enum Error {
    /// A declared type tag is not one of the known scalar types.
    UnknownType { tag: String },
    /// An argument is present but is not of the form its attribute expects.
    InvalidArgument { name: String },
    /// A column could not be read for the named attribute.
    Decode { attribute: String },
    /// A row cannot be decoded because an attribute's type is unknown.
    TypeNotFound { tag: String },
}

/// The mathematical value of an [`Error`].
pub enum ErrorModel {
    UnknownType { tag: Seq<char> },
    InvalidArgument { name: Seq<char> },
    Decode { attribute: Seq<char> },
    TypeNotFound { tag: Seq<char> },
}

impl View for Error {
    type V = ErrorModel;

    open spec fn view(&self) -> ErrorModel {
        match self {
            Error::UnknownType { tag } => ErrorModel::UnknownType { tag: tag@ },
            Error::InvalidArgument { name } => ErrorModel::InvalidArgument { name: name@ },
            Error::Decode { attribute } => ErrorModel::Decode { attribute: attribute@ },
            Error::TypeNotFound { tag } => ErrorModel::TypeNotFound { tag: tag@ },
        }
    }
}

/// The text that describes an error.
pub open spec fn message_of(error: ErrorModel) -> Seq<char> {
    match error {
        ErrorModel::UnknownType { tag } => "unknown type "@ + tag,
        ErrorModel::InvalidArgument { name } => "invalid argument "@ + name,
        ErrorModel::Decode { attribute } => "cannot decode attribute "@ + attribute,
        ErrorModel::TypeNotFound { tag } => "type named "@ + tag + " not found"@,
    }
}

impl Error {
    /// Describes the error in words, with the name it is about.
    pub fn message(&self) -> (s: String)
        ensures
            s@ == message_of(self@),
    {
        match self {
            Error::UnknownType { tag } => String::from_str("unknown type ").concat(tag.as_str()),
            Error::InvalidArgument { name } => String::from_str("invalid argument ").concat(
                name.as_str(),
            ),
            Error::Decode { attribute } => String::from_str("cannot decode attribute ").concat(
                attribute.as_str(),
            ),
            Error::TypeNotFound { tag } => String::from_str("type named ").concat(
                tag.as_str(),
            ).concat(" not found"),
        }
    }
}

} // verus!
