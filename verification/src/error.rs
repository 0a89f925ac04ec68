//! Why a document could not be turned into record types.

use vstd::prelude::*;
use vstd::string::*;

verus! {

/// A failure of the generator. Each one ends the work on the document it
/// concerns; nothing is generated for that document.
#[derive(Debug, PartialEq, Eq)]
pub enum GenerateError {
    /// The file could not be read.
    FileRead { path: String, cause: String },
    /// The format tag names none of the supported formats.
    UnsupportedFormat { tag: String },
    /// The content is not a document of the selected format.
    Parse { format: String, cause: String },
    /// The document has a shape from which no type can be inferred.
    InternalShape { description: String },
}

/// The mathematical form of a [`GenerateError`].
pub enum ErrorModel {
    FileRead { path: Seq<char>, cause: Seq<char> },
    UnsupportedFormat { tag: Seq<char> },
    Parse { format: Seq<char>, cause: Seq<char> },
    InternalShape { description: Seq<char> },
}

impl View for GenerateError {
    type V = ErrorModel;

    open spec fn view(&self) -> ErrorModel {
        match self {
            GenerateError::FileRead { path, cause } => ErrorModel::FileRead {
                path: path@,
                cause: cause@,
            },
            GenerateError::UnsupportedFormat { tag } => ErrorModel::UnsupportedFormat { tag: tag@ },
            GenerateError::Parse { format, cause } => ErrorModel::Parse {
                format: format@,
                cause: cause@,
            },
            GenerateError::InternalShape { description } => ErrorModel::InternalShape {
                description: description@,
            },
        }
    }
}

/// What is reported of an array whose elements differ in type.
pub open spec fn mixed_array_text() -> Seq<char> {
    "array elements differ in type"@
}

impl ErrorModel {
    /// The failure reported for an array whose elements differ in type.
    pub open spec fn mixed_array() -> ErrorModel {
        ErrorModel::InternalShape { description: mixed_array_text() }
    }

    /// The cause of the failure, in words.
    pub open spec fn message(self) -> Seq<char> {
        match self {
            ErrorModel::FileRead { path, cause } => "Failed to read file '"@ + path + "': "@
                + cause,
            ErrorModel::UnsupportedFormat { tag } => "Unsupported format: "@ + tag,
            ErrorModel::Parse { format, cause } => "Malformed "@ + format + ": "@ + cause,
            ErrorModel::InternalShape { description } => "Cannot infer a type: "@ + description,
        }
    }

    /// The diagnostic shown for a failure on the file at `file_path`.
    pub open spec fn diagnostic(self, file_path: Seq<char>) -> Seq<char> {
        match self {
            ErrorModel::FileRead { .. } => self.message(),
            _ => "Failed to parse content of '"@ + file_path + "': "@ + self.message(),
        }
    }
}

impl GenerateError {
    /// The failure reported for an array whose elements differ in type.
    pub fn mixed_array() -> (r: GenerateError)
        ensures
            r@ == ErrorModel::mixed_array(),
    {
        GenerateError::InternalShape {
            description: String::from_str("array elements differ in type"),
        }
    }

    /// The cause of the failure, in words.
    pub fn message(&self) -> (r: String)
        ensures
            r@ == self@.message(),
    {
        match self {
            GenerateError::FileRead { path, cause } => {
                let mut out = String::from_str("Failed to read file '");
                out.append(path.as_str());
                out.append("': ");
                out.append(cause.as_str());
                out
            },
            GenerateError::UnsupportedFormat { tag } => {
                let mut out = String::from_str("Unsupported format: ");
                out.append(tag.as_str());
                out
            },
            GenerateError::Parse { format, cause } => {
                let mut out = String::from_str("Malformed ");
                out.append(format.as_str());
                out.append(": ");
                out.append(cause.as_str());
                out
            },
            GenerateError::InternalShape { description } => {
                let mut out = String::from_str("Cannot infer a type: ");
                out.append(description.as_str());
                out
            },
        }
    }

    /// The diagnostic to show for this failure on the file at `file_path`:
    /// it names the file and gives the cause.
    pub fn diagnostic(&self, file_path: &str) -> (r: String)
        ensures
            r@ == self@.diagnostic(file_path@),
    {
        match self {
            GenerateError::FileRead { .. } => self.message(),
            _ => {
                let mut out = String::from_str("Failed to parse content of '");
                out.append(file_path);
                out.append("': ");
                let cause = self.message();
                out.append(cause.as_str());
                out
            },
        }
    }
}

} // verus!
