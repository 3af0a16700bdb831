//! The format of a contract document, told from the extension of its file
//! name.

use vstd::prelude::*;
use crate::error::concat2;
use crate::text::{lowercase, same_text, to_lowercase};

verus! {

/// The formats in which a contract can be written.
#[derive(Debug, Clone, Copy, PartialEq, Eq, Structural)]
pub enum ContractFormat {
    /// YAML, in files that end in `.yml` or `.yaml`.
    Yaml,
    /// TOML, in files that end in `.toml`.
    Toml,
}

/// What can go wrong when a contract document is read.
#[derive(Debug, Clone, PartialEq, Eq)]
pub enum ParserError {
    /// The document is not a contract in YAML.
    YamlError(String),
    /// The document is not a contract in TOML.
    TomlError(String),
    /// The file could not be read.
    IoError(String),
    /// The file's extension names no known format.
    UnsupportedFormat(String),
    /// The file's name has no extension.
    InvalidExtension,
}

impl ParserError {
    /// The line of text that reports the error.
    pub open spec fn message(self) -> Seq<char> {
        match self {
            ParserError::YamlError(m) => "Failed to parse YAML: "@ + m@,
            ParserError::TomlError(m) => "Failed to parse TOML: "@ + m@,
            ParserError::IoError(m) => "File I/O error: "@ + m@,
            ParserError::UnsupportedFormat(m) => "Unsupported file format: "@ + m@,
            ParserError::InvalidExtension => "Invalid or missing file extension"@,
        }
    }

    /// The line of text that reports the error.
    pub fn to_string(&self) -> (r: String)
        ensures
            r@ == self.message(),
    {
        match self {
            ParserError::YamlError(m) => concat2("Failed to parse YAML: ", m.as_str()),
            ParserError::TomlError(m) => concat2("Failed to parse TOML: ", m.as_str()),
            ParserError::IoError(m) => concat2("File I/O error: ", m.as_str()),
            ParserError::UnsupportedFormat(m) => concat2("Unsupported file format: ", m.as_str()),
            ParserError::InvalidExtension => "Invalid or missing file extension".to_owned(),
        }
    }
}

/// Whether `extension` can be the extension of the file name of `path`: it
/// holds no point, and the path holds it right behind one.
pub open spec fn extension_in(path: Seq<char>, extension: Seq<char>) -> bool {
    &&& !extension.contains('.')
    &&& exists|i: int|
        0 <= i && i + 1 + extension.len() <= path.len() && path[i] == '.' && #[trigger] path.subrange(
            i + 1,
            i + 1 + extension.len(),
        ) == extension
}

/// Calls `Path::extension` on the path and takes the extension where it is
/// valid Unicode. What counts as a file name differs between platforms, so
/// the contract claims only what holds on each of them: the extension is
/// the part of the file name behind its last point, and the file name is a
/// part of the path.
#[verifier::external_body]
fn file_extension(path: &str) -> (r: Option<String>)
    ensures
        r matches Some(e) ==> extension_in(path@, e@),
{
    std::path::Path::new(path).extension().and_then(|e| e.to_str()).map(|e| e.to_owned())
}

/// The format that an extension names, compared in lower case: `yaml` and
/// `yml` name YAML, `toml` names TOML.
pub open spec fn format_named(extension: Seq<char>) -> Option<ContractFormat> {
    let e = lowercase(extension);
    if e == "yaml"@ || e == "yml"@ {
        Some(ContractFormat::Yaml)
    } else if e == "toml"@ {
        Some(ContractFormat::Toml)
    } else {
        None
    }
}

/// Whether `result` is what the extension of a file name decides: the
/// format that it names, else that the format in lower case is not
/// supported; without an extension, that the extension is missing.
pub open spec fn decided_by(
    result: Result<ContractFormat, ParserError>,
    extension: Option<Seq<char>>,
) -> bool {
    match extension {
        None => result == Err::<ContractFormat, ParserError>(ParserError::InvalidExtension),
        Some(e) => match format_named(e) {
            Some(f) => result == Ok::<ContractFormat, ParserError>(f),
            None => result matches Err(ParserError::UnsupportedFormat(other)) && other@
                == lowercase(e),
        },
    }
}

/// The content of an optional string.
pub open spec fn text_of(s: Option<&str>) -> Option<Seq<char>> {
    match s {
        Some(t) => Some(t@),
        None => None,
    }
}

/// The format that the extension of a file name decides.
pub fn format_of_extension(extension: Option<&str>) -> (r: Result<ContractFormat, ParserError>)
    ensures
        decided_by(r, text_of(extension)),
{
    match extension {
        None => Err(ParserError::InvalidExtension),
        Some(e) => {
            let lower = to_lowercase(e);
            if same_text(lower.as_str(), "yaml") || same_text(lower.as_str(), "yml") {
                Ok(ContractFormat::Yaml)
            } else if same_text(lower.as_str(), "toml") {
                Ok(ContractFormat::Toml)
            } else {
                Err(ParserError::UnsupportedFormat(lower))
            }
        },
    }
}

/// Whether `extension` can be what the file name of `path` has for an
/// extension: nothing, or a text that [`extension_in`] admits.
pub open spec fn may_end(path: Seq<char>, extension: Option<Seq<char>>) -> bool {
    match extension {
        Some(e) => extension_in(path, e),
        None => true,
    }
}

/// The format of the contract document at `path`, as the extension of the
/// path's file name decides it. A path without a point has no extension.
pub fn detect_format(path: &str) -> (r: Result<ContractFormat, ParserError>)
    ensures
        exists|extension: Option<Seq<char>>| may_end(path@, extension) && decided_by(r, extension),
        !path@.contains('.') ==> r == Err::<ContractFormat, ParserError>(
            ParserError::InvalidExtension,
        ),
{
    let extension = file_extension(path);
    let r = match &extension {
        Some(e) => format_of_extension(Some(e.as_str())),
        None => format_of_extension(None),
    };
    proof {
        let found = match extension {
            Some(e) => Some(e@),
            None => None,
        };
        assert(may_end(path@, found) && decided_by(r, found));
    }
    r
}

} // verus!
