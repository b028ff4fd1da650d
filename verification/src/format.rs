//! The two encodings of a compiled module, their file extensions, and the
//! resolution of a path to the encoding that its extension names.

use crate::error::ConvertError;
use crate::path_text::{extension, extension_of, same_text};
use vstd::prelude::*;

verus! {

/// An on-disk encoding of a compiled module.
#[derive(Clone, Copy, Debug, PartialEq, Eq, Structural)]
pub enum BytecodeFormat {
    /// The structured-text encoding, stored in `.json` files.
    Json,
    /// The compact binary encoding, stored in `.mv` files.
    Mv,
}

/// The characters of the extension `json`.
pub open spec fn json_extension() -> Seq<char> {
    seq!['j', 's', 'o', 'n']
}

/// The characters of the extension `mv`.
pub open spec fn mv_extension() -> Seq<char> {
    seq!['m', 'v']
}

impl BytecodeFormat {
    /// The canonical extension of this encoding, without the leading dot.
    pub open spec fn extension_text(self) -> Seq<char> {
        match self {
            BytecodeFormat::Json => json_extension(),
            BytecodeFormat::Mv => mv_extension(),
        }
    }

    /// The other encoding.
    pub open spec fn spec_opposite(&self) -> BytecodeFormat {
        match self {
            BytecodeFormat::Json => BytecodeFormat::Mv,
            BytecodeFormat::Mv => BytecodeFormat::Json,
        }
    }

    /// The encoding whose canonical extension is `ext`, if there is one.
    pub open spec fn of_extension(ext: Seq<char>) -> Option<BytecodeFormat> {
        if ext == json_extension() {
            Some(BytecodeFormat::Json)
        } else if ext == mv_extension() {
            Some(BytecodeFormat::Mv)
        } else {
            None
        }
    }

    /// The encoding that the extension of `path` names. A path without an
    /// extension, or with any other extension, is not recognized.
    pub open spec fn resolve(path: Seq<char>) -> Result<BytecodeFormat, ConvertError> {
        match extension(path) {
            Some(ext) => match Self::of_extension(ext) {
                Some(format) => Ok(format),
                None => Err(ConvertError::UnrecognizedExtension),
            },
            None => Err(ConvertError::UnrecognizedExtension),
        }
    }

    /// Returns the canonical extension of this encoding, without the leading dot.
    pub fn extension(&self) -> (text: &'static str)
        ensures
            text@ == self.extension_text(),
    {
        match self {
            BytecodeFormat::Json => {
                proof {
                    reveal_strlit("json");
                }
                assert("json"@ =~= json_extension());
                "json"
            },
            BytecodeFormat::Mv => {
                proof {
                    reveal_strlit("mv");
                }
                assert("mv"@ =~= mv_extension());
                "mv"
            },
        }
    }

    /// Returns the canonical extension of this encoding as an owned string.
    pub fn to_string(&self) -> (text: String)
        ensures
            text@ == self.extension_text(),
    {
        String::from_str(self.extension())
    }

    /// Returns the encoding that a conversion from this one produces: always the other one.
    #[verifier::when_used_as_spec(spec_opposite)]
    pub fn opposite(&self) -> (other: BytecodeFormat)
        ensures
            other == self.spec_opposite(),
    {
        match self {
            BytecodeFormat::Json => BytecodeFormat::Mv,
            BytecodeFormat::Mv => BytecodeFormat::Json,
        }
    }

    /// Returns the encoding whose canonical extension is `ext`, if there is one.
    pub fn from_extension(ext: &str) -> (format: Option<BytecodeFormat>)
        ensures
            format == Self::of_extension(ext@),
    {
        if same_text(ext, BytecodeFormat::Json.extension()) {
            Some(BytecodeFormat::Json)
        } else if same_text(ext, BytecodeFormat::Mv.extension()) {
            Some(BytecodeFormat::Mv)
        } else {
            None
        }
    }

    /// Returns the encoding that the extension of `path` names, and fails
    /// with `UnrecognizedExtension` where the path has no extension or another one.
    /// Only the text of the path is looked at, never what the file holds.
    pub fn from_path(path: &str) -> (format: Result<BytecodeFormat, ConvertError>)
        ensures
            format == Self::resolve(path@),
    {
        match extension_of(path) {
            Some(ext) => match Self::from_extension(ext) {
                Some(format) => Ok(format),
                None => Err(ConvertError::UnrecognizedExtension),
            },
            None => Err(ConvertError::UnrecognizedExtension),
        }
    }
}

/// An extension names the encoding whose canonical extension it is, and
/// no other: the table from encodings to extensions and the table from
/// extensions to encodings are inverse to each other.
pub proof fn lemma_extension_names_format(format: BytecodeFormat, ext: Seq<char>)
    ensures
        BytecodeFormat::of_extension(format.extension_text()) == Some(format),
        BytecodeFormat::of_extension(ext) == Some(format) <==> ext == format.extension_text(),
{
    assert(json_extension().len() != mv_extension().len());
}

/// The opposite of an encoding is the other encoding, so its extension
/// differs, and the opposite of the opposite is the encoding itself.
pub proof fn lemma_opposite_swaps(format: BytecodeFormat)
    ensures
        format.opposite() != format,
        format.opposite().opposite() == format,
        format.opposite().extension_text() != format.extension_text(),
{
    assert(json_extension().len() != mv_extension().len());
}

/// A path is recognized exactly where its extension is `mv` or `json`;
/// every other path, and every path without an extension, is rejected
/// with `UnrecognizedExtension`.
pub proof fn lemma_resolve_by_extension(path: Seq<char>)
    ensures
        BytecodeFormat::resolve(path) == Ok::<BytecodeFormat, ConvertError>(BytecodeFormat::Mv)
            <==> extension(path) == Some(mv_extension()),
        BytecodeFormat::resolve(path) == Ok::<BytecodeFormat, ConvertError>(BytecodeFormat::Json)
            <==> extension(path) == Some(json_extension()),
        extension(path) != Some(mv_extension()) && extension(path) != Some(json_extension())
            ==> BytecodeFormat::resolve(path) == Err::<BytecodeFormat, ConvertError>(
            ConvertError::UnrecognizedExtension,
        ),
{
    assert(json_extension().len() != mv_extension().len());
}

} // verus!
