//! The ways in which the conversion of a file can fail.

use vstd::prelude::*;

verus! {

/// Why the conversion of one file failed. Every failure is final: nothing
/// is retried, and no output is written once a step has failed.
#[derive(Clone, Copy, Debug, PartialEq, Eq, Structural)]
pub enum ConvertError {
    /// The extension of the input path is neither `mv` nor `json`, or the
    /// path has no extension.
    UnrecognizedExtension,
    /// The input could not be read or decoded into a module.
    Decode,
    /// Verification was requested and the decoded module did not pass it.
    Verify,
    /// The module could not be encoded in the output encoding.
    Encode,
    /// The output file could not be written.
    Write,
}

} // verus!
