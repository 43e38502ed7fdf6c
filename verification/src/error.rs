//! The unified error of a read: exactly one of three kinds.

use vstd::prelude::*;

verus! {

/// Declares `std::io::Error` so that signatures and fields may carry the
/// transport's own error value verbatim.  The value is opaque here; the
/// library only moves it.
#[verifier::external_type_specification]
#[verifier::external_body]
pub struct ExIoError(std::io::Error);

/// A unified error indicating either an I/O failure, a parse failure, or
/// end of stream.  The underlying error of the first two variants is
/// preserved verbatim, never stringified, so callers can inspect it.
#[derive(Debug)]
pub enum InputError<E> {
    /// The underlying transport could not deliver bytes (or the prompt
    /// could not be written).
    Io(std::io::Error),
    /// The line's text was not in the target type's grammar; carries the
    /// target type's own parse-error value.
    Parse(E),
    /// The source was exhausted before a line could be read.  Reached only
    /// by the non-tolerant reading forms.
    Eof,
}

} // verus!
