use vstd::prelude::*;

verus! {

/// Every way in which translating a submission can fail.
#[derive(Debug, Clone, Copy, PartialEq, Eq, Structural)]
pub enum TranslationError {
    /// The payload is not well-formed length-delimited binary.
    MalformedPayload,
    /// A field that the message family needs is absent.
    MissingField,
    /// A field is present but its bytes do not have the expected shape.
    InvalidEncoding,
    /// A scaled amount does not fit in 128 bits.
    Overflow,
    /// The wire tag is known but no translator is registered for it.
    UnsupportedVariant,
    /// A submission or configuration entry does not exist.
    NotFound,
    /// The submission registry could not be read.
    StorageError,
}

} // verus!
