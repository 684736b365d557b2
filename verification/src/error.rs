//! Error type shared by the encoder, the decoder and the type mapper.

use vstd::prelude::*;

verus! {

/// A conversion failure. Every fallible operation of the codec reports one of
/// these; a batch-level call fails as a whole on the first column error, in
/// column order.
#[derive(Clone, Debug, PartialEq, Eq)]
pub enum ConversionError {
    /// An interchange physical type with no internal mapping.
    UnsupportedPhysicalType,
    /// An extension tag outside the recognized vocabulary.
    UnsupportedExtensionTag,
    /// An extension tag whose declared carrier type does not match the
    /// actual array.
    FieldTypeMismatch,
    /// Decimal or JSON text that fails to parse.
    TextParseFailure,
    /// A decimal carrier with an unusable precision or scale, or a mantissa
    /// outside the representable range.
    UnsupportedNumericConfiguration,
    /// An interchange-level cast between physical types that is not
    /// supported.
    CastFailure,
    /// A list offset that exceeds the interchange offset width.
    OffsetOverflow,
}

} // verus!
