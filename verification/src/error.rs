//! The failures of an extraction run.

use vstd::prelude::*;

verus! {

/// Why an object of the document could not be reached.
#[derive(Clone, Copy, Debug, PartialEq, Eq, Structural)]
pub enum ResolutionFault {
    /// An image resource is no reference, points nowhere, or does not lead
    /// to a stream.
    Stream,
    /// A page points nowhere, or does not lead to a dictionary.
    Page,
    /// A key that must be present is absent.
    MissingKey,
    /// A value or an object has another type than the one expected.
    WrongType,
}

/// Why an image stream could not be decoded.
#[derive(Clone, Copy, Debug, PartialEq, Eq, Structural)]
pub enum DecodeFault {
    /// The filter chain names a filter other than the two that are handled.
    UnsupportedFilter,
    /// The payload is no valid deflate stream.
    Inflate,
    /// Width, height, bit depth or colour space is absent, has the wrong
    /// type, or does not fit the range of its kind.
    Attribute,
    /// Colour space and bit depth together give no known pixel format.
    PixelFormat,
}

/// An error of the extraction.
///
/// `LoadError` is fatal and comes before any page is looked at. The next
/// three fail one page. `UnpackError` is what a run reports when one page or
/// more failed.
#[derive(Clone, Copy, Debug, PartialEq, Eq, Structural)]
pub enum PDFConError {
    LoadError,
    ResolutionError(ResolutionFault),
    DecodeError(DecodeFault),
    CodecError,
    UnpackError,
}

} // verus!
