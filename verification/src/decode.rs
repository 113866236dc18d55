//! The filter chain of an image stream: which filters it names, and what
//! undoing them makes of the payload.

use crate::bytes::{bytes_of, same_bytes};
use crate::error::{DecodeFault, PDFConError};
use crate::zlib::{inflate_bytes, zlib_inflated};
use vstd::prelude::*;

verus! {

/// The filters that a stream can name, as far as decoding tells them apart.
#[derive(Clone, Copy, Debug, PartialEq, Eq, Structural)]
pub enum FilterKind {
    /// `DCTDecode`: the payload is a complete JPEG file.
    Dct,
    /// `FlateDecode`: the payload is a zlib stream.
    Flate,
    /// Any other filter.
    Unsupported,
}

/// The payload of a stream on its way through the filter chain.
#[derive(Clone, Debug, PartialEq, Eq)]
pub struct Decoded {
    /// Whether a `Dct` filter was met: the bytes are then a JPEG file.
    pub is_jpeg: bool,
    /// The bytes, after the filters undone so far.
    pub content: Vec<u8>,
}

/// A payload in contracts.
pub struct DecodedView {
    pub is_jpeg: bool,
    pub content: Seq<u8>,
}

impl View for Decoded {
    type V = DecodedView;

    open spec fn view(&self) -> DecodedView {
        DecodedView { is_jpeg: self.is_jpeg, content: self.content@ }
    }
}

/// The kind of the filter with the given name.
pub open spec fn filter_kind(name: Seq<u8>) -> FilterKind {
    if name == bytes_of("DCTDecode") {
        FilterKind::Dct
    } else if name == bytes_of("FlateDecode") {
        FilterKind::Flate
    } else {
        FilterKind::Unsupported
    }
}

/// The bytes of an optional buffer.
pub open spec fn bytes_view(buffer: Option<Vec<u8>>) -> Option<Seq<u8>> {
    match buffer {
        Some(bytes) => Some(bytes@),
        None => None,
    }
}

/// What one filter makes of a payload, given what inflating the bytes
/// yields.
pub open spec fn filter_applied(
    kind: FilterKind,
    state: DecodedView,
    inflated: Option<Seq<u8>>,
) -> Result<DecodedView, PDFConError> {
    match kind {
        FilterKind::Dct => Ok(DecodedView { is_jpeg: true, content: state.content }),
        FilterKind::Flate => match inflated {
            Some(bytes) => Ok(DecodedView { is_jpeg: state.is_jpeg, content: bytes }),
            None => Err(PDFConError::DecodeError(DecodeFault::Inflate)),
        },
        FilterKind::Unsupported => Err(PDFConError::DecodeError(DecodeFault::UnsupportedFilter)),
    }
}

/// What a filter chain makes of a payload. The filters are undone from the
/// last listed to the first, and the first failure ends the decoding.
pub open spec fn chain_applied(
    filters: Seq<FilterKind>,
    state: DecodedView,
) -> Result<DecodedView, PDFConError>
    decreases filters.len(),
{
    if filters.len() == 0 {
        Ok(state)
    } else {
        match filter_applied(filters.last(), state, zlib_inflated(state.content)) {
            Ok(next) => chain_applied(filters.drop_last(), next),
            Err(e) => Err(e),
        }
    }
}

/// What decoding makes of a stored payload with the given filter chain.
pub open spec fn decoded(
    filters: Seq<FilterKind>,
    content: Seq<u8>,
) -> Result<DecodedView, PDFConError> {
    chain_applied(filters, DecodedView { is_jpeg: false, content })
}

/// Tells the two handled filters from all others by name.
pub fn classify_filter(name: &[u8]) -> (kind: FilterKind)
    ensures
        kind == filter_kind(name@),
{
    if same_bytes(name, "DCTDecode".as_bytes()) {
        FilterKind::Dct
    } else if same_bytes(name, "FlateDecode".as_bytes()) {
        FilterKind::Flate
    } else {
        FilterKind::Unsupported
    }
}

/// Undoes one filter. `inflated` is what inflating the bytes of `state`
/// gave; only a `Flate` filter looks at it.
pub fn apply_filter(
    kind: FilterKind,
    state: Decoded,
    inflated: Option<Vec<u8>>,
) -> (r: Result<Decoded, PDFConError>)
    ensures
        match filter_applied(kind, state@, bytes_view(inflated)) {
            Ok(next) => r matches Ok(d) && d@ == next,
            Err(e) => r == Err::<Decoded, PDFConError>(e),
        },
{
    match kind {
        FilterKind::Dct => Ok(Decoded { is_jpeg: true, content: state.content }),
        FilterKind::Flate => match inflated {
            Some(bytes) => Ok(Decoded { is_jpeg: state.is_jpeg, content: bytes }),
            None => Err(PDFConError::DecodeError(DecodeFault::Inflate)),
        },
        FilterKind::Unsupported => Err(PDFConError::DecodeError(DecodeFault::UnsupportedFilter)),
    }
}

/// Undoes the filter chain of a stream on its stored payload, from the last
/// listed filter to the first.
pub fn decode(filters: &Vec<FilterKind>, content: Vec<u8>) -> (r: Result<Decoded, PDFConError>)
    ensures
        match decoded(filters@, content@) {
            Ok(last) => r matches Ok(d) && d@ == last,
            Err(e) => r == Err::<Decoded, PDFConError>(e),
        },
{
    let ghost stored = content@;
    let mut state = Decoded { is_jpeg: false, content };
    let mut left: usize = filters.len();
    assert(filters@.take(left as int) =~= filters@);
    while left > 0
        invariant
            left <= filters@.len(),
            stored == content@,
            decoded(filters@, stored) == chain_applied(filters@.take(left as int), state@),
        decreases left,
    {
        let kind = filters[left - 1];
        let inflated = match kind {
            FilterKind::Flate => inflate_bytes(state.content.as_slice()),
            _ => None,
        };
        proof {
            let prefix = filters@.take(left as int);
            assert(prefix.drop_last() =~= filters@.take(left - 1));
            assert(filter_applied(kind, state@, bytes_view(inflated)) == filter_applied(
                kind,
                state@,
                zlib_inflated(state@.content),
            ));
        }
        match apply_filter(kind, state, inflated) {
            Ok(next) => {
                state = next;
            },
            Err(e) => {
                return Err(e);
            },
        }
        left = left - 1;
    }
    Ok(state)
}

} // verus!
