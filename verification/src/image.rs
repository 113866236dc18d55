//! From a stream of the document to the image that it holds: whether it is
//! an image at all, which filters it names, what the decoded payload is, and
//! how the output file is called.

use crate::bytes::{bytes_of, same_bytes};
use crate::color::{pixel_format, PixelFormat};
use crate::decode::{classify_filter, decode, decoded, filter_kind, FilterKind};
use crate::error::{DecodeFault, PDFConError, ResolutionFault};
use crate::naming::{file_name, page_file_name};
use crate::pdf::{
    dictionary_entries, lookup, object_shape, stream_bytes, stream_content, stream_dict,
    stream_dictionary, Entry, Shape,
};
use lopdf::{Dictionary, Object, Stream};
use vstd::prelude::*;
use vstd::slice::slice_to_vec;

verus! {

/// What the bytes of an image are.
#[derive(Clone, Copy, Debug, PartialEq, Eq, Structural)]
pub enum Payload {
    /// A complete JPEG file, to be written as it is.
    Jpeg,
    /// Raw pixels, to be encoded as PNG.
    Pixels { width: u32, height: u32, format: PixelFormat },
}

/// An image taken out of a page.
#[derive(Clone, Debug, PartialEq, Eq)]
pub struct Image {
    /// The name of the output file, without a directory.
    pub file_name: String,
    /// The bytes to write or to encode.
    pub content: Vec<u8>,
    /// What the bytes are.
    pub payload: Payload,
}

/// An image in contracts.
pub struct ImageView {
    pub file_name: Seq<char>,
    pub content: Seq<u8>,
    pub payload: Payload,
}

impl View for Image {
    type V = ImageView;

    open spec fn view(&self) -> ImageView {
        ImageView { file_name: self.file_name@, content: self.content@, payload: self.payload }
    }
}

/// The name stored under a key: absent where the key is, and where the
/// value is no name.
pub open spec fn name_attribute(entries: Seq<Entry>, key: Seq<u8>) -> Option<Seq<u8>> {
    match lookup(entries, key) {
        Some(value) => match object_shape(value) {
            Shape::Name(name) => Some(name),
            _ => None,
        },
        None => None,
    }
}

/// The integer stored under a key: absent where the key is, and where the
/// value is no integer.
pub open spec fn integer_attribute(entries: Seq<Entry>, key: Seq<u8>) -> Option<i64> {
    match lookup(entries, key) {
        Some(value) => match object_shape(value) {
            Shape::Integer(number) => Some(number),
            _ => None,
        },
        None => None,
    }
}

/// The subtype of a stream. It must be there and must be a name.
pub open spec fn subtype(entries: Seq<Entry>) -> Result<Seq<u8>, PDFConError> {
    match lookup(entries, bytes_of("Subtype")) {
        Some(value) => match object_shape(value) {
            Shape::Name(name) => Ok(name),
            _ => Err(PDFConError::ResolutionError(ResolutionFault::WrongType)),
        },
        None => Err(PDFConError::ResolutionError(ResolutionFault::MissingKey)),
    }
}

/// Whether every item is a name.
pub open spec fn all_names(items: Seq<Object>) -> bool {
    forall|i: int| 0 <= i < items.len() ==> object_shape(#[trigger] items[i]) is Name
}

/// The filter kinds of a list of names, in its order.
pub open spec fn kinds_of(items: Seq<Object>) -> Seq<FilterKind> {
    Seq::new(items.len(), |i: int| filter_kind(object_shape(items[i])->Name_0))
}

/// The filter chain that a `Filter` value stands for. The value may be
/// absent, one name, one string, or an array of names; each gives the list
/// of the filters it names, in the stored order. Anything else is an error.
pub open spec fn filter_chain(value: Option<Object>) -> Result<Seq<FilterKind>, PDFConError> {
    match value {
        None => Ok(Seq::empty()),
        Some(object) => match object_shape(object) {
            Shape::Name(name) => Ok(seq![filter_kind(name)]),
            Shape::Text(text) => Ok(seq![filter_kind(text)]),
            Shape::Array(items) => if all_names(items) {
                Ok(kinds_of(items))
            } else {
                Err(PDFConError::ResolutionError(ResolutionFault::WrongType))
            },
            _ => Err(PDFConError::ResolutionError(ResolutionFault::WrongType)),
        },
    }
}

/// A stored number as the width or the height of an image; none where it
/// is negative or too large.
pub open spec fn dimension_of(number: i64) -> Option<u32> {
    if 0 <= number <= u32::MAX {
        Some(number as u32)
    } else {
        None
    }
}

/// A stored number as a bit depth; none where it is negative or too large.
pub open spec fn depth_of(number: i64) -> Option<u8> {
    if 0 <= number <= u8::MAX {
        Some(number as u8)
    } else {
        None
    }
}

/// The width or the height stored under a key.
pub open spec fn dimension_attribute(entries: Seq<Entry>, key: Seq<u8>) -> Option<u32> {
    match integer_attribute(entries, key) {
        Some(number) => dimension_of(number),
        None => None,
    }
}

/// The bit depth stored under `BitsPerComponent`.
pub open spec fn depth_attribute(entries: Seq<Entry>) -> Option<u8> {
    match integer_attribute(entries, bytes_of("BitsPerComponent")) {
        Some(number) => depth_of(number),
        None => None,
    }
}

/// What a raw pixel buffer is, from the attributes of its stream: width,
/// height and bit depth must be integers in range and the colour space a
/// name, and the two last must give a pixel format.
pub open spec fn pixels(entries: Seq<Entry>) -> Result<Payload, PDFConError> {
    match (
        dimension_attribute(entries, bytes_of("Width")),
        dimension_attribute(entries, bytes_of("Height")),
        depth_attribute(entries),
        name_attribute(entries, bytes_of("ColorSpace")),
    ) {
        (Some(width), Some(height), Some(bits), Some(space)) => match pixel_format(space, bits) {
            Some(format) => Ok(Payload::Pixels { width, height, format }),
            None => Err(PDFConError::DecodeError(DecodeFault::PixelFormat)),
        },
        _ => Err(PDFConError::DecodeError(DecodeFault::Attribute)),
    }
}

/// The image that a stream holds, from the entries of its dictionary and
/// its stored payload.
///
/// A stream whose subtype is not `Image` holds none. Otherwise the filter
/// chain is read and undone. A payload that went through a `Dct` filter is
/// a JPEG file; any other is a raw pixel buffer, whose format the
/// attributes of the stream must give.
pub open spec fn stream_image(
    entries: Seq<Entry>,
    content: Seq<u8>,
    page_num: u32,
    total_pages: usize,
) -> Result<Option<ImageView>, PDFConError> {
    match subtype(entries) {
        Err(e) => Err(e),
        Ok(name) => if name != bytes_of("Image") {
            Ok(None)
        } else {
            match filter_chain(lookup(entries, bytes_of("Filter"))) {
                Err(e) => Err(e),
                Ok(filters) => match decoded(filters, content) {
                    Err(e) => Err(e),
                    Ok(last) => if last.is_jpeg {
                        Ok(
                            Some(
                                ImageView {
                                    file_name: file_name(page_num, total_pages, true),
                                    content: last.content,
                                    payload: Payload::Jpeg,
                                },
                            ),
                        )
                    } else {
                        match pixels(entries) {
                            Err(e) => Err(e),
                            Ok(payload) => Ok(
                                Some(
                                    ImageView {
                                        file_name: file_name(page_num, total_pages, false),
                                        content: last.content,
                                        payload,
                                    },
                                ),
                            ),
                        }
                    },
                },
            }
        },
    }
}

/// Reads the subtype of a stream.
pub fn read_subtype<'a>(dictionary: &'a Dictionary) -> (r: Result<&'a [u8], PDFConError>)
    ensures
        match subtype(dictionary_entries(*dictionary)) {
            Ok(name) => r matches Ok(bytes) && bytes@ == name,
            Err(e) => r == Err::<&[u8], PDFConError>(e),
        },
{
    match dictionary.get("Subtype".as_bytes()) {
        Ok(value) => match value.as_name() {
            Ok(name) => Ok(name),
            Err(_) => Err(PDFConError::ResolutionError(ResolutionFault::WrongType)),
        },
        Err(_) => Err(PDFConError::ResolutionError(ResolutionFault::MissingKey)),
    }
}

/// Reads a name that a raw pixel buffer needs.
pub fn read_name<'a>(dictionary: &'a Dictionary, key: &[u8]) -> (r: Option<&'a [u8]>)
    ensures
        match name_attribute(dictionary_entries(*dictionary), key@) {
            Some(name) => r matches Some(bytes) && bytes@ == name,
            None => r is None,
        },
{
    match dictionary.get(key) {
        Ok(value) => match value.as_name() {
            Ok(name) => Some(name),
            Err(_) => None,
        },
        Err(_) => None,
    }
}

/// Reads an integer that a raw pixel buffer needs.
pub fn read_integer(dictionary: &Dictionary, key: &[u8]) -> (r: Option<i64>)
    ensures
        r == integer_attribute(dictionary_entries(*dictionary), key@),
{
    match dictionary.get(key) {
        Ok(value) => match value.as_i64() {
            Ok(number) => Some(number),
            Err(_) => None,
        },
        Err(_) => None,
    }
}

/// Reads the filter chain of a stream from its dictionary.
pub fn read_filters(dictionary: &Dictionary) -> (r: Result<Vec<FilterKind>, PDFConError>)
    ensures
        match filter_chain(lookup(dictionary_entries(*dictionary), bytes_of("Filter"))) {
            Ok(filters) => r matches Ok(found) && found@ == filters,
            Err(e) => r == Err::<Vec<FilterKind>, PDFConError>(e),
        },
{
    let mut filters: Vec<FilterKind> = Vec::new();
    let value = match dictionary.get("Filter".as_bytes()) {
        Ok(value) => value,
        Err(_) => {
            return Ok(filters);
        },
    };
    if let Ok(name) = value.as_name() {
        filters.push(classify_filter(name));
        return Ok(filters);
    }
    if let Ok(text) = value.as_str() {
        filters.push(classify_filter(text));
        return Ok(filters);
    }
    let items = match value.as_array() {
        Ok(items) => items,
        Err(_) => {
            return Err(PDFConError::ResolutionError(ResolutionFault::WrongType));
        },
    };
    let ghost chain = filter_chain(lookup(dictionary_entries(*dictionary), bytes_of("Filter")));
    let mut i: usize = 0;
    while i < items.len()
        invariant
            i <= items@.len(),
            filters@.len() == i,
            chain == filter_chain(lookup(dictionary_entries(*dictionary), bytes_of("Filter"))),
            chain == if all_names(items@) {
                Ok::<Seq<FilterKind>, PDFConError>(kinds_of(items@))
            } else {
                Err(PDFConError::ResolutionError(ResolutionFault::WrongType))
            },
            forall|j: int| 0 <= j < i ==> object_shape(#[trigger] items@[j]) is Name,
            forall|j: int|
                0 <= j < i ==> #[trigger] filters@[j] == filter_kind(object_shape(items@[j])->Name_0),
        decreases items@.len() - i,
    {
        match items[i].as_name() {
            Ok(name) => {
                filters.push(classify_filter(name));
            },
            Err(_) => {
                return Err(PDFConError::ResolutionError(ResolutionFault::WrongType));
            },
        }
        i = i + 1;
    }
    Ok(filters)
}

/// Reads a width or a height.
pub fn read_dimension(dictionary: &Dictionary, key: &[u8]) -> (r: Option<u32>)
    ensures
        r == dimension_attribute(dictionary_entries(*dictionary), key@),
{
    match read_integer(dictionary, key) {
        Some(number) => if 0 <= number && number <= 0xffff_ffff {
            Some(number as u32)
        } else {
            None
        },
        None => None,
    }
}

/// Reads the bit depth.
pub fn read_depth(dictionary: &Dictionary) -> (r: Option<u8>)
    ensures
        r == depth_attribute(dictionary_entries(*dictionary)),
{
    match read_integer(dictionary, "BitsPerComponent".as_bytes()) {
        Some(number) => if 0 <= number && number <= 0xff {
            Some(number as u8)
        } else {
            None
        },
        None => None,
    }
}

/// Reads what a raw pixel buffer is from the attributes of its stream.
pub fn read_pixels(dictionary: &Dictionary) -> (r: Result<Payload, PDFConError>)
    ensures
        r == pixels(dictionary_entries(*dictionary)),
{
    let width = read_dimension(dictionary, "Width".as_bytes());
    let height = read_dimension(dictionary, "Height".as_bytes());
    let bits = read_depth(dictionary);
    let space = read_name(dictionary, "ColorSpace".as_bytes());
    match (width, height, bits, space) {
        (Some(width), Some(height), Some(bits), Some(space)) => {
            match PixelFormat::from_pdf_format(space, bits) {
                Ok(format) => Ok(Payload::Pixels { width, height, format }),
                Err(e) => Err(e),
            }
        },
        _ => Err(PDFConError::DecodeError(DecodeFault::Attribute)),
    }
}

/// The image that a stream holds, if it holds one, for a page of a run over
/// `total_pages` pages.
pub fn image_of_stream(
    stream: &Stream,
    page_num: u32,
    total_pages: usize,
) -> (r: Result<Option<Image>, PDFConError>)
    ensures
        match stream_image(
            dictionary_entries(stream_dictionary(*stream)),
            stream_content(*stream),
            page_num,
            total_pages,
        ) {
            Ok(Some(image)) => r matches Ok(Some(found)) && found@ == image,
            Ok(None) => r matches Ok(None),
            Err(e) => r == Err::<Option<Image>, PDFConError>(e),
        },
{
    let dictionary = stream_dict(stream);
    let name = match read_subtype(dictionary) {
        Ok(name) => name,
        Err(e) => {
            return Err(e);
        },
    };
    if !same_bytes(name, "Image".as_bytes()) {
        return Ok(None);
    }
    let filters = match read_filters(dictionary) {
        Ok(filters) => filters,
        Err(e) => {
            return Err(e);
        },
    };
    let stored = slice_to_vec(stream_bytes(stream).as_slice());
    let state = match decode(&filters, stored) {
        Ok(state) => state,
        Err(e) => {
            return Err(e);
        },
    };
    let payload = if state.is_jpeg {
        Payload::Jpeg
    } else {
        match read_pixels(dictionary) {
            Ok(payload) => payload,
            Err(e) => {
                return Err(e);
            },
        }
    };
    let file_name = page_file_name(page_num, total_pages, state.is_jpeg);
    Ok(Some(Image { file_name, content: state.content, payload }))
}

} // verus!
