//! From a colour space and a bit depth to the pixel format of a raw pixel
//! buffer.

use crate::bytes::{bytes_of, same_bytes};
use crate::error::{DecodeFault, PDFConError};
use vstd::prelude::*;

verus! {

/// What the channels of a pixel mean.
#[derive(Clone, Copy, Debug, PartialEq, Eq, Structural)]
pub enum ChannelLayout {
    /// One channel of luminance.
    Gray,
    /// Red, green and blue.
    Rgb,
}

/// The pixel format of a raw pixel buffer.
#[derive(Clone, Copy, Debug, PartialEq, Eq, Structural)]
pub struct PixelFormat {
    /// The number of channels of a pixel.
    pub channels: u8,
    /// The number of bits of a channel.
    pub bits: u8,
    /// What the channels mean.
    pub layout: ChannelLayout,
}

/// The bit depths that a gray buffer can have.
pub open spec fn gray_depth(bits: u8) -> bool {
    bits == 1 || bits == 2 || bits == 4 || bits == 8 || bits == 16
}

/// The bit depths that a colour buffer can have.
pub open spec fn rgb_depth(bits: u8) -> bool {
    bits == 8 || bits == 16
}

/// The pixel format of a colour space at a bit depth: `DeviceGray` at 1, 2,
/// 4, 8 or 16 bits is one gray channel, `DeviceRGB` at 8 or 16 bits is three
/// colour channels, and no other pair has a format.
pub open spec fn pixel_format(color_space: Seq<u8>, bits: u8) -> Option<PixelFormat> {
    if color_space == bytes_of("DeviceGray") && gray_depth(bits) {
        Some(PixelFormat { channels: 1, bits, layout: ChannelLayout::Gray })
    } else if color_space == bytes_of("DeviceRGB") && rgb_depth(bits) {
        Some(PixelFormat { channels: 3, bits, layout: ChannelLayout::Rgb })
    } else {
        None
    }
}

impl PixelFormat {
    /// Whether the format is one that the mapping gives: the channels and
    /// the bit depth go with the layout.
    pub open spec fn well_formed(&self) -> bool {
        match self.layout {
            ChannelLayout::Gray => self.channels == 1 && gray_depth(self.bits),
            ChannelLayout::Rgb => self.channels == 3 && rgb_depth(self.bits),
        }
    }

    /// The pixel format of a colour space at a bit depth, or a decode error
    /// where the pair has none.
    pub fn from_pdf_format(color_space: &[u8], bits: u8) -> (r: Result<PixelFormat, PDFConError>)
        ensures
            r == match pixel_format(color_space@, bits) {
                Some(format) => Ok::<PixelFormat, PDFConError>(format),
                None => Err(PDFConError::DecodeError(DecodeFault::PixelFormat)),
            },
            r matches Ok(format) ==> format.well_formed(),
    {
        if same_bytes(color_space, "DeviceGray".as_bytes()) && (bits == 1 || bits == 2 || bits == 4
            || bits == 8 || bits == 16) {
            Ok(PixelFormat { channels: 1, bits, layout: ChannelLayout::Gray })
        } else if same_bytes(color_space, "DeviceRGB".as_bytes()) && (bits == 8 || bits == 16) {
            Ok(PixelFormat { channels: 3, bits, layout: ChannelLayout::Rgb })
        } else {
            Err(PDFConError::DecodeError(DecodeFault::PixelFormat))
        }
    }
}

} // verus!
