//! Extraction of the raster images embedded in the pages of a PDF document.
//!
//! The library works on a document parsed by `lopdf` and says, for every
//! page, which image files are to be written: their path, their bytes, and
//! whether the bytes are a JPEG file as they are or raw pixels to encode as
//! PNG. It reads nothing from disk and writes nothing to it; whoever calls
//! it loads the document, hands the pages to its workers and writes the
//! files.
//!
//! - [`preprocess`] decides, while the document is loaded, which objects
//!   stay.
//! - [`color`] maps a colour space and a bit depth to a pixel format.
//! - [`decode`] undoes the filter chain of a stream, with [`zlib`] for the
//!   inflation.
//! - [`naming`] names the output files.
//! - [`image`] reads one stream: subtype, filters, payload, attributes.
//! - [`unpack`] goes from a resource to its file, from a page to its files,
//!   from a document to the outcome of every page, and from the results of
//!   the pages to the result of the run.
//! - [`command`] turns the arguments of a run into its command.
//! - [`laws`] holds what is proved of every extraction.
//! - [`pdf`] and [`path`] hold what is taken on trust of `lopdf` and of
//!   `std::path`; [`bytes`] and [`error`] serve all of the above.

pub mod bytes;
pub mod color;
pub mod command;
pub mod decode;
pub mod error;
pub mod image;
pub mod laws;
pub mod naming;
pub mod path;
pub mod pdf;
pub mod preprocess;
pub mod unpack;
pub mod zlib;
