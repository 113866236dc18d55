//! What holds of every extraction, stated over the functions that the
//! contracts of the library speak of, and proved.

use crate::bytes::bytes_of;
use crate::color::pixel_format;
use crate::decode::{chain_applied, decoded, filter_applied, filter_kind, DecodedView, FilterKind};
use crate::error::{DecodeFault, PDFConError};
use crate::image::{
    filter_chain, integer_attribute, kinds_of, name_attribute, stream_image, subtype, ImageView,
    Payload,
};
use crate::naming::{
    digit_count, extension, file_name, lemma_decimal_len, lemma_digit_count_monotonic, zero_padded,
};
use crate::pdf::{
    dictionary_entries, document_pages, lookup, object_shape, resolved_object, stream_content,
    stream_dictionary, Entry, ObjectId, Shape,
};
use crate::unpack::{
    lemma_no_failure, outcome_result, page_resources, referenced_stream, run_result_of,
    PageOutcomeView, Unpack,
};
use crate::zlib::zlib_inflated;
use lopdf::{Document, Object};
use vstd::prelude::*;

verus! {

/// A resource that leads to a stream which says of itself that it is
/// something other than an image.
pub open spec fn leads_to_no_image(document: Document, reference: Object) -> bool {
    match referenced_stream(document, reference) {
        Some(stream) => match subtype(dictionary_entries(stream_dictionary(stream))) {
            Ok(name) => name != bytes_of("Image"),
            Err(_) => false,
        },
        None => false,
    }
}

/// A page without an image: it leads to a dictionary, its resources can be
/// listed, and none of them leads to an image.
pub open spec fn page_without_images(document: Document, id: ObjectId) -> bool {
    match resolved_object(document, id) {
        Some(object) => match object_shape(object) {
            Shape::Dictionary(page) => match page_resources(dictionary_entries(page)) {
                Ok(references) => forall|i: int|
                    0 <= i < references.len() ==> leads_to_no_image(
                        document,
                        #[trigger] references[i],
                    ),
                Err(_) => false,
            },
            _ => false,
        },
        None => false,
    }
}

/// A page that gave no file and did not fail.
pub open spec fn nothing_found() -> PageOutcomeView {
    PageOutcomeView { files: Seq::empty(), error: None }
}

/// The results of the pages of a run over a document in which every file
/// could be written.
pub open spec fn page_results(
    unpack: Unpack,
    document: Document,
) -> Seq<(u32, Result<(), PDFConError>)> {
    let pages = document_pages(document);
    Seq::new(
        pages.len(),
        |i: int|
            (
                pages[i].0,
                outcome_result(unpack.page_outcome(document, pages[i], pages.len() as usize)),
            ),
    )
}

/// Resources of which none leads to an image give no file and no failure.
pub proof fn lemma_resources_without_images(
    unpack: Unpack,
    document: Document,
    page_num: u32,
    total_pages: usize,
    references: Seq<Object>,
)
    requires
        forall|i: int|
            0 <= i < references.len() ==> leads_to_no_image(document, #[trigger] references[i]),
    ensures
        unpack.resource_files(document, page_num, total_pages, references) == nothing_found(),
    decreases references.len(),
{
    if references.len() > 0 {
        let before = references.drop_last();
        assert forall|i: int| 0 <= i < before.len() implies leads_to_no_image(
            document,
            #[trigger] before[i],
        ) by {
            assert(before[i] == references[i]);
        }
        lemma_resources_without_images(unpack, document, page_num, total_pages, before);
    }
}

/// A document of any number of pages, none of which holds an image, gives
/// no file on any page, and the run over it succeeds.
pub proof fn lemma_document_without_images(unpack: Unpack, document: Document)
    requires
        forall|i: int|
            0 <= i < document_pages(document).len() ==> page_without_images(
                document,
                (#[trigger] document_pages(document)[i]).1,
            ),
    ensures
        forall|i: int|
            0 <= i < document_pages(document).len() ==> unpack.page_outcome(
                document,
                #[trigger] document_pages(document)[i],
                document_pages(document).len() as usize,
            ) == nothing_found(),
        run_result_of(page_results(unpack, document)) == Ok::<(), PDFConError>(()),
{
    let pages = document_pages(document);
    let total = pages.len() as usize;
    assert forall|i: int| 0 <= i < pages.len() implies unpack.page_outcome(
        document,
        #[trigger] pages[i],
        total,
    ) == nothing_found() by {
        let page = object_shape(resolved_object(document, pages[i].1)->Some_0)->Dictionary_0;
        let references = page_resources(dictionary_entries(page))->Ok_0;
        lemma_resources_without_images(unpack, document, pages[i].0, total, references);
    }
    let results = page_results(unpack, document);
    assert forall|i: int| 0 <= i < results.len() implies (#[trigger] results[i]).1 is Ok by {
        assert(unpack.page_outcome(document, pages[i], total) == nothing_found());
    }
    lemma_no_failure(results);
}

/// Where a filter chain can be undone, the payload is a JPEG file exactly
/// if it was one before or the chain names a `Dct` filter, and the bytes are
/// untouched if the chain names no `Flate` filter.
pub proof fn lemma_chain_outcome(filters: Seq<FilterKind>, state: DecodedView)
    requires
        chain_applied(filters, state) is Ok,
    ensures
        chain_applied(filters, state)->Ok_0.is_jpeg == (state.is_jpeg || filters.contains(
            FilterKind::Dct,
        )),
        !filters.contains(FilterKind::Flate) ==> chain_applied(filters, state)->Ok_0.content
            == state.content,
    decreases filters.len(),
{
    if filters.len() > 0 {
        let rest = filters.drop_last();
        let next = filter_applied(filters.last(), state, zlib_inflated(state.content))->Ok_0;
        lemma_chain_outcome(rest, next);
        assert(filters.contains(FilterKind::Dct) <==> filters.last() == FilterKind::Dct
            || rest.contains(FilterKind::Dct)) by {
            lemma_contains_last_or_rest(filters, FilterKind::Dct);
        }
        assert(filters.contains(FilterKind::Flate) <==> filters.last() == FilterKind::Flate
            || rest.contains(FilterKind::Flate)) by {
            lemma_contains_last_or_rest(filters, FilterKind::Flate);
        }
    }
}

/// A filter is in a chain exactly if it is the last of it or in the rest.
proof fn lemma_contains_last_or_rest(filters: Seq<FilterKind>, kind: FilterKind)
    requires
        filters.len() > 0,
    ensures
        filters.contains(kind) <==> filters.last() == kind || filters.drop_last().contains(kind),
{
    let rest = filters.drop_last();
    if filters.contains(kind) {
        let at = choose|i: int| 0 <= i < filters.len() && filters[i] == kind;
        if at < filters.len() - 1 {
            assert(rest[at] == kind);
        }
    }
    if rest.contains(kind) {
        let at = choose|i: int| 0 <= i < rest.len() && rest[i] == kind;
        assert(filters[at] == kind);
    }
}

/// The output decision: an image is written as a JPEG file exactly if its
/// filter chain names a `Dct` filter, and as PNG in every other case, the
/// case of no filter included.
pub proof fn lemma_output_decision(
    entries: Seq<Entry>,
    content: Seq<u8>,
    page_num: u32,
    total_pages: usize,
)
    requires
        stream_image(entries, content, page_num, total_pages) matches Ok(Some(_)),
    ensures
        ({
            let image = stream_image(entries, content, page_num, total_pages)->Ok_0->Some_0;
            let filters = filter_chain(lookup(entries, bytes_of("Filter")))->Ok_0;
            let jpeg = filters.contains(FilterKind::Dct);
            &&& image.payload is Jpeg <==> jpeg
            &&& image.file_name == file_name(page_num, total_pages, jpeg)
        }),
{
    let filters = filter_chain(lookup(entries, bytes_of("Filter")))->Ok_0;
    lemma_chain_outcome(filters, DecodedView { is_jpeg: false, content });
}

/// An image stream whose filter chain is one `Dct` filter is written as a
/// JPEG file that holds the stored payload, byte for byte.
pub proof fn lemma_dct_passes_through(
    entries: Seq<Entry>,
    content: Seq<u8>,
    page_num: u32,
    total_pages: usize,
)
    requires
        subtype(entries) == Ok::<Seq<u8>, PDFConError>(bytes_of("Image")),
        filter_chain(lookup(entries, bytes_of("Filter"))) == Ok::<Seq<FilterKind>, PDFConError>(
            seq![FilterKind::Dct],
        ),
    ensures
        stream_image(entries, content, page_num, total_pages) == Ok::<
            Option<ImageView>,
            PDFConError,
        >(
            Some(
                ImageView {
                    file_name: file_name(page_num, total_pages, true),
                    content,
                    payload: Payload::Jpeg,
                },
            ),
        ),
{
    let filters = seq![FilterKind::Dct];
    assert(decoded(filters, content) == Ok::<DecodedView, PDFConError>(
        DecodedView { is_jpeg: true, content },
    )) by {
        reveal_with_fuel(chain_applied, 2);
    }
}

/// An image stream whose filter chain is one `Flate` filter, where it gives
/// an image, gives the inflated payload as pixels of exactly the declared
/// width and height, under a name that ends in `.png`.
pub proof fn lemma_flate_keeps_declared_size(
    entries: Seq<Entry>,
    content: Seq<u8>,
    page_num: u32,
    total_pages: usize,
)
    requires
        subtype(entries) == Ok::<Seq<u8>, PDFConError>(bytes_of("Image")),
        filter_chain(lookup(entries, bytes_of("Filter"))) == Ok::<Seq<FilterKind>, PDFConError>(
            seq![FilterKind::Flate],
        ),
        stream_image(entries, content, page_num, total_pages) is Ok,
    ensures
        stream_image(entries, content, page_num, total_pages) matches Ok(Some(image)) && {
            &&& zlib_inflated(content) == Some(image.content)
            &&& image.file_name == file_name(page_num, total_pages, false)
            &&& image.payload matches Payload::Pixels { width, height, format }
            &&& integer_attribute(entries, bytes_of("Width")) == Some(width as i64)
            &&& integer_attribute(entries, bytes_of("Height")) == Some(height as i64)
            &&& integer_attribute(entries, bytes_of("BitsPerComponent")) == Some(format.bits as i64)
            &&& pixel_format(name_attribute(entries, bytes_of("ColorSpace"))->0, format.bits)
                == Some(format)
        },
{
    let filters = seq![FilterKind::Flate];
    assert(decoded(filters, content) == match zlib_inflated(content) {
        Some(bytes) => Ok::<DecodedView, PDFConError>(DecodedView { is_jpeg: false, content: bytes }),
        None => Err(PDFConError::DecodeError(DecodeFault::Inflate)),
    }) by {
        reveal_with_fuel(chain_applied, 2);
    }
}

/// A filter given as one name, as one string, or as an array of that one
/// name is the same filter chain.
pub proof fn lemma_filter_shapes_agree(
    by_name: Object,
    by_text: Object,
    by_array: Object,
    filter: Seq<u8>,
)
    requires
        object_shape(by_name) == Shape::Name(filter),
        object_shape(by_text) == Shape::Text(filter),
        object_shape(by_array) matches Shape::Array(items) && items.len() == 1 && object_shape(
            items[0],
        ) == Shape::Name(filter),
    ensures
        filter_chain(Some(by_name)) == Ok::<Seq<FilterKind>, PDFConError>(
            seq![filter_kind(filter)],
        ),
        filter_chain(Some(by_text)) == filter_chain(Some(by_name)),
        filter_chain(Some(by_array)) == filter_chain(Some(by_name)),
{
    let items = object_shape(by_array)->Array_0;
    assert(kinds_of(items) =~= seq![filter_kind(filter)]);
}

/// Two streams that differ in nothing that is read of them but the shape in
/// which the filter is written give the same image or the same failure.
pub proof fn lemma_filter_shape_changes_nothing(
    one: Seq<Entry>,
    other: Seq<Entry>,
    content: Seq<u8>,
    page_num: u32,
    total_pages: usize,
)
    requires
        filter_chain(lookup(one, bytes_of("Filter"))) == filter_chain(
            lookup(other, bytes_of("Filter")),
        ),
        lookup(one, bytes_of("Subtype")) == lookup(other, bytes_of("Subtype")),
        lookup(one, bytes_of("Width")) == lookup(other, bytes_of("Width")),
        lookup(one, bytes_of("Height")) == lookup(other, bytes_of("Height")),
        lookup(one, bytes_of("BitsPerComponent")) == lookup(other, bytes_of("BitsPerComponent")),
        lookup(one, bytes_of("ColorSpace")) == lookup(other, bytes_of("ColorSpace")),
    ensures
        stream_image(one, content, page_num, total_pages) == stream_image(
            other,
            content,
            page_num,
            total_pages,
        ),
{
}

/// A filter chain that names an unsupported filter never decodes: whatever
/// the payload and whatever the other filters, the outcome is a failure.
pub proof fn lemma_unsupported_filter_fails(filters: Seq<FilterKind>, state: DecodedView)
    requires
        filters.contains(FilterKind::Unsupported),
    ensures
        chain_applied(filters, state) is Err,
    decreases filters.len(),
{
    if filters.last() != FilterKind::Unsupported {
        let rest = filters.drop_last();
        let at = choose|i: int| 0 <= i < filters.len() && filters[i] == FilterKind::Unsupported;
        assert(rest[at] == FilterKind::Unsupported);
        match filter_applied(filters.last(), state, zlib_inflated(state.content)) {
            Ok(next) => {
                lemma_unsupported_filter_fails(rest, next);
            },
            Err(_) => {},
        }
    }
}

/// An image stream that names an unsupported filter gives a failure, never
/// an image.
pub proof fn lemma_unsupported_filter_fails_stream(
    entries: Seq<Entry>,
    content: Seq<u8>,
    page_num: u32,
    total_pages: usize,
)
    requires
        subtype(entries) == Ok::<Seq<u8>, PDFConError>(bytes_of("Image")),
        filter_chain(lookup(entries, bytes_of("Filter"))) matches Ok(filters) && filters.contains(
            FilterKind::Unsupported,
        ),
    ensures
        stream_image(entries, content, page_num, total_pages) is Err,
{
    let filters = filter_chain(lookup(entries, bytes_of("Filter")))->Ok_0;
    lemma_unsupported_filter_fails(filters, DecodedView { is_jpeg: false, content });
}

/// A resource that fails makes its page fail: the page reports a failure,
/// and so does every run that the page is part of.
pub proof fn lemma_failed_resource_fails_page(
    unpack: Unpack,
    document: Document,
    page_num: u32,
    total_pages: usize,
    references: Seq<Object>,
    at: int,
)
    requires
        0 <= at < references.len(),
        unpack.xobject_file(document, page_num, total_pages, references[at]) is Err,
    ensures
        unpack.resource_files(document, page_num, total_pages, references).error is Some,
    decreases references.len(),
{
    if at < references.len() - 1 {
        lemma_failed_resource_fails_page(
            unpack,
            document,
            page_num,
            total_pages,
            references.drop_last(),
            at,
        );
    }
}

/// An image resource of a page whose stream names an unsupported filter
/// makes the page fail.
pub proof fn lemma_unsupported_filter_fails_page(
    unpack: Unpack,
    document: Document,
    page_num: u32,
    total_pages: usize,
    references: Seq<Object>,
    at: int,
)
    requires
        0 <= at < references.len(),
        referenced_stream(document, references[at]) matches Some(stream) && {
            let entries = dictionary_entries(stream_dictionary(stream));
            &&& subtype(entries) == Ok::<Seq<u8>, PDFConError>(bytes_of("Image"))
            &&& filter_chain(lookup(entries, bytes_of("Filter"))) matches Ok(filters)
            &&& filters.contains(FilterKind::Unsupported)
        },
    ensures
        unpack.resource_files(document, page_num, total_pages, references).error is Some,
{
    let stream = referenced_stream(document, references[at])->Some_0;
    lemma_unsupported_filter_fails_stream(
        dictionary_entries(stream_dictionary(stream)),
        stream_content(stream),
        page_num,
        total_pages,
    );
    lemma_failed_resource_fails_page(unpack, document, page_num, total_pages, references, at);
}

/// The number in a file name is as wide as the page count of the run: for
/// every page of the run, it has exactly as many digits as the page count.
pub proof fn lemma_file_name_width(page_num: u32, total_pages: usize, jpeg: bool)
    requires
        page_num <= total_pages,
    ensures
        zero_padded(page_num as nat, digit_count(total_pages as nat)).len() == digit_count(
            total_pages as nat,
        ),
        file_name(page_num, total_pages, jpeg).len() == digit_count(total_pages as nat)
            + extension(jpeg).len(),
{
    lemma_digit_count_monotonic(page_num as nat, total_pages as nat);
    lemma_decimal_len(page_num as nat);
}

} // verus!
