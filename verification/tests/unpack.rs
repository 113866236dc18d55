use lopdf::{Dictionary, Document, Object, ObjectId, Stream};
use miniz_oxide::deflate::compress_to_vec_zlib;
use pdfcon::color::{ChannelLayout, PixelFormat};
use pdfcon::error::{DecodeFault, PDFConError, ResolutionFault};
use pdfcon::image::{Image, Payload};
use pdfcon::unpack::{collect_failures, run_result, ImageFile, PageOutcome, Unpack};
use std::path::PathBuf;

fn name(text: &str) -> Object {
    Object::Name(text.as_bytes().to_vec())
}

fn unpack() -> Unpack {
    Unpack {
        threads: 1,
        out_directory: PathBuf::from("out"),
        in_file: PathBuf::from("book.pdf"),
        optimize: true,
    }
}

fn gray() -> Vec<u8> {
    vec![0, 64, 128, 255]
}

fn gray_format() -> PixelFormat {
    PixelFormat { channels: 1, bits: 8, layout: ChannelLayout::Gray }
}

/// A two by two gray image, deflated.
fn flate_image() -> Stream {
    let mut dictionary = Dictionary::new();
    dictionary.set("Type", name("XObject"));
    dictionary.set("Subtype", name("Image"));
    dictionary.set("Width", 2);
    dictionary.set("Height", 2);
    dictionary.set("BitsPerComponent", 8);
    dictionary.set("ColorSpace", name("DeviceGray"));
    dictionary.set("Filter", name("FlateDecode"));
    Stream::new(dictionary, compress_to_vec_zlib(&gray(), 6))
}

fn jpeg() -> Vec<u8> {
    vec![0xff, 0xd8, 0xff, 0xdb, 1, 2, 3, 4, 0xff, 0xd9]
}

fn jpeg_image() -> Stream {
    let mut dictionary = Dictionary::new();
    dictionary.set("Type", name("XObject"));
    dictionary.set("Subtype", name("Image"));
    dictionary.set("Filter", name("DCTDecode"));
    Stream::new(dictionary, jpeg())
}

fn form() -> Stream {
    let mut dictionary = Dictionary::new();
    dictionary.set("Type", name("XObject"));
    dictionary.set("Subtype", name("Form"));
    Stream::new(dictionary, b"q Q".to_vec())
}

fn broken_image() -> Stream {
    let mut stream = flate_image();
    stream.dict.set("Filter", name("JBIG2Decode"));
    stream
}

/// A page whose resources name the given objects, in their order.
fn page_with(xobjects: &[(&str, ObjectId)]) -> Dictionary {
    let mut names = Dictionary::new();
    for (key, id) in xobjects {
        names.set(*key, Object::Reference(*id));
    }
    let mut resources = Dictionary::new();
    resources.set("XObject", Object::Dictionary(names));
    let mut page = Dictionary::new();
    page.set("Type", name("Page"));
    page.set("Resources", Object::Dictionary(resources));
    page
}

fn bare_page() -> Dictionary {
    let mut page = Dictionary::new();
    page.set("Type", name("Page"));
    page
}

/// Hangs the pages into a page tree and a catalog, and returns their
/// identifiers.
fn bind(document: &mut Document, pages: Vec<Dictionary>) -> Vec<ObjectId> {
    let tree_id = document.new_object_id();
    let mut ids = Vec::new();
    for mut page in pages {
        page.set("Parent", Object::Reference(tree_id));
        ids.push(document.add_object(page));
    }
    let mut tree = Dictionary::new();
    tree.set("Type", name("Pages"));
    tree.set("Count", ids.len() as i64);
    tree.set("Kids", Object::Array(ids.iter().map(|id| Object::Reference(*id)).collect()));
    document.objects.insert(tree_id, Object::Dictionary(tree));
    let mut catalog = Dictionary::new();
    catalog.set("Type", name("Catalog"));
    catalog.set("Pages", Object::Reference(tree_id));
    let catalog_id = document.add_object(catalog);
    document.trailer.set("Root", Object::Reference(catalog_id));
    ids
}

fn png_file(file_name: &str) -> ImageFile {
    ImageFile {
        path: PathBuf::from("out").join(file_name),
        optimize: true,
        image: Image {
            file_name: String::from(file_name),
            content: gray(),
            payload: Payload::Pixels { width: 2, height: 2, format: gray_format() },
        },
    }
}

fn jpeg_file(file_name: &str) -> ImageFile {
    ImageFile {
        path: PathBuf::from("out").join(file_name),
        optimize: true,
        image: Image { file_name: String::from(file_name), content: jpeg(), payload: Payload::Jpeg },
    }
}

fn stream_fault<T>() -> Result<T, PDFConError> {
    Err(PDFConError::ResolutionError(ResolutionFault::Stream))
}

fn wrong_type() -> Option<PDFConError> {
    Some(PDFConError::ResolutionError(ResolutionFault::WrongType))
}

#[test]
fn an_image_resource_gives_the_file_of_its_image() {
    let mut document = Document::with_version("1.5");
    let id = document.add_object(flate_image());
    let found = unpack().process_xobject(&document, 1, 150, &Object::Reference(id));
    assert_eq!(found, Ok(Some(png_file("001.png"))));
}

#[test]
fn a_jpeg_resource_gives_the_stored_bytes() {
    let mut document = Document::with_version("1.5");
    let id = document.add_object(jpeg_image());
    let found = unpack().process_xobject(&document, 9, 9, &Object::Reference(id));
    assert_eq!(found, Ok(Some(jpeg_file("9.jpg"))));
    assert_eq!(found.unwrap().unwrap().image.content, jpeg());
}

#[test]
fn the_file_carries_the_directory_and_the_flag_of_the_run() {
    let mut document = Document::with_version("1.5");
    let id = document.add_object(jpeg_image());
    let settings = Unpack {
        threads: 3,
        out_directory: PathBuf::from("some/where"),
        in_file: PathBuf::from("in.pdf"),
        optimize: false,
    };
    let file = settings.process_xobject(&document, 4, 20, &Object::Reference(id)).unwrap().unwrap();
    assert_eq!(file.path, PathBuf::from("some/where/04.jpg"));
    assert!(!file.optimize);
}

#[test]
fn a_resource_that_is_no_image_gives_nothing() {
    let mut document = Document::with_version("1.5");
    let id = document.add_object(form());
    assert_eq!(unpack().process_xobject(&document, 1, 1, &Object::Reference(id)), Ok(None));
}

#[test]
fn a_resource_that_is_no_reference_fails() {
    let document = Document::with_version("1.5");
    assert_eq!(unpack().process_xobject(&document, 1, 1, &Object::Integer(3)), stream_fault());
    assert_eq!(
        unpack().process_xobject(&document, 1, 1, &Object::Stream(flate_image())),
        stream_fault()
    );
}

#[test]
fn a_dangling_reference_fails() {
    let document = Document::with_version("1.5");
    assert_eq!(unpack().process_xobject(&document, 1, 1, &Object::Reference((77, 0))), stream_fault());
}

#[test]
fn a_reference_to_what_is_no_stream_fails() {
    let mut document = Document::with_version("1.5");
    let id = document.add_object(Dictionary::new());
    assert_eq!(unpack().process_xobject(&document, 1, 1, &Object::Reference(id)), stream_fault());
    let id = document.add_object(Object::Integer(5));
    assert_eq!(unpack().process_xobject(&document, 1, 1, &Object::Reference(id)), stream_fault());
}

#[test]
fn a_reference_to_a_reference_is_followed() {
    let mut document = Document::with_version("1.5");
    let image = document.add_object(jpeg_image());
    let first = document.add_object(Object::Reference(image));
    let second = document.add_object(Object::Reference(first));
    let found = unpack().process_xobject(&document, 2, 10, &Object::Reference(second));
    assert_eq!(found, Ok(Some(jpeg_file("02.jpg"))));
}

#[test]
fn references_that_lead_in_a_circle_fail() {
    let mut document = Document::with_version("1.5");
    let first = document.new_object_id();
    let second = document.add_object(Object::Reference(first));
    document.objects.insert(first, Object::Reference(second));
    assert_eq!(unpack().process_xobject(&document, 1, 1, &Object::Reference(first)), stream_fault());
    let outcome = unpack().extract_page(&document, (1, second), 1);
    assert_eq!(outcome.error, Some(PDFConError::ResolutionError(ResolutionFault::Page)));
}

#[test]
fn the_filter_is_reachable_beside_the_extraction() {
    let mut object = Object::Integer(1);
    assert_eq!(pdfcon::unpack::filter_func((1, 0), &mut object), Some(((1, 0), Object::Integer(1))));
}

#[test]
fn a_page_without_resources_has_no_images() {
    let document = Document::with_version("1.5");
    let outcome = unpack().find_xobject_images_in_page(&document, 1, &bare_page(), 1);
    assert_eq!(outcome, PageOutcome { files: vec![], error: None });
    assert_eq!(outcome.result(), Ok(()));
}

#[test]
fn resources_without_xobjects_have_no_images() {
    let document = Document::with_version("1.5");
    let mut page = bare_page();
    let mut resources = Dictionary::new();
    resources.set("Font", Object::Dictionary(Dictionary::new()));
    page.set("Resources", Object::Dictionary(resources));
    let outcome = unpack().find_xobject_images_in_page(&document, 1, &page, 1);
    assert_eq!(outcome, PageOutcome { files: vec![], error: None });
}

#[test]
fn an_empty_xobject_dictionary_has_no_images() {
    let document = Document::with_version("1.5");
    let outcome = unpack().find_xobject_images_in_page(&document, 1, &page_with(&[]), 1);
    assert_eq!(outcome, PageOutcome { files: vec![], error: None });
}

#[test]
fn resources_that_are_no_dictionary_fail_the_page() {
    let document = Document::with_version("1.5");
    for resources in [Object::Integer(1), Object::Null, Object::Array(vec![]), Object::Reference((5, 0))] {
        let mut page = bare_page();
        page.set("Resources", resources);
        let outcome = unpack().find_xobject_images_in_page(&document, 1, &page, 1);
        assert_eq!(outcome, PageOutcome { files: vec![], error: wrong_type() });
        assert_eq!(outcome.result(), Err(PDFConError::ResolutionError(ResolutionFault::WrongType)));
    }
}

#[test]
fn xobjects_that_are_no_dictionary_fail_the_page() {
    let document = Document::with_version("1.5");
    for xobjects in [Object::Integer(1), name("Im1"), Object::Reference((5, 0))] {
        let mut resources = Dictionary::new();
        resources.set("XObject", xobjects);
        let mut page = bare_page();
        page.set("Resources", Object::Dictionary(resources));
        let outcome = unpack().find_xobject_images_in_page(&document, 1, &page, 1);
        assert_eq!(outcome, PageOutcome { files: vec![], error: wrong_type() });
    }
}

#[test]
fn the_images_of_a_page_come_in_the_order_of_its_resources() {
    let mut document = Document::with_version("1.5");
    let first = document.add_object(jpeg_image());
    let second = document.add_object(form());
    let third = document.add_object(flate_image());
    let page = page_with(&[("Im1", first), ("Fm1", second), ("Im2", third)]);
    let outcome = unpack().find_xobject_images_in_page(&document, 3, &page, 40);
    assert_eq!(outcome, PageOutcome { files: vec![jpeg_file("03.jpg"), png_file("03.png")], error: None });
    let page = page_with(&[("Im2", third), ("Im1", first)]);
    let outcome = unpack().find_xobject_images_in_page(&document, 3, &page, 40);
    assert_eq!(outcome, PageOutcome { files: vec![png_file("03.png"), jpeg_file("03.jpg")], error: None });
}

#[test]
fn two_images_of_one_kind_on_a_page_share_a_file() {
    // Both are planned for the same path: whoever writes them in this order
    // keeps the last.
    let mut document = Document::with_version("1.5");
    let first = document.add_object(flate_image());
    let mut other = flate_image();
    other.set_content(compress_to_vec_zlib(&[9, 9, 9, 9], 6));
    let second = document.add_object(other);
    let page = page_with(&[("Im1", first), ("Im2", second)]);
    let outcome = unpack().find_xobject_images_in_page(&document, 1, &page, 1);
    assert_eq!(outcome.error, None);
    assert_eq!(outcome.files.len(), 2);
    assert_eq!(outcome.files[0].path, outcome.files[1].path);
    assert_eq!(outcome.files[0].image.content, gray());
    assert_eq!(outcome.files[1].image.content, vec![9, 9, 9, 9]);
}

#[test]
fn the_first_failure_ends_the_page() {
    let mut document = Document::with_version("1.5");
    let good = document.add_object(jpeg_image());
    let bad = document.add_object(broken_image());
    let late = document.add_object(flate_image());
    let page = page_with(&[("Im1", good), ("Im2", bad), ("Im3", late)]);
    let outcome = unpack().find_xobject_images_in_page(&document, 2, &page, 5);
    assert_eq!(
        outcome,
        PageOutcome {
            files: vec![jpeg_file("2.jpg")],
            error: Some(PDFConError::DecodeError(DecodeFault::UnsupportedFilter)),
        }
    );
    let page = page_with(&[("Im2", bad), ("Im1", good)]);
    let outcome = unpack().find_xobject_images_in_page(&document, 2, &page, 5);
    assert_eq!(
        outcome,
        PageOutcome {
            files: vec![],
            error: Some(PDFConError::DecodeError(DecodeFault::UnsupportedFilter)),
        }
    );
}

#[test]
fn a_resource_that_leads_nowhere_fails_the_page() {
    let document = Document::with_version("1.5");
    let page = page_with(&[("Im1", (40, 0))]);
    let outcome = unpack().find_xobject_images_in_page(&document, 1, &page, 1);
    assert_eq!(
        outcome,
        PageOutcome { files: vec![], error: Some(PDFConError::ResolutionError(ResolutionFault::Stream)) }
    );
}

#[test]
fn a_page_that_leads_nowhere_fails() {
    let document = Document::with_version("1.5");
    let outcome = unpack().extract_page(&document, (1, (12, 0)), 1);
    assert_eq!(
        outcome,
        PageOutcome { files: vec![], error: Some(PDFConError::ResolutionError(ResolutionFault::Page)) }
    );
}

#[test]
fn a_page_that_is_no_dictionary_fails() {
    let mut document = Document::with_version("1.5");
    let id = document.add_object(Object::Array(vec![]));
    let outcome = unpack().extract_page(&document, (1, id), 1);
    assert_eq!(
        outcome,
        PageOutcome { files: vec![], error: Some(PDFConError::ResolutionError(ResolutionFault::Page)) }
    );
    let id = document.add_object(form());
    let outcome = unpack().extract_page(&document, (1, id), 1);
    assert_eq!(outcome.error, Some(PDFConError::ResolutionError(ResolutionFault::Page)));
}

#[test]
fn a_page_is_looked_at_through_its_identifier() {
    let mut document = Document::with_version("1.5");
    let image = document.add_object(flate_image());
    let page = document.add_object(page_with(&[("Im1", image)]));
    let outcome = unpack().extract_page(&document, (6, page), 10);
    assert_eq!(outcome, PageOutcome { files: vec![png_file("06.png")], error: None });
}

#[test]
fn a_document_without_images_gives_no_file_and_succeeds() {
    for count in [0usize, 1, 5, 12] {
        let mut document = Document::with_version("1.5");
        let form_id = document.add_object(form());
        let mut pages = Vec::new();
        for i in 0..count {
            pages.push(match i % 3 {
                0 => bare_page(),
                1 => page_with(&[]),
                _ => page_with(&[("Fm1", form_id)]),
            });
        }
        bind(&mut document, pages);
        let outcomes = unpack().extract_images(&document);
        assert_eq!(outcomes.len(), count);
        let mut results = Vec::new();
        for (i, outcome) in outcomes.iter().enumerate() {
            assert_eq!(outcome, &PageOutcome { files: vec![], error: None });
            results.push((i as u32 + 1, outcome.result()));
        }
        assert_eq!(run_result(&results), Ok(()));
    }
}

#[test]
fn a_failing_page_leaves_the_other_pages_alone() {
    let mut document = Document::with_version("1.5");
    let image = document.add_object(flate_image());
    let mut pages = Vec::new();
    for number in 1..=12 {
        if number == 3 {
            let mut page = bare_page();
            page.set("Resources", Object::Array(vec![]));
            pages.push(page);
        } else {
            pages.push(page_with(&[("Im1", image)]));
        }
    }
    bind(&mut document, pages);
    let outcomes = unpack().extract_images(&document);
    assert_eq!(outcomes.len(), 12);
    let mut results = Vec::new();
    for (i, outcome) in outcomes.iter().enumerate() {
        let number = i as u32 + 1;
        if number == 3 {
            assert_eq!(outcome, &PageOutcome { files: vec![], error: wrong_type() });
        } else {
            let file_name = format!("{:02}.png", number);
            assert_eq!(outcome, &PageOutcome { files: vec![png_file(&file_name)], error: None });
        }
        results.push((number, outcome.result()));
    }
    assert_eq!(outcomes[0].files[0].path, PathBuf::from("out/01.png"));
    assert_eq!(outcomes[11].files[0].path, PathBuf::from("out/12.png"));
    assert_eq!(run_result(&results), Err(PDFConError::UnpackError));
    assert_eq!(
        collect_failures(&results),
        vec![(3, PDFConError::ResolutionError(ResolutionFault::WrongType))]
    );
}

#[test]
fn the_pages_of_a_long_document_pad_to_three_digits() {
    let mut document = Document::with_version("1.5");
    let image = document.add_object(jpeg_image());
    let pages = (0..150).map(|_| page_with(&[("Im1", image)])).collect();
    bind(&mut document, pages);
    let outcomes = unpack().extract_images(&document);
    assert_eq!(outcomes.len(), 150);
    assert_eq!(outcomes[0].files, vec![jpeg_file("001.jpg")]);
    assert_eq!(outcomes[41].files, vec![jpeg_file("042.jpg")]);
    assert_eq!(outcomes[149].files, vec![jpeg_file("150.jpg")]);
}

#[test]
fn the_pages_of_a_short_document_pad_to_one_digit() {
    let mut document = Document::with_version("1.5");
    let image = document.add_object(flate_image());
    let pages = (0..9).map(|_| page_with(&[("Im1", image)])).collect();
    bind(&mut document, pages);
    let outcomes = unpack().extract_images(&document);
    assert_eq!(outcomes.len(), 9);
    assert_eq!(outcomes[0].files, vec![png_file("1.png")]);
    assert_eq!(outcomes[8].files, vec![png_file("9.png")]);
}

#[test]
fn a_document_without_a_catalog_has_no_pages() {
    let document = Document::with_version("1.5");
    assert_eq!(unpack().extract_images(&document), vec![]);
}

#[test]
fn a_run_without_failures_succeeds() {
    assert_eq!(run_result(&vec![]), Ok(()));
    assert_eq!(run_result(&vec![(1, Ok(())), (2, Ok(())), (3, Ok(()))]), Ok(()));
    assert_eq!(collect_failures(&vec![(1, Ok(())), (2, Ok(()))]), vec![]);
}

#[test]
fn a_run_with_a_failure_reports_the_one_error_for_all() {
    let results = vec![
        (1, Ok(())),
        (2, Err(PDFConError::CodecError)),
        (3, Ok(())),
        (4, Err(PDFConError::DecodeError(DecodeFault::Inflate))),
    ];
    assert_eq!(run_result(&results), Err(PDFConError::UnpackError));
    assert_eq!(
        collect_failures(&results),
        vec![(2, PDFConError::CodecError), (4, PDFConError::DecodeError(DecodeFault::Inflate))]
    );
    assert_eq!(run_result(&vec![(1, Err(PDFConError::UnpackError))]), Err(PDFConError::UnpackError));
}

#[test]
fn a_page_reports_its_failure() {
    let outcome = PageOutcome { files: vec![jpeg_file("1.jpg")], error: Some(PDFConError::CodecError) };
    assert_eq!(outcome.result(), Err(PDFConError::CodecError));
    let outcome = PageOutcome { files: vec![jpeg_file("1.jpg")], error: None };
    assert_eq!(outcome.result(), Ok(()));
}
