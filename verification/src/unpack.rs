//! The extraction itself: from an image resource to the file that holds it,
//! from a page to its files, and from a document to the outcome of every
//! page.

use crate::bytes::bytes_of;
use crate::error::{PDFConError, ResolutionFault};
use crate::image::{image_of_stream, stream_image, Image, ImageView};
use crate::path::{join_path, joined_path};
use crate::pdf::{
    dictionary_entries, dictionary_values, document_pages, lookup, object_shape, page_list,
    resolved_object, stream_content, stream_dictionary, Entry, ObjectId, Shape,
};
pub use crate::preprocess::filter_func;
use lopdf::{Dictionary, Document, Object, Stream};
use std::path::PathBuf;
use vstd::prelude::*;

verus! {

/// What to extract, where to, and how.
#[derive(Clone, Debug, PartialEq, Eq)]
pub struct Unpack {
    /// The number of worker threads.
    pub threads: usize,
    /// The directory that receives the images.
    pub out_directory: PathBuf,
    /// The document to read.
    pub in_file: PathBuf,
    /// Whether the encoder should spend time on smaller files.
    pub optimize: bool,
}

/// An image together with where and how it is to be written.
#[derive(Clone, Debug, PartialEq, Eq)]
pub struct ImageFile {
    /// The path of the output file.
    pub path: PathBuf,
    /// Whether the encoder should spend time on a smaller file.
    pub optimize: bool,
    /// The image.
    pub image: Image,
}

/// An image file in contracts.
pub struct ImageFileView {
    pub path: PathBuf,
    pub optimize: bool,
    pub image: ImageView,
}

impl View for ImageFile {
    type V = ImageFileView;

    open spec fn view(&self) -> ImageFileView {
        ImageFileView { path: self.path, optimize: self.optimize, image: self.image@ }
    }
}

/// What became of a page: the files of the images found before the first
/// failure, in the order of the page's resources, and that failure, if
/// there was one.
#[derive(Clone, Debug, PartialEq, Eq)]
pub struct PageOutcome {
    pub files: Vec<ImageFile>,
    pub error: Option<PDFConError>,
}

/// The outcome of a page in contracts.
#[verifier::ext_equal]
pub struct PageOutcomeView {
    pub files: Seq<ImageFileView>,
    pub error: Option<PDFConError>,
}

impl View for PageOutcome {
    type V = PageOutcomeView;

    open spec fn view(&self) -> PageOutcomeView {
        PageOutcomeView {
            files: Seq::new(self.files@.len(), |i: int| self.files@[i]@),
            error: self.error,
        }
    }
}

/// A page that failed before any of its resources was looked at.
pub open spec fn failed_page(e: PDFConError) -> PageOutcomeView {
    PageOutcomeView { files: Seq::empty(), error: Some(e) }
}

/// The stream that an image resource leads to: the resource must be a
/// reference, and the document must resolve it to a stream.
pub open spec fn referenced_stream(document: Document, reference: Object) -> Option<Stream> {
    match object_shape(reference) {
        Shape::Reference(id) => match resolved_object(document, id) {
            Some(object) => match object_shape(object) {
                Shape::Stream(stream) => Some(stream),
                _ => None,
            },
            None => None,
        },
        _ => None,
    }
}

/// The image resources of a page, in the order of its `XObject` dictionary.
/// A page without `Resources`, or whose resources have no `XObject`, has
/// none; either key with a value that is no dictionary is an error.
pub open spec fn page_resources(page: Seq<Entry>) -> Result<Seq<Object>, PDFConError> {
    match lookup(page, bytes_of("Resources")) {
        None => Ok(Seq::empty()),
        Some(resources) => match object_shape(resources) {
            Shape::Dictionary(resources) => match lookup(
                dictionary_entries(resources),
                bytes_of("XObject"),
            ) {
                None => Ok(Seq::empty()),
                Some(xobjects) => match object_shape(xobjects) {
                    Shape::Dictionary(xobjects) => Ok(
                        Seq::new(
                            dictionary_entries(xobjects).len(),
                            |i: int| dictionary_entries(xobjects)[i].1,
                        ),
                    ),
                    _ => Err(PDFConError::ResolutionError(ResolutionFault::WrongType)),
                },
            },
            _ => Err(PDFConError::ResolutionError(ResolutionFault::WrongType)),
        },
    }
}

impl Unpack {
    /// The file that receives an image.
    pub open spec fn file_of(&self, image: ImageView) -> ImageFileView {
        ImageFileView {
            path: joined_path(self.out_directory, image.file_name),
            optimize: self.optimize,
            image,
        }
    }

    /// What an image resource of a page gives: the file of the image that
    /// its stream holds, nothing where the stream is no image, or the
    /// failure.
    pub open spec fn xobject_file(
        &self,
        document: Document,
        page_num: u32,
        total_pages: usize,
        reference: Object,
    ) -> Result<Option<ImageFileView>, PDFConError> {
        match referenced_stream(document, reference) {
            None => Err(PDFConError::ResolutionError(ResolutionFault::Stream)),
            Some(stream) => match stream_image(
                dictionary_entries(stream_dictionary(stream)),
                stream_content(stream),
                page_num,
                total_pages,
            ) {
                Ok(Some(image)) => Ok(Some(self.file_of(image))),
                Ok(None) => Ok(None),
                Err(e) => Err(e),
            },
        }
    }

    /// What a list of image resources gives: the files of the images, up to
    /// the first failure.
    pub open spec fn resource_files(
        &self,
        document: Document,
        page_num: u32,
        total_pages: usize,
        references: Seq<Object>,
    ) -> PageOutcomeView
        decreases references.len(),
    {
        if references.len() == 0 {
            PageOutcomeView { files: Seq::empty(), error: None }
        } else {
            let before = self.resource_files(document, page_num, total_pages, references.drop_last());
            if before.error is Some {
                before
            } else {
                match self.xobject_file(document, page_num, total_pages, references.last()) {
                    Ok(Some(file)) => PageOutcomeView { files: before.files.push(file), error: None },
                    Ok(None) => before,
                    Err(e) => PageOutcomeView { files: before.files, error: Some(e) },
                }
            }
        }
    }

    /// What a page gives, from the entries of its dictionary.
    pub open spec fn page_files(
        &self,
        document: Document,
        page_num: u32,
        total_pages: usize,
        page: Seq<Entry>,
    ) -> PageOutcomeView {
        match page_resources(page) {
            Ok(references) => self.resource_files(document, page_num, total_pages, references),
            Err(e) => failed_page(e),
        }
    }

    /// What a page of the document gives, from its number and identifier.
    pub open spec fn page_outcome(
        &self,
        document: Document,
        page: (u32, ObjectId),
        total_pages: usize,
    ) -> PageOutcomeView {
        match resolved_object(document, page.1) {
            Some(object) => match object_shape(object) {
                Shape::Dictionary(dictionary) => self.page_files(
                    document,
                    page.0,
                    total_pages,
                    dictionary_entries(dictionary),
                ),
                _ => failed_page(PDFConError::ResolutionError(ResolutionFault::Page)),
            },
            None => failed_page(PDFConError::ResolutionError(ResolutionFault::Page)),
        }
    }

    /// Looks at one image resource of a page: resolves it to a stream and,
    /// where the stream is an image, decodes it and says where it goes.
    pub fn process_xobject(
        &self,
        doc: &Document,
        page_num: u32,
        total_pages: usize,
        reference: &Object,
    ) -> (r: Result<Option<ImageFile>, PDFConError>)
        ensures
            match self.xobject_file(*doc, page_num, total_pages, *reference) {
                Ok(Some(file)) => r matches Ok(Some(found)) && found@ == file,
                Ok(None) => r matches Ok(None),
                Err(e) => r == Err::<Option<ImageFile>, PDFConError>(e),
            },
    {
        let id = match reference.as_reference() {
            Ok(id) => id,
            Err(_) => {
                return Err(PDFConError::ResolutionError(ResolutionFault::Stream));
            },
        };
        let object = match doc.get_object(id) {
            Ok(object) => object,
            Err(_) => {
                return Err(PDFConError::ResolutionError(ResolutionFault::Stream));
            },
        };
        let stream = match object.as_stream() {
            Ok(stream) => stream,
            Err(_) => {
                return Err(PDFConError::ResolutionError(ResolutionFault::Stream));
            },
        };
        match image_of_stream(stream, page_num, total_pages) {
            Ok(Some(image)) => {
                let path = join_path(&self.out_directory, image.file_name.as_str());
                Ok(Some(ImageFile { path, optimize: self.optimize, image }))
            },
            Ok(None) => Ok(None),
            Err(e) => Err(e),
        }
    }

    /// Looks at the image resources of a page, in their order, and stops at
    /// the first that fails.
    pub fn find_xobject_images_in_page(
        &self,
        doc: &Document,
        page_num: u32,
        page_dict: &Dictionary,
        total_pages: usize,
    ) -> (r: PageOutcome)
        ensures
            r@ == self.page_files(*doc, page_num, total_pages, dictionary_entries(*page_dict)),
    {
        let mut files: Vec<ImageFile> = Vec::new();
        let resources = match page_dict.get("Resources".as_bytes()) {
            Ok(value) => match value.as_dict() {
                Ok(resources) => resources,
                Err(_) => {
                    return PageOutcome {
                        files,
                        error: Some(PDFConError::ResolutionError(ResolutionFault::WrongType)),
                    };
                },
            },
            Err(_) => {
                return PageOutcome { files, error: None };
            },
        };
        let xobjects = match resources.get("XObject".as_bytes()) {
            Ok(value) => match value.as_dict() {
                Ok(xobjects) => xobjects,
                Err(_) => {
                    return PageOutcome {
                        files,
                        error: Some(PDFConError::ResolutionError(ResolutionFault::WrongType)),
                    };
                },
            },
            Err(_) => {
                return PageOutcome { files, error: None };
            },
        };
        let references = dictionary_values(xobjects);
        let ghost listed = page_resources(dictionary_entries(*page_dict))->Ok_0;
        let mut i: usize = 0;
        while i < references.len()
            invariant
                i <= references@.len(),
                page_resources(dictionary_entries(*page_dict)) == Ok::<Seq<Object>, PDFConError>(
                    listed,
                ),
                listed.len() == references@.len(),
                forall|j: int| 0 <= j < listed.len() ==> #[trigger] listed[j] == *references@[j],
                (PageOutcome { files, error: None })@ == self.resource_files(
                    *doc,
                    page_num,
                    total_pages,
                    listed.take(i as int),
                ),
            decreases references@.len() - i,
        {
            assert(listed.take(i + 1).drop_last() =~= listed.take(i as int));
            match self.process_xobject(doc, page_num, total_pages, references[i]) {
                Ok(Some(file)) => {
                    files.push(file);
                },
                Ok(None) => {},
                Err(e) => {
                    let failed = PageOutcome { files, error: Some(e) };
                    proof {
                        assert(failed@ == self.resource_files(
                            *doc,
                            page_num,
                            total_pages,
                            listed.take(i + 1),
                        ));
                        lemma_failure_ends_page(
                            *self,
                            *doc,
                            page_num,
                            total_pages,
                            listed,
                            i + 1,
                        );
                    }
                    return failed;
                },
            }
            i = i + 1;
        }
        assert(listed.take(i as int) =~= listed);
        PageOutcome { files, error: None }
    }

    /// Looks at one page of the document.
    pub fn extract_page(
        &self,
        doc: &Document,
        page: (u32, ObjectId),
        total_pages: usize,
    ) -> (r: PageOutcome)
        ensures
            r@ == self.page_outcome(*doc, page, total_pages),
    {
        match doc.get_object(page.1) {
            Ok(object) => match object.as_dict() {
                Ok(dictionary) => self.find_xobject_images_in_page(
                    doc,
                    page.0,
                    dictionary,
                    total_pages,
                ),
                Err(_) => PageOutcome {
                    files: Vec::new(),
                    error: Some(PDFConError::ResolutionError(ResolutionFault::Page)),
                },
            },
            Err(_) => PageOutcome {
                files: Vec::new(),
                error: Some(PDFConError::ResolutionError(ResolutionFault::Page)),
            },
        }
    }

    /// Looks at every page of the document, in the order of the pages. The
    /// failure of a page does not touch the pages after it.
    pub fn extract_images(&self, doc: &Document) -> (r: Vec<PageOutcome>)
        ensures
            r@.len() == document_pages(*doc).len(),
            forall|i: int|
                0 <= i < r@.len() ==> (#[trigger] r@[i])@ == self.page_outcome(
                    *doc,
                    document_pages(*doc)[i],
                    document_pages(*doc).len() as usize,
                ),
    {
        let pages = page_list(doc);
        let total_pages = pages.len();
        let mut outcomes: Vec<PageOutcome> = Vec::new();
        let mut i: usize = 0;
        while i < pages.len()
            invariant
                i <= pages@.len(),
                pages@ == document_pages(*doc),
                total_pages == pages@.len(),
                outcomes@.len() == i,
                forall|j: int|
                    0 <= j < i ==> (#[trigger] outcomes@[j])@ == self.page_outcome(
                        *doc,
                        pages@[j],
                        total_pages,
                    ),
            decreases pages@.len() - i,
        {
            let outcome = self.extract_page(doc, pages[i], total_pages);
            outcomes.push(outcome);
            i = i + 1;
        }
        outcomes
    }
}

/// What a page reports once its files are written: its failure, if it had
/// one.
pub open spec fn outcome_result(outcome: PageOutcomeView) -> Result<(), PDFConError> {
    match outcome.error {
        Some(e) => Err(e),
        None => Ok(()),
    }
}

/// The pages that failed, each with its failure, in the order of the
/// results.
pub open spec fn failures_of(
    results: Seq<(u32, Result<(), PDFConError>)>,
) -> Seq<(u32, PDFConError)>
    decreases results.len(),
{
    if results.len() == 0 {
        Seq::empty()
    } else {
        let before = failures_of(results.drop_last());
        match results.last().1 {
            Ok(_) => before,
            Err(e) => before.push((results.last().0, e)),
        }
    }
}

/// What a run reports: success where no page failed, and otherwise the one
/// error that stands for all failures.
pub open spec fn run_result_of(
    results: Seq<(u32, Result<(), PDFConError>)>,
) -> Result<(), PDFConError> {
    if failures_of(results).len() == 0 {
        Ok(())
    } else {
        Err(PDFConError::UnpackError)
    }
}

impl PageOutcome {
    /// What the page reports once its files are written.
    pub fn result(&self) -> (r: Result<(), PDFConError>)
        ensures
            r == outcome_result(self@),
    {
        match self.error {
            Some(e) => Err(e),
            None => Ok(()),
        }
    }
}

/// The pages that failed, each with its failure, in the order of the
/// results.
pub fn collect_failures(
    results: &Vec<(u32, Result<(), PDFConError>)>,
) -> (failures: Vec<(u32, PDFConError)>)
    ensures
        failures@ == failures_of(results@),
{
    let mut failures: Vec<(u32, PDFConError)> = Vec::new();
    let mut i: usize = 0;
    while i < results.len()
        invariant
            i <= results@.len(),
            failures@ == failures_of(results@.take(i as int)),
        decreases results@.len() - i,
    {
        assert(results@.take(i + 1).drop_last() =~= results@.take(i as int));
        match results[i].1 {
            Ok(_) => {},
            Err(e) => {
                failures.push((results[i].0, e));
            },
        }
        i = i + 1;
    }
    assert(results@.take(i as int) =~= results@);
    failures
}

/// What a run reports from the results of its pages.
pub fn run_result(results: &Vec<(u32, Result<(), PDFConError>)>) -> (r: Result<(), PDFConError>)
    ensures
        r == run_result_of(results@),
        r is Ok <==> forall|i: int| 0 <= i < results@.len() ==> (#[trigger] results@[i]).1 is Ok,
{
    let failures = collect_failures(results);
    proof {
        lemma_no_failure(results@);
    }
    if failures.len() == 0 {
        Ok(())
    } else {
        Err(PDFConError::UnpackError)
    }
}

/// No page is listed as failed exactly where every page succeeded.
pub proof fn lemma_no_failure(results: Seq<(u32, Result<(), PDFConError>)>)
    ensures
        failures_of(results).len() == 0 <==> forall|i: int|
            0 <= i < results.len() ==> (#[trigger] results[i]).1 is Ok,
    decreases results.len(),
{
    if results.len() > 0 {
        lemma_no_failure(results.drop_last());
        let before = results.drop_last();
        if failures_of(results).len() == 0 {
            assert forall|i: int| 0 <= i < results.len() implies (#[trigger] results[i]).1 is Ok by {
                if i < results.len() - 1 {
                    assert(before[i] == results[i]);
                }
            }
        }
        if forall|i: int| 0 <= i < results.len() ==> (#[trigger] results[i]).1 is Ok {
            assert forall|i: int| 0 <= i < before.len() implies (#[trigger] before[i]).1 is Ok by {
                assert(before[i] == results[i]);
            }
        }
    }
}

/// Once a resource has failed, the resources after it change nothing.
pub proof fn lemma_failure_ends_page(
    unpack: Unpack,
    document: Document,
    page_num: u32,
    total_pages: usize,
    references: Seq<Object>,
    failed: int,
)
    requires
        0 <= failed <= references.len(),
        unpack.resource_files(document, page_num, total_pages, references.take(failed)).error
            is Some,
    ensures
        unpack.resource_files(document, page_num, total_pages, references)
            == unpack.resource_files(document, page_num, total_pages, references.take(failed)),
    decreases references.len() - failed,
{
    if failed == references.len() {
        assert(references.take(failed) =~= references);
    } else {
        assert(references.drop_last().take(failed) =~= references.take(failed));
        lemma_failure_ends_page(
            unpack,
            document,
            page_num,
            total_pages,
            references.drop_last(),
            failed,
        );
    }
}

} // verus!
