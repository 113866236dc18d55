//! The document model: the `lopdf` types that the extraction reads, what
//! each of them holds, and the contracts of the `lopdf` calls that the
//! library makes.
//!
//! Nothing in this file is proved. The types are opaque to the verifier; the
//! functions without a body name what a value holds, and every contract
//! below is taken from the source of `lopdf`.

use lopdf::{Dictionary, Document, Object, Stream};
use vstd::prelude::*;

verus! {

/// `lopdf::Object`, carried through the library as an opaque value.
#[verifier::external_type_specification]
#[verifier::external_body]
pub struct ExObject(lopdf::Object);

/// `lopdf::Dictionary`, an insertion-ordered map from keys to objects.
#[verifier::external_type_specification]
#[verifier::external_body]
pub struct ExDictionary(lopdf::Dictionary);

/// `lopdf::Stream`, a dictionary together with a byte payload.
#[verifier::external_type_specification]
#[verifier::external_body]
pub struct ExStream(lopdf::Stream);

/// `lopdf::Document`, the parsed container.
#[verifier::external_type_specification]
#[verifier::external_body]
pub struct ExDocument(lopdf::Document);

/// `lopdf::Error`, what a failed `lopdf` call returns.
#[verifier::external_type_specification]
#[verifier::external_body]
pub struct ExError(lopdf::Error);

/// An object identifier: object number and generation.
pub type ObjectId = (u32, u16);

/// One entry of a dictionary: its key and its value.
pub type Entry = (Seq<u8>, Object);

/// What an object is, one level deep. The variants are those of
/// `lopdf::Object`; the number inside a real and the notation of a string
/// are left out, since nothing here reads them.
pub enum Shape {
    Null,
    Boolean(bool),
    Integer(i64),
    Real,
    Name(Seq<u8>),
    Text(Seq<u8>),
    Array(Seq<Object>),
    Dictionary(Dictionary),
    Stream(Stream),
    Reference(ObjectId),
}

/// The variant of an object and what it carries.
pub uninterp spec fn object_shape(object: Object) -> Shape;

/// The entries of a dictionary, in the order in which it hands them out.
pub uninterp spec fn dictionary_entries(dictionary: Dictionary) -> Seq<Entry>;

/// The dictionary of a stream.
pub uninterp spec fn stream_dictionary(stream: Stream) -> Dictionary;

/// The payload of a stream, as stored.
pub uninterp spec fn stream_content(stream: Stream) -> Seq<u8>;

/// The object that a document yields for an identifier, after following
/// references; `None` where it yields none.
pub uninterp spec fn resolved_object(document: Document, id: ObjectId) -> Option<Object>;

/// The pages of a document as pairs of page number and object identifier,
/// by ascending page number.
pub uninterp spec fn document_pages(document: Document) -> Seq<(u32, ObjectId)>;

/// Whether some entry has the given key.
pub open spec fn has_key(entries: Seq<Entry>, key: Seq<u8>) -> bool {
    exists|i: int| 0 <= i < entries.len() && (#[trigger] entries[i]).0 == key
}

/// The position of an entry with the given key, where there is one.
pub open spec fn key_index(entries: Seq<Entry>, key: Seq<u8>) -> int {
    choose|i: int| 0 <= i < entries.len() && (#[trigger] entries[i]).0 == key
}

/// The value stored under a key.
pub open spec fn lookup(entries: Seq<Entry>, key: Seq<u8>) -> Option<Object> {
    if has_key(entries, key) {
        Some(entries[key_index(entries, key)].1)
    } else {
        None
    }
}

/// No key occurs twice.
pub open spec fn distinct_keys(entries: Seq<Entry>) -> bool {
    forall|i: int, j: int|
        0 <= i < j < entries.len() ==> (#[trigger] entries[i]).0 != (#[trigger] entries[j]).0
}

/// The entries after a key is removed: the last entry takes the place of the
/// removed one.
pub open spec fn without_key(entries: Seq<Entry>, key: Seq<u8>) -> Seq<Entry> {
    if has_key(entries, key) {
        entries.update(key_index(entries, key), entries.last()).drop_last()
    } else {
        entries
    }
}

/// `Object::as_reference` returns the identifier of a reference and fails on
/// every other variant.
pub assume_specification[ lopdf::Object::as_reference ](
    object: &lopdf::Object,
) -> (r: Result<(u32, u16), lopdf::Error>)
    ensures
        match object_shape(*object) {
            Shape::Reference(id) => r == Ok::<ObjectId, lopdf::Error>(id),
            _ => r is Err,
        },
;

/// `Object::as_i64` returns the number of an integer and fails on every
/// other variant.
pub assume_specification[ lopdf::Object::as_i64 ](
    object: &lopdf::Object,
) -> (r: Result<i64, lopdf::Error>)
    ensures
        match object_shape(*object) {
            Shape::Integer(value) => r == Ok::<i64, lopdf::Error>(value),
            _ => r is Err,
        },
;

/// `Object::as_name` returns the bytes of a name and fails on every other
/// variant.
pub assume_specification[ lopdf::Object::as_name ](
    object: &lopdf::Object,
) -> (r: Result<&[u8], lopdf::Error>)
    ensures
        match object_shape(*object) {
            Shape::Name(name) => r matches Ok(bytes) && bytes@ == name,
            _ => r is Err,
        },
;

/// `Object::as_str` returns the bytes of a string and fails on every other
/// variant.
pub assume_specification[ lopdf::Object::as_str ](
    object: &lopdf::Object,
) -> (r: Result<&[u8], lopdf::Error>)
    ensures
        match object_shape(*object) {
            Shape::Text(text) => r matches Ok(bytes) && bytes@ == text,
            _ => r is Err,
        },
;

/// `Object::as_array` returns the items of an array and fails on every other
/// variant.
pub assume_specification[ lopdf::Object::as_array ](
    object: &lopdf::Object,
) -> (r: Result<&Vec<lopdf::Object>, lopdf::Error>)
    ensures
        match object_shape(*object) {
            Shape::Array(items) => r matches Ok(found) && found@ == items,
            _ => r is Err,
        },
;

/// `Object::as_dict` returns the dictionary of a dictionary object and fails
/// on every other variant, a stream included.
pub assume_specification[ lopdf::Object::as_dict ](
    object: &lopdf::Object,
) -> (r: Result<&lopdf::Dictionary, lopdf::Error>)
    ensures
        match object_shape(*object) {
            Shape::Dictionary(dictionary) => r matches Ok(found) && *found == dictionary,
            _ => r is Err,
        },
;

/// `Object::as_stream` returns the stream of a stream object and fails on
/// every other variant.
pub assume_specification[ lopdf::Object::as_stream ](
    object: &lopdf::Object,
) -> (r: Result<&lopdf::Stream, lopdf::Error>)
    ensures
        match object_shape(*object) {
            Shape::Stream(stream) => r matches Ok(found) && *found == stream,
            _ => r is Err,
        },
;

/// `Object::as_dict_mut` lends the dictionary of a dictionary object for
/// change: the object stays a dictionary object and holds whatever the
/// borrower leaves. On every other variant it fails and the object is as it
/// was. The keys of the dictionary it lends are distinct, as in every
/// `IndexMap`.
pub assume_specification[ lopdf::Object::as_dict_mut ](
    object: &mut lopdf::Object,
) -> (r: Result<&mut lopdf::Dictionary, lopdf::Error>)
    ensures
        match object_shape(*old(object)) {
            Shape::Dictionary(dictionary) => {
                &&& r matches Ok(lent)
                &&& *lent == dictionary
                &&& distinct_keys(dictionary_entries(*lent))
                &&& object_shape(*final(object)) == Shape::Dictionary(*final(lent))
            },
            _ => r is Err && *final(object) == *old(object),
        },
;

/// The derived `Clone` of `Object` returns an equal object.
pub assume_specification[ <lopdf::Object as Clone>::clone ](
    object: &lopdf::Object,
) -> (r: lopdf::Object)
    ensures
        r == *object,
;

/// `Dictionary::get` returns the value under a key and fails where the key
/// is absent. No key occurs twice in a dictionary, so the value is that of
/// the one entry with the key.
pub assume_specification<'a>[ lopdf::Dictionary::get ](
    dictionary: &'a lopdf::Dictionary,
    key: &[u8],
) -> (r: Result<&'a lopdf::Object, lopdf::Error>)
    ensures
        match lookup(dictionary_entries(*dictionary), key@) {
            Some(value) => r matches Ok(found) && *found == value,
            None => r is Err,
        },
;

/// `Dictionary::remove` takes the entry with the given key out, as
/// `IndexMap::swap_remove` does, and returns its value.
pub assume_specification[ lopdf::Dictionary::remove ](
    dictionary: &mut lopdf::Dictionary,
    key: &[u8],
) -> (r: Option<lopdf::Object>)
    ensures
        r == lookup(dictionary_entries(*old(dictionary)), key@),
        dictionary_entries(*final(dictionary)) == without_key(
            dictionary_entries(*old(dictionary)),
            key@,
        ),
;

/// `Dictionary::is_empty` tells whether the dictionary has no entry.
pub assume_specification[ lopdf::Dictionary::is_empty ](
    dictionary: &lopdf::Dictionary,
) -> (r: bool)
    ensures
        r == (dictionary_entries(*dictionary).len() == 0),
;

/// `Document::get_object` looks the identifier up and follows references
/// from there. It returns the object that it arrives at, and fails where it
/// arrives at none. Nothing is proved of it: the result is only given its
/// name.
pub assume_specification[ lopdf::Document::get_object ](
    document: &lopdf::Document,
    id: (u32, u16),
) -> (r: Result<&lopdf::Object, lopdf::Error>)
    ensures
        match resolved_object(*document, id) {
            Some(object) => r matches Ok(found) && *found == object,
            None => r is Err,
        },
;

/// The values of a dictionary, from `Dictionary::iter`, in its order.
#[verifier::external_body]
pub(crate) fn dictionary_values(dictionary: &Dictionary) -> (r: Vec<&Object>)
    ensures
        r@.len() == dictionary_entries(*dictionary).len(),
        forall|i: int|
            0 <= i < r@.len() ==> *(#[trigger] r@[i]) == dictionary_entries(*dictionary)[i].1,
{
    dictionary.iter().map(|(_, value)| value).collect()
}

/// The field `dict` of a stream.
#[verifier::external_body]
pub(crate) fn stream_dict(stream: &Stream) -> (r: &Dictionary)
    ensures
        *r == stream_dictionary(*stream),
{
    &stream.dict
}

/// The field `content` of a stream.
#[verifier::external_body]
pub(crate) fn stream_bytes(stream: &Stream) -> (r: &Vec<u8>)
    ensures
        r@ == stream_content(*stream),
{
    &stream.content
}

/// The pages of a document, from `Document::get_pages`, by ascending page
/// number. Nothing is proved of it: the result is only given its name.
#[verifier::external_body]
pub(crate) fn page_list(document: &Document) -> (r: Vec<(u32, ObjectId)>)
    ensures
        r@ == document_pages(*document),
{
    document.get_pages().into_iter().collect()
}

} // verus!
