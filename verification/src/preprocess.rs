//! The filter that decides, while a document is loaded, which objects stay:
//! objects of classes that the extraction never reads are dropped, and
//! dictionaries lose their metadata keys.

use crate::bytes::{bytes_of, same_bytes};
use crate::pdf::{
    dictionary_entries, distinct_keys, has_key, key_index, lookup,
    object_shape, stream_dict, stream_dictionary, without_key, Entry, ObjectId, Shape,
};
use lopdf::{Dictionary, Object};
use vstd::prelude::*;

verus! {

/// The classes of objects that are dropped.
pub const IGNORE_LIST: [&'static str; 6] = [
    "Annot",
    "ExtGState",
    "Font",
    "FontDescriptor",
    "Metadata",
    "Outlines",
];

/// The keys that are taken out of every dictionary.
pub const METADATA_KEYS: [&'static str; 7] = [
    "Producer",
    "ModDate",
    "Creator",
    "ProcSet",
    "Procset",
    "MediaBox",
    "Annots",
];

/// Whether a type name is one of the dropped classes.
pub open spec fn ignored_type(name: Seq<u8>) -> bool {
    exists|i: int| 0 <= i < IGNORE_LIST@.len() && bytes_of(#[trigger] IGNORE_LIST@[i]) == name
}

/// Whether a key is one of the metadata keys.
pub open spec fn metadata_key(key: Seq<u8>) -> bool {
    exists|i: int| 0 <= i < METADATA_KEYS@.len() && bytes_of(#[trigger] METADATA_KEYS@[i]) == key
}

/// The type that a dictionary declares: the name under `Type`, or
/// `Linearized` where that key is present instead.
pub open spec fn declared_type(entries: Seq<Entry>) -> Option<Seq<u8>> {
    match lookup(entries, bytes_of("Type")) {
        Some(value) if object_shape(value) is Name => Some(object_shape(value)->Name_0),
        _ => if has_key(entries, bytes_of("Linearized")) {
            Some(bytes_of("Linearized"))
        } else {
            None
        },
    }
}

/// The type of an object: the declared type of a dictionary, or of the
/// dictionary of a stream. Other objects have none.
pub open spec fn object_type(object: Object) -> Option<Seq<u8>> {
    match object_shape(object) {
        Shape::Dictionary(dictionary) => declared_type(dictionary_entries(dictionary)),
        Shape::Stream(stream) => declared_type(dictionary_entries(stream_dictionary(stream))),
        _ => None,
    }
}

/// Whether an object is dropped for its class.
pub open spec fn ignored_object(object: Object) -> bool {
    match object_type(object) {
        Some(name) => ignored_type(name),
        None => false,
    }
}

/// The entries of a dictionary after the first `count` metadata keys are
/// taken out, one after the other.
pub open spec fn without_metadata(entries: Seq<Entry>, count: nat) -> Seq<Entry>
    decreases count,
{
    if count == 0 {
        entries
    } else {
        without_key(
            without_metadata(entries, (count - 1) as nat),
            bytes_of(METADATA_KEYS@[count - 1]),
        )
    }
}

/// The entries of a dictionary after all metadata keys are taken out.
pub open spec fn stripped(entries: Seq<Entry>) -> Seq<Entry> {
    without_metadata(entries, METADATA_KEYS@.len())
}

/// Taking a key out of entries with distinct keys leaves distinct keys, and
/// the key is gone.
pub proof fn lemma_without_key(entries: Seq<Entry>, key: Seq<u8>)
    requires
        distinct_keys(entries),
    ensures
        distinct_keys(without_key(entries, key)),
        !has_key(without_key(entries, key), key),
{
    let rest = without_key(entries, key);
    if has_key(entries, key) {
        let at = key_index(entries, key);
        let last = entries.len() - 1;
        assert forall|i: int| 0 <= i < rest.len() implies (#[trigger] rest[i]).0 != key by {
            assert(rest[i] == entries[if i == at { last } else { i }]);
        }
        assert forall|i: int, j: int| 0 <= i < j < rest.len() implies (#[trigger] rest[i]).0 != (
        #[trigger] rest[j]).0 by {
            assert(rest[i] == entries[if i == at { last } else { i }]);
            assert(rest[j] == entries[if j == at { last } else { j }]);
        }
    }
}

/// Taking a key out brings no key in.
pub proof fn lemma_without_key_keeps_absent(entries: Seq<Entry>, key: Seq<u8>, other: Seq<u8>)
    requires
        !has_key(entries, other),
    ensures
        !has_key(without_key(entries, key), other),
{
    let rest = without_key(entries, key);
    if has_key(entries, key) {
        let at = key_index(entries, key);
        let last = entries.len() - 1;
        assert forall|i: int| 0 <= i < rest.len() implies (#[trigger] rest[i]).0 != other by {
            assert(rest[i] == entries[if i == at { last } else { i }]);
        }
    }
}

/// After the first `count` metadata keys are taken out of entries with
/// distinct keys, the keys are still distinct and none of those is left.
pub proof fn lemma_without_metadata(entries: Seq<Entry>, count: nat)
    requires
        distinct_keys(entries),
        count <= METADATA_KEYS@.len(),
    ensures
        distinct_keys(without_metadata(entries, count)),
        forall|i: int|
            0 <= i < count ==> !has_key(
                without_metadata(entries, count),
                bytes_of(#[trigger] METADATA_KEYS@[i]),
            ),
    decreases count,
{
    if count > 0 {
        let before = without_metadata(entries, (count - 1) as nat);
        let key = bytes_of(METADATA_KEYS@[count - 1]);
        lemma_without_metadata(entries, (count - 1) as nat);
        lemma_without_key(before, key);
        assert forall|i: int| 0 <= i < count implies !has_key(
            without_metadata(entries, count),
            bytes_of(#[trigger] METADATA_KEYS@[i]),
        ) by {
            if i < count - 1 {
                lemma_without_key_keeps_absent(before, key, bytes_of(METADATA_KEYS@[i]));
            }
        }
    }
}

/// A stripped dictionary holds no metadata key.
pub proof fn lemma_stripped_holds_no_metadata(entries: Seq<Entry>)
    requires
        distinct_keys(entries),
    ensures
        forall|key: Seq<u8>| metadata_key(key) ==> !has_key(stripped(entries), key),
{
    lemma_without_metadata(entries, METADATA_KEYS@.len());
}

/// Whether a type name is one of the dropped classes.
pub fn is_ignored(name: &[u8]) -> (r: bool)
    ensures
        r == ignored_type(name@),
{
    let mut i: usize = 0;
    while i < IGNORE_LIST.len()
        invariant
            i <= IGNORE_LIST@.len(),
            forall|j: int| 0 <= j < i ==> bytes_of(#[trigger] IGNORE_LIST@[j]) != name@,
        decreases IGNORE_LIST@.len() - i,
    {
        if same_bytes(name, IGNORE_LIST[i].as_bytes()) {
            return true;
        }
        i = i + 1;
    }
    false
}

/// The declared type of a dictionary.
pub fn dictionary_type<'a>(dictionary: &'a Dictionary) -> (r: Option<&'a [u8]>)
    ensures
        match declared_type(dictionary_entries(*dictionary)) {
            Some(name) => r matches Some(bytes) && bytes@ == name,
            None => r is None,
        },
{
    if let Ok(value) = dictionary.get("Type".as_bytes()) {
        if let Ok(name) = value.as_name() {
            return Some(name);
        }
    }
    match dictionary.get("Linearized".as_bytes()) {
        Ok(_) => Some("Linearized".as_bytes()),
        Err(_) => None,
    }
}

/// Whether an object is dropped for its class.
pub fn is_ignored_object(object: &Object) -> (r: bool)
    ensures
        r == ignored_object(*object),
{
    let declared = match object.as_dict() {
        Ok(dictionary) => dictionary_type(dictionary),
        Err(_) => match object.as_stream() {
            Ok(stream) => dictionary_type(stream_dict(stream)),
            Err(_) => None,
        },
    };
    match declared {
        Some(name) => is_ignored(name),
        None => false,
    }
}

/// Decides whether an object of the document stays, and strips it.
///
/// An object of a dropped class goes, untouched. A dictionary loses its
/// metadata keys and goes if nothing is left of it. Every other object
/// stays as it is. What stays is returned with its identifier, as a copy of
/// the object as it is left behind.
pub fn filter_func(object_id: (u32, u16), object: &mut Object) -> (r: Option<((u32, u16), Object)>)
    ensures
        ignored_object(*old(object)) ==> r is None && *final(object) == *old(object),
        !ignored_object(*old(object)) && !(object_shape(*old(object)) is Dictionary) ==> {
            &&& *final(object) == *old(object)
            &&& r == Some((object_id, *old(object)))
        },
        !ignored_object(*old(object)) && object_shape(*old(object)) is Dictionary ==> {
            let kept = stripped(dictionary_entries(object_shape(*old(object))->Dictionary_0));
            &&& object_shape(*final(object)) is Dictionary
            &&& dictionary_entries(object_shape(*final(object))->Dictionary_0) == kept
            &&& r == if kept.len() == 0 {
                None
            } else {
                Some((object_id, *final(object)))
            }
        },
        r is Some && object_shape(*final(object)) is Dictionary ==> {
            let left = dictionary_entries(object_shape(*final(object))->Dictionary_0);
            &&& left.len() > 0
            &&& forall|key: Seq<u8>| metadata_key(key) ==> !has_key(left, key)
        },
{
    if is_ignored_object(object) {
        return None;
    }
    let mut empty = false;
    match object.as_dict_mut() {
        Ok(dictionary) => {
            let ghost entries = dictionary_entries(*dictionary);
            dictionary.remove(METADATA_KEYS[0].as_bytes());
            dictionary.remove(METADATA_KEYS[1].as_bytes());
            dictionary.remove(METADATA_KEYS[2].as_bytes());
            dictionary.remove(METADATA_KEYS[3].as_bytes());
            dictionary.remove(METADATA_KEYS[4].as_bytes());
            dictionary.remove(METADATA_KEYS[5].as_bytes());
            dictionary.remove(METADATA_KEYS[6].as_bytes());
            proof {
                reveal_with_fuel(without_metadata, 8);
                lemma_stripped_holds_no_metadata(entries);
            }
            empty = dictionary.is_empty();
        },
        Err(_) => {},
    }
    if empty {
        return None;
    }
    Some((object_id, object.clone()))
}

} // verus!
