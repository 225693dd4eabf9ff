//! The PDF object graph as this library sees it.
//!
//! Documents, dictionaries and objects are `lopdf` values. Verus cannot look
//! inside them, so this module gives each a mathematical model and states, for
//! every `lopdf` operation the library calls, what the operation does to that
//! model. Nothing in this module is proved: these are the assumptions that the
//! proofs in the other modules rest on.
//!
//! `lopdf` follows references when it fetches an object. The functions
//! `resolve` and `lookup` say how, and the contracts of the fetching
//! operations are stated over them.

use lopdf::ObjectId;
use vstd::prelude::*;

verus! {

/// A PDF object.
#[verifier::external_type_specification]
#[verifier::external_body]
pub struct ExObject(lopdf::Object);

/// A PDF dictionary.
#[verifier::external_type_specification]
#[verifier::external_body]
pub struct ExDictionary(lopdf::Dictionary);

/// A PDF stream: a dictionary and bytes.
#[verifier::external_type_specification]
#[verifier::external_body]
pub struct ExStream(lopdf::Stream);

/// A PDF document.
#[verifier::external_type_specification]
#[verifier::external_body]
pub struct ExDocument(lopdf::Document);

/// An error of `lopdf`.
#[verifier::external_type_specification]
#[verifier::external_body]
pub struct ExError(lopdf::Error);

/// An operation of a content stream.
#[verifier::external_type_specification]
#[verifier::external_body]
pub struct ExOperation(lopdf::content::Operation);

/// How a string object is written in the file.
pub enum Notation {
    Literal,
    Hexadecimal,
}

/// The model of a PDF object.
///
/// A real number is held as its IEEE-754 single-precision bit pattern, a name
/// or a string as its bytes, a dictionary as a map from key bytes to values.
pub enum Value {
    Null,
    Boolean(bool),
    Integer(i64),
    Real(u32),
    Name(Seq<u8>),
    Text(Seq<u8>, Notation),
    Array(Seq<Value>),
    Dictionary(Map<Seq<u8>, Value>),
    Stream(Map<Seq<u8>, Value>, Seq<u8>),
    Reference(ObjectId),
}

/// The model of one operation of a content stream: an operator and the
/// operands before it.
pub struct Step {
    pub operator: Seq<char>,
    pub operands: Seq<Value>,
}

/// The bytes of a dictionary key or of a name written as text.
pub open spec fn key(s: &str) -> Seq<u8> {
    vstd::utf8::encode_utf8(s@)
}

/// A dictionary without entries.
pub open spec fn no_entries() -> Map<Seq<u8>, Value> {
    Map::empty()
}

/// What an object holds.
pub uninterp spec fn object_value(o: lopdf::Object) -> Value;

/// What a dictionary holds: its entries, without their order.
pub uninterp spec fn dictionary_entries(d: lopdf::Dictionary) -> Map<Seq<u8>, Value>;

/// The stream's dictionary and bytes.
pub uninterp spec fn stream_value(s: lopdf::Stream) -> Value;

/// The indirect objects of a document, by id.
pub uninterp spec fn document_objects(doc: lopdf::Document) -> Map<ObjectId, Value>;

/// The entries of a document's trailer.
pub uninterp spec fn document_trailer(doc: lopdf::Document) -> Map<Seq<u8>, Value>;

/// The highest object number that the document has handed out.
pub uninterp spec fn document_max_id(doc: lopdf::Document) -> u32;

/// The pages that `lopdf` enumerates in a document with these objects and
/// this trailer, in reading order, each with its page number.
pub uninterp spec fn enumerated_pages(
    objects: Map<ObjectId, Value>,
    trailer: Map<Seq<u8>, Value>,
) -> Seq<(u32, ObjectId)>;

/// The pages of a document in reading order, each with its page number.
/// They depend on the document's objects and trailer alone.
pub open spec fn document_pages(doc: lopdf::Document) -> Seq<(u32, ObjectId)> {
    enumerated_pages(document_objects(doc), document_trailer(doc))
}

/// What an operation holds.
pub uninterp spec fn operation_value(operation: lopdf::content::Operation) -> Step;

/// The operations that `lopdf` decodes a content stream to; `None` where it
/// cannot.
pub uninterp spec fn content_operations(bytes: Seq<u8>) -> Option<Seq<lopdf::content::Operation>>;

/// The bytes that `lopdf` encodes operations to; `None` where it cannot.
pub uninterp spec fn content_encoding(operations: Seq<lopdf::content::Operation>) -> Option<
    Seq<u8>,
>;

/// The bit pattern of the real number that `lopdf` reads an integer as.
pub uninterp spec fn integer_as_real(i: i64) -> u32;

/// The text that a real number with this bit pattern is printed as.
pub uninterp spec fn real_display(bits: u32) -> Seq<char>;

/// The text that `String::from_utf8_lossy` decodes bytes to.
pub uninterp spec fn utf8_lossy(bytes: Seq<u8>) -> Seq<char>;

/// The text that `str::trim` leaves of a text: the text without the white
/// space at its ends.
pub uninterp spec fn trimmed(text: Seq<char>) -> Seq<char>;

/// What `str::parse` makes of a text that is to be a real number: the
/// number's bit pattern, or the message of the error.
pub uninterp spec fn real_parsed(text: Seq<char>) -> Result<u32, Seq<char>>;

/// The text of bytes, decoded leniently: valid UTF-8 is the text that it
/// encodes, anything else what `String::from_utf8_lossy` makes of it.
pub open spec fn decoded(bytes: Seq<u8>) -> Seq<char> {
    if vstd::utf8::valid_utf8(bytes) {
        vstd::utf8::decode_utf8(bytes)
    } else {
        utf8_lossy(bytes)
    }
}

/// The values of a sequence of objects.
pub open spec fn values_of(items: Seq<lopdf::Object>) -> Seq<Value> {
    items.map_values(|o: lopdf::Object| object_value(o))
}

/// How many references `lopdf` follows from one object before it gives up.
pub open spec fn reference_limit() -> nat {
    128
}

/// The id at which the chain of references that starts at `id` ends, if
/// every object on it exists and it is no longer than `fuel` references.
pub open spec fn resolve_within(objects: Map<ObjectId, Value>, id: ObjectId, fuel: nat) -> Option<
    ObjectId,
>
    decreases fuel,
{
    if !objects.contains_key(id) {
        None
    } else {
        match objects[id] {
            Value::Reference(next) => if fuel == 0 {
                None
            } else {
                resolve_within(objects, next, (fuel - 1) as nat)
            },
            _ => Some(id),
        }
    }
}

/// The id of the object that `id` stands for.
pub open spec fn resolve(objects: Map<ObjectId, Value>, id: ObjectId) -> Option<ObjectId> {
    resolve_within(objects, id, reference_limit())
}

/// The object that `id` stands for, references followed.
pub open spec fn lookup(objects: Map<ObjectId, Value>, id: ObjectId) -> Option<Value> {
    match resolve(objects, id) {
        Some(target) => Some(objects[target]),
        None => None,
    }
}

/// `Object::as_reference`: the id, exactly when the object is a reference.
pub assume_specification[ lopdf::Object::as_reference ](o: &lopdf::Object) -> (r: Result<
    ObjectId,
    lopdf::Error,
>)
    ensures
        match r {
            Ok(id) => object_value(*o) == Value::Reference(id),
            Err(_) => !(object_value(*o) is Reference),
        },
;

/// `Object::as_i64`: the number, exactly when the object is an integer.
pub assume_specification[ lopdf::Object::as_i64 ](o: &lopdf::Object) -> (r: Result<
    i64,
    lopdf::Error,
>)
    ensures
        match r {
            Ok(i) => object_value(*o) == Value::Integer(i),
            Err(_) => !(object_value(*o) is Integer),
        },
;

/// `Object::as_name`: the bytes, exactly when the object is a name.
pub assume_specification<'a>[ lopdf::Object::as_name ](o: &'a lopdf::Object) -> (r: Result<
    &'a [u8],
    lopdf::Error,
>)
    ensures
        match r {
            Ok(bytes) => object_value(*o) == Value::Name(bytes@),
            Err(_) => !(object_value(*o) is Name),
        },
;

/// `Object::as_str`: the bytes, exactly when the object is a string, in
/// either notation.
pub assume_specification<'a>[ lopdf::Object::as_str ](o: &'a lopdf::Object) -> (r: Result<
    &'a [u8],
    lopdf::Error,
>)
    ensures
        match r {
            Ok(bytes) => object_value(*o) is Text && object_value(*o)->Text_0 == bytes@,
            Err(_) => !(object_value(*o) is Text),
        },
;

/// `Object::as_array`: the elements, exactly when the object is an array.
pub assume_specification<'a>[ lopdf::Object::as_array ](o: &'a lopdf::Object) -> (r: Result<
    &'a Vec<lopdf::Object>,
    lopdf::Error,
>)
    ensures
        match r {
            Ok(items) => object_value(*o) == Value::Array(values_of(items@)),
            Err(_) => !(object_value(*o) is Array),
        },
;

/// `Object::as_dict`: the dictionary, exactly when the object is one.
pub assume_specification<'a>[ lopdf::Object::as_dict ](o: &'a lopdf::Object) -> (r: Result<
    &'a lopdf::Dictionary,
    lopdf::Error,
>)
    ensures
        match r {
            Ok(d) => object_value(*o) == Value::Dictionary(dictionary_entries(*d)),
            Err(_) => !(object_value(*o) is Dictionary),
        },
;

/// `Object::as_stream`: the stream, exactly when the object is one.
pub assume_specification<'a>[ lopdf::Object::as_stream ](o: &'a lopdf::Object) -> (r: Result<
    &'a lopdf::Stream,
    lopdf::Error,
>)
    ensures
        match r {
            Ok(s) => object_value(*o) is Stream && object_value(*o) == stream_value(*s),
            Err(_) => !(object_value(*o) is Stream),
        },
;

/// `Object::as_f32`, then `to_bits`: the bit pattern, exactly when the
/// object is a real number.
#[verifier::external_body]
pub(crate) fn real_bits(o: &lopdf::Object) -> (r: Option<u32>)
    ensures
        match r {
            Some(bits) => object_value(*o) == Value::Real(bits),
            None => !(object_value(*o) is Real),
        },
{
    o.as_f32().ok().map(|x| x.to_bits())
}

/// `Object::as_f32`, printed with `format!`: the text of a real number.
#[verifier::external_body]
pub(crate) fn real_text(o: &lopdf::Object) -> (text: String)
    requires
        object_value(*o) is Real,
    ensures
        text@ == real_display(object_value(*o)->Real_0),
{
    format!("{}", o.as_f32().unwrap_or_default())
}

/// What the library relies on of the cast of an integer to a real number,
/// told of the real's bit pattern: the cast gives the nearest real, so zero
/// gives zero, one gives one, a greater integer a greater real that is
/// finite, and an integer below zero a real that is at most minus one and
/// finite. The integers that the library's own settings and the Letter
/// format hold are small, and are cast to just themselves: 10, 12, 612 and
/// 792.
pub open spec fn is_cast_of(i: i64, bits: u32) -> bool {
    &&& i == 0 ==> bits == 0
    &&& i == 1 ==> bits == 0x3F80_0000
    &&& i > 1 ==> 0x3F80_0000 < bits < 0x7F80_0000
    &&& i < 0 ==> 0xBF80_0000 <= bits < 0xFF80_0000
    &&& i == 10 ==> bits == 0x4120_0000
    &&& i == 12 ==> bits == 0x4140_0000
    &&& i == 612 ==> bits == 0x4419_0000
    &&& i == 792 ==> bits == 0x4446_0000
}

/// `Object::as_float`, handed back as a real object: a real number as it
/// is, an integer as the real that `lopdf` casts it to, anything else not
/// at all. Of the cast, `is_cast_of` says what is claimed.
#[verifier::external_body]
pub(crate) fn number_as_real(o: &lopdf::Object) -> (r: Option<lopdf::Object>)
    ensures
        match object_value(*o) {
            Value::Real(bits) => r is Some && object_value(r.unwrap()) == Value::Real(bits),
            Value::Integer(i) => r is Some && object_value(r.unwrap()) == Value::Real(
                integer_as_real(i),
            ) && is_cast_of(i, object_value(r.unwrap())->Real_0),
            _ => r is None,
        },
{
    o.as_float().ok().map(lopdf::Object::Real)
}

/// `Clone` for objects: the copy holds the same value.
pub assume_specification[ <lopdf::Object as Clone>::clone ](o: &lopdf::Object) -> (r:
    lopdf::Object)
    ensures
        object_value(r) == object_value(*o),
;

/// `Clone` for dictionaries: the copy holds the same entries.
pub assume_specification[ <lopdf::Dictionary as Clone>::clone ](d: &lopdf::Dictionary) -> (r:
    lopdf::Dictionary)
    ensures
        dictionary_entries(r) == dictionary_entries(*d),
;

/// The variant `Object::Name`.
#[verifier::external_body]
pub(crate) fn name_object(bytes: Vec<u8>) -> (o: lopdf::Object)
    ensures
        object_value(o) == Value::Name(bytes@),
{
    lopdf::Object::Name(bytes)
}

/// `Object::string_literal`: a string object in literal notation.
#[verifier::external_body]
pub(crate) fn string_object(bytes: Vec<u8>) -> (o: lopdf::Object)
    ensures
        object_value(o) == Value::Text(bytes@, Notation::Literal),
{
    lopdf::Object::string_literal(bytes)
}

/// The variant `Object::String` in hexadecimal notation.
#[verifier::external_body]
pub(crate) fn hexadecimal_object(bytes: Vec<u8>) -> (o: lopdf::Object)
    ensures
        object_value(o) == Value::Text(bytes@, Notation::Hexadecimal),
{
    lopdf::Object::String(bytes, lopdf::StringFormat::Hexadecimal)
}

/// `Stream::new`, as an object: a stream with the given bytes whose
/// dictionary holds the given entries and, under `/Length`, the number of
/// the bytes.
#[verifier::external_body]
pub(crate) fn stream_object(dict: lopdf::Dictionary, content: Vec<u8>) -> (o: lopdf::Object)
    ensures
        object_value(o) == Value::Stream(
            dictionary_entries(dict).insert(key("Length"), Value::Integer(content@.len() as i64)),
            content@,
        ),
{
    lopdf::Object::Stream(lopdf::Stream::new(dict, content))
}

/// The field `dict` of a stream.
#[verifier::external_body]
pub(crate) fn stream_dictionary(stream: &lopdf::Stream) -> (d: &lopdf::Dictionary)
    ensures
        stream_value(*stream) == Value::Stream(
            dictionary_entries(*d),
            stream_value(*stream)->Stream_1,
        ),
{
    &stream.dict
}

/// The field `content` of a stream.
#[verifier::external_body]
pub(crate) fn stream_content(stream: &lopdf::Stream) -> (bytes: &Vec<u8>)
    ensures
        stream_value(*stream) == Value::Stream(stream_value(*stream)->Stream_0, bytes@),
{
    &stream.content
}

/// `Operation::new`: an operation with the operator and the operands.
pub assume_specification[ lopdf::content::Operation::new ](
    operator: &str,
    operands: Vec<lopdf::Object>,
) -> (operation: lopdf::content::Operation)
    ensures
        operation_value(operation).operator == operator@,
        operation_value(operation).operands == values_of(operands@),
;

/// `Content::decode`: the operations of a content stream, or an error where
/// the bytes are none.
#[verifier::external_body]
pub(crate) fn content_decode(bytes: &[u8]) -> (r: Result<
    Vec<lopdf::content::Operation>,
    lopdf::Error,
>)
    ensures
        match r {
            Ok(operations) => content_operations(bytes@) == Some(operations@),
            Err(_) => content_operations(bytes@) is None,
        },
{
    lopdf::content::Content::decode(bytes).map(|content| content.operations)
}

/// `Content::encode`: the bytes of a content stream with the operations.
#[verifier::external_body]
pub(crate) fn content_encode(operations: &Vec<lopdf::content::Operation>) -> (r: Result<
    Vec<u8>,
    lopdf::Error,
>)
    ensures
        match r {
            Ok(bytes) => content_encoding(operations@) == Some(bytes@),
            Err(_) => content_encoding(operations@) is None,
        },
{
    lopdf::content::Content { operations }.encode()
}

/// The variant `Object::Integer`.
#[verifier::external_body]
pub(crate) fn integer_object(i: i64) -> (o: lopdf::Object)
    ensures
        object_value(o) == Value::Integer(i),
{
    lopdf::Object::Integer(i)
}

/// The variant `Object::Reference`.
#[verifier::external_body]
pub(crate) fn reference_object(id: ObjectId) -> (o: lopdf::Object)
    ensures
        object_value(o) == Value::Reference(id),
{
    lopdf::Object::Reference(id)
}

/// The variant `Object::Array`.
#[verifier::external_body]
pub(crate) fn array_object(items: Vec<lopdf::Object>) -> (o: lopdf::Object)
    ensures
        object_value(o) == Value::Array(values_of(items@)),
{
    lopdf::Object::Array(items)
}

/// The variant `Object::Dictionary`.
#[verifier::external_body]
pub(crate) fn dictionary_object(d: lopdf::Dictionary) -> (o: lopdf::Object)
    ensures
        object_value(o) == Value::Dictionary(dictionary_entries(d)),
{
    lopdf::Object::Dictionary(d)
}

/// `Dictionary::new`: a dictionary without entries.
pub assume_specification[ lopdf::Dictionary::new ]() -> (d: lopdf::Dictionary)
    ensures
        dictionary_entries(d) == no_entries(),
;

/// `Dictionary::is_empty`: whether the dictionary has no entry.
pub assume_specification[ lopdf::Dictionary::is_empty ](d: &lopdf::Dictionary) -> (r: bool)
    ensures
        r == (dictionary_entries(*d) == no_entries()),
;

/// `Dictionary::has`: whether the key has an entry.
pub assume_specification[ lopdf::Dictionary::has ](d: &lopdf::Dictionary, k: &[u8]) -> (r: bool)
    ensures
        r == dictionary_entries(*d).contains_key(k@),
;

/// `Dictionary::get`: the entry of the key, exactly when it has one.
pub assume_specification<'a>[ lopdf::Dictionary::get ](
    d: &'a lopdf::Dictionary,
    k: &[u8],
) -> (r: Result<&'a lopdf::Object, lopdf::Error>)
    ensures
        match r {
            Ok(o) => dictionary_entries(*d).contains_key(k@) && dictionary_entries(*d)[k@]
                == object_value(*o),
            Err(_) => !dictionary_entries(*d).contains_key(k@),
        },
;

/// `Dictionary::remove`: the key has no entry afterwards, the other entries
/// stay; the entry that left is handed back.
pub assume_specification[ lopdf::Dictionary::remove ](d: &mut lopdf::Dictionary, k: &[u8]) -> (r:
    Option<lopdf::Object>)
    ensures
        dictionary_entries(*final(d)) == dictionary_entries(*old(d)).remove(k@),
        match r {
            Some(o) => dictionary_entries(*old(d)).contains_key(k@) && dictionary_entries(
                *old(d),
            )[k@] == object_value(o),
            None => !dictionary_entries(*old(d)).contains_key(k@),
        },
;

/// `Dictionary::set`: the key's entry is the value afterwards, the other
/// entries stay.
#[verifier::external_body]
pub(crate) fn dictionary_set(d: &mut lopdf::Dictionary, key: &[u8], value: lopdf::Object)
    ensures
        dictionary_entries(*final(d)) == dictionary_entries(*old(d)).insert(
            key@,
            object_value(value),
        ),
{
    d.set(key, value)
}

/// `Document::get_object`: the object that the id stands for, references
/// followed; an error when an object on the way is missing or the chain is
/// longer than the limit.
pub assume_specification<'a>[ lopdf::Document::get_object ](
    doc: &'a lopdf::Document,
    id: ObjectId,
) -> (r: Result<&'a lopdf::Object, lopdf::Error>)
    ensures
        match r {
            Ok(o) => lookup(document_objects(*doc), id) == Some(object_value(*o)),
            Err(_) => lookup(document_objects(*doc), id) is None,
        },
;

/// `Document::get_dictionary`: as `get_object`, and an error too when what
/// the id stands for is no dictionary.
pub assume_specification<'a>[ lopdf::Document::get_dictionary ](
    doc: &'a lopdf::Document,
    id: ObjectId,
) -> (r: Result<&'a lopdf::Dictionary, lopdf::Error>)
    ensures
        match r {
            Ok(d) => lookup(document_objects(*doc), id) == Some(
                Value::Dictionary(dictionary_entries(*d)),
            ),
            Err(_) => !(lookup(document_objects(*doc), id) matches Some(Value::Dictionary(_))),
        },
;

/// `Document::get_dictionary_mut`: the dictionary that the id stands for, to
/// be changed in place. Whatever it holds in the end is what the document
/// holds at the id where the chain of references ended; nothing else in the
/// document changes.
pub assume_specification<'a>[ lopdf::Document::get_dictionary_mut ](
    doc: &'a mut lopdf::Document,
    id: ObjectId,
) -> (r: Result<&'a mut lopdf::Dictionary, lopdf::Error>)
    ensures
        document_trailer(*final(doc)) == document_trailer(*old(doc)),
        document_max_id(*final(doc)) == document_max_id(*old(doc)),
        match r {
            Ok(d) => lookup(document_objects(*old(doc)), id) == Some(
                Value::Dictionary(dictionary_entries(*d)),
            ) && document_objects(*final(doc)) == document_objects(*old(doc)).insert(
                resolve(document_objects(*old(doc)), id).unwrap(),
                Value::Dictionary(dictionary_entries(*final(d))),
            ),
            Err(_) => !(lookup(document_objects(*old(doc)), id) matches Some(
                Value::Dictionary(_),
            )) && document_objects(*final(doc)) == document_objects(*old(doc)),
        },
;

/// `Document::try_add_object`: the object is stored under the next object
/// number, generation 0, and that id is handed back; where the numbers are
/// used up, an error, and the document stays as it was.
#[verifier::external_body]
pub(crate) fn document_add(doc: &mut lopdf::Document, object: lopdf::Object) -> (r: Result<
    ObjectId,
    lopdf::Error,
>)
    ensures
        document_trailer(*final(doc)) == document_trailer(*old(doc)),
        match r {
            Ok(id) => document_max_id(*old(doc)) < u32::MAX && id == (
                (document_max_id(*old(doc)) + 1) as u32,
                0u16,
            ) && document_max_id(*final(doc)) == id.0 && document_objects(*final(doc))
                == document_objects(*old(doc)).insert(id, object_value(object)),
            Err(_) => document_max_id(*old(doc)) == u32::MAX && document_max_id(*final(doc))
                == u32::MAX && document_objects(*final(doc)) == document_objects(*old(doc)),
        },
{
    doc.try_add_object(object)
}

/// `Document::set_object`: the object is stored under the id, in place of
/// what was there; nothing else changes.
#[verifier::external_body]
pub(crate) fn document_set(doc: &mut lopdf::Document, id: ObjectId, object: lopdf::Object)
    ensures
        document_trailer(*final(doc)) == document_trailer(*old(doc)),
        document_max_id(*final(doc)) == document_max_id(*old(doc)),
        document_objects(*final(doc)) == document_objects(*old(doc)).insert(
            id,
            object_value(object),
        ),
{
    doc.set_object(id, object)
}

/// The field `max_id`: the highest object number that the document has
/// handed out.
#[verifier::external_body]
pub(crate) fn max_id_of(doc: &lopdf::Document) -> (max_id: u32)
    ensures
        max_id == document_max_id(*doc),
{
    doc.max_id
}

/// `BTreeMap::last_key_value` on the field `objects`, of which the object
/// number is handed back: the highest object number that an object of the
/// document has, or nothing where the document has no object. The map is
/// ordered by ids, and ids by their object numbers first.
#[verifier::external_body]
pub(crate) fn highest_number(doc: &lopdf::Document) -> (highest: Option<u32>)
    ensures
        match highest {
            Some(number) => (exists|id: ObjectId|
                document_objects(*doc).contains_key(id) && id.0 == number) && (forall|
                id: ObjectId,
            | #[trigger]
                document_objects(*doc).contains_key(id) ==> id.0 <= number),
            None => forall|id: ObjectId| !#[trigger] document_objects(*doc).contains_key(id),
        },
{
    doc.objects.last_key_value().map(|(id, _)| id.0)
}

/// `Document::get_pages`, as a list: the pages with their numbers, the
/// numbers ascending. The numbers count from 1, as long as they fit the
/// number type. The walk through the page tree reads the document's objects
/// and its trailer, and nothing else.
#[verifier::external_body]
pub(crate) fn document_page_list(doc: &lopdf::Document) -> (pages: Vec<(u32, ObjectId)>)
    ensures
        pages@ == enumerated_pages(document_objects(*doc), document_trailer(*doc)),
        forall|i: int, j: int| 0 <= i < j < pages@.len() ==> pages@[i].0 < pages@[j].0,
        pages@.len() <= u32::MAX ==> forall|i: int|
            0 <= i < pages@.len() ==> (#[trigger] pages@[i]).0 == i + 1,
{
    doc.get_pages().into_iter().collect()
}

/// The field `trailer`, read with `Dictionary::get`: the entry of the key,
/// exactly when the trailer has one.
#[verifier::external_body]
pub(crate) fn trailer_get<'a>(doc: &'a lopdf::Document, key: &[u8]) -> (r: Option<
    &'a lopdf::Object,
>)
    ensures
        match r {
            Some(o) => document_trailer(*doc).contains_key(key@) && document_trailer(*doc)[key@]
                == object_value(*o),
            None => !document_trailer(*doc).contains_key(key@),
        },
{
    doc.trailer.get(key).ok()
}

/// The field `trailer`, written with `Dictionary::set`: the key's entry is
/// the value afterwards; the other entries and the objects stay.
#[verifier::external_body]
pub(crate) fn trailer_set(doc: &mut lopdf::Document, key: &[u8], value: lopdf::Object)
    ensures
        document_trailer(*final(doc)) == document_trailer(*old(doc)).insert(
            key@,
            object_value(value),
        ),
        document_objects(*final(doc)) == document_objects(*old(doc)),
        document_max_id(*final(doc)) == document_max_id(*old(doc)),
{
    doc.trailer.set(key, value)
}

/// `String::from_utf8_lossy`: the decoded text. Bytes that are valid UTF-8
/// decode to the text that they encode; in other bytes each invalid sequence
/// is replaced, which the name stands for.
#[verifier::external_body]
pub(crate) fn lossy_text(bytes: &[u8]) -> (text: String)
    ensures
        text@ == if vstd::utf8::valid_utf8(bytes@) {
            vstd::utf8::decode_utf8(bytes@)
        } else {
            utf8_lossy(bytes@)
        },
{
    String::from_utf8_lossy(bytes).into_owned()
}

/// `str::trim`: the text without the white space at its ends.
#[verifier::external_body]
pub(crate) fn trim<'a>(text: &'a str) -> (r: &'a str)
    ensures
        r@ == trimmed(text@),
{
    text.trim()
}

/// `str::parse` to a real number, handed back as a real object; where the
/// text is no number, the error's message.
#[verifier::external_body]
pub(crate) fn parse_real(text: &str) -> (r: Result<lopdf::Object, String>)
    ensures
        match r {
            Ok(o) => real_parsed(text@) matches Ok(bits) && object_value(o) == Value::Real(bits),
            Err(reason) => real_parsed(text@) matches Err(message) && message == reason@,
        },
{
    match text.parse() {
        Ok(number) => Ok(lopdf::Object::Real(number)),
        Err(e) => Err(format!("{}", e)),
    }
}

/// `std::str::from_utf8`: whether the bytes are valid UTF-8.
#[verifier::external_body]
pub(crate) fn is_utf8(bytes: &[u8]) -> (r: bool)
    ensures
        r == vstd::utf8::valid_utf8(bytes@),
{
    std::str::from_utf8(bytes).is_ok()
}

} // verus!
