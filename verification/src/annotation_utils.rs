//! Reading and writing the fields of one annotation dictionary, finding an
//! annotation by its label, and listing an annotation on a page.

use crate::annotation::{BorderStyle, Color, Rect};
use crate::error::{Defect, LibError, Missing};
use crate::number::{in_unit_interval, is_non_negative, Real};
use crate::pdf::{
    array_object, decoded, dictionary_entries, dictionary_set, document_add, document_max_id,
    document_objects, document_page_list, document_pages, document_set, document_trailer,
    integer_as_real, key, lookup, lossy_text, object_value, reference_object, resolve,
    string_object, values_of, Notation, Value,
};
use lopdf::ObjectId;
use vstd::prelude::*;
use vstd::slice::slice_to_vec;

verus! {

/// The text of the string stored under a key, decoded leniently; `None`
/// where the key is missing or holds no string.
pub open spec fn text_at(entries: Map<Seq<u8>, Value>, k: Seq<u8>) -> Option<Seq<char>> {
    if entries.contains_key(k) {
        match entries[k] {
            Value::Text(bytes, _) => Some(decoded(bytes)),
            _ => None,
        }
    } else {
        None
    }
}

/// The view of an optional text.
pub open spec fn text_of(text: Option<String>) -> Option<Seq<char>> {
    match text {
        Some(text) => Some(text@),
        None => None,
    }
}

/// The label of an annotation: the text of `/T`.
pub open spec fn label_of(entries: Map<Seq<u8>, Value>) -> Option<Seq<char>> {
    text_at(entries, key("T"))
}

/// The contents of an annotation: the text of `/Contents`.
pub open spec fn contents_of(entries: Map<Seq<u8>, Value>) -> Option<Seq<char>> {
    text_at(entries, key("Contents"))
}

/// A text as a string object in literal notation.
pub open spec fn literal(text: Seq<char>) -> Value {
    Value::Text(vstd::utf8::encode_utf8(text), Notation::Literal)
}

/// An annotation's entries once its contents are set: `/Contents` holds the
/// text, the rich text `/RC` and the appearance `/AP` are gone.
pub open spec fn with_contents(entries: Map<Seq<u8>, Value>, text: Seq<char>) -> Map<
    Seq<u8>,
    Value,
> {
    entries.insert(key("Contents"), literal(text)).remove(key("RC")).remove(key("AP"))
}

/// The bit pattern of the real that a numeric value is read as.
pub open spec fn number_bits(v: Value) -> Option<u32> {
    match v {
        Value::Real(bits) => Some(bits),
        Value::Integer(i) => Some(integer_as_real(i)),
        _ => None,
    }
}

/// The rectangle of an annotation: the four numbers of the array `/Rect`.
pub open spec fn rect_of(entries: Map<Seq<u8>, Value>) -> Option<(u32, u32, u32, u32)> {
    if entries.contains_key(key("Rect")) {
        match entries[key("Rect")] {
            Value::Array(items) => if items.len() == 4 && number_bits(items[0]) is Some
                && number_bits(items[1]) is Some && number_bits(items[2]) is Some && number_bits(
                items[3],
            ) is Some {
                Some(
                    (
                        number_bits(items[0]).unwrap(),
                        number_bits(items[1]).unwrap(),
                        number_bits(items[2]).unwrap(),
                        number_bits(items[3]).unwrap(),
                    ),
                )
            } else {
                None
            },
            _ => None,
        }
    } else {
        None
    }
}

/// The color stored under a key: an array of three numbers, each between 0
/// and 1.
pub open spec fn color_of(entries: Map<Seq<u8>, Value>, k: Seq<u8>) -> Option<(u32, u32, u32)> {
    if entries.contains_key(k) {
        match entries[k] {
            Value::Array(items) => if items.len() == 3 && number_bits(items[0]) is Some
                && number_bits(items[1]) is Some && number_bits(items[2]) is Some
                && in_unit_interval(number_bits(items[0]).unwrap()) && in_unit_interval(
                number_bits(items[1]).unwrap(),
            ) && in_unit_interval(number_bits(items[2]).unwrap()) {
                Some(
                    (
                        number_bits(items[0]).unwrap(),
                        number_bits(items[1]).unwrap(),
                        number_bits(items[2]).unwrap(),
                    ),
                )
            } else {
                None
            },
            _ => None,
        }
    } else {
        None
    }
}

/// The width that the border style dictionary `/BS` gives under `/W`, if it
/// is a number and not negative.
pub open spec fn style_width(entries: Map<Seq<u8>, Value>) -> Option<u32> {
    if entries.contains_key(key("BS")) {
        match entries[key("BS")] {
            Value::Dictionary(style) => if style.contains_key(key("W")) && number_bits(
                style[key("W")],
            ) is Some && is_non_negative(number_bits(style[key("W")]).unwrap()) {
                number_bits(style[key("W")])
            } else {
                None
            },
            _ => None,
        }
    } else {
        None
    }
}

/// The width that the array `/Border` gives as its third element, if it is a
/// number and not negative.
pub open spec fn legacy_width(entries: Map<Seq<u8>, Value>) -> Option<u32> {
    if entries.contains_key(key("Border")) {
        match entries[key("Border")] {
            Value::Array(items) => if items.len() >= 3 && number_bits(items[2]) is Some
                && is_non_negative(number_bits(items[2]).unwrap()) {
                number_bits(items[2])
            } else {
                None
            },
            _ => None,
        }
    } else {
        None
    }
}

/// The border width of an annotation: that of `/BS` where it gives one, else
/// that of `/Border`.
pub open spec fn border_of(entries: Map<Seq<u8>, Value>) -> Option<u32> {
    if style_width(entries) is Some {
        style_width(entries)
    } else {
        legacy_width(entries)
    }
}

/// The text of the string under `name`, decoded leniently.
pub(crate) fn text_entry(dict: &lopdf::Dictionary, name: &str) -> (r: Option<String>)
    ensures
        text_of(r) == text_at(dictionary_entries(*dict), key(name)),
{
    match dict.get(name.as_bytes()) {
        Ok(object) => match object.as_str() {
            Ok(bytes) => Some(lossy_text(bytes)),
            Err(_) => None,
        },
        Err(_) => None,
    }
}

/// The label of an annotation, where `/T` is a string.
pub fn get_annotation_label(dict: &lopdf::Dictionary) -> (r: Option<String>)
    ensures
        match r {
            Some(text) => label_of(dictionary_entries(*dict)) == Some(text@),
            None => label_of(dictionary_entries(*dict)) is None,
        },
{
    text_entry(dict, "T")
}

/// Writes the label of an annotation: `/T` as a literal string.
pub fn set_annotation_label(dict: &mut lopdf::Dictionary, label: &str)
    ensures
        dictionary_entries(*final(dict)) == dictionary_entries(*old(dict)).insert(
            key("T"),
            literal(label@),
        ),
{
    dictionary_set(dict, "T".as_bytes(), string_object(slice_to_vec(label.as_bytes())));
}

/// The contents of an annotation, where `/Contents` is a string.
pub fn get_annotation_contents(dict: &lopdf::Dictionary) -> (r: Option<String>)
    ensures
        match r {
            Some(text) => contents_of(dictionary_entries(*dict)) == Some(text@),
            None => contents_of(dictionary_entries(*dict)) is None,
        },
{
    text_entry(dict, "Contents")
}

/// Writes the contents of an annotation as a literal string, and removes the
/// rich text and the appearance stream, so that a viewer renders the new
/// text.
pub fn set_annotation_contents(dict: &mut lopdf::Dictionary, contents: &str)
    ensures
        dictionary_entries(*final(dict)) == with_contents(
            dictionary_entries(*old(dict)),
            contents@,
        ),
{
    dictionary_set(dict, "Contents".as_bytes(), string_object(slice_to_vec(contents.as_bytes())));
    dict.remove("RC".as_bytes());
    dict.remove("AP".as_bytes());
}

/// The rectangle of an annotation. Integers are read as reals.
pub fn get_annotation_rect(dict: &lopdf::Dictionary) -> (r: Result<Rect, LibError>)
    ensures
        match r {
            Ok(rect) => rect_of(dictionary_entries(*dict)) == Some(rect.bits()),
            Err(e) => rect_of(dictionary_entries(*dict)) is None && e matches LibError::Malformed(
                Defect::Rect,
            ),
        },
{
    let object = match dict.get("Rect".as_bytes()) {
        Ok(object) => object,
        Err(_) => return Err(LibError::Malformed(Defect::Rect)),
    };
    let items = match object.as_array() {
        Ok(items) => items,
        Err(_) => return Err(LibError::Malformed(Defect::Rect)),
    };
    if items.len() != 4 {
        return Err(LibError::Malformed(Defect::Rect));
    }
    let x1 = Real::from_number(&items[0]);
    let y1 = Real::from_number(&items[1]);
    let x2 = Real::from_number(&items[2]);
    let y2 = Real::from_number(&items[3]);
    match (x1, y1, x2, y2) {
        (Some(x1), Some(y1), Some(x2), Some(y2)) => Ok(Rect { x1, y1, x2, y2 }),
        _ => Err(LibError::Malformed(Defect::Rect)),
    }
}

/// Whether a value is a color component: a real between 0 and 1, or one of
/// the integers 0 and 1.
pub open spec fn is_component(v: Value) -> bool {
    match v {
        Value::Real(bits) => in_unit_interval(bits),
        Value::Integer(i) => i == 0 || i == 1,
        _ => false,
    }
}

/// Whether an array of three color components is stored under a key.
pub open spec fn holds_color(entries: Map<Seq<u8>, Value>, k: Seq<u8>) -> bool {
    entries.contains_key(k) && (match entries[k] {
        Value::Array(items) => items.len() == 3 && is_component(items[0]) && is_component(
            items[1],
        ) && is_component(items[2]),
        _ => false,
    })
}

/// The color stored under `name` (`/C` for the border, `/IC` for the
/// interior): `None` unless it is an array of three numbers that all lie
/// between 0 and 1. Of the integers, these are 0 and 1.
pub fn extract_color_property(dict: &lopdf::Dictionary, name: &[u8]) -> (r: Option<Color>)
    ensures
        match r {
            Some(color) => color_of(dictionary_entries(*dict), name@) == Some(color.bits()),
            None => color_of(dictionary_entries(*dict), name@) is None,
        },
        r is Some == holds_color(dictionary_entries(*dict), name@),
{
    let object = match dict.get(name) {
        Ok(object) => object,
        Err(_) => return None,
    };
    let items = match object.as_array() {
        Ok(items) => items,
        Err(_) => return None,
    };
    if items.len() != 3 {
        return None;
    }
    let r = Real::from_number(&items[0]);
    let g = Real::from_number(&items[1]);
    let b = Real::from_number(&items[2]);
    match (r, g, b) {
        (Some(r), Some(g), Some(b)) => {
            if r.is_unit() && g.is_unit() && b.is_unit() {
                Some(Color { r, g, b })
            } else {
                None
            }
        },
        _ => None,
    }
}

/// The width under `/W` of the border style dictionary.
fn extract_style_width(dict: &lopdf::Dictionary) -> (r: Option<Real>)
    ensures
        match r {
            Some(width) => style_width(dictionary_entries(*dict)) == Some(width.bits()),
            None => style_width(dictionary_entries(*dict)) is None,
        },
{
    let object = match dict.get("BS".as_bytes()) {
        Ok(object) => object,
        Err(_) => return None,
    };
    let style = match object.as_dict() {
        Ok(style) => style,
        Err(_) => return None,
    };
    let number = match style.get("W".as_bytes()) {
        Ok(number) => number,
        Err(_) => return None,
    };
    match Real::from_number(number) {
        Some(width) => if width.is_non_negative() {
            Some(width)
        } else {
            None
        },
        None => None,
    }
}

/// The width in the third place of the `/Border` array.
fn extract_legacy_width(dict: &lopdf::Dictionary) -> (r: Option<Real>)
    ensures
        match r {
            Some(width) => legacy_width(dictionary_entries(*dict)) == Some(width.bits()),
            None => legacy_width(dictionary_entries(*dict)) is None,
        },
{
    let object = match dict.get("Border".as_bytes()) {
        Ok(object) => object,
        Err(_) => return None,
    };
    let items = match object.as_array() {
        Ok(items) => items,
        Err(_) => return None,
    };
    if items.len() < 3 {
        return None;
    }
    match Real::from_number(&items[2]) {
        Some(width) => if width.is_non_negative() {
            Some(width)
        } else {
            None
        },
        None => None,
    }
}

/// The border style of an annotation: the width that `/BS` gives under
/// `/W`, else the third element of `/Border`; negative widths do not count.
pub fn extract_border_style_property(dict: &lopdf::Dictionary) -> (r: Option<BorderStyle>)
    ensures
        match r {
            Some(style) => border_of(dictionary_entries(*dict)) == Some(style.width.bits()),
            None => border_of(dictionary_entries(*dict)) is None,
        },
{
    match extract_style_width(dict) {
        Some(width) => Some(BorderStyle { width }),
        None => match extract_legacy_width(dict) {
            Some(width) => Some(BorderStyle { width }),
            None => None,
        },
    }
}

/// The ids that the references among the items point to, in order.
pub open spec fn references_in(items: Seq<Value>) -> Seq<ObjectId>
    decreases items.len(),
{
    if items.len() == 0 {
        Seq::empty()
    } else {
        let rest = references_in(items.drop_last());
        match items.last() {
            Value::Reference(id) => rest.push(id),
            _ => rest,
        }
    }
}

/// What a page lists as its annotations.
pub enum Listing {
    /// The ids that the page's annotation array refers to, in order.
    Listed(Seq<ObjectId>),
    /// `/Annots` is a reference that cannot be followed.
    Broken,
}

/// The annotations that a page dictionary lists. `/Annots` may be an array
/// or a reference to one; a page without it, or with anything else there,
/// lists nothing.
pub open spec fn listing_of(objects: Map<ObjectId, Value>, page: Map<Seq<u8>, Value>) -> Listing {
    if page.contains_key(key("Annots")) {
        match page[key("Annots")] {
            Value::Array(items) => Listing::Listed(references_in(items)),
            Value::Reference(id) => match lookup(objects, id) {
                Some(Value::Array(items)) => Listing::Listed(references_in(items)),
                Some(_) => Listing::Listed(Seq::empty()),
                None => Listing::Broken,
            },
            _ => Listing::Listed(Seq::empty()),
        }
    } else {
        Listing::Listed(Seq::empty())
    }
}

/// Whether the id stands for a dictionary whose label is the given text.
pub open spec fn is_labeled(objects: Map<ObjectId, Value>, id: ObjectId, label: Seq<char>) -> bool {
    match lookup(objects, id) {
        Some(Value::Dictionary(entries)) => label_of(entries) == Some(label),
        _ => false,
    }
}

/// The first of the ids that carries the label.
pub open spec fn first_labeled(
    objects: Map<ObjectId, Value>,
    ids: Seq<ObjectId>,
    label: Seq<char>,
) -> Option<ObjectId>
    decreases ids.len(),
{
    if ids.len() == 0 {
        None
    } else if is_labeled(objects, ids[0], label) {
        Some(ids[0])
    } else {
        first_labeled(objects, ids.drop_first(), label)
    }
}

/// How a search for a label ends.
pub enum Search {
    /// The annotation with this id, on the page of this number, is the first
    /// to carry the label.
    Found(ObjectId, u32),
    /// No annotation carries the label.
    Absent,
    /// A page, or the annotation array of a page, could not be fetched
    /// before the label was found.
    Failed,
}

/// The search for a label through the pages in order, and on each page
/// through the annotations it lists, in order. A page that is no dictionary
/// is passed over.
pub open spec fn search(
    objects: Map<ObjectId, Value>,
    pages: Seq<(u32, ObjectId)>,
    label: Seq<char>,
) -> Search
    decreases pages.len(),
{
    if pages.len() == 0 {
        Search::Absent
    } else {
        match lookup(objects, pages[0].1) {
            None => Search::Failed,
            Some(Value::Dictionary(page)) => match listing_of(objects, page) {
                Listing::Broken => Search::Failed,
                Listing::Listed(ids) => match first_labeled(objects, ids, label) {
                    Some(id) => Search::Found(id, pages[0].0),
                    None => search(objects, pages.drop_first(), label),
                },
            },
            Some(_) => search(objects, pages.drop_first(), label),
        }
    }
}

/// The ids that the references in an array point to.
fn collect_references(items: &Vec<lopdf::Object>) -> (ids: Vec<ObjectId>)
    ensures
        ids@ == references_in(values_of(items@)),
{
    let mut ids: Vec<ObjectId> = Vec::new();
    let mut i: usize = 0;
    while i < items.len()
        invariant
            i <= items.len(),
            ids@ == references_in(values_of(items@.take(i as int))),
        decreases items.len() - i,
    {
        proof {
            let next = items@.take(i + 1);
            assert(values_of(next).drop_last() =~= values_of(items@.take(i as int)));
            assert(values_of(next).last() == object_value(items@[i as int]));
        }
        match items[i].as_reference() {
            Ok(id) => ids.push(id),
            Err(_) => {},
        }
        i += 1;
    }
    proof {
        assert(items@.take(i as int) =~= items@);
    }
    ids
}

/// The annotations that a page lists.
fn list_annotations(doc: &lopdf::Document, page: &lopdf::Dictionary) -> (r: Result<
    Vec<ObjectId>,
    lopdf::Error,
>)
    ensures
        match r {
            Ok(ids) => listing_of(document_objects(*doc), dictionary_entries(*page))
                == Listing::Listed(ids@),
            Err(_) => listing_of(document_objects(*doc), dictionary_entries(*page))
                == Listing::Broken,
        },
{
    match page.get("Annots".as_bytes()) {
        Ok(annots) => match annots.as_array() {
            Ok(items) => Ok(collect_references(items)),
            Err(_) => match annots.as_reference() {
                Ok(id) => match doc.get_object(id) {
                    Ok(target) => match target.as_array() {
                        Ok(items) => Ok(collect_references(items)),
                        Err(_) => Ok(Vec::new()),
                    },
                    Err(e) => Err(e),
                },
                Err(_) => Ok(Vec::new()),
            },
        },
        Err(_) => Ok(Vec::new()),
    }
}

/// Whether the id stands for a dictionary that carries the label.
fn carries_label(doc: &lopdf::Document, id: ObjectId, label: &String) -> (r: bool)
    ensures
        r == is_labeled(document_objects(*doc), id, label@),
{
    match doc.get_object(id) {
        Ok(object) => match object.as_dict() {
            Ok(dict) => match get_annotation_label(dict) {
                Some(text) => text == *label,
                None => false,
            },
            Err(_) => false,
        },
        Err(_) => false,
    }
}

/// The first of the ids that carries the label.
fn find_among(doc: &lopdf::Document, ids: &Vec<ObjectId>, label: &String) -> (r: Option<ObjectId>)
    ensures
        r == first_labeled(document_objects(*doc), ids@, label@),
{
    let mut i: usize = 0;
    proof {
        assert(ids@.skip(0) =~= ids@);
    }
    while i < ids.len()
        invariant
            i <= ids.len(),
            first_labeled(document_objects(*doc), ids@, label@) == first_labeled(
                document_objects(*doc),
                ids@.skip(i as int),
                label@,
            ),
        decreases ids.len() - i,
    {
        proof {
            assert(ids@.skip(i as int).drop_first() =~= ids@.skip(i + 1));
        }
        if carries_label(doc, ids[i], label) {
            return Some(ids[i]);
        }
        i += 1;
    }
    None
}

/// The pages of a document in page order, each with its number, as the
/// document enumerates them now: the numbers ascend, and count from 1 as
/// long as they fit the number type. A caller that enumerates once and hands
/// the list to the functions that take one sees every operation work on the
/// same pages.
pub fn page_list(doc: &lopdf::Document) -> (pages: Vec<(u32, ObjectId)>)
    ensures
        pages@ == document_pages(*doc),
        forall|i: int, j: int| 0 <= i < j < pages@.len() ==> pages@[i].0 < pages@[j].0,
        pages@.len() <= u32::MAX ==> forall|i: int|
            0 <= i < pages@.len() ==> (#[trigger] pages@[i]).0 == i + 1,
{
    document_page_list(doc)
}

/// Whether the list is the pages of the document as it enumerates them
/// now. After a document was written to, this tells whether a list that was
/// taken before still holds.
pub fn is_page_list(doc: &lopdf::Document, pages: &Vec<(u32, ObjectId)>) -> (r: bool)
    ensures
        r == (pages@ == document_pages(*doc)),
{
    let now = document_page_list(doc);
    if now.len() != pages.len() {
        return false;
    }
    let mut i: usize = 0;
    while i < now.len()
        invariant
            i <= now.len(),
            now.len() == pages.len(),
            now@ == document_pages(*doc),
            forall|j: int| 0 <= j < i ==> now@[j] == pages@[j],
        decreases now.len() - i,
    {
        if now[i].0 != pages[i].0 || now[i].1.0 != pages[i].1.0 || now[i].1.1 != pages[i].1.1 {
            return false;
        }
        i += 1;
    }
    proof {
        assert(now@ =~= pages@);
    }
    true
}

/// Finds the first annotation whose label is the given text among the given
/// pages, going through the pages in the order of the list and through each
/// page's annotations in the order they are listed. Returns the
/// annotation's id and the number of its page, `None` where no annotation
/// carries the label, and the object library's error where a page or its
/// annotation array could not be fetched before the label was found.
pub fn find_annotation_in_pages(
    doc: &lopdf::Document,
    pages: &Vec<(u32, ObjectId)>,
    label: &str,
) -> (r: Result<Option<(ObjectId, u32)>, LibError>)
    ensures
        match r {
            Ok(Some((id, page))) => search(document_objects(*doc), pages@, label@)
                == Search::Found(id, page),
            Ok(None) => search(document_objects(*doc), pages@, label@) == Search::Absent,
            Err(e) => search(document_objects(*doc), pages@, label@) == Search::Failed && e is Pdf,
        },
{
    let wanted = label.to_owned();
    let mut i: usize = 0;
    proof {
        assert(pages@.skip(0) =~= pages@);
    }
    while i < pages.len()
        invariant
            i <= pages.len(),
            wanted@ == label@,
            search(document_objects(*doc), pages@, label@) == search(
                document_objects(*doc),
                pages@.skip(i as int),
                label@,
            ),
        decreases pages.len() - i,
    {
        proof {
            assert(pages@.skip(i as int).drop_first() =~= pages@.skip(i + 1));
        }
        let (number, page_id) = pages[i];
        let page = match doc.get_object(page_id) {
            Ok(object) => object,
            Err(e) => return Err(LibError::Pdf(e)),
        };
        match page.as_dict() {
            Ok(dict) => {
                let ids = match list_annotations(doc, dict) {
                    Ok(ids) => ids,
                    Err(e) => return Err(LibError::Pdf(e)),
                };
                match find_among(doc, &ids, &wanted) {
                    Some(id) => return Ok(Some((id, number))),
                    None => {},
                }
            },
            Err(_) => {},
        }
        i += 1;
    }
    Ok(None)
}

/// Finds the first annotation whose label is the given text, going through
/// the pages in ascending order and through each page's annotations in the
/// order they are listed. Returns the annotation's id and the number of its
/// page, `None` where no annotation carries the label, and the object
/// library's error where a page or its annotation array could not be
/// fetched before the label was found.
pub fn find_annotation_by_label(doc: &lopdf::Document, label: &str) -> (r: Result<
    Option<(ObjectId, u32)>,
    LibError,
>)
    ensures
        match r {
            Ok(Some((id, page))) => search(document_objects(*doc), document_pages(*doc), label@)
                == Search::Found(id, page),
            Ok(None) => search(document_objects(*doc), document_pages(*doc), label@)
                == Search::Absent,
            Err(e) => search(document_objects(*doc), document_pages(*doc), label@)
                == Search::Failed && e is Pdf,
        },
{
    let pages = page_list(doc);
    find_annotation_in_pages(doc, &pages, label)
}

/// The dictionary that an id stands for, as a copy.
pub fn get_annotation_dict(doc: &lopdf::Document, obj_id: ObjectId) -> (r: Result<
    lopdf::Dictionary,
    LibError,
>)
    ensures
        match r {
            Ok(dict) => lookup(document_objects(*doc), obj_id) == Some(
                Value::Dictionary(dictionary_entries(dict)),
            ),
            Err(LibError::Pdf(_)) => lookup(document_objects(*doc), obj_id) is None,
            Err(LibError::Malformed(Defect::NotDictionary(id))) => id == obj_id && lookup(
                document_objects(*doc),
                obj_id,
            ) is Some && !(lookup(document_objects(*doc), obj_id).unwrap() is Dictionary),
            Err(_) => false,
        },
{
    match doc.get_object(obj_id) {
        Ok(object) => match object.as_dict() {
            Ok(dict) => Ok(dict.clone()),
            Err(_) => Err(LibError::Malformed(Defect::NotDictionary(obj_id))),
        },
        Err(e) => Err(LibError::Pdf(e)),
    }
}

/// The id of the page with the given number.
pub open spec fn page_with_number(pages: Seq<(u32, ObjectId)>, number: u32) -> Option<ObjectId>
    decreases pages.len(),
{
    if pages.len() == 0 {
        None
    } else if pages[0].0 == number {
        Some(pages[0].1)
    } else {
        page_with_number(pages.drop_first(), number)
    }
}

/// Why an annotation could not be listed on a page.
pub enum Failure {
    /// The document has no page of the number.
    PageMissing,
    /// The page, or the array that its `/Annots` refers to, could not be
    /// fetched, or the document has no object number left for a new array.
    Fetch,
    /// What the page's id stands for is no dictionary.
    PageNotDictionary,
    /// `/Annots` is neither an array nor a reference.
    AnnotsShape,
}

/// A document after an attempt to list an annotation on a page.
pub struct Outcome {
    /// The document's objects.
    pub objects: Map<ObjectId, Value>,
    /// The highest object number handed out.
    pub max_id: u32,
    /// Why the annotation is not listed, if it is not.
    pub failure: Option<Failure>,
}

/// An array that holds one reference.
pub open spec fn single_reference(annotation: ObjectId) -> Value {
    Value::Array(seq![Value::Reference(annotation)])
}

/// A page dictionary stored back with a new `/Annots` entry.
pub open spec fn with_annots(
    objects: Map<ObjectId, Value>,
    page_id: ObjectId,
    page: Map<Seq<u8>, Value>,
    annots: Value,
) -> Map<ObjectId, Value> {
    objects.insert(
        resolve(objects, page_id).unwrap(),
        Value::Dictionary(page.insert(key("Annots"), annots)),
    )
}

/// Giving a page an annotation array as an object of its own: the array is
/// stored under the next id, and the page's `/Annots` refers to it.
pub open spec fn linked_array(
    objects: Map<ObjectId, Value>,
    max_id: u32,
    page_id: ObjectId,
    array: Value,
) -> Outcome {
    if max_id == u32::MAX {
        Outcome { objects, max_id, failure: Some(Failure::Fetch) }
    } else {
        let array_id = ((max_id + 1) as u32, 0u16);
        let added = objects.insert(array_id, array);
        match lookup(added, page_id) {
            Some(Value::Dictionary(page)) => Outcome {
                objects: with_annots(added, page_id, page, Value::Reference(array_id)),
                max_id: array_id.0,
                failure: None,
            },
            _ => Outcome {
                objects: added,
                max_id: array_id.0,
                failure: Some(Failure::PageNotDictionary),
            },
        }
    }
}

/// Listing an annotation on a page that has no `/Annots` yet: a new array
/// that holds the reference becomes an object of its own, and the page
/// refers to it.
pub open spec fn splice_new(
    objects: Map<ObjectId, Value>,
    max_id: u32,
    page_id: ObjectId,
    annotation: ObjectId,
) -> Outcome {
    linked_array(objects, max_id, page_id, single_reference(annotation))
}

/// Listing an annotation on a page that holds its annotation array in its
/// own dictionary: the array, with the reference appended, becomes an object
/// of its own, and the page refers to it.
pub open spec fn splice_direct(
    objects: Map<ObjectId, Value>,
    max_id: u32,
    page_id: ObjectId,
    items: Seq<Value>,
    annotation: ObjectId,
) -> Outcome {
    linked_array(
        objects,
        max_id,
        page_id,
        Value::Array(items.push(Value::Reference(annotation))),
    )
}

/// Listing an annotation on a page whose `/Annots` refers to `array_id`: the
/// array there gets the reference appended; where the id stands for
/// something else, it is replaced by an array that holds the reference.
pub open spec fn splice_referenced(
    objects: Map<ObjectId, Value>,
    max_id: u32,
    array_id: ObjectId,
    annotation: ObjectId,
) -> Outcome {
    match lookup(objects, array_id) {
        None => Outcome { objects, max_id, failure: Some(Failure::Fetch) },
        Some(Value::Array(items)) => Outcome {
            objects: objects.insert(
                array_id,
                Value::Array(items.push(Value::Reference(annotation))),
            ),
            max_id,
            failure: None,
        },
        Some(_) => Outcome {
            objects: objects.insert(array_id, single_reference(annotation)),
            max_id,
            failure: None,
        },
    }
}

/// Listing an annotation on the page with the given id. Whatever shape the
/// page's `/Annots` had, it is afterwards a reference to an array.
pub open spec fn splice_on(
    objects: Map<ObjectId, Value>,
    max_id: u32,
    page_id: ObjectId,
    annotation: ObjectId,
) -> Outcome {
    match lookup(objects, page_id) {
        None => Outcome { objects, max_id, failure: Some(Failure::Fetch) },
        Some(Value::Dictionary(page)) => if !page.contains_key(key("Annots")) {
            splice_new(objects, max_id, page_id, annotation)
        } else {
            match page[key("Annots")] {
                Value::Array(items) => splice_direct(objects, max_id, page_id, items, annotation),
                Value::Reference(array_id) => splice_referenced(
                    objects,
                    max_id,
                    array_id,
                    annotation,
                ),
                _ => Outcome { objects, max_id, failure: Some(Failure::AnnotsShape) },
            }
        },
        Some(_) => Outcome { objects, max_id, failure: Some(Failure::PageNotDictionary) },
    }
}

/// Listing an annotation on the page with the given number.
pub open spec fn splice(
    objects: Map<ObjectId, Value>,
    max_id: u32,
    pages: Seq<(u32, ObjectId)>,
    number: u32,
    annotation: ObjectId,
) -> Outcome {
    match page_with_number(pages, number) {
        None => Outcome { objects, max_id, failure: Some(Failure::PageMissing) },
        Some(page_id) => splice_on(objects, max_id, page_id, annotation),
    }
}

/// Whether an error reports the failure, for a page of the given number and
/// id.
pub open spec fn reports(
    e: LibError,
    failure: Failure,
    number: u32,
    page_id: Option<ObjectId>,
) -> bool {
    match failure {
        Failure::PageMissing => e matches LibError::NotFound(Missing::Page(n)) && n == number,
        Failure::Fetch => e is Pdf,
        Failure::PageNotDictionary => e matches LibError::Malformed(Defect::NotDictionary(id))
            && Some(id) == page_id,
        Failure::AnnotsShape => e matches LibError::Malformed(Defect::Annots(n)) && n == number,
    }
}

/// The id of the page with the given number.
pub fn page_id_of(pages: &Vec<(u32, ObjectId)>, number: u32) -> (r: Option<ObjectId>)
    ensures
        r == page_with_number(pages@, number),
{
    let mut i: usize = 0;
    proof {
        assert(pages@.skip(0) =~= pages@);
    }
    while i < pages.len()
        invariant
            i <= pages.len(),
            page_with_number(pages@, number) == page_with_number(pages@.skip(i as int), number),
        decreases pages.len() - i,
    {
        proof {
            assert(pages@.skip(i as int).drop_first() =~= pages@.skip(i + 1));
        }
        if pages[i].0 == number {
            return Some(pages[i].1);
        }
        i += 1;
    }
    None
}

/// The objects of an array, copied, with one reference appended.
pub(crate) fn extended(items: &Vec<lopdf::Object>, annotation: ObjectId) -> (r: Vec<lopdf::Object>)
    ensures
        values_of(r@) == values_of(items@).push(Value::Reference(annotation)),
{
    let mut copy: Vec<lopdf::Object> = Vec::new();
    let mut i: usize = 0;
    while i < items.len()
        invariant
            i <= items.len(),
            copy@.len() == i,
            values_of(copy@) == values_of(items@.take(i as int)),
        decreases items.len() - i,
    {
        let ghost before = copy@;
        copy.push(items[i].clone());
        proof {
            assert forall|j: int| 0 <= j < copy@.len() implies values_of(copy@)[j] == values_of(
                items@.take(i + 1),
            )[j] by {
                if j < i {
                    assert(values_of(before)[j] == values_of(items@.take(i as int))[j]);
                }
            }
            assert(values_of(copy@) =~= values_of(items@.take(i + 1)));
        }
        i += 1;
    }
    copy.push(reference_object(annotation));
    proof {
        assert(items@.take(i as int) =~= items@);
        assert(values_of(copy@) =~= values_of(items@).push(Value::Reference(annotation)));
    }
    copy
}

/// An array that holds one reference.
pub(crate) fn single(annotation: ObjectId) -> (r: Vec<lopdf::Object>)
    ensures
        values_of(r@) == seq![Value::Reference(annotation)],
{
    let mut items: Vec<lopdf::Object> = Vec::new();
    items.push(reference_object(annotation));
    proof {
        assert(values_of(items@) =~= seq![Value::Reference(annotation)]);
    }
    items
}

/// Where the annotation array of a page is to be written.
enum Annots {
    /// Into a new object: the array that the page held in its own
    /// dictionary, or none, with the reference appended.
    Fresh(Vec<lopdf::Object>),
    /// Under the id that the page refers to.
    Referenced(ObjectId),
}

/// Reads a page's `/Annots` entry and, where the page holds the array itself
/// or has none, makes the array that is to become an object.
fn read_annots(
    doc: &lopdf::Document,
    page_id: ObjectId,
    number: u32,
    annotation: ObjectId,
) -> (r: Result<Annots, LibError>)
    ensures
        match lookup(document_objects(*doc), page_id) {
            None => r matches Err(e) && e is Pdf,
            Some(Value::Dictionary(page)) => if !page.contains_key(key("Annots")) {
                r matches Ok(Annots::Fresh(array)) && Value::Array(values_of(array@))
                    == single_reference(annotation)
            } else {
                match page[key("Annots")] {
                    Value::Array(items) => r matches Ok(Annots::Fresh(array)) && values_of(array@)
                        == items.push(Value::Reference(annotation)),
                    Value::Reference(array_id) => r matches Ok(Annots::Referenced(id)) && id
                        == array_id,
                    _ => r matches Err(e) && reports(e, Failure::AnnotsShape, number, None),
                }
            },
            Some(_) => r matches Err(e) && reports(
                e,
                Failure::PageNotDictionary,
                number,
                Some(page_id),
            ),
        },
{
    let object = match doc.get_object(page_id) {
        Ok(object) => object,
        Err(e) => return Err(LibError::Pdf(e)),
    };
    let page = match object.as_dict() {
        Ok(page) => page,
        Err(_) => return Err(LibError::Malformed(Defect::NotDictionary(page_id))),
    };
    match page.get("Annots".as_bytes()) {
        Ok(annots) => match annots.as_array() {
            Ok(items) => Ok(Annots::Fresh(extended(items, annotation))),
            Err(_) => match annots.as_reference() {
                Ok(array_id) => Ok(Annots::Referenced(array_id)),
                Err(_) => Err(LibError::Malformed(Defect::Annots(number))),
            },
        },
        Err(_) => Ok(Annots::Fresh(single(annotation))),
    }
}

/// Gives a page an annotation array as an object of its own.
pub(crate) fn link_array(
    doc: &mut lopdf::Document,
    page_id: ObjectId,
    array: Vec<lopdf::Object>,
) -> (r: Result<(), LibError>)
    ensures
        document_trailer(*final(doc)) == document_trailer(*old(doc)),
        ({
            let outcome = linked_array(
                document_objects(*old(doc)),
                document_max_id(*old(doc)),
                page_id,
                Value::Array(values_of(array@)),
            );
            &&& document_objects(*final(doc)) == outcome.objects
            &&& document_max_id(*final(doc)) == outcome.max_id
            &&& match r {
                Ok(()) => outcome.failure is None,
                Err(LibError::Pdf(_)) => outcome.failure == Some(Failure::Fetch),
                Err(LibError::Malformed(Defect::NotDictionary(id))) => id == page_id
                    && outcome.failure == Some(Failure::PageNotDictionary),
                Err(_) => false,
            }
        }),
{
    let array_id = match document_add(doc, array_object(array)) {
        Ok(array_id) => array_id,
        Err(e) => return Err(LibError::Pdf(e)),
    };
    match doc.get_dictionary_mut(page_id) {
        Ok(page) => {
            dictionary_set(page, "Annots".as_bytes(), reference_object(array_id));
            Ok(())
        },
        Err(_) => Err(LibError::Malformed(Defect::NotDictionary(page_id))),
    }
}

/// Why an annotation cannot be listed on a page as the document stands,
/// if it cannot: the page cannot be fetched or is no dictionary, or its
/// `/Annots` is neither an array nor a reference, or refers to nothing.
pub open spec fn refusal(objects: Map<ObjectId, Value>, page_id: ObjectId) -> Option<Failure> {
    match lookup(objects, page_id) {
        None => Some(Failure::Fetch),
        Some(Value::Dictionary(page)) => if !page.contains_key(key("Annots")) {
            None
        } else {
            match page[key("Annots")] {
                Value::Array(_) => None,
                Value::Reference(array_id) => if lookup(objects, array_id) is None {
                    Some(Failure::Fetch)
                } else {
                    None
                },
                _ => Some(Failure::AnnotsShape),
            }
        },
        Some(_) => Some(Failure::PageNotDictionary),
    }
}

/// Tells whether an annotation can be listed on a page as the document
/// stands, before anything is written.
pub(crate) fn check_page(doc: &lopdf::Document, page_id: ObjectId, number: u32) -> (r: Result<
    (),
    LibError,
>)
    ensures
        match refusal(document_objects(*doc), page_id) {
            None => r is Ok,
            Some(failure) => r matches Err(e) && reports(e, failure, number, Some(page_id)),
        },
{
    let object = match doc.get_object(page_id) {
        Ok(object) => object,
        Err(e) => return Err(LibError::Pdf(e)),
    };
    let page = match object.as_dict() {
        Ok(page) => page,
        Err(_) => return Err(LibError::Malformed(Defect::NotDictionary(page_id))),
    };
    match page.get("Annots".as_bytes()) {
        Ok(annots) => match annots.as_array() {
            Ok(_) => Ok(()),
            Err(_) => match annots.as_reference() {
                Ok(array_id) => match doc.get_object(array_id) {
                    Ok(_) => Ok(()),
                    Err(e) => Err(LibError::Pdf(e)),
                },
                Err(_) => Err(LibError::Malformed(Defect::Annots(number))),
            },
        },
        Err(_) => Ok(()),
    }
}

/// Lists an annotation on the page with the given id, as
/// `add_annotation_to_page` does on the page with a given number. The
/// number only names the page in an error.
pub fn splice_at(
    doc: &mut lopdf::Document,
    page_id: ObjectId,
    page_num: u32,
    annotation: ObjectId,
) -> (r: Result<(), LibError>)
    ensures
        document_trailer(*final(doc)) == document_trailer(*old(doc)),
        refusal(document_objects(*old(doc)), page_id) is Some ==> *final(doc) == *old(doc),
        ({
            let outcome = splice_on(
                document_objects(*old(doc)),
                document_max_id(*old(doc)),
                page_id,
                annotation,
            );
            &&& document_objects(*final(doc)) == outcome.objects
            &&& document_max_id(*final(doc)) == outcome.max_id
            &&& match r {
                Ok(()) => outcome.failure is None,
                Err(e) => outcome.failure is Some && outcome.failure != Some(Failure::PageMissing)
                    && reports(e, outcome.failure.unwrap(), page_num, Some(page_id)),
            }
        }),
{
    match read_annots(doc, page_id, page_num, annotation)? {
        Annots::Fresh(array) => link_array(doc, page_id, array),
        Annots::Referenced(array_id) => {
            let items = match doc.get_object(array_id) {
                Ok(target) => match target.as_array() {
                    Ok(items) => extended(items, annotation),
                    Err(_) => single(annotation),
                },
                Err(e) => return Err(LibError::Pdf(e)),
            };
            document_set(doc, array_id, array_object(items));
            Ok(())
        },
    }
}

/// Lists an annotation on the page that has the given number in the given
/// list of pages, as `add_annotation_to_page` does on a page of the
/// document's own enumeration.
pub fn add_annotation_in_pages(
    doc: &mut lopdf::Document,
    pages: &Vec<(u32, ObjectId)>,
    page_num: u32,
    annotation_ref_id: ObjectId,
) -> (r: Result<(), LibError>)
    ensures
        document_trailer(*final(doc)) == document_trailer(*old(doc)),
        match page_with_number(pages@, page_num) {
            None => true,
            Some(page_id) => refusal(document_objects(*old(doc)), page_id) is Some,
        } ==> *final(doc) == *old(doc),
        ({
            let outcome = splice(
                document_objects(*old(doc)),
                document_max_id(*old(doc)),
                pages@,
                page_num,
                annotation_ref_id,
            );
            &&& document_objects(*final(doc)) == outcome.objects
            &&& document_max_id(*final(doc)) == outcome.max_id
            &&& match r {
                Ok(()) => outcome.failure is None,
                Err(e) => outcome.failure is Some && reports(
                    e,
                    outcome.failure.unwrap(),
                    page_num,
                    page_with_number(pages@, page_num),
                ),
            }
        }),
{
    match page_id_of(pages, page_num) {
        Some(page_id) => splice_at(doc, page_id, page_num, annotation_ref_id),
        None => Err(LibError::NotFound(Missing::Page(page_num))),
    }
}

/// Lists an annotation on a page: appends a reference to it to the page's
/// `/Annots`. The annotation must already be an object of the document.
///
/// Afterwards the page's `/Annots` is a reference to an array. An array that
/// stood in the page dictionary itself becomes, with the reference appended,
/// a new object that the page refers to. An array that the page refers to
/// is replaced under its id by the longer one; where that id stands for
/// something else than an array, by an array that holds the reference
/// alone. A page without `/Annots` gets a new array object and a reference
/// to it.
pub fn add_annotation_to_page(
    doc: &mut lopdf::Document,
    page_num: u32,
    annotation_ref_id: ObjectId,
) -> (r: Result<(), LibError>)
    ensures
        document_trailer(*final(doc)) == document_trailer(*old(doc)),
        match page_with_number(document_pages(*old(doc)), page_num) {
            None => true,
            Some(page_id) => refusal(document_objects(*old(doc)), page_id) is Some,
        } ==> *final(doc) == *old(doc),
        ({
            let outcome = splice(
                document_objects(*old(doc)),
                document_max_id(*old(doc)),
                document_pages(*old(doc)),
                page_num,
                annotation_ref_id,
            );
            &&& document_objects(*final(doc)) == outcome.objects
            &&& document_max_id(*final(doc)) == outcome.max_id
            &&& match r {
                Ok(()) => outcome.failure is None,
                Err(e) => outcome.failure is Some && reports(
                    e,
                    outcome.failure.unwrap(),
                    page_num,
                    page_with_number(document_pages(*old(doc)), page_num),
                ),
            }
        }),
{
    let pages = document_page_list(doc);
    add_annotation_in_pages(doc, &pages, page_num, annotation_ref_id)
}

/// The subtype of an annotation: the name under `/Subtype`, decoded
/// leniently.
pub open spec fn subtype_of(entries: Map<Seq<u8>, Value>) -> Option<Seq<char>> {
    if entries.contains_key(key("Subtype")) {
        match entries[key("Subtype")] {
            Value::Name(bytes) => Some(decoded(bytes)),
            _ => None,
        }
    } else {
        None
    }
}

/// What is known of one labeled annotation.
#[derive(Debug)]
pub struct AnnotationProperties {
    /// The number of the page that lists it.
    pub page: u32,
    /// Its object id.
    pub id: ObjectId,
    /// `/Subtype`.
    pub subtype: Option<String>,
    /// `/T`.
    pub label: Option<String>,
    /// `/Rect`.
    pub rect: Option<Rect>,
    /// `/Contents`.
    pub contents: Option<String>,
    /// `/C`.
    pub color: Option<Color>,
    /// `/IC`.
    pub interior_color: Option<Color>,
    /// `/BS`, else `/Border`.
    pub border_style: Option<BorderStyle>,
}

impl AnnotationProperties {
    /// Whether the properties are those that the entries of an annotation
    /// dictionary give.
    pub open spec fn describes(self, entries: Map<Seq<u8>, Value>) -> bool {
        &&& text_of(self.subtype) == subtype_of(entries)
        &&& text_of(self.label) == label_of(entries)
        &&& text_of(self.contents) == contents_of(entries)
        &&& match self.rect {
            Some(rect) => rect_of(entries) == Some(rect.bits()),
            None => rect_of(entries) is None,
        }
        &&& match self.color {
            Some(color) => color_of(entries, key("C")) == Some(color.bits()),
            None => color_of(entries, key("C")) is None,
        }
        &&& match self.interior_color {
            Some(color) => color_of(entries, key("IC")) == Some(color.bits()),
            None => color_of(entries, key("IC")) is None,
        }
        &&& match self.border_style {
            Some(style) => border_of(entries) == Some(style.width.bits()),
            None => border_of(entries) is None,
        }
    }
}

/// The subtype of an annotation, where `/Subtype` is a name.
fn get_annotation_subtype(dict: &lopdf::Dictionary) -> (r: Option<String>)
    ensures
        text_of(r) == subtype_of(dictionary_entries(*dict)),
{
    match dict.get("Subtype".as_bytes()) {
        Ok(object) => match object.as_name() {
            Ok(bytes) => Some(lossy_text(bytes)),
            Err(_) => None,
        },
        Err(_) => None,
    }
}

/// Finds an annotation by its label and reads its properties. A field that
/// is missing or malformed is `None`; that is no error.
pub fn get_annotation_properties(doc: &lopdf::Document, label: &str) -> (r: Result<
    Option<AnnotationProperties>,
    LibError,
>)
    ensures
        match r {
            Ok(Some(found)) => {
                &&& search(document_objects(*doc), document_pages(*doc), label@) == Search::Found(
                    found.id,
                    found.page,
                )
                &&& lookup(document_objects(*doc), found.id) matches Some(
                    Value::Dictionary(entries),
                ) && found.describes(entries)
            },
            Ok(None) => search(document_objects(*doc), document_pages(*doc), label@)
                == Search::Absent,
            Err(e) => search(document_objects(*doc), document_pages(*doc), label@)
                == Search::Failed && e is Pdf,
        },
{
    match find_annotation_by_label(doc, label)? {
        Some((id, page)) => {
            proof {
                lemma_search_found(document_objects(*doc), document_pages(*doc), label@);
            }
            let dict = match doc.get_dictionary(id) {
                Ok(dict) => dict,
                Err(e) => return Err(LibError::Pdf(e)),
            };
            let rect = match get_annotation_rect(dict) {
                Ok(rect) => Some(rect),
                Err(_) => None,
            };
            Ok(
                Some(
                    AnnotationProperties {
                        page,
                        id,
                        subtype: get_annotation_subtype(dict),
                        label: get_annotation_label(dict),
                        rect,
                        contents: get_annotation_contents(dict),
                        color: extract_color_property(dict, "C".as_bytes()),
                        interior_color: extract_color_property(dict, "IC".as_bytes()),
                        border_style: extract_border_style_property(dict),
                    },
                ),
            )
        },
        None => Ok(None),
    }
}

/// One of the ids carries the label exactly when a first one does, and that
/// one carries it.
pub proof fn lemma_first_labeled(
    objects: Map<ObjectId, Value>,
    ids: Seq<ObjectId>,
    label: Seq<char>,
)
    ensures
        match first_labeled(objects, ids, label) {
            Some(id) => ids.contains(id) && is_labeled(objects, id, label),
            None => forall|i: int| 0 <= i < ids.len() ==> !is_labeled(objects, ids[i], label),
        },
    decreases ids.len(),
{
    if ids.len() > 0 {
        if !is_labeled(objects, ids[0], label) {
            lemma_first_labeled(objects, ids.drop_first(), label);
            match first_labeled(objects, ids.drop_first(), label) {
                Some(id) => {
                    let rest = ids.drop_first();
                    let i = choose|i: int| 0 <= i < rest.len() && rest[i] == id;
                    assert(ids[i + 1] == id);
                },
                None => {
                    assert forall|i: int| 0 <= i < ids.len() implies !is_labeled(
                        objects,
                        ids[i],
                        label,
                    ) by {
                        if i > 0 {
                            assert(ids.drop_first()[i - 1] == ids[i]);
                        }
                    }
                },
            }
        } else {
            assert(ids[0] == ids[0]);
        }
    }
}

/// What a search finds is a dictionary that carries the label.
pub proof fn lemma_search_found(
    objects: Map<ObjectId, Value>,
    pages: Seq<(u32, ObjectId)>,
    label: Seq<char>,
)
    ensures
        search(objects, pages, label) matches Search::Found(id, _) ==> is_labeled(
            objects,
            id,
            label,
        ),
    decreases pages.len(),
{
    if pages.len() > 0 {
        match lookup(objects, pages[0].1) {
            Some(Value::Dictionary(page)) => match listing_of(objects, page) {
                Listing::Listed(ids) => {
                    lemma_first_labeled(objects, ids, label);
                    if first_labeled(objects, ids, label) is None {
                        lemma_search_found(objects, pages.drop_first(), label);
                    }
                },
                Listing::Broken => {},
            },
            Some(_) => {
                lemma_search_found(objects, pages.drop_first(), label);
            },
            None => {},
        }
    }
}

} // verus!
