//! Taking the annotations of a template's first page and putting the like
//! onto the first page of other documents.

use crate::annotation::{literal_bytes, name, next_id, rect_value, with_optional, Rect};
use crate::annotation_utils::{
    link_array, linked_array, number_bits, page_id_of, page_with_number, text_at, text_entry,
    text_of, Failure,
};
use crate::error::{Defect, LibError, Missing};
use crate::number::Real;
use crate::pdf::{
    array_object, decoded, dictionary_entries, dictionary_object, dictionary_set, document_add,
    document_max_id, document_objects, document_page_list, document_pages, document_trailer,
    integer_object, key, lookup, lossy_text, name_object, no_entries, object_value,
    reference_object, string_object, values_of, Value,
};
use crate::processor::{coordinate, read_coordinate};
use crate::text::same_bytes;
use lopdf::ObjectId;
use vstd::prelude::*;
use vstd::slice::slice_to_vec;

verus! {

/// The border style dictionary of an annotation: its width and the name of
/// its style, as far as they are given.
#[derive(Debug)]
pub struct BorderData {
    pub width: Option<Real>,
    pub style: Option<String>,
}

/// What is taken from an annotation of a template.
#[derive(Debug)]
pub struct PdfAnnotation {
    /// The subtype, as text.
    pub annotation_type: String,
    /// `/Rect`; an element that is no number counts as 0.
    pub rect: Rect,
    /// The id of the annotation in the template, where it has one.
    pub object_id: Option<ObjectId>,
    /// The numbers of `/C`.
    pub color: Option<Vec<Real>>,
    /// The elements of `/Border`; `None` for one that is no number.
    pub border: Option<Vec<Option<Real>>>,
    /// `/BS`.
    pub border_style: Option<BorderData>,
    /// Whether the print flag is set in `/F`.
    pub print_flag: Option<bool>,
    /// `/T`.
    pub author: Option<String>,
    /// `/M`.
    pub modified_date: Option<String>,
    /// Whether there is an appearance dictionary `/AP`.
    pub has_appearance: bool,
    /// The normal appearance stream that `/AP` refers to under `/N`.
    pub appearance_ref: Option<ObjectId>,
    /// `/Contents`.
    pub contents: Option<String>,
    /// The numbers of `/IC`, for squares and circles.
    pub fill_color: Option<Vec<Real>>,
    /// `/DA`, for free text.
    pub da_string: Option<String>,
    /// `/Q`, for free text.
    pub text_alignment: Option<i64>,
}

/// The print flag of an annotation.
pub const PRINT_FLAG: i64 = 4;

/// The bit patterns of the numbers among the items, in order.
pub open spec fn numbers_in(items: Seq<Value>) -> Seq<u32>
    decreases items.len(),
{
    if items.len() == 0 {
        Seq::empty()
    } else {
        match number_bits(items.last()) {
            Some(bits) => numbers_in(items.drop_last()).push(bits),
            None => numbers_in(items.drop_last()),
        }
    }
}

/// The array under a key.
pub open spec fn array_at(entries: Map<Seq<u8>, Value>, k: Seq<u8>) -> Option<Seq<Value>> {
    if entries.contains_key(k) {
        match entries[k] {
            Value::Array(items) => Some(items),
            _ => None,
        }
    } else {
        None
    }
}

/// The dictionary under a key.
pub open spec fn dictionary_at(entries: Map<Seq<u8>, Value>, k: Seq<u8>) -> Option<
    Map<Seq<u8>, Value>,
> {
    if entries.contains_key(k) {
        match entries[k] {
            Value::Dictionary(inner) => Some(inner),
            _ => None,
        }
    } else {
        None
    }
}

/// The integer under a key.
pub open spec fn integer_at(entries: Map<Seq<u8>, Value>, k: Seq<u8>) -> Option<i64> {
    if entries.contains_key(k) {
        match entries[k] {
            Value::Integer(i) => Some(i),
            _ => None,
        }
    } else {
        None
    }
}

/// The text of the name under a key, decoded leniently.
pub open spec fn name_at(entries: Map<Seq<u8>, Value>, k: Seq<u8>) -> Option<Seq<char>> {
    if entries.contains_key(k) {
        match entries[k] {
            Value::Name(bytes) => Some(decoded(bytes)),
            _ => None,
        }
    } else {
        None
    }
}

/// The reference under a key.
pub open spec fn reference_at(entries: Map<Seq<u8>, Value>, k: Seq<u8>) -> Option<ObjectId> {
    if entries.contains_key(k) {
        match entries[k] {
            Value::Reference(id) => Some(id),
            _ => None,
        }
    } else {
        None
    }
}

/// The number under a key.
pub open spec fn number_at(entries: Map<Seq<u8>, Value>, k: Seq<u8>) -> Option<u32> {
    if entries.contains_key(k) {
        number_bits(entries[k])
    } else {
        None
    }
}

/// Whether a text is the given word.
pub open spec fn is_word(text: Seq<char>, word: &str) -> bool {
    vstd::utf8::encode_utf8(text) == key(word)
}

/// Whether an annotation of this type has an interior: a square or a
/// circle.
pub open spec fn has_interior(kind: Seq<char>) -> bool {
    is_word(kind, "Square") || is_word(kind, "Circle")
}

/// Whether the entries can be taken: they have a subtype that is a name and
/// a rectangle that is an array of four elements.
pub open spec fn is_takable(entries: Map<Seq<u8>, Value>) -> bool {
    name_at(entries, key("Subtype")) is Some && (array_at(entries, key("Rect")) matches Some(
        items,
    ) && items.len() == 4)
}

/// The bit patterns of an optional number.
pub open spec fn bits_of(number: Option<Real>) -> Option<u32> {
    match number {
        Some(number) => Some(number.bits()),
        None => None,
    }
}

/// The bit patterns of numbers.
pub open spec fn all_bits(numbers: Seq<Real>) -> Seq<u32> {
    numbers.map_values(|number: Real| number.bits())
}

/// The bit patterns of optional numbers.
pub open spec fn all_optional_bits(numbers: Seq<Option<Real>>) -> Seq<Option<u32>> {
    numbers.map_values(|number: Option<Real>| bits_of(number))
}

/// The bit patterns of an optional list of numbers.
pub open spec fn list_bits(numbers: Option<Vec<Real>>) -> Option<Seq<u32>> {
    match numbers {
        Some(numbers) => Some(all_bits(numbers@)),
        None => None,
    }
}

/// The numbers of the array under a key.
pub open spec fn numbers_at(entries: Map<Seq<u8>, Value>, k: Seq<u8>) -> Option<Seq<u32>> {
    match array_at(entries, k) {
        Some(items) => Some(numbers_in(items)),
        None => None,
    }
}

impl PdfAnnotation {
    /// Whether this is what the entries of an annotation give, for an
    /// annotation with the given id.
    pub open spec fn describes(self, entries: Map<Seq<u8>, Value>, id: Option<ObjectId>) -> bool {
        let rect = array_at(entries, key("Rect")).unwrap();
        let kind = self.annotation_type@;
        &&& is_takable(entries)
        &&& Some(kind) == name_at(entries, key("Subtype"))
        &&& self.rect.bits() == (
            coordinate(rect[0], 0),
            coordinate(rect[1], 0),
            coordinate(rect[2], 0),
            coordinate(rect[3], 0),
        )
        &&& self.object_id == id
        &&& list_bits(self.color) == numbers_at(entries, key("C"))
        &&& match self.border {
            Some(border) => (array_at(entries, key("Border")) matches Some(items)
                && all_optional_bits(border@) == items.map_values(|v: Value| number_bits(v))),
            None => array_at(entries, key("Border")) is None,
        }
        &&& match self.border_style {
            Some(style) => (dictionary_at(entries, key("BS")) matches Some(inner) && bits_of(
                style.width,
            ) == number_at(inner, key("W")) && text_of(style.style) == name_at(inner, key("S"))),
            None => dictionary_at(entries, key("BS")) is None,
        }
        &&& match self.print_flag {
            Some(flag) => (integer_at(entries, key("F")) matches Some(flags) && flag == ((flags
                & PRINT_FLAG) != 0)),
            None => integer_at(entries, key("F")) is None,
        }
        &&& text_of(self.author) == text_at(entries, key("T"))
        &&& text_of(self.modified_date) == text_at(entries, key("M"))
        &&& text_of(self.contents) == text_at(entries, key("Contents"))
        &&& self.has_appearance == (dictionary_at(entries, key("AP")) is Some)
        &&& self.appearance_ref == match dictionary_at(entries, key("AP")) {
            Some(appearance) => reference_at(appearance, key("N")),
            None => None,
        }
        &&& list_bits(self.fill_color) == if has_interior(kind) {
            numbers_at(entries, key("IC"))
        } else {
            None
        }
        &&& text_of(self.da_string) == if is_word(kind, "FreeText") {
            text_at(entries, key("DA"))
        } else {
            None
        }
        &&& self.text_alignment == if is_word(kind, "FreeText") {
            integer_at(entries, key("Q"))
        } else {
            None
        }
    }
}

/// The text of the name under a name.
fn name_entry(dict: &lopdf::Dictionary, entry: &str) -> (r: Option<String>)
    ensures
        text_of(r) == name_at(dictionary_entries(*dict), key(entry)),
{
    match dict.get(entry.as_bytes()) {
        Ok(object) => match object.as_name() {
            Ok(bytes) => Some(lossy_text(bytes)),
            Err(_) => None,
        },
        Err(_) => None,
    }
}

/// The integer under a name.
fn integer_entry(dict: &lopdf::Dictionary, entry: &str) -> (r: Option<i64>)
    ensures
        r == integer_at(dictionary_entries(*dict), key(entry)),
{
    match dict.get(entry.as_bytes()) {
        Ok(object) => match object.as_i64() {
            Ok(i) => Some(i),
            Err(_) => None,
        },
        Err(_) => None,
    }
}

/// The numbers among the items.
fn read_numbers(items: &Vec<lopdf::Object>) -> (numbers: Vec<Real>)
    ensures
        all_bits(numbers@) == numbers_in(values_of(items@)),
{
    let mut numbers: Vec<Real> = Vec::new();
    let mut i: usize = 0;
    proof {
        assert(values_of(items@.take(0)) =~= Seq::empty());
        assert(all_bits(numbers@) =~= Seq::empty());
    }
    while i < items.len()
        invariant
            i <= items.len(),
            all_bits(numbers@) == numbers_in(values_of(items@.take(i as int))),
        decreases items.len() - i,
    {
        let ghost before = numbers@;
        proof {
            let next = values_of(items@.take(i + 1));
            assert(next.drop_last() =~= values_of(items@.take(i as int)));
            assert(next.last() == object_value(items@[i as int]));
        }
        match Real::from_number(&items[i]) {
            Some(number) => {
                numbers.push(number);
                proof {
                    assert(all_bits(numbers@) =~= all_bits(before).push(number.bits()));
                }
            },
            None => {},
        }
        i += 1;
    }
    proof {
        assert(items@.take(i as int) =~= items@);
    }
    numbers
}

/// The numbers of the array under a name.
fn numbers_entry(dict: &lopdf::Dictionary, entry: &str) -> (r: Option<Vec<Real>>)
    ensures
        list_bits(r) == numbers_at(dictionary_entries(*dict), key(entry)),
{
    match dict.get(entry.as_bytes()) {
        Ok(object) => match object.as_array() {
            Ok(items) => Some(read_numbers(items)),
            Err(_) => None,
        },
        Err(_) => None,
    }
}

/// The elements of a border array: the numbers, and `None` for the others.
fn read_border(items: &Vec<lopdf::Object>) -> (border: Vec<Option<Real>>)
    ensures
        all_optional_bits(border@) == values_of(items@).map_values(|v: Value| number_bits(v)),
{
    let mut border: Vec<Option<Real>> = Vec::new();
    let mut i: usize = 0;
    while i < items.len()
        invariant
            i <= items.len(),
            border@.len() == i,
            forall|j: int| 0 <= j < i ==> bits_of(#[trigger] border@[j]) == number_bits(
                object_value(items@[j]),
            ),
        decreases items.len() - i,
    {
        border.push(Real::from_number(&items[i]));
        i += 1;
    }
    proof {
        assert(all_optional_bits(border@) =~= values_of(items@).map_values(
            |v: Value| number_bits(v),
        ));
    }
    border
}

/// The border style dictionary of an annotation.
fn read_border_style(dict: &lopdf::Dictionary) -> (r: Option<BorderData>)
    ensures
        match r {
            Some(style) => dictionary_at(dictionary_entries(*dict), key("BS")) matches Some(inner)
                && bits_of(style.width) == number_at(inner, key("W")) && text_of(style.style)
                == name_at(inner, key("S")),
            None => dictionary_at(dictionary_entries(*dict), key("BS")) is None,
        },
{
    let inner = match dict.get("BS".as_bytes()) {
        Ok(object) => match object.as_dict() {
            Ok(inner) => inner,
            Err(_) => return None,
        },
        Err(_) => return None,
    };
    let width = match inner.get("W".as_bytes()) {
        Ok(width) => Real::from_number(width),
        Err(_) => None,
    };
    Some(BorderData { width, style: name_entry(inner, "S") })
}

/// Whether a text is the given word.
fn is_word_of(text: &String, word: &str) -> (r: bool)
    ensures
        r == is_word(text@, word),
{
    same_bytes(text.as_str().as_bytes(), word.as_bytes())
}

/// Takes from an annotation dictionary what a copy of the annotation
/// needs. `None` for a dictionary without a subtype that is a name, or
/// without a rectangle that is an array of four elements.
pub fn extract_annotation_data(dict: &lopdf::Dictionary, id: Option<ObjectId>) -> (r: Option<
    PdfAnnotation,
>)
    ensures
        match r {
            Some(annotation) => annotation.describes(dictionary_entries(*dict), id),
            None => !is_takable(dictionary_entries(*dict)),
        },
{
    let annotation_type = match name_entry(dict, "Subtype") {
        Some(kind) => kind,
        None => return None,
    };
    let rect = match dict.get("Rect".as_bytes()) {
        Ok(object) => match object.as_array() {
            Ok(items) => {
                if items.len() != 4 {
                    return None;
                }
                Rect {
                    x1: read_coordinate(&items[0], 0),
                    y1: read_coordinate(&items[1], 0),
                    x2: read_coordinate(&items[2], 0),
                    y2: read_coordinate(&items[3], 0),
                }
            },
            Err(_) => return None,
        },
        Err(_) => return None,
    };
    let border = match dict.get("Border".as_bytes()) {
        Ok(object) => match object.as_array() {
            Ok(items) => Some(read_border(items)),
            Err(_) => None,
        },
        Err(_) => None,
    };
    let print_flag = match integer_entry(dict, "F") {
        Some(flags) => Some((flags & PRINT_FLAG) != 0),
        None => None,
    };
    let (has_appearance, appearance_ref) = match dict.get("AP".as_bytes()) {
        Ok(object) => match object.as_dict() {
            Ok(appearance) => match appearance.get("N".as_bytes()) {
                Ok(normal) => match normal.as_reference() {
                    Ok(normal_id) => (true, Some(normal_id)),
                    Err(_) => (true, None),
                },
                Err(_) => (true, None),
            },
            Err(_) => (false, None),
        },
        Err(_) => (false, None),
    };
    let interior = is_word_of(&annotation_type, "Square") || is_word_of(&annotation_type, "Circle");
    let free_text = is_word_of(&annotation_type, "FreeText");
    let fill_color = if interior {
        numbers_entry(dict, "IC")
    } else {
        None
    };
    let da_string = if free_text {
        text_entry(dict, "DA")
    } else {
        None
    };
    let text_alignment = if free_text {
        integer_entry(dict, "Q")
    } else {
        None
    };
    Some(
        PdfAnnotation {
            annotation_type,
            rect,
            object_id: id,
            color: numbers_entry(dict, "C"),
            border,
            border_style: read_border_style(dict),
            print_flag,
            author: text_entry(dict, "T"),
            modified_date: text_entry(dict, "M"),
            has_appearance,
            appearance_ref,
            contents: text_entry(dict, "Contents"),
            fill_color,
            da_string,
            text_alignment,
        },
    )
}

/// What an item of an annotation array stands for: a dictionary in the
/// array itself, or one that a reference in the array leads to, with its id.
pub open spec fn candidate(objects: Map<ObjectId, Value>, item: Value) -> Option<
    (Option<ObjectId>, Map<Seq<u8>, Value>),
> {
    match item {
        Value::Reference(id) => match lookup(objects, id) {
            Some(Value::Dictionary(entries)) => Some((Some(id), entries)),
            _ => None,
        },
        Value::Dictionary(entries) => Some((None, entries)),
        _ => None,
    }
}

/// Whether a subtype passes the filter: there is none, or it names the
/// subtype.
pub open spec fn passes(kind: Seq<char>, filter: Option<Seq<&str>>) -> bool {
    match filter {
        Some(words) => is_among(kind, words),
        None => true,
    }
}

/// Whether a text is one of the words.
pub open spec fn is_among(text: Seq<char>, words: Seq<&str>) -> bool
    decreases words.len(),
{
    if words.len() == 0 {
        false
    } else {
        is_word(text, words.last()) || is_among(text, words.drop_last())
    }
}

/// Whether an item of an annotation array is taken.
pub open spec fn is_taken(
    objects: Map<ObjectId, Value>,
    item: Value,
    filter: Option<Seq<&str>>,
) -> bool {
    candidate(objects, item) matches Some((_, entries)) && is_takable(entries) && passes(
        name_at(entries, key("Subtype")).unwrap(),
        filter,
    )
}

/// The annotations that are taken from an annotation array, in order.
pub open spec fn taken(
    objects: Map<ObjectId, Value>,
    items: Seq<Value>,
    filter: Option<Seq<&str>>,
) -> Seq<(Option<ObjectId>, Map<Seq<u8>, Value>)>
    decreases items.len(),
{
    if items.len() == 0 {
        Seq::empty()
    } else if is_taken(objects, items.last(), filter) {
        taken(objects, items.drop_last(), filter).push(candidate(objects, items.last()).unwrap())
    } else {
        taken(objects, items.drop_last(), filter)
    }
}

/// Whether the annotations are what was to be taken, one for one.
pub open spec fn describe_each(
    annotations: Seq<PdfAnnotation>,
    sources: Seq<(Option<ObjectId>, Map<Seq<u8>, Value>)>,
) -> bool {
    &&& annotations.len() == sources.len()
    &&& forall|i: int|
        0 <= i < annotations.len() ==> (#[trigger] annotations[i]).describes(
            sources[i].1,
            sources[i].0,
        )
}

/// What the first page of a template gives.
pub enum Template {
    /// The annotation array of the first page; no items where the page has
    /// none.
    Items(Seq<Value>),
    /// The document has no first page.
    NoPage,
    /// The first page is no dictionary.
    NoDictionary(ObjectId),
    /// `/Annots` is no array and does not lead to one.
    NoArray,
}

/// The annotation array of the first page.
pub open spec fn template_of(
    objects: Map<ObjectId, Value>,
    pages: Seq<(u32, ObjectId)>,
) -> Template {
    match page_with_number(pages, 1) {
        None => Template::NoPage,
        Some(page_id) => match lookup(objects, page_id) {
            Some(Value::Dictionary(page)) => if page.contains_key(key("Annots")) {
                match page[key("Annots")] {
                    Value::Array(items) => Template::Items(items),
                    Value::Reference(id) => match lookup(objects, id) {
                        Some(Value::Array(items)) => Template::Items(items),
                        _ => Template::NoArray,
                    },
                    _ => Template::NoArray,
                }
            } else {
                Template::Items(Seq::empty())
            },
            _ => Template::NoDictionary(page_id),
        },
    }
}

/// Whether a subtype passes the filter.
fn passes_filter(kind: &String, filter: Option<&[&str]>) -> (r: bool)
    ensures
        r == passes(
            kind@,
            match filter {
                Some(words) => Some(words@),
                None => None,
            },
        ),
{
    match filter {
        None => true,
        Some(words) => {
            let mut found = false;
            let mut i: usize = 0;
            while i < words.len()
                invariant
                    i <= words.len(),
                    found == is_among(kind@, words@.take(i as int)),
                decreases words.len() - i,
            {
                proof {
                    assert(words@.take(i + 1).drop_last() =~= words@.take(i as int));
                }
                if is_word_of(kind, words[i]) {
                    found = true;
                }
                i += 1;
            }
            proof {
                assert(words@.take(i as int) =~= words@);
            }
            found
        },
    }
}

/// Takes the annotations of an annotation array.
fn take_annotations(
    doc: &lopdf::Document,
    items: &Vec<lopdf::Object>,
    filter: Option<&[&str]>,
) -> (r: Vec<PdfAnnotation>)
    ensures
        describe_each(
            r@,
            taken(
                document_objects(*doc),
                values_of(items@),
                match filter {
                    Some(words) => Some(words@),
                    None => None,
                },
            ),
        ),
{
    let ghost words = match filter {
        Some(words) => Some(words@),
        None => None,
    };
    let ghost objects = document_objects(*doc);
    let mut annotations: Vec<PdfAnnotation> = Vec::new();
    let mut i: usize = 0;
    proof {
        assert(values_of(items@.take(0)) =~= Seq::empty());
    }
    while i < items.len()
        invariant
            i <= items.len(),
            objects == document_objects(*doc),
            words == match filter {
                Some(words) => Some(words@),
                None => None,
            },
            describe_each(annotations@, taken(objects, values_of(items@.take(i as int)), words)),
        decreases items.len() - i,
    {
        let ghost before = annotations@;
        proof {
            let next = values_of(items@.take(i + 1));
            assert(next.drop_last() =~= values_of(items@.take(i as int)));
            assert(next.last() == object_value(items@[i as int]));
        }
        let found = match items[i].as_reference() {
            Ok(id) => match doc.get_object(id) {
                Ok(object) => match object.as_dict() {
                    Ok(dict) => extract_annotation_data(dict, Some(id)),
                    Err(_) => None,
                },
                Err(_) => None,
            },
            Err(_) => match items[i].as_dict() {
                Ok(dict) => extract_annotation_data(dict, None),
                Err(_) => None,
            },
        };
        match found {
            Some(annotation) => {
                if passes_filter(&annotation.annotation_type, filter) {
                    annotations.push(annotation);
                    proof {
                        let sources = taken(objects, values_of(items@.take(i + 1)), words);
                        assert forall|j: int| 0 <= j < annotations@.len() implies (
                        #[trigger] annotations@[j]).describes(sources[j].1, sources[j].0) by {
                            if j < before.len() {
                                assert(annotations@[j] == before[j]);
                            }
                        }
                    }
                }
            },
            None => {},
        }
        i += 1;
    }
    proof {
        assert(items@.take(i as int) =~= items@);
    }
    annotations
}

/// Takes the annotations of a template's first page, each as what a copy of
/// it needs. With a filter, only annotations of the subtypes that it names
/// are taken. A page without annotations gives none.
pub fn extract_annotations(doc: &lopdf::Document, filter_types: Option<&[&str]>) -> (r: Result<
    Vec<PdfAnnotation>,
    LibError,
>)
    ensures
        match template_of(document_objects(*doc), document_pages(*doc)) {
            Template::Items(items) => r matches Ok(annotations) && describe_each(
                annotations@,
                taken(
                    document_objects(*doc),
                    items,
                    match filter_types {
                        Some(words) => Some(words@),
                        None => None,
                    },
                ),
            ),
            Template::NoPage => r matches Err(LibError::NotFound(Missing::Page(1))),
            Template::NoDictionary(id) => r matches Err(
                LibError::Malformed(Defect::NotDictionary(at)),
            ) && at == id,
            Template::NoArray => r matches Err(LibError::Malformed(Defect::Annots(1))),
        },
{
    let pages = document_page_list(doc);
    let page_id = match page_id_of(&pages, 1) {
        Some(page_id) => page_id,
        None => return Err(LibError::NotFound(Missing::Page(1))),
    };
    let page = match doc.get_dictionary(page_id) {
        Ok(page) => page,
        Err(_) => return Err(LibError::Malformed(Defect::NotDictionary(page_id))),
    };
    match page.get("Annots".as_bytes()) {
        Ok(annots) => match annots.as_array() {
            Ok(items) => Ok(take_annotations(doc, items, filter_types)),
            Err(_) => match annots.as_reference() {
                Ok(id) => match doc.get_object(id) {
                    Ok(target) => match target.as_array() {
                        Ok(items) => Ok(take_annotations(doc, items, filter_types)),
                        Err(_) => Err(LibError::Malformed(Defect::Annots(1))),
                    },
                    Err(_) => Err(LibError::Malformed(Defect::Annots(1))),
                },
                Err(_) => Err(LibError::Malformed(Defect::Annots(1))),
            },
        },
        Err(_) => {
            proof {
                assert(taken(
                    document_objects(*doc),
                    Seq::<Value>::empty(),
                    match filter_types {
                        Some(words) => Some(words@),
                        None => None,
                    },
                ) =~= Seq::empty());
            }
            Ok(Vec::new())
        },
    }
}

/// The flags of a copy: the print flag, unless the annotation had flags
/// without it.
pub open spec fn flags_of(print_flag: Option<bool>) -> i64 {
    match print_flag {
        Some(false) => 0,
        _ => PRINT_FLAG,
    }
}

/// An array of reals.
pub open spec fn reals(bits: Seq<u32>) -> Value {
    Value::Array(bits.map_values(|b: u32| Value::Real(b)))
}

/// A border array: its numbers as reals, 0 for every other element.
pub open spec fn border_value(border: Seq<Option<u32>>) -> Value {
    Value::Array(
        border.map_values(
            |element: Option<u32>|
                match element {
                    Some(bits) => Value::Real(bits),
                    None => Value::Integer(0),
                },
        ),
    )
}

/// A list of numbers as an array of reals, if there is a list and it is not
/// empty.
pub open spec fn filled(numbers: Option<Seq<u32>>) -> Option<Value> {
    match numbers {
        Some(bits) => if bits.len() > 0 {
            Some(reals(bits))
        } else {
            None
        },
        None => None,
    }
}

/// A text as a literal string, if there is a text.
pub open spec fn written(text: Option<Seq<char>>) -> Option<Value> {
    match text {
        Some(text) => Some(literal_bytes(vstd::utf8::encode_utf8(text))),
        None => None,
    }
}

/// A border style dictionary: the width where one is given, and the style,
/// solid where none is named.
pub open spec fn style_value(width: Option<u32>, style: Option<Seq<char>>) -> Value {
    Value::Dictionary(
        with_optional(
            no_entries(),
            key("W"),
            match width {
                Some(bits) => Some(Value::Real(bits)),
                None => None,
            },
        ).insert(
            key("S"),
            match style {
                Some(style) => Value::Name(vstd::utf8::encode_utf8(style)),
                None => name("S"),
            },
        ),
    )
}

impl PdfAnnotation {
    /// The entries of a copy of the annotation: its type, rectangle and
    /// flags; the border, the border style, the author, the date, the
    /// contents and the color where it had them; for a square or a circle the
    /// interior color, for free text the default appearance and the
    /// alignment. A border of fewer than three elements is left out.
    pub open spec fn entries(self) -> Map<Seq<u8>, Value> {
        let kind = self.annotation_type@;
        let frame = no_entries().insert(key("Type"), name("Annot")).insert(
            key("Subtype"),
            Value::Name(vstd::utf8::encode_utf8(kind)),
        ).insert(key("Rect"), rect_value(self.rect.bits())).insert(
            key("F"),
            Value::Integer(flags_of(self.print_flag)),
        );
        let bordered = with_optional(
            frame,
            key("Border"),
            match self.border {
                Some(border) => if border@.len() >= 3 {
                    Some(border_value(all_optional_bits(border@)))
                } else {
                    None
                },
                None => None,
            },
        );
        let styled = with_optional(
            bordered,
            key("BS"),
            match self.border_style {
                Some(style) => Some(style_value(bits_of(style.width), text_of(style.style))),
                None => None,
            },
        );
        let common = with_optional(
            with_optional(
                with_optional(
                    with_optional(styled, key("T"), written(text_of(self.author))),
                    key("M"),
                    written(text_of(self.modified_date)),
                ),
                key("Contents"),
                written(text_of(self.contents)),
            ),
            key("C"),
            filled(list_bits(self.color)),
        );
        if has_interior(kind) {
            with_optional(common, key("IC"), filled(list_bits(self.fill_color)))
        } else if is_word(kind, "FreeText") {
            with_optional(
                with_optional(common, key("DA"), written(text_of(self.da_string))),
                key("Q"),
                match self.text_alignment {
                    Some(alignment) => Some(Value::Integer(alignment)),
                    None => None,
                },
            )
        } else {
            common
        }
    }
}

/// An array of reals.
fn reals_object(numbers: &Vec<Real>) -> (o: lopdf::Object)
    ensures
        object_value(o) == reals(all_bits(numbers@)),
{
    let mut items: Vec<lopdf::Object> = Vec::new();
    let mut i: usize = 0;
    while i < numbers.len()
        invariant
            i <= numbers.len(),
            items@.len() == i,
            forall|j: int|
                0 <= j < i ==> object_value(#[trigger] items@[j]) == Value::Real(
                    numbers@[j].bits(),
                ),
        decreases numbers.len() - i,
    {
        items.push(numbers[i].to_object());
        i += 1;
    }
    proof {
        assert(values_of(items@) =~= reals(all_bits(numbers@))->Array_0);
    }
    array_object(items)
}

/// A border array.
fn border_object(border: &Vec<Option<Real>>) -> (o: lopdf::Object)
    ensures
        object_value(o) == border_value(all_optional_bits(border@)),
{
    let mut items: Vec<lopdf::Object> = Vec::new();
    let mut i: usize = 0;
    while i < border.len()
        invariant
            i <= border.len(),
            items@.len() == i,
            forall|j: int|
                0 <= j < i ==> object_value(#[trigger] items@[j]) == match bits_of(border@[j]) {
                    Some(bits) => Value::Real(bits),
                    None => Value::Integer(0),
                },
        decreases border.len() - i,
    {
        match &border[i] {
            Some(number) => items.push(number.to_object()),
            None => items.push(integer_object(0)),
        }
        i += 1;
    }
    proof {
        assert(values_of(items@) =~= border_value(all_optional_bits(border@))->Array_0);
    }
    array_object(items)
}

/// A border style dictionary.
fn style_object(style: &BorderData) -> (o: lopdf::Object)
    ensures
        object_value(o) == style_value(bits_of(style.width), text_of(style.style)),
{
    let mut inner = lopdf::Dictionary::new();
    match &style.width {
        Some(width) => dictionary_set(&mut inner, "W".as_bytes(), width.to_object()),
        None => {},
    }
    match &style.style {
        Some(named) => dictionary_set(
            &mut inner,
            "S".as_bytes(),
            name_object(slice_to_vec(named.as_str().as_bytes())),
        ),
        None => dictionary_set(
            &mut inner,
            "S".as_bytes(),
            name_object(slice_to_vec("S".as_bytes())),
        ),
    }
    dictionary_object(inner)
}

/// Writes a text under a name, where there is a text.
fn set_text(dict: &mut lopdf::Dictionary, entry: &str, text: &Option<String>)
    ensures
        dictionary_entries(*final(dict)) == with_optional(
            dictionary_entries(*old(dict)),
            key(entry),
            written(text_of(*text)),
        ),
{
    match text {
        Some(text) => dictionary_set(
            dict,
            entry.as_bytes(),
            string_object(slice_to_vec(text.as_str().as_bytes())),
        ),
        None => {},
    }
}

/// Writes numbers as an array of reals under a name, where there are any.
fn set_numbers(dict: &mut lopdf::Dictionary, entry: &str, numbers: &Option<Vec<Real>>)
    ensures
        dictionary_entries(*final(dict)) == with_optional(
            dictionary_entries(*old(dict)),
            key(entry),
            filled(list_bits(*numbers)),
        ),
{
    match numbers {
        Some(numbers) => {
            if numbers.len() > 0 {
                dictionary_set(dict, entry.as_bytes(), reals_object(numbers));
            }
        },
        None => {},
    }
}

/// The dictionary of a copy of an annotation.
fn copy_dictionary(annotation: &PdfAnnotation) -> (d: lopdf::Dictionary)
    ensures
        dictionary_entries(d) == annotation.entries(),
{
    let mut d = lopdf::Dictionary::new();
    dictionary_set(&mut d, "Type".as_bytes(), name_object(slice_to_vec("Annot".as_bytes())));
    dictionary_set(
        &mut d,
        "Subtype".as_bytes(),
        name_object(slice_to_vec(annotation.annotation_type.as_str().as_bytes())),
    );
    let mut corners: Vec<lopdf::Object> = Vec::new();
    corners.push(annotation.rect.x1.to_object());
    corners.push(annotation.rect.y1.to_object());
    corners.push(annotation.rect.x2.to_object());
    corners.push(annotation.rect.y2.to_object());
    proof {
        assert(values_of(corners@) =~= rect_value(annotation.rect.bits())->Array_0);
    }
    dictionary_set(&mut d, "Rect".as_bytes(), array_object(corners));
    let flags: i64 = match annotation.print_flag {
        Some(false) => 0,
        _ => PRINT_FLAG,
    };
    dictionary_set(&mut d, "F".as_bytes(), integer_object(flags));
    match &annotation.border {
        Some(border) => {
            if border.len() >= 3 {
                dictionary_set(&mut d, "Border".as_bytes(), border_object(border));
            }
        },
        None => {},
    }
    match &annotation.border_style {
        Some(style) => dictionary_set(&mut d, "BS".as_bytes(), style_object(style)),
        None => {},
    }
    set_text(&mut d, "T", &annotation.author);
    set_text(&mut d, "M", &annotation.modified_date);
    set_text(&mut d, "Contents", &annotation.contents);
    set_numbers(&mut d, "C", &annotation.color);
    if is_word_of(&annotation.annotation_type, "Square") || is_word_of(
        &annotation.annotation_type,
        "Circle",
    ) {
        set_numbers(&mut d, "IC", &annotation.fill_color);
    } else if is_word_of(&annotation.annotation_type, "FreeText") {
        set_text(&mut d, "DA", &annotation.da_string);
        match annotation.text_alignment {
            Some(alignment) => dictionary_set(&mut d, "Q".as_bytes(), integer_object(alignment)),
            None => {},
        }
    }
    d
}

/// Makes a copy of an annotation a new object of the document and returns
/// its id. Appearance streams are not copied, whatever is asked for: the
/// viewer draws the copy. Fails only where no object number is left.
pub fn create_annotation_object(
    doc: &mut lopdf::Document,
    annotation: &PdfAnnotation,
    copy_appearance_streams: bool,
) -> (r: Result<ObjectId, LibError>)
    ensures
        document_trailer(*final(doc)) == document_trailer(*old(doc)),
        match r {
            Ok(id) => document_max_id(*old(doc)) < u32::MAX && id == next_id(
                document_max_id(*old(doc)),
            ) && document_max_id(*final(doc)) == id.0 && document_objects(*final(doc))
                == document_objects(*old(doc)).insert(id, Value::Dictionary(annotation.entries())),
            Err(e) => e is Pdf && document_max_id(*old(doc)) == u32::MAX && document_max_id(
                *final(doc),
            ) == u32::MAX && document_objects(*final(doc)) == document_objects(*old(doc)),
        },
{
    match document_add(doc, dictionary_object(copy_dictionary(annotation))) {
        Ok(id) => Ok(id),
        Err(e) => Err(LibError::Pdf(e)),
    }
}

/// A document after copies of some annotations were made objects of it, one
/// after the other: its objects, the highest object number handed out, and
/// the ids of the copies; `complete` is false where the object numbers ran
/// out.
pub struct Copied {
    pub objects: Map<ObjectId, Value>,
    pub max_id: u32,
    pub ids: Seq<ObjectId>,
    pub complete: bool,
}

/// The copies of annotations as new objects.
pub open spec fn copied(
    objects: Map<ObjectId, Value>,
    max_id: u32,
    annotations: Seq<PdfAnnotation>,
) -> Copied
    decreases annotations.len(),
{
    if annotations.len() == 0 {
        Copied { objects, max_id, ids: Seq::empty(), complete: true }
    } else {
        let before = copied(objects, max_id, annotations.drop_last());
        if !before.complete || before.max_id == u32::MAX {
            Copied {
                objects: before.objects,
                max_id: before.max_id,
                ids: before.ids,
                complete: false,
            }
        } else {
            Copied {
                objects: before.objects.insert(
                    next_id(before.max_id),
                    Value::Dictionary(annotations.last().entries()),
                ),
                max_id: next_id(before.max_id).0,
                ids: before.ids.push(next_id(before.max_id)),
                complete: true,
            }
        }
    }
}

/// The annotations that the first page lists before copies are added: the
/// elements of its annotation array; none where it has no array.
pub open spec fn listed_items(objects: Map<ObjectId, Value>, page_id: ObjectId) -> Seq<Value> {
    match lookup(objects, page_id) {
        Some(Value::Dictionary(page)) => if page.contains_key(key("Annots")) {
            match page[key("Annots")] {
                Value::Array(items) => items,
                Value::Reference(id) => match lookup(objects, id) {
                    Some(Value::Array(items)) => items,
                    _ => Seq::empty(),
                },
                _ => Seq::empty(),
            }
        } else {
            Seq::empty()
        },
        _ => Seq::empty(),
    }
}

/// References to the ids.
pub open spec fn references_to(ids: Seq<ObjectId>) -> Seq<Value> {
    ids.map_values(|id: ObjectId| Value::Reference(id))
}

/// How putting copies on the first page ends.
pub enum Applied {
    /// The copies are listed; the document's objects afterwards.
    Done(Map<ObjectId, Value>),
    /// The document has no first page.
    NoPage,
    /// The object numbers ran out; the document's objects afterwards.
    NoNumber(Map<ObjectId, Value>),
    /// The first page is no dictionary; the document's objects afterwards.
    NoDictionary(ObjectId, Map<ObjectId, Value>),
}

/// Putting copies of annotations on the first page. The page is looked at
/// before anything is written: where it is no dictionary, the document
/// stays as it was. Else each copy becomes an object; then an annotation
/// array that holds what the page listed before and references to the
/// copies becomes an object, and the page refers to it.
pub open spec fn applied(
    objects: Map<ObjectId, Value>,
    max_id: u32,
    pages: Seq<(u32, ObjectId)>,
    annotations: Seq<PdfAnnotation>,
) -> Applied {
    match page_with_number(pages, 1) {
        None => Applied::NoPage,
        Some(page_id) => if !(lookup(objects, page_id) matches Some(Value::Dictionary(_))) {
            Applied::NoDictionary(page_id, objects)
        } else {
            let copies = copied(objects, max_id, annotations);
            if !copies.complete {
                Applied::NoNumber(copies.objects)
            } else {
                let linked = linked_array(
                    copies.objects,
                    copies.max_id,
                    page_id,
                    Value::Array(listed_items(objects, page_id) + references_to(copies.ids)),
                );
                match linked.failure {
                    None => Applied::Done(linked.objects),
                    Some(Failure::PageNotDictionary) => Applied::NoDictionary(
                        page_id,
                        linked.objects,
                    ),
                    Some(_) => Applied::NoNumber(linked.objects),
                }
            }
        },
    }
}

/// The elements of the first page's annotation array, copied.
fn read_listed(doc: &lopdf::Document, page_id: ObjectId) -> (items: Vec<lopdf::Object>)
    ensures
        values_of(items@) == listed_items(document_objects(*doc), page_id),
{
    let empty: Vec<lopdf::Object> = Vec::new();
    proof {
        assert(values_of(empty@) =~= Seq::empty());
    }
    let page = match doc.get_dictionary(page_id) {
        Ok(page) => page,
        Err(_) => return empty,
    };
    match page.get("Annots".as_bytes()) {
        Ok(annots) => match annots.as_array() {
            Ok(items) => copy_items(items),
            Err(_) => match annots.as_reference() {
                Ok(id) => match doc.get_object(id) {
                    Ok(target) => match target.as_array() {
                        Ok(items) => copy_items(items),
                        Err(_) => empty,
                    },
                    Err(_) => empty,
                },
                Err(_) => empty,
            },
        },
        Err(_) => empty,
    }
}

/// A copy of the objects of an array.
fn copy_items(items: &Vec<lopdf::Object>) -> (copy: Vec<lopdf::Object>)
    ensures
        values_of(copy@) == values_of(items@),
{
    let mut copy: Vec<lopdf::Object> = Vec::new();
    let mut i: usize = 0;
    while i < items.len()
        invariant
            i <= items.len(),
            copy@.len() == i,
            forall|j: int|
                0 <= j < i ==> object_value(#[trigger] copy@[j]) == object_value(items@[j]),
        decreases items.len() - i,
    {
        copy.push(items[i].clone());
        i += 1;
    }
    proof {
        assert(values_of(copy@) =~= values_of(items@));
    }
    copy
}

/// Puts copies of the annotations on the first page of a document. Each
/// copy becomes a new object; the page's annotation array, with what it held
/// and references to the copies, becomes a new object that the page refers
/// to.
pub fn apply_annotations(
    doc: &mut lopdf::Document,
    annotations: &[PdfAnnotation],
    copy_appearance_streams: bool,
) -> (r: Result<(), LibError>)
    ensures
        document_trailer(*final(doc)) == document_trailer(*old(doc)),
        match applied(
            document_objects(*old(doc)),
            document_max_id(*old(doc)),
            document_pages(*old(doc)),
            annotations@,
        ) {
            Applied::Done(objects) => r is Ok && document_objects(*final(doc)) == objects,
            Applied::NoPage => r matches Err(LibError::NotFound(Missing::Page(1)))
                && document_objects(*final(doc)) == document_objects(*old(doc)),
            Applied::NoNumber(objects) => r matches Err(LibError::Pdf(_)) && document_objects(
                *final(doc),
            ) == objects,
            Applied::NoDictionary(id, objects) => (r matches Err(
                LibError::Malformed(Defect::NotDictionary(at)),
            ) && at == id) && document_objects(*final(doc)) == objects,
        },
{
    let pages = document_page_list(doc);
    let page_id = match page_id_of(&pages, 1) {
        Some(page_id) => page_id,
        None => return Err(LibError::NotFound(Missing::Page(1))),
    };
    if doc.get_dictionary(page_id).is_err() {
        return Err(LibError::Malformed(Defect::NotDictionary(page_id)));
    }
    let ghost objects = document_objects(*doc);
    let ghost max_id = document_max_id(*doc);
    let mut items = read_listed(doc, page_id);
    let ghost listed = values_of(items@);
    let mut i: usize = 0;
    proof {
        assert(annotations@.take(0) =~= Seq::empty());
        assert(listed + references_to(Seq::empty()) =~= listed);
    }
    while i < annotations.len()
        invariant
            i <= annotations.len(),
            document_trailer(*doc) == document_trailer(*old(doc)),
            page_with_number(document_pages(*old(doc)), 1) == Some(page_id),
            lookup(document_objects(*old(doc)), page_id) matches Some(Value::Dictionary(_)),
            objects == document_objects(*old(doc)),
            max_id == document_max_id(*old(doc)),
            copied(objects, max_id, annotations@.take(i as int)).complete,
            document_objects(*doc) == copied(objects, max_id, annotations@.take(i as int)).objects,
            document_max_id(*doc) == copied(objects, max_id, annotations@.take(i as int)).max_id,
            values_of(items@) == listed + references_to(
                copied(objects, max_id, annotations@.take(i as int)).ids,
            ),
        decreases annotations.len() - i,
    {
        proof {
            assert(annotations@.take(i + 1).drop_last() =~= annotations@.take(i as int));
        }
        let ghost before = values_of(items@);
        match create_annotation_object(doc, &annotations[i], copy_appearance_streams) {
            Ok(id) => {
                items.push(reference_object(id));
                proof {
                    let ids = copied(objects, max_id, annotations@.take(i as int)).ids;
                    assert(values_of(items@) =~= before.push(Value::Reference(id)));
                    assert(listed + references_to(ids.push(id)) =~= (listed + references_to(
                        ids,
                    )).push(Value::Reference(id)));
                }
            },
            Err(e) => {
                proof {
                    lemma_copied_stops(objects, max_id, annotations@, i + 1);
                }
                return Err(e);
            },
        }
        i += 1;
    }
    proof {
        assert(annotations@.take(i as int) =~= annotations@);
    }
    link_array(doc, page_id, items)
}

/// Once the object numbers have run out, more annotations change nothing.
pub proof fn lemma_copied_stops(
    objects: Map<ObjectId, Value>,
    max_id: u32,
    annotations: Seq<PdfAnnotation>,
    n: int,
)
    requires
        0 <= n <= annotations.len(),
        !copied(objects, max_id, annotations.take(n)).complete,
    ensures
        copied(objects, max_id, annotations) == copied(objects, max_id, annotations.take(n)),
    decreases annotations.len(),
{
    if n == annotations.len() {
        assert(annotations.take(n) =~= annotations);
    } else {
        assert(annotations.drop_last().take(n) =~= annotations.take(n));
        lemma_copied_stops(objects, max_id, annotations.drop_last(), n);
    }
}

} // verus!
