//! Building labeled annotations and putting them on pages.

use crate::annotation_utils::{
    check_page, extended, link_array, linked_array, page_id_of, page_list, page_with_number,
    refusal, reports, single, splice_at, splice_on, Failure, Outcome,
};
use crate::config::FontConfig;
use crate::error::{AnnotationError, LibError, Missing};
use crate::number::Real;
use crate::pdf::{
    array_object, dictionary_entries, dictionary_object, dictionary_set, document_add,
    document_max_id, document_objects, document_pages, document_set, document_trailer,
    integer_object, key, lookup, name_object, no_entries, object_value, real_display, string_object,
    values_of, Notation, Value,
};
use crate::template::{expand_template, expanded};
use lopdf::ObjectId;
use vstd::prelude::*;
use vstd::slice::slice_to_vec;

verus! {

/// An RGB color; each component is meant to lie between 0 and 1.
#[derive(Debug)]
pub struct Color {
    pub r: Real,
    pub g: Real,
    pub b: Real,
}

impl Color {
    /// The bit patterns of the three components.
    pub open spec fn bits(self) -> (u32, u32, u32) {
        (self.r.bits(), self.g.bits(), self.b.bits())
    }
}

impl Clone for Color {
    fn clone(&self) -> (copy: Self)
        ensures
            copy.bits() == self.bits(),
    {
        Color { r: self.r.clone(), g: self.g.clone(), b: self.b.clone() }
    }
}

/// How a border is drawn: its width in points.
#[derive(Debug)]
pub struct BorderStyle {
    pub width: Real,
}

impl Clone for BorderStyle {
    fn clone(&self) -> (copy: Self)
        ensures
            copy.width.bits() == self.width.bits(),
    {
        BorderStyle { width: self.width.clone() }
    }
}

/// A rectangle in default user space, by two opposite corners.
#[derive(Debug)]
pub struct Rect {
    pub x1: Real,
    pub y1: Real,
    pub x2: Real,
    pub y2: Real,
}

impl Rect {
    /// The bit patterns of the four coordinates.
    pub open spec fn bits(self) -> (u32, u32, u32, u32) {
        (self.x1.bits(), self.y1.bits(), self.x2.bits(), self.y2.bits())
    }
}

impl Clone for Rect {
    fn clone(&self) -> (copy: Self)
        ensures
            copy.bits() == self.bits(),
    {
        Rect { x1: self.x1.clone(), y1: self.y1.clone(), x2: self.x2.clone(), y2: self.y2.clone() }
    }
}

/// A name object that holds the text.
pub open spec fn name(text: &str) -> Value {
    Value::Name(key(text))
}

/// The `/Rect` array: four reals.
pub open spec fn rect_value(rect: (u32, u32, u32, u32)) -> Value {
    Value::Array(
        seq![Value::Real(rect.0), Value::Real(rect.1), Value::Real(rect.2), Value::Real(rect.3)],
    )
}

/// A color array: three reals.
pub open spec fn color_value(color: (u32, u32, u32)) -> Value {
    Value::Array(seq![Value::Real(color.0), Value::Real(color.1), Value::Real(color.2)])
}

/// The `/Border` array of an annotation without a border.
pub open spec fn no_border() -> Value {
    Value::Array(seq![Value::Integer(0), Value::Integer(0), Value::Integer(0)])
}

/// The font dictionary of the Type 1 font Helvetica.
pub open spec fn helvetica() -> Map<Seq<u8>, Value> {
    no_entries().insert(key("Type"), name("Font")).insert(key("Subtype"), name("Type1")).insert(
        key("BaseFont"),
        name("Helvetica"),
    ).insert(key("Encoding"), name("WinAnsiEncoding")).insert(key("Name"), name("Helvetica"))
}

/// The resources of a free text annotation: one font, Helvetica, under its
/// own name.
pub open spec fn resources() -> Map<Seq<u8>, Value> {
    no_entries().insert(
        key("Font"),
        Value::Dictionary(no_entries().insert(key("Helvetica"), Value::Dictionary(helvetica()))),
    )
}

/// The default appearance of a free text annotation: Helvetica in the given
/// size, black, the tokens one space apart.
pub open spec fn default_appearance(size: u32) -> Seq<u8> {
    key("/Helvetica ") + vstd::utf8::encode_utf8(real_display(size)) + key(" Tf 0 0 0 rg")
}

/// A string object in literal notation.
pub open spec fn literal_bytes(bytes: Seq<u8>) -> Value {
    Value::Text(bytes, Notation::Literal)
}

/// The dictionary of a free text annotation: printable, without a border,
/// with its own resources and default appearance, and without an appearance
/// stream.
pub open spec fn freetext_entries(
    label: Seq<u8>,
    contents: Seq<u8>,
    rect: (u32, u32, u32, u32),
    size: u32,
) -> Map<Seq<u8>, Value> {
    no_entries().insert(key("Type"), name("Annot")).insert(key("Subtype"), name("FreeText")).insert(
        key("T"),
        literal_bytes(label),
    ).insert(key("Contents"), literal_bytes(contents)).insert(key("Rect"), rect_value(rect)).insert(
        key("F"),
        Value::Integer(4),
    ).insert(key("Border"), no_border()).insert(key("DR"), Value::Dictionary(resources())).insert(
        key("DA"),
        literal_bytes(default_appearance(size)),
    ).remove(key("AP"))
}

/// The entries with one more, where there is a value for it.
pub open spec fn with_optional(
    entries: Map<Seq<u8>, Value>,
    k: Seq<u8>,
    value: Option<Value>,
) -> Map<Seq<u8>, Value> {
    match value {
        Some(value) => entries.insert(k, value),
        None => entries,
    }
}

/// The value of an optional color.
pub open spec fn optional_color(color: Option<Color>) -> Option<Value> {
    match color {
        Some(color) => Some(color_value(color.bits())),
        None => None,
    }
}

/// The border style dictionary of a solid border of the given width.
pub open spec fn border_style_value(width: u32) -> Value {
    Value::Dictionary(no_entries().insert(key("W"), Value::Real(width)).insert(key("S"), name("S")))
}

/// The value of an optional border style.
pub open spec fn optional_border(border: Option<BorderStyle>) -> Option<Value> {
    match border {
        Some(border) => Some(border_style_value(border.width.bits())),
        None => None,
    }
}

/// The dictionary of a square annotation: printable, with the border color,
/// the interior color and the border style that are given.
pub open spec fn rect_entries(
    label: Seq<u8>,
    rect: (u32, u32, u32, u32),
    color: Option<Value>,
    interior_color: Option<Value>,
    border: Option<Value>,
) -> Map<Seq<u8>, Value> {
    with_optional(
        with_optional(
            with_optional(
                no_entries().insert(key("Type"), name("Annot")).insert(
                    key("Subtype"),
                    name("Square"),
                ).insert(key("T"), literal_bytes(label)).insert(key("Rect"), rect_value(rect)).insert(
                    key("F"),
                    Value::Integer(4),
                ),
                key("C"),
                color,
            ),
            key("IC"),
            interior_color,
        ),
        key("BS"),
        border,
    )
}

/// The id that a document hands out next.
pub open spec fn next_id(max_id: u32) -> ObjectId {
    ((max_id + 1) as u32, 0u16)
}

/// A document after an attempt to put a new annotation with the given
/// entries on the page with the given number. The page is looked at before
/// anything is written: where the list has no page of the number, where no
/// annotation can be listed on the page as the document stands, or where no
/// object number is left, the document stays as it was. Else the annotation
/// becomes a new object and is listed on the page.
pub open spec fn placed(
    objects: Map<ObjectId, Value>,
    max_id: u32,
    pages: Seq<(u32, ObjectId)>,
    number: u32,
    entries: Map<Seq<u8>, Value>,
) -> Outcome {
    match page_with_number(pages, number) {
        None => Outcome { objects, max_id, failure: Some(Failure::PageMissing) },
        Some(page_id) => match refusal(objects, page_id) {
            Some(failure) => Outcome { objects, max_id, failure: Some(failure) },
            None => if max_id == u32::MAX {
                Outcome { objects, max_id, failure: Some(Failure::Fetch) }
            } else {
                splice_on(
                    objects.insert(next_id(max_id), Value::Dictionary(entries)),
                    next_id(max_id).0,
                    page_id,
                    next_id(max_id),
                )
            },
        },
    }
}

/// Whether an attempt to put a new annotation on the page with the given
/// number ends before anything is written: the list has no page of the
/// number, or no annotation can be listed on that page as the document
/// stands.
pub open spec fn is_refused(
    objects: Map<ObjectId, Value>,
    pages: Seq<(u32, ObjectId)>,
    number: u32,
) -> bool {
    match page_with_number(pages, number) {
        None => true,
        Some(page_id) => refusal(objects, page_id) is Some,
    }
}

/// What the annotations of a run have in common: free text with a label
/// template and a contents template, or squares with a label template.
pub enum Pattern {
    FreeText { label: Seq<u8>, contents: Seq<u8>, rect: (u32, u32, u32, u32), size: u32 },
    Square {
        label: Seq<u8>,
        rect: (u32, u32, u32, u32),
        color: Option<Value>,
        interior_color: Option<Value>,
        border: Option<Value>,
    },
}

impl Pattern {
    /// The entries of the pattern's annotation for a page: the templates are
    /// filled in with the page's number.
    pub open spec fn entries(self, number: u32) -> Map<Seq<u8>, Value> {
        match self {
            Pattern::FreeText { label, contents, rect, size } => freetext_entries(
                expanded(label, number),
                expanded(contents, number),
                rect,
                size,
            ),
            Pattern::Square { label, rect, color, interior_color, border } => rect_entries(
                expanded(label, number),
                rect,
                color,
                interior_color,
                border,
            ),
        }
    }
}

/// The documents after each of a run of attempts, one for each page number
/// in turn, to put the pattern's annotation on that page. Each attempt
/// starts from the document that the one before it left, whether that one
/// failed or not.
pub open spec fn placed_each(
    objects: Map<ObjectId, Value>,
    max_id: u32,
    pages: Seq<(u32, ObjectId)>,
    numbers: Seq<u32>,
    pattern: Pattern,
) -> Seq<Outcome>
    decreases numbers.len(),
{
    if numbers.len() == 0 {
        Seq::empty()
    } else {
        let before = placed_each(objects, max_id, pages, numbers.drop_last(), pattern);
        let start = after_all(objects, max_id, before);
        before.push(
            placed(
                start.objects,
                start.max_id,
                pages,
                numbers.last(),
                pattern.entries(numbers.last()),
            ),
        )
    }
}

/// The document after a run of attempts.
pub open spec fn after_all(
    objects: Map<ObjectId, Value>,
    max_id: u32,
    run: Seq<Outcome>,
) -> Outcome {
    if run.len() == 0 {
        Outcome { objects, max_id, failure: None }
    } else {
        run.last()
    }
}

/// Whether a result tells how an attempt ended: the new annotation's id
/// where it was placed, else the error that reports the failure.
pub open spec fn tells(
    result: Result<ObjectId, LibError>,
    before: Outcome,
    outcome: Outcome,
    number: u32,
    page_id: Option<ObjectId>,
) -> bool {
    match result {
        Ok(id) => outcome.failure is None && id == next_id(before.max_id),
        Err(e) => outcome.failure is Some && reports(e, outcome.failure.unwrap(), number, page_id),
    }
}

/// A name object.
pub(crate) fn name_of(text: &str) -> (o: lopdf::Object)
    ensures
        object_value(o) == name(text),
{
    name_object(slice_to_vec(text.as_bytes()))
}

/// The `/Rect` array.
fn rect_object(rect: &Rect) -> (o: lopdf::Object)
    ensures
        object_value(o) == rect_value(rect.bits()),
{
    let mut items: Vec<lopdf::Object> = Vec::new();
    items.push(rect.x1.to_object());
    items.push(rect.y1.to_object());
    items.push(rect.x2.to_object());
    items.push(rect.y2.to_object());
    proof {
        assert(values_of(items@) =~= rect_value(rect.bits())->Array_0);
    }
    array_object(items)
}

/// A color array.
fn color_object(color: &Color) -> (o: lopdf::Object)
    ensures
        object_value(o) == color_value(color.bits()),
{
    let mut items: Vec<lopdf::Object> = Vec::new();
    items.push(color.r.to_object());
    items.push(color.g.to_object());
    items.push(color.b.to_object());
    proof {
        assert(values_of(items@) =~= color_value(color.bits())->Array_0);
    }
    array_object(items)
}

/// The `/Border` array of an annotation without a border.
fn no_border_object() -> (o: lopdf::Object)
    ensures
        object_value(o) == no_border(),
{
    let mut items: Vec<lopdf::Object> = Vec::new();
    items.push(integer_object(0));
    items.push(integer_object(0));
    items.push(integer_object(0));
    proof {
        assert(values_of(items@) =~= no_border()->Array_0);
    }
    array_object(items)
}

/// The resources of a free text annotation.
fn resources_object() -> (o: lopdf::Object)
    ensures
        object_value(o) == Value::Dictionary(resources()),
{
    let mut font = lopdf::Dictionary::new();
    dictionary_set(&mut font, "Type".as_bytes(), name_of("Font"));
    dictionary_set(&mut font, "Subtype".as_bytes(), name_of("Type1"));
    dictionary_set(&mut font, "BaseFont".as_bytes(), name_of("Helvetica"));
    dictionary_set(&mut font, "Encoding".as_bytes(), name_of("WinAnsiEncoding"));
    dictionary_set(&mut font, "Name".as_bytes(), name_of("Helvetica"));
    let mut fonts = lopdf::Dictionary::new();
    dictionary_set(&mut fonts, "Helvetica".as_bytes(), dictionary_object(font));
    let mut resources = lopdf::Dictionary::new();
    dictionary_set(&mut resources, "Font".as_bytes(), dictionary_object(fonts));
    dictionary_object(resources)
}

/// The default appearance string for a font size.
fn default_appearance_bytes(size: &Real) -> (bytes: Vec<u8>)
    ensures
        bytes@ == default_appearance(size.bits()),
{
    let mut bytes = slice_to_vec("/Helvetica ".as_bytes());
    let text = size.to_text();
    let mut tail = slice_to_vec(text.as_str().as_bytes());
    bytes.append(&mut tail);
    let mut end = slice_to_vec(" Tf 0 0 0 rg".as_bytes());
    bytes.append(&mut end);
    bytes
}

/// The dictionary of a free text annotation.
fn freetext_dictionary(label: Vec<u8>, contents: Vec<u8>, rect: &Rect, size: &Real) -> (d:
    lopdf::Dictionary)
    ensures
        dictionary_entries(d) == freetext_entries(label@, contents@, rect.bits(), size.bits()),
{
    let mut d = lopdf::Dictionary::new();
    dictionary_set(&mut d, "Type".as_bytes(), name_of("Annot"));
    dictionary_set(&mut d, "Subtype".as_bytes(), name_of("FreeText"));
    dictionary_set(&mut d, "T".as_bytes(), string_object(label));
    dictionary_set(&mut d, "Contents".as_bytes(), string_object(contents));
    dictionary_set(&mut d, "Rect".as_bytes(), rect_object(rect));
    dictionary_set(&mut d, "F".as_bytes(), integer_object(4));
    dictionary_set(&mut d, "Border".as_bytes(), no_border_object());
    dictionary_set(&mut d, "DR".as_bytes(), resources_object());
    dictionary_set(&mut d, "DA".as_bytes(), string_object(default_appearance_bytes(size)));
    d.remove("AP".as_bytes());
    d
}

/// The border style dictionary of a solid border.
fn border_style_object(border: &BorderStyle) -> (o: lopdf::Object)
    ensures
        object_value(o) == border_style_value(border.width.bits()),
{
    let mut style = lopdf::Dictionary::new();
    dictionary_set(&mut style, "W".as_bytes(), border.width.to_object());
    dictionary_set(&mut style, "S".as_bytes(), name_of("S"));
    dictionary_object(style)
}

/// The dictionary of a square annotation.
fn rect_dictionary(
    label: Vec<u8>,
    rect: &Rect,
    color: &Option<Color>,
    interior_color: &Option<Color>,
    border_style: &Option<BorderStyle>,
) -> (d: lopdf::Dictionary)
    ensures
        dictionary_entries(d) == rect_entries(
            label@,
            rect.bits(),
            optional_color(*color),
            optional_color(*interior_color),
            optional_border(*border_style),
        ),
{
    let mut d = lopdf::Dictionary::new();
    dictionary_set(&mut d, "Type".as_bytes(), name_of("Annot"));
    dictionary_set(&mut d, "Subtype".as_bytes(), name_of("Square"));
    dictionary_set(&mut d, "T".as_bytes(), string_object(label));
    dictionary_set(&mut d, "Rect".as_bytes(), rect_object(rect));
    dictionary_set(&mut d, "F".as_bytes(), integer_object(4));
    match color {
        Some(color) => dictionary_set(&mut d, "C".as_bytes(), color_object(color)),
        None => {},
    }
    match interior_color {
        Some(color) => dictionary_set(&mut d, "IC".as_bytes(), color_object(color)),
        None => {},
    }
    match border_style {
        Some(border) => dictionary_set(&mut d, "BS".as_bytes(), border_style_object(border)),
        None => {},
    }
    d
}

/// Puts a new annotation on the page with the given number, among the pages
/// as they were enumerated.
fn place(
    doc: &mut lopdf::Document,
    pages: &Vec<(u32, ObjectId)>,
    number: u32,
    annotation: lopdf::Dictionary,
) -> (r: Result<ObjectId, LibError>)
    ensures
        document_trailer(*final(doc)) == document_trailer(*old(doc)),
        is_refused(document_objects(*old(doc)), pages@, number) ==> *final(doc) == *old(doc),
        ({
            let before = Outcome {
                objects: document_objects(*old(doc)),
                max_id: document_max_id(*old(doc)),
                failure: None,
            };
            let outcome = placed(
                before.objects,
                before.max_id,
                pages@,
                number,
                dictionary_entries(annotation),
            );
            &&& document_objects(*final(doc)) == outcome.objects
            &&& document_max_id(*final(doc)) == outcome.max_id
            &&& tells(r, before, outcome, number, page_with_number(pages@, number))
        }),
{
    let page_id = match page_id_of(pages, number) {
        Some(page_id) => page_id,
        None => return Err(LibError::NotFound(Missing::Page(number))),
    };
    match check_page(doc, page_id, number) {
        Ok(()) => {},
        Err(e) => return Err(e),
    }
    let id = match document_add(doc, dictionary_object(annotation)) {
        Ok(id) => id,
        Err(e) => return Err(LibError::Pdf(e)),
    };
    match splice_at(doc, page_id, number, id) {
        Ok(()) => Ok(id),
        Err(e) => Err(e),
    }
}

/// Adds a free text annotation with a label to the page that has the given
/// number in the given list of pages, and returns its id.
///
/// The annotation is printable and has no border. It carries its own font
/// resources and the default appearance `/Helvetica <size> Tf 0 0 0 rg`, and
/// no appearance stream, so that a viewer renders the text from these. The
/// page is looked at before anything is written: where the list has no page
/// of the number, or no annotation can be listed on the page as the
/// document stands, the document stays as it was.
pub fn add_labeled_freetext_in_pages(
    doc: &mut lopdf::Document,
    page_list: &Vec<(u32, ObjectId)>,
    page_num: u32,
    label: &str,
    contents: &str,
    rect: &Rect,
    font_config: &FontConfig,
) -> (r: Result<ObjectId, LibError>)
    ensures
        document_trailer(*final(doc)) == document_trailer(*old(doc)),
        is_refused(document_objects(*old(doc)), page_list@, page_num) ==> *final(doc) == *old(doc),
        ({
            let before = Outcome {
                objects: document_objects(*old(doc)),
                max_id: document_max_id(*old(doc)),
                failure: None,
            };
            let outcome = placed(
                before.objects,
                before.max_id,
                page_list@,
                page_num,
                freetext_entries(key(label), key(contents), rect.bits(), font_config.size.bits()),
            );
            &&& document_objects(*final(doc)) == outcome.objects
            &&& document_max_id(*final(doc)) == outcome.max_id
            &&& tells(r, before, outcome, page_num, page_with_number(page_list@, page_num))
        }),
{
    let annotation = freetext_dictionary(
        slice_to_vec(label.as_bytes()),
        slice_to_vec(contents.as_bytes()),
        rect,
        &font_config.size,
    );
    place(doc, page_list, page_num, annotation)
}

/// Adds a free text annotation with a label to a page of the document, as
/// the document enumerates its pages, and returns its id. See
/// `add_labeled_freetext_in_pages`.
pub fn add_labeled_freetext(
    doc: &mut lopdf::Document,
    page_num: u32,
    label: &str,
    contents: &str,
    rect: &Rect,
    font_config: &FontConfig,
) -> (r: Result<ObjectId, LibError>)
    ensures
        document_trailer(*final(doc)) == document_trailer(*old(doc)),
        is_refused(document_objects(*old(doc)), document_pages(*old(doc)), page_num) ==> *final(doc)
            == *old(doc),
        ({
            let before = Outcome {
                objects: document_objects(*old(doc)),
                max_id: document_max_id(*old(doc)),
                failure: None,
            };
            let outcome = placed(
                before.objects,
                before.max_id,
                document_pages(*old(doc)),
                page_num,
                freetext_entries(key(label), key(contents), rect.bits(), font_config.size.bits()),
            );
            &&& document_objects(*final(doc)) == outcome.objects
            &&& document_max_id(*final(doc)) == outcome.max_id
            &&& tells(
                r,
                before,
                outcome,
                page_num,
                page_with_number(document_pages(*old(doc)), page_num),
            )
        }),
{
    let pages = page_list(doc);
    add_labeled_freetext_in_pages(doc, &pages, page_num, label, contents, rect, font_config)
}

/// Adds a square annotation with a label to the page that has the given
/// number in the given list of pages, and returns its id. The border color,
/// the interior color and the border style are written where they are
/// given. Where the list has no page of the number, or no annotation can be
/// listed on the page as the document stands, the document stays as it was.
pub fn add_labeled_rect_in_pages(
    doc: &mut lopdf::Document,
    page_list: &Vec<(u32, ObjectId)>,
    page_num: u32,
    label: &str,
    rect: &Rect,
    color: &Option<Color>,
    interior_color: &Option<Color>,
    border_style: &Option<BorderStyle>,
) -> (r: Result<ObjectId, LibError>)
    ensures
        document_trailer(*final(doc)) == document_trailer(*old(doc)),
        is_refused(document_objects(*old(doc)), page_list@, page_num) ==> *final(doc) == *old(doc),
        ({
            let before = Outcome {
                objects: document_objects(*old(doc)),
                max_id: document_max_id(*old(doc)),
                failure: None,
            };
            let outcome = placed(
                before.objects,
                before.max_id,
                page_list@,
                page_num,
                rect_entries(
                    key(label),
                    rect.bits(),
                    optional_color(*color),
                    optional_color(*interior_color),
                    optional_border(*border_style),
                ),
            );
            &&& document_objects(*final(doc)) == outcome.objects
            &&& document_max_id(*final(doc)) == outcome.max_id
            &&& tells(r, before, outcome, page_num, page_with_number(page_list@, page_num))
        }),
{
    let annotation = rect_dictionary(
        slice_to_vec(label.as_bytes()),
        rect,
        color,
        interior_color,
        border_style,
    );
    place(doc, page_list, page_num, annotation)
}

/// Adds a square annotation with a label to a page of the document, as the
/// document enumerates its pages, and returns its id. See
/// `add_labeled_rect_in_pages`.
pub fn add_labeled_rect(
    doc: &mut lopdf::Document,
    page_num: u32,
    label: &str,
    rect: &Rect,
    color: &Option<Color>,
    interior_color: &Option<Color>,
    border_style: &Option<BorderStyle>,
) -> (r: Result<ObjectId, LibError>)
    ensures
        document_trailer(*final(doc)) == document_trailer(*old(doc)),
        is_refused(document_objects(*old(doc)), document_pages(*old(doc)), page_num) ==> *final(doc)
            == *old(doc),
        ({
            let before = Outcome {
                objects: document_objects(*old(doc)),
                max_id: document_max_id(*old(doc)),
                failure: None,
            };
            let outcome = placed(
                before.objects,
                before.max_id,
                document_pages(*old(doc)),
                page_num,
                rect_entries(
                    key(label),
                    rect.bits(),
                    optional_color(*color),
                    optional_color(*interior_color),
                    optional_border(*border_style),
                ),
            );
            &&& document_objects(*final(doc)) == outcome.objects
            &&& document_max_id(*final(doc)) == outcome.max_id
            &&& tells(
                r,
                before,
                outcome,
                page_num,
                page_with_number(document_pages(*old(doc)), page_num),
            )
        }),
{
    let pages = page_list(doc);
    add_labeled_rect_in_pages(
        doc,
        &pages,
        page_num,
        label,
        rect,
        color,
        interior_color,
        border_style,
    )
}

/// Whether the results tell how each attempt of a run ended.
pub open spec fn tell_each(
    results: Seq<Result<ObjectId, LibError>>,
    objects: Map<ObjectId, Value>,
    max_id: u32,
    pages: Seq<(u32, ObjectId)>,
    numbers: Seq<u32>,
    run: Seq<Outcome>,
) -> bool {
    &&& results.len() == numbers.len()
    &&& run.len() == numbers.len()
    &&& forall|i: int|
        0 <= i < numbers.len() ==> tells(
            #[trigger] results[i],
            after_all(objects, max_id, run.take(i)),
            run[i],
            numbers[i],
            page_with_number(pages, numbers[i]),
        )
}

/// The run over the first numbers is the beginning of the run over all.
pub proof fn lemma_placed_each_prefix(
    objects: Map<ObjectId, Value>,
    max_id: u32,
    pages: Seq<(u32, ObjectId)>,
    numbers: Seq<u32>,
    pattern: Pattern,
    n: int,
)
    requires
        0 <= n <= numbers.len(),
    ensures
        placed_each(objects, max_id, pages, numbers, pattern).len() == numbers.len(),
        placed_each(objects, max_id, pages, numbers.take(n), pattern) == placed_each(
            objects,
            max_id,
            pages,
            numbers,
            pattern,
        ).take(n),
    decreases numbers.len(),
{
    if numbers.len() > 0 {
        lemma_placed_each_prefix(objects, max_id, pages, numbers.drop_last(), pattern, 0);
        if n == numbers.len() {
            assert(numbers.take(n) =~= numbers);
            assert(placed_each(objects, max_id, pages, numbers, pattern).take(n) =~= placed_each(
                objects,
                max_id,
                pages,
                numbers,
                pattern,
            ));
        } else {
            lemma_placed_each_prefix(objects, max_id, pages, numbers.drop_last(), pattern, n);
            assert(numbers.drop_last().take(n) =~= numbers.take(n));
            assert(placed_each(objects, max_id, pages, numbers, pattern).take(n) =~= placed_each(
                objects,
                max_id,
                pages,
                numbers.drop_last(),
                pattern,
            ).take(n));
        }
    } else {
        assert(numbers.take(n) =~= numbers);
        assert(placed_each(objects, max_id, pages, numbers, pattern).take(n) =~= placed_each(
            objects,
            max_id,
            pages,
            numbers,
            pattern,
        ));
    }
}

/// Puts the pattern's annotation on each of the pages in turn.
fn place_each(
    doc: &mut lopdf::Document,
    page_list: &Vec<(u32, ObjectId)>,
    numbers: &[u32],
    label_template: &str,
    contents_template: &str,
    rect: &Rect,
    size: Option<&Real>,
    color: &Option<Color>,
    interior_color: &Option<Color>,
    border_style: &Option<BorderStyle>,
) -> (results: Vec<Result<ObjectId, LibError>>)
    ensures
        document_trailer(*final(doc)) == document_trailer(*old(doc)),
        ({
            let pattern = match size {
                Some(size) => Pattern::FreeText {
                    label: key(label_template),
                    contents: key(contents_template),
                    rect: rect.bits(),
                    size: size.bits(),
                },
                None => Pattern::Square {
                    label: key(label_template),
                    rect: rect.bits(),
                    color: optional_color(*color),
                    interior_color: optional_color(*interior_color),
                    border: optional_border(*border_style),
                },
            };
            let objects = document_objects(*old(doc));
            let max_id = document_max_id(*old(doc));
            let run = placed_each(objects, max_id, page_list@, numbers@, pattern);
            &&& document_objects(*final(doc)) == after_all(objects, max_id, run).objects
            &&& document_max_id(*final(doc)) == after_all(objects, max_id, run).max_id
            &&& tell_each(results@, objects, max_id, page_list@, numbers@, run)
        }),
{
    let ghost pattern = match size {
        Some(size) => Pattern::FreeText {
            label: key(label_template),
            contents: key(contents_template),
            rect: rect.bits(),
            size: size.bits(),
        },
        None => Pattern::Square {
            label: key(label_template),
            rect: rect.bits(),
            color: optional_color(*color),
            interior_color: optional_color(*interior_color),
            border: optional_border(*border_style),
        },
    };
    let ghost objects = document_objects(*doc);
    let ghost max_id = document_max_id(*doc);
    let ghost run = placed_each(objects, max_id, page_list@, numbers@, pattern);
    let mut results: Vec<Result<ObjectId, LibError>> = Vec::new();
    let mut i: usize = 0;
    proof {
        lemma_placed_each_prefix(objects, max_id, page_list@, numbers@, pattern, 0);
    }
    while i < numbers.len()
        invariant
            i <= numbers.len(),
            run == placed_each(objects, max_id, page_list@, numbers@, pattern),
            run.len() == numbers@.len(),
            pattern == match size {
                Some(size) => Pattern::FreeText {
                    label: key(label_template),
                    contents: key(contents_template),
                    rect: rect.bits(),
                    size: size.bits(),
                },
                None => Pattern::Square {
                    label: key(label_template),
                    rect: rect.bits(),
                    color: optional_color(*color),
                    interior_color: optional_color(*interior_color),
                    border: optional_border(*border_style),
                },
            },
            document_trailer(*doc) == document_trailer(*old(doc)),
            document_objects(*doc) == after_all(objects, max_id, run.take(i as int)).objects,
            document_max_id(*doc) == after_all(objects, max_id, run.take(i as int)).max_id,
            results@.len() == i,
            forall|j: int|
                0 <= j < i ==> tells(
                    #[trigger] results@[j],
                    after_all(objects, max_id, run.take(j)),
                    run[j],
                    numbers@[j],
                    page_with_number(page_list@, numbers@[j]),
                ),
        decreases numbers.len() - i,
    {
        let number = numbers[i];
        proof {
            lemma_placed_each_prefix(objects, max_id, page_list@, numbers@, pattern, i as int);
            lemma_placed_each_prefix(objects, max_id, page_list@, numbers@, pattern, i + 1);
            assert(numbers@.take(i + 1).drop_last() =~= numbers@.take(i as int));
            assert(run.take(i + 1).last() == run[i as int]);
        }
        let label = expand_template(label_template, number);
        let annotation = match size {
            Some(size) => freetext_dictionary(
                label,
                expand_template(contents_template, number),
                rect,
                size,
            ),
            None => rect_dictionary(label, rect, color, interior_color, border_style),
        };
        let result = place(doc, page_list, number, annotation);
        results.push(result);
        i += 1;
    }
    proof {
        assert(run.take(i as int) =~= run);
    }
    results
}

/// Adds a free text annotation to each of the pages, taken by their numbers
/// from the given list of pages, in the order given, and returns for each
/// page the new annotation's id or the error. In the label and in the
/// contents, `{page}` stands for the page's number. A page that fails does
/// not stop the run.
pub fn add_labeled_freetext_multi_in_pages(
    doc: &mut lopdf::Document,
    page_list: &Vec<(u32, ObjectId)>,
    pages: &[u32],
    label_template: &str,
    contents_template: &str,
    rect: &Rect,
    font_config: &FontConfig,
) -> (results: Vec<Result<ObjectId, LibError>>)
    ensures
        document_trailer(*final(doc)) == document_trailer(*old(doc)),
        ({
            let pattern = Pattern::FreeText {
                label: key(label_template),
                contents: key(contents_template),
                rect: rect.bits(),
                size: font_config.size.bits(),
            };
            let objects = document_objects(*old(doc));
            let max_id = document_max_id(*old(doc));
            let run = placed_each(objects, max_id, page_list@, pages@, pattern);
            &&& document_objects(*final(doc)) == after_all(objects, max_id, run).objects
            &&& document_max_id(*final(doc)) == after_all(objects, max_id, run).max_id
            &&& tell_each(results@, objects, max_id, page_list@, pages@, run)
        }),
{
    place_each(
        doc,
        page_list,
        pages,
        label_template,
        contents_template,
        rect,
        Some(&font_config.size),
        &None,
        &None,
        &None,
    )
}

/// Adds a free text annotation to each of the pages of the document, as the
/// document enumerates its pages before the run. See
/// `add_labeled_freetext_multi_in_pages`.
pub fn add_labeled_freetext_multi(
    doc: &mut lopdf::Document,
    pages: &[u32],
    label_template: &str,
    contents_template: &str,
    rect: &Rect,
    font_config: &FontConfig,
) -> (results: Vec<Result<ObjectId, LibError>>)
    ensures
        document_trailer(*final(doc)) == document_trailer(*old(doc)),
        ({
            let pattern = Pattern::FreeText {
                label: key(label_template),
                contents: key(contents_template),
                rect: rect.bits(),
                size: font_config.size.bits(),
            };
            let objects = document_objects(*old(doc));
            let max_id = document_max_id(*old(doc));
            let run = placed_each(objects, max_id, document_pages(*old(doc)), pages@, pattern);
            &&& document_objects(*final(doc)) == after_all(objects, max_id, run).objects
            &&& document_max_id(*final(doc)) == after_all(objects, max_id, run).max_id
            &&& tell_each(results@, objects, max_id, document_pages(*old(doc)), pages@, run)
        }),
{
    let list = page_list(doc);
    add_labeled_freetext_multi_in_pages(
        doc,
        &list,
        pages,
        label_template,
        contents_template,
        rect,
        font_config,
    )
}

/// Adds a square annotation to each of the pages, taken by their numbers
/// from the given list of pages, in the order given, and returns for each
/// page the new annotation's id or the error. In the label, `{page}` stands
/// for the page's number. A page that fails does not stop the run.
pub fn add_labeled_rect_multi_in_pages(
    doc: &mut lopdf::Document,
    page_list: &Vec<(u32, ObjectId)>,
    pages: &[u32],
    label_template: &str,
    rect: &Rect,
    color: &Option<Color>,
    interior_color: &Option<Color>,
    border_style: &Option<BorderStyle>,
) -> (results: Vec<Result<ObjectId, LibError>>)
    ensures
        document_trailer(*final(doc)) == document_trailer(*old(doc)),
        ({
            let pattern = Pattern::Square {
                label: key(label_template),
                rect: rect.bits(),
                color: optional_color(*color),
                interior_color: optional_color(*interior_color),
                border: optional_border(*border_style),
            };
            let objects = document_objects(*old(doc));
            let max_id = document_max_id(*old(doc));
            let run = placed_each(objects, max_id, page_list@, pages@, pattern);
            &&& document_objects(*final(doc)) == after_all(objects, max_id, run).objects
            &&& document_max_id(*final(doc)) == after_all(objects, max_id, run).max_id
            &&& tell_each(results@, objects, max_id, page_list@, pages@, run)
        }),
{
    place_each(
        doc,
        page_list,
        pages,
        label_template,
        "",
        rect,
        None,
        color,
        interior_color,
        border_style,
    )
}

/// Adds a square annotation to each of the pages of the document, as the
/// document enumerates its pages before the run. See
/// `add_labeled_rect_multi_in_pages`.
pub fn add_labeled_rect_multi(
    doc: &mut lopdf::Document,
    pages: &[u32],
    label_template: &str,
    rect: &Rect,
    color: &Option<Color>,
    interior_color: &Option<Color>,
    border_style: &Option<BorderStyle>,
) -> (results: Vec<Result<ObjectId, LibError>>)
    ensures
        document_trailer(*final(doc)) == document_trailer(*old(doc)),
        ({
            let pattern = Pattern::Square {
                label: key(label_template),
                rect: rect.bits(),
                color: optional_color(*color),
                interior_color: optional_color(*interior_color),
                border: optional_border(*border_style),
            };
            let objects = document_objects(*old(doc));
            let max_id = document_max_id(*old(doc));
            let run = placed_each(objects, max_id, document_pages(*old(doc)), pages@, pattern);
            &&& document_objects(*final(doc)) == after_all(objects, max_id, run).objects
            &&& document_max_id(*final(doc)) == after_all(objects, max_id, run).max_id
            &&& tell_each(results@, objects, max_id, document_pages(*old(doc)), pages@, run)
        }),
{
    let list = page_list(doc);
    add_labeled_rect_multi_in_pages(
        doc,
        &list,
        pages,
        label_template,
        rect,
        color,
        interior_color,
        border_style,
    )
}

/// Whether every attempt of a run succeeded.
pub fn all_succeeded(results: &Vec<Result<ObjectId, LibError>>) -> (r: bool)
    ensures
        r == forall|i: int| 0 <= i < results@.len() ==> results@[i] is Ok,
{
    let mut i: usize = 0;
    while i < results.len()
        invariant
            i <= results.len(),
            forall|j: int| 0 <= j < i ==> results@[j] is Ok,
        decreases results.len() - i,
    {
        if results[i].is_err() {
            return false;
        }
        i += 1;
    }
    true
}

/// The dictionary of a text stamp: a free text annotation without a label.
pub open spec fn stamp_entries(contents: Seq<u8>, rect: (u32, u32, u32, u32), size: u32) -> Map<
    Seq<u8>,
    Value,
> {
    no_entries().insert(key("Type"), name("Annot")).insert(key("Subtype"), name("FreeText")).insert(
        key("Contents"),
        literal_bytes(contents),
    ).insert(key("Rect"), rect_value(rect)).insert(key("DR"), Value::Dictionary(resources())).insert(
        key("DA"),
        literal_bytes(default_appearance(size)),
    ).remove(key("AP")).insert(key("Border"), no_border()).insert(key("F"), Value::Integer(4))
}

/// A document after an attempt to stamp a page. The page is looked at
/// before anything is written: where its id does not lead to a dictionary,
/// the document stays as it was. Else the stamp becomes a new
/// object, and the page lists it. An annotation array that the page refers
/// to gets the reference appended under its id. An array in the page
/// dictionary becomes, with the reference appended, an object of its own
/// that the page refers to; a page without either gets such an object that
/// holds the reference alone.
pub open spec fn stamped(
    objects: Map<ObjectId, Value>,
    max_id: u32,
    page_id: ObjectId,
    entries: Map<Seq<u8>, Value>,
) -> Outcome {
    if !(lookup(objects, page_id) matches Some(Value::Dictionary(_))) {
        Outcome { objects, max_id, failure: Some(Failure::PageNotDictionary) }
    } else if max_id == u32::MAX {
        Outcome { objects, max_id, failure: Some(Failure::Fetch) }
    } else {
        let id = next_id(max_id);
        let added = objects.insert(id, Value::Dictionary(entries));
        match lookup(added, page_id) {
            Some(Value::Dictionary(page)) => match stamp_place(added, page) {
                StampPlace::Referenced(array_id, items) => Outcome {
                    objects: added.insert(
                        array_id,
                        Value::Array(items.push(Value::Reference(id))),
                    ),
                    max_id: id.0,
                    failure: None,
                },
                StampPlace::Own(items) => linked_array(
                    added,
                    id.0,
                    page_id,
                    Value::Array(items.push(Value::Reference(id))),
                ),
            },
            _ => Outcome {
                objects: added,
                max_id: id.0,
                failure: Some(Failure::PageNotDictionary),
            },
        }
    }
}

/// Where a page keeps the annotations that a stamp joins.
pub enum StampPlace {
    /// In an array that the page refers to, under this id and with these
    /// elements.
    Referenced(ObjectId, Seq<Value>),
    /// In the page dictionary, with these elements; none where the page has
    /// no array and refers to none.
    Own(Seq<Value>),
}

/// Where a page keeps its annotations.
pub open spec fn stamp_place(
    objects: Map<ObjectId, Value>,
    page: Map<Seq<u8>, Value>,
) -> StampPlace {
    if page.contains_key(key("Annots")) {
        match page[key("Annots")] {
            Value::Array(items) => StampPlace::Own(items),
            Value::Reference(array_id) => match lookup(objects, array_id) {
                Some(Value::Array(items)) => StampPlace::Referenced(array_id, items),
                _ => StampPlace::Own(Seq::empty()),
            },
            _ => StampPlace::Own(Seq::empty()),
        }
    } else {
        StampPlace::Own(Seq::empty())
    }
}

/// Stamps text onto pages in one font.
#[derive(Debug)]
pub struct Annotator {
    font_config: FontConfig,
    font_data: Vec<u8>,
}

/// Where the annotations of a page are, with the new reference appended.
enum Place {
    Referenced(ObjectId, Vec<lopdf::Object>),
    Own(Vec<lopdf::Object>),
}

impl Annotator {
    /// The font settings.
    pub closed spec fn font(self) -> FontConfig {
        self.font_config
    }

    /// The bytes of the font file.
    pub closed spec fn data(self) -> Seq<u8> {
        self.font_data@
    }

    /// An annotator for a font. `primary` holds the file of the configured
    /// family, where it could be loaded; `fallback` that of the fallback
    /// family. The fallback is taken only where the first is missing and a
    /// fallback family is configured.
    pub fn new(font_config: FontConfig, primary: Option<Vec<u8>>, fallback: Option<Vec<u8>>) -> (r:
        Result<Self, AnnotationError>)
        ensures
            match r {
                Ok(annotator) => annotator.font() == font_config && match primary {
                    Some(data) => annotator.data() == data@,
                    None => font_config.fallback is Some && (fallback matches Some(data)
                        && annotator.data() == data@),
                },
                Err(e) => primary is None && (font_config.fallback is None || fallback is None)
                    && (e matches AnnotationError::FontError(family) && family@
                    == font_config.family@),
            },
    {
        match primary {
            Some(font_data) => Ok(Annotator { font_config, font_data }),
            None => {
                if font_config.fallback.is_some() {
                    match fallback {
                        Some(font_data) => return Ok(Annotator { font_config, font_data }),
                        None => {},
                    }
                }
                Err(AnnotationError::FontError(font_config.family))
            },
        }
    }

    /// The font settings.
    pub fn font_config(&self) -> (font: &FontConfig)
        ensures
            *font == self.font(),
    {
        &self.font_config
    }

    /// The bytes of the font file.
    pub fn font_data(&self) -> (data: &Vec<u8>)
        ensures
            data@ == self.data(),
    {
        &self.font_data
    }

    /// Stamps a text onto a page as a free text annotation in the given
    /// rectangle, in the annotator's font size. The annotation is printable
    /// and has no border; it carries its own font resources and default
    /// appearance, and no appearance stream.
    pub fn add_text_annotation(
        &self,
        doc: &mut lopdf::Document,
        page_id: ObjectId,
        text: &str,
        rect: &Rect,
    ) -> (r: Result<(), AnnotationError>)
        ensures
            document_trailer(*final(doc)) == document_trailer(*old(doc)),
            !(lookup(document_objects(*old(doc)), page_id) matches Some(Value::Dictionary(_)))
                ==> *final(doc) == *old(doc),
            ({
                let outcome = stamped(
                    document_objects(*old(doc)),
                    document_max_id(*old(doc)),
                    page_id,
                    stamp_entries(key(text), rect.bits(), self.font().size.bits()),
                );
                &&& document_objects(*final(doc)) == outcome.objects
                &&& document_max_id(*final(doc)) == outcome.max_id
                &&& match r {
                    Ok(()) => outcome.failure is None,
                    Err(AnnotationError::PdfError(_)) => outcome.failure == Some(Failure::Fetch),
                    Err(AnnotationError::ContentStreamError(_)) => outcome.failure == Some(
                        Failure::PageNotDictionary,
                    ),
                    Err(_) => false,
                }
            }),
    {
        let mut stamp = lopdf::Dictionary::new();
        dictionary_set(&mut stamp, "Type".as_bytes(), name_of("Annot"));
        dictionary_set(&mut stamp, "Subtype".as_bytes(), name_of("FreeText"));
        dictionary_set(
            &mut stamp,
            "Contents".as_bytes(),
            string_object(slice_to_vec(text.as_bytes())),
        );
        dictionary_set(&mut stamp, "Rect".as_bytes(), rect_object(rect));
        dictionary_set(&mut stamp, "DR".as_bytes(), resources_object());
        dictionary_set(
            &mut stamp,
            "DA".as_bytes(),
            string_object(default_appearance_bytes(&self.font_config.size)),
        );
        stamp.remove("AP".as_bytes());
        dictionary_set(&mut stamp, "Border".as_bytes(), no_border_object());
        dictionary_set(&mut stamp, "F".as_bytes(), integer_object(4));
        if doc.get_dictionary(page_id).is_err() {
            return Err(
                AnnotationError::ContentStreamError("Failed to get page dictionary".to_string()),
            );
        }
        let id = match document_add(doc, dictionary_object(stamp)) {
            Ok(id) => id,
            Err(e) => return Err(AnnotationError::PdfError(e)),
        };
        let place = match read_place(doc, page_id, id) {
            Some(place) => place,
            None => return Err(
                AnnotationError::ContentStreamError("Failed to get page dictionary".to_string()),
            ),
        };
        match place {
            Place::Referenced(array_id, items) => {
                document_set(doc, array_id, array_object(items));
                Ok(())
            },
            Place::Own(items) => match link_array(doc, page_id, items) {
                Ok(()) => Ok(()),
                Err(LibError::Pdf(e)) => Err(AnnotationError::PdfError(e)),
                Err(_) => Err(
                    AnnotationError::ContentStreamError(
                        "Failed to get page dictionary".to_string(),
                    ),
                ),
            },
        }
    }
}

/// Reads where a page keeps its annotations, and copies them with the new
/// reference appended.
fn read_place(doc: &lopdf::Document, page_id: ObjectId, id: ObjectId) -> (r: Option<Place>)
    ensures
        match lookup(document_objects(*doc), page_id) {
            Some(Value::Dictionary(page)) => match stamp_place(document_objects(*doc), page) {
                StampPlace::Referenced(array_id, items) => r matches Some(
                    Place::Referenced(at, copy),
                ) && at == array_id && values_of(copy@) == items.push(Value::Reference(id)),
                StampPlace::Own(items) => r matches Some(Place::Own(copy)) && values_of(copy@)
                    == items.push(Value::Reference(id)),
            },
            _ => r is None,
        },
{
    let page = match doc.get_dictionary(page_id) {
        Ok(page) => page,
        Err(_) => return None,
    };
    proof {
        assert(Seq::<Value>::empty().push(Value::Reference(id)) =~= seq![Value::Reference(id)]);
    }
    match page.get("Annots".as_bytes()) {
        Ok(annots) => match annots.as_array() {
            Ok(items) => Some(Place::Own(extended(items, id))),
            Err(_) => match annots.as_reference() {
                Ok(array_id) => match doc.get_object(array_id) {
                    Ok(target) => match target.as_array() {
                        Ok(items) => Some(Place::Referenced(array_id, extended(items, id))),
                        Err(_) => Some(Place::Own(single(id))),
                    },
                    Err(_) => Some(Place::Own(single(id))),
                },
                Err(_) => Some(Place::Own(single(id))),
            },
        },
        Err(_) => Some(Place::Own(single(id))),
    }
}

} // verus!
