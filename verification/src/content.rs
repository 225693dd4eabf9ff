//! Stamping text into the content stream of a page, and the font that the
//! text needs among the page's resources.

use crate::annotation::{helvetica, name, name_of, next_id, stamp_entries, stamped, Annotator, Rect};
use crate::error::AnnotationError;
use crate::number::Real;
use crate::pdf::{
    content_decode, content_encode, content_encoding, content_operations, dictionary_entries,
    dictionary_object, dictionary_set, document_add, document_objects, document_set,
    hexadecimal_object, integer_as_real, integer_object, key, lookup, no_entries, object_value,
    operation_value, reference_object, resolve, stream_content, stream_dictionary, stream_object,
    stream_value, string_object, values_of, Notation, Step, Value,
};
use crate::processor::{graph_of, Graph};
use crate::text::append;
use lopdf::ObjectId;
use vstd::prelude::*;
use vstd::slice::slice_to_vec;

verus! {

/// Why text could not be stamped into a page.
pub enum Trouble {
    /// A new object was needed and no object number was left.
    NoNumber,
    /// The page is no dictionary.
    Page,
    /// The page's `/Contents` does not lead to a content stream.
    Contents,
    /// The page's `/Resources` do not lead to dictionaries.
    Resources,
    /// The content stream cannot be decoded.
    Decode,
    /// The operations cannot be encoded.
    Encode,
}

/// Whether an error reports the trouble.
pub open spec fn troubled(e: AnnotationError, trouble: Trouble) -> bool {
    match trouble {
        Trouble::NoNumber => e is PdfError,
        _ => e is ContentStreamError,
    }
}

/// A graph in which the dictionary that an id stands for is replaced.
pub open spec fn updated(g: Graph, id: ObjectId, entries: Map<Seq<u8>, Value>) -> Graph {
    Graph {
        objects: g.objects.insert(resolve(g.objects, id).unwrap(), Value::Dictionary(entries)),
        trailer: g.trailer,
        max_id: g.max_id,
    }
}

/// A graph with one more object, under the next id.
pub open spec fn grown(g: Graph, object: Value) -> Graph {
    Graph {
        objects: g.objects.insert(next_id(g.max_id), object),
        trailer: g.trailer,
        max_id: next_id(g.max_id).0,
    }
}

/// A graph after an attempt to find or make a dictionary or a stream: the
/// id of what was found or made, or the trouble.
pub struct Located {
    pub graph: Graph,
    pub id: Result<ObjectId, Trouble>,
}

/// The page's resources as an object of their own. Resources that the page
/// refers to are that already. Resources in the page dictionary, or none at
/// all, become a new object that the page refers to.
pub open spec fn located_resources(g: Graph, page_id: ObjectId) -> Located {
    match lookup(g.objects, page_id) {
        Some(Value::Dictionary(page)) => {
            let inline = if page.contains_key(key("Resources")) {
                match page[key("Resources")] {
                    Value::Dictionary(resources) => Some(resources),
                    _ => None,
                }
            } else {
                Some(no_entries())
            };
            if page.contains_key(key("Resources")) && page[key("Resources")] is Reference {
                Located { graph: g, id: Ok(page[key("Resources")]->Reference_0) }
            } else if inline is None {
                Located { graph: g, id: Err(Trouble::Resources) }
            } else if g.max_id == u32::MAX {
                Located { graph: g, id: Err(Trouble::NoNumber) }
            } else {
                let added = grown(g, Value::Dictionary(inline.unwrap()));
                match lookup(added.objects, page_id) {
                    Some(Value::Dictionary(current)) => Located {
                        graph: updated(
                            added,
                            page_id,
                            current.insert(key("Resources"), Value::Reference(next_id(g.max_id))),
                        ),
                        id: Ok(next_id(g.max_id)),
                    },
                    _ => Located { graph: added, id: Err(Trouble::Page) },
                }
            }
        },
        _ => Located { graph: g, id: Err(Trouble::Page) },
    }
}

/// A font dictionary with one more font under a name, unless it has one
/// there.
pub open spec fn with_font(fonts: Map<Seq<u8>, Value>, font_name: Seq<u8>) -> Map<Seq<u8>, Value> {
    if fonts.contains_key(font_name) {
        fonts
    } else {
        fonts.insert(font_name, Value::Dictionary(helvetica()))
    }
}

/// A graph after an attempt to change it: the trouble, if there was any.
pub struct Changed {
    pub graph: Graph,
    pub trouble: Option<Trouble>,
}

/// The font under a name among resources. Where `/Font` is a reference, the
/// dictionary it leads to gets the font; where it is a dictionary, that
/// one; where it is anything else or missing, a new dictionary with the
/// font takes its place.
pub open spec fn font_added(g: Graph, resources_id: ObjectId, font_name: Seq<u8>) -> Changed {
    match lookup(g.objects, resources_id) {
        Some(Value::Dictionary(resources)) => {
            let font = if resources.contains_key(key("Font")) {
                resources[key("Font")]
            } else {
                Value::Null
            };
            match font {
                Value::Reference(fonts_id) => match lookup(g.objects, fonts_id) {
                    Some(Value::Dictionary(fonts)) => Changed {
                        graph: updated(g, fonts_id, with_font(fonts, font_name)),
                        trouble: None,
                    },
                    _ => Changed { graph: g, trouble: Some(Trouble::Resources) },
                },
                Value::Dictionary(fonts) => Changed {
                    graph: updated(
                        g,
                        resources_id,
                        resources.insert(
                            key("Font"),
                            Value::Dictionary(with_font(fonts, font_name)),
                        ),
                    ),
                    trouble: None,
                },
                _ => Changed {
                    graph: updated(
                        g,
                        resources_id,
                        resources.insert(
                            key("Font"),
                            Value::Dictionary(with_font(no_entries(), font_name)),
                        ),
                    ),
                    trouble: None,
                },
            }
        },
        _ => Changed { graph: g, trouble: Some(Trouble::Resources) },
    }
}

/// A page with a font under a name among its resources.
pub open spec fn font_ensured(g: Graph, page_id: ObjectId, font_name: Seq<u8>) -> Changed {
    let located = located_resources(g, page_id);
    match located.id {
        Ok(resources_id) => font_added(located.graph, resources_id, font_name),
        Err(trouble) => Changed { graph: located.graph, trouble: Some(trouble) },
    }
}

/// An error for a page or a stream of an unexpected shape, with its message.
fn shape_error(message: &str) -> (e: AnnotationError)
    ensures
        e matches AnnotationError::ContentStreamError(text) && text@ == message@,
{
    AnnotationError::ContentStreamError(message.to_string())
}

/// Whether an attempt ended as an error tells.
pub open spec fn tells_trouble(r: Result<(), AnnotationError>, trouble: Option<Trouble>) -> bool {
    match r {
        Ok(()) => trouble is None,
        Err(e) => trouble matches Some(t) && troubled(e, t),
    }
}

/// Writes an entry of the dictionary that an id stands for.
fn set_entry(doc: &mut lopdf::Document, id: ObjectId, name: &str, value: lopdf::Object) -> (done:
    bool)
    ensures
        match lookup(document_objects(*old(doc)), id) {
            Some(Value::Dictionary(entries)) => done && graph_of(*final(doc)) == updated(
                graph_of(*old(doc)),
                id,
                entries.insert(key(name), object_value(value)),
            ),
            _ => !done && graph_of(*final(doc)) == graph_of(*old(doc)),
        },
{
    match doc.get_dictionary_mut(id) {
        Ok(entries) => {
            dictionary_set(entries, name.as_bytes(), value);
            true
        },
        Err(_) => false,
    }
}

/// Adds an object to the document.
fn grow(doc: &mut lopdf::Document, object: lopdf::Object) -> (r: Result<ObjectId, AnnotationError>)
    ensures
        match r {
            Ok(id) => document_max(*old(doc)) < u32::MAX && id == next_id(document_max(*old(doc)))
                && graph_of(*final(doc)) == grown(graph_of(*old(doc)), object_value(object)),
            Err(e) => document_max(*old(doc)) == u32::MAX && graph_of(*final(doc)) == graph_of(
                *old(doc),
            ) && e is PdfError,
        },
{
    match document_add(doc, object) {
        Ok(id) => Ok(id),
        Err(e) => Err(AnnotationError::PdfError(e)),
    }
}

/// The highest object number that a document has handed out.
pub open spec fn document_max(doc: lopdf::Document) -> u32 {
    graph_of(doc).max_id
}

/// What a page holds under `/Resources`.
enum Resources {
    Referenced(ObjectId),
    Inline(lopdf::Dictionary),
}

/// Reads a page's resources.
fn read_resources(doc: &lopdf::Document, page_id: ObjectId) -> (r: Result<
    Resources,
    AnnotationError,
>)
    ensures
        match lookup(document_objects(*doc), page_id) {
            Some(Value::Dictionary(page)) => if page.contains_key(key("Resources")) {
                match page[key("Resources")] {
                    Value::Reference(id) => r matches Ok(Resources::Referenced(at)) && at == id,
                    Value::Dictionary(resources) => r matches Ok(Resources::Inline(copy))
                        && dictionary_entries(copy) == resources,
                    _ => r matches Err(e) && e is ContentStreamError,
                }
            } else {
                r matches Ok(Resources::Inline(copy)) && dictionary_entries(copy) == no_entries()
            },
            _ => r matches Err(e) && e is ContentStreamError,
        },
{
    let page = match doc.get_dictionary(page_id) {
        Ok(page) => page,
        Err(_) => return Err(shape_error("Failed to get page dictionary")),
    };
    match page.get("Resources".as_bytes()) {
        Ok(resources) => match resources.as_reference() {
            Ok(id) => Ok(Resources::Referenced(id)),
            Err(_) => match resources.as_dict() {
                Ok(inline) => Ok(Resources::Inline(inline.clone())),
                Err(_) => Err(shape_error("Unexpected resources format")),
            },
        },
        Err(_) => Ok(Resources::Inline(lopdf::Dictionary::new())),
    }
}

/// Makes the page's resources an object of their own.
fn locate_resources(doc: &mut lopdf::Document, page_id: ObjectId) -> (r: Result<
    ObjectId,
    AnnotationError,
>)
    ensures
        graph_of(*final(doc)) == located_resources(graph_of(*old(doc)), page_id).graph,
        match r {
            Ok(id) => located_resources(graph_of(*old(doc)), page_id).id == Ok::<ObjectId, Trouble>(
                id,
            ),
            Err(e) => located_resources(graph_of(*old(doc)), page_id).id matches Err(t)
                && troubled(e, t),
        },
{
    match read_resources(doc, page_id)? {
        Resources::Referenced(id) => Ok(id),
        Resources::Inline(resources) => {
            let id = grow(doc, dictionary_object(resources))?;
            if set_entry(doc, page_id, "Resources", reference_object(id)) {
                Ok(id)
            } else {
                Err(shape_error("Failed to get page dictionary"))
            }
        },
    }
}

/// The font dictionary of Helvetica.
fn font_object() -> (o: lopdf::Object)
    ensures
        object_value(o) == Value::Dictionary(helvetica()),
{
    let mut font = lopdf::Dictionary::new();
    dictionary_set(&mut font, "Type".as_bytes(), name_of("Font"));
    dictionary_set(&mut font, "Subtype".as_bytes(), name_of("Type1"));
    dictionary_set(&mut font, "BaseFont".as_bytes(), name_of("Helvetica"));
    dictionary_set(&mut font, "Encoding".as_bytes(), name_of("WinAnsiEncoding"));
    dictionary_set(&mut font, "Name".as_bytes(), name_of("Helvetica"));
    dictionary_object(font)
}

/// A copy of a font dictionary with the font under the name.
fn fonts_with(fonts: &lopdf::Dictionary, font_name: &str) -> (r: lopdf::Dictionary)
    ensures
        dictionary_entries(r) == with_font(dictionary_entries(*fonts), key(font_name)),
{
    let mut copy = fonts.clone();
    if !copy.has(font_name.as_bytes()) {
        dictionary_set(&mut copy, font_name.as_bytes(), font_object());
    }
    copy
}

/// Where the fonts of some resources are kept.
enum Fonts {
    /// In a dictionary that the resources refer to: its id, and a copy with
    /// the font.
    Referenced(ObjectId, lopdf::Dictionary),
    /// In the resources: a copy of the resources with the font.
    Inline(lopdf::Dictionary),
}

/// Reads the fonts of some resources and copies them with the font added.
fn read_fonts(doc: &lopdf::Document, resources_id: ObjectId, font_name: &str) -> (r: Option<Fonts>)
    ensures
        match r {
            Some(Fonts::Referenced(id, fonts)) => font_added(
                graph_of(*doc),
                resources_id,
                key(font_name),
            ) == (Changed {
                graph: updated(graph_of(*doc), id, dictionary_entries(fonts)),
                trouble: None,
            }) && lookup(document_objects(*doc), id) is Some && lookup(
                document_objects(*doc),
                id,
            ).unwrap() is Dictionary,
            Some(Fonts::Inline(resources)) => font_added(
                graph_of(*doc),
                resources_id,
                key(font_name),
            ) == (Changed {
                graph: updated(graph_of(*doc), resources_id, dictionary_entries(resources)),
                trouble: None,
            }) && lookup(document_objects(*doc), resources_id) is Some && lookup(
                document_objects(*doc),
                resources_id,
            ).unwrap() is Dictionary,
            None => font_added(graph_of(*doc), resources_id, key(font_name)) == (Changed {
                graph: graph_of(*doc),
                trouble: Some(Trouble::Resources),
            }),
        },
{
    let resources = match doc.get_dictionary(resources_id) {
        Ok(resources) => resources,
        Err(_) => return None,
    };
    let fonts = match resources.get("Font".as_bytes()) {
        Ok(font) => match font.as_reference() {
            Ok(fonts_id) => match doc.get_dictionary(fonts_id) {
                Ok(fonts) => return Some(Fonts::Referenced(fonts_id, fonts_with(fonts, font_name))),
                Err(_) => return None,
            },
            Err(_) => match font.as_dict() {
                Ok(fonts) => fonts_with(fonts, font_name),
                Err(_) => fonts_with(&lopdf::Dictionary::new(), font_name),
            },
        },
        Err(_) => fonts_with(&lopdf::Dictionary::new(), font_name),
    };
    let mut copy = resources.clone();
    dictionary_set(&mut copy, "Font".as_bytes(), dictionary_object(fonts));
    Some(Fonts::Inline(copy))
}

/// Stores a dictionary in place of the one that an id stands for.
fn replace_dictionary(doc: &mut lopdf::Document, id: ObjectId, entries: lopdf::Dictionary)
    requires
        lookup(document_objects(*old(doc)), id) matches Some(Value::Dictionary(_)),
    ensures
        graph_of(*final(doc)) == updated(graph_of(*old(doc)), id, dictionary_entries(entries)),
{
    match doc.get_dictionary_mut(id) {
        Ok(target) => {
            *target = entries;
        },
        Err(_) => {},
    }
}

impl Annotator {
    /// Makes sure that the page has a font under the given name among its
    /// resources: Helvetica, unless there is a font under the name already.
    /// Resources that stand in the page dictionary become an object of their
    /// own.
    pub fn ensure_font_resource(
        &self,
        doc: &mut lopdf::Document,
        page_id: ObjectId,
        font_name: &str,
    ) -> (r: Result<(), AnnotationError>)
        ensures
            graph_of(*final(doc)) == font_ensured(
                graph_of(*old(doc)),
                page_id,
                key(font_name),
            ).graph,
            tells_trouble(r, font_ensured(graph_of(*old(doc)), page_id, key(font_name)).trouble),
    {
        let resources_id = locate_resources(doc, page_id)?;
        match read_fonts(doc, resources_id, font_name) {
            Some(Fonts::Referenced(id, fonts)) => {
                replace_dictionary(doc, id, fonts);
                Ok(())
            },
            Some(Fonts::Inline(resources)) => {
                replace_dictionary(doc, resources_id, resources);
                Ok(())
            },
            None => Err(shape_error("Failed to get resources dictionary")),
        }
    }
}

/// A stream without bytes.
pub open spec fn empty_stream() -> Value {
    stream_of(no_entries(), Seq::empty())
}

/// A stream with the given bytes, whose dictionary holds the given entries
/// and the number of the bytes as `/Length`.
pub open spec fn stream_of(entries: Map<Seq<u8>, Value>, bytes: Seq<u8>) -> Value {
    Value::Stream(entries.insert(key("Length"), Value::Integer(bytes.len() as i64)), bytes)
}

/// The id that the page's `/Contents` names: the reference there, or the
/// first element of an array there if that is a reference. A page without
/// `/Contents` gets a new, empty stream and refers to it.
pub open spec fn located_contents(g: Graph, page_id: ObjectId) -> Located {
    match lookup(g.objects, page_id) {
        Some(Value::Dictionary(page)) => if page.contains_key(key("Contents")) {
            match page[key("Contents")] {
                Value::Reference(id) => Located { graph: g, id: Ok(id) },
                Value::Array(items) => if items.len() > 0 && items[0] is Reference {
                    Located { graph: g, id: Ok(items[0]->Reference_0) }
                } else {
                    Located { graph: g, id: Err(Trouble::Contents) }
                },
                _ => Located { graph: g, id: Err(Trouble::Contents) },
            }
        } else if g.max_id == u32::MAX {
            Located { graph: g, id: Err(Trouble::NoNumber) }
        } else {
            let added = grown(g, empty_stream());
            match lookup(added.objects, page_id) {
                Some(Value::Dictionary(current)) => Located {
                    graph: updated(
                        added,
                        page_id,
                        current.insert(key("Contents"), Value::Reference(next_id(g.max_id))),
                    ),
                    id: Ok(next_id(g.max_id)),
                },
                _ => Located { graph: added, id: Err(Trouble::Page) },
            }
        },
        _ => Located { graph: g, id: Err(Trouble::Page) },
    }
}

/// The id under which the stamped stream is stored: the id that was named,
/// unless it leads to a dictionary; then the reference under that
/// dictionary's `/Contents`, or a new, empty stream where it has none.
pub open spec fn settled_contents(g: Graph, contents_id: ObjectId) -> Located {
    match lookup(g.objects, contents_id) {
        None => Located { graph: g, id: Err(Trouble::Contents) },
        Some(Value::Dictionary(holder)) => if holder.contains_key(key("Contents")) && holder[key(
            "Contents",
        )] is Reference {
            Located { graph: g, id: Ok(holder[key("Contents")]->Reference_0) }
        } else if g.max_id == u32::MAX {
            Located { graph: g, id: Err(Trouble::NoNumber) }
        } else {
            Located { graph: grown(g, empty_stream()), id: Ok(next_id(g.max_id)) }
        },
        Some(_) => Located { graph: g, id: Ok(contents_id) },
    }
}

/// The dictionary and the bytes of a content stream.
pub struct StreamData {
    pub entries: Map<Seq<u8>, Value>,
    pub bytes: Seq<u8>,
}

/// The streams that the references in an array lead to, merged: the bytes
/// of all in order, and the dictionary of the first whose dictionary is not
/// empty.
pub open spec fn merged(objects: Map<ObjectId, Value>, items: Seq<Value>) -> StreamData
    decreases items.len(),
{
    if items.len() == 0 {
        StreamData { entries: no_entries(), bytes: Seq::empty() }
    } else {
        let before = merged(objects, items.drop_last());
        match items.last() {
            Value::Reference(id) => match lookup(objects, id) {
                Some(Value::Stream(entries, bytes)) => StreamData {
                    entries: if before.entries == no_entries() {
                        entries
                    } else {
                        before.entries
                    },
                    bytes: before.bytes + bytes,
                },
                _ => before,
            },
            _ => before,
        }
    }
}

/// A graph after an attempt to read the stream to stamp: its dictionary and
/// bytes, or the trouble.
pub struct Read {
    pub graph: Graph,
    pub data: Result<StreamData, Trouble>,
}

/// A new, empty stream that the page refers to as its contents; a page that
/// is no dictionary stays as it is.
pub open spec fn fresh_contents(g: Graph, page_id: ObjectId) -> Read {
    if g.max_id == u32::MAX {
        Read { graph: g, data: Err(Trouble::NoNumber) }
    } else {
        let added = grown(g, empty_stream());
        Read {
            graph: match lookup(added.objects, page_id) {
                Some(Value::Dictionary(page)) => updated(
                    added,
                    page_id,
                    page.insert(key("Contents"), Value::Reference(next_id(g.max_id))),
                ),
                _ => added,
            },
            data: Ok(StreamData { entries: empty_stream()->Stream_0, bytes: Seq::empty() }),
        }
    }
}

/// The stream to stamp. A stream is taken as it is. An array stands for
/// the streams it refers to, merged; an empty array, a dictionary that does
/// not refer to a stream under `/Contents`, and anything else give way to a
/// new, empty stream that the page refers to.
pub open spec fn read_contents(g: Graph, page_id: ObjectId, id: ObjectId) -> Read {
    match lookup(g.objects, id) {
        None => Read { graph: g, data: Err(Trouble::Contents) },
        Some(Value::Stream(entries, bytes)) => Read {
            graph: g,
            data: Ok(StreamData { entries, bytes }),
        },
        Some(Value::Array(items)) => if items.len() == 0 {
            fresh_contents(g, page_id)
        } else {
            Read {
                graph: g,
                data: Ok(
                    StreamData {
                        entries: stream_of(
                            merged(g.objects, items).entries,
                            merged(g.objects, items).bytes,
                        )->Stream_0,
                        bytes: merged(g.objects, items).bytes,
                    },
                ),
            }
        },
        Some(Value::Dictionary(holder)) => if holder.contains_key(key("Contents")) && holder[key(
            "Contents",
        )] is Reference {
            match lookup(g.objects, holder[key("Contents")]->Reference_0) {
                Some(Value::Stream(entries, bytes)) => Read {
                    graph: g,
                    data: Ok(StreamData { entries, bytes }),
                },
                _ => fresh_contents(g, page_id),
            }
        } else {
            fresh_contents(g, page_id)
        },
        Some(_) => fresh_contents(g, page_id),
    }
}

/// The operations that stamp a text at a place in a font size: the text is
/// stroked and then filled, in black, in the font named `F0`.
pub open spec fn stamp_steps(text: Seq<u8>, x: u32, y: u32, size: u32) -> Seq<Step> {
    seq![
        Step { operator: "q"@, operands: Seq::empty() },
        Step { operator: "0 0 0 rg"@, operands: Seq::empty() },
        Step { operator: "1 w"@, operands: Seq::empty() },
        Step { operator: "BT"@, operands: Seq::empty() },
        Step { operator: "Tf"@, operands: seq![name("F0"), Value::Real(size)] },
        Step {
            operator: "Tm"@,
            operands: seq![
                Value::Real(integer_as_real(1)),
                Value::Real(integer_as_real(0)),
                Value::Real(integer_as_real(0)),
                Value::Real(integer_as_real(1)),
                Value::Real(x),
                Value::Real(y),
            ],
        },
        Step { operator: "Tr"@, operands: seq![Value::Integer(1)] },
        Step { operator: "Tj"@, operands: seq![Value::Text(text, Notation::Hexadecimal)] },
        Step { operator: "Tr"@, operands: seq![Value::Integer(0)] },
        Step { operator: "Tj"@, operands: seq![Value::Text(text, Notation::Literal)] },
        Step { operator: "ET"@, operands: Seq::empty() },
        Step { operator: "Q"@, operands: Seq::empty() },
    ]
}

/// What operations hold.
pub open spec fn steps_of(operations: Seq<lopdf::content::Operation>) -> Seq<Step> {
    operations.map_values(|operation: lopdf::content::Operation| operation_value(operation))
}

/// A page with operations added at the end of its content stream, and with
/// the font `F0` among its resources. The stream is found or made, decoded,
/// encoded again with the added operations, and stored under the id that
/// the page's contents led to.
pub open spec fn text_added(
    g: Graph,
    page_id: ObjectId,
    added: Seq<lopdf::content::Operation>,
) -> Changed {
    let located = located_contents(g, page_id);
    match located.id {
        Err(trouble) => Changed { graph: located.graph, trouble: Some(trouble) },
        Ok(contents_id) => {
            let settled = settled_contents(located.graph, contents_id);
            match settled.id {
                Err(trouble) => Changed { graph: settled.graph, trouble: Some(trouble) },
                Ok(id) => {
                    let read = read_contents(settled.graph, page_id, id);
                    match read.data {
                        Err(trouble) => Changed { graph: read.graph, trouble: Some(trouble) },
                        Ok(data) => match content_operations(data.bytes) {
                            None => Changed { graph: read.graph, trouble: Some(Trouble::Decode) },
                            Some(operations) => match content_encoding(operations + added) {
                                None => Changed {
                                    graph: read.graph,
                                    trouble: Some(Trouble::Encode),
                                },
                                Some(bytes) => font_ensured(
                                    Graph {
                                        objects: read.graph.objects.insert(
                                            id,
                                            stream_of(data.entries, bytes),
                                        ),
                                        trailer: read.graph.trailer,
                                        max_id: read.graph.max_id,
                                    },
                                    page_id,
                                    key("F0"),
                                ),
                            },
                        },
                    }
                },
            }
        },
    }
}

/// Whether `after` and `r` are what stamping a page of `before` gives: some
/// operations that hold the given steps are added to the page's content
/// stream.
pub open spec fn text_stamped(
    before: Graph,
    after: Graph,
    r: Result<(), AnnotationError>,
    page_id: ObjectId,
    steps: Seq<Step>,
) -> bool {
    exists|added: Seq<lopdf::content::Operation>|
        steps_of(added) == steps && #[trigger] text_added(before, page_id, added).graph == after
            && tells_trouble(r, text_added(before, page_id, added).trouble)
}

/// A new, empty stream.
fn empty_stream_object() -> (o: lopdf::Object)
    ensures
        object_value(o) == empty_stream(),
{
    stream_object(lopdf::Dictionary::new(), Vec::new())
}

/// What a page holds under `/Contents`.
enum Contents {
    Named(ObjectId),
    Missing,
}

/// Reads the page's `/Contents`.
fn read_contents_entry(doc: &lopdf::Document, page_id: ObjectId) -> (r: Result<
    Contents,
    AnnotationError,
>)
    ensures
        match lookup(document_objects(*doc), page_id) {
            Some(Value::Dictionary(page)) => if page.contains_key(key("Contents")) {
                match page[key("Contents")] {
                    Value::Reference(id) => r matches Ok(Contents::Named(at)) && at == id,
                    Value::Array(items) => if items.len() > 0 && items[0] is Reference {
                        r matches Ok(Contents::Named(at)) && at == items[0]->Reference_0
                    } else {
                        r matches Err(e) && e is ContentStreamError
                    },
                    _ => r matches Err(e) && e is ContentStreamError,
                }
            } else {
                r matches Ok(Contents::Missing)
            },
            _ => r matches Err(e) && e is ContentStreamError,
        },
{
    let page = match doc.get_dictionary(page_id) {
        Ok(page) => page,
        Err(_) => return Err(shape_error("Failed to get page dictionary")),
    };
    match page.get("Contents".as_bytes()) {
        Ok(contents) => match contents.as_reference() {
            Ok(id) => Ok(Contents::Named(id)),
            Err(_) => match contents.as_array() {
                Ok(items) => {
                    if items.len() > 0 {
                        match items[0].as_reference() {
                            Ok(id) => return Ok(Contents::Named(id)),
                            Err(_) => {},
                        }
                    }
                    Err(shape_error("Unexpected content stream format"))
                },
                Err(_) => Err(shape_error("Unexpected content stream format")),
            },
        },
        Err(_) => Ok(Contents::Missing),
    }
}

/// Finds the id that the page's `/Contents` names, or gives the page a new,
/// empty stream.
fn locate_contents(doc: &mut lopdf::Document, page_id: ObjectId) -> (r: Result<
    ObjectId,
    AnnotationError,
>)
    ensures
        graph_of(*final(doc)) == located_contents(graph_of(*old(doc)), page_id).graph,
        match r {
            Ok(id) => located_contents(graph_of(*old(doc)), page_id).id == Ok::<ObjectId, Trouble>(
                id,
            ),
            Err(e) => located_contents(graph_of(*old(doc)), page_id).id matches Err(t) && troubled(
                e,
                t,
            ),
        },
{
    match read_contents_entry(doc, page_id)? {
        Contents::Named(id) => Ok(id),
        Contents::Missing => {
            let id = grow(doc, empty_stream_object())?;
            if set_entry(doc, page_id, "Contents", reference_object(id)) {
                Ok(id)
            } else {
                Err(shape_error("Failed to update page dictionary"))
            }
        },
    }
}

/// What the named id leads to.
enum Holder {
    /// Something that is no dictionary.
    Plain,
    /// A dictionary that refers to this id under `/Contents`.
    Refers(ObjectId),
    /// A dictionary without such a reference.
    Bare,
}

/// Finds the id under which the stamped stream is stored.
fn settle_contents(doc: &mut lopdf::Document, contents_id: ObjectId) -> (r: Result<
    ObjectId,
    AnnotationError,
>)
    ensures
        graph_of(*final(doc)) == settled_contents(graph_of(*old(doc)), contents_id).graph,
        match r {
            Ok(id) => settled_contents(graph_of(*old(doc)), contents_id).id == Ok::<
                ObjectId,
                Trouble,
            >(id),
            Err(e) => settled_contents(graph_of(*old(doc)), contents_id).id matches Err(t)
                && troubled(e, t),
        },
{
    let holder = match doc.get_object(contents_id) {
        Ok(object) => match object.as_dict() {
            Ok(holder) => match holder.get("Contents".as_bytes()) {
                Ok(contents) => match contents.as_reference() {
                    Ok(id) => Holder::Refers(id),
                    Err(_) => Holder::Bare,
                },
                Err(_) => Holder::Bare,
            },
            Err(_) => Holder::Plain,
        },
        Err(_) => return Err(shape_error("Failed to get content object")),
    };
    match holder {
        Holder::Plain => Ok(contents_id),
        Holder::Refers(id) => Ok(id),
        Holder::Bare => grow(doc, empty_stream_object()),
    }
}

/// The dictionary and the bytes of a stream, copied.
struct Data {
    entries: lopdf::Dictionary,
    bytes: Vec<u8>,
}

impl Data {
    spec fn view(self) -> StreamData {
        StreamData { entries: dictionary_entries(self.entries), bytes: self.bytes@ }
    }
}

/// Copies a stream.
fn copy_stream(stream: &lopdf::Stream) -> (data: Data)
    ensures
        stream_value(*stream) == Value::Stream(data.view().entries, data.view().bytes),
{
    Data {
        entries: stream_dictionary(stream).clone(),
        bytes: slice_to_vec(stream_content(stream).as_slice()),
    }
}

/// Merges the streams that the references in an array lead to.
fn merge_streams(doc: &lopdf::Document, items: &Vec<lopdf::Object>) -> (data: Data)
    ensures
        data.view() == merged(document_objects(*doc), values_of(items@)),
{
    let mut entries = lopdf::Dictionary::new();
    let mut bytes: Vec<u8> = Vec::new();
    let mut i: usize = 0;
    proof {
        assert(values_of(items@.take(0)) =~= Seq::empty());
    }
    while i < items.len()
        invariant
            i <= items.len(),
            (StreamData { entries: dictionary_entries(entries), bytes: bytes@ }) == merged(
                document_objects(*doc),
                values_of(items@.take(i as int)),
            ),
        decreases items.len() - i,
    {
        proof {
            let next = values_of(items@.take(i + 1));
            assert(next.drop_last() =~= values_of(items@.take(i as int)));
            assert(next.last() == object_value(items@[i as int]));
        }
        match items[i].as_reference() {
            Ok(id) => match doc.get_object(id) {
                Ok(object) => match object.as_stream() {
                    Ok(stream) => {
                        if entries.is_empty() {
                            entries = stream_dictionary(stream).clone();
                        }
                        append(&mut bytes, stream_content(stream).as_slice());
                    },
                    Err(_) => {},
                },
                Err(_) => {},
            },
            Err(_) => {},
        }
        i += 1;
    }
    proof {
        assert(items@.take(i as int) =~= items@);
    }
    Data { entries, bytes }
}

/// What the stream to stamp is read from.
enum Source {
    Taken(Data),
    Fresh,
}

/// Reads the stream to stamp where there is one.
fn read_source(doc: &lopdf::Document, id: ObjectId) -> (r: Option<Source>)
    ensures
        match lookup(document_objects(*doc), id) {
            None => r is None,
            Some(Value::Stream(entries, bytes)) => r matches Some(Source::Taken(data))
                && data.view() == (StreamData { entries, bytes }),
            Some(Value::Array(items)) => if items.len() == 0 {
                r matches Some(Source::Fresh)
            } else {
                r matches Some(Source::Taken(data)) && data.view() == (StreamData {
                    entries: stream_of(
                        merged(document_objects(*doc), items).entries,
                        merged(document_objects(*doc), items).bytes,
                    )->Stream_0,
                    bytes: merged(document_objects(*doc), items).bytes,
                })
            },
            Some(Value::Dictionary(holder)) => if holder.contains_key(key("Contents"))
                && holder[key("Contents")] is Reference {
                match lookup(document_objects(*doc), holder[key("Contents")]->Reference_0) {
                    Some(Value::Stream(entries, bytes)) => r matches Some(Source::Taken(data))
                        && data.view() == (StreamData { entries, bytes }),
                    _ => r matches Some(Source::Fresh),
                }
            } else {
                r matches Some(Source::Fresh)
            },
            Some(_) => r matches Some(Source::Fresh),
        },
{
    let object = match doc.get_object(id) {
        Ok(object) => object,
        Err(_) => return None,
    };
    match object.as_stream() {
        Ok(stream) => return Some(Source::Taken(copy_stream(stream))),
        Err(_) => {},
    }
    match object.as_array() {
        Ok(items) => {
            if items.len() == 0 {
                return Some(Source::Fresh);
            }
            let mut data = merge_streams(doc, items);
            let length = data.bytes.len();
            dictionary_set(&mut data.entries, "Length".as_bytes(), integer_object(length as i64));
            return Some(Source::Taken(data));
        },
        Err(_) => {},
    }
    match object.as_dict() {
        Ok(holder) => match holder.get("Contents".as_bytes()) {
            Ok(contents) => match contents.as_reference() {
                Ok(inner) => match doc.get_object(inner) {
                    Ok(target) => match target.as_stream() {
                        Ok(stream) => Some(Source::Taken(copy_stream(stream))),
                        Err(_) => Some(Source::Fresh),
                    },
                    Err(_) => Some(Source::Fresh),
                },
                Err(_) => Some(Source::Fresh),
            },
            Err(_) => Some(Source::Fresh),
        },
        Err(_) => Some(Source::Fresh),
    }
}

/// Reads the stream to stamp, or makes a new one.
fn read_stream(doc: &mut lopdf::Document, page_id: ObjectId, id: ObjectId) -> (r: Result<
    Data,
    AnnotationError,
>)
    ensures
        graph_of(*final(doc)) == read_contents(graph_of(*old(doc)), page_id, id).graph,
        match r {
            Ok(data) => read_contents(graph_of(*old(doc)), page_id, id).data == Ok::<
                StreamData,
                Trouble,
            >(data.view()),
            Err(e) => read_contents(graph_of(*old(doc)), page_id, id).data matches Err(t)
                && troubled(e, t),
        },
{
    match read_source(doc, id) {
        None => Err(shape_error("Failed to get content stream")),
        Some(Source::Taken(data)) => Ok(data),
        Some(Source::Fresh) => {
            let fresh = grow(doc, empty_stream_object())?;
            let _ = set_entry(doc, page_id, "Contents", reference_object(fresh));
            let mut entries = lopdf::Dictionary::new();
            dictionary_set(&mut entries, "Length".as_bytes(), integer_object(0));
            Ok(Data { entries, bytes: Vec::new() })
        },
    }
}

/// The operations that stamp a text.
fn stamp_operations(text: &str, x: &Real, y: &Real, size: &Real) -> (operations: Vec<
    lopdf::content::Operation,
>)
    ensures
        steps_of(operations@) == stamp_steps(key(text), x.bits(), y.bits(), size.bits()),
{
    let mut font: Vec<lopdf::Object> = Vec::new();
    font.push(name_of("F0"));
    font.push(size.to_object());
    let mut matrix: Vec<lopdf::Object> = Vec::new();
    matrix.push(Real::from_integer(1).to_object());
    matrix.push(Real::from_integer(0).to_object());
    matrix.push(Real::from_integer(0).to_object());
    matrix.push(Real::from_integer(1).to_object());
    matrix.push(x.to_object());
    matrix.push(y.to_object());
    let mut stroke: Vec<lopdf::Object> = Vec::new();
    stroke.push(integer_object(1));
    let mut stroked: Vec<lopdf::Object> = Vec::new();
    stroked.push(hexadecimal_object(slice_to_vec(text.as_bytes())));
    let mut fill: Vec<lopdf::Object> = Vec::new();
    fill.push(integer_object(0));
    let mut filled: Vec<lopdf::Object> = Vec::new();
    filled.push(string_object(slice_to_vec(text.as_bytes())));
    proof {
        let expected = stamp_steps(key(text), x.bits(), y.bits(), size.bits());
        assert(values_of(font@) =~= expected[4].operands);
        assert(values_of(matrix@) =~= expected[5].operands);
        assert(values_of(stroke@) =~= expected[6].operands);
        assert(values_of(stroked@) =~= expected[7].operands);
        assert(values_of(fill@) =~= expected[8].operands);
        assert(values_of(filled@) =~= expected[9].operands);
        assert(values_of(Seq::<lopdf::Object>::empty()) =~= Seq::<Value>::empty());
    }
    let mut operations: Vec<lopdf::content::Operation> = Vec::new();
    operations.push(lopdf::content::Operation::new("q", Vec::new()));
    operations.push(lopdf::content::Operation::new("0 0 0 rg", Vec::new()));
    operations.push(lopdf::content::Operation::new("1 w", Vec::new()));
    operations.push(lopdf::content::Operation::new("BT", Vec::new()));
    operations.push(lopdf::content::Operation::new("Tf", font));
    operations.push(lopdf::content::Operation::new("Tm", matrix));
    operations.push(lopdf::content::Operation::new("Tr", stroke));
    operations.push(lopdf::content::Operation::new("Tj", stroked));
    operations.push(lopdf::content::Operation::new("Tr", fill));
    operations.push(lopdf::content::Operation::new("Tj", filled));
    operations.push(lopdf::content::Operation::new("ET", Vec::new()));
    operations.push(lopdf::content::Operation::new("Q", Vec::new()));
    proof {
        assert(steps_of(operations@) =~= stamp_steps(key(text), x.bits(), y.bits(), size.bits()));
    }
    operations
}

impl Annotator {
    /// Stamps a text into the content stream of a page, at the given place,
    /// in the annotator's font size. The operations are added at the end of
    /// the stream that the page's contents lead to; a page without contents
    /// gets a stream. The font `F0` that the text is set in is added to the
    /// page's resources.
    pub fn add_text_to_page(
        &self,
        doc: &mut lopdf::Document,
        page_id: ObjectId,
        text: &str,
        x: &Real,
        y: &Real,
    ) -> (r: Result<(), AnnotationError>)
        ensures
            text_stamped(
                graph_of(*old(doc)),
                graph_of(*final(doc)),
                r,
                page_id,
                stamp_steps(key(text), x.bits(), y.bits(), self.font().size.bits()),
            ),
    {
        let mut added = stamp_operations(text, x, y, &self.font_config().size);
        let ghost stamp = added@;
        let r = self.add_operations(doc, page_id, &mut added);
        proof {
            assert(text_added(graph_of(*old(doc)), page_id, stamp).graph == graph_of(*doc));
        }
        r
    }

    /// Adds operations at the end of the content stream of a page.
    fn add_operations(
        &self,
        doc: &mut lopdf::Document,
        page_id: ObjectId,
        added: &mut Vec<lopdf::content::Operation>,
    ) -> (r: Result<(), AnnotationError>)
        ensures
            text_added(graph_of(*old(doc)), page_id, old(added)@).graph == graph_of(*final(doc)),
            tells_trouble(r, text_added(graph_of(*old(doc)), page_id, old(added)@).trouble),
    {
        let contents_id = locate_contents(doc, page_id)?;
        let id = settle_contents(doc, contents_id)?;
        let data = read_stream(doc, page_id, id)?;
        let mut operations = match content_decode(data.bytes.as_slice()) {
            Ok(operations) => operations,
            Err(_) => return Err(shape_error("Failed to decode content stream")),
        };
        operations.append(added);
        let bytes = match content_encode(&operations) {
            Ok(bytes) => bytes,
            Err(_) => return Err(shape_error("Failed to encode content stream")),
        };
        document_set(doc, id, stream_object(data.entries, bytes));
        self.ensure_font_resource(doc, page_id, "F0")
    }
}

/// A graph with the objects and the object counter of a stamped document.
pub open spec fn with_stamp(g: Graph, page_id: ObjectId, entries: Map<Seq<u8>, Value>) -> Graph {
    Graph {
        objects: stamped(g.objects, g.max_id, page_id, entries).objects,
        trailer: g.trailer,
        max_id: stamped(g.objects, g.max_id, page_id, entries).max_id,
    }
}

impl Annotator {
    /// Stamps a text onto a page: as a free text annotation in the given
    /// rectangle, and where that fails, into the page's content stream at
    /// the given place. What the failed attempt left in the document stays.
    pub fn annotate_page(
        &self,
        doc: &mut lopdf::Document,
        page_id: ObjectId,
        text: &str,
        rect: &Rect,
        x: &Real,
        y: &Real,
    ) -> (r: Result<(), AnnotationError>)
        ensures
            ({
                let entries = stamp_entries(key(text), rect.bits(), self.font().size.bits());
                let before = graph_of(*old(doc));
                if stamped(before.objects, before.max_id, page_id, entries).failure is None {
                    r is Ok && graph_of(*final(doc)) == with_stamp(before, page_id, entries)
                } else {
                    text_stamped(
                        with_stamp(before, page_id, entries),
                        graph_of(*final(doc)),
                        r,
                        page_id,
                        stamp_steps(key(text), x.bits(), y.bits(), self.font().size.bits()),
                    )
                }
            }),
    {
        match self.add_text_annotation(doc, page_id, text, rect) {
            Ok(()) => Ok(()),
            Err(_) => self.add_text_to_page(doc, page_id, text, x, y),
        }
    }
}

} // verus!
