//! Repairing a document before it is written to: the catalog, the root of
//! the page tree, and page objects that are no dictionaries.

use crate::annotation::{name, name_of, next_id, Rect};
use crate::annotation_utils::{extended, single};
use crate::error::{Defect, LibError};
use crate::number::Real;
use crate::pdf::{
    array_object, dictionary_entries, dictionary_object, dictionary_set, document_add,
    document_max_id, document_objects, document_page_list, document_pages, document_set,
    document_trailer, enumerated_pages, integer_as_real, integer_object, is_cast_of, key, lookup,
    no_entries, object_value, reference_object, resolve, trailer_get, trailer_set, values_of, Value,
};
use crate::text::same_bytes;
use lopdf::ObjectId;
use vstd::prelude::*;

verus! {

/// The parts of a document that a repair reads and writes.
pub struct Graph {
    /// The indirect objects.
    pub objects: Map<ObjectId, Value>,
    /// The trailer's entries.
    pub trailer: Map<Seq<u8>, Value>,
    /// The highest object number handed out.
    pub max_id: u32,
}

/// The graph of a document.
pub open spec fn graph_of(doc: lopdf::Document) -> Graph {
    Graph {
        objects: document_objects(doc),
        trailer: document_trailer(doc),
        max_id: document_max_id(doc),
    }
}

/// A pages node without pages.
pub open spec fn empty_pages() -> Map<Seq<u8>, Value> {
    no_entries().insert(key("Type"), name("Pages")).insert(
        key("Kids"),
        Value::Array(Seq::empty()),
    ).insert(key("Count"), Value::Integer(0))
}

/// A catalog without a `/Pages` entry.
pub open spec fn bare_catalog() -> Map<Seq<u8>, Value> {
    no_entries().insert(key("Type"), name("Catalog"))
}

/// Whether a dictionary is typed as a catalog and has a `/Pages` entry.
pub open spec fn is_catalog(entries: Map<Seq<u8>, Value>) -> bool {
    entries.contains_key(key("Type")) && entries[key("Type")] == name("Catalog")
        && entries.contains_key(key("Pages"))
}

/// A graph after an attempt to repair its catalog; `done` is false where an
/// object was needed and no object number was left.
pub struct Repaired {
    pub graph: Graph,
    pub done: bool,
}

/// A graph that got a new, empty pages node and a catalog that refers to
/// it. The catalog is stored under the id that `/Root` refers to. Where
/// `/Root` refers to no id, or to the id that the pages node has taken, the
/// catalog becomes a further new object, and `/Root` refers to that: the
/// catalog never takes the place of its pages node.
pub open spec fn with_catalog(
    g: Graph,
    place: Option<ObjectId>,
    catalog: Map<Seq<u8>, Value>,
) -> Repaired {
    let pages_id = next_id(g.max_id);
    let with_pages = Graph {
        objects: g.objects.insert(pages_id, Value::Dictionary(empty_pages())),
        trailer: g.trailer,
        max_id: pages_id.0,
    };
    let stored = Value::Dictionary(catalog.insert(key("Pages"), Value::Reference(pages_id)));
    if g.max_id == u32::MAX {
        Repaired { graph: g, done: false }
    } else if place is Some && place != Some(pages_id) {
        Repaired {
            graph: Graph {
                objects: with_pages.objects.insert(place.unwrap(), stored),
                trailer: g.trailer,
                max_id: with_pages.max_id,
            },
            done: true,
        }
    } else if with_pages.max_id == u32::MAX {
        Repaired { graph: with_pages, done: false }
    } else {
        Repaired {
            graph: Graph {
                objects: with_pages.objects.insert(next_id(with_pages.max_id), stored),
                trailer: g.trailer.insert(
                    key("Root"),
                    Value::Reference(next_id(with_pages.max_id)),
                ),
                max_id: next_id(with_pages.max_id).0,
            },
            done: true,
        }
    }
}

/// The id that the trailer's `/Root` refers to, where it is a reference.
pub open spec fn root_of(g: Graph) -> Option<ObjectId> {
    if g.trailer.contains_key(key("Root")) {
        match g.trailer[key("Root")] {
            Value::Reference(id) => Some(id),
            _ => None,
        }
    } else {
        None
    }
}

/// Whether the trailer's `/Root` refers to a dictionary that is typed as a
/// catalog and has a `/Pages` entry.
pub open spec fn is_rooted(g: Graph) -> bool {
    match root_of(g) {
        Some(id) => match lookup(g.objects, id) {
            Some(Value::Dictionary(catalog)) => is_catalog(catalog),
            _ => false,
        },
        None => false,
    }
}

/// The repair of the catalog.
///
/// Where the trailer's `/Root` is a reference to a dictionary, that
/// dictionary is typed as a catalog, and gets a new, empty pages node where
/// it has no `/Pages`; the other entries stay. Where `/Root` refers to
/// anything else or to nothing, or is missing or no reference, the document
/// gets a new catalog with a new, empty pages node. See `with_catalog` for
/// the id that a catalog with a new pages node is stored under.
pub open spec fn repaired_tree(g: Graph) -> Repaired {
    match root_of(g) {
        Some(catalog_id) => match lookup(g.objects, catalog_id) {
            Some(Value::Dictionary(catalog)) => if is_catalog(catalog) {
                Repaired { graph: g, done: true }
            } else if catalog.contains_key(key("Pages")) {
                Repaired {
                    graph: Graph {
                        objects: g.objects.insert(
                            catalog_id,
                            Value::Dictionary(catalog.insert(key("Type"), name("Catalog"))),
                        ),
                        trailer: g.trailer,
                        max_id: g.max_id,
                    },
                    done: true,
                }
            } else {
                with_catalog(g, Some(catalog_id), catalog.insert(key("Type"), name("Catalog")))
            },
            _ => with_catalog(g, Some(catalog_id), bare_catalog()),
        },
        None => with_catalog(g, None, bare_catalog()),
    }
}

/// Adds a pages node without pages to the document.
fn add_empty_pages(doc: &mut lopdf::Document) -> (r: Result<ObjectId, lopdf::Error>)
    ensures
        document_trailer(*final(doc)) == document_trailer(*old(doc)),
        match r {
            Ok(id) => document_max_id(*old(doc)) < u32::MAX && id == next_id(
                document_max_id(*old(doc)),
            ) && document_max_id(*final(doc)) == id.0 && document_objects(*final(doc))
                == document_objects(*old(doc)).insert(id, Value::Dictionary(empty_pages())),
            Err(_) => document_max_id(*old(doc)) == u32::MAX && graph_of(*final(doc)) == graph_of(
                *old(doc),
            ),
        },
{
    let mut pages = lopdf::Dictionary::new();
    dictionary_set(&mut pages, "Type".as_bytes(), name_of("Pages"));
    let kids: Vec<lopdf::Object> = Vec::new();
    proof {
        assert(values_of(kids@) =~= Seq::empty());
    }
    dictionary_set(&mut pages, "Kids".as_bytes(), array_object(kids));
    dictionary_set(&mut pages, "Count".as_bytes(), integer_object(0));
    document_add(doc, dictionary_object(pages))
}

/// A catalog without a `/Pages` entry.
fn bare_catalog_dictionary() -> (catalog: lopdf::Dictionary)
    ensures
        dictionary_entries(catalog) == bare_catalog(),
{
    let mut catalog = lopdf::Dictionary::new();
    dictionary_set(&mut catalog, "Type".as_bytes(), name_of("Catalog"));
    catalog
}

/// Adds a new, empty pages node and stores the catalog with a reference to
/// it: under the id that `/Root` refers to, or as a further new object that
/// `/Root` then refers to, where there is no such id or the pages node has
/// taken it.
fn store_catalog(
    doc: &mut lopdf::Document,
    place: Option<ObjectId>,
    catalog: lopdf::Dictionary,
) -> (r: Result<(), LibError>)
    ensures
        graph_of(*final(doc)) == with_catalog(
            graph_of(*old(doc)),
            place,
            dictionary_entries(catalog),
        ).graph,
        match r {
            Ok(()) => with_catalog(graph_of(*old(doc)), place, dictionary_entries(catalog)).done,
            Err(e) => !with_catalog(graph_of(*old(doc)), place, dictionary_entries(catalog)).done
                && e is Pdf,
        },
{
    let mut catalog = catalog;
    let pages_id = match add_empty_pages(doc) {
        Ok(id) => id,
        Err(e) => return Err(LibError::Pdf(e)),
    };
    dictionary_set(&mut catalog, "Pages".as_bytes(), reference_object(pages_id));
    let free = match place {
        Some(catalog_id) => if catalog_id.0 != pages_id.0 || catalog_id.1 != pages_id.1 {
            Some(catalog_id)
        } else {
            None
        },
        None => None,
    };
    match free {
        Some(catalog_id) => {
            document_set(doc, catalog_id, dictionary_object(catalog));
            Ok(())
        },
        None => {
            let catalog_id = match document_add(doc, dictionary_object(catalog)) {
                Ok(id) => id,
                Err(e) => return Err(LibError::Pdf(e)),
            };
            trailer_set(doc, "Root".as_bytes(), reference_object(catalog_id));
            Ok(())
        },
    }
}

/// What the trailer's `/Root` leads to.
enum Root {
    /// A catalog that needs no repair.
    Sound,
    /// A dictionary, copied and typed as a catalog; whether it has a
    /// `/Pages` entry.
    Dictionary(ObjectId, lopdf::Dictionary, bool),
    /// Something that is no dictionary, or nothing.
    Other(ObjectId),
    /// There is no `/Root` that is a reference.
    Missing,
}

/// Reads the catalog.
fn read_root(doc: &lopdf::Document) -> (r: Root)
    ensures
        ({
            let g = graph_of(*doc);
            if g.trailer.contains_key(key("Root")) && g.trailer[key("Root")] is Reference {
                let catalog_id = g.trailer[key("Root")]->Reference_0;
                match lookup(g.objects, catalog_id) {
                    Some(Value::Dictionary(catalog)) => if is_catalog(catalog) {
                        r is Sound
                    } else {
                        r matches Root::Dictionary(id, copy, has_pages) && id == catalog_id
                            && dictionary_entries(copy) == catalog.insert(
                            key("Type"),
                            name("Catalog"),
                        ) && has_pages == catalog.contains_key(key("Pages"))
                    },
                    _ => r matches Root::Other(id) && id == catalog_id,
                }
            } else {
                r is Missing
            }
        }),
{
    let catalog_id = match trailer_get(doc, "Root".as_bytes()) {
        Some(root) => match root.as_reference() {
            Ok(id) => id,
            Err(_) => return Root::Missing,
        },
        None => return Root::Missing,
    };
    let catalog = match doc.get_dictionary(catalog_id) {
        Ok(catalog) => catalog,
        Err(_) => return Root::Other(catalog_id),
    };
    let typed = match catalog.get("Type".as_bytes()) {
        Ok(kind) => match kind.as_name() {
            Ok(bytes) => same_bytes(bytes, "Catalog".as_bytes()),
            Err(_) => false,
        },
        Err(_) => false,
    };
    let has_pages = catalog.has("Pages".as_bytes());
    if typed && has_pages {
        Root::Sound
    } else {
        let mut copy = catalog.clone();
        dictionary_set(&mut copy, "Type".as_bytes(), name_of("Catalog"));
        Root::Dictionary(catalog_id, copy, has_pages)
    }
}

/// Repairs the catalog and the root of the page tree, so that the trailer's
/// `/Root` refers to a dictionary that is typed as a catalog and has a
/// `/Pages` entry. A document that has such a catalog stays as it is. Fails
/// only where a new object is needed and the document has no object number
/// left.
pub fn fix_page_tree(doc: &mut lopdf::Document) -> (r: Result<(), LibError>)
    ensures
        graph_of(*final(doc)) == repaired_tree(graph_of(*old(doc))).graph,
        is_rooted(graph_of(*old(doc))) ==> *final(doc) == *old(doc),
        match r {
            Ok(()) => repaired_tree(graph_of(*old(doc))).done,
            Err(e) => !repaired_tree(graph_of(*old(doc))).done && e is Pdf,
        },
{
    match read_root(doc) {
        Root::Sound => Ok(()),
        Root::Dictionary(catalog_id, catalog, has_pages) => {
            if has_pages {
                document_set(doc, catalog_id, dictionary_object(catalog));
                Ok(())
            } else {
                store_catalog(doc, Some(catalog_id), catalog)
            }
        },
        Root::Other(catalog_id) => store_catalog(doc, Some(catalog_id), bare_catalog_dictionary()),
        Root::Missing => store_catalog(doc, None, bare_catalog_dictionary()),
    }
}

/// The media box of a page in Letter format.
pub open spec fn letter_box() -> Value {
    Value::Array(
        seq![
            Value::Integer(0),
            Value::Integer(0),
            Value::Integer(612),
            Value::Integer(792),
        ],
    )
}

/// The resources of a page made by a repair: the font Helvetica.
pub open spec fn page_resources() -> Map<Seq<u8>, Value> {
    no_entries().insert(
        key("Font"),
        Value::Dictionary(
            no_entries().insert(
                key("Helvetica"),
                Value::Dictionary(
                    no_entries().insert(key("Type"), name("Font")).insert(
                        key("Subtype"),
                        name("Type1"),
                    ).insert(key("BaseFont"), name("Helvetica")),
                ),
            ),
        ),
    )
}

/// The page dictionary that a repair puts in place of a page object that is
/// none: an empty page in Letter format.
pub open spec fn minimal_page() -> Map<Seq<u8>, Value> {
    no_entries().insert(key("Type"), name("Page")).insert(key("MediaBox"), letter_box()).insert(
        key("Resources"),
        Value::Dictionary(page_resources()),
    )
}

/// Why a page could not be repaired.
pub enum Flaw {
    /// A new object was needed and no object number was left.
    NoNumber,
    /// The page object is neither a dictionary nor a stream.
    PageObject(ObjectId),
    /// The trailer does not lead to a catalog, the catalog not to a pages
    /// node, or the new page is not where it was put.
    PageTree,
}

/// Whether an error reports the flaw.
pub open spec fn flaw_reported(e: LibError, flaw: Flaw) -> bool {
    match flaw {
        Flaw::NoNumber => e is Pdf,
        Flaw::PageObject(id) => e matches LibError::Malformed(Defect::PageObject(at)) && at == id,
        Flaw::PageTree => e matches LibError::Malformed(Defect::PageTree),
    }
}

/// A graph after an attempt to repair a page: the id of the page dictionary,
/// or why there is none.
pub struct Ensured {
    pub graph: Graph,
    pub page: Result<ObjectId, Flaw>,
}

/// The pages node that a catalog in the graph leads to: its id and its
/// entries.
pub open spec fn pages_node(g: Graph) -> Option<(ObjectId, Map<Seq<u8>, Value>)> {
    if g.trailer.contains_key(key("Root")) {
        match g.trailer[key("Root")] {
            Value::Reference(catalog_id) => match lookup(g.objects, catalog_id) {
                Some(Value::Dictionary(catalog)) => if catalog.contains_key(key("Pages")) {
                    match catalog[key("Pages")] {
                        Value::Reference(pages_id) => match lookup(g.objects, pages_id) {
                            Some(Value::Dictionary(node)) => Some((pages_id, node)),
                            _ => None,
                        },
                        _ => None,
                    }
                } else {
                    None
                },
                _ => None,
            },
            _ => None,
        }
    } else {
        None
    }
}

/// The kids of a pages node; none where `/Kids` is no array.
pub open spec fn kids_of(node: Map<Seq<u8>, Value>) -> Seq<Value> {
    if node.contains_key(key("Kids")) {
        match node[key("Kids")] {
            Value::Array(items) => items,
            _ => Seq::empty(),
        }
    } else {
        Seq::empty()
    }
}

/// The count of a pages node; 0 where `/Count` is no integer.
pub open spec fn count_of(node: Map<Seq<u8>, Value>) -> i64 {
    if node.contains_key(key("Count")) {
        match node[key("Count")] {
            Value::Integer(count) => count,
            _ => 0,
        }
    } else {
        0
    }
}

/// A count with one more, as far as the number type goes.
pub open spec fn one_more(count: i64) -> i64 {
    if count < i64::MAX {
        (count + 1) as i64
    } else {
        count
    }
}

/// A pages node with one more kid.
pub open spec fn with_kid(node: Map<Seq<u8>, Value>, kid: ObjectId) -> Map<Seq<u8>, Value> {
    node.insert(key("Kids"), Value::Array(kids_of(node).push(Value::Reference(kid)))).insert(
        key("Count"),
        Value::Integer(one_more(count_of(node))),
    )
}

/// Putting a new, empty page into the page tree: the page becomes a new
/// object, the root pages node gets it as its last kid and counts one more,
/// and the page names that node as its parent. The pages node is looked for
/// before anything is written: a document whose catalog leads to none stays
/// as it was.
pub open spec fn page_added(g: Graph) -> Ensured {
    if pages_node(g) is None {
        Ensured { graph: g, page: Err(Flaw::PageTree) }
    } else if g.max_id == u32::MAX {
        Ensured { graph: g, page: Err(Flaw::NoNumber) }
    } else {
        let page_id = next_id(g.max_id);
        let added = Graph {
            objects: g.objects.insert(page_id, Value::Dictionary(minimal_page())),
            trailer: g.trailer,
            max_id: page_id.0,
        };
        match pages_node(added) {
            None => Ensured { graph: added, page: Err(Flaw::PageTree) },
            Some((pages_id, node)) => {
                let linked = added.objects.insert(
                    resolve(added.objects, pages_id).unwrap(),
                    Value::Dictionary(with_kid(node, page_id)),
                );
                match lookup(linked, page_id) {
                    Some(Value::Dictionary(page)) => Ensured {
                        graph: Graph {
                            objects: linked.insert(
                                resolve(linked, page_id).unwrap(),
                                Value::Dictionary(
                                    page.insert(key("Parent"), Value::Reference(pages_id)),
                                ),
                            ),
                            trailer: g.trailer,
                            max_id: page_id.0,
                        },
                        page: Ok(page_id),
                    },
                    _ => Ensured {
                        graph: Graph { objects: linked, trailer: g.trailer, max_id: page_id.0 },
                        page: Err(Flaw::PageTree),
                    },
                }
            },
        }
    }
}

/// The repair of one page. A page that is a dictionary stays. A stream is
/// replaced under its id by an empty page. Where the id leads to nothing, an
/// empty page is put into the page tree as a new object. Anything else cannot
/// be repaired.
pub open spec fn ensured(g: Graph, page_id: ObjectId) -> Ensured {
    match lookup(g.objects, page_id) {
        Some(Value::Dictionary(_)) => Ensured { graph: g, page: Ok(page_id) },
        Some(Value::Stream(_, _)) => Ensured {
            graph: Graph {
                objects: g.objects.insert(page_id, Value::Dictionary(minimal_page())),
                trailer: g.trailer,
                max_id: g.max_id,
            },
            page: Ok(page_id),
        },
        Some(_) => Ensured { graph: g, page: Err(Flaw::PageObject(page_id)) },
        None => page_added(g),
    }
}

/// An empty page in Letter format.
fn minimal_page_object() -> (o: lopdf::Object)
    ensures
        object_value(o) == Value::Dictionary(minimal_page()),
{
    let mut font = lopdf::Dictionary::new();
    dictionary_set(&mut font, "Type".as_bytes(), name_of("Font"));
    dictionary_set(&mut font, "Subtype".as_bytes(), name_of("Type1"));
    dictionary_set(&mut font, "BaseFont".as_bytes(), name_of("Helvetica"));
    let mut fonts = lopdf::Dictionary::new();
    dictionary_set(&mut fonts, "Helvetica".as_bytes(), dictionary_object(font));
    let mut resources = lopdf::Dictionary::new();
    dictionary_set(&mut resources, "Font".as_bytes(), dictionary_object(fonts));
    let mut corners: Vec<lopdf::Object> = Vec::new();
    corners.push(integer_object(0));
    corners.push(integer_object(0));
    corners.push(integer_object(612));
    corners.push(integer_object(792));
    proof {
        assert(values_of(corners@) =~= letter_box()->Array_0);
    }
    let mut page = lopdf::Dictionary::new();
    dictionary_set(&mut page, "Type".as_bytes(), name_of("Page"));
    dictionary_set(&mut page, "MediaBox".as_bytes(), array_object(corners));
    dictionary_set(&mut page, "Resources".as_bytes(), dictionary_object(resources));
    dictionary_object(page)
}

/// The root pages node: its id, its kids with one more, and its count with
/// one more.
fn read_pages_node(doc: &lopdf::Document, kid: ObjectId) -> (r: Option<
    (ObjectId, Vec<lopdf::Object>, i64),
>)
    ensures
        match pages_node(graph_of(*doc)) {
            Some((pages_id, node)) => r matches Some((id, kids, count)) && id == pages_id
                && values_of(kids@) == kids_of(node).push(Value::Reference(kid)) && count
                == one_more(count_of(node)),
            None => r is None,
        },
{
    let catalog_id = match trailer_get(doc, "Root".as_bytes()) {
        Some(root) => match root.as_reference() {
            Ok(id) => id,
            Err(_) => return None,
        },
        None => return None,
    };
    let catalog = match doc.get_dictionary(catalog_id) {
        Ok(catalog) => catalog,
        Err(_) => return None,
    };
    let pages_id = match catalog.get("Pages".as_bytes()) {
        Ok(pages) => match pages.as_reference() {
            Ok(id) => id,
            Err(_) => return None,
        },
        Err(_) => return None,
    };
    let node = match doc.get_dictionary(pages_id) {
        Ok(node) => node,
        Err(_) => return None,
    };
    let kids = match node.get("Kids".as_bytes()) {
        Ok(kids) => match kids.as_array() {
            Ok(items) => extended(items, kid),
            Err(_) => single(kid),
        },
        Err(_) => single(kid),
    };
    let count = match node.get("Count".as_bytes()) {
        Ok(count) => match count.as_i64() {
            Ok(count) => count,
            Err(_) => 0,
        },
        Err(_) => 0,
    };
    proof {
        assert(Seq::<Value>::empty().push(Value::Reference(kid)) =~= seq![Value::Reference(kid)]);
    }
    Some((pages_id, kids, if count < i64::MAX { count + 1 } else { count }))
}

/// Puts a new, empty page into the page tree.
fn add_page(doc: &mut lopdf::Document) -> (r: Result<ObjectId, LibError>)
    ensures
        graph_of(*final(doc)) == page_added(graph_of(*old(doc))).graph,
        match r {
            Ok(id) => page_added(graph_of(*old(doc))).page == Ok::<ObjectId, Flaw>(id),
            Err(e) => page_added(graph_of(*old(doc))).page matches Err(flaw) && flaw_reported(
                e,
                flaw,
            ),
        },
{
    if read_pages_node(doc, (0, 0)).is_none() {
        return Err(LibError::Malformed(Defect::PageTree));
    }
    let page_id = match document_add(doc, minimal_page_object()) {
        Ok(id) => id,
        Err(e) => return Err(LibError::Pdf(e)),
    };
    let (pages_id, kids, count) = match read_pages_node(doc, page_id) {
        Some(node) => node,
        None => return Err(LibError::Malformed(Defect::PageTree)),
    };
    match doc.get_dictionary_mut(pages_id) {
        Ok(node) => {
            dictionary_set(node, "Kids".as_bytes(), array_object(kids));
            dictionary_set(node, "Count".as_bytes(), integer_object(count));
        },
        Err(_) => return Err(LibError::Malformed(Defect::PageTree)),
    }
    match doc.get_dictionary_mut(page_id) {
        Ok(page) => {
            dictionary_set(page, "Parent".as_bytes(), reference_object(pages_id));
            Ok(page_id)
        },
        Err(_) => Err(LibError::Malformed(Defect::PageTree)),
    }
}

/// Whether the repair of a page writes nothing: the page's id leads to an
/// object that is no stream. A dictionary is kept, and anything else that is
/// no stream is reported.
pub open spec fn is_kept(objects: Map<ObjectId, Value>, page_id: ObjectId) -> bool {
    match lookup(objects, page_id) {
        Some(Value::Stream(_, _)) => false,
        Some(_) => true,
        None => false,
    }
}

/// Makes sure that a page is a dictionary, and returns the id of that
/// dictionary: the page's own id, or the id of a new page where the page's
/// id led to nothing. Where the page is a dictionary already, the document
/// stays as it is.
pub fn ensure_page_dictionary(doc: &mut lopdf::Document, page_id: ObjectId) -> (r: Result<
    ObjectId,
    LibError,
>)
    ensures
        graph_of(*final(doc)) == ensured(graph_of(*old(doc)), page_id).graph,
        is_kept(document_objects(*old(doc)), page_id) ==> *final(doc) == *old(doc),
        match r {
            Ok(id) => ensured(graph_of(*old(doc)), page_id).page == Ok::<ObjectId, Flaw>(id),
            Err(e) => ensured(graph_of(*old(doc)), page_id).page matches Err(flaw)
                && flaw_reported(e, flaw),
        },
{
    let kind = match doc.get_object(page_id) {
        Ok(object) => if object.as_dict().is_ok() {
            PageKind::Dictionary
        } else if object.as_stream().is_ok() {
            PageKind::Stream
        } else {
            PageKind::Other
        },
        Err(_) => PageKind::Missing,
    };
    match kind {
        PageKind::Dictionary => Ok(page_id),
        PageKind::Stream => {
            document_set(doc, page_id, minimal_page_object());
            Ok(page_id)
        },
        PageKind::Other => Err(LibError::Malformed(Defect::PageObject(page_id))),
        PageKind::Missing => add_page(doc),
    }
}

/// What a page's id leads to.
enum PageKind {
    Dictionary,
    Stream,
    Other,
    Missing,
}

/// A graph after the repair of a run of pages: the ids of the page
/// dictionaries, or why the repair stopped.
pub struct EnsuredAll {
    pub graph: Graph,
    pub pages: Result<Seq<ObjectId>, Flaw>,
}

/// The repair of the pages in turn, each in the document that the one before
/// it left. The repair stops at the first page that cannot be repaired.
pub open spec fn ensured_all(g: Graph, page_ids: Seq<ObjectId>) -> EnsuredAll
    decreases page_ids.len(),
{
    if page_ids.len() == 0 {
        EnsuredAll { graph: g, pages: Ok(Seq::empty()) }
    } else {
        let before = ensured_all(g, page_ids.drop_last());
        match before.pages {
            Err(_) => before,
            Ok(fixed) => {
                let next = ensured(before.graph, page_ids.last());
                match next.page {
                    Ok(id) => EnsuredAll { graph: next.graph, pages: Ok(fixed.push(id)) },
                    Err(flaw) => EnsuredAll { graph: next.graph, pages: Err(flaw) },
                }
            },
        }
    }
}

/// The ids of a list of pages.
pub open spec fn ids_of(pages: Seq<(u32, ObjectId)>) -> Seq<ObjectId> {
    pages.map_values(|page: (u32, ObjectId)| page.1)
}

/// The pages with their numbers and, in place of their ids, the ids of their
/// page dictionaries after a repair.
pub open spec fn renumbered(pages: Seq<(u32, ObjectId)>, ids: Seq<ObjectId>) -> Seq<
    (u32, ObjectId),
> {
    Seq::new(ids.len(), |i: int| (pages[i].0, ids[i]))
}

/// Whether `after` and `r` are what normalizing `before` gives: the catalog
/// is repaired, the pages that the document then enumerates are repaired in
/// turn, and handed back with their numbers.
pub open spec fn normalized(
    before: Graph,
    after: Graph,
    r: Result<Vec<(u32, ObjectId)>, LibError>,
) -> bool {
    let tree = repaired_tree(before);
    if tree.done {
        let listed = enumerated_pages(tree.graph.objects, tree.graph.trailer);
        let all = ensured_all(tree.graph, ids_of(listed));
        &&& after == all.graph
        &&& match r {
            Ok(pages) => all.pages matches Ok(ids) && pages@ == renumbered(listed, ids),
            Err(e) => all.pages matches Err(flaw) && flaw_reported(e, flaw),
        }
    } else {
        &&& after == tree.graph
        &&& r matches Err(e) && e is Pdf
    }
}

/// Whether the repair of each of the pages writes nothing.
pub open spec fn are_kept(objects: Map<ObjectId, Value>, page_ids: Seq<ObjectId>) -> bool {
    forall|i: int| 0 <= i < page_ids.len() ==> is_kept(objects, #[trigger] page_ids[i])
}

/// Repairs the pages in turn.
fn ensure_pages(doc: &mut lopdf::Document, pages: &Vec<(u32, ObjectId)>) -> (r: Result<
    Vec<(u32, ObjectId)>,
    LibError,
>)
    ensures
        graph_of(*final(doc)) == ensured_all(graph_of(*old(doc)), ids_of(pages@)).graph,
        are_kept(document_objects(*old(doc)), ids_of(pages@)) ==> *final(doc) == *old(doc),
        match r {
            Ok(fixed) => ensured_all(graph_of(*old(doc)), ids_of(pages@)).pages matches Ok(ids)
                && fixed@ == renumbered(pages@, ids),
            Err(e) => ensured_all(graph_of(*old(doc)), ids_of(pages@)).pages matches Err(flaw)
                && flaw_reported(e, flaw),
        },
{
    let ghost start = graph_of(*doc);
    let mut fixed: Vec<(u32, ObjectId)> = Vec::new();
    let mut i: usize = 0;
    proof {
        assert(ids_of(pages@).take(0) =~= Seq::empty());
        assert(fixed@ =~= renumbered(pages@, Seq::empty()));
    }
    while i < pages.len()
        invariant
            i <= pages.len(),
            start == graph_of(*old(doc)),
            graph_of(*doc) == ensured_all(start, ids_of(pages@).take(i as int)).graph,
            are_kept(start.objects, ids_of(pages@)) ==> *doc == *old(doc),
            ensured_all(start, ids_of(pages@).take(i as int)).pages matches Ok(ids) && fixed@
                == renumbered(pages@, ids) && ids.len() == i,
        decreases pages.len() - i,
    {
        let ghost before = ensured_all(start, ids_of(pages@).take(i as int)).pages->Ok_0;
        proof {
            assert(ids_of(pages@).take(i + 1).drop_last() =~= ids_of(pages@).take(i as int));
            assert(ids_of(pages@).take(i + 1).last() == pages@[i as int].1);
        }
        proof {
            if are_kept(start.objects, ids_of(pages@)) {
                assert(is_kept(start.objects, ids_of(pages@)[i as int]));
            }
        }
        match ensure_page_dictionary(doc, pages[i].1) {
            Ok(id) => {
                fixed.push((pages[i].0, id));
                proof {
                    assert(fixed@ =~= renumbered(pages@, before.push(id)));
                }
            },
            Err(e) => {
                proof {
                    lemma_ensured_all_stops(start, ids_of(pages@), i + 1);
                }
                return Err(e);
            },
        }
        i += 1;
    }
    proof {
        assert(ids_of(pages@).take(i as int) =~= ids_of(pages@));
    }
    Ok(fixed)
}

/// Once the repair of a run of pages has stopped, more pages change nothing.
pub proof fn lemma_ensured_all_stops(g: Graph, page_ids: Seq<ObjectId>, n: int)
    requires
        0 <= n <= page_ids.len(),
        ensured_all(g, page_ids.take(n)).pages is Err,
    ensures
        ensured_all(g, page_ids) == ensured_all(g, page_ids.take(n)),
    decreases page_ids.len(),
{
    if n == page_ids.len() {
        assert(page_ids.take(n) =~= page_ids);
    } else {
        assert(page_ids.drop_last().take(n) =~= page_ids.take(n));
        lemma_ensured_all_stops(g, page_ids.drop_last(), n);
    }
}

/// Repairs a document before it is written to, and returns its pages in
/// page order: each with its number and the id of its page dictionary. The
/// catalog is repaired first; then each page that the document enumerates
/// is made a dictionary. A document that has a catalog and whose pages are
/// dictionaries stays as it is. Fails at the first page whose object is
/// neither a dictionary nor a stream nor missing, or where a new object is
/// needed and no object number is left.
pub fn normalize(doc: &mut lopdf::Document) -> (r: Result<Vec<(u32, ObjectId)>, LibError>)
    ensures
        normalized(graph_of(*old(doc)), graph_of(*final(doc)), r),
        is_rooted(graph_of(*old(doc))) && are_kept(
            document_objects(*old(doc)),
            ids_of(document_pages(*old(doc))),
        ) ==> *final(doc) == *old(doc),
{
    match fix_page_tree(doc) {
        Ok(()) => {},
        Err(e) => {
            return Err(e);
        },
    }
    let pages = document_page_list(doc);
    ensure_pages(doc, &pages)
}

/// A corner coordinate of a media box: the number in the array, or the
/// given default where the element is no number.
pub open spec fn coordinate(v: Value, default: i64) -> u32 {
    match v {
        Value::Integer(i) => integer_as_real(i),
        Value::Real(bits) => bits,
        _ => integer_as_real(default),
    }
}

/// The media box of a page in Letter format: 612 by 792 points.
pub open spec fn letter() -> (u32, u32, u32, u32) {
    (integer_as_real(0), integer_as_real(0), integer_as_real(612), integer_as_real(792))
}

/// The media box that an array gives: its first four elements, and Letter
/// format where it has fewer.
pub open spec fn box_of(items: Seq<Value>) -> (u32, u32, u32, u32) {
    if items.len() < 4 {
        letter()
    } else {
        (
            coordinate(items[0], 0),
            coordinate(items[1], 0),
            coordinate(items[2], 612),
            coordinate(items[3], 792),
        )
    }
}

/// The media box that a page inherits: that of the dictionary its
/// `/Parent` refers to, where that has an array of four elements or more;
/// else Letter format.
pub open spec fn inherited_box(objects: Map<ObjectId, Value>, page: Map<Seq<u8>, Value>) -> (
    u32,
    u32,
    u32,
    u32,
) {
    if page.contains_key(key("Parent")) {
        match page[key("Parent")] {
            Value::Reference(parent_id) => match lookup(objects, parent_id) {
                Some(Value::Dictionary(parent)) => if parent.contains_key(key("MediaBox")) {
                    match parent[key("MediaBox")] {
                        Value::Array(items) => box_of(items),
                        _ => letter(),
                    }
                } else {
                    letter()
                },
                _ => letter(),
            },
            _ => letter(),
        }
    } else {
        letter()
    }
}

/// The media box of a page: the array under `/MediaBox`, or the array that
/// a reference there leads to; without either, the box that the page
/// inherits. A page that is no dictionary has Letter format.
pub open spec fn media_box_of(objects: Map<ObjectId, Value>, page_id: ObjectId) -> (
    u32,
    u32,
    u32,
    u32,
) {
    match lookup(objects, page_id) {
        Some(Value::Dictionary(page)) => if page.contains_key(key("MediaBox")) {
            match page[key("MediaBox")] {
                Value::Array(items) => box_of(items),
                Value::Reference(id) => match lookup(objects, id) {
                    Some(Value::Array(items)) => box_of(items),
                    _ => letter(),
                },
                _ => inherited_box(objects, page),
            }
        } else {
            inherited_box(objects, page)
        },
        _ => letter(),
    }
}

/// The integer that a coordinate is read from, where it is read from one:
/// the integer that the value is, or the default where the value is no
/// number.
pub open spec fn coordinate_source(v: Value, default: i64) -> Option<i64> {
    match v {
        Value::Integer(i) => Some(i),
        Value::Real(_) => None,
        _ => Some(default),
    }
}

/// A coordinate: the number that an object holds, or the given default
/// where it holds none.
pub(crate) fn read_coordinate(object: &lopdf::Object, default: i64) -> (r: Real)
    ensures
        r.bits() == coordinate(object_value(*object), default),
        coordinate_source(object_value(*object), default) matches Some(i) ==> is_cast_of(
            i,
            r.bits(),
        ),
{
    match Real::from_number(object) {
        Some(number) => number,
        None => Real::from_integer(default),
    }
}

/// The bit patterns of the corners of a page in Letter format: 0, 0, 612
/// and 792.
pub open spec fn letter_bits() -> (u32, u32, u32, u32) {
    (0, 0, 0x4419_0000, 0x4446_0000)
}

/// Whether a page has Letter format for want of a media box: it is no
/// dictionary, or has neither a media box nor a parent to inherit one from.
pub open spec fn is_without_box(objects: Map<ObjectId, Value>, page_id: ObjectId) -> bool {
    match lookup(objects, page_id) {
        Some(Value::Dictionary(page)) => !page.contains_key(key("MediaBox")) && !page.contains_key(
            key("Parent"),
        ),
        _ => true,
    }
}

/// Whether a page holds the media box of Letter format, in integers.
pub open spec fn has_letter_box(objects: Map<ObjectId, Value>, page_id: ObjectId) -> bool {
    match lookup(objects, page_id) {
        Some(Value::Dictionary(page)) => page.contains_key(key("MediaBox")) && page[key(
            "MediaBox",
        )] == letter_box(),
        _ => false,
    }
}

/// A page in Letter format.
fn letter_rect() -> (r: Rect)
    ensures
        r.bits() == letter(),
        r.bits() == letter_bits(),
{
    Rect {
        x1: Real::from_integer(0),
        y1: Real::from_integer(0),
        x2: Real::from_integer(612),
        y2: Real::from_integer(792),
    }
}

/// The media box that an array gives.
fn read_box(items: &Vec<lopdf::Object>) -> (r: Rect)
    ensures
        r.bits() == box_of(values_of(items@)),
        Value::Array(values_of(items@)) == letter_box() ==> r.bits() == letter_bits(),
{
    if items.len() < 4 {
        letter_rect()
    } else {
        Rect {
            x1: read_coordinate(&items[0], 0),
            y1: read_coordinate(&items[1], 0),
            x2: read_coordinate(&items[2], 612),
            y2: read_coordinate(&items[3], 792),
        }
    }
}

/// The media box that a page inherits.
fn read_inherited_box(doc: &lopdf::Document, page: &lopdf::Dictionary) -> (r: Rect)
    ensures
        r.bits() == inherited_box(document_objects(*doc), dictionary_entries(*page)),
        !dictionary_entries(*page).contains_key(key("Parent")) ==> r.bits() == letter_bits(),
{
    let parent_id = match page.get("Parent".as_bytes()) {
        Ok(parent) => match parent.as_reference() {
            Ok(id) => id,
            Err(_) => return letter_rect(),
        },
        Err(_) => return letter_rect(),
    };
    let parent = match doc.get_dictionary(parent_id) {
        Ok(parent) => parent,
        Err(_) => return letter_rect(),
    };
    match parent.get("MediaBox".as_bytes()) {
        Ok(media_box) => match media_box.as_array() {
            Ok(items) => read_box(items),
            Err(_) => letter_rect(),
        },
        Err(_) => letter_rect(),
    }
}

/// The media box of a page, from which its width and height follow: the
/// lower left and the upper right corner. Integers are read as reals;
/// whatever is missing or malformed gives way to Letter format, which is
/// 612 by 792 points.
pub fn get_page_dimensions(doc: &lopdf::Document, page_id: ObjectId) -> (r: Rect)
    ensures
        r.bits() == media_box_of(document_objects(*doc), page_id),
        is_without_box(document_objects(*doc), page_id) || has_letter_box(
            document_objects(*doc),
            page_id,
        ) ==> r.bits() == letter_bits(),
{
    let page = match doc.get_dictionary(page_id) {
        Ok(page) => page,
        Err(_) => return letter_rect(),
    };
    match page.get("MediaBox".as_bytes()) {
        Ok(media_box) => match media_box.as_array() {
            Ok(items) => read_box(items),
            Err(_) => match media_box.as_reference() {
                Ok(id) => match doc.get_object(id) {
                    Ok(target) => match target.as_array() {
                        Ok(items) => read_box(items),
                        Err(_) => letter_rect(),
                    },
                    Err(_) => letter_rect(),
                },
                Err(_) => read_inherited_box(doc, page),
            },
        },
        Err(_) => read_inherited_box(doc, page),
    }
}

} // verus!
