//! A PDF document with the information that it carries about itself.

use crate::annotation_utils::{text_at, text_entry, text_of};
use crate::pdf::{
    document_objects, document_page_list, document_pages, document_trailer, key, lookup,
    trailer_get, Value,
};
use vstd::prelude::*;

verus! {

/// The entries of a document's information dictionary; a field that the
/// document does not give is `None`.
#[derive(Debug)]
pub struct PdfMetadata {
    pub title: Option<String>,
    pub author: Option<String>,
    pub subject: Option<String>,
    pub keywords: Option<String>,
    pub creator: Option<String>,
    pub producer: Option<String>,
    pub creation_date: Option<String>,
    pub modification_date: Option<String>,
}

impl Default for PdfMetadata {
    fn default() -> (metadata: Self)
        ensures
            metadata.is_empty(),
    {
        PdfMetadata {
            title: None,
            author: None,
            subject: None,
            keywords: None,
            creator: None,
            producer: None,
            creation_date: None,
            modification_date: None,
        }
    }
}

impl PdfMetadata {
    /// Whether no field is given.
    pub open spec fn is_empty(self) -> bool {
        &&& self.title is None
        &&& self.author is None
        &&& self.subject is None
        &&& self.keywords is None
        &&& self.creator is None
        &&& self.producer is None
        &&& self.creation_date is None
        &&& self.modification_date is None
    }

    /// Whether the fields are the texts that an information dictionary
    /// holds.
    pub open spec fn describes(self, info: Map<Seq<u8>, Value>) -> bool {
        &&& text_of(self.title) == text_at(info, key("Title"))
        &&& text_of(self.author) == text_at(info, key("Author"))
        &&& text_of(self.subject) == text_at(info, key("Subject"))
        &&& text_of(self.keywords) == text_at(info, key("Keywords"))
        &&& text_of(self.creator) == text_at(info, key("Creator"))
        &&& text_of(self.producer) == text_at(info, key("Producer"))
        &&& text_of(self.creation_date) == text_at(info, key("CreationDate"))
        &&& text_of(self.modification_date) == text_at(info, key("ModDate"))
    }
}

/// The information dictionary of a document: what the trailer's `/Info`
/// refers to, where that is a dictionary.
pub open spec fn info_of(
    objects: Map<lopdf::ObjectId, Value>,
    trailer: Map<Seq<u8>, Value>,
) -> Option<Map<Seq<u8>, Value>> {
    if trailer.contains_key(key("Info")) {
        match trailer[key("Info")] {
            Value::Reference(id) => match lookup(objects, id) {
                Some(Value::Dictionary(info)) => Some(info),
                _ => None,
            },
            _ => None,
        }
    } else {
        None
    }
}

/// Reads a document's information dictionary. Where the document has none,
/// no field is given.
pub fn extract_metadata(doc: &lopdf::Document) -> (metadata: PdfMetadata)
    ensures
        match info_of(document_objects(*doc), document_trailer(*doc)) {
            Some(info) => metadata.describes(info),
            None => metadata.is_empty(),
        },
{
    let info_id = match trailer_get(doc, "Info".as_bytes()) {
        Some(info) => match info.as_reference() {
            Ok(id) => id,
            Err(_) => return PdfMetadata::default(),
        },
        None => return PdfMetadata::default(),
    };
    let info = match doc.get_dictionary(info_id) {
        Ok(info) => info,
        Err(_) => return PdfMetadata::default(),
    };
    PdfMetadata {
        title: text_entry(info, "Title"),
        author: text_entry(info, "Author"),
        subject: text_entry(info, "Subject"),
        keywords: text_entry(info, "Keywords"),
        creator: text_entry(info, "Creator"),
        producer: text_entry(info, "Producer"),
        creation_date: text_entry(info, "CreationDate"),
        modification_date: text_entry(info, "ModDate"),
    }
}

/// A document together with its information and the path of its file.
#[derive(Debug)]
pub struct PdfDocument {
    inner_doc: lopdf::Document,
    metadata: PdfMetadata,
    path: String,
}

impl PdfDocument {
    /// The document.
    pub closed spec fn document(self) -> lopdf::Document {
        self.inner_doc
    }

    /// The document's information, as it was when the document was taken.
    pub closed spec fn information(self) -> PdfMetadata {
        self.metadata
    }

    /// The path of the document's file.
    pub closed spec fn file(self) -> Seq<char> {
        self.path@
    }

    /// Takes a document that was read from the file at the given path, and
    /// reads its information.
    pub fn new(inner_doc: lopdf::Document, path: String) -> (r: Self)
        ensures
            r.document() == inner_doc,
            r.file() == path@,
            match info_of(document_objects(inner_doc), document_trailer(inner_doc)) {
                Some(info) => r.information().describes(info),
                None => r.information().is_empty(),
            },
    {
        let metadata = extract_metadata(&inner_doc);
        PdfDocument { inner_doc, metadata, path }
    }

    /// The number of pages.
    pub fn page_count(&self) -> (count: usize)
        ensures
            count == document_pages(self.document()).len(),
    {
        document_page_list(&self.inner_doc).len()
    }

    /// The document's information.
    pub fn metadata(&self) -> (metadata: &PdfMetadata)
        ensures
            *metadata == self.information(),
    {
        &self.metadata
    }

    /// The path of the document's file.
    pub fn path(&self) -> (path: &String)
        ensures
            path@ == self.file(),
    {
        &self.path
    }

    /// Gives the document back, to be changed or saved.
    pub fn into_inner(self) -> (doc: lopdf::Document)
        ensures
            doc == self.document(),
    {
        self.inner_doc
    }
}

} // verus!
