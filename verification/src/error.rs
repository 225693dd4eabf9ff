//! What can go wrong, by kind.

use lopdf::ObjectId;
use vstd::prelude::*;

verus! {

/// What a lookup did not find.
#[derive(Debug, Clone, Copy, PartialEq, Eq, Structural)]
pub enum Missing {
    /// No annotation carries the label.
    Label,
    /// The document has no page of this number.
    Page(u32),
}

/// A setting that is out of range.
#[derive(Debug, Clone, Copy, PartialEq, Eq, Structural)]
pub enum Setting {
    /// The font size.
    FontSize,
    /// The horizontal distance from the corner.
    XOffset,
    /// The vertical distance from the corner.
    YOffset,
}

/// A shape that the document was expected to have and has not.
#[derive(Debug, Clone, Copy)]
pub enum Defect {
    /// The object is no dictionary.
    NotDictionary(ObjectId),
    /// The page of this number has an `/Annots` entry that is neither an
    /// array nor a reference.
    Annots(u32),
    /// `/Rect` is missing, is no array of four elements, or holds something
    /// that is no number.
    Rect,
    /// The annotation has no `/Subtype` that is a name in UTF-8.
    Subtype(ObjectId),
    /// The page object is neither a dictionary nor a stream.
    PageObject(ObjectId),
    /// The catalog does not lead to a pages node.
    PageTree,
}

/// An error of the library.
#[derive(Debug)]
pub enum LibError {
    /// A label or a page number was looked for and is not there.
    NotFound(Missing),
    /// The document is not shaped as expected.
    Malformed(Defect),
    /// An annotation of a subtype that cannot be recreated; the subtype's
    /// name is attached.
    Unsupported(Vec<u8>),
    /// A setting is out of range.
    Configuration(Setting),
    /// The PDF object library reported an error.
    Pdf(lopdf::Error),
}

/// An error of the text stamping operations.
#[derive(Debug)]
pub enum AnnotationError {
    /// Neither the font family nor its fallback could be loaded; the
    /// family is attached.
    FontError(String),
    /// A page, its content stream or its resources have an unexpected shape;
    /// a message is attached.
    ContentStreamError(String),
    /// The PDF object library reported an error.
    PdfError(lopdf::Error),
}

} // verus!
