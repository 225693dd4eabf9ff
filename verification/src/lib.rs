//! Labeled annotations on PDF documents: finding them by label, building
//! them so that viewers render them alike, listing them on pages, copying
//! them between documents, and repairing a document before it is written to.
//!
//! The documents are `lopdf` documents. The module `pdf` says what the
//! library assumes of `lopdf` and of the text functions of the standard
//! library, the module `greeting` what it assumes of upper case, the module
//! `drill` what it assumes of a random draw; everything else is proved from
//! that. The module `laws` holds what follows for the operations taken
//! together.
//!
//! An operation that adds an object looks at the page first, and writes
//! nothing where the page cannot take what is to be added. The laws speak
//! of documents in which no object has a higher number than the document
//! has handed out, so that a new object never takes the place of another;
//! `graph::is_numbered` tells whether a document is one.
//!
//! Which pages a document has, and in what order, is for `lopdf` to say, and
//! the library does not say how a write changes that. The operations that
//! go by page numbers therefore come in two forms: one that asks the
//! document for its pages, and one, named `..in_pages`, that takes the list
//! of pages from the caller. What `laws` proves of several operations in a
//! row holds of the second form, over one list. The module `order` states
//! the condition on such a list that every placement keeps, and under which
//! each annotation that was placed is found again by its label.

use vstd::prelude::*;

pub mod annotation;
pub mod annotation_utils;
pub mod arguments;
pub mod config;
pub mod content;
pub mod drill;
pub mod error;
pub mod graph;
pub mod greeting;
pub mod keys;
pub mod laws;
pub mod metadata;
pub mod number;
pub mod order;
pub mod pdf;
pub mod pdf_ops;
pub mod pdf_utils;
pub mod processor;
pub mod summary;
pub mod template;
pub mod text;

pub use annotation::{
    add_labeled_freetext, add_labeled_freetext_in_pages, add_labeled_freetext_multi,
    add_labeled_freetext_multi_in_pages, add_labeled_rect, add_labeled_rect_in_pages,
    add_labeled_rect_multi, add_labeled_rect_multi_in_pages, Annotator, BorderStyle, Color, Rect,
};
pub use annotation_utils::{get_annotation_properties, AnnotationProperties};
pub use arguments::{parse_color, parse_rect, ArgumentError};
pub use config::{Config, Corner, FontConfig, PositionConfig};
pub use error::{AnnotationError, LibError};
pub use greeting::{create_greeting, GreetingStyle};
pub use metadata::{PdfDocument, PdfMetadata};
pub use number::Real;
pub use pdf_ops::{recreate_annotation_by_label, recreate_annotation_in_pages};
pub use summary::{PageTally, ProcessingSummary};

verus! {

/// Sum of two counters.
pub fn add(left: u64, right: u64) -> (sum: u64)
    requires
        left + right <= u64::MAX,
    ensures
        sum == left + right,
{
    left + right
}

} // verus!
