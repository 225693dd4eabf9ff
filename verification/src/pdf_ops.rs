//! Copying a labeled annotation from one document to another by building it
//! anew from its properties.

use crate::annotation::{
    add_labeled_freetext_in_pages, add_labeled_rect_in_pages, border_style_value, color_value,
    freetext_entries, placed, rect_entries, tells,
};
use crate::annotation_utils::{
    border_of, color_of, contents_of, extract_border_style_property, extract_color_property,
    find_annotation_in_pages, get_annotation_contents, get_annotation_rect, lemma_search_found,
    page_list, page_with_number, rect_of, search, Outcome, Search,
};
use crate::config::{default_font_family, default_font_size, FontConfig, DEFAULT_FONT_SIZE};
use crate::error::{Defect, LibError, Missing};
use crate::pdf::{
    document_max_id, document_objects, document_pages, document_trailer, integer_as_real, is_utf8,
    key, lookup, Value,
};
use crate::text::same_bytes;
use lopdf::ObjectId;
use vstd::prelude::*;
use vstd::slice::slice_to_vec;

verus! {

/// What recreating an annotation comes to.
pub enum Plan {
    /// An annotation with these entries is built.
    Build(Map<Seq<u8>, Value>),
    /// No annotation carries the label.
    Absent,
    /// The search for the label failed.
    SearchFailed,
    /// The annotation has no `/Subtype` that is a name in UTF-8.
    NoSubtype(ObjectId),
    /// The annotation has no usable `/Rect`.
    NoRect,
    /// The annotation's subtype, this name, is not one that can be built.
    Unsupported(Seq<u8>),
}

/// The subtype of an annotation: the bytes of the name under `/Subtype`, if
/// they are valid UTF-8.
pub open spec fn subtype_name(entries: Map<Seq<u8>, Value>) -> Option<Seq<u8>> {
    if entries.contains_key(key("Subtype")) {
        match entries[key("Subtype")] {
            Value::Name(bytes) => if vstd::utf8::valid_utf8(bytes) {
                Some(bytes)
            } else {
                None
            },
            _ => None,
        }
    } else {
        None
    }
}

/// The value of a color that was read.
pub open spec fn read_color(color: Option<(u32, u32, u32)>) -> Option<Value> {
    match color {
        Some(color) => Some(color_value(color)),
        None => None,
    }
}

/// The value of a border width that was read.
pub open spec fn read_border(width: Option<u32>) -> Option<Value> {
    match width {
        Some(width) => Some(border_style_value(width)),
        None => None,
    }
}

/// The entries of the annotation that stands for a source annotation with
/// the given entries, under the given label. A free text annotation keeps its
/// rectangle and its contents and gets the default font size; a square keeps
/// its rectangle, its colors and its border width. Nothing else is carried
/// over.
pub open spec fn plan_for(id: ObjectId, entries: Map<Seq<u8>, Value>, label: Seq<char>) -> Plan {
    match subtype_name(entries) {
        None => Plan::NoSubtype(id),
        Some(subtype) => match rect_of(entries) {
            None => Plan::NoRect,
            Some(rect) => if subtype == key("FreeText") {
                Plan::Build(
                    freetext_entries(
                        vstd::utf8::encode_utf8(label),
                        vstd::utf8::encode_utf8(
                            match contents_of(entries) {
                                Some(text) => text,
                                None => Seq::empty(),
                            },
                        ),
                        rect,
                        integer_as_real(DEFAULT_FONT_SIZE),
                    ),
                )
            } else if subtype == key("Square") || subtype == key("Rect") {
                Plan::Build(
                    rect_entries(
                        vstd::utf8::encode_utf8(label),
                        rect,
                        read_color(color_of(entries, key("C"))),
                        read_color(color_of(entries, key("IC"))),
                        read_border(border_of(entries)),
                    ),
                )
            } else {
                Plan::Unsupported(subtype)
            },
        },
    }
}

/// What recreating the annotation with the given label comes to, in a source
/// document with these objects and pages.
pub open spec fn plan(
    objects: Map<ObjectId, Value>,
    pages: Seq<(u32, ObjectId)>,
    label: Seq<char>,
) -> Plan {
    match search(objects, pages, label) {
        Search::Failed => Plan::SearchFailed,
        Search::Absent => Plan::Absent,
        Search::Found(id, _) => match lookup(objects, id) {
            Some(Value::Dictionary(entries)) => plan_for(id, entries, label),
            _ => Plan::SearchFailed,
        },
    }
}

/// The subtype of an annotation, as a copy of the name's bytes.
fn read_subtype(dict: &lopdf::Dictionary) -> (r: Option<Vec<u8>>)
    ensures
        match r {
            Some(bytes) => subtype_name(crate::pdf::dictionary_entries(*dict)) == Some(bytes@),
            None => subtype_name(crate::pdf::dictionary_entries(*dict)) is None,
        },
{
    match dict.get("Subtype".as_bytes()) {
        Ok(object) => match object.as_name() {
            Ok(bytes) => if is_utf8(bytes) {
                Some(slice_to_vec(bytes))
            } else {
                None
            },
            Err(_) => None,
        },
        Err(_) => None,
    }
}

/// Finds the annotation with the given label among the given pages of the
/// source document and builds one like it on a page of the target document,
/// taken by its number from the given list of the target's pages: from its
/// subtype, rectangle, contents, colors and border width, never from its
/// streams or references. Returns the new annotation's id.
///
/// A free text annotation gets the default font, Helvetica in 12 points,
/// whatever the source's appearance says. Where the label is not found, or
/// the source annotation cannot be read or is of another subtype than
/// `FreeText`, `Square` or `Rect`, the target stays as it was.
pub fn recreate_annotation_in_pages(
    source_doc: &lopdf::Document,
    source_pages: &Vec<(u32, ObjectId)>,
    target_doc: &mut lopdf::Document,
    target_pages: &Vec<(u32, ObjectId)>,
    label: &str,
    target_page: u32,
) -> (r: Result<ObjectId, LibError>)
    ensures
        document_trailer(*final(target_doc)) == document_trailer(*old(target_doc)),
        match plan(document_objects(*source_doc), source_pages@, label@) {
            Plan::Build(entries) => {
                let before = Outcome {
                    objects: document_objects(*old(target_doc)),
                    max_id: document_max_id(*old(target_doc)),
                    failure: None,
                };
                let outcome = placed(
                    before.objects,
                    before.max_id,
                    target_pages@,
                    target_page,
                    entries,
                );
                &&& document_objects(*final(target_doc)) == outcome.objects
                &&& document_max_id(*final(target_doc)) == outcome.max_id
                &&& tells(
                    r,
                    before,
                    outcome,
                    target_page,
                    page_with_number(target_pages@, target_page),
                )
            },
            Plan::Absent => *final(target_doc) == *old(target_doc) && r matches Err(
                LibError::NotFound(Missing::Label),
            ),
            Plan::SearchFailed => *final(target_doc) == *old(target_doc) && r matches Err(
                LibError::Pdf(_),
            ),
            Plan::NoSubtype(id) => *final(target_doc) == *old(target_doc) && (r matches Err(
                LibError::Malformed(Defect::Subtype(at)),
            ) && at == id),
            Plan::NoRect => *final(target_doc) == *old(target_doc) && r matches Err(
                LibError::Malformed(Defect::Rect),
            ),
            Plan::Unsupported(subtype) => *final(target_doc) == *old(target_doc) && (r matches Err(
                LibError::Unsupported(name),
            ) && name@ == subtype),
        },
{
    let id = match find_annotation_in_pages(source_doc, source_pages, label)? {
        Some((id, _)) => id,
        None => return Err(LibError::NotFound(Missing::Label)),
    };
    proof {
        lemma_search_found(document_objects(*source_doc), source_pages@, label@);
    }
    let source = match source_doc.get_dictionary(id) {
        Ok(source) => source,
        Err(e) => return Err(LibError::Pdf(e)),
    };
    let subtype = match read_subtype(source) {
        Some(subtype) => subtype,
        None => return Err(LibError::Malformed(Defect::Subtype(id))),
    };
    let rect = get_annotation_rect(source)?;
    if same_bytes(subtype.as_slice(), "FreeText".as_bytes()) {
        let contents = match get_annotation_contents(source) {
            Some(contents) => contents,
            None => String::new(),
        };
        let font_config = FontConfig {
            size: default_font_size(),
            family: default_font_family(),
            fallback: None,
        };
        add_labeled_freetext_in_pages(
            target_doc,
            target_pages,
            target_page, label, contents.as_str(), &rect, &font_config)
    } else if same_bytes(subtype.as_slice(), "Square".as_bytes()) || same_bytes(
        subtype.as_slice(),
        "Rect".as_bytes(),
    ) {
        let color = extract_color_property(source, "C".as_bytes());
        let interior_color = extract_color_property(source, "IC".as_bytes());
        let border_style = extract_border_style_property(source);
        add_labeled_rect_in_pages(
            target_doc,
            target_pages,
            target_page,
            label,
            &rect,
            &color,
            &interior_color,
            &border_style,
        )
    } else {
        Err(LibError::Unsupported(subtype))
    }
}

/// Finds the annotation with the given label in the source document and
/// builds one like it on a page of the target document, both as the
/// documents enumerate their pages: from its subtype, rectangle, contents,
/// colors and border width, never from its streams or references. Returns
/// the new annotation's id.
///
/// A free text annotation gets the default font, Helvetica in 12 points,
/// whatever the source's appearance says. Where the label is not found, or
/// the source annotation cannot be read or is of another subtype than
/// `FreeText`, `Square` or `Rect`, the target stays as it was.
pub fn recreate_annotation_by_label(
    source_doc: &lopdf::Document,
    target_doc: &mut lopdf::Document,
    label: &str,
    target_page: u32,
) -> (r: Result<ObjectId, LibError>)
    ensures
        document_trailer(*final(target_doc)) == document_trailer(*old(target_doc)),
        match plan(document_objects(*source_doc), document_pages(*source_doc), label@) {
            Plan::Build(entries) => {
                let before = Outcome {
                    objects: document_objects(*old(target_doc)),
                    max_id: document_max_id(*old(target_doc)),
                    failure: None,
                };
                let outcome = placed(
                    before.objects,
                    before.max_id,
                    document_pages(*old(target_doc)),
                    target_page,
                    entries,
                );
                &&& document_objects(*final(target_doc)) == outcome.objects
                &&& document_max_id(*final(target_doc)) == outcome.max_id
                &&& tells(
                    r,
                    before,
                    outcome,
                    target_page,
                    page_with_number(document_pages(*old(target_doc)), target_page),
                )
            },
            Plan::Absent => *final(target_doc) == *old(target_doc) && r matches Err(
                LibError::NotFound(Missing::Label),
            ),
            Plan::SearchFailed => *final(target_doc) == *old(target_doc) && r matches Err(
                LibError::Pdf(_),
            ),
            Plan::NoSubtype(id) => *final(target_doc) == *old(target_doc) && (r matches Err(
                LibError::Malformed(Defect::Subtype(at)),
            ) && at == id),
            Plan::NoRect => *final(target_doc) == *old(target_doc) && r matches Err(
                LibError::Malformed(Defect::Rect),
            ),
            Plan::Unsupported(subtype) => *final(target_doc) == *old(target_doc) && (r matches Err(
                LibError::Unsupported(name),
            ) && name@ == subtype),
        },
{
    let source_pages = page_list(source_doc);
    let target_pages = page_list(target_doc);
    recreate_annotation_in_pages(
        source_doc,
        &source_pages,
        target_doc,
        &target_pages,
        label,
        target_page,
    )
}

} // verus!
