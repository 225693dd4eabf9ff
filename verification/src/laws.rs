//! Laws that hold of the library's operations, proved from their contracts.

use crate::annotation::{
    default_appearance, freetext_entries, literal_bytes, next_id, placed, rect_entries,
};
use crate::annotation_utils::{
    color_of, contents_of, first_labeled, is_labeled, label_of, lemma_first_labeled, linked_array,
    listing_of, literal, page_with_number, rect_of, references_in, search, splice, splice_on,
    with_contents, Listing, Search,
};
use crate::graph::{
    lemma_lookup_apart, lemma_lookup_fresh, lemma_lookup_replaced, lemma_lookup_stored,
    lemma_resolve, lemma_resolve_insert, lemma_resolve_settled, numbered_within,
};
use crate::keys::lemma_field_keys;
use crate::number::in_unit_interval;
use crate::pdf::{decoded, key, lookup, reference_limit, resolve, Value};
use crate::pdf_ops::{plan, plan_for, Plan};
use crate::processor::{
    bare_catalog, empty_pages, ensured, ensured_all, is_catalog, is_rooted, minimal_page,
    page_added, pages_node, repaired_tree, root_of, with_catalog, with_kid, Flaw, Graph,
};
use lopdf::ObjectId;
use vstd::prelude::*;

verus! {

/// Setting the contents twice to the same text is the same as setting them
/// once, and after either the rich text and the appearance stream are gone
/// and the contents are the text.
pub proof fn law_contents_idempotent(entries: Map<Seq<u8>, Value>, text: Seq<char>)
    ensures
        with_contents(with_contents(entries, text), text) == with_contents(entries, text),
        !with_contents(entries, text).contains_key(key("RC")),
        !with_contents(entries, text).contains_key(key("AP")),
        with_contents(entries, text).contains_key(key("Contents")),
        with_contents(entries, text)[key("Contents")] == literal(text),
{
    lemma_field_keys();
    assert(with_contents(with_contents(entries, text), text) =~= with_contents(entries, text));
}

/// A free text annotation that is built holds the rectangle it was built
/// with: reading `/Rect` gives back the four numbers, bit for bit.
pub proof fn law_freetext_rect(
    label: Seq<u8>,
    contents: Seq<u8>,
    rect: (u32, u32, u32, u32),
    size: u32,
)
    ensures
        rect_of(freetext_entries(label, contents, rect, size)) == Some(rect),
{
    lemma_field_keys();
}

/// A square annotation that is built holds the rectangle it was built with.
pub proof fn law_square_rect(
    label: Seq<u8>,
    rect: (u32, u32, u32, u32),
    color: Option<Value>,
    interior_color: Option<Value>,
    border: Option<Value>,
)
    ensures
        rect_of(rect_entries(label, rect, color, interior_color, border)) == Some(rect),
{
    lemma_field_keys();
}

/// A color is read exactly when its three numbers lie between 0 and 1: a
/// triple inside is handed back as it is, a triple with a number outside is
/// not read at all.
pub proof fn law_color_range(entries: Map<Seq<u8>, Value>, k: Seq<u8>, r: u32, g: u32, b: u32)
    requires
        entries.contains_key(k),
        entries[k] == Value::Array(seq![Value::Real(r), Value::Real(g), Value::Real(b)]),
    ensures
        in_unit_interval(r) && in_unit_interval(g) && in_unit_interval(b) ==> color_of(entries, k)
            == Some((r, g, b)),
        !(in_unit_interval(r) && in_unit_interval(g) && in_unit_interval(b)) ==> color_of(
            entries,
            k,
        ) is None,
{
}

/// An annotation that is built anew from another has the other's rectangle
/// and carries the label it was looked up by.
pub proof fn lemma_plan_keeps_rect(id: ObjectId, entries: Map<Seq<u8>, Value>, label: Seq<char>)
    ensures
        plan_for(id, entries, label) matches Plan::Build(built) ==> rect_of(built) == rect_of(
            entries,
        ) && label_of(built) == Some(label),
{
    lemma_field_keys();
    vstd::utf8::encode_utf8_valid_utf8(label);
    vstd::utf8::encode_utf8_decode_utf8(label);
}

/// Every free text annotation that is built has the default appearance
/// `/Helvetica <size> Tf 0 0 0 rg`, where `<size>` is the font size as it is
/// printed; the string begins with the slash and ends with the `g`. It has
/// resources and no appearance stream.
pub proof fn law_default_appearance(
    label: Seq<u8>,
    contents: Seq<u8>,
    rect: (u32, u32, u32, u32),
    size: u32,
)
    ensures
        freetext_entries(label, contents, rect, size).contains_key(key("DA")),
        freetext_entries(label, contents, rect, size)[key("DA")] == literal_bytes(
            default_appearance(size),
        ),
        default_appearance(size).first() == 0x2f,
        default_appearance(size).last() == 0x67,
        freetext_entries(label, contents, rect, size).contains_key(key("DR")),
        !freetext_entries(label, contents, rect, size).contains_key(key("AP")),
{
    lemma_field_keys();
    lemma_appearance_ends();
}

/// The fixed parts of the default appearance, byte for byte.
pub proof fn lemma_appearance_ends()
    ensures
        key("/Helvetica ") == seq![
            0x2fu8,
            0x48,
            0x65,
            0x6c,
            0x76,
            0x65,
            0x74,
            0x69,
            0x63,
            0x61,
            0x20,
        ],
        key(" Tf 0 0 0 rg") == seq![
            0x20u8,
            0x54,
            0x66,
            0x20,
            0x30,
            0x20,
            0x30,
            0x20,
            0x30,
            0x20,
            0x72,
            0x67,
        ],
{
    reveal_strlit("/Helvetica ");
    reveal_strlit(" Tf 0 0 0 rg");
    vstd::utf8::is_ascii_chars_encode_utf8("/Helvetica "@);
    vstd::utf8::is_ascii_chars_encode_utf8(" Tf 0 0 0 rg"@);
    assert(key("/Helvetica ") =~= seq![
        0x2fu8,
        0x48,
        0x65,
        0x6c,
        0x76,
        0x65,
        0x74,
        0x69,
        0x63,
        0x61,
        0x20,
    ]);
    assert(key(" Tf 0 0 0 rg") =~= seq![
        0x20u8,
        0x54,
        0x66,
        0x20,
        0x30,
        0x20,
        0x30,
        0x20,
        0x30,
        0x20,
        0x72,
        0x67,
    ]);
}

/// Whether a page can take annotations: its id leads to a dictionary, and
/// where `/Annots` is a reference, that leads to an object, and to another
/// than the page itself.
pub open spec fn is_sound_page(objects: Map<ObjectId, Value>, page_id: ObjectId) -> bool {
    match lookup(objects, page_id) {
        Some(Value::Dictionary(page)) => page.contains_key(key("Annots")) ==> match page[key(
            "Annots",
        )] {
            Value::Reference(array_id) => lookup(objects, array_id) is Some && resolve(
                objects,
                array_id,
            ) != resolve(objects, page_id),
            _ => true,
        },
        _ => false,
    }
}

/// The ids that a page lists as its annotations; none where the page is no
/// dictionary or its list cannot be fetched.
pub open spec fn listed_on(objects: Map<ObjectId, Value>, page_id: ObjectId) -> Seq<ObjectId> {
    match lookup(objects, page_id) {
        Some(Value::Dictionary(page)) => match listing_of(objects, page) {
            Listing::Listed(ids) => ids,
            Listing::Broken => Seq::empty(),
        },
        _ => Seq::empty(),
    }
}

/// The array that a page refers to under `/Annots`, and the id it is
/// stored under.
pub open spec fn referenced_annots(objects: Map<ObjectId, Value>, page_id: ObjectId) -> Option<
    (ObjectId, Seq<Value>),
> {
    match lookup(objects, page_id) {
        Some(Value::Dictionary(page)) => if page.contains_key(key("Annots")) {
            match page[key("Annots")] {
                Value::Reference(array_id) => if objects.contains_key(array_id) {
                    match objects[array_id] {
                        Value::Array(items) => Some((array_id, items)),
                        _ => None,
                    }
                } else {
                    None
                },
                _ => None,
            }
        } else {
            None
        },
        _ => None,
    }
}

/// The references in an array with one more reference are those of the
/// array and the one more.
pub proof fn lemma_references_push(items: Seq<Value>, id: ObjectId)
    ensures
        references_in(items.push(Value::Reference(id))) == references_in(items).push(id),
{
    assert(items.push(Value::Reference(id)).drop_last() =~= items);
}

/// Giving a page an annotation array as an object of its own, in a
/// document whose ids are numbered within what it has handed out: the page
/// refers to the array, the array is stored under the id referred to, and
/// every object but the page stays as it was.
pub proof fn lemma_linked_array(
    objects: Map<ObjectId, Value>,
    max_id: u32,
    page_id: ObjectId,
    items: Seq<Value>,
)
    requires
        numbered_within(objects, max_id),
        lookup(objects, page_id) matches Some(Value::Dictionary(_)),
        max_id < u32::MAX,
    ensures
        ({
            let after = linked_array(objects, max_id, page_id, Value::Array(items));
            let page = lookup(objects, page_id).unwrap()->Dictionary_0;
            &&& after.failure is None
            &&& after.max_id == next_id(max_id).0
            &&& numbered_within(after.objects, after.max_id)
            &&& lookup(after.objects, page_id) == Some(
                Value::Dictionary(page.insert(key("Annots"), Value::Reference(next_id(max_id)))),
            )
            &&& resolve(after.objects, page_id) == resolve(objects, page_id)
            &&& after.objects.contains_key(next_id(max_id))
            &&& after.objects[next_id(max_id)] == Value::Array(items)
            &&& lookup(after.objects, next_id(max_id)) == Some(Value::Array(items))
            &&& resolve(after.objects, next_id(max_id)) == Some(next_id(max_id))
            &&& forall|id: ObjectId|
                objects.contains_key(id) && resolve(objects, page_id) != Some(id)
                    ==> after.objects.contains_key(id) && #[trigger] after.objects[id]
                    == objects[id]
        }),
{
    let after = linked_array(objects, max_id, page_id, Value::Array(items));
    let page = lookup(objects, page_id).unwrap()->Dictionary_0;
    let array_id = next_id(max_id);
    let array = Value::Array(items);
    let added = objects.insert(array_id, array);
    lemma_resolve(objects, page_id);
    lemma_lookup_fresh(objects, array_id, array, page_id);
    let fresh = Value::Dictionary(page.insert(key("Annots"), Value::Reference(array_id)));
    lemma_lookup_replaced(added, page_id, fresh);
    lemma_lookup_stored(after.objects, array_id, array);
    assert(after.objects =~= after.objects.insert(array_id, array));
}

/// The normalization of `/Annots`. Listing an annotation on a sound page of
/// a document whose ids are numbered within what it has handed out: the
/// page's `/Annots` is afterwards a reference to an array, stored under the
/// id referred to, whose last element refers to the annotation, whatever
/// shape `/Annots` had before. The page stays sound, the document stays
/// numbered, the page lists what it listed and then the annotation, and
/// every object but the page and the array that it referred to stays as it
/// was.
pub proof fn law_splice_lists(
    objects: Map<ObjectId, Value>,
    max_id: u32,
    page_id: ObjectId,
    annotation: ObjectId,
)
    requires
        numbered_within(objects, max_id),
        is_sound_page(objects, page_id),
        splice_on(objects, max_id, page_id, annotation).failure is None,
    ensures
        ({
            let after = splice_on(objects, max_id, page_id, annotation);
            &&& numbered_within(after.objects, after.max_id)
            &&& max_id <= after.max_id
            &&& is_sound_page(after.objects, page_id)
            &&& resolve(after.objects, page_id) == resolve(objects, page_id)
            &&& listed_on(after.objects, page_id) == listed_on(objects, page_id).push(annotation)
            &&& referenced_annots(after.objects, page_id) matches Some((_, items)) && items.len()
                > 0 && items.last() == Value::Reference(annotation)
            &&& referenced_annots(objects, page_id) matches Some((array_id, items))
                ==> referenced_annots(after.objects, page_id) == Some(
                (array_id, items.push(Value::Reference(annotation))),
            )
            &&& forall|id: ObjectId|
                objects.contains_key(id) && resolve(objects, page_id) != Some(id) && !(lookup(
                    objects,
                    page_id,
                ) matches Some(Value::Dictionary(page)) && page.contains_key(key("Annots"))
                    && page[key("Annots")] == Value::Reference(id)) ==> after.objects.contains_key(
                    id,
                ) && #[trigger] after.objects[id] == objects[id]
        }),
{
    let after = splice_on(objects, max_id, page_id, annotation);
    let page = lookup(objects, page_id).unwrap()->Dictionary_0;
    let added = Value::Reference(annotation);
    lemma_resolve(objects, page_id);
    assert(references_in(Seq::<Value>::empty()) =~= Seq::<ObjectId>::empty());
    assert(seq![added] =~= Seq::<Value>::empty().push(added));
    lemma_references_push(Seq::empty(), annotation);
    if !page.contains_key(key("Annots")) {
        lemma_linked_array(objects, max_id, page_id, seq![added]);
    } else {
        match page[key("Annots")] {
            Value::Array(items) => {
                lemma_linked_array(objects, max_id, page_id, items.push(added));
                lemma_references_push(items, annotation);
            },
            Value::Reference(array_id) => {
                let items = match lookup(objects, array_id) {
                    Some(Value::Array(items)) => items,
                    _ => Seq::empty(),
                };
                let longer = Value::Array(items.push(added));
                lemma_resolve(objects, array_id);
                lemma_lookup_apart(objects, array_id, longer, page_id);
                lemma_lookup_stored(objects, array_id, longer);
                lemma_references_push(items, annotation);
            },
            _ => {},
        }
    }
}

/// The normalization of `/Annots`, for any document. After an annotation is
/// listed on a sound page, the page's `/Annots` is a reference to an array,
/// stored under the id referred to, whose last element refers to the
/// annotation, whatever shape `/Annots` had before; and the page is sound
/// again.
pub proof fn law_annots_normalized(
    objects: Map<ObjectId, Value>,
    max_id: u32,
    page_id: ObjectId,
    annotation: ObjectId,
)
    requires
        is_sound_page(objects, page_id),
        splice_on(objects, max_id, page_id, annotation).failure is None,
    ensures
        ({
            let after = splice_on(objects, max_id, page_id, annotation);
            &&& is_sound_page(after.objects, page_id)
            &&& referenced_annots(after.objects, page_id) matches Some((array_id, items))
                && items.len() > 0 && items.last() == Value::Reference(annotation) && lookup(
                after.objects,
                array_id,
            ) == Some(Value::Array(items))
            &&& referenced_annots(objects, page_id) matches Some((array_id, items))
                ==> referenced_annots(after.objects, page_id) == Some(
                (array_id, items.push(Value::Reference(annotation))),
            )
        }),
{
    let after = splice_on(objects, max_id, page_id, annotation);
    let page = lookup(objects, page_id).unwrap()->Dictionary_0;
    let added = Value::Reference(annotation);
    lemma_resolve(objects, page_id);
    if page.contains_key(key("Annots")) && page[key("Annots")] is Reference {
        let array_id = page[key("Annots")]->Reference_0;
        let items = match lookup(objects, array_id) {
            Some(Value::Array(items)) => items,
            _ => Seq::empty(),
        };
        let longer = Value::Array(items.push(added));
        lemma_resolve(objects, array_id);
        lemma_lookup_apart(objects, array_id, longer, page_id);
        lemma_lookup_stored(objects, array_id, longer);
    } else {
        let items = if page.contains_key(key("Annots")) {
            page[key("Annots")]->Array_0.push(added)
        } else {
            seq![added]
        };
        let array_id = next_id(max_id);
        let array = Value::Array(items);
        let with_array = objects.insert(array_id, array);
        let current = lookup(with_array, page_id).unwrap()->Dictionary_0;
        let fresh = Value::Dictionary(current.insert(key("Annots"), Value::Reference(array_id)));
        lemma_resolve(with_array, page_id);
        lemma_lookup_replaced(with_array, page_id, fresh);
        lemma_lookup_stored(after.objects, array_id, array);
        assert(after.objects =~= after.objects.insert(array_id, array));
    }
}

/// Two annotations listed one after the other on a sound page: the page's
/// `/Annots` refers to an array whose last two elements refer to the first
/// and to the second, in this order.
pub proof fn law_two_splices(
    objects: Map<ObjectId, Value>,
    max_id: u32,
    page_id: ObjectId,
    first: ObjectId,
    second: ObjectId,
)
    requires
        is_sound_page(objects, page_id),
        splice_on(objects, max_id, page_id, first).failure is None,
        splice_on(
            splice_on(objects, max_id, page_id, first).objects,
            splice_on(objects, max_id, page_id, first).max_id,
            page_id,
            second,
        ).failure is None,
    ensures
        ({
            let once = splice_on(objects, max_id, page_id, first);
            let twice = splice_on(once.objects, once.max_id, page_id, second);
            referenced_annots(twice.objects, page_id) matches Some((_, items)) && items.len() >= 2
                && items[items.len() - 2] == Value::Reference(first) && items[items.len() - 1]
                == Value::Reference(second)
        }),
{
    let once = splice_on(objects, max_id, page_id, first);
    law_annots_normalized(objects, max_id, page_id, first);
    law_annots_normalized(once.objects, once.max_id, page_id, second);
}

/// Two annotations listed one after the other on the page that has a
/// number in a list of pages: where the page is sound and both are listed,
/// the page's `/Annots` refers to an array whose last two elements refer to
/// the first and to the second, in this order.
pub proof fn law_two_splices_by_number(
    objects: Map<ObjectId, Value>,
    max_id: u32,
    pages: Seq<(u32, ObjectId)>,
    number: u32,
    first: ObjectId,
    second: ObjectId,
)
    requires
        page_with_number(pages, number) matches Some(page_id) && is_sound_page(objects, page_id),
        splice(objects, max_id, pages, number, first).failure is None,
        splice(
            splice(objects, max_id, pages, number, first).objects,
            splice(objects, max_id, pages, number, first).max_id,
            pages,
            number,
            second,
        ).failure is None,
    ensures
        ({
            let once = splice(objects, max_id, pages, number, first);
            let twice = splice(once.objects, once.max_id, pages, number, second);
            let page_id = page_with_number(pages, number).unwrap();
            referenced_annots(twice.objects, page_id) matches Some((_, items)) && items.len() >= 2
                && items[items.len() - 2] == Value::Reference(first) && items[items.len() - 1]
                == Value::Reference(second)
        }),
{
    let page_id = page_with_number(pages, number).unwrap();
    law_two_splices(objects, max_id, page_id, first, second);
}

/// The pages that come before the page with the given number.
pub open spec fn pages_before(pages: Seq<(u32, ObjectId)>, number: u32) -> Seq<(u32, ObjectId)>
    decreases pages.len(),
{
    if pages.len() == 0 || pages[0].0 == number {
        Seq::empty()
    } else {
        seq![pages[0]] + pages_before(pages.drop_first(), number)
    }
}

/// A search that finds nothing on the pages before a page, and on that page
/// an annotation that carries the label, finds that annotation there.
pub proof fn lemma_search_reaches(
    objects: Map<ObjectId, Value>,
    pages: Seq<(u32, ObjectId)>,
    number: u32,
    label: Seq<char>,
    id: ObjectId,
)
    requires
        page_with_number(pages, number) matches Some(page_id) && lookup(
            objects,
            page_id,
        ) matches Some(Value::Dictionary(page)) && listing_of(
            objects,
            page,
        ) matches Listing::Listed(ids) && first_labeled(objects, ids, label) == Some(id),
        search(objects, pages_before(pages, number), label) == Search::Absent,
    ensures
        search(objects, pages, label) == Search::Found(id, number),
    decreases pages.len(),
{
    if pages[0].0 != number {
        let rest = pages_before(pages.drop_first(), number);
        assert((seq![pages[0]] + rest).drop_first() =~= rest);
        assert((seq![pages[0]] + rest)[0] == pages[0]);
        lemma_search_reaches(objects, pages.drop_first(), number, label, id);
    }
}

/// The text of a literal string that holds a text's encoding is that text.
pub proof fn lemma_literal_text(text: Seq<char>)
    ensures
        decoded(vstd::utf8::encode_utf8(text)) == text,
{
    vstd::utf8::encode_utf8_valid_utf8(text);
    vstd::utf8::encode_utf8_decode_utf8(text);
}

/// A new annotation that is put on a sound page of a document whose ids are
/// numbered within what it has handed out is stored as it was built, and is
/// the last that the page lists.
pub proof fn lemma_placed_listed(
    objects: Map<ObjectId, Value>,
    max_id: u32,
    pages: Seq<(u32, ObjectId)>,
    number: u32,
    entries: Map<Seq<u8>, Value>,
)
    requires
        numbered_within(objects, max_id),
        page_with_number(pages, number) matches Some(page_id) && is_sound_page(objects, page_id),
        placed(objects, max_id, pages, number, entries).failure is None,
    ensures
        ({
            let after = placed(objects, max_id, pages, number, entries);
            let page_id = page_with_number(pages, number).unwrap();
            &&& numbered_within(after.objects, after.max_id)
            &&& is_sound_page(after.objects, page_id)
            &&& lookup(after.objects, next_id(max_id)) == Some(Value::Dictionary(entries))
            &&& listed_on(after.objects, page_id) == listed_on(objects, page_id).push(
                next_id(max_id),
            )
        }),
{
    let page_id = page_with_number(pages, number).unwrap();
    let id = next_id(max_id);
    let stored = Value::Dictionary(entries);
    let added = objects.insert(id, stored);
    lemma_lookup_fresh(objects, id, stored, page_id);
    lemma_resolve(objects, page_id);
    let page = lookup(objects, page_id).unwrap()->Dictionary_0;
    if page.contains_key(key("Annots")) {
        if let Value::Reference(array_id) = page[key("Annots")] {
            lemma_lookup_fresh(objects, id, stored, array_id);
        }
    }
    law_splice_lists(added, id.0, page_id, id);
    let after = splice_on(added, id.0, page_id, id);
    assert(after.objects[id] == stored);
    lemma_lookup_stored(after.objects, id, stored);
    assert(after.objects =~= after.objects.insert(id, stored));
}

/// The new annotation is stored. After a new annotation was put on a page
/// of a document whose ids are numbered within what it has handed out, the
/// document holds the annotation under its id, as it was built: listing it
/// on the page has not written over it.
pub proof fn law_placed_is_stored(
    objects: Map<ObjectId, Value>,
    max_id: u32,
    pages: Seq<(u32, ObjectId)>,
    number: u32,
    entries: Map<Seq<u8>, Value>,
)
    requires
        numbered_within(objects, max_id),
        placed(objects, max_id, pages, number, entries).failure is None,
    ensures
        ({
            let after = placed(objects, max_id, pages, number, entries);
            &&& after.objects.contains_key(next_id(max_id))
            &&& after.objects[next_id(max_id)] == Value::Dictionary(entries)
            &&& lookup(after.objects, next_id(max_id)) == Some(Value::Dictionary(entries))
            &&& max_id < after.max_id
        }),
{
    let page_id = page_with_number(pages, number).unwrap();
    let id = next_id(max_id);
    let stored = Value::Dictionary(entries);
    let added = objects.insert(id, stored);
    let after = placed(objects, max_id, pages, number, entries);
    lemma_lookup_fresh(objects, id, stored, page_id);
    lemma_resolve(objects, page_id);
    lemma_resolve(added, page_id);
    let page = lookup(objects, page_id).unwrap()->Dictionary_0;
    if page.contains_key(key("Annots")) && page[key("Annots")] is Reference {
        let array_id = page[key("Annots")]->Reference_0;
        lemma_lookup_fresh(objects, id, stored, array_id);
        assert(objects.contains_key(array_id));
    } else {
        let items = if page.contains_key(key("Annots")) {
            page[key("Annots")]->Array_0.push(Value::Reference(id))
        } else {
            seq![Value::Reference(id)]
        };
        lemma_linked_array(added, id.0, page_id, items);
        assert(added.contains_key(id));
    }
    assert(after.objects[id] == stored);
    lemma_resolve(after.objects, id);
}

/// Whether an id leads neither to a page nor to the annotation array that
/// the page refers to: listing an annotation on the page does not touch
/// what the id stands for.
pub open spec fn is_untouched(
    objects: Map<ObjectId, Value>,
    page_id: ObjectId,
    id: ObjectId,
) -> bool {
    &&& resolve(objects, id) != resolve(objects, page_id)
    &&& forall|array_id: ObjectId|
        lookup(objects, page_id) matches Some(Value::Dictionary(page)) && page.contains_key(
            key("Annots"),
        ) && page[key("Annots")] == Value::Reference(array_id) ==> resolve(objects, id)
            != #[trigger] resolve(objects, array_id)
}

/// Whether every one of the ids leads to an object.
pub open spec fn all_resolve(objects: Map<ObjectId, Value>, ids: Seq<ObjectId>) -> bool {
    forall|i: int| 0 <= i < ids.len() ==> lookup(objects, #[trigger] ids[i]) is Some
}

/// The id that a page refers to under `/Annots`, where it refers to one.
pub open spec fn annots_reference(objects: Map<ObjectId, Value>, page_id: ObjectId) -> Option<
    ObjectId,
> {
    match lookup(objects, page_id) {
        Some(Value::Dictionary(page)) => if page.contains_key(key("Annots")) {
            match page[key("Annots")] {
                Value::Reference(array_id) => Some(array_id),
                _ => None,
            }
        } else {
            None
        },
        _ => None,
    }
}

/// Whether a page stands apart from another page: it is another object,
/// its annotation array is another object than the other page and the other
/// page's array, and every annotation that it lists exists.
pub open spec fn is_apart(
    objects: Map<ObjectId, Value>,
    page_id: ObjectId,
    other: ObjectId,
) -> bool {
    &&& is_untouched(objects, other, page_id)
    &&& annots_reference(objects, page_id) matches Some(array_id) ==> (lookup(
        objects,
        array_id,
    ) is Some ==> is_untouched(objects, other, array_id))
    &&& all_resolve(objects, listed_on(objects, page_id))
}

/// Whether every one of the pages stands apart from another page.
pub open spec fn are_apart(
    objects: Map<ObjectId, Value>,
    pages: Seq<(u32, ObjectId)>,
    other: ObjectId,
) -> bool {
    forall|i: int| 0 <= i < pages.len() ==> is_apart(objects, (#[trigger] pages[i]).1, other)
}

/// Among ids of which none carries the label, there is no first to carry
/// it.
pub proof fn lemma_none_labeled(objects: Map<ObjectId, Value>, ids: Seq<ObjectId>, label: Seq<char>)
    requires
        forall|i: int| 0 <= i < ids.len() ==> !is_labeled(objects, #[trigger] ids[i], label),
    ensures
        first_labeled(objects, ids, label) is None,
    decreases ids.len(),
{
    if ids.len() > 0 {
        assert(!is_labeled(objects, ids[0], label));
        assert forall|i: int| 0 <= i < ids.drop_first().len() implies !is_labeled(
            objects,
            #[trigger] ids.drop_first()[i],
            label,
        ) by {
            assert(ids.drop_first()[i] == ids[i + 1]);
        }
        lemma_none_labeled(objects, ids.drop_first(), label);
    }
}

/// Where none of some ids carries the label and one more id does, that one
/// is the first to carry it among them all.
pub proof fn lemma_first_labeled_last(
    objects: Map<ObjectId, Value>,
    ids: Seq<ObjectId>,
    id: ObjectId,
    label: Seq<char>,
)
    requires
        forall|i: int| 0 <= i < ids.len() ==> !is_labeled(objects, #[trigger] ids[i], label),
        is_labeled(objects, id, label),
    ensures
        first_labeled(objects, ids.push(id), label) == Some(id),
    decreases ids.len(),
{
    if ids.len() > 0 {
        assert(ids.push(id)[0] == ids[0]);
        assert(!is_labeled(objects, ids[0], label));
        assert(ids.push(id).drop_first() =~= ids.drop_first().push(id));
        assert forall|i: int| 0 <= i < ids.drop_first().len() implies !is_labeled(
            objects,
            #[trigger] ids.drop_first()[i],
            label,
        ) by {
            assert(ids.drop_first()[i] == ids[i + 1]);
        }
        lemma_first_labeled_last(objects, ids.drop_first(), id, label);
    } else {
        assert(ids.push(id)[0] == id);
    }
}

/// What listing an annotation on a sound page does to what another id
/// stands for: the id still leads to an object; if what it led to did not
/// carry a label, what it leads to does not; and if the id led neither to
/// the page nor to its annotation array, it leads to what it led to.
pub proof fn lemma_splice_effect(
    objects: Map<ObjectId, Value>,
    max_id: u32,
    page_id: ObjectId,
    annotation: ObjectId,
    id: ObjectId,
    label: Seq<char>,
)
    requires
        numbered_within(objects, max_id),
        is_sound_page(objects, page_id),
        splice_on(objects, max_id, page_id, annotation).failure is None,
        lookup(objects, id) is Some,
    ensures
        ({
            let after = splice_on(objects, max_id, page_id, annotation).objects;
            &&& lookup(after, id) is Some
            &&& !is_labeled(objects, id, label) ==> !is_labeled(after, id, label)
            &&& is_untouched(objects, page_id, id) ==> lookup(after, id) == lookup(objects, id)
                && resolve(after, id) == resolve(objects, id)
        }),
{
    let after = splice_on(objects, max_id, page_id, annotation).objects;
    let page = lookup(objects, page_id).unwrap()->Dictionary_0;
    let target = resolve(objects, page_id).unwrap();
    let added = Value::Reference(annotation);
    lemma_field_keys();
    lemma_resolve(objects, page_id);
    lemma_resolve(objects, id);
    if page.contains_key(key("Annots")) && page[key("Annots")] is Reference {
        let array_id = page[key("Annots")]->Reference_0;
        let items = match lookup(objects, array_id) {
            Some(Value::Array(items)) => items,
            _ => Seq::empty(),
        };
        let longer = Value::Array(items.push(added));
        lemma_resolve_insert(objects, array_id, longer, id, reference_limit());
        if resolve(objects, id) != resolve(objects, array_id) {
            lemma_lookup_apart(objects, array_id, longer, id);
        }
    } else {
        let items = if page.contains_key(key("Annots")) {
            page[key("Annots")]->Array_0.push(added)
        } else {
            seq![added]
        };
        let array_id = next_id(max_id);
        let array = Value::Array(items);
        let with_array = objects.insert(array_id, array);
        lemma_linked_array(objects, max_id, page_id, items);
        lemma_lookup_fresh(objects, array_id, array, id);
        lemma_lookup_fresh(objects, array_id, array, page_id);
        let fresh = Value::Dictionary(page.insert(key("Annots"), Value::Reference(array_id)));
        lemma_resolve_settled(with_array, target, fresh, id, reference_limit());
    }
}

/// What putting a new annotation on a sound page does to what another id
/// stands for; see `lemma_splice_effect`.
pub proof fn lemma_placed_effect(
    objects: Map<ObjectId, Value>,
    max_id: u32,
    pages: Seq<(u32, ObjectId)>,
    number: u32,
    entries: Map<Seq<u8>, Value>,
    id: ObjectId,
    label: Seq<char>,
)
    requires
        numbered_within(objects, max_id),
        page_with_number(pages, number) matches Some(page_id) && is_sound_page(objects, page_id),
        placed(objects, max_id, pages, number, entries).failure is None,
        lookup(objects, id) is Some,
    ensures
        ({
            let after = placed(objects, max_id, pages, number, entries).objects;
            let page_id = page_with_number(pages, number).unwrap();
            &&& lookup(after, id) is Some
            &&& !is_labeled(objects, id, label) ==> !is_labeled(after, id, label)
            &&& is_untouched(objects, page_id, id) ==> lookup(after, id) == lookup(objects, id)
                && resolve(after, id) == resolve(objects, id)
        }),
{
    let page_id = page_with_number(pages, number).unwrap();
    let new_id = next_id(max_id);
    let stored = Value::Dictionary(entries);
    let added = objects.insert(new_id, stored);
    lemma_lookup_fresh(objects, new_id, stored, page_id);
    lemma_lookup_fresh(objects, new_id, stored, id);
    lemma_resolve(objects, page_id);
    let page = lookup(objects, page_id).unwrap()->Dictionary_0;
    if page.contains_key(key("Annots")) {
        if let Value::Reference(array_id) = page[key("Annots")] {
            lemma_lookup_fresh(objects, new_id, stored, array_id);
        }
    }
    lemma_splice_effect(added, new_id.0, page_id, new_id, id, label);
}

/// A search that finds nothing on some pages still finds nothing on them
/// after a new annotation is put on another page, if each of them stands
/// apart from that page.
pub proof fn lemma_search_stays_absent(
    objects: Map<ObjectId, Value>,
    max_id: u32,
    pages: Seq<(u32, ObjectId)>,
    number: u32,
    entries: Map<Seq<u8>, Value>,
    earlier: Seq<(u32, ObjectId)>,
    label: Seq<char>,
)
    requires
        numbered_within(objects, max_id),
        page_with_number(pages, number) matches Some(page_id) && is_sound_page(objects, page_id)
            && are_apart(objects, earlier, page_id),
        placed(objects, max_id, pages, number, entries).failure is None,
        search(objects, earlier, label) == Search::Absent,
    ensures
        search(placed(objects, max_id, pages, number, entries).objects, earlier, label)
            == Search::Absent,
    decreases earlier.len(),
{
    if earlier.len() > 0 {
        let after = placed(objects, max_id, pages, number, entries).objects;
        let page_id = page_with_number(pages, number).unwrap();
        let other = earlier[0].1;
        assert(is_apart(objects, other, page_id));
        assert forall|i: int| 0 <= i < earlier.drop_first().len() implies is_apart(
            objects,
            (#[trigger] earlier.drop_first()[i]).1,
            page_id,
        ) by {
            assert(earlier.drop_first()[i] == earlier[i + 1]);
        }
        lemma_placed_effect(objects, max_id, pages, number, entries, other, label);
        if let Some(Value::Dictionary(page)) = lookup(objects, other) {
            if let Some(array_id) = annots_reference(objects, other) {
                lemma_placed_effect(objects, max_id, pages, number, entries, array_id, label);
            }
            let ids = listed_on(objects, other);
            lemma_first_labeled(objects, ids, label);
            assert forall|i: int| 0 <= i < ids.len() implies !is_labeled(
                after,
                #[trigger] ids[i],
                label,
            ) by {
                lemma_placed_effect(objects, max_id, pages, number, entries, ids[i], label);
            }
            lemma_none_labeled(after, ids, label);
        }
        lemma_search_stays_absent(
            objects,
            max_id,
            pages,
            number,
            entries,
            earlier.drop_first(),
            label,
        );
    }
}

/// A search that finds nothing finds nothing on the pages before a page,
/// and on that page, if it is a dictionary, no annotation that carries the
/// label.
pub proof fn lemma_absent_before(
    objects: Map<ObjectId, Value>,
    pages: Seq<(u32, ObjectId)>,
    number: u32,
    label: Seq<char>,
)
    requires
        page_with_number(pages, number) matches Some(page_id) && lookup(
            objects,
            page_id,
        ) matches Some(Value::Dictionary(_)),
        search(objects, pages, label) == Search::Absent,
    ensures
        search(objects, pages_before(pages, number), label) == Search::Absent,
        first_labeled(
            objects,
            listed_on(objects, page_with_number(pages, number).unwrap()),
            label,
        ) is None,
    decreases pages.len(),
{
    if pages[0].0 != number {
        let rest = pages_before(pages.drop_first(), number);
        assert((seq![pages[0]] + rest).drop_first() =~= rest);
        assert((seq![pages[0]] + rest)[0] == pages[0]);
        lemma_absent_before(objects, pages.drop_first(), number, label);
    }
}

/// The label round trip, for any annotation. A new annotation that carries
/// a label is put on a page of a list of pages, in a document whose ids are
/// numbered within what it has handed out. Before, a search through the
/// list found no annotation with the label; the page is sound, each page
/// before it in the list stands apart from it, and the annotations that the
/// page lists exist. Then the search through the same list finds the new
/// annotation on that page, and the document holds it as it was built.
pub proof fn law_placed_is_found(
    objects: Map<ObjectId, Value>,
    max_id: u32,
    pages: Seq<(u32, ObjectId)>,
    number: u32,
    entries: Map<Seq<u8>, Value>,
    label: Seq<char>,
)
    requires
        numbered_within(objects, max_id),
        page_with_number(pages, number) matches Some(page_id) && is_sound_page(objects, page_id)
            && are_apart(objects, pages_before(pages, number), page_id) && all_resolve(
            objects,
            listed_on(objects, page_id),
        ),
        label_of(entries) == Some(label),
        search(objects, pages, label) == Search::Absent,
        placed(objects, max_id, pages, number, entries).failure is None,
    ensures
        search(placed(objects, max_id, pages, number, entries).objects, pages, label)
            == Search::Found(next_id(max_id), number),
        lookup(placed(objects, max_id, pages, number, entries).objects, next_id(max_id)) == Some(
            Value::Dictionary(entries),
        ),
{
    let after = placed(objects, max_id, pages, number, entries).objects;
    let page_id = page_with_number(pages, number).unwrap();
    let id = next_id(max_id);
    lemma_placed_listed(objects, max_id, pages, number, entries);
    lemma_absent_before(objects, pages, number, label);
    lemma_search_stays_absent(
        objects,
        max_id,
        pages,
        number,
        entries,
        pages_before(pages, number),
        label,
    );
    let ids = listed_on(objects, page_id);
    lemma_first_labeled(objects, ids, label);
    assert forall|i: int| 0 <= i < ids.len() implies !is_labeled(
        after,
        #[trigger] ids[i],
        label,
    ) by {
        lemma_placed_effect(objects, max_id, pages, number, entries, ids[i], label);
    }
    lemma_first_labeled_last(after, ids, id, label);
    lemma_search_reaches(after, pages, number, label, id);
}

/// The first of some ids to carry a label is the same in two documents, if
/// what does not carry the label in the first does not in the second, and
/// the first id to carry it in the first document carries it in the second.
pub proof fn lemma_first_labeled_same(
    before: Map<ObjectId, Value>,
    after: Map<ObjectId, Value>,
    ids: Seq<ObjectId>,
    label: Seq<char>,
)
    requires
        forall|i: int|
            0 <= i < ids.len() && !is_labeled(before, #[trigger] ids[i], label) ==> !is_labeled(
                after,
                ids[i],
                label,
            ),
        first_labeled(before, ids, label) matches Some(id) ==> is_labeled(after, id, label),
    ensures
        first_labeled(after, ids, label) == first_labeled(before, ids, label),
    decreases ids.len(),
{
    if ids.len() > 0 {
        if !is_labeled(before, ids[0], label) {
            assert(!is_labeled(after, ids[0], label));
            assert forall|i: int|
                0 <= i < ids.drop_first().len() && !is_labeled(
                    before,
                    #[trigger] ids.drop_first()[i],
                    label,
                ) implies !is_labeled(after, ids.drop_first()[i], label) by {
                assert(ids.drop_first()[i] == ids[i + 1]);
            }
            lemma_first_labeled_same(before, after, ids.drop_first(), label);
        }
    }
}

/// One more id that does not carry a label does not change which id is the
/// first to carry it.
pub proof fn lemma_first_labeled_push(
    objects: Map<ObjectId, Value>,
    ids: Seq<ObjectId>,
    id: ObjectId,
    label: Seq<char>,
)
    requires
        !is_labeled(objects, id, label),
    ensures
        first_labeled(objects, ids.push(id), label) == first_labeled(objects, ids, label),
    decreases ids.len(),
{
    if ids.len() > 0 {
        assert(ids.push(id)[0] == ids[0]);
        assert(ids.push(id).drop_first() =~= ids.drop_first().push(id));
        lemma_first_labeled_push(objects, ids.drop_first(), id, label);
    } else {
        let one = ids.push(id);
        assert(one[0] == id);
        assert(one.drop_first() =~= Seq::<ObjectId>::empty());
        assert(first_labeled(objects, one.drop_first(), label) is None);
        assert(first_labeled(objects, one, label) is None);
    }
}

/// Whether every one of the pages is the given page or stands apart from
/// it.
pub open spec fn are_settled(
    objects: Map<ObjectId, Value>,
    pages: Seq<(u32, ObjectId)>,
    page_id: ObjectId,
) -> bool {
    forall|i: int|
        0 <= i < pages.len() ==> (#[trigger] pages[i]).1 == page_id || is_apart(
            objects,
            pages[i].1,
            page_id,
        )
}

/// A search through some pages ends as it did before a new annotation with
/// another label was put on a page, if each of the pages is that page or
/// stands apart from it, and the annotation that the search found led
/// neither to that page nor to its annotation array.
pub proof fn lemma_search_persists(
    objects: Map<ObjectId, Value>,
    max_id: u32,
    pages: Seq<(u32, ObjectId)>,
    number: u32,
    entries: Map<Seq<u8>, Value>,
    rest: Seq<(u32, ObjectId)>,
    label: Seq<char>,
)
    requires
        numbered_within(objects, max_id),
        page_with_number(pages, number) matches Some(page_id) && is_sound_page(objects, page_id)
            && are_settled(objects, rest, page_id) && all_resolve(
            objects,
            listed_on(objects, page_id),
        ) && (search(objects, rest, label) matches Search::Found(id, _) ==> is_untouched(
            objects,
            page_id,
            id,
        ) && lookup(objects, id) is Some),
        label_of(entries) != Some(label),
        placed(objects, max_id, pages, number, entries).failure is None,
        !(search(objects, rest, label) is Failed),
    ensures
        search(placed(objects, max_id, pages, number, entries).objects, rest, label) == search(
            objects,
            rest,
            label,
        ),
    decreases rest.len(),
{
    if rest.len() > 0 {
        let after = placed(objects, max_id, pages, number, entries).objects;
        let page_id = page_with_number(pages, number).unwrap();
        let other = rest[0].1;
        let new_id = next_id(max_id);
        lemma_placed_listed(objects, max_id, pages, number, entries);
        assert(rest[0].1 == page_id || is_apart(objects, rest[0].1, page_id));
        assert forall|i: int| 0 <= i < rest.drop_first().len() implies (
        #[trigger] rest.drop_first()[i]).1 == page_id || is_apart(
            objects,
            rest.drop_first()[i].1,
            page_id,
        ) by {
            assert(rest.drop_first()[i] == rest[i + 1]);
        }
        let ids = listed_on(objects, other);
        if other != page_id {
            lemma_placed_effect(objects, max_id, pages, number, entries, other, label);
            if let Some(array_id) = annots_reference(objects, other) {
                if lookup(objects, array_id) is Some {
                    lemma_placed_effect(objects, max_id, pages, number, entries, array_id, label);
                }
            }
        }
        if is_dictionary(objects, other) {
            lemma_first_labeled(objects, ids, label);
            assert forall|i: int|
                0 <= i < ids.len() && !is_labeled(
                    objects,
                    #[trigger] ids[i],
                    label,
                ) implies !is_labeled(after, ids[i], label) by {
                lemma_placed_effect(objects, max_id, pages, number, entries, ids[i], label);
            }
            if let Some(found) = first_labeled(objects, ids, label) {
                lemma_placed_effect(objects, max_id, pages, number, entries, found, label);
            }
            lemma_first_labeled_same(objects, after, ids, label);
            if other == page_id {
                lemma_first_labeled_push(after, ids, new_id, label);
            }
        }
        if !(is_dictionary(objects, other) && first_labeled(objects, ids, label) is Some) {
            lemma_search_persists(
                objects,
                max_id,
                pages,
                number,
                entries,
                rest.drop_first(),
                label,
            );
        }
    }
}

/// Adding an annotation with another label does not change what a search
/// for a label finds. A new annotation is put on a page of a list of pages
/// of a document whose ids are numbered within what it has handed out; the
/// pages of the list are separate objects with separate annotation arrays,
/// and the annotations that they list exist. Then a search through the
/// list for any other label than the new annotation's ends as it did
/// before.
pub proof fn law_search_persists(
    objects: Map<ObjectId, Value>,
    max_id: u32,
    pages: Seq<(u32, ObjectId)>,
    number: u32,
    entries: Map<Seq<u8>, Value>,
    label: Seq<char>,
)
    requires
        numbered_within(objects, max_id),
        page_with_number(pages, number) matches Some(page_id) && is_sound_page(objects, page_id)
            && are_settled(objects, pages, page_id) && all_resolve(
            objects,
            listed_on(objects, page_id),
        ) && (search(objects, pages, label) matches Search::Found(id, _) ==> is_untouched(
            objects,
            page_id,
            id,
        ) && lookup(objects, id) is Some),
        label_of(entries) != Some(label),
        placed(objects, max_id, pages, number, entries).failure is None,
        !(search(objects, pages, label) is Failed),
    ensures
        search(placed(objects, max_id, pages, number, entries).objects, pages, label) == search(
            objects,
            pages,
            label,
        ),
{
    lemma_search_persists(objects, max_id, pages, number, entries, pages, label);
}

/// The entries of a free text annotation with a label and contents that
/// are texts.
pub open spec fn labeled_freetext(
    label: Seq<char>,
    contents: Seq<char>,
    rect: (u32, u32, u32, u32),
    size: u32,
) -> Map<Seq<u8>, Value> {
    freetext_entries(vstd::utf8::encode_utf8(label), vstd::utf8::encode_utf8(contents), rect, size)
}

/// The label round trip. A free text annotation is added with a label and
/// with contents to a page of a list of pages, under the conditions of
/// `law_placed_is_found`: before, no annotation of the list's pages carried
/// the label. Then the search for the label through the same list finds the
/// new annotation on that page, and the dictionary under its id holds the
/// label, the contents and the rectangle.
pub proof fn law_label_round_trip(
    objects: Map<ObjectId, Value>,
    max_id: u32,
    pages: Seq<(u32, ObjectId)>,
    number: u32,
    label: Seq<char>,
    contents: Seq<char>,
    rect: (u32, u32, u32, u32),
    size: u32,
)
    requires
        numbered_within(objects, max_id),
        page_with_number(pages, number) matches Some(page_id) && is_sound_page(objects, page_id)
            && are_apart(objects, pages_before(pages, number), page_id) && all_resolve(
            objects,
            listed_on(objects, page_id),
        ),
        search(objects, pages, label) == Search::Absent,
        placed(
            objects,
            max_id,
            pages,
            number,
            labeled_freetext(label, contents, rect, size),
        ).failure is None,
    ensures
        ({
            let after = placed(
                objects,
                max_id,
                pages,
                number,
                labeled_freetext(label, contents, rect, size),
            );
            &&& search(after.objects, pages, label) == Search::Found(next_id(max_id), number)
            &&& lookup(after.objects, next_id(max_id)) matches Some(Value::Dictionary(found))
                && label_of(found) == Some(label) && contents_of(found) == Some(contents)
                && rect_of(found) == Some(rect)
        }),
{
    lemma_field_keys();
    lemma_literal_text(label);
    lemma_literal_text(contents);
    law_placed_is_found(
        objects,
        max_id,
        pages,
        number,
        labeled_freetext(label, contents, rect, size),
        label,
    );
}

/// The label round trip for squares: under the same conditions, the search
/// for the label finds the new square on its page, with its rectangle.
pub proof fn law_square_round_trip(
    objects: Map<ObjectId, Value>,
    max_id: u32,
    pages: Seq<(u32, ObjectId)>,
    number: u32,
    label: Seq<char>,
    rect: (u32, u32, u32, u32),
    color: Option<Value>,
    interior_color: Option<Value>,
    border: Option<Value>,
)
    requires
        numbered_within(objects, max_id),
        page_with_number(pages, number) matches Some(page_id) && is_sound_page(objects, page_id)
            && are_apart(objects, pages_before(pages, number), page_id) && all_resolve(
            objects,
            listed_on(objects, page_id),
        ),
        search(objects, pages, label) == Search::Absent,
        placed(
            objects,
            max_id,
            pages,
            number,
            rect_entries(vstd::utf8::encode_utf8(label), rect, color, interior_color, border),
        ).failure is None,
    ensures
        ({
            let after = placed(
                objects,
                max_id,
                pages,
                number,
                rect_entries(vstd::utf8::encode_utf8(label), rect, color, interior_color, border),
            );
            &&& search(after.objects, pages, label) == Search::Found(next_id(max_id), number)
            &&& lookup(after.objects, next_id(max_id)) matches Some(Value::Dictionary(found))
                && rect_of(found) == Some(rect)
        }),
{
    lemma_field_keys();
    lemma_literal_text(label);
    law_placed_is_found(
        objects,
        max_id,
        pages,
        number,
        rect_entries(vstd::utf8::encode_utf8(label), rect, color, interior_color, border),
        label,
    );
}

/// Whether the trailer's `/Root` refers to a dictionary with a `/Pages`
/// entry.
pub open spec fn has_pages_entry(g: Graph) -> bool {
    match root_of(g) {
        Some(id) => match lookup(g.objects, id) {
            Some(Value::Dictionary(catalog)) => catalog.contains_key(key("Pages")),
            _ => false,
        },
        None => false,
    }
}

/// Whether the catalog's `/Pages` refers to an empty pages node, which is
/// another object than the catalog.
pub open spec fn has_empty_pages(g: Graph) -> bool {
    match root_of(g) {
        Some(id) => match lookup(g.objects, id) {
            Some(Value::Dictionary(catalog)) => catalog.contains_key(key("Pages")) && (
            match catalog[key("Pages")] {
                Value::Reference(pages_id) => lookup(g.objects, pages_id) == Some(
                    Value::Dictionary(empty_pages()),
                ) && resolve(g.objects, pages_id) != resolve(g.objects, id),
                _ => false,
            }),
            _ => false,
        },
        None => false,
    }
}

/// A catalog stored with a new pages node is the document's catalog, and
/// the pages node that it refers to is empty and another object.
pub proof fn lemma_with_catalog(g: Graph, place: Option<ObjectId>, catalog: Map<Seq<u8>, Value>)
    requires
        with_catalog(g, place, catalog).done,
        catalog.contains_key(key("Type")),
        catalog[key("Type")] == crate::annotation::name("Catalog"),
        place is Some ==> root_of(g) == place,
    ensures
        is_rooted(with_catalog(g, place, catalog).graph),
        has_empty_pages(with_catalog(g, place, catalog).graph),
{
    let after = with_catalog(g, place, catalog).graph;
    let pages_id = next_id(g.max_id);
    let stored = Value::Dictionary(catalog.insert(key("Pages"), Value::Reference(pages_id)));
    let id = if place is Some && place != Some(pages_id) {
        place.unwrap()
    } else {
        next_id(pages_id.0)
    };
    lemma_field_keys();
    assert(root_of(after) == Some(id));
    assert(after.objects[id] == stored);
    assert(after.objects[pages_id] == Value::Dictionary(empty_pages()));
    lemma_resolve(after.objects, id);
    lemma_resolve(after.objects, pages_id);
}

/// The repair of the catalog gives the document a catalog. After a repair
/// that succeeded, the trailer's `/Root` refers to a dictionary that is
/// typed as a catalog and has a `/Pages` entry. Where `/Root` referred to no
/// dictionary with a `/Pages` entry before, that entry refers to an empty
/// pages node, which is another object than the catalog.
pub proof fn law_repaired_tree_is_rooted(g: Graph)
    requires
        repaired_tree(g).done,
    ensures
        is_rooted(repaired_tree(g).graph),
        !has_pages_entry(g) ==> has_empty_pages(repaired_tree(g).graph),
{
    lemma_field_keys();
    match root_of(g) {
        Some(catalog_id) => match lookup(g.objects, catalog_id) {
            Some(Value::Dictionary(catalog)) => {
                let typed = catalog.insert(key("Type"), crate::annotation::name("Catalog"));
                if is_catalog(catalog) {
                } else if catalog.contains_key(key("Pages")) {
                    lemma_lookup_stored(g.objects, catalog_id, Value::Dictionary(typed));
                } else {
                    lemma_with_catalog(g, Some(catalog_id), typed);
                }
            },
            _ => {
                lemma_with_catalog(g, Some(catalog_id), bare_catalog());
            },
        },
        None => {
            lemma_with_catalog(g, None, bare_catalog());
        },
    }
}

/// Whether a dictionary is typed as a page and has a media box.
pub open spec fn is_page(entries: Map<Seq<u8>, Value>) -> bool {
    entries.contains_key(key("Type")) && entries[key("Type")] == crate::annotation::name("Page")
        && entries.contains_key(key("MediaBox"))
}

/// Whether an id stands for a dictionary.
pub open spec fn is_dictionary(objects: Map<ObjectId, Value>, id: ObjectId) -> bool {
    lookup(objects, id) matches Some(Value::Dictionary(_))
}

/// Whether an id stands for a dictionary that is typed as a page and has a
/// media box.
pub open spec fn is_page_at(objects: Map<ObjectId, Value>, id: ObjectId) -> bool {
    lookup(objects, id) matches Some(Value::Dictionary(page)) && is_page(page)
}

/// Whether a dictionary is a page as a repair makes or leaves it: typed as a
/// page, with a media box, and without `/Annots`.
pub open spec fn is_repaired(entries: Map<Seq<u8>, Value>) -> bool {
    is_page(entries) && !entries.contains_key(key("Annots"))
}

/// Whether an id stands for a page as a repair makes it. Such a page is
/// sound and lists no annotations.
pub open spec fn is_repaired_at(objects: Map<ObjectId, Value>, id: ObjectId) -> bool {
    lookup(objects, id) matches Some(Value::Dictionary(page)) && is_repaired(page)
}

/// A page as a repair makes it is typed as a page with a media box, can
/// take annotations, and lists none.
pub proof fn law_repaired_page_is_sound(objects: Map<ObjectId, Value>, id: ObjectId)
    requires
        is_repaired_at(objects, id),
    ensures
        is_page_at(objects, id),
        is_sound_page(objects, id),
        listed_on(objects, id) == Seq::<ObjectId>::empty(),
{
}

/// Storing a dictionary: an id that stood for a dictionary stands for that
/// one still, or for the one stored; an id that did not stands for the one
/// stored if it stands for any.
proof fn lemma_store_dictionary(
    objects: Map<ObjectId, Value>,
    k: ObjectId,
    entries: Map<Seq<u8>, Value>,
    id: ObjectId,
)
    ensures
        is_dictionary(objects, id) ==> is_dictionary(
            objects.insert(k, Value::Dictionary(entries)),
            id,
        ),
        is_repaired(entries) && is_repaired_at(objects, id) ==> is_repaired_at(
            objects.insert(k, Value::Dictionary(entries)),
            id,
        ),
        is_repaired(entries) && !is_dictionary(objects, id) && is_dictionary(
            objects.insert(k, Value::Dictionary(entries)),
            id,
        ) ==> is_repaired_at(objects.insert(k, Value::Dictionary(entries)), id),
{
    lemma_resolve_insert(objects, k, Value::Dictionary(entries), id, reference_limit());
    lemma_resolve(objects, id);
}

/// Replacing the dictionary that an id stands for by one that is a page if
/// the first was one: every id stands for a dictionary if it did, and for a
/// page if it did; no id comes to stand for a dictionary that did not.
proof fn lemma_change_dictionary(
    objects: Map<ObjectId, Value>,
    at: ObjectId,
    entries: Map<Seq<u8>, Value>,
    id: ObjectId,
)
    requires
        lookup(objects, at) matches Some(Value::Dictionary(old)) && (is_repaired(old)
            ==> is_repaired(entries)),
    ensures
        ({
            let after = objects.insert(resolve(objects, at).unwrap(), Value::Dictionary(entries));
            &&& is_dictionary(objects, id) == is_dictionary(after, id)
            &&& is_repaired_at(objects, id) ==> is_repaired_at(after, id)
        }),
{
    lemma_resolve(objects, at);
    lemma_resolve_settled(
        objects,
        resolve(objects, at).unwrap(),
        Value::Dictionary(entries),
        id,
        reference_limit(),
    );
}

/// Putting a new page into the page tree: every id stands for a dictionary
/// if it did, and for a page if it did; an id that comes to stand for a
/// dictionary stands for a page.
proof fn lemma_page_added_step(g: Graph, id: ObjectId)
    ensures
        is_dictionary(g.objects, id) ==> is_dictionary(page_added(g).graph.objects, id),
        is_repaired_at(g.objects, id) ==> is_repaired_at(page_added(g).graph.objects, id),
        !is_dictionary(g.objects, id) && is_dictionary(page_added(g).graph.objects, id)
            ==> is_repaired_at(page_added(g).graph.objects, id),
        page_added(g).page matches Ok(page_id) ==> is_repaired_at(
            page_added(g).graph.objects,
            page_id,
        ),
{
    lemma_field_keys();
    if g.max_id < u32::MAX {
        let page_id = next_id(g.max_id);
        let added = g.objects.insert(page_id, Value::Dictionary(minimal_page()));
        lemma_store_dictionary(g.objects, page_id, minimal_page(), id);
        lemma_lookup_stored(g.objects, page_id, Value::Dictionary(minimal_page()));
        let with_page = Graph { objects: added, trailer: g.trailer, max_id: page_id.0 };
        if let Some((pages_id, node)) = pages_node(with_page) {
            let linked = added.insert(
                resolve(added, pages_id).unwrap(),
                Value::Dictionary(with_kid(node, page_id)),
            );
            lemma_change_dictionary(added, pages_id, with_kid(node, page_id), id);
            lemma_change_dictionary(added, pages_id, with_kid(node, page_id), page_id);
            if let Some(Value::Dictionary(page)) = lookup(linked, page_id) {
                let parented = page.insert(key("Parent"), Value::Reference(pages_id));
                lemma_change_dictionary(linked, page_id, parented, id);
                lemma_change_dictionary(linked, page_id, parented, page_id);
            }
        }
    }
}

/// A new page is linked into the page tree. After a new page was put into
/// the page tree of a document whose ids are numbered within what it has
/// handed out, the catalog leads to the pages node that it led to, that node
/// has the new page as its last kid and counts one more, and the new page
/// is an empty page that names the node as its parent.
pub proof fn law_added_page_is_linked(g: Graph)
    requires
        numbered_within(g.objects, g.max_id),
        page_added(g).page is Ok,
    ensures
        ({
            let after = page_added(g).graph;
            let page_id = next_id(g.max_id);
            &&& page_added(g).page == Ok::<ObjectId, Flaw>(page_id)
            &&& !g.objects.contains_key(page_id)
            &&& pages_node(g) matches Some((pages_id, node)) && pages_node(after) == Some(
                (pages_id, with_kid(node, page_id)),
            ) && lookup(after.objects, page_id) == Some(
                Value::Dictionary(minimal_page().insert(key("Parent"), Value::Reference(pages_id))),
            ) && resolve(after.objects, pages_id) != Some(page_id)
        }),
{
    lemma_field_keys();
    let page_id = next_id(g.max_id);
    let page = Value::Dictionary(minimal_page());
    let added = g.objects.insert(page_id, page);
    let catalog_id = g.trailer[key("Root")]->Reference_0;
    let catalog = lookup(g.objects, catalog_id).unwrap()->Dictionary_0;
    let pages_id = catalog[key("Pages")]->Reference_0;
    let node = lookup(g.objects, pages_id).unwrap()->Dictionary_0;
    lemma_lookup_fresh(g.objects, page_id, page, catalog_id);
    lemma_lookup_fresh(g.objects, page_id, page, pages_id);
    lemma_lookup_stored(g.objects, page_id, page);
    lemma_resolve(added, pages_id);
    lemma_resolve(added, catalog_id);
    let target = resolve(added, pages_id).unwrap();
    let grown = Value::Dictionary(with_kid(node, page_id));
    let linked = added.insert(target, grown);
    lemma_resolve_settled(added, target, grown, catalog_id, reference_limit());
    lemma_resolve_settled(added, target, grown, pages_id, reference_limit());
    lemma_resolve_settled(added, target, grown, page_id, reference_limit());
    let parented = Value::Dictionary(
        minimal_page().insert(key("Parent"), Value::Reference(pages_id)),
    );
    let after = linked.insert(page_id, parented);
    lemma_resolve_settled(linked, page_id, parented, catalog_id, reference_limit());
    lemma_resolve_settled(linked, page_id, parented, pages_id, reference_limit());
    lemma_resolve_settled(linked, page_id, parented, page_id, reference_limit());
    assert(page_added(g).graph.objects == after);
}

/// The repair of one page: every id stands for a dictionary afterwards if it
/// did before, and for a page if it did; an id that comes to stand for a
/// dictionary stands for a page.
pub proof fn lemma_repair_keeps(g: Graph, page_id: ObjectId, id: ObjectId)
    ensures
        is_dictionary(g.objects, id) ==> is_dictionary(ensured(g, page_id).graph.objects, id),
        is_repaired_at(g.objects, id) ==> is_repaired_at(ensured(g, page_id).graph.objects, id),
        !is_dictionary(g.objects, id) && is_dictionary(ensured(g, page_id).graph.objects, id)
            ==> is_repaired_at(ensured(g, page_id).graph.objects, id),
{
    lemma_field_keys();
    match lookup(g.objects, page_id) {
        Some(Value::Stream(_, _)) => {
            lemma_store_dictionary(g.objects, page_id, minimal_page(), id);
        },
        None => {
            lemma_page_added_step(g, id);
        },
        _ => {},
    }
}

/// After the repair of a page, the id that is handed back stands for a
/// dictionary; unless the page was a dictionary before, that dictionary is
/// typed as a page, has a media box and lists no annotations.
pub proof fn law_repaired_page(g: Graph, page_id: ObjectId)
    ensures
        ensured(g, page_id).page matches Ok(id) ==> is_dictionary(
            ensured(g, page_id).graph.objects,
            id,
        ) && (!is_dictionary(g.objects, page_id) ==> is_repaired_at(
            ensured(g, page_id).graph.objects,
            id,
        )),
{
    lemma_field_keys();
    match lookup(g.objects, page_id) {
        Some(Value::Stream(_, _)) => {
            lemma_lookup_stored(g.objects, page_id, Value::Dictionary(minimal_page()));
        },
        None => {
            lemma_page_added_step(g, page_id);
        },
        _ => {},
    }
}

/// Whether every id that stands for a dictionary in the second document and
/// did not in the first stands for a page as a repair makes it.
pub open spec fn new_dictionaries_are_repaired(
    before: Map<ObjectId, Value>,
    after: Map<ObjectId, Value>,
) -> bool {
    forall|id: ObjectId|
        !is_dictionary(before, id) && #[trigger] is_dictionary(after, id) ==> is_repaired_at(
            after,
            id,
        )
}

/// The closure of the repair. After the pages of a document are repaired in
/// turn, every id that is handed back stands for a dictionary, and for one
/// that is typed as a page, has a media box and lists no annotations unless
/// the page was a dictionary before the repair began.
pub proof fn law_normalized_pages(g: Graph, page_ids: Seq<ObjectId>)
    ensures
        ensured_all(g, page_ids).pages matches Ok(fixed) ==> {
            &&& fixed.len() == page_ids.len()
            &&& new_dictionaries_are_repaired(g.objects, ensured_all(g, page_ids).graph.objects)
            &&& forall|i: int|
                0 <= i < fixed.len() ==> is_dictionary(
                    ensured_all(g, page_ids).graph.objects,
                    #[trigger] fixed[i],
                ) && (!is_dictionary(g.objects, page_ids[i]) ==> is_repaired_at(
                    ensured_all(g, page_ids).graph.objects,
                    fixed[i],
                ))
        },
    decreases page_ids.len(),
{
    if page_ids.len() > 0 {
        let before = ensured_all(g, page_ids.drop_last());
        law_normalized_pages(g, page_ids.drop_last());
        if let Ok(fixed) = before.pages {
            let step = ensured(before.graph, page_ids.last());
            law_repaired_page(before.graph, page_ids.last());
            if let Ok(id) = step.page {
                assert forall|other: ObjectId|
                    !is_dictionary(g.objects, other) && #[trigger] is_dictionary(
                        step.graph.objects,
                        other,
                    ) implies is_repaired_at(step.graph.objects, other) by {
                    lemma_repair_keeps(before.graph, page_ids.last(), other);
                }
                let all = fixed.push(id);
                assert forall|i: int| 0 <= i < all.len() implies is_dictionary(
                    step.graph.objects,
                    #[trigger] all[i],
                ) && (!is_dictionary(g.objects, page_ids[i]) ==> is_repaired_at(
                    step.graph.objects,
                    all[i],
                )) by {
                    if i < fixed.len() {
                        assert(page_ids.drop_last()[i] == page_ids[i]);
                        assert(is_dictionary(before.graph.objects, fixed[i]));
                        lemma_repair_keeps(before.graph, page_ids.last(), fixed[i]);
                    } else {
                        if is_dictionary(before.graph.objects, page_ids.last()) {
                            assert(id == page_ids.last());
                        }
                    }
                }
            }
        }
    }
}

/// The repair of a page keeps the numbering: in a document whose ids are
/// numbered within what it has handed out, they are so afterwards.
pub proof fn law_repair_keeps_numbering(g: Graph, page_id: ObjectId)
    requires
        numbered_within(g.objects, g.max_id),
    ensures
        numbered_within(ensured(g, page_id).graph.objects, ensured(g, page_id).graph.max_id),
{
    match lookup(g.objects, page_id) {
        Some(Value::Stream(_, _)) => {
            lemma_resolve(g.objects, page_id);
        },
        None => {
            if g.max_id < u32::MAX {
                let new_id = next_id(g.max_id);
                let added = g.objects.insert(new_id, Value::Dictionary(minimal_page()));
                let with_page = Graph { objects: added, trailer: g.trailer, max_id: new_id.0 };
                if let Some((pages_id, node)) = pages_node(with_page) {
                    lemma_resolve(added, pages_id);
                    let linked = added.insert(
                        resolve(added, pages_id).unwrap(),
                        Value::Dictionary(with_kid(node, new_id)),
                    );
                    lemma_resolve(linked, new_id);
                }
            }
        },
        _ => {},
    }
}

/// The repair of the pages in turn keeps the numbering.
pub proof fn law_normalize_keeps_numbering(g: Graph, page_ids: Seq<ObjectId>)
    requires
        numbered_within(g.objects, g.max_id),
    ensures
        numbered_within(
            ensured_all(g, page_ids).graph.objects,
            ensured_all(g, page_ids).graph.max_id,
        ),
    decreases page_ids.len(),
{
    if page_ids.len() > 0 {
        let before = ensured_all(g, page_ids.drop_last());
        law_normalize_keeps_numbering(g, page_ids.drop_last());
        if before.pages is Ok {
            law_repair_keeps_numbering(before.graph, page_ids.last());
        }
    }
}

/// Recreating keeps the geometry. An annotation of a source document is
/// recreated on a page of a list of pages of a target document whose ids
/// are numbered within what it has handed out. Before, a search through
/// the target's list found no annotation with the label; the page is sound,
/// each page before it stands apart from it, and the annotations that it
/// lists exist. Then the search for the label through the target's list
/// finds the new annotation on that page, and the dictionary under its id
/// has the rectangle of the source annotation.
pub proof fn law_recreate_preserves_geometry(
    source_objects: Map<ObjectId, Value>,
    source_pages: Seq<(u32, ObjectId)>,
    label: Seq<char>,
    objects: Map<ObjectId, Value>,
    max_id: u32,
    pages: Seq<(u32, ObjectId)>,
    number: u32,
)
    requires
        plan(source_objects, source_pages, label) matches Plan::Build(built) && placed(
            objects,
            max_id,
            pages,
            number,
            built,
        ).failure is None,
        numbered_within(objects, max_id),
        page_with_number(pages, number) matches Some(page_id) && is_sound_page(objects, page_id)
            && are_apart(objects, pages_before(pages, number), page_id) && all_resolve(
            objects,
            listed_on(objects, page_id),
        ),
        search(objects, pages, label) == Search::Absent,
    ensures
        ({
            let built = plan(source_objects, source_pages, label)->Build_0;
            let after = placed(objects, max_id, pages, number, built);
            let source_id = search(source_objects, source_pages, label)->Found_0;
            &&& search(source_objects, source_pages, label) is Found
            &&& search(after.objects, pages, label) == Search::Found(next_id(max_id), number)
            &&& lookup(source_objects, source_id) matches Some(Value::Dictionary(source))
                && lookup(after.objects, next_id(max_id)) matches Some(
                Value::Dictionary(recreated),
            ) && rect_of(recreated) == rect_of(source) && rect_of(source) is Some
        }),
{
    let built = plan(source_objects, source_pages, label)->Build_0;
    let source_id = search(source_objects, source_pages, label)->Found_0;
    let source = lookup(source_objects, source_id).unwrap()->Dictionary_0;
    lemma_plan_keeps_rect(source_id, source, label);
    law_placed_is_found(objects, max_id, pages, number, built, label);
}

} // verus!
