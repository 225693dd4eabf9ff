//! Pages in order: a condition on a list of pages that every placement of
//! an annotation on one of them keeps, and under which the annotations that
//! were placed are found again by their labels.

use crate::annotation::{after_all, next_id, placed, placed_each, Pattern};
use crate::annotation_utils::{label_of, page_with_number, search, Outcome, Search};
use crate::graph::{lemma_lookup_fresh, lemma_resolve, numbered_within};
use crate::laws::{
    all_resolve, annots_reference, are_apart, are_settled, is_apart, is_sound_page, is_untouched,
    law_annots_normalized, law_placed_is_found, law_search_persists, law_splice_lists,
    lemma_placed_effect, lemma_placed_listed, listed_on, pages_before,
};
use crate::pdf::{key, lookup, resolve, Value};
use lopdf::ObjectId;
use vstd::prelude::*;

verus! {

/// Whether the pages of a list are in order: each can take annotations,
/// the annotations that it lists exist, and any two of them are separate
/// objects with separate annotation arrays.
pub open spec fn are_orderly(objects: Map<ObjectId, Value>, pages: Seq<(u32, ObjectId)>) -> bool {
    &&& forall|i: int|
        0 <= i < pages.len() ==> is_sound_page(objects, (#[trigger] pages[i]).1) && all_resolve(
            objects,
            listed_on(objects, pages[i].1),
        )
    &&& forall|i: int, j: int|
        0 <= i < pages.len() && 0 <= j < pages.len() && i != j ==> is_apart(
            objects,
            (#[trigger] pages[i]).1,
            (#[trigger] pages[j]).1,
        )
}

/// The page with a number stands in the list, at the first place that
/// carries the number, and the pages before it are those before that place.
pub proof fn lemma_page_is_listed(pages: Seq<(u32, ObjectId)>, number: u32) -> (k: int)
    requires
        page_with_number(pages, number) is Some,
    ensures
        0 <= k < pages.len(),
        pages[k] == (number, page_with_number(pages, number).unwrap()),
        pages_before(pages, number) == pages.take(k),
    decreases pages.len(),
{
    if pages[0].0 == number {
        assert(pages.take(0) =~= Seq::<(u32, ObjectId)>::empty());
        0
    } else {
        let k = lemma_page_is_listed(pages.drop_first(), number);
        assert(pages.drop_first()[k] == pages[k + 1]);
        assert(seq![pages[0]] + pages.drop_first().take(k) =~= pages.take(k + 1));
        k + 1
    }
}

/// What putting a new annotation on a sound page does to the page: it
/// stands for the object that it stood for, and refers to an array that is
/// stored under the id referred to, which is the id that it referred to
/// before, or a new one. The annotation is stored under its own id.
pub proof fn lemma_placed_page(
    objects: Map<ObjectId, Value>,
    max_id: u32,
    pages: Seq<(u32, ObjectId)>,
    number: u32,
    entries: Map<Seq<u8>, Value>,
)
    requires
        numbered_within(objects, max_id),
        page_with_number(pages, number) matches Some(page_id) && is_sound_page(objects, page_id),
        placed(objects, max_id, pages, number, entries).failure is None,
    ensures
        ({
            let after = placed(objects, max_id, pages, number, entries).objects;
            let page_id = page_with_number(pages, number).unwrap();
            let id = next_id(max_id);
            &&& resolve(after, page_id) == resolve(objects, page_id)
            &&& !objects.contains_key(id)
            &&& after.contains_key(id)
            &&& after[id] == Value::Dictionary(entries)
            &&& annots_reference(after, page_id) matches Some(array_id) && after.contains_key(
                array_id,
            ) && after[array_id] is Array && (annots_reference(objects, page_id) == Some(array_id)
                || !objects.contains_key(array_id))
        }),
{
    let page_id = page_with_number(pages, number).unwrap();
    let id = next_id(max_id);
    let stored = Value::Dictionary(entries);
    let added = objects.insert(id, stored);
    lemma_lookup_fresh(objects, id, stored, page_id);
    lemma_resolve(objects, page_id);
    let page = lookup(objects, page_id).unwrap()->Dictionary_0;
    if page.contains_key(key("Annots")) {
        if let Value::Reference(array_id) = page[key("Annots")] {
            lemma_lookup_fresh(objects, id, stored, array_id);
        }
    }
    law_splice_lists(added, id.0, page_id, id);
    law_annots_normalized(added, id.0, page_id, id);
}

/// An id that led neither to a page nor to the page's annotation array
/// before a new annotation was put on the page leads to neither afterwards,
/// and to what it led to before.
pub proof fn lemma_untouched_stays(
    objects: Map<ObjectId, Value>,
    max_id: u32,
    pages: Seq<(u32, ObjectId)>,
    number: u32,
    entries: Map<Seq<u8>, Value>,
    id: ObjectId,
)
    requires
        numbered_within(objects, max_id),
        page_with_number(pages, number) matches Some(page_id) && is_sound_page(objects, page_id)
            && is_untouched(objects, page_id, id),
        placed(objects, max_id, pages, number, entries).failure is None,
        lookup(objects, id) is Some,
    ensures
        ({
            let after = placed(objects, max_id, pages, number, entries).objects;
            let page_id = page_with_number(pages, number).unwrap();
            &&& lookup(after, id) == lookup(objects, id)
            &&& resolve(after, id) == resolve(objects, id)
            &&& is_untouched(after, page_id, id)
        }),
{
    let after = placed(objects, max_id, pages, number, entries).objects;
    let page_id = page_with_number(pages, number).unwrap();
    lemma_placed_effect(objects, max_id, pages, number, entries, id, Seq::empty());
    lemma_placed_page(objects, max_id, pages, number, entries);
    lemma_resolve(objects, id);
    let array_id = annots_reference(after, page_id).unwrap();
    lemma_resolve(after, array_id);
    if objects.contains_key(array_id) {
        lemma_resolve(objects, array_id);
        assert(resolve(objects, id) != resolve(objects, array_id));
    }
    assert(resolve(after, id) != resolve(after, array_id));
}

/// A sound page that stands apart from the page on which a new annotation
/// is put stays as it was: it stands for the same object, is sound, lists
/// the same annotations, which exist, and stands apart from that page.
pub proof fn lemma_other_page_stays(
    objects: Map<ObjectId, Value>,
    max_id: u32,
    pages: Seq<(u32, ObjectId)>,
    number: u32,
    entries: Map<Seq<u8>, Value>,
    other: ObjectId,
)
    requires
        numbered_within(objects, max_id),
        page_with_number(pages, number) matches Some(page_id) && is_sound_page(objects, page_id)
            && is_apart(objects, other, page_id),
        placed(objects, max_id, pages, number, entries).failure is None,
        is_sound_page(objects, other),
    ensures
        ({
            let after = placed(objects, max_id, pages, number, entries).objects;
            let page_id = page_with_number(pages, number).unwrap();
            &&& lookup(after, other) == lookup(objects, other)
            &&& resolve(after, other) == resolve(objects, other)
            &&& is_sound_page(after, other)
            &&& listed_on(after, other) == listed_on(objects, other)
            &&& is_apart(after, other, page_id)
            &&& annots_reference(objects, other) matches Some(array_id) ==> lookup(after, array_id)
                == lookup(objects, array_id) && resolve(after, array_id) == resolve(
                objects,
                array_id,
            )
        }),
{
    let after = placed(objects, max_id, pages, number, entries).objects;
    let page_id = page_with_number(pages, number).unwrap();
    lemma_untouched_stays(objects, max_id, pages, number, entries, other);
    if let Some(array_id) = annots_reference(objects, other) {
        lemma_untouched_stays(objects, max_id, pages, number, entries, array_id);
    }
    let ids = listed_on(objects, other);
    assert forall|i: int| 0 <= i < ids.len() implies lookup(after, #[trigger] ids[i]) is Some by {
        lemma_placed_effect(objects, max_id, pages, number, entries, ids[i], Seq::empty());
    }
}

/// The annotations that a page lists after a new annotation was put on it
/// exist, if those that it listed before did.
pub proof fn lemma_placed_resolves(
    objects: Map<ObjectId, Value>,
    max_id: u32,
    pages: Seq<(u32, ObjectId)>,
    number: u32,
    entries: Map<Seq<u8>, Value>,
)
    requires
        numbered_within(objects, max_id),
        page_with_number(pages, number) matches Some(page_id) && is_sound_page(objects, page_id)
            && all_resolve(objects, listed_on(objects, page_id)),
        placed(objects, max_id, pages, number, entries).failure is None,
    ensures
        all_resolve(
            placed(objects, max_id, pages, number, entries).objects,
            listed_on(
                placed(objects, max_id, pages, number, entries).objects,
                page_with_number(pages, number).unwrap(),
            ),
        ),
{
    let after = placed(objects, max_id, pages, number, entries).objects;
    let page_id = page_with_number(pages, number).unwrap();
    let ids = listed_on(objects, page_id);
    lemma_placed_listed(objects, max_id, pages, number, entries);
    let longer = ids.push(next_id(max_id));
    assert forall|i: int| 0 <= i < longer.len() implies lookup(
        after,
        #[trigger] longer[i],
    ) is Some by {
        if i < ids.len() {
            assert(longer[i] == ids[i]);
            lemma_placed_effect(objects, max_id, pages, number, entries, ids[i], Seq::empty());
        }
    }
}

/// Two pages that stood apart before a new annotation was put on a page
/// stand apart afterwards, if each of them is that page or stands apart from
/// it.
pub proof fn lemma_pair_stays(
    objects: Map<ObjectId, Value>,
    max_id: u32,
    pages: Seq<(u32, ObjectId)>,
    number: u32,
    entries: Map<Seq<u8>, Value>,
    one: ObjectId,
    other: ObjectId,
)
    requires
        numbered_within(objects, max_id),
        page_with_number(pages, number) matches Some(page_id) && is_sound_page(objects, page_id)
            && all_resolve(objects, listed_on(objects, page_id)) && (one == page_id || is_apart(
            objects,
            one,
            page_id,
        )) && (other == page_id || is_apart(objects, other, page_id)),
        placed(objects, max_id, pages, number, entries).failure is None,
        is_sound_page(objects, one),
        is_sound_page(objects, other),
        is_apart(objects, one, other),
    ensures
        is_apart(placed(objects, max_id, pages, number, entries).objects, one, other),
{
    let after = placed(objects, max_id, pages, number, entries).objects;
    let page_id = page_with_number(pages, number).unwrap();
    lemma_resolve(objects, one);
    lemma_resolve(objects, other);
    if one == page_id {
        lemma_other_page_stays(objects, max_id, pages, number, entries, other);
        lemma_placed_page(objects, max_id, pages, number, entries);
        lemma_placed_resolves(objects, max_id, pages, number, entries);
        let array_id = annots_reference(after, page_id).unwrap();
        lemma_resolve(after, array_id);
        assert(resolve(after, other) != resolve(after, array_id));
        if let Some(listed) = annots_reference(objects, other) {
            lemma_untouched_stays(objects, max_id, pages, number, entries, listed);
            assert(resolve(after, listed) != resolve(after, array_id));
        }
    } else if other == page_id {
        lemma_other_page_stays(objects, max_id, pages, number, entries, one);
    } else {
        lemma_other_page_stays(objects, max_id, pages, number, entries, one);
        lemma_other_page_stays(objects, max_id, pages, number, entries, other);
        if let Some(listed) = annots_reference(objects, other) {
            assert(resolve(objects, one) != resolve(objects, listed));
            if let Some(array_id) = annots_reference(objects, one) {
                assert(resolve(objects, array_id) != resolve(objects, listed));
            }
        }
    }
}

/// The new annotation that was put on a page leads neither to a page that
/// was sound before, nor to the annotation array of one, if that page is the
/// one that took the annotation or stood apart from it.
pub proof fn lemma_new_is_untouched(
    objects: Map<ObjectId, Value>,
    max_id: u32,
    pages: Seq<(u32, ObjectId)>,
    number: u32,
    entries: Map<Seq<u8>, Value>,
    other: ObjectId,
)
    requires
        numbered_within(objects, max_id),
        page_with_number(pages, number) matches Some(page_id) && is_sound_page(objects, page_id)
            && (other == page_id || is_apart(objects, other, page_id)),
        placed(objects, max_id, pages, number, entries).failure is None,
        is_sound_page(objects, other),
    ensures
        is_untouched(
            placed(objects, max_id, pages, number, entries).objects,
            other,
            next_id(max_id),
        ),
{
    let after = placed(objects, max_id, pages, number, entries).objects;
    let page_id = page_with_number(pages, number).unwrap();
    let id = next_id(max_id);
    lemma_placed_page(objects, max_id, pages, number, entries);
    lemma_resolve(after, id);
    lemma_resolve(objects, other);
    if other == page_id {
        let array_id = annots_reference(after, page_id).unwrap();
        lemma_resolve(after, array_id);
    } else {
        lemma_other_page_stays(objects, max_id, pages, number, entries, other);
        if let Some(listed) = annots_reference(objects, other) {
            lemma_resolve(objects, listed);
        }
    }
}

/// Order is kept. After a new annotation is put on a page of a list of
/// pages that are in order, in a document whose ids are numbered within
/// what it has handed out, the pages of the list are in order again, the
/// document is numbered within what it has handed out, and the new
/// annotation leads to none of the pages and to none of their annotation
/// arrays.
pub proof fn law_order_is_kept(
    objects: Map<ObjectId, Value>,
    max_id: u32,
    pages: Seq<(u32, ObjectId)>,
    number: u32,
    entries: Map<Seq<u8>, Value>,
)
    requires
        numbered_within(objects, max_id),
        are_orderly(objects, pages),
        placed(objects, max_id, pages, number, entries).failure is None,
    ensures
        ({
            let after = placed(objects, max_id, pages, number, entries);
            &&& numbered_within(after.objects, after.max_id)
            &&& are_orderly(after.objects, pages)
            &&& forall|i: int|
                0 <= i < pages.len() ==> is_untouched(
                    after.objects,
                    (#[trigger] pages[i]).1,
                    next_id(max_id),
                )
        }),
{
    let after = placed(objects, max_id, pages, number, entries);
    let k = lemma_page_is_listed(pages, number);
    let page_id = pages[k].1;
    lemma_placed_listed(objects, max_id, pages, number, entries);
    lemma_placed_resolves(objects, max_id, pages, number, entries);
    assert forall|i: int| 0 <= i < pages.len() implies is_sound_page(
        after.objects,
        (#[trigger] pages[i]).1,
    ) && all_resolve(after.objects, listed_on(after.objects, pages[i].1)) && is_untouched(
        after.objects,
        pages[i].1,
        next_id(max_id),
    ) by {
        if i != k {
            assert(is_apart(objects, pages[i].1, pages[k].1));
            lemma_other_page_stays(objects, max_id, pages, number, entries, pages[i].1);
        }
        lemma_new_is_untouched(objects, max_id, pages, number, entries, pages[i].1);
    }
    assert forall|i: int, j: int|
        0 <= i < pages.len() && 0 <= j < pages.len() && i != j implies is_apart(
        after.objects,
        (#[trigger] pages[i]).1,
        (#[trigger] pages[j]).1,
    ) by {
        if i != k {
            assert(is_apart(objects, pages[i].1, pages[k].1));
        }
        if j != k {
            assert(is_apart(objects, pages[j].1, pages[k].1));
        }
        assert(is_apart(objects, pages[i].1, pages[j].1));
        lemma_pair_stays(objects, max_id, pages, number, entries, pages[i].1, pages[j].1);
    }
}

/// A page of a list of pages that are in order is sound, lists annotations
/// that exist, and stands apart from every other page of the list.
pub proof fn lemma_orderly_page(
    objects: Map<ObjectId, Value>,
    pages: Seq<(u32, ObjectId)>,
    number: u32,
)
    requires
        are_orderly(objects, pages),
        page_with_number(pages, number) is Some,
    ensures
        ({
            let page_id = page_with_number(pages, number).unwrap();
            &&& is_sound_page(objects, page_id)
            &&& all_resolve(objects, listed_on(objects, page_id))
            &&& are_apart(objects, pages_before(pages, number), page_id)
            &&& are_settled(objects, pages, page_id)
        }),
{
    let k = lemma_page_is_listed(pages, number);
    let page_id = pages[k].1;
    let before = pages_before(pages, number);
    assert forall|i: int| 0 <= i < before.len() implies is_apart(
        objects,
        (#[trigger] before[i]).1,
        page_id,
    ) by {
        assert(before[i] == pages[i]);
        assert(is_apart(objects, pages[i].1, pages[k].1));
    }
    assert forall|i: int| 0 <= i < pages.len() implies (#[trigger] pages[i]).1 == page_id
        || is_apart(objects, pages[i].1, page_id) by {
        if i != k {
            assert(is_apart(objects, pages[i].1, pages[k].1));
        }
    }
}

/// Whether a search for a label through the pages finds the annotation
/// with the given id on the page with the given number, and that annotation
/// exists and leads to none of the pages and to none of their annotation
/// arrays.
pub open spec fn is_found_apart(
    objects: Map<ObjectId, Value>,
    pages: Seq<(u32, ObjectId)>,
    label: Seq<char>,
    id: ObjectId,
    number: u32,
) -> bool {
    &&& search(objects, pages, label) == Search::Found(id, number)
    &&& lookup(objects, id) is Some
    &&& forall|i: int| 0 <= i < pages.len() ==> is_untouched(objects, (#[trigger] pages[i]).1, id)
}

/// A new label is found. A new annotation that carries a label is put on a
/// page of a list of pages that are in order, in a document whose ids are
/// numbered within what it has handed out and in which a search through the
/// list found no annotation with the label. Then the search through the
/// same list finds the new annotation on that page, and the document holds
/// it as it was built.
pub proof fn law_new_label_is_found(
    objects: Map<ObjectId, Value>,
    max_id: u32,
    pages: Seq<(u32, ObjectId)>,
    number: u32,
    entries: Map<Seq<u8>, Value>,
    label: Seq<char>,
)
    requires
        numbered_within(objects, max_id),
        are_orderly(objects, pages),
        label_of(entries) == Some(label),
        search(objects, pages, label) == Search::Absent,
        placed(objects, max_id, pages, number, entries).failure is None,
    ensures
        is_found_apart(
            placed(objects, max_id, pages, number, entries).objects,
            pages,
            label,
            next_id(max_id),
            number,
        ),
        lookup(placed(objects, max_id, pages, number, entries).objects, next_id(max_id)) == Some(
            Value::Dictionary(entries),
        ),
{
    lemma_orderly_page(objects, pages, number);
    law_placed_is_found(objects, max_id, pages, number, entries, label);
    law_order_is_kept(objects, max_id, pages, number, entries);
}

/// A label that was found stays found. A new annotation is put on a page
/// of a list of pages that are in order, in a document whose ids are
/// numbered within what it has handed out. A search through the list for
/// another label than the new annotation's found an annotation that leads to
/// none of the pages and to none of their annotation arrays. Then the search
/// through the same list finds that annotation on the same page, it still
/// leads to none of them, and it is what it was.
pub proof fn law_found_label_stays(
    objects: Map<ObjectId, Value>,
    max_id: u32,
    pages: Seq<(u32, ObjectId)>,
    number: u32,
    entries: Map<Seq<u8>, Value>,
    label: Seq<char>,
    found: ObjectId,
    found_on: u32,
)
    requires
        numbered_within(objects, max_id),
        are_orderly(objects, pages),
        is_found_apart(objects, pages, label, found, found_on),
        label_of(entries) != Some(label),
        placed(objects, max_id, pages, number, entries).failure is None,
    ensures
        is_found_apart(
            placed(objects, max_id, pages, number, entries).objects,
            pages,
            label,
            found,
            found_on,
        ),
        lookup(placed(objects, max_id, pages, number, entries).objects, found) == lookup(
            objects,
            found,
        ),
{
    let after = placed(objects, max_id, pages, number, entries).objects;
    let k = lemma_page_is_listed(pages, number);
    lemma_orderly_page(objects, pages, number);
    assert(is_untouched(objects, pages[k].1, found));
    law_search_persists(objects, max_id, pages, number, entries, label);
    lemma_untouched_stays(objects, max_id, pages, number, entries, found);
    assert forall|i: int| 0 <= i < pages.len() implies is_untouched(
        after,
        (#[trigger] pages[i]).1,
        found,
    ) by {
        if i != k {
            assert(is_apart(objects, pages[i].1, pages[k].1));
            assert(is_untouched(objects, pages[i].1, found));
            lemma_other_page_stays(objects, max_id, pages, number, entries, pages[i].1);
            if let Some(listed) = annots_reference(objects, pages[i].1) {
                assert(resolve(objects, found) != resolve(objects, listed));
            }
        }
    }
}

/// Two labels in turn. Two new annotations that carry different labels
/// are put, one after the other, on pages of a list of pages that are in
/// order, in a document whose ids are numbered within what it has handed out
/// and in which a search through the list found neither label. Then the
/// search through the same list finds each of the two by its label, on the
/// page that it was put on.
pub proof fn law_labels_found_in_turn(
    objects: Map<ObjectId, Value>,
    max_id: u32,
    pages: Seq<(u32, ObjectId)>,
    first_number: u32,
    first: Map<Seq<u8>, Value>,
    first_label: Seq<char>,
    second_number: u32,
    second: Map<Seq<u8>, Value>,
    second_label: Seq<char>,
)
    requires
        numbered_within(objects, max_id),
        are_orderly(objects, pages),
        label_of(first) == Some(first_label),
        label_of(second) == Some(second_label),
        first_label != second_label,
        search(objects, pages, first_label) == Search::Absent,
        search(objects, pages, second_label) == Search::Absent,
        placed(objects, max_id, pages, first_number, first).failure is None,
        placed(
            placed(objects, max_id, pages, first_number, first).objects,
            placed(objects, max_id, pages, first_number, first).max_id,
            pages,
            second_number,
            second,
        ).failure is None,
    ensures
        ({
            let once = placed(objects, max_id, pages, first_number, first);
            let twice = placed(once.objects, once.max_id, pages, second_number, second);
            &&& search(twice.objects, pages, first_label) == Search::Found(
                next_id(max_id),
                first_number,
            )
            &&& search(twice.objects, pages, second_label) == Search::Found(
                next_id(once.max_id),
                second_number,
            )
        }),
{
    let once = placed(objects, max_id, pages, first_number, first);
    lemma_orderly_page(objects, pages, first_number);
    law_new_label_is_found(objects, max_id, pages, first_number, first, first_label);
    law_search_persists(objects, max_id, pages, first_number, first, second_label);
    law_order_is_kept(objects, max_id, pages, first_number, first);
    law_new_label_is_found(once.objects, once.max_id, pages, second_number, second, second_label);
    law_found_label_stays(
        once.objects,
        once.max_id,
        pages,
        second_number,
        second,
        first_label,
        next_id(max_id),
        first_number,
    );
}

/// Whether an id stands for a dictionary without `/Annots`: a page that
/// has no annotations yet.
pub open spec fn is_bare_page(objects: Map<ObjectId, Value>, id: ObjectId) -> bool {
    match lookup(objects, id) {
        Some(Value::Dictionary(page)) => !page.contains_key(key("Annots")),
        _ => false,
    }
}

/// A search through pages that have no annotations yet finds no label.
pub proof fn lemma_bare_pages_hold_no_label(
    objects: Map<ObjectId, Value>,
    pages: Seq<(u32, ObjectId)>,
    label: Seq<char>,
)
    requires
        forall|i: int| 0 <= i < pages.len() ==> is_bare_page(objects, (#[trigger] pages[i]).1),
    ensures
        search(objects, pages, label) == Search::Absent,
    decreases pages.len(),
{
    if pages.len() > 0 {
        assert(is_bare_page(objects, pages[0].1));
        assert forall|i: int| 0 <= i < pages.drop_first().len() implies is_bare_page(
            objects,
            (#[trigger] pages.drop_first()[i]).1,
        ) by {
            assert(pages.drop_first()[i] == pages[i + 1]);
        }
        lemma_bare_pages_hold_no_label(objects, pages.drop_first(), label);
    }
}

/// Pages that have no annotations yet are in order. If each page of a list
/// stands for a dictionary without `/Annots`, and any two of them for
/// different objects, the pages are in order, and a search through them
/// finds no label.
pub proof fn law_bare_pages_are_orderly(
    objects: Map<ObjectId, Value>,
    pages: Seq<(u32, ObjectId)>,
    label: Seq<char>,
)
    requires
        forall|i: int| 0 <= i < pages.len() ==> is_bare_page(objects, (#[trigger] pages[i]).1),
        forall|i: int, j: int|
            0 <= i < pages.len() && 0 <= j < pages.len() && i != j ==> resolve(
                objects,
                (#[trigger] pages[i]).1,
            ) != resolve(objects, (#[trigger] pages[j]).1),
    ensures
        are_orderly(objects, pages),
        search(objects, pages, label) == Search::Absent,
{
    lemma_bare_pages_hold_no_label(objects, pages, label);
    assert forall|i: int| 0 <= i < pages.len() implies is_sound_page(
        objects,
        (#[trigger] pages[i]).1,
    ) && all_resolve(objects, listed_on(objects, pages[i].1)) by {
        assert(is_bare_page(objects, pages[i].1));
    }
    assert forall|i: int, j: int|
        0 <= i < pages.len() && 0 <= j < pages.len() && i != j implies is_apart(
        objects,
        (#[trigger] pages[i]).1,
        (#[trigger] pages[j]).1,
    ) by {
        assert(is_bare_page(objects, pages[i].1));
        assert(is_bare_page(objects, pages[j].1));
        assert(resolve(objects, pages[i].1) != resolve(objects, pages[j].1));
    }
}

/// Whether every attempt of a run succeeded.
pub open spec fn all_placed(run: Seq<Outcome>) -> bool {
    forall|i: int| 0 <= i < run.len() ==> (#[trigger] run[i]).failure is None
}

/// The label that the pattern's annotation for a page carries.
pub open spec fn pattern_label(pattern: Pattern, number: u32) -> Option<Seq<char>> {
    label_of(pattern.entries(number))
}

/// A run without the last attempt is the run over the numbers without the
/// last, and succeeded throughout if the whole run did.
pub proof fn lemma_run_without_last(
    objects: Map<ObjectId, Value>,
    max_id: u32,
    pages: Seq<(u32, ObjectId)>,
    numbers: Seq<u32>,
    pattern: Pattern,
)
    requires
        numbers.len() > 0,
        all_placed(placed_each(objects, max_id, pages, numbers, pattern)),
    ensures
        ({
            let run = placed_each(objects, max_id, pages, numbers, pattern);
            let before = placed_each(objects, max_id, pages, numbers.drop_last(), pattern);
            let start = after_all(objects, max_id, before);
            &&& run.len() == numbers.len()
            &&& before == run.drop_last()
            &&& all_placed(before)
            &&& run.last() == placed(
                start.objects,
                start.max_id,
                pages,
                numbers.last(),
                pattern.entries(numbers.last()),
            )
            &&& run.last().failure is None
            &&& start.max_id == if numbers.len() == 1 {
                max_id
            } else {
                run[numbers.len() - 2].max_id
            }
        }),
{
    let run = placed_each(objects, max_id, pages, numbers, pattern);
    let before = placed_each(objects, max_id, pages, numbers.drop_last(), pattern);
    lemma_run_length(objects, max_id, pages, numbers, pattern);
    lemma_run_length(objects, max_id, pages, numbers.drop_last(), pattern);
    assert(run.drop_last() =~= before);
    assert forall|i: int| 0 <= i < before.len() implies (#[trigger] before[i]).failure is None by {
        assert(before[i] == run[i]);
    }
    assert(run[run.len() - 1].failure is None);
}

/// A run has one attempt for each number.
pub proof fn lemma_run_length(
    objects: Map<ObjectId, Value>,
    max_id: u32,
    pages: Seq<(u32, ObjectId)>,
    numbers: Seq<u32>,
    pattern: Pattern,
)
    ensures
        placed_each(objects, max_id, pages, numbers, pattern).len() == numbers.len(),
    decreases numbers.len(),
{
    if numbers.len() > 0 {
        lemma_run_length(objects, max_id, pages, numbers.drop_last(), pattern);
    }
}

/// A run keeps order. After a run of placements that all succeeded, on
/// pages of a list of pages that were in order, in a document whose ids
/// were numbered within what it had handed out, the pages are in order and
/// the document is numbered so.
pub proof fn law_run_keeps_order(
    objects: Map<ObjectId, Value>,
    max_id: u32,
    pages: Seq<(u32, ObjectId)>,
    numbers: Seq<u32>,
    pattern: Pattern,
)
    requires
        numbered_within(objects, max_id),
        are_orderly(objects, pages),
        all_placed(placed_each(objects, max_id, pages, numbers, pattern)),
    ensures
        ({
            let last = after_all(
                objects,
                max_id,
                placed_each(objects, max_id, pages, numbers, pattern),
            );
            numbered_within(last.objects, last.max_id) && are_orderly(last.objects, pages)
        }),
    decreases numbers.len(),
{
    lemma_run_length(objects, max_id, pages, numbers, pattern);
    if numbers.len() > 0 {
        lemma_run_without_last(objects, max_id, pages, numbers, pattern);
        law_run_keeps_order(objects, max_id, pages, numbers.drop_last(), pattern);
        let start = after_all(
            objects,
            max_id,
            placed_each(objects, max_id, pages, numbers.drop_last(), pattern),
        );
        law_order_is_kept(
            start.objects,
            start.max_id,
            pages,
            numbers.last(),
            pattern.entries(numbers.last()),
        );
    }
}

/// A label that no annotation carried, and that none of a run's
/// annotations carries, is carried by none after the run, if the run
/// succeeded throughout on pages that were in order.
pub proof fn lemma_run_keeps_absent(
    objects: Map<ObjectId, Value>,
    max_id: u32,
    pages: Seq<(u32, ObjectId)>,
    numbers: Seq<u32>,
    pattern: Pattern,
    label: Seq<char>,
)
    requires
        numbered_within(objects, max_id),
        are_orderly(objects, pages),
        all_placed(placed_each(objects, max_id, pages, numbers, pattern)),
        search(objects, pages, label) == Search::Absent,
        forall|j: int|
            0 <= j < numbers.len() ==> pattern_label(pattern, #[trigger] numbers[j]) != Some(label),
    ensures
        search(
            after_all(
                objects,
                max_id,
                placed_each(objects, max_id, pages, numbers, pattern),
            ).objects,
            pages,
            label,
        ) == Search::Absent,
    decreases numbers.len(),
{
    lemma_run_length(objects, max_id, pages, numbers, pattern);
    if numbers.len() > 0 {
        let shorter = numbers.drop_last();
        lemma_run_without_last(objects, max_id, pages, numbers, pattern);
        assert forall|j: int| 0 <= j < shorter.len() implies pattern_label(
            pattern,
            #[trigger] shorter[j],
        ) != Some(label) by {
            assert(shorter[j] == numbers[j]);
        }
        lemma_run_keeps_absent(objects, max_id, pages, shorter, pattern, label);
        law_run_keeps_order(objects, max_id, pages, shorter, pattern);
        let start = after_all(
            objects,
            max_id,
            placed_each(objects, max_id, pages, shorter, pattern),
        );
        assert(pattern_label(pattern, numbers[numbers.len() - 1]) != Some(label));
        lemma_orderly_page(start.objects, pages, numbers.last());
        law_search_persists(
            start.objects,
            start.max_id,
            pages,
            numbers.last(),
            pattern.entries(numbers.last()),
            label,
        );
    }
}

/// The labels of a run are found. A run puts one annotation of a pattern
/// on each of the pages with the given numbers, which are pages of a list of
/// pages in order, in a document whose ids are numbered within what it has
/// handed out. The labels that the pattern gives for the numbers differ from
/// each other, a search through the list found none of them before, and
/// every placement succeeded. Then, after the run, the search through the
/// same list finds each annotation of the run by its label, on the page
/// that it was put on, and the document holds it as the pattern built it.
pub proof fn law_run_is_found(
    objects: Map<ObjectId, Value>,
    max_id: u32,
    pages: Seq<(u32, ObjectId)>,
    numbers: Seq<u32>,
    pattern: Pattern,
    i: int,
)
    requires
        numbered_within(objects, max_id),
        are_orderly(objects, pages),
        all_placed(placed_each(objects, max_id, pages, numbers, pattern)),
        forall|j: int|
            0 <= j < numbers.len() ==> pattern_label(pattern, #[trigger] numbers[j]) is Some
                && search(objects, pages, pattern_label(pattern, numbers[j]).unwrap())
                == Search::Absent,
        forall|j: int, k: int|
            0 <= j < numbers.len() && 0 <= k < numbers.len() && j != k ==> pattern_label(
                pattern,
                #[trigger] numbers[j],
            ) != pattern_label(pattern, #[trigger] numbers[k]),
        0 <= i < numbers.len(),
    ensures
        ({
            let run = placed_each(objects, max_id, pages, numbers, pattern);
            let last = after_all(objects, max_id, run);
            let id = next_id(
                if i == 0 {
                    max_id
                } else {
                    run[i - 1].max_id
                },
            );
            &&& is_found_apart(
                last.objects,
                pages,
                pattern_label(pattern, numbers[i]).unwrap(),
                id,
                numbers[i],
            )
            &&& lookup(last.objects, id) == Some(Value::Dictionary(pattern.entries(numbers[i])))
        }),
    decreases numbers.len(),
{
    let run = placed_each(objects, max_id, pages, numbers, pattern);
    let shorter = numbers.drop_last();
    let before = placed_each(objects, max_id, pages, shorter, pattern);
    let start = after_all(objects, max_id, before);
    let end = numbers.len() - 1;
    let entries = pattern.entries(numbers.last());
    lemma_run_length(objects, max_id, pages, numbers, pattern);
    lemma_run_without_last(objects, max_id, pages, numbers, pattern);
    law_run_keeps_order(objects, max_id, pages, shorter, pattern);
    assert(pattern_label(pattern, numbers[end]) is Some);
    assert(pattern_label(pattern, numbers[i]) is Some);
    let label = pattern_label(pattern, numbers[i]).unwrap();
    if i == end {
        assert forall|j: int| 0 <= j < shorter.len() implies pattern_label(
            pattern,
            #[trigger] shorter[j],
        ) != Some(label) by {
            assert(shorter[j] == numbers[j]);
            assert(pattern_label(pattern, numbers[j]) != pattern_label(pattern, numbers[end]));
        }
        lemma_run_keeps_absent(objects, max_id, pages, shorter, pattern, label);
        law_new_label_is_found(start.objects, start.max_id, pages, numbers.last(), entries, label);
    } else {
        assert forall|j: int| 0 <= j < shorter.len() implies pattern_label(
            pattern,
            #[trigger] shorter[j],
        ) is Some && search(objects, pages, pattern_label(pattern, shorter[j]).unwrap())
            == Search::Absent by {
            assert(shorter[j] == numbers[j]);
        }
        assert forall|j: int, k: int|
            0 <= j < shorter.len() && 0 <= k < shorter.len() && j != k implies pattern_label(
            pattern,
            #[trigger] shorter[j],
        ) != pattern_label(pattern, #[trigger] shorter[k]) by {
            assert(shorter[j] == numbers[j]);
            assert(shorter[k] == numbers[k]);
        }
        law_run_is_found(objects, max_id, pages, shorter, pattern, i);
        assert(shorter[i] == numbers[i]);
        assert(pattern_label(pattern, numbers[i]) != pattern_label(pattern, numbers[end]));
        if i > 0 {
            assert(before[i - 1] == run[i - 1]);
        }
        law_found_label_stays(
            start.objects,
            start.max_id,
            pages,
            numbers.last(),
            entries,
            label,
            next_id(
                if i == 0 {
                    max_id
                } else {
                    run[i - 1].max_id
                },
            ),
            numbers[i],
        );
    }
}

} // verus!
