use lopdf::{Dictionary, Document, Object, ObjectId};
use pdf_exam_tools_lib::annotation_utils::{
    add_annotation_in_pages, add_annotation_to_page, find_annotation_by_label,
    get_annotation_dict, get_annotation_properties, page_id_of, page_list,
};
use pdf_exam_tools_lib::error::{Defect, LibError, Missing};

fn blank_document(pages: usize) -> (Document, Vec<ObjectId>) {
    let mut doc = Document::with_version("1.5");
    let pages_id = doc.new_object_id();
    let mut page_ids = Vec::new();
    for _ in 0..pages {
        let mut page = Dictionary::new();
        page.set("Type", Object::Name(b"Page".to_vec()));
        page.set("Parent", Object::Reference(pages_id));
        page.set(
            "MediaBox",
            Object::Array(vec![
                Object::Integer(0),
                Object::Integer(0),
                Object::Integer(612),
                Object::Integer(792),
            ]),
        );
        page_ids.push(doc.add_object(Object::Dictionary(page)));
    }
    let mut node = Dictionary::new();
    node.set("Type", Object::Name(b"Pages".to_vec()));
    node.set(
        "Kids",
        Object::Array(page_ids.iter().map(|id| Object::Reference(*id)).collect()),
    );
    node.set("Count", Object::Integer(pages as i64));
    doc.objects.insert(pages_id, Object::Dictionary(node));
    let mut catalog = Dictionary::new();
    catalog.set("Type", Object::Name(b"Catalog".to_vec()));
    catalog.set("Pages", Object::Reference(pages_id));
    let catalog_id = doc.add_object(Object::Dictionary(catalog));
    doc.trailer.set("Root", Object::Reference(catalog_id));
    (doc, page_ids)
}

fn labeled(doc: &mut Document, label: &[u8]) -> ObjectId {
    let mut annotation = Dictionary::new();
    annotation.set("Type", Object::Name(b"Annot".to_vec()));
    annotation.set("Subtype", Object::Name(b"Square".to_vec()));
    annotation.set("T", Object::string_literal(label));
    doc.add_object(Object::Dictionary(annotation))
}

fn set_annots(doc: &mut Document, page: ObjectId, annots: Object) {
    doc.get_dictionary_mut(page).unwrap().set("Annots", annots);
}

fn references(ids: &[ObjectId]) -> Object {
    Object::Array(ids.iter().map(|id| Object::Reference(*id)).collect())
}

fn annots_of(doc: &Document, page: ObjectId) -> Object {
    doc.get_dictionary(page).unwrap().get(b"Annots").unwrap().clone()
}

#[test]
fn label_is_found_in_an_array_in_the_page() {
    let (mut doc, pages) = blank_document(2);
    let a = labeled(&mut doc, b"a");
    let b = labeled(&mut doc, b"b");
    set_annots(&mut doc, pages[1], references(&[a, b]));
    assert_eq!(find_annotation_by_label(&doc, "b").unwrap(), Some((b, 2)));
    assert_eq!(find_annotation_by_label(&doc, "a").unwrap(), Some((a, 2)));
}

#[test]
fn label_is_found_in_an_array_that_the_page_refers_to() {
    let (mut doc, pages) = blank_document(3);
    let a = labeled(&mut doc, b"zone");
    let array = doc.add_object(references(&[a]));
    set_annots(&mut doc, pages[2], Object::Reference(array));
    assert_eq!(find_annotation_by_label(&doc, "zone").unwrap(), Some((a, 3)));
}

#[test]
fn label_is_found_through_a_chain_of_references() {
    let (mut doc, pages) = blank_document(1);
    let a = labeled(&mut doc, b"far");
    let array = doc.add_object(references(&[a]));
    let hop = doc.add_object(Object::Reference(array));
    let alias = doc.add_object(Object::Reference(a));
    set_annots(&mut doc, pages[0], Object::Reference(hop));
    assert_eq!(find_annotation_by_label(&doc, "far").unwrap(), Some((a, 1)));
    doc.objects.insert(array, references(&[alias]));
    assert_eq!(find_annotation_by_label(&doc, "far").unwrap(), Some((alias, 1)));
}

#[test]
fn label_that_no_annotation_carries_is_not_found() {
    let (mut doc, pages) = blank_document(2);
    let a = labeled(&mut doc, b"a");
    set_annots(&mut doc, pages[0], references(&[a]));
    assert_eq!(find_annotation_by_label(&doc, "A").unwrap(), None);
    assert_eq!(find_annotation_by_label(&doc, "").unwrap(), None);
    assert_eq!(find_annotation_by_label(&doc, "a ").unwrap(), None);
    let (empty, _) = blank_document(0);
    assert_eq!(find_annotation_by_label(&empty, "a").unwrap(), None);
}

#[test]
fn first_annotation_with_the_label_wins() {
    let (mut doc, pages) = blank_document(3);
    let late = labeled(&mut doc, b"twice");
    let early = labeled(&mut doc, b"twice");
    let other = labeled(&mut doc, b"other");
    set_annots(&mut doc, pages[2], references(&[late]));
    set_annots(&mut doc, pages[1], references(&[other, early, late]));
    assert_eq!(find_annotation_by_label(&doc, "twice").unwrap(), Some((early, 2)));
}

#[test]
fn search_passes_over_what_is_no_labeled_dictionary() {
    let (mut doc, pages) = blank_document(2);
    let wanted = labeled(&mut doc, b"x");
    let number = doc.add_object(Object::Integer(5));
    let named = {
        let mut annotation = Dictionary::new();
        annotation.set("T", Object::Name(b"x".to_vec()));
        doc.add_object(Object::Dictionary(annotation))
    };
    let missing: ObjectId = (4000, 0);
    let mut inline = Dictionary::new();
    inline.set("T", Object::string_literal("x"));
    set_annots(
        &mut doc,
        pages[0],
        Object::Array(vec![
            Object::Dictionary(inline),
            Object::Integer(1),
            Object::Reference(number),
            Object::Reference(named),
            Object::Reference(missing),
        ]),
    );
    set_annots(&mut doc, pages[1], references(&[wanted]));
    assert_eq!(find_annotation_by_label(&doc, "x").unwrap(), Some((wanted, 2)));
}

#[test]
fn search_passes_over_annots_of_another_shape() {
    let (mut doc, pages) = blank_document(3);
    let wanted = labeled(&mut doc, b"x");
    let number = doc.add_object(Object::Integer(5));
    set_annots(&mut doc, pages[0], Object::Integer(7));
    set_annots(&mut doc, pages[1], Object::Reference(number));
    set_annots(&mut doc, pages[2], references(&[wanted]));
    assert_eq!(find_annotation_by_label(&doc, "x").unwrap(), Some((wanted, 3)));
}

#[test]
fn search_fails_where_an_annotation_array_cannot_be_fetched() {
    let (mut doc, pages) = blank_document(2);
    let wanted = labeled(&mut doc, b"x");
    set_annots(&mut doc, pages[0], Object::Reference((9000, 0)));
    set_annots(&mut doc, pages[1], references(&[wanted]));
    assert!(matches!(find_annotation_by_label(&doc, "x"), Err(LibError::Pdf(_))));
    set_annots(&mut doc, pages[0], references(&[wanted]));
    set_annots(&mut doc, pages[1], Object::Reference((9000, 0)));
    assert_eq!(find_annotation_by_label(&doc, "x").unwrap(), Some((wanted, 1)));
}

#[test]
fn search_passes_over_a_page_that_is_a_stream() {
    let (mut doc, pages) = blank_document(2);
    let wanted = labeled(&mut doc, b"x");
    doc.objects.insert(
        pages[0],
        Object::Stream(lopdf::Stream::new(Dictionary::new(), b"q Q".to_vec())),
    );
    set_annots(&mut doc, pages[1], references(&[wanted]));
    assert_eq!(doc.get_pages().len(), 2);
    assert_eq!(find_annotation_by_label(&doc, "x").unwrap(), Some((wanted, 2)));
}

#[test]
fn label_is_compared_after_lenient_decoding() {
    let (mut doc, pages) = blank_document(1);
    let odd = labeled(&mut doc, &[b'a', 0xff]);
    let accented = labeled(&mut doc, "é".as_bytes());
    set_annots(&mut doc, pages[0], references(&[odd, accented]));
    assert_eq!(find_annotation_by_label(&doc, "a\u{fffd}").unwrap(), Some((odd, 1)));
    assert_eq!(find_annotation_by_label(&doc, "é").unwrap(), Some((accented, 1)));
    assert_eq!(find_annotation_by_label(&doc, "a").unwrap(), None);
}

#[test]
fn page_without_annots_gets_a_reference_to_a_new_array() {
    let (mut doc, pages) = blank_document(2);
    let a = labeled(&mut doc, b"a");
    let objects = doc.objects.len();
    add_annotation_to_page(&mut doc, 2, a).unwrap();
    let array = annots_of(&doc, pages[1]).as_reference().unwrap();
    assert_eq!(doc.objects.get(&array).unwrap(), &references(&[a]));
    assert_eq!(doc.objects.len(), objects + 1);
    assert_eq!(array, (doc.max_id, 0));
    assert!(!doc.get_dictionary(pages[0]).unwrap().has(b"Annots"));
}

#[test]
fn array_in_the_page_becomes_an_object_that_the_page_refers_to() {
    let (mut doc, pages) = blank_document(1);
    let a = labeled(&mut doc, b"a");
    let b = labeled(&mut doc, b"b");
    set_annots(&mut doc, pages[0], Object::Array(vec![Object::Reference(a), Object::Integer(3)]));
    let objects = doc.objects.len();
    add_annotation_to_page(&mut doc, 1, b).unwrap();
    let array = annots_of(&doc, pages[0]).as_reference().unwrap();
    assert_eq!(array, (doc.max_id, 0));
    assert_eq!(
        doc.objects.get(&array).unwrap(),
        &Object::Array(vec![Object::Reference(a), Object::Integer(3), Object::Reference(b)])
    );
    assert_eq!(doc.objects.len(), objects + 1);
    let c = labeled(&mut doc, b"c");
    add_annotation_to_page(&mut doc, 1, c).unwrap();
    assert_eq!(annots_of(&doc, pages[0]), Object::Reference(array));
    let items = doc.objects.get(&array).unwrap().as_array().unwrap();
    assert_eq!(items[items.len() - 2..], [Object::Reference(b), Object::Reference(c)]);
}

#[test]
fn annots_are_a_reference_to_an_array_after_every_splice() {
    for shape in 0..4 {
        let (mut doc, pages) = blank_document(1);
        let old = labeled(&mut doc, b"old");
        let number = doc.add_object(Object::Integer(5));
        let array = doc.add_object(references(&[old]));
        match shape {
            0 => {}
            1 => set_annots(&mut doc, pages[0], references(&[old])),
            2 => set_annots(&mut doc, pages[0], Object::Reference(array)),
            _ => set_annots(&mut doc, pages[0], Object::Reference(number)),
        }
        let a = labeled(&mut doc, b"a");
        let b = labeled(&mut doc, b"b");
        add_annotation_to_page(&mut doc, 1, a).unwrap();
        add_annotation_to_page(&mut doc, 1, b).unwrap();
        let id = annots_of(&doc, pages[0]).as_reference().unwrap();
        let items = doc.get_object(id).unwrap().as_array().unwrap();
        assert_eq!(items[items.len() - 2..], [Object::Reference(a), Object::Reference(b)]);
        assert_eq!(items.len(), if shape == 1 || shape == 2 { 3 } else { 2 });
    }
}

#[test]
fn splice_of_an_array_in_the_page_fails_where_the_numbers_are_used_up() {
    let (mut doc, pages) = blank_document(1);
    let a = labeled(&mut doc, b"a");
    set_annots(&mut doc, pages[0], references(&[a]));
    doc.max_id = u32::MAX;
    let before = doc.objects.clone();
    assert!(matches!(add_annotation_to_page(&mut doc, 1, a), Err(LibError::Pdf(_))));
    assert_eq!(doc.objects, before);
}

#[test]
fn array_that_the_page_refers_to_is_replaced_under_its_id() {
    let (mut doc, pages) = blank_document(1);
    let a = labeled(&mut doc, b"a");
    let b = labeled(&mut doc, b"b");
    let array = doc.add_object(references(&[a]));
    set_annots(&mut doc, pages[0], Object::Reference(array));
    add_annotation_to_page(&mut doc, 1, b).unwrap();
    assert_eq!(annots_of(&doc, pages[0]), Object::Reference(array));
    assert_eq!(doc.objects.get(&array).unwrap(), &references(&[a, b]));
}

#[test]
fn reference_to_something_else_gets_a_fresh_array() {
    let (mut doc, pages) = blank_document(1);
    let a = labeled(&mut doc, b"a");
    let number = doc.add_object(Object::Integer(5));
    set_annots(&mut doc, pages[0], Object::Reference(number));
    add_annotation_to_page(&mut doc, 1, a).unwrap();
    assert_eq!(annots_of(&doc, pages[0]), Object::Reference(number));
    assert_eq!(doc.objects.get(&number).unwrap(), &references(&[a]));
}

#[test]
fn two_splices_end_the_array_in_call_order() {
    let (mut doc, pages) = blank_document(1);
    let a = labeled(&mut doc, b"a");
    let b = labeled(&mut doc, b"b");
    add_annotation_to_page(&mut doc, 1, a).unwrap();
    add_annotation_to_page(&mut doc, 1, b).unwrap();
    let array = annots_of(&doc, pages[0]).as_reference().unwrap();
    let items = doc.objects.get(&array).unwrap().as_array().unwrap().clone();
    assert_eq!(items, vec![Object::Reference(a), Object::Reference(b)]);
    let c = labeled(&mut doc, b"c");
    add_annotation_to_page(&mut doc, 1, c).unwrap();
    add_annotation_to_page(&mut doc, 1, a).unwrap();
    let items = doc.objects.get(&array).unwrap().as_array().unwrap().clone();
    assert_eq!(items[items.len() - 2..], [Object::Reference(c), Object::Reference(a)]);
    assert_eq!(items.len(), 4);
}

#[test]
fn splice_on_a_page_that_is_not_there_is_not_found() {
    let (mut doc, _) = blank_document(2);
    let a = labeled(&mut doc, b"a");
    let before = doc.objects.clone();
    for number in [0, 3, u32::MAX] {
        match add_annotation_to_page(&mut doc, number, a) {
            Err(LibError::NotFound(Missing::Page(n))) => assert_eq!(n, number),
            other => panic!("{:?}", other),
        }
    }
    assert_eq!(doc.objects, before);
}

#[test]
fn splice_on_annots_of_another_shape_is_malformed() {
    let (mut doc, pages) = blank_document(1);
    let a = labeled(&mut doc, b"a");
    set_annots(&mut doc, pages[0], Object::Integer(1));
    let before = doc.objects.clone();
    assert!(matches!(
        add_annotation_to_page(&mut doc, 1, a),
        Err(LibError::Malformed(Defect::Annots(1)))
    ));
    assert_eq!(doc.objects, before);
}

#[test]
fn splice_fails_where_the_array_cannot_be_fetched() {
    let (mut doc, pages) = blank_document(1);
    let a = labeled(&mut doc, b"a");
    set_annots(&mut doc, pages[0], Object::Reference((9000, 0)));
    assert!(matches!(add_annotation_to_page(&mut doc, 1, a), Err(LibError::Pdf(_))));
}

#[test]
fn splice_on_a_page_that_is_a_stream_is_malformed() {
    let (mut doc, pages) = blank_document(1);
    let a = labeled(&mut doc, b"a");
    doc.objects.insert(
        pages[0],
        Object::Stream(lopdf::Stream::new(Dictionary::new(), Vec::new())),
    );
    match add_annotation_to_page(&mut doc, 1, a) {
        Err(LibError::Malformed(Defect::NotDictionary(id))) => assert_eq!(id, pages[0]),
        other => panic!("{:?}", other),
    }
}

#[test]
fn splice_fails_where_the_object_numbers_are_used_up() {
    let (mut doc, _) = blank_document(1);
    let a = labeled(&mut doc, b"a");
    doc.max_id = u32::MAX;
    let before = doc.objects.clone();
    assert!(matches!(add_annotation_to_page(&mut doc, 1, a), Err(LibError::Pdf(_))));
    assert_eq!(doc.objects, before);
}

#[test]
fn page_is_looked_up_by_its_number() {
    let pages = vec![(1, (4, 0)), (2, (9, 0)), (3, (5, 1))];
    assert_eq!(page_id_of(&pages, 2), Some((9, 0)));
    assert_eq!(page_id_of(&pages, 3), Some((5, 1)));
    assert_eq!(page_id_of(&pages, 4), None);
    assert_eq!(page_id_of(&Vec::new(), 1), None);
}

#[test]
fn annotation_dictionary_is_copied_out() {
    let (mut doc, _) = blank_document(1);
    let a = labeled(&mut doc, b"a");
    let hop = doc.add_object(Object::Reference(a));
    let number = doc.add_object(Object::Integer(1));
    assert_eq!(&get_annotation_dict(&doc, a).unwrap(), doc.get_dictionary(a).unwrap());
    assert_eq!(&get_annotation_dict(&doc, hop).unwrap(), doc.get_dictionary(a).unwrap());
    match get_annotation_dict(&doc, number) {
        Err(LibError::Malformed(Defect::NotDictionary(id))) => assert_eq!(id, number),
        other => panic!("{:?}", other),
    }
    assert!(matches!(get_annotation_dict(&doc, (7000, 0)), Err(LibError::Pdf(_))));
}

#[test]
fn properties_of_a_labeled_annotation_are_read() {
    let (mut doc, pages) = blank_document(2);
    let mut annotation = Dictionary::new();
    annotation.set("Subtype", Object::Name(b"Square".to_vec()));
    annotation.set("T", Object::string_literal("box_a"));
    annotation.set(
        "Rect",
        Object::Array(vec![
            Object::Integer(100),
            Object::Integer(100),
            Object::Integer(200),
            Object::Integer(150),
        ]),
    );
    annotation.set("C", Object::Array(vec![Object::Real(1.0), Object::Real(0.0), Object::Real(0.0)]));
    annotation.set("IC", Object::Array(vec![Object::Real(3.0), Object::Real(0.0), Object::Real(0.0)]));
    let mut style = Dictionary::new();
    style.set("W", Object::Integer(2));
    annotation.set("BS", Object::Dictionary(style));
    let id = doc.add_object(Object::Dictionary(annotation));
    set_annots(&mut doc, pages[1], references(&[id]));
    let found = get_annotation_properties(&doc, "box_a").unwrap().unwrap();
    assert_eq!(found.page, 2);
    assert_eq!(found.id, id);
    assert_eq!(found.subtype, Some("Square".to_string()));
    assert_eq!(found.label, Some("box_a".to_string()));
    assert_eq!(found.contents, None);
    let rect = found.rect.unwrap();
    assert_eq!(
        [rect.x1.to_bits(), rect.y1.to_bits(), rect.x2.to_bits(), rect.y2.to_bits()],
        [100.0f32, 100.0, 200.0, 150.0].map(f32::to_bits)
    );
    let color = found.color.unwrap();
    assert_eq!(
        [color.r.to_bits(), color.g.to_bits(), color.b.to_bits()],
        [1.0f32, 0.0, 0.0].map(f32::to_bits)
    );
    assert!(found.interior_color.is_none());
    assert_eq!(found.border_style.unwrap().width.to_bits(), 2.0f32.to_bits());
    assert!(get_annotation_properties(&doc, "box_b").unwrap().is_none());
}

#[test]
fn splices_by_the_numbers_of_one_list_come_in_call_order() {
    let (mut doc, pages) = blank_document(2);
    let list = page_list(&doc);
    assert_eq!(list, vec![(1, pages[0]), (2, pages[1])]);
    let a = labeled(&mut doc, b"a");
    let b = labeled(&mut doc, b"b");
    let c = labeled(&mut doc, b"c");
    add_annotation_in_pages(&mut doc, &list, 2, a).unwrap();
    add_annotation_in_pages(&mut doc, &list, 1, c).unwrap();
    add_annotation_in_pages(&mut doc, &list, 2, b).unwrap();
    let id = annots_of(&doc, pages[1]).as_reference().unwrap();
    let items = doc.get_object(id).unwrap().as_array().unwrap();
    assert_eq!(items[..], [Object::Reference(a), Object::Reference(b)]);
    let id = annots_of(&doc, pages[0]).as_reference().unwrap();
    assert_eq!(doc.get_object(id).unwrap().as_array().unwrap()[..], [Object::Reference(c)]);
    let before = doc.objects.clone();
    assert!(matches!(
        add_annotation_in_pages(&mut doc, &list, 3, a),
        Err(LibError::NotFound(Missing::Page(3)))
    ));
    assert!(matches!(
        add_annotation_in_pages(&mut doc, &Vec::new(), 1, a),
        Err(LibError::NotFound(Missing::Page(1)))
    ));
    let swapped = vec![(1, pages[1]), (2, pages[0])];
    add_annotation_in_pages(&mut doc, &swapped, 1, c).unwrap();
    let id = annots_of(&doc, pages[1]).as_reference().unwrap();
    assert_eq!(doc.get_object(id).unwrap().as_array().unwrap().len(), 3);
    assert_eq!(doc.objects.len(), before.len());
}
