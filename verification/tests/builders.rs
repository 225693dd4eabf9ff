use lopdf::{Dictionary, Document, Object, ObjectId, StringFormat};
use pdf_exam_tools_lib::annotation::all_succeeded;
use pdf_exam_tools_lib::annotation_utils::{
    find_annotation_in_pages, is_page_list, page_list,
    extract_border_style_property, extract_color_property, find_annotation_by_label,
    get_annotation_contents, get_annotation_dict, get_annotation_label, get_annotation_rect,
    set_annotation_contents,
};
use pdf_exam_tools_lib::error::{Defect, LibError, Missing};
use pdf_exam_tools_lib::{
    add_labeled_freetext, add_labeled_freetext_in_pages, add_labeled_freetext_multi,
    add_labeled_freetext_multi_in_pages, add_labeled_rect, add_labeled_rect_in_pages,
    add_labeled_rect_multi, add_labeled_rect_multi_in_pages,
    Annotator, AnnotationError, BorderStyle, Color, FontConfig, Real, Rect,
};

fn blank_document(pages: usize) -> (Document, Vec<ObjectId>) {
    let mut doc = Document::with_version("1.5");
    let pages_id = doc.new_object_id();
    let mut page_ids = Vec::new();
    for _ in 0..pages {
        let mut page = Dictionary::new();
        page.set("Type", Object::Name(b"Page".to_vec()));
        page.set("Parent", Object::Reference(pages_id));
        page.set(
            "MediaBox",
            Object::Array(vec![
                Object::Integer(0),
                Object::Integer(0),
                Object::Integer(612),
                Object::Integer(792),
            ]),
        );
        page_ids.push(doc.add_object(Object::Dictionary(page)));
    }
    let mut node = Dictionary::new();
    node.set("Type", Object::Name(b"Pages".to_vec()));
    node.set(
        "Kids",
        Object::Array(page_ids.iter().map(|id| Object::Reference(*id)).collect()),
    );
    node.set("Count", Object::Integer(pages as i64));
    doc.objects.insert(pages_id, Object::Dictionary(node));
    let mut catalog = Dictionary::new();
    catalog.set("Type", Object::Name(b"Catalog".to_vec()));
    catalog.set("Pages", Object::Reference(pages_id));
    let catalog_id = doc.add_object(Object::Dictionary(catalog));
    doc.trailer.set("Root", Object::Reference(catalog_id));
    (doc, page_ids)
}

fn number(value: f32) -> Real {
    Real::from_object(Object::Real(value)).unwrap()
}

fn rect(corners: [f32; 4]) -> Rect {
    Rect { x1: number(corners[0]), y1: number(corners[1]), x2: number(corners[2]), y2: number(corners[3]) }
}

fn color(components: [f32; 3]) -> Color {
    Color { r: number(components[0]), g: number(components[1]), b: number(components[2]) }
}

fn font(size: f32) -> FontConfig {
    FontConfig { size: number(size), family: "Helvetica".to_string(), fallback: None }
}

fn corners(rect: &Rect) -> [f32; 4] {
    [rect.x1.to_bits(), rect.y1.to_bits(), rect.x2.to_bits(), rect.y2.to_bits()].map(f32::from_bits)
}

fn reals(values: &[f32]) -> Object {
    Object::Array(values.iter().map(|v| Object::Real(*v)).collect())
}

fn name(text: &str) -> Object {
    Object::Name(text.as_bytes().to_vec())
}

fn listed(doc: &Document, page: ObjectId) -> Vec<Object> {
    let annots = doc.get_dictionary(page).unwrap().get(b"Annots").unwrap();
    match annots {
        Object::Array(items) => items.clone(),
        Object::Reference(id) => doc.get_object(*id).unwrap().as_array().unwrap().clone(),
        other => panic!("{:?}", other),
    }
}

#[test]
fn free_text_is_added_and_read_back() {
    let (mut doc, pages) = blank_document(1);
    let id = add_labeled_freetext(
        &mut doc,
        1,
        "q1_score",
        "",
        &rect([500.0, 750.0, 580.0, 770.0]),
        &font(12.0),
    )
    .unwrap();
    assert_eq!(find_annotation_by_label(&doc, "q1_score").unwrap(), Some((id, 1)));
    let dict = get_annotation_dict(&doc, id).unwrap();
    assert_eq!(get_annotation_contents(&dict), Some("".to_string()));
    assert_eq!(get_annotation_label(&dict), Some("q1_score".to_string()));
    assert_eq!(corners(&get_annotation_rect(&dict).unwrap()), [500.0, 750.0, 580.0, 770.0]);
    assert_eq!(listed(&doc, pages[0]), vec![Object::Reference(id)]);
}

#[test]
fn templates_are_filled_in_for_each_page() {
    let (mut doc, pages) = blank_document(3);
    let results = add_labeled_freetext_multi(
        &mut doc,
        &[1, 2, 3],
        "filename_p{page}",
        "exam_{page}.pdf",
        &rect([10.0, 780.0, 200.0, 795.0]),
        &font(10.0),
    );
    assert_eq!(results.len(), 3);
    assert!(all_succeeded(&results));
    for (i, result) in results.iter().enumerate() {
        let id = *result.as_ref().unwrap();
        let number = i as u32 + 1;
        let label = format!("filename_p{}", number);
        assert_eq!(find_annotation_by_label(&doc, &label).unwrap(), Some((id, number)));
        let dict = get_annotation_dict(&doc, id).unwrap();
        assert_eq!(get_annotation_label(&dict), Some(label));
        assert_eq!(get_annotation_contents(&dict), Some(format!("exam_{}.pdf", number)));
        assert_eq!(listed(&doc, pages[i]), vec![Object::Reference(id)]);
    }
    assert_eq!(find_annotation_by_label(&doc, "filename_p{page}").unwrap(), None);
    assert_eq!(find_annotation_by_label(&doc, "filename_p4").unwrap(), None);
}

#[test]
fn contents_are_set_and_then_read() {
    let (mut doc, _) = blank_document(1);
    add_labeled_freetext(&mut doc, 1, "q1_score", "", &rect([500.0, 750.0, 580.0, 770.0]), &font(12.0))
        .unwrap();
    let (id, _) = find_annotation_by_label(&doc, "q1_score").unwrap().unwrap();
    let mut dict = get_annotation_dict(&doc, id).unwrap();
    dict.set("AP", Object::Dictionary(Dictionary::new()));
    dict.set("RC", Object::string_literal("<p/>"));
    set_annotation_contents(&mut dict, "7/10");
    doc.objects.insert(id, Object::Dictionary(dict));
    let dict = get_annotation_dict(&doc, id).unwrap();
    assert_eq!(get_annotation_contents(&dict), Some("7/10".to_string()));
    assert!(!dict.has(b"AP"));
    assert!(!dict.has(b"RC"));
    assert_eq!(find_annotation_by_label(&doc, "q1_score").unwrap(), Some((id, 1)));
}

#[test]
fn free_text_annotation_has_the_canonical_fields() {
    let (mut doc, _) = blank_document(1);
    let id = add_labeled_freetext(&mut doc, 1, "L", "text", &rect([1.0, 2.0, 3.5, 4.0]), &font(12.0))
        .unwrap();
    let dict = doc.get_dictionary(id).unwrap();
    assert_eq!(dict.get(b"Type").unwrap(), &name("Annot"));
    assert_eq!(dict.get(b"Subtype").unwrap(), &name("FreeText"));
    assert_eq!(dict.get(b"T").unwrap(), &Object::String(b"L".to_vec(), StringFormat::Literal));
    assert_eq!(
        dict.get(b"Contents").unwrap(),
        &Object::String(b"text".to_vec(), StringFormat::Literal)
    );
    assert_eq!(dict.get(b"Rect").unwrap(), &reals(&[1.0, 2.0, 3.5, 4.0]));
    assert_eq!(dict.get(b"F").unwrap(), &Object::Integer(4));
    assert_eq!(
        dict.get(b"Border").unwrap(),
        &Object::Array(vec![Object::Integer(0), Object::Integer(0), Object::Integer(0)])
    );
    assert_eq!(
        dict.get(b"DA").unwrap(),
        &Object::String(b"/Helvetica 12 Tf 0 0 0 rg".to_vec(), StringFormat::Literal)
    );
    assert!(!dict.has(b"AP"));
    assert_eq!(dict.len(), 9);
    let helvetica = dict
        .get(b"DR")
        .unwrap()
        .as_dict()
        .unwrap()
        .get(b"Font")
        .unwrap()
        .as_dict()
        .unwrap()
        .get(b"Helvetica")
        .unwrap()
        .as_dict()
        .unwrap();
    assert_eq!(helvetica.get(b"Type").unwrap(), &name("Font"));
    assert_eq!(helvetica.get(b"Subtype").unwrap(), &name("Type1"));
    assert_eq!(helvetica.get(b"BaseFont").unwrap(), &name("Helvetica"));
    assert_eq!(helvetica.get(b"Encoding").unwrap(), &name("WinAnsiEncoding"));
    assert_eq!(helvetica.get(b"Name").unwrap(), &name("Helvetica"));
    assert_eq!(helvetica.len(), 5);
}

#[test]
fn default_appearance_has_single_spaces_for_every_size() {
    for (size, expected) in [
        (12.0f32, "/Helvetica 12 Tf 0 0 0 rg"),
        (10.5, "/Helvetica 10.5 Tf 0 0 0 rg"),
        (0.25, "/Helvetica 0.25 Tf 0 0 0 rg"),
        (72.0, "/Helvetica 72 Tf 0 0 0 rg"),
    ] {
        let (mut doc, _) = blank_document(1);
        let id = add_labeled_freetext(&mut doc, 1, "L", "", &rect([0.0; 4]), &font(size)).unwrap();
        let appearance = doc.get_dictionary(id).unwrap().get(b"DA").unwrap().as_str().unwrap();
        assert_eq!(appearance, expected.as_bytes());
        let text = std::str::from_utf8(appearance).unwrap();
        assert_eq!(text.trim(), text);
        assert!(!text.contains("  "));
        assert_eq!(text.split(' ').count(), 7);
    }
}

#[test]
fn rect_fidelity_for_reals_of_every_kind() {
    for given in [
        [500.0f32, 750.0, 580.0, 770.0],
        [0.1, 0.2, 0.3, 1e-6],
        [-5.5, f32::MAX, f32::MIN_POSITIVE, -0.0],
        [200.0, 150.0, 100.0, 100.0],
    ] {
        let (mut doc, _) = blank_document(1);
        let text = add_labeled_freetext(&mut doc, 1, "t", "", &rect(given), &font(12.0)).unwrap();
        let square = add_labeled_rect(&mut doc, 1, "s", &rect(given), &None, &None, &None).unwrap();
        for id in [text, square] {
            let read = get_annotation_rect(doc.get_dictionary(id).unwrap()).unwrap();
            assert_eq!(corners(&read).map(f32::to_bits), given.map(f32::to_bits));
        }
    }
}

#[test]
fn square_annotation_has_the_fields_that_are_given() {
    let (mut doc, pages) = blank_document(1);
    let id = add_labeled_rect(
        &mut doc,
        1,
        "box_a",
        &rect([100.0, 100.0, 200.0, 150.0]),
        &Some(color([1.0, 0.0, 0.0])),
        &Some(color([1.0, 1.0, 0.0])),
        &Some(BorderStyle { width: number(2.0) }),
    )
    .unwrap();
    let dict = doc.get_dictionary(id).unwrap();
    assert_eq!(dict.get(b"Type").unwrap(), &name("Annot"));
    assert_eq!(dict.get(b"Subtype").unwrap(), &name("Square"));
    assert_eq!(dict.get(b"T").unwrap(), &Object::String(b"box_a".to_vec(), StringFormat::Literal));
    assert_eq!(dict.get(b"Rect").unwrap(), &reals(&[100.0, 100.0, 200.0, 150.0]));
    assert_eq!(dict.get(b"F").unwrap(), &Object::Integer(4));
    assert_eq!(dict.get(b"C").unwrap(), &reals(&[1.0, 0.0, 0.0]));
    assert_eq!(dict.get(b"IC").unwrap(), &reals(&[1.0, 1.0, 0.0]));
    let style = dict.get(b"BS").unwrap().as_dict().unwrap();
    assert_eq!(style.get(b"W").unwrap(), &Object::Real(2.0));
    assert_eq!(style.get(b"S").unwrap(), &name("S"));
    assert_eq!(style.len(), 2);
    assert_eq!(dict.len(), 8);
    assert!(!dict.has(b"Contents") && !dict.has(b"DA") && !dict.has(b"AP"));
    assert_eq!(listed(&doc, pages[0]), vec![Object::Reference(id)]);
    assert_eq!(find_annotation_by_label(&doc, "box_a").unwrap(), Some((id, 1)));
}

#[test]
fn square_annotation_without_style_has_the_frame_only() {
    let (mut doc, _) = blank_document(1);
    let id = add_labeled_rect(&mut doc, 1, "bare", &rect([1.0, 1.0, 2.0, 2.0]), &None, &None, &None)
        .unwrap();
    let dict = doc.get_dictionary(id).unwrap();
    assert_eq!(dict.len(), 5);
    assert!(extract_color_property(dict, b"C").is_none());
    assert!(extract_color_property(dict, b"IC").is_none());
    assert!(extract_border_style_property(dict).is_none());
    let id = add_labeled_rect(
        &mut doc,
        1,
        "fill",
        &rect([1.0, 1.0, 2.0, 2.0]),
        &None,
        &Some(color([0.0, 0.5, 1.0])),
        &None,
    )
    .unwrap();
    let dict = doc.get_dictionary(id).unwrap();
    assert_eq!(dict.len(), 6);
    assert_eq!(dict.get(b"IC").unwrap(), &reals(&[0.0, 0.5, 1.0]));
    assert!(!dict.has(b"C") && !dict.has(b"BS"));
}

#[test]
fn builder_leaves_the_document_alone_where_the_page_is_missing() {
    let (mut doc, _) = blank_document(2);
    let before = doc.objects.clone();
    let max_id = doc.max_id;
    match add_labeled_freetext(&mut doc, 3, "L", "", &rect([0.0; 4]), &font(12.0)) {
        Err(LibError::NotFound(Missing::Page(3))) => {}
        other => panic!("{:?}", other),
    }
    match add_labeled_rect(&mut doc, 0, "L", &rect([0.0; 4]), &None, &None, &None) {
        Err(LibError::NotFound(Missing::Page(0))) => {}
        other => panic!("{:?}", other),
    }
    assert_eq!(doc.objects, before);
    assert_eq!(doc.max_id, max_id);
}

#[test]
fn builder_fails_where_the_object_numbers_are_used_up() {
    let (mut doc, _) = blank_document(1);
    doc.max_id = u32::MAX;
    let before = doc.objects.clone();
    assert!(matches!(
        add_labeled_freetext(&mut doc, 1, "L", "", &rect([0.0; 4]), &font(12.0)),
        Err(LibError::Pdf(_))
    ));
    assert_eq!(doc.objects, before);
}

#[test]
fn builders_list_annotations_in_call_order() {
    let (mut doc, pages) = blank_document(2);
    let a = add_labeled_freetext(&mut doc, 2, "a", "", &rect([0.0; 4]), &font(12.0)).unwrap();
    let b = add_labeled_rect(&mut doc, 2, "b", &rect([0.0; 4]), &None, &None, &None).unwrap();
    let c = add_labeled_freetext(&mut doc, 2, "c", "", &rect([0.0; 4]), &font(12.0)).unwrap();
    assert_eq!(
        listed(&doc, pages[1]),
        vec![Object::Reference(a), Object::Reference(b), Object::Reference(c)]
    );
    assert!(doc.get_dictionary(pages[1]).unwrap().get(b"Annots").unwrap().as_reference().is_ok());
    assert!(!doc.get_dictionary(pages[0]).unwrap().has(b"Annots"));
}

#[test]
fn batch_goes_on_after_a_page_that_fails() {
    let (mut doc, pages) = blank_document(2);
    let results = add_labeled_rect_multi(
        &mut doc,
        &[2, 9, 1, 2],
        "zone_{page}_{p0}",
        &rect([1.0, 2.0, 3.0, 4.0]),
        &Some(color([0.0, 0.0, 1.0])),
        &None,
        &None,
    );
    assert_eq!(results.len(), 4);
    assert!(!all_succeeded(&results));
    assert!(matches!(results[1], Err(LibError::NotFound(Missing::Page(9)))));
    let first = *results[0].as_ref().unwrap();
    let third = *results[2].as_ref().unwrap();
    let fourth = *results[3].as_ref().unwrap();
    assert_eq!(find_annotation_by_label(&doc, "zone_2_1").unwrap(), Some((first, 2)));
    assert_eq!(find_annotation_by_label(&doc, "zone_1_0").unwrap(), Some((third, 1)));
    assert_eq!(listed(&doc, pages[1]), vec![Object::Reference(first), Object::Reference(fourth)]);
    assert_eq!(find_annotation_by_label(&doc, "zone_9_8").unwrap(), None);
}

#[test]
fn batch_over_no_pages_does_nothing() {
    let (mut doc, _) = blank_document(1);
    let before = doc.objects.clone();
    let results =
        add_labeled_freetext_multi(&mut doc, &[], "a{page}", "b", &rect([0.0; 4]), &font(12.0));
    assert!(results.is_empty());
    assert!(all_succeeded(&results));
    assert_eq!(doc.objects, before);
}

#[test]
fn annotator_takes_the_first_font_that_is_there() {
    let config = || FontConfig {
        size: number(12.0),
        family: "Helvetica".to_string(),
        fallback: Some("Arial".to_string()),
    };
    let annotator = Annotator::new(config(), Some(vec![1, 2]), Some(vec![3])).unwrap();
    assert_eq!(annotator.font_data(), &vec![1, 2]);
    assert_eq!(annotator.font_config().family, "Helvetica");
    let annotator = Annotator::new(config(), None, Some(vec![3])).unwrap();
    assert_eq!(annotator.font_data(), &vec![3]);
    match Annotator::new(config(), None, None) {
        Err(AnnotationError::FontError(family)) => assert_eq!(family, "Helvetica"),
        _ => panic!("a font error was expected"),
    }
    assert!(matches!(
        Annotator::new(font(12.0), None, Some(vec![3])),
        Err(AnnotationError::FontError(_))
    ));
}

#[test]
fn text_stamp_joins_the_annotations_of_the_page() {
    let annotator = Annotator::new(font(10.0), Some(Vec::new()), None).unwrap();
    let (mut doc, pages) = blank_document(3);
    let array = doc.add_object(Object::Array(vec![Object::Integer(1)]));
    doc.get_dictionary_mut(pages[1]).unwrap().set("Annots", Object::Reference(array));
    doc.get_dictionary_mut(pages[2]).unwrap().set("Annots", Object::Array(vec![Object::Null]));
    for page in &pages {
        annotator.add_text_annotation(&mut doc, *page, "exam.pdf", &rect([1.0, 2.0, 3.0, 4.0])).unwrap();
    }
    let first = listed(&doc, pages[0]);
    assert_eq!(first.len(), 1);
    for page in &pages {
        assert!(doc.get_dictionary(*page).unwrap().get(b"Annots").unwrap().as_reference().is_ok());
    }
    let stamp = doc.get_dictionary(first[0].as_reference().unwrap()).unwrap();
    assert_eq!(stamp.get(b"Subtype").unwrap(), &name("FreeText"));
    assert_eq!(stamp.get(b"Contents").unwrap(), &Object::string_literal("exam.pdf"));
    assert_eq!(stamp.get(b"Rect").unwrap(), &reals(&[1.0, 2.0, 3.0, 4.0]));
    assert_eq!(stamp.get(b"DA").unwrap(), &Object::string_literal("/Helvetica 10 Tf 0 0 0 rg"));
    assert_eq!(stamp.get(b"F").unwrap(), &Object::Integer(4));
    assert!(stamp.has(b"DR") && stamp.has(b"Border") && !stamp.has(b"AP") && !stamp.has(b"T"));
    assert_eq!(stamp.len(), 8);
    let second = doc.objects.get(&array).unwrap().as_array().unwrap();
    assert_eq!(second.len(), 2);
    assert_eq!(second[0], Object::Integer(1));
    assert!(second[1].as_reference().is_ok());
    assert_eq!(doc.get_dictionary(pages[1]).unwrap().get(b"Annots").unwrap(), &Object::Reference(array));
    let third = listed(&doc, pages[2]);
    assert_eq!(third.len(), 2);
    assert_eq!(third[0], Object::Null);
}

#[test]
fn text_stamp_fails_on_a_page_that_is_no_dictionary() {
    let annotator = Annotator::new(font(10.0), Some(Vec::new()), None).unwrap();
    let (mut doc, pages) = blank_document(1);
    let number = doc.add_object(Object::Integer(1));
    let before = doc.objects.clone();
    assert!(matches!(
        annotator.add_text_annotation(&mut doc, number, "x", &rect([0.0; 4])),
        Err(AnnotationError::ContentStreamError(_))
    ));
    let missing = (doc.max_id + 1, 0);
    assert!(matches!(
        annotator.add_text_annotation(&mut doc, missing, "x", &rect([0.0; 4])),
        Err(AnnotationError::ContentStreamError(_))
    ));
    assert_eq!(doc.objects, before);
    doc.max_id = u32::MAX;
    assert!(matches!(
        annotator.add_text_annotation(&mut doc, number, "x", &rect([0.0; 4])),
        Err(AnnotationError::ContentStreamError(_))
    ));
    assert!(matches!(
        annotator.add_text_annotation(&mut doc, pages[0], "x", &rect([0.0; 4])),
        Err(AnnotationError::PdfError(_))
    ));
    assert_eq!(doc.objects, before);
}

#[test]
fn free_text_added_to_listed_pages_is_found_among_them() {
    let (mut doc, pages) = blank_document(1);
    let list = page_list(&doc);
    assert_eq!(list, vec![(1, pages[0])]);
    let id = add_labeled_freetext_in_pages(
        &mut doc,
        &list,
        1,
        "q1_score",
        "",
        &rect([500.0, 750.0, 580.0, 770.0]),
        &font(12.0),
    )
    .unwrap();
    assert_eq!(find_annotation_in_pages(&doc, &list, "q1_score").unwrap(), Some((id, 1)));
    assert_eq!(page_list(&doc), list);
    assert!(is_page_list(&doc, &list));
    assert!(!is_page_list(&doc, &Vec::new()));
    assert!(!is_page_list(&doc, &vec![(2, list[0].1)]));
    assert!(!is_page_list(&doc, &vec![(1, (list[0].1 .0 + 1, 0))]));
    assert_eq!(find_annotation_by_label(&doc, "q1_score").unwrap(), Some((id, 1)));
    let dict = get_annotation_dict(&doc, id).unwrap();
    assert_eq!(get_annotation_contents(&dict), Some("".to_string()));
    assert_eq!(corners(&get_annotation_rect(&dict).unwrap()), [500.0, 750.0, 580.0, 770.0]);
    assert_eq!(find_annotation_in_pages(&doc, &Vec::new(), "q1_score").unwrap(), None);
}

#[test]
fn templates_are_filled_in_for_each_listed_page() {
    let (mut doc, _) = blank_document(3);
    let list = page_list(&doc);
    let results = add_labeled_freetext_multi_in_pages(
        &mut doc,
        &list,
        &[1, 2, 3],
        "filename_p{page}",
        "exam_{page}.pdf",
        &rect([10.0, 780.0, 200.0, 795.0]),
        &font(10.0),
    );
    assert!(all_succeeded(&results));
    for (i, result) in results.iter().enumerate() {
        let number = i as u32 + 1;
        let label = format!("filename_p{}", number);
        let id = *result.as_ref().unwrap();
        assert_eq!(find_annotation_in_pages(&doc, &list, &label).unwrap(), Some((id, number)));
        let dict = get_annotation_dict(&doc, id).unwrap();
        assert_eq!(get_annotation_contents(&dict), Some(format!("exam_{}.pdf", number)));
    }
    assert_eq!(find_annotation_in_pages(&doc, &list, "filename_p{page}").unwrap(), None);
    let annotations: usize = list.iter().map(|(_, page)| listed(&doc, *page).len()).sum();
    assert_eq!(annotations, 3);
}

#[test]
fn squares_are_added_to_the_pages_of_a_list() {
    let (mut doc, pages) = blank_document(2);
    let swapped = vec![(1, pages[1]), (2, pages[0])];
    let id = add_labeled_rect_in_pages(&mut doc, &swapped, 1, "s", &rect([0.0; 4]), &None, &None, &None)
        .unwrap();
    assert_eq!(listed(&doc, pages[1]), vec![Object::Reference(id)]);
    assert_eq!(find_annotation_in_pages(&doc, &swapped, "s").unwrap(), Some((id, 1)));
    assert_eq!(find_annotation_by_label(&doc, "s").unwrap(), Some((id, 2)));
    let results = add_labeled_rect_multi_in_pages(
        &mut doc,
        &swapped,
        &[2, 3],
        "m{page}",
        &rect([0.0; 4]),
        &None,
        &None,
        &None,
    );
    assert!(matches!(results[1], Err(LibError::NotFound(Missing::Page(3)))));
    let second = *results[0].as_ref().unwrap();
    assert_eq!(listed(&doc, pages[0]), vec![Object::Reference(second)]);
    assert!(matches!(
        add_labeled_rect_in_pages(&mut doc, &Vec::new(), 1, "s", &rect([0.0; 4]), &None, &None, &None),
        Err(LibError::NotFound(Missing::Page(1)))
    ));
}

#[test]
fn labels_put_in_turn_are_each_found_on_their_page() {
    let (mut doc, _) = blank_document(3);
    let list = page_list(&doc);
    let area = rect([10.0, 20.0, 110.0, 40.0]);
    assert_eq!(find_annotation_in_pages(&doc, &list, "first").unwrap(), None);
    assert_eq!(find_annotation_in_pages(&doc, &list, "second").unwrap(), None);
    let first = add_labeled_freetext_in_pages(&mut doc, &list, 2, "first", "a", &area, &font(12.0))
        .unwrap();
    assert_eq!(find_annotation_in_pages(&doc, &list, "first").unwrap(), Some((first, 2)));
    assert_eq!(find_annotation_in_pages(&doc, &list, "second").unwrap(), None);
    let second = add_labeled_rect_in_pages(&mut doc, &list, 2, "second", &area, &None, &None, &None)
        .unwrap();
    let third = add_labeled_freetext_in_pages(&mut doc, &list, 1, "third", "c", &area, &font(12.0))
        .unwrap();
    assert_eq!(find_annotation_in_pages(&doc, &list, "first").unwrap(), Some((first, 2)));
    assert_eq!(find_annotation_in_pages(&doc, &list, "second").unwrap(), Some((second, 2)));
    assert_eq!(find_annotation_in_pages(&doc, &list, "third").unwrap(), Some((third, 1)));
    assert!(is_page_list(&doc, &list));
}

#[test]
fn annotation_is_not_added_where_the_page_cannot_list_it() {
    let (mut doc, pages) = blank_document(1);
    let list = page_list(&doc);
    let next = (doc.max_id + 1, 0);
    doc.get_dictionary_mut(pages[0]).unwrap().set("Annots", Object::Reference(next));
    let before = doc.objects.clone();
    let max_id = doc.max_id;
    let area = rect([10.0, 20.0, 110.0, 40.0]);
    assert!(matches!(
        add_labeled_freetext_in_pages(&mut doc, &list, 1, "a", "b", &area, &font(12.0)),
        Err(LibError::Pdf(_))
    ));
    assert!(matches!(
        add_labeled_freetext(&mut doc, 1, "a", "b", &area, &font(12.0)),
        Err(LibError::Pdf(_))
    ));
    assert!(matches!(
        add_labeled_rect_in_pages(&mut doc, &list, 1, "a", &area, &None, &None, &None),
        Err(LibError::Pdf(_))
    ));
    assert_eq!(doc.objects, before);
    assert_eq!(doc.max_id, max_id);

    doc.get_dictionary_mut(pages[0]).unwrap().set("Annots", Object::Integer(3));
    let before = doc.objects.clone();
    assert!(matches!(
        add_labeled_freetext_in_pages(&mut doc, &list, 1, "a", "b", &area, &font(12.0)),
        Err(LibError::Malformed(Defect::Annots(1)))
    ));
    assert_eq!(doc.objects, before);
    assert_eq!(doc.max_id, max_id);
}
