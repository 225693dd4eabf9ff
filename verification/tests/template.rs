use lopdf::{Dictionary, Document, Object, ObjectId, StringFormat};
use pdf_exam_tools_lib::error::{Defect, LibError, Missing};
use pdf_exam_tools_lib::pdf_utils::{
    apply_annotations, create_annotation_object, extract_annotation_data, extract_annotations,
    PdfAnnotation,
};
use pdf_exam_tools_lib::{Real, Rect};

fn blank_document(pages: usize) -> (Document, Vec<ObjectId>) {
    let mut doc = Document::with_version("1.5");
    let pages_id = doc.new_object_id();
    let mut page_ids = Vec::new();
    for _ in 0..pages {
        let mut page = Dictionary::new();
        page.set("Type", Object::Name(b"Page".to_vec()));
        page.set("Parent", Object::Reference(pages_id));
        page_ids.push(doc.add_object(Object::Dictionary(page)));
    }
    let mut node = Dictionary::new();
    node.set("Type", Object::Name(b"Pages".to_vec()));
    node.set(
        "Kids",
        Object::Array(page_ids.iter().map(|id| Object::Reference(*id)).collect()),
    );
    node.set("Count", Object::Integer(pages as i64));
    doc.objects.insert(pages_id, Object::Dictionary(node));
    let mut catalog = Dictionary::new();
    catalog.set("Type", Object::Name(b"Catalog".to_vec()));
    catalog.set("Pages", Object::Reference(pages_id));
    let catalog_id = doc.add_object(Object::Dictionary(catalog));
    doc.trailer.set("Root", Object::Reference(catalog_id));
    (doc, page_ids)
}

fn name(text: &str) -> Object {
    Object::Name(text.as_bytes().to_vec())
}

fn reals(values: &[f32]) -> Object {
    Object::Array(values.iter().map(|v| Object::Real(*v)).collect())
}

fn numbers(list: &Option<Vec<Real>>) -> Option<Vec<f32>> {
    list.as_ref().map(|list| list.iter().map(|n| f32::from_bits(n.to_bits())).collect())
}

fn corners(rect: &Rect) -> [f32; 4] {
    [rect.x1.to_bits(), rect.y1.to_bits(), rect.x2.to_bits(), rect.y2.to_bits()].map(f32::from_bits)
}

fn square() -> Dictionary {
    let mut dict = Dictionary::new();
    dict.set("Type", name("Annot"));
    dict.set("Subtype", name("Square"));
    dict.set(
        "Rect",
        Object::Array(vec![Object::Integer(10), Object::Real(20.5), name("x"), Object::Integer(40)]),
    );
    dict.set(
        "C",
        Object::Array(vec![Object::Integer(1), Object::Null, Object::Real(0.5), Object::Real(2.0)]),
    );
    dict.set("IC", reals(&[0.0, 1.0, 0.0]));
    dict.set(
        "Border",
        Object::Array(vec![Object::Integer(0), name("n"), Object::Real(1.5), Object::Array(vec![])]),
    );
    let mut style = Dictionary::new();
    style.set("W", Object::Integer(3));
    style.set("S", name("D"));
    dict.set("BS", Object::Dictionary(style));
    dict.set("F", Object::Integer(6));
    dict.set("T", Object::string_literal("marker"));
    dict.set("M", Object::string_literal("D:2025"));
    dict.set("Contents", Object::string_literal("A"));
    let mut appearance = Dictionary::new();
    appearance.set("N", Object::Reference((70, 0)));
    dict.set("AP", Object::Dictionary(appearance));
    dict.set("DA", Object::string_literal("/Helv 9 Tf"));
    dict.set("Q", Object::Integer(1));
    dict
}

fn taken(dict: &Dictionary) -> PdfAnnotation {
    extract_annotation_data(dict, Some((5, 0))).unwrap()
}

#[test]
fn data_of_a_square_is_taken() {
    let annotation = taken(&square());
    assert_eq!(annotation.annotation_type, "Square");
    assert_eq!(corners(&annotation.rect), [10.0, 20.5, 0.0, 40.0]);
    assert_eq!(annotation.object_id, Some((5, 0)));
    assert_eq!(numbers(&annotation.color), Some(vec![1.0, 0.5, 2.0]));
    assert_eq!(numbers(&annotation.fill_color), Some(vec![0.0, 1.0, 0.0]));
    let border: Vec<Option<f32>> = annotation
        .border
        .unwrap()
        .iter()
        .map(|e| e.as_ref().map(|n| f32::from_bits(n.to_bits())))
        .collect();
    assert_eq!(border, vec![Some(0.0), None, Some(1.5), None]);
    let style = annotation.border_style.unwrap();
    assert_eq!(f32::from_bits(style.width.unwrap().to_bits()), 3.0);
    assert_eq!(style.style, Some("D".to_string()));
    assert_eq!(annotation.print_flag, Some(true));
    assert_eq!(annotation.author, Some("marker".to_string()));
    assert_eq!(annotation.modified_date, Some("D:2025".to_string()));
    assert_eq!(annotation.contents, Some("A".to_string()));
    assert!(annotation.has_appearance);
    assert_eq!(annotation.appearance_ref, Some((70, 0)));
    assert_eq!(annotation.da_string, None);
    assert_eq!(annotation.text_alignment, None);
}

#[test]
fn data_of_free_text_has_appearance_string_and_alignment() {
    let mut dict = square();
    dict.set("Subtype", name("FreeText"));
    dict.set("F", Object::Integer(3));
    dict.remove(b"AP");
    dict.remove(b"BS");
    dict.remove(b"Border");
    let annotation = extract_annotation_data(&dict, None).unwrap();
    assert_eq!(annotation.annotation_type, "FreeText");
    assert_eq!(annotation.object_id, None);
    assert_eq!(annotation.da_string, Some("/Helv 9 Tf".to_string()));
    assert_eq!(annotation.text_alignment, Some(1));
    assert!(annotation.fill_color.is_none());
    assert_eq!(annotation.print_flag, Some(false));
    assert!(!annotation.has_appearance);
    assert!(annotation.appearance_ref.is_none());
    assert!(annotation.border.is_none() && annotation.border_style.is_none());
}

#[test]
fn data_of_a_bare_annotation_has_no_more_than_is_there() {
    let mut dict = Dictionary::new();
    dict.set("Subtype", name("Circle"));
    dict.set("Rect", reals(&[1.0, 2.0, 3.0, 4.0]));
    dict.set("C", Object::Integer(1));
    dict.set("F", Object::Real(4.0));
    dict.set("AP", Object::Dictionary(Dictionary::new()));
    dict.set("BS", Object::Dictionary(Dictionary::new()));
    let annotation = extract_annotation_data(&dict, None).unwrap();
    assert!(annotation.color.is_none() && annotation.fill_color.is_none());
    assert!(annotation.print_flag.is_none());
    assert!(annotation.has_appearance && annotation.appearance_ref.is_none());
    let style = annotation.border_style.unwrap();
    assert!(style.width.is_none() && style.style.is_none());
    assert!(annotation.author.is_none() && annotation.contents.is_none());
}

#[test]
fn annotation_without_type_or_rectangle_is_not_taken() {
    let mut dict = square();
    dict.set("Subtype", Object::string_literal("Square"));
    assert!(extract_annotation_data(&dict, None).is_none());
    let mut dict = square();
    dict.remove(b"Subtype");
    assert!(extract_annotation_data(&dict, None).is_none());
    for rect in [reals(&[1.0, 2.0, 3.0]), reals(&[1.0; 5]), Object::Integer(1)] {
        let mut dict = square();
        dict.set("Rect", rect);
        assert!(extract_annotation_data(&dict, None).is_none());
    }
    let mut dict = square();
    dict.remove(b"Rect");
    assert!(extract_annotation_data(&dict, None).is_none());
}

#[test]
fn copy_of_a_square_has_its_properties() {
    let (mut doc, _) = blank_document(1);
    let id = create_annotation_object(&mut doc, &taken(&square()), true).unwrap();
    assert_eq!(id, (doc.max_id, 0));
    let copy = doc.get_dictionary(id).unwrap();
    assert_eq!(copy.get(b"Type").unwrap(), &name("Annot"));
    assert_eq!(copy.get(b"Subtype").unwrap(), &name("Square"));
    assert_eq!(copy.get(b"Rect").unwrap(), &reals(&[10.0, 20.5, 0.0, 40.0]));
    assert_eq!(copy.get(b"F").unwrap(), &Object::Integer(4));
    assert_eq!(
        copy.get(b"Border").unwrap(),
        &Object::Array(vec![
            Object::Real(0.0),
            Object::Integer(0),
            Object::Real(1.5),
            Object::Integer(0)
        ])
    );
    let style = copy.get(b"BS").unwrap().as_dict().unwrap();
    assert_eq!(style.get(b"W").unwrap(), &Object::Real(3.0));
    assert_eq!(style.get(b"S").unwrap(), &name("D"));
    assert_eq!(copy.get(b"T").unwrap(), &Object::String(b"marker".to_vec(), StringFormat::Literal));
    assert_eq!(copy.get(b"M").unwrap(), &Object::string_literal("D:2025"));
    assert_eq!(copy.get(b"Contents").unwrap(), &Object::string_literal("A"));
    assert_eq!(copy.get(b"C").unwrap(), &reals(&[1.0, 0.5, 2.0]));
    assert_eq!(copy.get(b"IC").unwrap(), &reals(&[0.0, 1.0, 0.0]));
    assert!(!copy.has(b"AP") && !copy.has(b"DA") && !copy.has(b"Q"));
    assert_eq!(copy.len(), 11);
}

#[test]
fn copy_of_free_text_has_appearance_string_and_alignment() {
    let mut dict = square();
    dict.set("Subtype", name("FreeText"));
    dict.set("F", Object::Integer(2));
    dict.set("Border", reals(&[0.0, 0.0]));
    dict.set("C", Object::Array(vec![name("red")]));
    let mut style = Dictionary::new();
    style.set("W", name("thin"));
    dict.set("BS", Object::Dictionary(style));
    let (mut doc, _) = blank_document(1);
    let id = create_annotation_object(&mut doc, &taken(&dict), false).unwrap();
    let copy = doc.get_dictionary(id).unwrap();
    assert_eq!(copy.get(b"F").unwrap(), &Object::Integer(0));
    assert_eq!(copy.get(b"DA").unwrap(), &Object::string_literal("/Helv 9 Tf"));
    assert_eq!(copy.get(b"Q").unwrap(), &Object::Integer(1));
    assert!(!copy.has(b"Border") && !copy.has(b"C") && !copy.has(b"IC"));
    let style = copy.get(b"BS").unwrap().as_dict().unwrap();
    assert!(!style.has(b"W"));
    assert_eq!(style.get(b"S").unwrap(), &name("S"));
}

#[test]
fn copy_of_another_type_has_the_common_properties_only() {
    let mut dict = square();
    dict.set("Subtype", name("Line"));
    dict.remove(b"F");
    let (mut doc, _) = blank_document(1);
    let id = create_annotation_object(&mut doc, &taken(&dict), false).unwrap();
    let copy = doc.get_dictionary(id).unwrap();
    assert_eq!(copy.get(b"Subtype").unwrap(), &name("Line"));
    assert_eq!(copy.get(b"F").unwrap(), &Object::Integer(4));
    assert!(copy.has(b"C") && !copy.has(b"IC") && !copy.has(b"DA") && !copy.has(b"Q"));
    doc.max_id = u32::MAX;
    assert!(matches!(
        create_annotation_object(&mut doc, &taken(&dict), false),
        Err(LibError::Pdf(_))
    ));
}

#[test]
fn annotations_of_the_first_page_are_taken_in_order() {
    let (mut doc, pages) = blank_document(2);
    let first = doc.add_object(Object::Dictionary(square()));
    let mut circle = square();
    circle.set("Subtype", name("Circle"));
    let second = doc.add_object(Object::Dictionary(circle));
    let mut text = square();
    text.set("Subtype", name("FreeText"));
    let number = doc.add_object(Object::Integer(1));
    let mut broken = square();
    broken.remove(b"Rect");
    let third = doc.add_object(Object::Dictionary(broken));
    let items = Object::Array(vec![
        Object::Reference(first),
        Object::Null,
        Object::Reference(number),
        Object::Dictionary(text),
        Object::Reference((9000, 0)),
        Object::Reference(third),
        Object::Reference(second),
    ]);
    doc.get_dictionary_mut(pages[0]).unwrap().set("Annots", items.clone());
    doc.get_dictionary_mut(pages[1]).unwrap().set("Annots", Object::Array(vec![Object::Reference(first)]));
    let all = extract_annotations(&doc, None).unwrap();
    let kinds: Vec<&str> = all.iter().map(|a| a.annotation_type.as_str()).collect();
    assert_eq!(kinds, vec!["Square", "FreeText", "Circle"]);
    assert_eq!(all[0].object_id, Some(first));
    assert_eq!(all[1].object_id, None);
    assert_eq!(all[2].object_id, Some(second));
    let marks = extract_annotations(&doc, Some(&["Square", "Circle"])).unwrap();
    let kinds: Vec<&str> = marks.iter().map(|a| a.annotation_type.as_str()).collect();
    assert_eq!(kinds, vec!["Square", "Circle"]);
    assert!(extract_annotations(&doc, Some(&["square"])).unwrap().is_empty());
    assert!(extract_annotations(&doc, Some(&[])).unwrap().is_empty());
    let array = doc.add_object(items);
    doc.get_dictionary_mut(pages[0]).unwrap().set("Annots", Object::Reference(array));
    assert_eq!(extract_annotations(&doc, Some(&["Circle"])).unwrap().len(), 1);
}

#[test]
fn template_without_annotations_gives_none() {
    let (doc, _) = blank_document(1);
    assert!(extract_annotations(&doc, None).unwrap().is_empty());
}

#[test]
fn template_of_another_shape_is_an_error() {
    let (doc, _) = blank_document(0);
    assert!(matches!(extract_annotations(&doc, None), Err(LibError::NotFound(Missing::Page(1)))));
    let (mut doc, pages) = blank_document(1);
    doc.get_dictionary_mut(pages[0]).unwrap().set("Annots", Object::Integer(1));
    assert!(matches!(
        extract_annotations(&doc, None),
        Err(LibError::Malformed(Defect::Annots(1)))
    ));
    doc.get_dictionary_mut(pages[0]).unwrap().set("Annots", Object::Reference((9000, 0)));
    assert!(matches!(
        extract_annotations(&doc, None),
        Err(LibError::Malformed(Defect::Annots(1)))
    ));
    doc.objects.insert(pages[0], Object::Integer(1));
    match extract_annotations(&doc, None) {
        Err(LibError::Malformed(Defect::NotDictionary(id))) => assert_eq!(id, pages[0]),
        _ => panic!("the page is no dictionary"),
    }
}

#[test]
fn copies_are_listed_on_the_first_page() {
    let (mut template, template_pages) = blank_document(1);
    let first = template.add_object(Object::Dictionary(square()));
    let mut circle = square();
    circle.set("Subtype", name("Circle"));
    let second = template.add_object(Object::Dictionary(circle));
    template
        .get_dictionary_mut(template_pages[0])
        .unwrap()
        .set("Annots", Object::Array(vec![Object::Reference(first), Object::Reference(second)]));
    let annotations = extract_annotations(&template, Some(&["Square", "Circle"])).unwrap();

    let (mut doc, pages) = blank_document(2);
    let old = doc.add_object(Object::Integer(1));
    let array = doc.add_object(Object::Array(vec![Object::Reference(old)]));
    doc.get_dictionary_mut(pages[0]).unwrap().set("Annots", Object::Reference(array));
    let objects = doc.objects.len();
    apply_annotations(&mut doc, &annotations, true).unwrap();
    assert_eq!(doc.objects.len(), objects + 3);
    let fresh = doc.get_dictionary(pages[0]).unwrap().get(b"Annots").unwrap().as_reference().unwrap();
    assert_ne!(fresh, array);
    let listed = doc.objects.get(&fresh).unwrap().as_array().unwrap();
    assert_eq!(listed.len(), 3);
    assert_eq!(listed[0], Object::Reference(old));
    let kinds: Vec<Object> = listed[1..]
        .iter()
        .map(|item| {
            doc.get_dictionary(item.as_reference().unwrap()).unwrap().get(b"Subtype").unwrap().clone()
        })
        .collect();
    assert_eq!(kinds, vec![name("Square"), name("Circle")]);
    assert_eq!(doc.objects.get(&array).unwrap(), &Object::Array(vec![Object::Reference(old)]));
    assert!(!doc.get_dictionary(pages[1]).unwrap().has(b"Annots"));
    let again = extract_annotations(&doc, None).unwrap();
    assert_eq!(again.len(), 2);
    assert_eq!(corners(&again[0].rect), [10.0, 20.5, 0.0, 40.0]);
}

#[test]
fn no_copies_still_give_the_page_an_array() {
    let (mut doc, pages) = blank_document(1);
    apply_annotations(&mut doc, &[], false).unwrap();
    let array = doc.get_dictionary(pages[0]).unwrap().get(b"Annots").unwrap().as_reference().unwrap();
    assert_eq!(doc.objects.get(&array).unwrap(), &Object::Array(vec![]));
}

#[test]
fn copies_cannot_be_put_where_there_is_no_page() {
    let annotations = vec![taken(&square())];
    let (mut doc, _) = blank_document(0);
    let before = doc.objects.clone();
    assert!(matches!(
        apply_annotations(&mut doc, &annotations, false),
        Err(LibError::NotFound(Missing::Page(1)))
    ));
    assert_eq!(doc.objects, before);
    let (mut doc, pages) = blank_document(1);
    doc.objects.insert(pages[0], Object::Integer(1));
    let before = doc.objects.clone();
    match apply_annotations(&mut doc, &annotations, false) {
        Err(LibError::Malformed(Defect::NotDictionary(id))) => assert_eq!(id, pages[0]),
        _ => panic!("the page is no dictionary"),
    }
    assert_eq!(doc.objects, before);
    doc.objects.remove(&pages[0]);
    doc.max_id = pages[0].0 - 1;
    let before = doc.objects.clone();
    match apply_annotations(&mut doc, &annotations, false) {
        Err(LibError::Malformed(Defect::NotDictionary(id))) => assert_eq!(id, pages[0]),
        _ => panic!("the page is missing"),
    }
    assert_eq!(doc.objects, before);
    let (mut doc, _) = blank_document(1);
    doc.max_id = u32::MAX;
    assert!(matches!(apply_annotations(&mut doc, &annotations, false), Err(LibError::Pdf(_))));
}
