use lopdf::{Dictionary, Document, Object, ObjectId, StringFormat};
use pdf_exam_tools_lib::annotation_utils::{
    extract_border_style_property, extract_color_property, find_annotation_by_label,
    get_annotation_contents, get_annotation_rect,
};
use pdf_exam_tools_lib::error::{Defect, LibError, Missing};
use pdf_exam_tools_lib::annotation_utils::{find_annotation_in_pages, page_list};
use pdf_exam_tools_lib::{recreate_annotation_by_label, recreate_annotation_in_pages};

fn blank_document(pages: usize) -> (Document, Vec<ObjectId>) {
    let mut doc = Document::with_version("1.5");
    let pages_id = doc.new_object_id();
    let mut page_ids = Vec::new();
    for _ in 0..pages {
        let mut page = Dictionary::new();
        page.set("Type", Object::Name(b"Page".to_vec()));
        page.set("Parent", Object::Reference(pages_id));
        page_ids.push(doc.add_object(Object::Dictionary(page)));
    }
    let mut node = Dictionary::new();
    node.set("Type", Object::Name(b"Pages".to_vec()));
    node.set(
        "Kids",
        Object::Array(page_ids.iter().map(|id| Object::Reference(*id)).collect()),
    );
    node.set("Count", Object::Integer(pages as i64));
    doc.objects.insert(pages_id, Object::Dictionary(node));
    let mut catalog = Dictionary::new();
    catalog.set("Type", Object::Name(b"Catalog".to_vec()));
    catalog.set("Pages", Object::Reference(pages_id));
    let catalog_id = doc.add_object(Object::Dictionary(catalog));
    doc.trailer.set("Root", Object::Reference(catalog_id));
    (doc, page_ids)
}

fn integers(values: &[i64]) -> Object {
    Object::Array(values.iter().map(|v| Object::Integer(*v)).collect())
}

fn reals(values: &[f32]) -> Object {
    Object::Array(values.iter().map(|v| Object::Real(*v)).collect())
}

fn source_with(subtype: &str, label: &str, fill: impl Fn(&mut Dictionary)) -> (Document, ObjectId) {
    let (mut doc, pages) = blank_document(2);
    let mut annotation = Dictionary::new();
    annotation.set("Type", Object::Name(b"Annot".to_vec()));
    annotation.set("Subtype", Object::Name(subtype.as_bytes().to_vec()));
    annotation.set("T", Object::string_literal(label));
    annotation.set("Rect", integers(&[100, 100, 200, 150]));
    fill(&mut annotation);
    let id = doc.add_object(Object::Dictionary(annotation));
    doc.get_dictionary_mut(pages[1]).unwrap().set("Annots", Object::Array(vec![Object::Reference(id)]));
    (doc, id)
}

fn bits(dict: &Dictionary) -> [u32; 4] {
    let rect = get_annotation_rect(dict).unwrap();
    [rect.x1.to_bits(), rect.y1.to_bits(), rect.x2.to_bits(), rect.y2.to_bits()]
}

#[test]
fn rectangle_template_is_copied() {
    let (source, source_id) = source_with("Square", "box_a", |annotation| {
        annotation.set("C", integers(&[1, 0, 0]));
        annotation.set("IC", integers(&[1, 1, 0]));
        let mut style = Dictionary::new();
        style.set("W", Object::Integer(2));
        annotation.set("BS", Object::Dictionary(style));
        annotation.set("AP", Object::Reference((77, 0)));
    });
    let (mut target, pages) = blank_document(1);
    let id = recreate_annotation_by_label(&source, &mut target, "box_a", 1).unwrap();
    assert_eq!(find_annotation_by_label(&target, "box_a").unwrap(), Some((id, 1)));
    let built = target.get_dictionary(id).unwrap();
    assert_eq!(built.get(b"Subtype").unwrap(), &Object::Name(b"Square".to_vec()));
    assert_eq!(built.get(b"Rect").unwrap(), &reals(&[100.0, 100.0, 200.0, 150.0]));
    assert_eq!(built.get(b"C").unwrap(), &reals(&[1.0, 0.0, 0.0]));
    assert_eq!(built.get(b"IC").unwrap(), &reals(&[1.0, 1.0, 0.0]));
    assert_eq!(
        built.get(b"BS").unwrap().as_dict().unwrap().get(b"W").unwrap(),
        &Object::Real(2.0)
    );
    assert!(!built.has(b"AP"));
    assert_eq!(bits(built), bits(source.get_dictionary(source_id).unwrap()));
    let array = target.get_dictionary(pages[0]).unwrap().get(b"Annots").unwrap().as_reference().unwrap();
    assert_eq!(target.get_object(array).unwrap(), &Object::Array(vec![Object::Reference(id)]));
}

#[test]
fn missing_label_is_not_found_and_leaves_the_target() {
    let (source, _) = source_with("Square", "box_a", |_| {});
    let (mut target, _) = blank_document(1);
    let before = target.objects.clone();
    let max_id = target.max_id;
    assert!(matches!(
        recreate_annotation_by_label(&source, &mut target, "nope", 1),
        Err(LibError::NotFound(Missing::Label))
    ));
    assert_eq!(target.objects, before);
    assert_eq!(target.max_id, max_id);
    assert_eq!(target.trailer.len(), 1);
}

#[test]
fn free_text_is_recreated_with_the_default_font() {
    let (source, source_id) = source_with("FreeText", "note", |annotation| {
        annotation.set("Contents", Object::string_literal("see page {page}"));
        annotation.set("DA", Object::string_literal("/Courier 30 Tf 1 0 0 rg"));
        annotation.set("Rect", reals(&[0.5, 1.5, 2.5, 3.5]));
        annotation.set("C", integers(&[1, 0, 0]));
    });
    let (mut target, _) = blank_document(2);
    let id = recreate_annotation_by_label(&source, &mut target, "note", 2).unwrap();
    assert_eq!(find_annotation_by_label(&target, "note").unwrap(), Some((id, 2)));
    let built = target.get_dictionary(id).unwrap();
    assert_eq!(built.get(b"Subtype").unwrap(), &Object::Name(b"FreeText".to_vec()));
    assert_eq!(get_annotation_contents(built), Some("see page {page}".to_string()));
    assert_eq!(
        built.get(b"DA").unwrap(),
        &Object::String(b"/Helvetica 12 Tf 0 0 0 rg".to_vec(), StringFormat::Literal)
    );
    assert!(built.has(b"DR") && !built.has(b"AP") && !built.has(b"C"));
    assert_eq!(bits(built), bits(source.get_dictionary(source_id).unwrap()));
}

#[test]
fn free_text_without_contents_is_recreated_empty() {
    let (source, _) = source_with("FreeText", "note", |_| {});
    let (mut target, _) = blank_document(1);
    let id = recreate_annotation_by_label(&source, &mut target, "note", 1).unwrap();
    assert_eq!(get_annotation_contents(target.get_dictionary(id).unwrap()), Some(String::new()));
}

#[test]
fn subtype_rect_is_recreated_as_a_square() {
    let (source, _) = source_with("Rect", "r", |annotation| {
        annotation.set("C", reals(&[0.0, 2.0, 0.0]));
        annotation.set("Border", integers(&[0, 0, 3]));
    });
    let (mut target, _) = blank_document(1);
    let id = recreate_annotation_by_label(&source, &mut target, "r", 1).unwrap();
    let built = target.get_dictionary(id).unwrap();
    assert_eq!(built.get(b"Subtype").unwrap(), &Object::Name(b"Square".to_vec()));
    assert!(extract_color_property(built, b"C").is_none());
    assert_eq!(extract_border_style_property(built).unwrap().width.to_bits(), 3.0f32.to_bits());
    assert!(!built.has(b"Border"));
}

#[test]
fn other_subtypes_are_not_supported() {
    for subtype in ["Circle", "Text", "square", "FreeTex", ""] {
        let (source, _) = source_with(subtype, "c", |_| {});
        let (mut target, _) = blank_document(1);
        let before = target.objects.clone();
        match recreate_annotation_by_label(&source, &mut target, "c", 1) {
            Err(LibError::Unsupported(name)) => assert_eq!(name, subtype.as_bytes()),
            other => panic!("{:?}", other),
        }
        assert_eq!(target.objects, before);
    }
}

#[test]
fn source_without_a_usable_subtype_is_malformed() {
    let (mut source, id) = source_with("Square", "s", |_| {});
    let (mut target, _) = blank_document(1);
    source.get_dictionary_mut(id).unwrap().set("Subtype", Object::string_literal("Square"));
    match recreate_annotation_by_label(&source, &mut target, "s", 1) {
        Err(LibError::Malformed(Defect::Subtype(at))) => assert_eq!(at, id),
        other => panic!("{:?}", other),
    }
    source.get_dictionary_mut(id).unwrap().set("Subtype", Object::Name(vec![b'S', 0xff]));
    assert!(matches!(
        recreate_annotation_by_label(&source, &mut target, "s", 1),
        Err(LibError::Malformed(Defect::Subtype(_)))
    ));
    source.get_dictionary_mut(id).unwrap().remove(b"Subtype");
    source.get_dictionary_mut(id).unwrap().remove(b"Rect");
    assert!(matches!(
        recreate_annotation_by_label(&source, &mut target, "s", 1),
        Err(LibError::Malformed(Defect::Subtype(_)))
    ));
}

#[test]
fn source_without_a_rectangle_is_malformed() {
    let (source, _) = source_with("Circle", "s", |annotation| {
        annotation.set("Rect", integers(&[1, 2, 3]));
    });
    let (mut target, _) = blank_document(1);
    let before = target.objects.clone();
    assert!(matches!(
        recreate_annotation_by_label(&source, &mut target, "s", 1),
        Err(LibError::Malformed(Defect::Rect))
    ));
    assert_eq!(target.objects, before);
}

#[test]
fn recreation_on_a_page_that_is_not_there_is_not_found() {
    let (source, _) = source_with("Square", "s", |_| {});
    let (mut target, _) = blank_document(1);
    let before = target.objects.clone();
    assert!(matches!(
        recreate_annotation_by_label(&source, &mut target, "s", 2),
        Err(LibError::NotFound(Missing::Page(2)))
    ));
    assert_eq!(target.objects, before);
}

#[test]
fn recreation_fails_where_the_source_cannot_be_searched() {
    let (mut source, _) = source_with("Square", "s", |_| {});
    let first = *source.get_pages().get(&1).unwrap();
    source.get_dictionary_mut(first).unwrap().set("Annots", Object::Reference((9000, 0)));
    let (mut target, _) = blank_document(1);
    assert!(matches!(
        recreate_annotation_by_label(&source, &mut target, "s", 1),
        Err(LibError::Pdf(_))
    ));
}

#[test]
fn annotation_is_recreated_between_listed_pages_with_its_rectangle() {
    let (source, source_id) = source_with("Square", "box_a", |annotation| {
        annotation.set("Rect", reals(&[0.5, 1.25, 100.0, 1e-6]));
    });
    let (mut target, _) = blank_document(2);
    let source_pages = page_list(&source);
    let target_pages = page_list(&target);
    let id = recreate_annotation_in_pages(
        &source,
        &source_pages,
        &mut target,
        &target_pages,
        "box_a",
        2,
    )
    .unwrap();
    assert_eq!(find_annotation_in_pages(&target, &target_pages, "box_a").unwrap(), Some((id, 2)));
    assert_eq!(
        bits(target.get_dictionary(id).unwrap()),
        bits(source.get_dictionary(source_id).unwrap())
    );
    assert!(matches!(
        recreate_annotation_in_pages(&source, &Vec::new(), &mut target, &target_pages, "box_a", 2),
        Err(LibError::NotFound(Missing::Label))
    ));
    assert!(matches!(
        recreate_annotation_in_pages(&source, &source_pages, &mut target, &Vec::new(), "box_a", 2),
        Err(LibError::NotFound(Missing::Page(2)))
    ));
}
