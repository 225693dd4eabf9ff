use lopdf::{Document, Object};
use pdf_exam_tools_lib::graph::is_numbered;
use pdf_exam_tools_lib::greeting::frame;
use pdf_exam_tools_lib::template::{decimal_digits, expand_template};
use pdf_exam_tools_lib::{
    add, create_greeting, Corner, GreetingStyle, PageTally, ProcessingSummary,
};

#[test]
fn it_works() {
    let result = add(2, 2);
    assert_eq!(result, 4);
}

#[test]
fn test_formal_greeting() {
    let result = create_greeting("World", GreetingStyle::Formal);
    assert_eq!(result, "Good day, World.");
}

#[test]
fn test_casual_greeting() {
    let result = create_greeting("World", GreetingStyle::Casual);
    assert_eq!(result, "Hey, World!");
}

#[test]
fn test_enthusiastic_greeting() {
    let result = create_greeting("World", GreetingStyle::Enthusiastic);
    assert_eq!(result, "HELLO WORLD!!!");
}

#[test]
fn enthusiastic_greeting_changes_the_name() {
    assert_eq!(create_greeting("straße", GreetingStyle::Enthusiastic), "HELLO STRASSE!!!");
    assert_ne!(create_greeting("bob", GreetingStyle::Enthusiastic), "HELLO bob!!!");
}

#[test]
fn frame_puts_the_name_between() {
    assert_eq!(frame("<", "x", ">"), "<x>");
    assert_eq!(frame("", "", ""), "");
}

#[test]
fn add_reaches_the_largest_sum() {
    assert_eq!(add(u64::MAX - 1, 1), u64::MAX);
    assert_eq!(add(0, 0), 0);
}

#[test]
fn corner_defaults_to_top_right() {
    assert_eq!(Corner::default(), Corner::TopRight);
}

#[test]
fn decimal_digits_of_numbers() {
    assert_eq!(decimal_digits(0), b"0".to_vec());
    assert_eq!(decimal_digits(7), b"7".to_vec());
    assert_eq!(decimal_digits(10), b"10".to_vec());
    assert_eq!(decimal_digits(1203), b"1203".to_vec());
    assert_eq!(decimal_digits(u32::MAX), b"4294967295".to_vec());
}

#[test]
fn template_replaces_every_page_token() {
    assert_eq!(expand_template("filename_p{page}", 3), b"filename_p3".to_vec());
    assert_eq!(expand_template("{page}/{page}", 12), b"12/12".to_vec());
    assert_eq!(expand_template("exam_{page}.pdf", 1), b"exam_1.pdf".to_vec());
}

#[test]
fn template_counts_from_zero_for_p0() {
    assert_eq!(expand_template("p{p0}-{page}", 1), b"p0-1".to_vec());
    assert_eq!(expand_template("{p0}", 10), b"9".to_vec());
    assert_eq!(expand_template("{p0}", 0), b"0".to_vec());
}

#[test]
fn template_leaves_other_text_alone() {
    assert_eq!(expand_template("", 5), Vec::<u8>::new());
    assert_eq!(expand_template("plain", 5), b"plain".to_vec());
    assert_eq!(expand_template("{pag}{page", 5), b"{pag}{page".to_vec());
    assert_eq!(expand_template("{{page}}", 5), b"{5}".to_vec());
    assert_eq!(expand_template("é{page}ü", 2), "é2ü".as_bytes().to_vec());
}

#[test]
fn template_expansion_is_not_applied_twice() {
    let once = expand_template("{pa{page}ge}", 7);
    assert_eq!(once, b"{pa7ge}".to_vec());
}

#[test]
fn summary_counts_files_and_pages() {
    let mut summary = ProcessingSummary::new();
    assert_eq!(summary.files_processed, 0);
    assert_eq!(summary.pages_annotated, 0);
    summary.record_file("a.pdf".to_string(), 3, Vec::new());
    summary.record_file("b.pdf".to_string(), 2, vec![(2, "no page".to_string())]);
    summary.record_error("c.pdf".to_string(), "broken".to_string());
    assert_eq!(summary.files_processed, 2);
    assert_eq!(summary.pages_annotated, 5);
    assert_eq!(summary.errors, vec![("c.pdf".to_string(), "broken".to_string())]);
    assert_eq!(
        summary.partial_success,
        vec![("b.pdf".to_string(), vec![(2, "no page".to_string())])]
    );
}

#[test]
fn summary_stops_counting_at_the_largest_number() {
    let mut summary = ProcessingSummary::new();
    summary.record_file("a.pdf".to_string(), usize::MAX, Vec::new());
    summary.record_file("b.pdf".to_string(), 1, Vec::new());
    assert_eq!(summary.pages_annotated, usize::MAX);
    assert_eq!(summary.files_processed, 2);
}

#[test]
fn test_default_greeting() {
    assert!(create_greeting("World", GreetingStyle::Casual).contains("Hey, World!"));
}

#[test]
fn test_custom_name() {
    assert!(create_greeting("Alice", GreetingStyle::Casual).contains("Hey, Alice!"));
}

#[test]
fn test_formal_style() {
    assert!(create_greeting("Bob", GreetingStyle::Formal).contains("Good day, Bob."));
}

#[test]
fn test_enthusiastic_style() {
    assert!(create_greeting("Charlie", GreetingStyle::Enthusiastic).contains("HELLO CHARLIE!!!"));
}

#[test]
fn test_short_style_flag() {
    assert!(create_greeting("David", GreetingStyle::Formal).contains("Good day, David."));
}

#[test]
fn page_tally_counts_pages_and_keeps_their_errors() {
    let mut tally = PageTally::new();
    assert!(!tally.is_worth_saving());
    tally.record_page(1, Err("Page dictionary error".to_string()));
    assert!(!tally.is_worth_saving());
    tally.record_page(2, Ok(()));
    tally.record_page(3, Err("Annotation error".to_string()));
    tally.record_page(4, Ok(()));
    assert!(tally.is_worth_saving());
    assert_eq!(
        tally.finish(),
        Ok((
            2,
            vec![(1, "Page dictionary error".to_string()), (3, "Annotation error".to_string())]
        ))
    );
}

#[test]
fn file_without_an_annotated_page_has_failed() {
    assert_eq!(PageTally::new().finish(), Err(Vec::new()));
    let mut tally = PageTally::new();
    tally.record_page(1, Err("no".to_string()));
    assert_eq!(tally.finish(), Err(vec![(1, "no".to_string())]));
}

#[test]
fn numbering_of_a_document_is_told() {
    let mut doc = Document::with_version("1.5");
    assert!(is_numbered(&doc));
    let first = doc.add_object(Object::Integer(1));
    let second = doc.add_object(Object::Integer(2));
    assert!(is_numbered(&doc));
    doc.objects.insert((second.0, 7), Object::Null);
    assert!(is_numbered(&doc));
    doc.objects.insert((second.0 + 1, 0), Object::Null);
    assert!(!is_numbered(&doc));
    doc.max_id = second.0 + 1;
    assert!(is_numbered(&doc));
    doc.max_id = first.0;
    assert!(!is_numbered(&doc));
    doc.max_id = u32::MAX;
    assert!(is_numbered(&doc));
    doc.objects.clear();
    doc.max_id = 0;
    assert!(is_numbered(&doc));
}
