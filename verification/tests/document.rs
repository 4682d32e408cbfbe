use book_info::archives::pdf::{
    book_info_from_loaded, book_info_from_parts, book_info_of_document, choose_authors,
    choose_keywords, choose_title, get_book_info_pdf, read_document_info, DocumentInfo,
};
use book_info::archives::{get_book_info, BookInfo, Contents};
use book_info::utils::error::{ExtractionError, OpenFailure};
use book_info::utils::fileutils::BookFile;
use lopdf::{Dictionary, Document, Object};

fn pdf(path: &str, stem: Option<&str>) -> BookFile {
    BookFile {
        path: path.to_string(),
        stem: stem.map(|stem| stem.to_string()),
        extension: Some("pdf".to_string()),
    }
}

fn name(text: &str) -> Object {
    Object::Name(text.as_bytes().to_vec())
}

fn text(value: &str) -> Object {
    Object::string_literal(value)
}

/// A document with `pages` pages and no Info dictionary.
fn document_with_pages(pages: usize) -> Document {
    let mut document = Document::with_version("1.5");
    let tree = document.new_object_id();
    let mut kids = Vec::new();
    for _ in 0..pages {
        let mut page = Dictionary::new();
        page.set("Type", name("Page"));
        page.set("Parent", Object::Reference(tree));
        kids.push(Object::Reference(document.add_object(page)));
    }
    let mut node = Dictionary::new();
    node.set("Type", name("Pages"));
    node.set("Count", Object::Integer(pages as i64));
    node.set("Kids", Object::Array(kids));
    document.set_object(tree, node);
    let mut catalog = Dictionary::new();
    catalog.set("Type", name("Catalog"));
    catalog.set("Pages", Object::Reference(tree));
    let root = document.add_object(catalog);
    document.trailer.set("Root", Object::Reference(root));
    document
}

/// A document with `pages` pages whose trailer refers to `info`.
fn document_with_info(pages: usize, info: Dictionary) -> Document {
    let mut document = document_with_pages(pages);
    let id = document.add_object(info);
    document.trailer.set("Info", Object::Reference(id));
    document
}

fn info(entries: &[(&str, Object)]) -> Dictionary {
    let mut dictionary = Dictionary::new();
    for (key, value) in entries {
        dictionary.set(*key, value.clone());
    }
    dictionary
}

fn saved(mut document: Document) -> Vec<u8> {
    let mut bytes = Vec::new();
    document.save_to(&mut bytes).unwrap();
    bytes
}

fn the_book() -> Document {
    document_with_info(
        1,
        info(&[
            ("Title", text("Title of the Book")),
            ("Author", text("The Author")),
            ("Keywords", text("book, fantasy, ")),
        ]),
    )
}

#[test]
fn read_metadata() {
    let bytes = saved(the_book());
    let book = get_book_info_pdf(&pdf("fixtures/testfile.pdf", Some("testfile")), &bytes).unwrap();
    assert_eq!(book.pages, 1);
    assert_eq!(book.title, "Title of the Book".to_string());
    assert_eq!(book.authors, Some(vec!["The Author".to_string()]));
    assert_eq!(
        book.keywords,
        Some(vec!["book".to_string(), "fantasy".to_string()])
    );
}

#[test]
fn document_record_has_no_publisher_and_no_date() {
    let book = book_info_of_document(&pdf("testfile.pdf", Some("testfile")), &the_book());
    assert_eq!(
        book,
        BookInfo {
            title: "Title of the Book".to_string(),
            pages: 1,
            authors: Some(vec!["The Author".to_string()]),
            publisher: None,
            published_date: None,
            keywords: Some(vec!["book".to_string(), "fantasy".to_string()]),
        }
    );
}

#[test]
fn title_in_the_document_wins_over_any_file_name() {
    let bytes = saved(the_book());
    for file in [
        pdf("report.pdf", Some("report")),
        pdf("/a/b/Other Name.PDF", Some("Other Name")),
        pdf(".pdf", None),
    ] {
        let book = get_book_info_pdf(&file, &bytes).unwrap();
        assert_eq!(book.title, "Title of the Book");
        assert_eq!(book.pages, 1);
    }
}

#[test]
fn document_without_info_takes_its_title_from_the_stem() {
    let bytes = saved(document_with_pages(2));
    let book = get_book_info_pdf(&pdf("docs/report.pdf", Some("report")), &bytes).unwrap();
    assert_eq!(book.title, "\"report\"");
    assert!(!book.title.is_empty());
    assert_ne!(book.title, ".pdf");
    assert_eq!(book.pages, 2);
    assert_eq!(book.authors, None);
    assert_eq!(book.keywords, None);
}

#[test]
fn document_without_info_and_without_stem_has_an_empty_title() {
    let book = book_info_of_document(&pdf("..", None), &document_with_pages(1));
    assert_eq!(book.title, "");
}

#[test]
fn empty_page_tree_is_no_pages_and_no_error() {
    let bytes = saved(document_with_pages(0));
    let book = get_book_info_pdf(&pdf("empty.pdf", Some("empty")), &bytes).unwrap();
    assert_eq!(book.pages, 0);
    assert_eq!(book.title, "\"empty\"");
}

#[test]
fn absent_page_tree_is_no_pages_and_no_error() {
    let document = Document::with_version("1.5");
    let book = book_info_of_document(&pdf("bare.pdf", Some("bare")), &document);
    assert_eq!(book.pages, 0);
    let mut rootless = document_with_pages(3);
    rootless.trailer.remove(b"Root");
    assert_eq!(book_info_of_document(&pdf("bare.pdf", Some("bare")), &rootless).pages, 0);
}

#[test]
fn pages_are_the_entries_of_the_page_table() {
    for pages in [1, 2, 7, 40] {
        let document = document_with_pages(pages);
        assert_eq!(book_info_of_document(&pdf("n.pdf", Some("n")), &document).pages, pages);
        let book = get_book_info_pdf(&pdf("n.pdf", Some("n")), &saved(document)).unwrap();
        assert_eq!(book.pages, pages);
    }
}

#[test]
fn empty_and_degenerate_titles_fall_back_to_the_stem() {
    let file = pdf("report.pdf", Some("report"));
    let empty = document_with_info(1, info(&[("Title", text(""))]));
    assert_eq!(book_info_of_document(&file, &empty).title, "\"report\"");
    let degenerate = document_with_info(1, info(&[("Title", text(".pdf"))]));
    assert_eq!(book_info_of_document(&file, &degenerate).title, "\"report\"");
    let close = document_with_info(1, info(&[("Title", text(".PDF"))]));
    assert_eq!(book_info_of_document(&file, &close).title, ".PDF");
    let blank = document_with_info(1, info(&[("Title", text(" "))]));
    assert_eq!(book_info_of_document(&file, &blank).title, " ");
}

#[test]
fn author_is_one_entry_and_is_not_split() {
    let file = pdf("a.pdf", Some("a"));
    let two = document_with_info(1, info(&[("Author", text("Ann Lee, Bo Chen; C. Diaz"))]));
    assert_eq!(
        book_info_of_document(&file, &two).authors,
        Some(vec!["Ann Lee, Bo Chen; C. Diaz".to_string()])
    );
    let padded = document_with_info(1, info(&[("Author", text("  The Author "))]));
    assert_eq!(
        book_info_of_document(&file, &padded).authors,
        Some(vec!["  The Author ".to_string()])
    );
    let empty = document_with_info(1, info(&[("Author", text(""))]));
    assert_eq!(book_info_of_document(&file, &empty).authors, None);
}

#[test]
fn keywords_without_a_token_are_absent() {
    let file = pdf("a.pdf", Some("a"));
    for list in ["", " ", ",", " , ,,  "] {
        let document = document_with_info(1, info(&[("Keywords", text(list))]));
        assert_eq!(book_info_of_document(&file, &document).keywords, None);
    }
    let one = document_with_info(1, info(&[("Keywords", text(" , solo ,"))]));
    assert_eq!(book_info_of_document(&file, &one).keywords, Some(vec!["solo".to_string()]));
}

#[test]
fn a_field_that_is_no_string_is_left_out_alone() {
    let file = pdf("mixed.pdf", Some("mixed"));
    let document = document_with_info(
        3,
        info(&[
            ("Title", name("NotAString")),
            ("Author", text("The Author")),
            ("Keywords", Object::Integer(7)),
        ]),
    );
    let book = book_info_of_document(&file, &document);
    assert_eq!(book.title, "\"mixed\"");
    assert_eq!(book.authors, Some(vec!["The Author".to_string()]));
    assert_eq!(book.keywords, None);
    assert_eq!(book.pages, 3);
    let found = read_document_info(&document);
    assert_eq!(
        found,
        DocumentInfo { title: None, author: Some("The Author".to_string()), keywords: None }
    );
}

#[test]
fn info_is_read_through_the_reference_only() {
    let file = pdf("x.pdf", Some("x"));
    let fields = info(&[("Title", text("Inside")), ("Author", text("Someone"))]);
    // A dictionary that stands in the trailer itself is not followed.
    let mut direct = document_with_pages(1);
    direct.trailer.set("Info", Object::Dictionary(fields.clone()));
    let book = book_info_of_document(&file, &direct);
    assert_eq!(book.title, "\"x\"");
    assert_eq!(book.authors, None);
    // A reference to nothing gives nothing.
    let mut dangling = document_with_pages(1);
    dangling.trailer.set("Info", Object::Reference((4000, 0)));
    assert_eq!(book_info_of_document(&file, &dangling).authors, None);
    // A reference to something that is no dictionary gives nothing.
    let mut wrong = document_with_pages(1);
    let id = wrong.add_object(text("not a dictionary"));
    wrong.trailer.set("Info", Object::Reference(id));
    assert_eq!(book_info_of_document(&file, &wrong).title, "\"x\"");
    // A reference that leads to the dictionary over another reference is
    // followed to its end.
    let mut chained = document_with_pages(1);
    let target = chained.add_object(fields);
    let link = chained.add_object(Object::Reference(target));
    chained.trailer.set("Info", Object::Reference(link));
    let book = book_info_of_document(&file, &chained);
    assert_eq!(book.title, "Inside");
    assert_eq!(book.authors, Some(vec!["Someone".to_string()]));
}

#[test]
fn bytes_that_are_no_utf8_are_replaced() {
    let file = pdf("x.pdf", Some("x"));
    let raw = Object::string_literal(vec![0x41u8, 0xff, 0x42]);
    let document = document_with_info(1, info(&[("Author", raw)]));
    assert_eq!(
        book_info_of_document(&file, &document).authors,
        Some(vec!["A\u{fffd}B".to_string()])
    );
    let accented = document_with_info(1, info(&[("Title", text("Les Misérables"))]));
    assert_eq!(book_info_of_document(&file, &accented).title, "Les Misérables");
}

#[test]
fn malformed_document_gives_no_record() {
    let file = pdf("broken.pdf", Some("broken"));
    for bytes in [&b""[..], &b"this is no document"[..], &b"%PDF-1.4\n1 0 obj\n<< /Type"[..]] {
        match get_book_info_pdf(&file, bytes) {
            Err(ExtractionError::ContainerOpenFailure(OpenFailure::Document(_))) => {}
            other => panic!("unexpected outcome: {:?}", other),
        }
    }
    let mut cut = saved(the_book());
    cut.truncate(20);
    assert!(get_book_info_pdf(&file, &cut).is_err());
}

#[test]
fn parser_error_is_handed_on_unchanged() {
    let file = pdf("broken.pdf", Some("broken"));
    let cause = Document::load_mem(b"nothing").unwrap_err();
    let shown = format!("{:?}", cause);
    match book_info_from_loaded(&file, Err(cause)) {
        Err(ExtractionError::ContainerOpenFailure(OpenFailure::Document(error))) => {
            assert_eq!(format!("{:?}", error), shown)
        }
        other => panic!("unexpected outcome: {:?}", other),
    }
    let book = book_info_from_loaded(&file, Ok(the_book())).unwrap();
    assert_eq!(book.title, "Title of the Book");
}

#[test]
fn document_extraction_twice_is_the_same() {
    let file = pdf("testfile.pdf", Some("testfile"));
    let bytes = saved(the_book());
    let first = get_book_info_pdf(&file, &bytes).unwrap();
    let second = get_book_info_pdf(&file, &bytes).unwrap();
    assert_eq!(first, second);
    let third = get_book_info(&file, Contents::Document(bytes)).unwrap();
    assert_eq!(first, third);
}

#[test]
fn choose_title_prefers_an_acceptable_title() {
    let file = pdf("report.pdf", Some("report"));
    assert_eq!(choose_title(&file, Some("A Title".to_string())), "A Title");
    assert_eq!(choose_title(&file, Some(".pdf".to_string())), "\"report\"");
    assert_eq!(choose_title(&file, Some(String::new())), "\"report\"");
    assert_eq!(choose_title(&file, None), "\"report\"");
    assert_eq!(choose_title(&pdf("", None), None), "");
    assert_eq!(choose_title(&pdf("", None), Some(".pdf".to_string())), "");
    assert_eq!(choose_title(&pdf("", None), Some("x.pdf".to_string())), "x.pdf");
}

#[test]
fn choose_authors_wraps_the_whole_text() {
    assert_eq!(choose_authors(Some("The Author".to_string())), Some(vec!["The Author".to_string()]));
    assert_eq!(choose_authors(Some("A, B".to_string())), Some(vec!["A, B".to_string()]));
    assert_eq!(choose_authors(Some(String::new())), None);
    assert_eq!(choose_authors(None), None);
}

#[test]
fn choose_keywords_splits_on_commas() {
    assert_eq!(
        choose_keywords(&Some("book, fantasy, ".to_string())),
        Some(vec!["book".to_string(), "fantasy".to_string()])
    );
    assert_eq!(choose_keywords(&Some(" , ".to_string())), None);
    assert_eq!(choose_keywords(&Some(String::new())), None);
    assert_eq!(choose_keywords(&None), None);
}

#[test]
fn record_from_parts_puts_the_rules_together() {
    let file = pdf("report.pdf", Some("report"));
    let found = DocumentInfo {
        title: Some(".pdf".to_string()),
        author: Some("The Author".to_string()),
        keywords: Some("a,b , c".to_string()),
    };
    assert_eq!(
        book_info_from_parts(&file, 12, found),
        BookInfo {
            title: "\"report\"".to_string(),
            pages: 12,
            authors: Some(vec!["The Author".to_string()]),
            publisher: None,
            published_date: None,
            keywords: Some(vec!["a".to_string(), "b".to_string(), "c".to_string()]),
        }
    );
    let nothing = DocumentInfo { title: None, author: None, keywords: None };
    assert_eq!(
        book_info_from_parts(&pdf("", None), 0, nothing),
        BookInfo {
            title: String::new(),
            pages: 0,
            authors: None,
            publisher: None,
            published_date: None,
            keywords: None,
        }
    );
}
