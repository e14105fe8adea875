use eduka::book::book_dir_name;
use eduka::book::compose_book_title;
use eduka::book::page_image_url;
use eduka::book::prepare_package;
use eduka::book::prepare_teaching_tool;
use eduka::book::Book;
use eduka::book::Package;
use eduka::book::Part;
use eduka::book::TeachingTool;
use eduka::errors::EdukaError;
use eduka::outline::OutlineNode;
use eduka::pages::document_file_name;
use eduka::pages::page_file_name;
use eduka::pages::parse_u64;
use eduka::pages::u64_to_string;
use eduka::urlid::book_id_from_url;

fn book(id: u64, page_shift: i64, bookmarks: Vec<OutlineNode>) -> Book {
    Book {
        id,
        page_shift,
        native_downloadable: false,
        title: String::from("Title"),
        collection_title: String::from("Collection"),
        parts: Vec::new(),
        page_urls: Vec::new(),
        bookmarks,
    }
}

#[test]
fn page_files_are_named_by_index() {
    assert_eq!(page_file_name(0), "0.png");
    assert_eq!(page_file_name(7), "7.png");
    assert_eq!(page_file_name(470), "470.png");
}

#[test]
fn document_file_is_named_by_book_id() {
    assert_eq!(document_file_name(12), "12.pdf");
    assert_eq!(document_file_name(0), "0.pdf");
}

#[test]
fn decimal_writing_round_trips() {
    assert_eq!(u64_to_string(0), "0");
    assert_eq!(u64_to_string(1093), "1093");
    assert_eq!(u64_to_string(u64::MAX), "18446744073709551615");
    assert_eq!(parse_u64(&u64_to_string(987654321)), Some(987654321));
}

#[test]
fn parse_rejects_what_is_not_a_number() {
    assert_eq!(parse_u64(""), None);
    assert_eq!(parse_u64("12a"), None);
    assert_eq!(parse_u64("-3"), None);
    assert_eq!(parse_u64("007"), Some(7));
    assert_eq!(parse_u64("18446744073709551615"), Some(u64::MAX));
    assert_eq!(parse_u64("18446744073709551616"), None);
}

#[test]
fn book_directory_carries_title_and_id() {
    assert_eq!(book_dir_name("Matematika", 12), "./Matematika ;;; 12");
}

#[test]
fn book_title_is_collection_plus_first_part() {
    let parts = vec![Part { title: String::from("Part 1") }];
    assert_eq!(compose_book_title("Coll", &parts), Ok(String::from("Coll: Part 1")));
}

#[test]
fn book_without_parts_is_rejected() {
    let parts: Vec<Part> = Vec::new();
    assert_eq!(compose_book_title("Coll", &parts), Err(EdukaError::UnexpectedResponse));
}

#[test]
fn page_addresses_are_rooted_at_the_platform() {
    assert_eq!(page_image_url("/img/1140/5.png"), "https://klase.eduka.lt/img/1140/5.png");
}

#[test]
fn book_id_is_the_final_url_segment() {
    assert_eq!(book_id_from_url("https://klase.eduka.lt/mokymo-priemone/123"), Some(123));
    assert_eq!(book_id_from_url("https://klase.eduka.lt/mokymo-priemone/abc"), None);
    assert_eq!(book_id_from_url("not a url"), None);
}

#[test]
fn preparing_a_tool_builds_its_outline() {
    let bookmarks = vec![OutlineNode {
        title: String::from("Skyrius"),
        direct_page: 4,
        children: Vec::new(),
    }];
    let tool = TeachingTool { id: 9, book: book(9, 1, bookmarks) };
    let report = prepare_teaching_tool(&tool, 10);
    assert_eq!(report.entries.len(), 1);
    assert_eq!(report.entries[0].page, 3);
    assert!(report.skipped.is_empty());
}

#[test]
fn preparing_a_package_needs_one_page_count_per_tool() {
    let package = Package {
        id: 1,
        authors: String::from("A"),
        publishing_house: String::from("P"),
        teaching_tools: vec![TeachingTool { id: 2, book: book(2, 0, Vec::new()) }],
    };
    let counts: Vec<u32> = Vec::new();
    let r = prepare_package(&package, &counts);
    assert!(matches!(r, Err(EdukaError::UnexpectedResponse)));
    let r2 = prepare_package(&package, &vec![5]);
    assert!(r2.is_ok());
    assert_eq!(r2.unwrap().len(), 1);
}
