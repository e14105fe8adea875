use eduka::errors::EdukaError;
use eduka::outline::build_outline;
use eduka::outline::resolve_node;
use eduka::outline::OutlineNode;
use eduka::sanitize::sanitize_title;

fn node(title: &str, direct_page: u32, children: Vec<OutlineNode>) -> OutlineNode {
    OutlineNode { title: String::from(title), direct_page, children }
}

#[test]
fn resolve_direct_page_with_shift() {
    let n = node("Chapter", 10, Vec::new());
    assert_eq!(resolve_node(&n, 3, 8), Ok(7));
}

#[test]
fn resolve_fails_when_document_too_short() {
    let n = node("Chapter", 10, Vec::new());
    assert_eq!(resolve_node(&n, 3, 7), Err(EdukaError::PageOffsetMismatch));
}

#[test]
fn resolve_zero_page_falls_back_to_first_child() {
    let child = node("Lesson", 5, Vec::new());
    let root = node("Part", 0, vec![child]);
    assert_eq!(resolve_node(&root, 2, 10), Ok(3));
    let child_again = node("Lesson", 5, Vec::new());
    assert_eq!(resolve_node(&child_again, 2, 10), resolve_node(&root, 2, 10));
}

#[test]
fn resolve_no_page_and_no_child_fails() {
    let n = node("Empty", 0, Vec::new());
    assert_eq!(resolve_node(&n, 0, 10), Err(EdukaError::NoAnchor));
}

#[test]
fn resolve_negative_physical_page_fails() {
    let n = node("Front", 1, Vec::new());
    assert_eq!(resolve_node(&n, 5, 10), Err(EdukaError::PageOffsetMismatch));
}

#[test]
fn builder_visits_tree_in_preorder() {
    let tree = vec![
        node(
            "A",
            1,
            vec![
                node("B", 2, Vec::new()),
                node("C", 3, vec![node("D", 4, Vec::new())]),
            ],
        ),
        node("E", 5, Vec::new()),
    ];
    let report = build_outline(&tree, 0, 10);
    assert!(report.skipped.is_empty());
    let titles: Vec<&str> = report.entries.iter().map(|e| e.title.as_str()).collect();
    assert_eq!(titles, vec!["A", "B", "C", "D", "E"]);
    let pages: Vec<u32> = report.entries.iter().map(|e| e.page).collect();
    assert_eq!(pages, vec![1, 2, 3, 4, 5]);
    let parents: Vec<Option<usize>> = report.entries.iter().map(|e| e.parent).collect();
    assert_eq!(parents, vec![None, Some(0), Some(0), Some(2), None]);
}

#[test]
fn builder_creates_no_entry_for_mismatched_node() {
    let tree = vec![node("Deep", 10, vec![node("Child", 2, Vec::new())]), node("Ok", 5, Vec::new())];
    let report = build_outline(&tree, 3, 7);
    assert_eq!(report.entries.len(), 1);
    assert_eq!(report.entries[0].title, "Ok");
    assert_eq!(report.entries[0].page, 2);
    assert_eq!(report.entries[0].parent, None);
    assert_eq!(report.skipped, vec![String::from("Deep")]);
}

#[test]
fn builder_skips_whole_subtree_of_failed_node() {
    let tree = vec![node("Bad", 0, Vec::new()), node("Good", 6, vec![node("Inner", 7, Vec::new())])];
    let report = build_outline(&tree, 0, 10);
    let titles: Vec<&str> = report.entries.iter().map(|e| e.title.as_str()).collect();
    assert_eq!(titles, vec!["Good", "Inner"]);
    assert_eq!(report.entries[1].parent, Some(0));
    assert_eq!(report.skipped, vec![String::from("Bad")]);
}

#[test]
fn builder_sanitizes_titles() {
    let tree = vec![node("Knygų ąžuolas", 1, Vec::new())];
    let report = build_outline(&tree, 0, 10);
    assert_eq!(report.entries[0].title, "Knygu azuolas");
}

#[test]
fn sanitize_maps_diacritics_to_ascii() {
    assert_eq!(sanitize_title("ąžš"), "azs");
    assert_eq!(sanitize_title("Æneid"), "AEneid");
    assert!(sanitize_title("ąžš").is_ascii());
}

#[test]
fn sanitize_keeps_ascii_unchanged() {
    assert_eq!(sanitize_title("Plain Title 7"), "Plain Title 7");
}

#[test]
fn sanitize_is_idempotent() {
    let once = sanitize_title("Knygų skyrius — ąžuolai");
    let twice = sanitize_title(once.as_str());
    assert_eq!(twice, once);
}

#[test]
fn resolve_with_negative_shift_moves_pages_forward() {
    let n = node("Chapter", 1, Vec::new());
    assert_eq!(resolve_node(&n, -2, 10), Ok(3));
}

#[test]
fn resolve_with_extreme_shift_fails_cleanly() {
    let n = node("Chapter", 10, Vec::new());
    assert_eq!(resolve_node(&n, i64::MIN, u32::MAX), Err(EdukaError::PageOffsetMismatch));
    assert_eq!(resolve_node(&n, i64::MAX, u32::MAX), Err(EdukaError::PageOffsetMismatch));
}

#[test]
fn error_messages_name_the_condition() {
    assert!(EdukaError::PageOffsetMismatch.message().contains("page number"));
    assert!(EdukaError::NoAnchor.message().contains("outline node"));
    assert!(EdukaError::UnexpectedResponse.message().contains("data sent"));
}
