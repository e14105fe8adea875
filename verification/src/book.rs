//! Book and package records, and the per-book assembly steps that work on
//! plain metadata: composing the display title, naming the destination
//! directory, assembling page image addresses, and building each book's
//! document outline once its document has been assembled.

use vstd::prelude::*;
use vstd::string::StrSliceExecFns;
use vstd::string::StringExecFns;

use crate::errors::EdukaError;
use crate::outline::OutlineNode;
use crate::outline::OutlineReport;
use crate::outline::build_outline;
use crate::outline::spec_forest_outline;
use crate::outline::titles_of;
use crate::outline::views_of;
use crate::pages::decimal_digits;
use crate::pages::u64_to_string;

verus! {

/// One part of a book, as listed by the source platform.
pub struct Part {
    pub title: String,
}

/// One book's metadata: identity, page shift, the addresses of its page
/// images, and its table of contents.
pub struct Book {
    pub id: u64,
    pub page_shift: i64,
    pub native_downloadable: bool,
    pub title: String,
    pub collection_title: String,
    pub parts: Vec<Part>,
    pub page_urls: Vec<String>,
    pub bookmarks: Vec<OutlineNode>,
}

/// One teaching tool: an identifier and the book behind it.
pub struct TeachingTool {
    pub id: u64,
    pub book: Book,
}

/// A package of teaching tools, as listed by the source platform.
pub struct Package {
    pub id: u64,
    pub authors: String,
    pub publishing_house: String,
    pub teaching_tools: Vec<TeachingTool>,
}

/// The display title of a book: the collection title, a separator, and the
/// first part's title. A book without parts is malformed source metadata and
/// is rejected.
pub fn compose_book_title(collection_title: &str, parts: &Vec<Part>) -> (r: Result<
    String,
    EdukaError,
>)
    ensures
        (r is Ok) <==> parts@.len() > 0,
        r matches Ok(t) ==> t@ == collection_title@ + ": "@ + parts@[0].title@,
        (r is Err) ==> r == Err::<String, EdukaError>(EdukaError::UnexpectedResponse),
{
    if parts.len() == 0 {
        return Err(EdukaError::UnexpectedResponse);
    }
    let mut t = String::from_str(collection_title);
    t.append(": ");
    t.append(parts[0].title.as_str());
    proof {
        assert(t@ =~= collection_title@ + ": "@ + parts@[0].title@);
    }
    Ok(t)
}

/// The destination directory of one book: its title and its decimal
/// identifier, joined by the fixed separator, under the working directory.
pub fn book_dir_name(title: &str, id: u64) -> (r: String)
    ensures
        r@ == "./"@ + title@ + " ;;; "@ + decimal_digits(id as nat),
{
    let mut r = String::from_str("./");
    r.append(title);
    r.append(" ;;; ");
    let ids = u64_to_string(id);
    r.append(ids.as_str());
    proof {
        assert(r@ =~= "./"@ + title@ + " ;;; "@ + decimal_digits(id as nat));
    }
    r
}

/// The absolute address of one page image: the platform's host prepended to
/// the address fragment the page listing reports.
pub fn page_image_url(fragment: &str) -> (r: String)
    ensures
        r@ == "https://klase.eduka.lt"@ + fragment@,
{
    let mut r = String::from_str("https://klase.eduka.lt");
    r.append(fragment);
    r
}

/// Builds one book's document outline, once its document has been assembled
/// with `page_count` pages: the table of contents is walked in pre-order and
/// every resolved node becomes one outline entry.
pub fn prepare_teaching_tool(tool: &TeachingTool, page_count: u32) -> (r: OutlineReport)
    ensures
        views_of(r.entries@) == spec_forest_outline(
            tool.book.bookmarks@,
            tool.book.bookmarks@.len() as int,
            tool.book.page_shift as int,
            page_count as int,
            None,
            0,
        ).0,
        titles_of(r.skipped@) == spec_forest_outline(
            tool.book.bookmarks@,
            tool.book.bookmarks@.len() as int,
            tool.book.page_shift as int,
            page_count as int,
            None,
            0,
        ).1,
{
    build_outline(&tool.book.bookmarks, tool.book.page_shift, page_count)
}

/// The outline report [`prepare_teaching_tool`] owes for the `k`-th tool of
/// a package whose documents have the given page counts.
pub open spec fn spec_tool_outline(package: Package, page_counts: Seq<u32>, k: int) -> (
    Seq<crate::outline::EntryModel>,
    Seq<Seq<char>>,
) {
    spec_forest_outline(
        package.teaching_tools[k].book.bookmarks@,
        package.teaching_tools[k].book.bookmarks@.len() as int,
        package.teaching_tools[k].book.page_shift as int,
        page_counts[k] as int,
        None,
        0,
    )
}

/// Builds the document outline of every teaching tool of a package, given
/// the page count of each tool's assembled document (one per tool, in
/// order). A count list of the wrong length is malformed input and is
/// rejected whole: no partial work is returned.
pub fn prepare_package(package: &Package, page_counts: &Vec<u32>) -> (r: Result<
    Vec<OutlineReport>,
    EdukaError,
>)
    ensures
        (r is Ok) <==> page_counts@.len() == package.teaching_tools@.len(),
        r matches Ok(reports) ==> {
            &&& reports@.len() == package.teaching_tools@.len()
            &&& forall|k: int|
                0 <= k < reports@.len() ==> views_of(#[trigger] reports@[k].entries@)
                    == spec_tool_outline(*package, page_counts@, k).0 && titles_of(
                    reports@[k].skipped@,
                ) == spec_tool_outline(*package, page_counts@, k).1
        },
        (r is Err) ==> r == Err::<Vec<OutlineReport>, EdukaError>(EdukaError::UnexpectedResponse),
{
    if page_counts.len() != package.teaching_tools.len() {
        return Err(EdukaError::UnexpectedResponse);
    }
    let mut reports: Vec<OutlineReport> = Vec::new();
    let mut k: usize = 0;
    while k < package.teaching_tools.len()
        invariant
            0 <= k <= package.teaching_tools@.len(),
            page_counts@.len() == package.teaching_tools@.len(),
            reports@.len() == k,
            forall|j: int|
                0 <= j < k ==> views_of(#[trigger] reports@[j].entries@) == spec_tool_outline(
                    *package,
                    page_counts@,
                    j,
                ).0 && titles_of(reports@[j].skipped@) == spec_tool_outline(
                    *package,
                    page_counts@,
                    j,
                ).1,
        decreases package.teaching_tools@.len() - k,
    {
        let report = prepare_teaching_tool(&package.teaching_tools[k], page_counts[k]);
        reports.push(report);
        k = k + 1;
    }
    Ok(reports)
}

} // verus!
