//! The table-of-contents tree and its mapping to document outline entries.
//!
//! An [`OutlineNode`] is one entry of the source platform's table of
//! contents. The builder walks the tree in pre-order, resolves each node to a
//! physical page of the assembled document (correcting for the book's page
//! shift), sanitizes its title, and records one [`DocumentOutlineEntry`] per
//! resolved node in an arena: each entry holds the arena index of its parent,
//! so entries appear parent-before-children in source order.

use vstd::prelude::*;

use crate::errors::EdukaError;
use crate::sanitize::ascii_of;
use crate::sanitize::sanitize_title;

verus! {

/// One table-of-contents node as reported by the source platform: a display
/// title, an optional one-based logical page (`0` is the source's sentinel
/// for "no page assigned"), and the ordered child nodes.
pub struct OutlineNode {
    pub title: String,
    pub direct_page: u32,
    pub children: Vec<OutlineNode>,
}

/// One outline record for the assembled document: a sanitized title, the
/// physical page it anchors to, and the arena index of its parent entry
/// (`None` at the outline root).
pub struct DocumentOutlineEntry {
    pub title: String,
    pub page: u32,
    pub parent: Option<usize>,
}

/// The mathematical shadow of a [`DocumentOutlineEntry`].
#[verifier::ext_equal]
pub ghost struct EntryModel {
    pub title: Seq<char>,
    pub page: int,
    pub parent: Option<int>,
}

impl View for DocumentOutlineEntry {
    type V = EntryModel;

    open spec fn view(&self) -> EntryModel {
        EntryModel {
            title: self.title@,
            page: self.page as int,
            parent: match self.parent {
                Some(p) => Some(p as int),
                None => None,
            },
        }
    }
}

/// The models of a sequence of entries.
pub open spec fn views_of(s: Seq<DocumentOutlineEntry>) -> Seq<EntryModel> {
    s.map_values(|e: DocumentOutlineEntry| e@)
}

/// The character sequences of a sequence of titles.
pub open spec fn titles_of(s: Seq<String>) -> Seq<Seq<char>> {
    s.map_values(|t: String| t@)
}

/// The logical page a node anchors to: its own direct page when present and
/// non-zero, otherwise its first child's direct page, otherwise none.
pub open spec fn anchor_page(n: OutlineNode) -> Option<u32> {
    if n.direct_page != 0 {
        Some(n.direct_page)
    } else if n.children@.len() > 0 {
        Some(n.children@[0].direct_page)
    } else {
        None
    }
}

/// Resolution of one node against a document of `page_count` physical pages
/// (numbered `0 .. page_count`), correcting the anchor by `shift`.
pub open spec fn spec_resolve(n: OutlineNode, shift: int, page_count: int) -> Result<int, EdukaError> {
    match anchor_page(n) {
        None => Err(EdukaError::NoAnchor),
        Some(lp) => {
            let p = lp - shift;
            if 0 <= p < page_count {
                Ok(p)
            } else {
                Err(EdukaError::PageOffsetMismatch)
            }
        }
    }
}

/// Returns the physical page `n` anchors to in a document of `page_count`
/// pages, given the book's page shift: `direct_page - page_shift`, falling
/// back to the first child's direct page when `n` has none of its own.
/// Fails with `NoAnchor` when there is no child to borrow a page from, and
/// with `PageOffsetMismatch` when the corrected page is not a page of the
/// document.
pub fn resolve_node(n: &OutlineNode, page_shift: i64, page_count: u32) -> (r: Result<u32, EdukaError>)
    ensures
        match r {
            Ok(p) => spec_resolve(*n, page_shift as int, page_count as int) == Ok::<int, EdukaError>(p as int),
            Err(e) => spec_resolve(*n, page_shift as int, page_count as int) == Err::<int, EdukaError>(e),
        },
{
    let anchor: u32 = if n.direct_page != 0 {
        n.direct_page
    } else if n.children.len() > 0 {
        n.children[0].direct_page
    } else {
        return Err(EdukaError::NoAnchor);
    };
    let p: i128 = anchor as i128 - page_shift as i128;
    if 0 <= p && p < page_count as i128 {
        Ok(p as u32)
    } else {
        Err(EdukaError::PageOffsetMismatch)
    }
}

/// The outline entries and skipped titles produced by walking the first `j`
/// nodes of `nodes` (and, recursively, their subtrees) in pre-order.
/// `parent` is the arena index of the entry the nodes hang under, and `base`
/// the arena index the first produced entry will occupy. A node that fails
/// to resolve produces no entry, its subtree is not visited, and its raw
/// title is recorded as skipped; its siblings are still processed.
pub open spec fn spec_forest_outline(
    nodes: Seq<OutlineNode>,
    j: int,
    shift: int,
    page_count: int,
    parent: Option<int>,
    base: int,
) -> (Seq<EntryModel>, Seq<Seq<char>>)
    decreases nodes, j,
{
    if j <= 0 || j > nodes.len() {
        (Seq::empty(), Seq::empty())
    } else {
        let prev = spec_forest_outline(nodes, j - 1, shift, page_count, parent, base);
        let cur = spec_node_outline(nodes[j - 1], shift, page_count, parent, base + prev.0.len());
        (prev.0 + cur.0, prev.1 + cur.1)
    }
}

/// The entries and skipped titles of one node's subtree: on resolution the
/// node's own entry (sanitized title, resolved page, `parent`) followed by
/// its children's entries, which hang under arena index `base`; on failure
/// no entry, and the node's title recorded as skipped.
pub open spec fn spec_node_outline(
    n: OutlineNode,
    shift: int,
    page_count: int,
    parent: Option<int>,
    base: int,
) -> (Seq<EntryModel>, Seq<Seq<char>>)
    decreases n, 0int,
{
    match spec_resolve(n, shift, page_count) {
        Ok(p) => {
            let child = spec_forest_outline(
                n.children@,
                n.children@.len() as int,
                shift,
                page_count,
                Some(base),
                base + 1,
            );
            (seq![EntryModel { title: ascii_of(n.title@), page: p, parent }] + child.0, child.1)
        }
        Err(_) => (Seq::empty(), seq![n.title@]),
    }
}

/// The `Option<usize>` parent handed around by the executable builder, as
/// the model's `Option<int>`.
pub open spec fn parent_view(p: Option<usize>) -> Option<int> {
    match p {
        Some(i) => Some(i as int),
        None => None,
    }
}

proof fn lemma_views_push(s: Seq<DocumentOutlineEntry>, e: DocumentOutlineEntry)
    ensures
        views_of(s.push(e)) == views_of(s).push(e@),
{
    assert(views_of(s.push(e)) =~= views_of(s).push(e@));
}

proof fn lemma_titles_push(s: Seq<String>, t: String)
    ensures
        titles_of(s.push(t)) == titles_of(s).push(t@),
{
    assert(titles_of(s.push(t)) =~= titles_of(s).push(t@));
}

/// Walks `nodes` in order, appending each node's subtree entries to `out`
/// and each failing node's title to `skipped`, exactly as
/// [`spec_forest_outline`] describes, with arena indices continuing from the
/// entries already in `out`.
fn build_forest(
    nodes: &Vec<OutlineNode>,
    page_shift: i64,
    page_count: u32,
    parent: Option<usize>,
    out: &mut Vec<DocumentOutlineEntry>,
    skipped: &mut Vec<String>,
)
    ensures
        views_of(final(out)@) == views_of(old(out)@) + spec_forest_outline(
            nodes@,
            nodes@.len() as int,
            page_shift as int,
            page_count as int,
            parent_view(parent),
            old(out)@.len() as int,
        ).0,
        titles_of(final(skipped)@) == titles_of(old(skipped)@) + spec_forest_outline(
            nodes@,
            nodes@.len() as int,
            page_shift as int,
            page_count as int,
            parent_view(parent),
            old(out)@.len() as int,
        ).1,
    decreases nodes@,
{
    let ghost base = old(out)@.len() as int;
    let ghost shift = page_shift as int;
    let ghost pc = page_count as int;
    let ghost par = parent_view(parent);
    let mut j: usize = 0;
    while j < nodes.len()
        invariant
            j <= nodes@.len(),
            base == old(out)@.len(),
            shift == page_shift as int,
            pc == page_count as int,
            par == parent_view(parent),
            views_of(out@) == views_of(old(out)@) + spec_forest_outline(
                nodes@, j as int, shift, pc, par, base).0,
            titles_of(skipped@) == titles_of(old(skipped)@) + spec_forest_outline(
                nodes@, j as int, shift, pc, par, base).1,
        decreases nodes@.len() - j,
    {
        let ghost prev = spec_forest_outline(nodes@, j as int, shift, pc, par, base);
        let node = &nodes[j];
        match resolve_node(node, page_shift, page_count) {
            Ok(p) => {
                let title = sanitize_title(node.title.as_str());
                let idx = out.len();
                proof {
                    assert(views_of(out@).len() == out@.len());
                    lemma_views_push(out@, DocumentOutlineEntry { title, page: p, parent });
                }
                out.push(DocumentOutlineEntry { title, page: p, parent });
                proof {
                    assert(decreases_to!(nodes@ => nodes@[j as int].children@));
                }
                build_forest(&node.children, page_shift, page_count, Some(idx), out, skipped);
                proof {
                    let cur = spec_node_outline(nodes@[j as int], shift, pc, par, base + prev.0.len());
                    assert(views_of(out@) =~= views_of(old(out)@) + spec_forest_outline(
                        nodes@, j + 1, shift, pc, par, base).0);
                    assert(titles_of(skipped@) =~= titles_of(old(skipped)@) + spec_forest_outline(
                        nodes@, j + 1, shift, pc, par, base).1);
                }
            }
            Err(_) => {
                proof {
                    lemma_titles_push(skipped@, node.title);
                }
                skipped.push(node.title.clone());
                proof {
                    assert(views_of(out@) =~= views_of(old(out)@) + spec_forest_outline(
                        nodes@, j + 1, shift, pc, par, base).0);
                    assert(titles_of(skipped@) =~= titles_of(old(skipped)@) + spec_forest_outline(
                        nodes@, j + 1, shift, pc, par, base).1);
                }
            }
        }
        j += 1;
    }
}

/// Well-formedness of an outline arena built under `parent` starting at
/// arena index `base`: every entry's target page is a page of the document,
/// and every entry hangs either under the enclosing `parent` or under an
/// earlier entry of the same walk.
pub open spec fn entries_wf(
    entries: Seq<EntryModel>,
    parent: Option<int>,
    base: int,
    page_count: int,
) -> bool {
    forall|k: int|
        0 <= k < entries.len() ==> {
            &&& 0 <= (#[trigger] entries[k]).page < page_count
            &&& (entries[k].parent == parent || (match entries[k].parent {
                Some(q) => base <= q < base + k,
                None => false,
            }))
        }
}

/// Arena law for a forest: no entry ever dangles — its target page exists
/// in the document — and parents always precede their children: each entry
/// points at the enclosing parent or at an earlier entry.
pub proof fn lemma_entries_wf_forest(
    nodes: Seq<OutlineNode>,
    j: int,
    shift: int,
    page_count: int,
    parent: Option<int>,
    base: int,
)
    ensures
        entries_wf(
            spec_forest_outline(nodes, j, shift, page_count, parent, base).0,
            parent,
            base,
            page_count,
        ),
    decreases nodes, j,
{
    if j <= 0 || j > nodes.len() {
    } else {
        let prev = spec_forest_outline(nodes, j - 1, shift, page_count, parent, base);
        let cur = spec_node_outline(nodes[j - 1], shift, page_count, parent, base + prev.0.len());
        let all = spec_forest_outline(nodes, j, shift, page_count, parent, base).0;
        lemma_entries_wf_forest(nodes, j - 1, shift, page_count, parent, base);
        lemma_entries_wf_node(nodes[j - 1], shift, page_count, parent, base + prev.0.len());
        assert forall|k: int| 0 <= k < all.len() implies {
            &&& 0 <= (#[trigger] all[k]).page < page_count
            &&& (all[k].parent == parent || (match all[k].parent {
                Some(q) => base <= q < base + k,
                None => false,
            }))
        } by {
            if k < prev.0.len() {
                assert(all[k] == prev.0[k]);
            } else {
                assert(all[k] == cur.0[k - prev.0.len()]);
            }
        }
    }
}

/// Arena law for one subtree: its own entry hangs under `parent`, every
/// entry below hangs under an earlier entry, and no target page dangles.
pub proof fn lemma_entries_wf_node(
    n: OutlineNode,
    shift: int,
    page_count: int,
    parent: Option<int>,
    base: int,
)
    ensures
        entries_wf(
            spec_node_outline(n, shift, page_count, parent, base).0,
            parent,
            base,
            page_count,
        ),
    decreases n, 0int,
{
    match spec_resolve(n, shift, page_count) {
        Ok(p) => {
            let child = spec_forest_outline(
                n.children@,
                n.children@.len() as int,
                shift,
                page_count,
                Some(base),
                base + 1,
            );
            let own = seq![EntryModel { title: ascii_of(n.title@), page: p, parent }];
            let all = spec_node_outline(n, shift, page_count, parent, base).0;
            lemma_entries_wf_forest(
                n.children@,
                n.children@.len() as int,
                shift,
                page_count,
                Some(base),
                base + 1,
            );
            assert forall|k: int| 0 <= k < all.len() implies {
                &&& 0 <= (#[trigger] all[k]).page < page_count
                &&& (all[k].parent == parent || (match all[k].parent {
                    Some(q) => base <= q < base + k,
                    None => false,
                }))
            } by {
                if k == 0 {
                    assert(all[0] == own[0]);
                } else {
                    assert(all[k] == child.0[k - 1]);
                }
            }
        }
        Err(_) => {}
    }
}

/// The titles of the first `j` of `nodes` and of their subtrees, in
/// pre-order: parent before children, children in the given order.
pub open spec fn preorder_titles(nodes: Seq<OutlineNode>, j: int) -> Seq<Seq<char>>
    decreases nodes, j,
{
    if j <= 0 || j > nodes.len() {
        Seq::empty()
    } else {
        preorder_titles(nodes, j - 1) + node_preorder_titles(nodes[j - 1])
    }
}

/// The titles of one node's subtree in pre-order: the node's own title
/// first, then its children's subtrees in order.
pub open spec fn node_preorder_titles(n: OutlineNode) -> Seq<Seq<char>>
    decreases n, 0int,
{
    seq![n.title@] + preorder_titles(n.children@, n.children@.len() as int)
}

/// True when each of the first `j` of `nodes`, and every node below them,
/// resolves against a document of `page_count` pages.
pub open spec fn all_resolve(nodes: Seq<OutlineNode>, j: int, shift: int, page_count: int) -> bool
    decreases nodes, j,
{
    if j <= 0 || j > nodes.len() {
        true
    } else {
        all_resolve(nodes, j - 1, shift, page_count) && node_resolves(nodes[j - 1], shift, page_count)
    }
}

/// True when `n` and every node below it resolve.
pub open spec fn node_resolves(n: OutlineNode, shift: int, page_count: int) -> bool
    decreases n, 0int,
{
    spec_resolve(n, shift, page_count) is Ok && all_resolve(
        n.children@,
        n.children@.len() as int,
        shift,
        page_count,
    )
}

/// The title of each entry model, in order.
pub open spec fn entry_titles(s: Seq<EntryModel>) -> Seq<Seq<char>> {
    s.map_values(|e: EntryModel| e.title)
}

/// Each title sanitized, in order.
pub open spec fn sanitize_all(s: Seq<Seq<char>>) -> Seq<Seq<char>> {
    s.map_values(|t: Seq<char>| ascii_of(t))
}

proof fn lemma_entry_titles_concat(a: Seq<EntryModel>, b: Seq<EntryModel>)
    ensures
        entry_titles(a + b) == entry_titles(a) + entry_titles(b),
{
    assert(entry_titles(a + b) =~= entry_titles(a) + entry_titles(b));
}

proof fn lemma_sanitize_all_concat(a: Seq<Seq<char>>, b: Seq<Seq<char>>)
    ensures
        sanitize_all(a + b) == sanitize_all(a) + sanitize_all(b),
{
    assert(sanitize_all(a + b) =~= sanitize_all(a) + sanitize_all(b));
}

/// Traversal order law: whenever every node of the forest resolves, the
/// builder visits the tree in pre-order — the titles of the produced
/// entries are exactly the pre-order traversal of the source titles, each
/// sanitized — and nothing is skipped.
pub proof fn lemma_builder_preorder(
    nodes: Seq<OutlineNode>,
    j: int,
    shift: int,
    page_count: int,
    parent: Option<int>,
    base: int,
)
    requires
        all_resolve(nodes, j, shift, page_count),
    ensures
        entry_titles(spec_forest_outline(nodes, j, shift, page_count, parent, base).0)
            == sanitize_all(preorder_titles(nodes, j)),
        spec_forest_outline(nodes, j, shift, page_count, parent, base).1 == Seq::<Seq<char>>::empty(),
    decreases nodes, j,
{
    if j <= 0 || j > nodes.len() {
        assert(entry_titles(spec_forest_outline(nodes, j, shift, page_count, parent, base).0)
            =~= sanitize_all(preorder_titles(nodes, j)));
    } else {
        let prev = spec_forest_outline(nodes, j - 1, shift, page_count, parent, base);
        let cur = spec_node_outline(nodes[j - 1], shift, page_count, parent, base + prev.0.len());
        lemma_builder_preorder(nodes, j - 1, shift, page_count, parent, base);
        lemma_node_preorder(nodes[j - 1], shift, page_count, parent, base + prev.0.len());
        lemma_entry_titles_concat(prev.0, cur.0);
        lemma_sanitize_all_concat(preorder_titles(nodes, j - 1), node_preorder_titles(nodes[j - 1]));
        assert(spec_forest_outline(nodes, j, shift, page_count, parent, base).1
            =~= Seq::<Seq<char>>::empty());
    }
}

/// Traversal order law for one subtree: when `n` and everything below it
/// resolve, its entries' titles are its pre-order titles, sanitized, and
/// nothing in the subtree is skipped.
pub proof fn lemma_node_preorder(
    n: OutlineNode,
    shift: int,
    page_count: int,
    parent: Option<int>,
    base: int,
)
    requires
        node_resolves(n, shift, page_count),
    ensures
        entry_titles(spec_node_outline(n, shift, page_count, parent, base).0)
            == sanitize_all(node_preorder_titles(n)),
        spec_node_outline(n, shift, page_count, parent, base).1 == Seq::<Seq<char>>::empty(),
    decreases n, 0int,
{
    let p = spec_resolve(n, shift, page_count)->Ok_0;
    let own = seq![EntryModel { title: ascii_of(n.title@), page: p, parent }];
    let child = spec_forest_outline(
        n.children@,
        n.children@.len() as int,
        shift,
        page_count,
        Some(base),
        base + 1,
    );
    lemma_builder_preorder(
        n.children@,
        n.children@.len() as int,
        shift,
        page_count,
        Some(base),
        base + 1,
    );
    lemma_entry_titles_concat(own, child.0);
    lemma_sanitize_all_concat(
        seq![n.title@],
        preorder_titles(n.children@, n.children@.len() as int),
    );
    assert(entry_titles(own) =~= seq![ascii_of(n.title@)]);
    assert(sanitize_all(seq![n.title@]) =~= seq![ascii_of(n.title@)]);
}

/// What one pass of the outline builder produced: the arena of outline
/// entries in pre-order, and the raw titles of the nodes whose subtrees were
/// skipped because they did not resolve.
pub struct OutlineReport {
    pub entries: Vec<DocumentOutlineEntry>,
    pub skipped: Vec<String>,
}

/// Builds the document outline arena for a whole table of contents: the
/// root nodes and, recursively, their children, visited in source order,
/// parent before children. Every produced entry carries a sanitized title, a
/// physical page of the document (`0 .. page_count`), and the arena index of
/// its parent entry; nodes that do not resolve are skipped with their
/// subtrees and reported by title.
pub fn build_outline(bookmarks: &Vec<OutlineNode>, page_shift: i64, page_count: u32) -> (r: OutlineReport)
    ensures
        views_of(r.entries@) == spec_forest_outline(
            bookmarks@,
            bookmarks@.len() as int,
            page_shift as int,
            page_count as int,
            None,
            0,
        ).0,
        titles_of(r.skipped@) == spec_forest_outline(
            bookmarks@,
            bookmarks@.len() as int,
            page_shift as int,
            page_count as int,
            None,
            0,
        ).1,
{
    let mut entries: Vec<DocumentOutlineEntry> = Vec::new();
    let mut skipped: Vec<String> = Vec::new();
    build_forest(bookmarks, page_shift, page_count, None, &mut entries, &mut skipped);
    OutlineReport { entries, skipped }
}

} // verus!
