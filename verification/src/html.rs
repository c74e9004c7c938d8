//! A flat, plain-value model of a parsed HTML document and the tree queries
//! that the catalog reader performs on it.
//!
//! The document is the list of its nodes in document (pre-)order, each with
//! its depth below the document root.  The descendants of node `i` are then
//! exactly the nodes after `i` up to the first node that is not deeper.
use vstd::prelude::*;
use crate::text::{chars_eq, normalize_ws, normalize_ws_chars, occurs_at, occurs_at_exec, push_str, str_chars};

verus! {

/// What a node of the document is, as far as the catalog reader needs it.
#[derive(Debug)]
pub enum HtmlNodeKind {
    /// An element: its local name and its `class` and `href` attributes.
    Element { name: String, class_attr: Option<String>, href: Option<String> },
    /// A text node.
    Text { text: String },
    /// The document root, a doctype, a comment or a processing instruction.
    Other,
}

#[derive(Debug)]
pub struct HtmlNode {
    /// Number of ancestors of the node (the document root has depth 0).
    pub depth: usize,
    /// Position of the node in the parser's node arena, i.e. the order in
    /// which the parser created the nodes.
    pub created: usize,
    pub kind: HtmlNodeKind,
}

#[verifier::external_type_specification]
#[verifier::external_body]
pub struct ExScraperNode(scraper::Node);

/// The nodes that `scraper` produces for an HTML text, in document order.
pub uninterp spec fn parsed_html(html: Seq<char>) -> Seq<HtmlNode>;

/// Converts one `scraper` node value into the plain model.
#[verifier::external_body]
fn plain_node(value: &scraper::Node, depth: usize, created: usize) -> HtmlNode {
    let kind = match value {
        scraper::Node::Element(e) => HtmlNodeKind::Element {
            name: e.name().to_string(),
            class_attr: e.attr("class").map(str::to_string),
            href: e.attr("href").map(str::to_string),
        },
        scraper::Node::Text(t) => HtmlNodeKind::Text { text: t.to_string() },
        scraper::Node::Document => HtmlNodeKind::Other,
        scraper::Node::Fragment => HtmlNodeKind::Other,
        scraper::Node::Doctype(_) => HtmlNodeKind::Other,
        scraper::Node::Comment(_) => HtmlNodeKind::Other,
        scraper::Node::ProcessingInstruction(_) => HtmlNodeKind::Other,
    };
    HtmlNode { depth, created, kind }
}

/// Parses an HTML document with `scraper::Html::parse_document` and lists its
/// nodes in document order (`NodeRef::descendants` of the tree root), each
/// with its number of ancestors and its position in the tree's node arena
/// (`Tree::nodes`, the order `Html::select` walks).
#[verifier::external_body]
pub(crate) fn parse_html(html: &str) -> (nodes: Vec<HtmlNode>)
    ensures
        nodes@ == parsed_html(html@),
{
    let doc = scraper::Html::parse_document(html);
    let arena: std::collections::HashMap<_, usize> =
        doc.tree.nodes().enumerate().map(|(i, n)| (n.id(), i)).collect();
    let mut nodes = Vec::new();
    for node in doc.tree.root().descendants() {
        nodes.push(plain_node(node.value(), node.ancestors().count(), arena[&node.id()]));
    }
    nodes
}

// ---------------------------------------------------------------------------
// Node predicates
// ---------------------------------------------------------------------------

pub open spec fn elem_named(n: HtmlNode, name: Seq<char>) -> bool {
    match n.kind {
        HtmlNodeKind::Element { name: nm, .. } => nm@ == name,
        _ => false,
    }
}

pub open spec fn node_text(n: HtmlNode) -> Seq<char> {
    match n.kind {
        HtmlNodeKind::Text { text } => text@,
        _ => seq![],
    }
}

/// The `href` attribute of an element, or the empty text (`unwrap_or_default`).
pub open spec fn href_of(n: HtmlNode) -> Seq<char> {
    match n.kind {
        HtmlNodeKind::Element { href: Some(h), .. } => h@,
        _ => seq![],
    }
}

/// ASCII whitespace, the separator of a class list (`split_ascii_whitespace`).
pub open spec fn is_ascii_ws(c: char) -> bool {
    c == ' ' || c == '\t' || c == '\n' || c == '\u{c}' || c == '\r'
}

/// `cls` stands as a whole token of the class list `attr` at position `i`.
pub open spec fn class_token_at(attr: Seq<char>, cls: Seq<char>, i: int) -> bool {
    &&& occurs_at(attr, cls, i)
    &&& (i == 0 || is_ascii_ws(attr[i - 1]))
    &&& (i + cls.len() == attr.len() || is_ascii_ws(attr[i + cls.len()]))
}

/// The element carries class `cls` (case-sensitive, as `scraper` matches classes).
pub open spec fn has_class(n: HtmlNode, cls: Seq<char>) -> bool {
    match n.kind {
        HtmlNodeKind::Element { class_attr: Some(a), .. } => exists|i: int|
            class_token_at(a@, cls, i),
        _ => false,
    }
}

pub fn is_ascii_ws_exec(c: char) -> (r: bool)
    ensures
        r == is_ascii_ws(c),
{
    c == ' ' || c == '\t' || c == '\n' || c == '\u{c}' || c == '\r'
}

pub fn elem_named_exec(n: &HtmlNode, name: &Vec<char>) -> (r: bool)
    ensures
        r == elem_named(*n, name@),
{
    match &n.kind {
        HtmlNodeKind::Element { name: nm, .. } => chars_eq(&str_chars(nm.as_str()), name),
        _ => false,
    }
}

/// Whether the class list `a` holds the token `cls`.
pub fn class_list_has(a: &str, cls: &Vec<char>) -> (r: bool)
    ensures
        r == exists|i: int| class_token_at(a@, cls@, i),
{
    let s = str_chars(a);
    let mut i: usize = 0;
    loop
        invariant
            i <= s.len(),
            s@ == a@,
            forall|j: int| 0 <= j < i ==> !class_token_at(s@, cls@, j),
        decreases s.len() - i,
    {
        if occurs_at_exec(&s, cls, i) {
            let before_ok = i == 0 || is_ascii_ws_exec(s[i - 1]);
            let after_ok = i + cls.len() == s.len() || is_ascii_ws_exec(s[i + cls.len()]);
            if before_ok && after_ok {
                assert(class_token_at(s@, cls@, i as int));
                return true;
            }
        }
        if i == s.len() {
            assert forall|j: int| !class_token_at(s@, cls@, j) by {
                if 0 <= j < i {
                } else if j >= i + 1 {
                }
            }
            return false;
        }
        i += 1;
    }
}

pub fn has_class_exec(n: &HtmlNode, cls: &Vec<char>) -> (r: bool)
    ensures
        r == has_class(*n, cls@),
{
    match &n.kind {
        HtmlNodeKind::Element { class_attr: Some(a), .. } => class_list_has(a.as_str(), cls),
        _ => false,
    }
}

// ---------------------------------------------------------------------------
// Subtrees
// ---------------------------------------------------------------------------

/// First position at or after `j` whose node is not deeper than node `i`.
pub open spec fn end_from(ns: Seq<HtmlNode>, i: int, j: int) -> int
    decreases ns.len() - j,
{
    if j < 0 || j >= ns.len() {
        ns.len() as int
    } else if ns[j].depth <= ns[i].depth {
        j
    } else {
        end_from(ns, i, j + 1)
    }
}

/// One past the last descendant of node `i`.
pub open spec fn subtree_end(ns: Seq<HtmlNode>, i: int) -> int {
    end_from(ns, i, i + 1)
}

pub proof fn lemma_end_from(ns: Seq<HtmlNode>, i: int, j: int)
    requires
        0 <= j <= ns.len(),
    ensures
        j <= end_from(ns, i, j) <= ns.len(),
    decreases ns.len() - j,
{
    if j < ns.len() && ns[j].depth > ns[i].depth {
        lemma_end_from(ns, i, j + 1);
    }
}

pub proof fn lemma_subtree_end(ns: Seq<HtmlNode>, i: int)
    requires
        0 <= i < ns.len(),
    ensures
        i < subtree_end(ns, i) <= ns.len(),
{
    lemma_end_from(ns, i, i + 1);
}

pub fn subtree_end_exec(ns: &Vec<HtmlNode>, i: usize) -> (r: usize)
    requires
        i < ns.len(),
    ensures
        r == subtree_end(ns@, i as int),
        i < r <= ns.len(),
{
    proof {
        lemma_subtree_end(ns@, i as int);
    }
    let mut j: usize = i + 1;
    while j < ns.len() && ns[j].depth > ns[i].depth
        invariant
            i < j <= ns.len(),
            end_from(ns@, i as int, j as int) == subtree_end(ns@, i as int),
        decreases ns.len() - j,
    {
        j += 1;
    }
    j
}

/// The text of the text nodes among positions `lo..hi`, concatenated.
pub open spec fn text_in(ns: Seq<HtmlNode>, lo: int, hi: int) -> Seq<char>
    decreases hi - lo,
{
    if hi <= lo {
        seq![]
    } else {
        text_in(ns, lo, hi - 1) + node_text(ns[hi - 1])
    }
}

/// `ElementRef::text` of node `i`, collapsed to single spaces and trimmed.
pub open spec fn collect_text(ns: Seq<HtmlNode>, i: int) -> Seq<char> {
    normalize_ws(text_in(ns, i + 1, subtree_end(ns, i)))
}

/// Positions among `lo..hi` holding an element named `name`, in order.
pub open spec fn named_in(ns: Seq<HtmlNode>, name: Seq<char>, lo: int, hi: int) -> Seq<int>
    decreases hi - lo,
{
    if hi <= lo {
        seq![]
    } else {
        named_in(ns, name, lo, hi - 1) + if elem_named(ns[hi - 1], name) {
            seq![hi - 1]
        } else {
            seq![]
        }
    }
}

/// Descendants of node `i` named `name`, in document order (`ElementRef::select`).
pub open spec fn descendants_named(ns: Seq<HtmlNode>, i: int, name: Seq<char>) -> Seq<int> {
    named_in(ns, name, i + 1, subtree_end(ns, i))
}

pub proof fn lemma_named_in_bounds(ns: Seq<HtmlNode>, name: Seq<char>, lo: int, hi: int)
    ensures
        forall|k: int|
            0 <= k < named_in(ns, name, lo, hi).len() ==> lo <= #[trigger] named_in(
                ns,
                name,
                lo,
                hi,
            )[k] < hi,
    decreases hi - lo,
{
    if hi > lo {
        lemma_named_in_bounds(ns, name, lo, hi - 1);
        let a = named_in(ns, name, lo, hi - 1);
        let r = named_in(ns, name, lo, hi);
        assert forall|k: int| 0 <= k < r.len() implies lo <= #[trigger] r[k] < hi by {
            if k < a.len() {
                assert(r[k] == a[k]);
            }
        }
    }
}

pub open spec fn as_ints(v: Seq<usize>) -> Seq<int> {
    v.map_values(|k: usize| k as int)
}

pub fn text_of_exec(ns: &Vec<HtmlNode>, i: usize) -> (r: Vec<char>)
    requires
        i < ns.len(),
    ensures
        r@ == collect_text(ns@, i as int),
{
    let end = subtree_end_exec(ns, i);
    let mut raw: Vec<char> = Vec::new();
    let mut j: usize = i + 1;
    while j < end
        invariant
            i < j <= end <= ns.len(),
            raw@ == text_in(ns@, i + 1, j as int),
        decreases end - j,
    {
        match &ns[j].kind {
            HtmlNodeKind::Text { text } => {
                push_str(&mut raw, text.as_str());
            },
            _ => {},
        }
        j += 1;
    }
    normalize_ws_chars(&raw)
}

pub fn descendants_named_exec(ns: &Vec<HtmlNode>, i: usize, name: &Vec<char>) -> (r: Vec<usize>)
    requires
        i < ns.len(),
    ensures
        as_ints(r@) == descendants_named(ns@, i as int, name@),
        forall|k: int| 0 <= k < r@.len() ==> i < #[trigger] r@[k] < ns.len(),
{
    let end = subtree_end_exec(ns, i);
    let mut r: Vec<usize> = Vec::new();
    let mut j: usize = i + 1;
    while j < end
        invariant
            i < j <= end <= ns.len(),
            end == subtree_end(ns@, i as int),
            as_ints(r@) == named_in(ns@, name@, i + 1, j as int),
            forall|k: int| 0 <= k < r@.len() ==> i < #[trigger] r@[k] < j,
        decreases end - j,
    {
        if elem_named_exec(&ns[j], name) {
            r.push(j);
        }
        j += 1;
        assert(as_ints(r@) == named_in(ns@, name@, i + 1, j as int));
    }
    r
}

/// The first sibling of node `i` at or after position `j` that is a `table`
/// element (`next_sibling` walked until an element named `table`).
pub open spec fn table_sibling_from(ns: Seq<HtmlNode>, i: int, j: int) -> Option<int>
    decreases ns.len() - j,
{
    if j < 0 || j >= ns.len() || ns[j].depth < ns[i].depth {
        None
    } else if elem_named(ns[j], seq!['t', 'a', 'b', 'l', 'e']) {
        Some(j)
    } else {
        proof {
            lemma_subtree_end(ns, j);
        }
        table_sibling_from(ns, i, subtree_end(ns, j))
    }
}

/// The next sibling table of node `i`.
pub open spec fn next_table_sibling(ns: Seq<HtmlNode>, i: int) -> Option<int> {
    table_sibling_from(ns, i, subtree_end(ns, i))
}

pub fn next_table_sibling_exec(ns: &Vec<HtmlNode>, i: usize) -> (r: Option<usize>)
    requires
        i < ns.len(),
    ensures
        match r {
            Some(t) => next_table_sibling(ns@, i as int) == Some(t as int) && t < ns.len(),
            None => next_table_sibling(ns@, i as int) is None,
        },
{
    let table: Vec<char> = vec!['t', 'a', 'b', 'l', 'e'];
    assert(table@ == seq!['t', 'a', 'b', 'l', 'e']);
    let mut j: usize = subtree_end_exec(ns, i);
    while j < ns.len() && ns[j].depth >= ns[i].depth
        invariant
            i < j <= ns.len(),
            table@ == seq!['t', 'a', 'b', 'l', 'e'],
            table_sibling_from(ns@, i as int, j as int) == next_table_sibling(ns@, i as int),
        decreases ns.len() - j,
    {
        if elem_named_exec(&ns[j], &table) {
            return Some(j);
        }
        j = subtree_end_exec(ns, j);
    }
    None
}

} // verus!
