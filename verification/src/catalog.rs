//! The OSD software catalog: reading it from the OSD HTML page, looking
//! entries up and comparing installed versions against it.
use vstd::prelude::*;
use crate::html::{
    as_ints, collect_text, descendants_named, descendants_named_exec, elem_named,
    elem_named_exec, has_class, has_class_exec, href_of, lemma_named_in_bounds,
    lemma_subtree_end, next_table_sibling, next_table_sibling_exec, parse_html, parsed_html,
    text_of_exec, HtmlNode, HtmlNodeKind,
};
use crate::text::{
    contains_chars, contains_seq, eq_ignore_case, lower_chars, lower_seq, str_chars,
    str_eq_ignore_case, string_from_chars, to_string, trim, trim_chars,
};
use crate::version::{compare_versions, version_order, Order};

verus! {

/// One row of the OSD catalog (or the synthetic Adaptiva entry).
#[derive(Debug)]
pub struct SoftwareEntry {
    pub category: String,
    pub description: String,
    pub version_number: String,
    pub file_version: String,
    pub silent_install_arguments: String,
    pub download_link: String,
}

/// The text content of a catalog entry.
pub struct SoftwareEntryView {
    pub category: Seq<char>,
    pub description: Seq<char>,
    pub version_number: Seq<char>,
    pub file_version: Seq<char>,
    pub silent_install_arguments: Seq<char>,
    pub download_link: Seq<char>,
}

impl View for SoftwareEntry {
    type V = SoftwareEntryView;

    open spec fn view(&self) -> SoftwareEntryView {
        SoftwareEntryView {
            category: self.category@,
            description: self.description@,
            version_number: self.version_number@,
            file_version: self.file_version@,
            silent_install_arguments: self.silent_install_arguments@,
            download_link: self.download_link@,
        }
    }
}

pub open spec fn entries_view(v: Seq<SoftwareEntry>) -> Seq<SoftwareEntryView> {
    v.map_values(|e: SoftwareEntry| e@)
}

pub open spec fn preferred_version_of(e: SoftwareEntryView) -> Seq<char> {
    if e.file_version.len() > 0 {
        e.file_version
    } else {
        e.version_number
    }
}

impl SoftwareEntry {
    /// The file version when the page gives one, otherwise the version number.
    pub fn preferred_version(&self) -> (r: &str)
        ensures
            r@ == preferred_version_of(self@),
    {
        if !self.file_version.as_str().is_empty() {
            self.file_version.as_str()
        } else {
            self.version_number.as_str()
        }
    }

    /// The synthetic catalog entry for a remotely published Adaptiva version.
    pub fn adaptiva(version: &str) -> (r: SoftwareEntry)
        ensures
            r@ == adaptiva_entry_view(version@),
    {
        SoftwareEntry {
            category: to_string("Adaptiva"),
            description: to_string("CDK Software Install Agent ( Adaptiva )"),
            version_number: to_string(version),
            file_version: to_string(version),
            silent_install_arguments: String::new(),
            download_link: String::new(),
        }
    }
}

pub open spec fn adaptiva_osd_description() -> Seq<char> {
    "CDK Software Install Agent ( Adaptiva )"@
}

// ---------------------------------------------------------------------------
// Column mapping
// ---------------------------------------------------------------------------

/// Column positions of an OSD table, found from its header cells.
#[derive(Debug, Clone, Copy)]
pub struct CatalogColumns {
    pub description: Option<usize>,
    pub version: Option<usize>,
    pub silent_install_arguments: Option<usize>,
    pub download: Option<usize>,
    /// The version column is headed "File Version".
    pub version_is_file_version: bool,
}

pub open spec fn no_columns() -> CatalogColumns {
    CatalogColumns {
        description: None,
        version: None,
        silent_install_arguments: None,
        download: None,
        version_is_file_version: false,
    }
}

/// Columns found in the first `k` headers; a later header overrides an
/// earlier one for the same column.
pub open spec fn columns_upto(headers: Seq<Seq<char>>, k: int) -> CatalogColumns
    decreases k,
{
    if k <= 0 || k > headers.len() {
        no_columns()
    } else {
        let c = columns_upto(headers, k - 1);
        let h = lower_seq(headers[k - 1]);
        let idx = (k - 1) as usize;
        let is_version = contains_seq(h, "version"@);
        CatalogColumns {
            description: if contains_seq(h, "description"@) {
                Some(idx)
            } else {
                c.description
            },
            version: if is_version {
                Some(idx)
            } else {
                c.version
            },
            silent_install_arguments: if contains_seq(h, "silent install arguments"@) {
                Some(idx)
            } else {
                c.silent_install_arguments
            },
            download: if contains_seq(h, "download"@) || contains_seq(h, "link"@) {
                Some(idx)
            } else {
                c.download
            },
            version_is_file_version: c.version_is_file_version || (is_version && contains_seq(
                h,
                "file version"@,
            )),
        }
    }
}

impl CatalogColumns {
    /// Maps header texts to column positions by their lowercase contents.
    pub fn from_headers(headers: &Vec<String>) -> (r: CatalogColumns)
        ensures
            r == columns_upto(headers@.map_values(|h: String| h@), headers@.len() as int),
    {
        let ghost hs = headers@.map_values(|h: String| h@);
        let description = str_chars("description");
        let version = str_chars("version");
        let file_version = str_chars("file version");
        let args = str_chars("silent install arguments");
        let download = str_chars("download");
        let link = str_chars("link");
        let mut c = CatalogColumns {
            description: None,
            version: None,
            silent_install_arguments: None,
            download: None,
            version_is_file_version: false,
        };
        let mut k: usize = 0;
        while k < headers.len()
            invariant
                k <= headers.len(),
                hs == headers@.map_values(|h: String| h@),
                c == columns_upto(hs, k as int),
                description@ == "description"@,
                version@ == "version"@,
                file_version@ == "file version"@,
                args@ == "silent install arguments"@,
                download@ == "download"@,
                link@ == "link"@,
            decreases headers.len() - k,
        {
            let h = lower_chars(&str_chars(headers[k].as_str()));
            assert(h@ == lower_seq(hs[k as int]));
            let is_version = contains_chars(&h, &version);
            if contains_chars(&h, &description) {
                c.description = Some(k);
            }
            if is_version {
                c.version = Some(k);
                if contains_chars(&h, &file_version) {
                    c.version_is_file_version = true;
                }
            }
            if contains_chars(&h, &args) {
                c.silent_install_arguments = Some(k);
            }
            if contains_chars(&h, &download) || contains_chars(&h, &link) {
                c.download = Some(k);
            }
            k += 1;
        }
        c
    }
}

// ---------------------------------------------------------------------------
// Links
// ---------------------------------------------------------------------------

/// What `Url::parse(base)` followed by `Url::join(href)` yields, serialised.
pub uninterp spec fn joined_url(base: Seq<char>, href: Seq<char>) -> Option<Seq<char>>;

/// Resolves `href` against `base` with the `url` crate (`Url::parse`, then
/// `Url::join`), returning the serialised URL, or `None` when either step fails.
#[verifier::external_body]
fn url_join(base: &str, href: &str) -> (r: Option<String>)
    ensures
        match r {
            Some(u) => joined_url(base@, href@) == Some(u@),
            None => joined_url(base@, href@) is None,
        },
{
    match url::Url::parse(base) {
        Ok(b) => match b.join(href) {
            Ok(u) => Some(u.to_string()),
            Err(_) => None,
        },
        Err(_) => None,
    }
}

pub open spec fn resolved_link(base: Seq<char>, href: Seq<char>) -> Seq<char> {
    if trim(href).len() == 0 {
        seq![]
    } else {
        match joined_url(base, href) {
            Some(u) => u,
            None => href,
        }
    }
}

/// Resolves a download link against the page URL; a blank link stays empty
/// and a link that cannot be resolved is kept as written.
pub fn resolve_link(base_url: &str, href: &str) -> (r: String)
    ensures
        r@ == resolved_link(base_url@, href@),
{
    if trim_chars(&str_chars(href)).len() == 0 {
        return String::new();
    }
    match url_join(base_url, href) {
        Some(u) => u,
        None => to_string(href),
    }
}

// ---------------------------------------------------------------------------
// Reading the catalog from the page
// ---------------------------------------------------------------------------

pub open spec fn is_category(n: HtmlNode) -> bool {
    elem_named(n, "div"@) && has_class(n, "category"@)
}

/// Normalised text of the cell at column `idx`, or the empty text.
pub open spec fn cell_value(ns: Seq<HtmlNode>, cells: Seq<int>, idx: Option<usize>) -> Seq<char> {
    match idx {
        Some(k) => if k < cells.len() {
            collect_text(ns, cells[k as int])
        } else {
            seq![]
        },
        None => seq![],
    }
}

/// Resolved `href` of the first link inside the cell at column `idx`.
pub open spec fn cell_link(
    ns: Seq<HtmlNode>,
    base: Seq<char>,
    cells: Seq<int>,
    idx: Option<usize>,
) -> Seq<char> {
    match idx {
        Some(k) => if k < cells.len() {
            let anchors = descendants_named(ns, cells[k as int], "a"@);
            if anchors.len() > 0 {
                resolved_link(base, href_of(ns[anchors[0]]))
            } else {
                seq![]
            }
        } else {
            seq![]
        },
        None => seq![],
    }
}

/// The entry a table row yields, if its cells hold a description.
pub open spec fn row_entry(
    ns: Seq<HtmlNode>,
    base: Seq<char>,
    category: Seq<char>,
    cols: CatalogColumns,
    row: int,
) -> Option<SoftwareEntryView> {
    let cells = descendants_named(ns, row, "td"@);
    let description = cell_value(ns, cells, cols.description);
    if cells.len() == 0 || description.len() == 0 {
        None
    } else {
        let version = cell_value(ns, cells, cols.version);
        Some(
            SoftwareEntryView {
                category,
                description,
                version_number: version,
                file_version: if cols.version_is_file_version {
                    version
                } else {
                    seq![]
                },
                silent_install_arguments: cell_value(ns, cells, cols.silent_install_arguments),
                download_link: cell_link(ns, base, cells, cols.download),
            },
        )
    }
}

/// Entries of the rows `rows[1..k]` (the first row holds the headers).
pub open spec fn rows_entries(
    ns: Seq<HtmlNode>,
    base: Seq<char>,
    category: Seq<char>,
    cols: CatalogColumns,
    rows: Seq<int>,
    k: int,
) -> Seq<SoftwareEntryView>
    decreases k,
{
    if k <= 1 || k > rows.len() {
        seq![]
    } else {
        rows_entries(ns, base, category, cols, rows, k - 1) + match row_entry(
            ns,
            base,
            category,
            cols,
            rows[k - 1],
        ) {
            Some(e) => seq![e],
            None => seq![],
        }
    }
}

/// Header texts of the table's first row.
pub open spec fn header_texts(ns: Seq<HtmlNode>, header_row: int) -> Seq<Seq<char>> {
    descendants_named(ns, header_row, "th"@).map_values(|k: int| collect_text(ns, k))
}

pub open spec fn table_columns(ns: Seq<HtmlNode>, rows: Seq<int>) -> CatalogColumns {
    if rows.len() == 0 {
        no_columns()
    } else {
        let hs = header_texts(ns, rows[0]);
        columns_upto(hs, hs.len() as int)
    }
}

/// Entries listed under the category heading at node `i`.
pub open spec fn section_entries(ns: Seq<HtmlNode>, base: Seq<char>, i: int) -> Seq<
    SoftwareEntryView,
> {
    match next_table_sibling(ns, i) {
        None => seq![],
        Some(t) => {
            let rows = descendants_named(ns, t, "tr"@);
            rows_entries(
                ns,
                base,
                collect_text(ns, i),
                table_columns(ns, rows),
                rows,
                rows.len() as int,
            )
        },
    }
}

/// Positions, in document order, of the category headings among the first
/// `k` nodes.
pub open spec fn category_positions(ns: Seq<HtmlNode>, k: int) -> Seq<int>
    decreases k,
{
    if k <= 0 || k > ns.len() {
        seq![]
    } else {
        category_positions(ns, k - 1) + if is_category(ns[k - 1]) {
            seq![k - 1]
        } else {
            seq![]
        }
    }
}

/// The first heading among `cats[j..]` that the parser created `r`-th.
pub open spec fn heading_created(ns: Seq<HtmlNode>, cats: Seq<int>, r: int, j: int) -> Option<int>
    decreases cats.len() - j,
{
    if j < 0 || j >= cats.len() {
        None
    } else if ns[cats[j]].created == r {
        Some(cats[j])
    } else {
        heading_created(ns, cats, r, j + 1)
    }
}

/// The latest creation position among the headings `cats[..j]`.
pub open spec fn last_created(ns: Seq<HtmlNode>, cats: Seq<int>, j: int) -> nat
    decreases j,
{
    if j <= 0 || j > cats.len() {
        0
    } else {
        let m = last_created(ns, cats, j - 1);
        if ns[cats[j - 1]].created > m {
            ns[cats[j - 1]].created as nat
        } else {
            m
        }
    }
}

/// Entries under the headings created at positions below `r`, in creation
/// order.
pub open spec fn catalog_by_creation(ns: Seq<HtmlNode>, base: Seq<char>, cats: Seq<int>, r: int) -> Seq<
    SoftwareEntryView,
>
    decreases r,
{
    if r <= 0 {
        seq![]
    } else {
        catalog_by_creation(ns, base, cats, r - 1) + match heading_created(ns, cats, r - 1, 0) {
            Some(p) => section_entries(ns, base, p),
            None => seq![],
        }
    }
}

/// The catalog an OSD page lists: for every `div.category` heading, in the
/// order the parser created the headings (the order `Html::select` yields
/// them), the rows of the first `table` that follows it as a sibling, mapped
/// through the table's header row.
pub open spec fn catalog_of(ns: Seq<HtmlNode>, base: Seq<char>) -> Seq<SoftwareEntryView> {
    let cats = category_positions(ns, ns.len() as int);
    if cats.len() == 0 {
        seq![]
    } else {
        catalog_by_creation(ns, base, cats, (last_created(ns, cats, cats.len() as int) + 1) as int)
    }
}

proof fn lemma_category_positions(ns: Seq<HtmlNode>, k: int)
    requires
        0 <= k <= ns.len(),
    ensures
        forall|j: int|
            0 <= j < category_positions(ns, k).len() ==> 0 <= #[trigger] category_positions(
                ns,
                k,
            )[j] < k,
    decreases k,
{
    if k > 0 {
        lemma_category_positions(ns, k - 1);
        let p = category_positions(ns, k - 1);
        let q = category_positions(ns, k);
        assert forall|j: int| 0 <= j < q.len() implies 0 <= #[trigger] q[j] < k by {
            if j < p.len() {
                assert(q[j] == p[j]);
            }
        }
    }
}

fn cell_value_exec(ns: &Vec<HtmlNode>, cells: &Vec<usize>, idx: Option<usize>) -> (r: Vec<char>)
    requires
        forall|k: int| 0 <= k < cells@.len() ==> #[trigger] cells@[k] < ns@.len(),
    ensures
        r@ == cell_value(ns@, as_ints(cells@), idx),
{
    match idx {
        Some(k) => if k < cells.len() {
            text_of_exec(ns, cells[k])
        } else {
            Vec::new()
        },
        None => Vec::new(),
    }
}

fn cell_link_exec(ns: &Vec<HtmlNode>, base: &str, cells: &Vec<usize>, idx: Option<usize>) -> (r:
    String)
    requires
        forall|k: int| 0 <= k < cells@.len() ==> #[trigger] cells@[k] < ns@.len(),
    ensures
        r@ == cell_link(ns@, base@, as_ints(cells@), idx),
{
    match idx {
        Some(k) => if k < cells.len() {
            let a: Vec<char> = vec!['a'];
            assert(a@ == "a"@) by {
                reveal_strlit("a");
            }
            let anchors = descendants_named_exec(ns, cells[k], &a);
            if anchors.len() > 0 {
                assert(as_ints(anchors@)[0] == anchors@[0] as int);
                match &ns[anchors[0]].kind {
                    HtmlNodeKind::Element { href: Some(h), .. } => resolve_link(base, h.as_str()),
                    _ => {
                        assert(href_of(ns@[anchors@[0] as int]) == Seq::<char>::empty());
                        assert(trim(Seq::<char>::empty()).len() == 0);
                        String::new()
                    },
                }
            } else {
                String::new()
            }
        } else {
            String::new()
        },
        None => String::new(),
    }
}

fn row_entry_exec(
    ns: &Vec<HtmlNode>,
    base: &str,
    category: &Vec<char>,
    cols: CatalogColumns,
    row: usize,
) -> (r: Option<SoftwareEntry>)
    requires
        row < ns.len(),
    ensures
        match r {
            Some(e) => row_entry(ns@, base@, category@, cols, row as int) == Some(e@),
            None => row_entry(ns@, base@, category@, cols, row as int) is None,
        },
{
    let td: Vec<char> = vec!['t', 'd'];
    assert(td@ == "td"@) by {
        reveal_strlit("td");
    }
    let cells = descendants_named_exec(ns, row, &td);
    if cells.len() == 0 {
        return None;
    }
    let description = cell_value_exec(ns, &cells, cols.description);
    if description.len() == 0 {
        return None;
    }
    let version = cell_value_exec(ns, &cells, cols.version);
    let file_version = if cols.version_is_file_version {
        string_from_chars(&version)
    } else {
        String::new()
    };
    let args = cell_value_exec(ns, &cells, cols.silent_install_arguments);
    let link = cell_link_exec(ns, base, &cells, cols.download);
    Some(
        SoftwareEntry {
            category: string_from_chars(category),
            description: string_from_chars(&description),
            version_number: string_from_chars(&version),
            file_version,
            silent_install_arguments: string_from_chars(&args),
            download_link: link,
        },
    )
}

fn header_texts_exec(ns: &Vec<HtmlNode>, header_row: usize) -> (r: Vec<String>)
    requires
        header_row < ns.len(),
    ensures
        r@.map_values(|h: String| h@) == header_texts(ns@, header_row as int),
{
    let th: Vec<char> = vec!['t', 'h'];
    assert(th@ == "th"@) by {
        reveal_strlit("th");
    }
    let cells = descendants_named_exec(ns, header_row, &th);
    let ghost spec_cells = descendants_named(ns@, header_row as int, "th"@);
    let mut r: Vec<String> = Vec::new();
    let mut k: usize = 0;
    while k < cells.len()
        invariant
            k <= cells.len(),
            as_ints(cells@) == spec_cells,
            forall|j: int| 0 <= j < cells@.len() ==> header_row < #[trigger] cells@[j] < ns@.len(),
            r@.len() == k,
            forall|j: int|
                0 <= j < k ==> #[trigger] r@[j]@ == collect_text(ns@, spec_cells[j]),
        decreases cells.len() - k,
    {
        assert(spec_cells[k as int] == cells@[k as int] as int);
        let t = text_of_exec(ns, cells[k]);
        r.push(string_from_chars(&t));
        k += 1;
    }
    assert(r@.map_values(|h: String| h@) == header_texts(ns@, header_row as int));
    r
}

fn section_entries_exec(ns: &Vec<HtmlNode>, base: &str, i: usize) -> (r: Vec<SoftwareEntry>)
    requires
        i < ns.len(),
    ensures
        entries_view(r@) == section_entries(ns@, base@, i as int),
{
    let table = match next_table_sibling_exec(ns, i) {
        Some(t) => t,
        None => {
            return Vec::new();
        },
    };
    let category = text_of_exec(ns, i);
    let tr: Vec<char> = vec!['t', 'r'];
    assert(tr@ == "tr"@) by {
        reveal_strlit("tr");
    }
    let rows = descendants_named_exec(ns, table, &tr);
    let ghost spec_rows = as_ints(rows@);
    let cols = if rows.len() == 0 {
        CatalogColumns {
            description: None,
            version: None,
            silent_install_arguments: None,
            download: None,
            version_is_file_version: false,
        }
    } else {
        let hs = header_texts_exec(ns, rows[0]);
        CatalogColumns::from_headers(&hs)
    };
    assert(cols == table_columns(ns@, spec_rows));
    let mut r: Vec<SoftwareEntry> = Vec::new();
    if rows.len() == 0 {
        return r;
    }
    let mut k: usize = 1;
    while k < rows.len()
        invariant
            1 <= k <= rows.len(),
            spec_rows == as_ints(rows@),
            forall|j: int| 0 <= j < rows@.len() ==> #[trigger] rows@[j] < ns@.len(),
            entries_view(r@) == rows_entries(ns@, base@, category@, cols, spec_rows, k as int),
        decreases rows.len() - k,
    {
        assert(spec_rows[k as int] == rows@[k as int] as int);
        let ghost before = r@;
        match row_entry_exec(ns, base, &category, cols, rows[k]) {
            Some(e) => {
                r.push(e);
                assert(entries_view(r@) == entries_view(before) + seq![r@.last()@]);
            },
            None => {},
        }
        k += 1;
    }
    r
}

/// Builds the catalog from the nodes of a parsed OSD page; `base_url` is the
/// page's final URL, against which relative download links are resolved.
pub fn catalog_from_nodes(nodes: &Vec<HtmlNode>, base_url: &str) -> (r: Vec<SoftwareEntry>)
    ensures
        entries_view(r@) == catalog_of(nodes@, base_url@),
{
    let div: Vec<char> = vec!['d', 'i', 'v'];
    let category: Vec<char> = str_chars("category");
    assert(div@ == "div"@) by {
        reveal_strlit("div");
    }
    let mut cats: Vec<usize> = Vec::new();
    let mut k: usize = 0;
    while k < nodes.len()
        invariant
            k <= nodes.len(),
            div@ == "div"@,
            category@ == "category"@,
            as_ints(cats@) == category_positions(nodes@, k as int),
        decreases nodes.len() - k,
    {
        if elem_named_exec(&nodes[k], &div) && has_class_exec(&nodes[k], &category) {
            cats.push(k);
            assert(as_ints(cats@) == category_positions(nodes@, k as int) + seq![k as int]);
        } else {
            assert(category_positions(nodes@, k + 1) == category_positions(nodes@, k as int));
        }
        k += 1;
    }
    let ghost sc = as_ints(cats@);
    proof {
        lemma_category_positions(nodes@, nodes@.len() as int);
        assert forall|i: int| 0 <= i < cats@.len() implies #[trigger] cats@[i] < nodes@.len() by {
            assert(sc[i] == cats@[i] as int);
        }
    }
    let mut r: Vec<SoftwareEntry> = Vec::new();
    if cats.len() == 0 {
        return r;
    }
    let mut last: usize = 0;
    let mut j: usize = 0;
    while j < cats.len()
        invariant
            j <= cats.len(),
            sc == as_ints(cats@),
            forall|i: int| 0 <= i < cats@.len() ==> #[trigger] cats@[i] < nodes@.len(),
            last as nat == last_created(nodes@, sc, j as int),
        decreases cats.len() - j,
    {
        assert(sc[j as int] == cats@[j as int] as int);
        if nodes[cats[j]].created > last {
            last = nodes[cats[j]].created;
        }
        j += 1;
    }
    let mut rank: usize = 0;
    loop
        invariant_except_break
            entries_view(r@) == catalog_by_creation(nodes@, base_url@, sc, rank as int),
        invariant
            rank <= last,
            sc == as_ints(cats@),
            sc.len() > 0,
            last as nat == last_created(nodes@, sc, sc.len() as int),
            forall|i: int| 0 <= i < cats@.len() ==> #[trigger] cats@[i] < nodes@.len(),
        ensures
            entries_view(r@) == catalog_by_creation(nodes@, base_url@, sc, last + 1),
        decreases last - rank,
    {
        let mut found: Option<usize> = None;
        let mut i: usize = 0;
        while i < cats.len()
            invariant
                i <= cats.len(),
                sc == as_ints(cats@),
                forall|t: int| 0 <= t < cats@.len() ==> #[trigger] cats@[t] < nodes@.len(),
                found is None ==> heading_created(nodes@, sc, rank as int, 0) == heading_created(
                    nodes@,
                    sc,
                    rank as int,
                    i as int,
                ),
                found is Some ==> heading_created(nodes@, sc, rank as int, 0) == Some(
                    found->0 as int,
                ) && found->0 < nodes@.len(),
            decreases cats.len() - i,
        {
            assert(sc[i as int] == cats@[i as int] as int);
            if found.is_none() && nodes[cats[i]].created == rank {
                found = Some(cats[i]);
            }
            i += 1;
        }
        let ghost before = r@;
        match found {
            Some(p) => {
                let mut section = section_entries_exec(nodes, base_url, p);
                let ghost sec = section@;
                r.append(&mut section);
                assert(entries_view(r@) == entries_view(before) + entries_view(sec));
            },
            None => {},
        }
        assert(entries_view(r@) == catalog_by_creation(nodes@, base_url@, sc, rank + 1));
        if rank == last {
            break;
        }
        rank += 1;
    }
    r
}

/// Parses the OSD HTML page into catalog entries.
pub fn parse_software_catalog(html: &str, base_url: &str) -> (r: Vec<SoftwareEntry>)
    ensures
        entries_view(r@) == catalog_of(parsed_html(html@), base_url@),
{
    let nodes = parse_html(html);
    catalog_from_nodes(&nodes, base_url)
}

// ---------------------------------------------------------------------------
// Lookup and comparison
// ---------------------------------------------------------------------------

pub open spec fn described_as(e: SoftwareEntry, description: Seq<char>) -> bool {
    eq_ignore_case(e.description@, description)
}

/// Index of the first entry at or after `k` whose description matches,
/// ignoring ASCII case.
pub open spec fn first_described_from(es: Seq<SoftwareEntry>, d: Seq<char>, k: int) -> Option<int>
    decreases es.len() - k,
{
    if k < 0 || k >= es.len() {
        None
    } else if described_as(es[k], d) {
        Some(k)
    } else {
        first_described_from(es, d, k + 1)
    }
}

pub open spec fn first_described(es: Seq<SoftwareEntry>, d: Seq<char>) -> Option<int> {
    first_described_from(es, d, 0)
}

pub proof fn lemma_first_described_from(es: Seq<SoftwareEntry>, d: Seq<char>, k: int)
    requires
        0 <= k,
    ensures
        match first_described_from(es, d, k) {
            Some(i) => k <= i < es.len() && described_as(es[i], d) && forall|j: int|
                k <= j < i ==> !described_as(#[trigger] es[j], d),
            None => forall|j: int| k <= j < es.len() ==> !described_as(#[trigger] es[j], d),
        },
    decreases es.len() - k,
{
    if k < es.len() && !described_as(es[k], d) {
        lemma_first_described_from(es, d, k + 1);
    }
}

/// A lookup by description finds the first entry whose description equals
/// the requested one once both are lowercased (ASCII), and no entry is found
/// when none does: an entry whose description merely begins with, or
/// contains, the requested text is never taken for it.
pub proof fn law_lookup_is_first_case_insensitive_equal(es: Seq<SoftwareEntry>, d: Seq<char>)
    ensures
        match first_described(es, d) {
            Some(i) => 0 <= i < es.len() && crate::text::lower_seq(es[i].description@)
                =~= crate::text::lower_seq(d) && forall|j: int|
                0 <= j < i ==> !(crate::text::lower_seq(#[trigger] es[j].description@)
                    =~= crate::text::lower_seq(d)),
            None => forall|j: int|
                0 <= j < es.len() ==> !(crate::text::lower_seq(#[trigger] es[j].description@)
                    =~= crate::text::lower_seq(d)),
        },
{
    lemma_first_described_from(es, d, 0);
    match first_described(es, d) {
        Some(i) => {
            assert forall|j: int| 0 <= j < i implies !(crate::text::lower_seq(
                #[trigger] es[j].description@,
            ) =~= crate::text::lower_seq(d)) by {
                assert(!described_as(es[j], d));
            }
        },
        None => {
            assert forall|j: int| 0 <= j < es.len() implies !(crate::text::lower_seq(
                #[trigger] es[j].description@,
            ) =~= crate::text::lower_seq(d)) by {
                assert(!described_as(es[j], d));
            }
        },
    }
}

/// Finds a catalog entry by description, ignoring ASCII case.
pub fn get_software_by_description<'a>(entries: &'a Vec<SoftwareEntry>, description: &str) -> (r:
    Option<&'a SoftwareEntry>)
    ensures
        match first_described(entries@, description@) {
            Some(i) => r == Some(&entries@[i]),
            None => r is None,
        },
{
    let mut i: usize = 0;
    while i < entries.len()
        invariant
            i <= entries.len(),
            first_described(entries@, description@) == first_described_from(
                entries@,
                description@,
                i as int,
            ),
        decreases entries.len() - i,
    {
        if str_eq_ignore_case(entries[i].description.as_str(), description) {
            return Some(&entries[i]);
        }
        i += 1;
    }
    None
}

/// How an installed version relates to the catalog version.
#[derive(Debug, Clone, Copy, PartialEq, Eq, Structural)]
pub enum VersionState {
    /// The catalog is newer than what is installed.
    NeedsUpdate,
    /// What is installed is newer than the catalog.
    Newer,
    Same,
}

pub open spec fn state_of(o: Order) -> VersionState {
    match o {
        Order::Less => VersionState::NeedsUpdate,
        Order::Greater => VersionState::Newer,
        Order::Equal => VersionState::Same,
    }
}

/// The comparison of an installed version with its catalog entry.
#[derive(Debug)]
pub struct SoftwareComparison {
    pub description: String,
    pub version: String,
    pub state: VersionState,
    pub download_link: String,
    pub silent_install_arguments: String,
}

/// Compares an installed version with the catalog entry of that description:
/// `None` when the catalog has no such entry; otherwise the entry's preferred
/// version and whether the installed version is older, newer or the same.
pub fn compare_software_version(
    entries: &Vec<SoftwareEntry>,
    description: &str,
    provided_version: &str,
) -> (r: Option<SoftwareComparison>)
    ensures
        match first_described(entries@, description@) {
            None => r is None,
            Some(i) => {
                let e = entries@[i]@;
                let target = preferred_version_of(e);
                &&& r is Some
                &&& r->0.description@ == e.description
                &&& r->0.version@ == target
                &&& r->0.state == state_of(version_order(provided_version@, target))
                &&& r->0.download_link@ == e.download_link
                &&& r->0.silent_install_arguments@ == e.silent_install_arguments
            },
        },
{
    let entry = match get_software_by_description(entries, description) {
        Some(e) => e,
        None => {
            return None;
        },
    };
    let target = to_string(entry.preferred_version());
    let state = match compare_versions(provided_version, target.as_str()) {
        Order::Less => VersionState::NeedsUpdate,
        Order::Greater => VersionState::Newer,
        Order::Equal => VersionState::Same,
    };
    Some(
        SoftwareComparison {
            description: entry.description.clone(),
            version: target,
            state,
            download_link: entry.download_link.clone(),
            silent_install_arguments: entry.silent_install_arguments.clone(),
        },
    )
}

pub open spec fn version_state_text(s: VersionState) -> Seq<char> {
    match s {
        VersionState::NeedsUpdate => "Older (Web is newer)"@,
        VersionState::Newer => "Newer (Installed is newer)"@,
        VersionState::Same => "Same"@,
    }
}

/// The report text of a version state.
pub fn version_state_as_str(state: &VersionState) -> (r: &'static str)
    ensures
        r@ == version_state_text(*state),
{
    match state {
        VersionState::NeedsUpdate => "Older (Web is newer)",
        VersionState::Newer => "Newer (Installed is newer)",
        VersionState::Same => "Same",
    }
}

// ---------------------------------------------------------------------------
// The remotely published Adaptiva version
// ---------------------------------------------------------------------------

/// The Adaptiva version published as plain text: the trimmed text, or `None`
/// when nothing but whitespace was published.
pub fn adaptiva_version_from_text(text: &str) -> (r: Option<String>)
    ensures
        trim(text@).len() == 0 ==> r is None,
        trim(text@).len() > 0 ==> r is Some && r->0@ == trim(text@),
{
    let t = trim_chars(&str_chars(text));
    if t.len() == 0 {
        None
    } else {
        Some(string_from_chars(&t))
    }
}

/// Index of the first entry at or after `k` whose description is exactly `d`.
pub open spec fn first_exact_from(es: Seq<SoftwareEntryView>, d: Seq<char>, k: int) -> Option<int>
    decreases es.len() - k,
{
    if k < 0 || k >= es.len() {
        None
    } else if es[k].description == d {
        Some(k)
    } else {
        first_exact_from(es, d, k + 1)
    }
}

pub open spec fn with_version(e: SoftwareEntryView, v: Seq<char>) -> SoftwareEntryView {
    SoftwareEntryView { version_number: v, file_version: v, ..e }
}

pub open spec fn adaptiva_entry_view(v: Seq<char>) -> SoftwareEntryView {
    SoftwareEntryView {
        category: "Adaptiva"@,
        description: adaptiva_osd_description(),
        version_number: v,
        file_version: v,
        silent_install_arguments: seq![],
        download_link: seq![],
    }
}

/// The catalog with the published Adaptiva version `v` recorded: the first
/// entry described exactly as the Adaptiva agent takes `v` as its version
/// number and file version; without one, a synthetic Adaptiva entry is
/// appended.
pub open spec fn merged_catalog(es: Seq<SoftwareEntryView>, v: Seq<char>) -> Seq<SoftwareEntryView> {
    match first_exact_from(es, adaptiva_osd_description(), 0) {
        Some(i) => es.update(i, with_version(es[i], v)),
        None => es.push(adaptiva_entry_view(v)),
    }
}

proof fn lemma_first_exact_from(es: Seq<SoftwareEntryView>, d: Seq<char>, k: int)
    requires
        0 <= k,
    ensures
        match first_exact_from(es, d, k) {
            Some(i) => k <= i < es.len() && es[i].description == d && forall|j: int|
                k <= j < i ==> (#[trigger] es[j]).description != d,
            None => forall|j: int| k <= j < es.len() ==> (#[trigger] es[j]).description != d,
        },
    decreases es.len() - k,
{
    if k < es.len() && es[k].description != d {
        lemma_first_exact_from(es, d, k + 1);
    }
}

proof fn lemma_first_exact_is(es: Seq<SoftwareEntryView>, d: Seq<char>, k: int, i: int)
    requires
        0 <= k <= i < es.len(),
        es[i].description == d,
        forall|j: int| k <= j < i ==> (#[trigger] es[j]).description != d,
    ensures
        first_exact_from(es, d, k) == Some(i),
    decreases i - k,
{
    if k < i {
        lemma_first_exact_is(es, d, k + 1, i);
    }
}

/// After the published Adaptiva version is recorded, the first entry
/// described as the Adaptiva agent carries that version (as version number,
/// file version and so preferred version), and every other entry is as it
/// was.
pub proof fn law_merge_records_adaptiva_version(es: Seq<SoftwareEntryView>, v: Seq<char>)
    ensures
        ({
            let m = merged_catalog(es, v);
            match first_exact_from(m, adaptiva_osd_description(), 0) {
                Some(i) => m[i].version_number == v && m[i].file_version == v
                    && preferred_version_of(m[i]) == v && es.len() <= m.len() <= es.len() + 1
                    && forall|j: int| 0 <= j < es.len() && j != i ==> #[trigger] m[j] == es[j],
                None => false,
            }
        }),
{
    let d = adaptiva_osd_description();
    let m = merged_catalog(es, v);
    lemma_first_exact_from(es, d, 0);
    match first_exact_from(es, d, 0) {
        Some(i) => {
            assert forall|j: int| 0 <= j < i implies (#[trigger] m[j]).description != d by {
                assert(m[j] == es[j]);
            }
            lemma_first_exact_is(m, d, 0, i);
        },
        None => {
            let n = es.len() as int;
            assert forall|j: int| 0 <= j < n implies (#[trigger] m[j]).description != d by {
                assert(m[j] == es[j]);
            }
            lemma_first_exact_is(m, d, 0, n);
        },
    }
}

/// Recording the same published Adaptiva version a second time changes
/// nothing.
pub proof fn law_merge_idempotent(es: Seq<SoftwareEntryView>, v: Seq<char>)
    ensures
        merged_catalog(merged_catalog(es, v), v) == merged_catalog(es, v),
{
    let d = adaptiva_osd_description();
    let m = merged_catalog(es, v);
    law_merge_records_adaptiva_version(es, v);
    lemma_first_exact_from(m, d, 0);
    match first_exact_from(m, d, 0) {
        Some(i) => {
            assert(with_version(m[i], v) == m[i]);
            assert(m.update(i, with_version(m[i], v)) =~= m);
        },
        None => {},
    }
}

/// Records the remotely published Adaptiva version in the catalog: the first
/// entry described as the Adaptiva agent takes that version as both its
/// version number and file version; without such an entry a synthetic
/// Adaptiva entry is appended.
pub fn merge_adaptiva_catalog_entry(catalog: &mut Vec<SoftwareEntry>, adaptiva_version: String)
    ensures
        entries_view(final(catalog)@) == merged_catalog(
            entries_view(old(catalog)@),
            adaptiva_version@,
        ),
{
    let description = to_string("CDK Software Install Agent ( Adaptiva )");
    let mut i: usize = 0;
    while i < catalog.len()
        invariant
            i <= catalog.len(),
            catalog@ == old(catalog)@,
            description@ == adaptiva_osd_description(),
            first_exact_from(entries_view(old(catalog)@), adaptiva_osd_description(), 0)
                == first_exact_from(entries_view(old(catalog)@), adaptiva_osd_description(), i as int),
        decreases catalog.len() - i,
    {
        if catalog[i].description == description {
            let mut e = catalog.remove(i);
            e.version_number = adaptiva_version.clone();
            e.file_version = adaptiva_version;
            catalog.insert(i, e);
            assert(entries_view(catalog@) == entries_view(old(catalog)@).update(
                i as int,
                with_version(old(catalog)@[i as int]@, adaptiva_version@),
            ));
            return;
        }
        i += 1;
    }
    catalog.push(SoftwareEntry::adaptiva(adaptiva_version.as_str()));
    assert(entries_view(catalog@) == entries_view(old(catalog)@).push(
        adaptiva_entry_view(adaptiva_version@),
    ));
}

} // verus!
