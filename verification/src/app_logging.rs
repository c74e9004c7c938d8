//! The report: ASCII tables for the runtime summary, the CDK snapshot, the
//! OSD catalog and the installed-vs-OSD comparison.  Emitting them is the
//! caller's business; everything here returns text.
use vstd::prelude::*;
use crate::catalog::{entries_view, preferred_version_of, SoftwareEntry};
use crate::cdk_info::{path_status_text, registry_status_text, CdkInfo};
use crate::text::{concat2, concat3, extend_chars, join, join_chars, str_chars, string_from_chars, to_string};

verus! {

// ---------------------------------------------------------------------------
// ASCII tables
// ---------------------------------------------------------------------------

pub open spec fn strs(v: Seq<String>) -> Seq<Seq<char>> {
    v.map_values(|s: String| s@)
}

pub open spec fn rows_text(rows: Seq<Vec<String>>) -> Seq<Seq<Seq<char>>> {
    rows.map_values(|r: Vec<String>| strs(r@))
}

/// Line breaks inside a cell become spaces.
pub open spec fn clean_char(c: char) -> char {
    if c == '\r' || c == '\n' {
        ' '
    } else {
        c
    }
}

pub open spec fn clean_cell(s: Seq<char>) -> Seq<char> {
    s.map_values(|c: char| clean_char(c))
}

pub open spec fn repeat_char(c: char, n: nat) -> Seq<char> {
    Seq::new(n, |i: int| c)
}

/// Left-aligned in a field of `w` characters (`{:<w$}`).
pub open spec fn pad_right(s: Seq<char>, w: nat) -> Seq<char> {
    if s.len() >= w {
        s
    } else {
        s + repeat_char(' ', (w - s.len()) as nat)
    }
}

pub open spec fn cell_at(cells: Seq<Seq<char>>, c: int) -> Seq<char> {
    if 0 <= c < cells.len() {
        cells[c]
    } else {
        seq![]
    }
}

/// Widths after the header and the first `k` rows: each column as wide as its
/// widest cell, with as many columns as the widest row.
pub open spec fn widths_upto(headers: Seq<Seq<char>>, rows: Seq<Seq<Seq<char>>>, k: int) -> Seq<
    nat,
>
    decreases k,
{
    if k <= 0 || k > rows.len() {
        headers.map_values(|h: Seq<char>| h.len())
    } else {
        let w = widths_upto(headers, rows, k - 1);
        let row = rows[k - 1];
        let n = if row.len() > w.len() {
            row.len()
        } else {
            w.len()
        };
        Seq::new(
            n,
            |c: int|
                {
                    let base: nat = if c < w.len() {
                        w[c]
                    } else {
                        0
                    };
                    if c < row.len() && row[c].len() > base {
                        row[c].len()
                    } else {
                        base
                    }
                },
        )
    }
}

pub open spec fn widths_of(headers: Seq<Seq<char>>, rows: Seq<Seq<Seq<char>>>) -> Seq<nat> {
    widths_upto(headers, rows, rows.len() as int)
}

pub open spec fn row_line_upto(cells: Seq<Seq<char>>, ws: Seq<nat>, k: int) -> Seq<char>
    decreases k,
{
    if k <= 0 || k > ws.len() {
        seq!['|']
    } else {
        row_line_upto(cells, ws, k - 1) + seq![' '] + pad_right(
            clean_cell(cell_at(cells, k - 1)),
            ws[k - 1],
        ) + seq![' ', '|']
    }
}

/// One table row: `| a | b |`, each cell padded to its column width.
pub open spec fn row_line(cells: Seq<Seq<char>>, ws: Seq<nat>) -> Seq<char> {
    row_line_upto(cells, ws, ws.len() as int)
}

pub open spec fn separator_upto(ws: Seq<nat>, k: int) -> Seq<char>
    decreases k,
{
    if k <= 0 || k > ws.len() {
        seq!['+']
    } else {
        separator_upto(ws, k - 1) + repeat_char('-', ws[k - 1] + 2) + seq!['+']
    }
}

/// A separator line: `+---+---+`.
pub open spec fn separator_line(ws: Seq<nat>) -> Seq<char> {
    separator_upto(ws, ws.len() as int)
}

pub open spec fn body_lines(rows: Seq<Seq<Seq<char>>>, ws: Seq<nat>, k: int) -> Seq<Seq<char>>
    decreases k,
{
    if k <= 0 || k > rows.len() {
        seq![]
    } else {
        body_lines(rows, ws, k - 1) + seq![row_line(rows[k - 1], ws), separator_line(ws)]
    }
}

/// The lines of a table: title, blank line, separator, header row, separator,
/// then each row followed by a separator.
pub open spec fn table_lines(
    title: Seq<char>,
    headers: Seq<Seq<char>>,
    rows: Seq<Seq<Seq<char>>>,
) -> Seq<Seq<char>> {
    let ws = widths_of(headers, rows);
    seq![title, seq![], separator_line(ws), row_line(headers, ws), separator_line(ws)]
        + body_lines(rows, ws, rows.len() as int)
}

/// The whole table text: its lines joined by newlines, ending in a blank line.
pub open spec fn table_text(
    title: Seq<char>,
    headers: Seq<Seq<char>>,
    rows: Seq<Seq<Seq<char>>>,
) -> Seq<char> {
    join(table_lines(title, headers, rows), seq!['\n']) + seq!['\n', '\n']
}

/// Replaces carriage returns and line feeds with spaces.
pub fn clean_table_cell(cell: &str) -> (r: String)
    ensures
        r@ == clean_cell(cell@),
{
    let cs = str_chars(cell);
    let mut out: Vec<char> = Vec::new();
    let mut i: usize = 0;
    while i < cs.len()
        invariant
            i <= cs.len(),
            out@ == clean_cell(cs@).take(i as int),
        decreases cs.len() - i,
    {
        let c = cs[i];
        if c == '\r' || c == '\n' {
            out.push(' ');
        } else {
            out.push(c);
        }
        i += 1;
        assert(out@ == clean_cell(cs@).take(i as int));
    }
    assert(clean_cell(cs@).take(cs.len() as int) == clean_cell(cs@));
    string_from_chars(&out)
}

fn push_repeat(out: &mut Vec<char>, c: char, n: usize)
    ensures
        final(out)@ == old(out)@ + repeat_char(c, n as nat),
{
    let ghost start = out@;
    let mut i: usize = 0;
    while i < n
        invariant
            i <= n,
            out@ == start + repeat_char(c, i as nat),
        decreases n - i,
    {
        out.push(c);
        i += 1;
        assert(out@ == start + repeat_char(c, i as nat));
    }
}

/// Computes per-column widths from the headers and the row contents.
pub fn compute_widths(headers: &Vec<String>, rows: &Vec<Vec<String>>) -> (r: Vec<usize>)
    ensures
        r@.len() == widths_of(strs(headers@), rows_text(rows@)).len(),
        forall|c: int|
            0 <= c < r@.len() ==> #[trigger] r@[c] as nat == widths_of(
                strs(headers@),
                rows_text(rows@),
            )[c],
{
    let ghost hs = strs(headers@);
    let ghost rs = rows_text(rows@);
    let mut widths: Vec<usize> = Vec::new();
    let mut h: usize = 0;
    while h < headers.len()
        invariant
            h <= headers.len(),
            hs == strs(headers@),
            widths@.len() == h,
            forall|c: int| 0 <= c < h ==> #[trigger] widths@[c] as nat == hs[c].len(),
        decreases headers.len() - h,
    {
        widths.push(str_chars(headers[h].as_str()).len());
        h += 1;
    }
    let mut k: usize = 0;
    while k < rows.len()
        invariant
            k <= rows.len(),
            hs == strs(headers@),
            rs == rows_text(rows@),
            widths@.len() == widths_upto(hs, rs, k as int).len(),
            forall|c: int|
                0 <= c < widths@.len() ==> #[trigger] widths@[c] as nat == widths_upto(
                    hs,
                    rs,
                    k as int,
                )[c],
        decreases rows.len() - k,
    {
        let row = &rows[k];
        let ghost w = widths_upto(hs, rs, k as int);
        let ghost rowv = rs[k as int];
        assert(rowv == strs(row@));
        while widths.len() < row.len()
            invariant
                w.len() <= widths@.len(),
                widths@.len() == w.len() || widths@.len() <= row@.len(),
                forall|c: int| 0 <= c < w.len() ==> #[trigger] widths@[c] as nat == w[c],
                forall|c: int| w.len() <= c < widths@.len() ==> #[trigger] widths@[c] == 0,
            decreases row@.len() - widths@.len(),
        {
            widths.push(0);
        }
        let ghost w2 = widths@;
        let mut c: usize = 0;
        while c < row.len()
            invariant
                c <= row@.len(),
                row@.len() <= widths@.len(),
                widths@.len() == w2.len(),
                rowv == strs(row@),
                forall|j: int|
                    c <= j < widths@.len() ==> #[trigger] widths@[j] == w2[j],
                forall|j: int|
                    0 <= j < c ==> #[trigger] widths@[j] as nat == if rowv[j].len() > w2[j] {
                        rowv[j].len()
                    } else {
                        w2[j] as nat
                    },
            decreases row@.len() - c,
        {
            let cl = str_chars(clean_table_cell(row[c].as_str()).as_str()).len();
            assert(cl == rowv[c as int].len());
            if cl > widths[c] {
                widths.set(c, cl);
            }
            c += 1;
        }
        k += 1;
        assert(widths@.len() == widths_upto(hs, rs, k as int).len());
        assert forall|j: int| 0 <= j < widths@.len() implies #[trigger] widths@[j] as nat
            == widths_upto(hs, rs, k as int)[j] by {
            if j < w.len() {
                assert(w2[j] as nat == w[j]);
            }
        }
    }
    widths
}

/// Renders one padded, pipe-delimited row.
pub fn build_ascii_row(cells: &Vec<String>, widths: &Vec<usize>) -> (r: String)
    ensures
        r@ == row_line(strs(cells@), widths@.map_values(|w: usize| w as nat)),
{
    let ghost cs = strs(cells@);
    let ghost ws = widths@.map_values(|w: usize| w as nat);
    let mut line: Vec<char> = Vec::new();
    line.push('|');
    let mut c: usize = 0;
    while c < widths.len()
        invariant
            c <= widths.len(),
            cs == strs(cells@),
            ws == widths@.map_values(|w: usize| w as nat),
            line@ == row_line_upto(cs, ws, c as int),
        decreases widths.len() - c,
    {
        let cell = if c < cells.len() {
            clean_table_cell(cells[c].as_str())
        } else {
            String::new()
        };
        assert(cell@ == clean_cell(cell_at(cs, c as int)));
        let cell_chars = str_chars(cell.as_str());
        line.push(' ');
        extend_chars(&mut line, &cell_chars);
        if cell_chars.len() < widths[c] {
            push_repeat(&mut line, ' ', widths[c] - cell_chars.len());
        }
        line.push(' ');
        line.push('|');
        c += 1;
    }
    string_from_chars(&line)
}

/// Builds a `+---+` separator row.
pub fn build_separator(widths: &Vec<usize>) -> (r: String)
    ensures
        r@ == separator_line(widths@.map_values(|w: usize| w as nat)),
{
    let ghost ws = widths@.map_values(|w: usize| w as nat);
    let mut line: Vec<char> = Vec::new();
    line.push('+');
    let mut c: usize = 0;
    while c < widths.len()
        invariant
            c <= widths.len(),
            ws == widths@.map_values(|w: usize| w as nat),
            line@ == separator_upto(ws, c as int),
        decreases widths.len() - c,
    {
        push_repeat(&mut line, '-', widths[c]);
        line.push('-');
        line.push('-');
        line.push('+');
        c += 1;
        assert(repeat_char('-', ws[c - 1] + 2) == repeat_char('-', ws[c - 1]) + seq!['-', '-']);
    }
    string_from_chars(&line)
}

/// Builds a titled ASCII table with separators, a header row and data rows.
pub fn build_ascii_table(title: &str, headers: &Vec<String>, rows: &Vec<Vec<String>>) -> (r:
    String)
    ensures
        r@ == table_text(title@, strs(headers@), rows_text(rows@)),
{
    let ghost hs = strs(headers@);
    let ghost rs = rows_text(rows@);
    let widths = compute_widths(headers, rows);
    let ghost ws = widths_of(hs, rs);
    assert(widths@.map_values(|w: usize| w as nat) == ws);
    let sep = str_chars(build_separator(&widths).as_str());
    let mut lines: Vec<Vec<char>> = Vec::new();
    lines.push(str_chars(title));
    lines.push(Vec::new());
    lines.push(sep.clone());
    lines.push(str_chars(build_ascii_row(headers, &widths).as_str()));
    lines.push(sep.clone());
    let ghost head = seq![title@, seq![], separator_line(ws), row_line(hs, ws), separator_line(ws)];
    assert(lines@.map_values(|p: Vec<char>| p@) == head);
    let mut k: usize = 0;
    while k < rows.len()
        invariant
            k <= rows.len(),
            hs == strs(headers@),
            rs == rows_text(rows@),
            ws == widths_of(hs, rs),
            widths@.map_values(|w: usize| w as nat) == ws,
            sep@ == separator_line(ws),
            lines@.map_values(|p: Vec<char>| p@) == head + body_lines(rs, ws, k as int),
        decreases rows.len() - k,
    {
        let ghost before = lines@.map_values(|p: Vec<char>| p@);
        assert(rs[k as int] == strs(rows@[k as int]@));
        lines.push(str_chars(build_ascii_row(&rows[k], &widths).as_str()));
        lines.push(sep.clone());
        k += 1;
        assert(lines@.map_values(|p: Vec<char>| p@) == before + seq![
            row_line(rs[k - 1], ws),
            separator_line(ws),
        ]);
    }
    assert(rs.len() == rows@.len());
    let nl: Vec<char> = vec!['\n'];
    assert(nl@ == seq!['\n']);
    let mut out = join_chars(&lines, &nl);
    out.push('\n');
    out.push('\n');
    string_from_chars(&out)
}

// ---------------------------------------------------------------------------
// Laws of the table layout
// ---------------------------------------------------------------------------

proof fn lemma_widths_cover(headers: Seq<Seq<char>>, rows: Seq<Seq<Seq<char>>>, k: int)
    requires
        0 <= k <= rows.len(),
    ensures
        widths_upto(headers, rows, k).len() >= headers.len(),
        forall|c: int|
            0 <= c < headers.len() ==> #[trigger] headers[c].len() <= widths_upto(
                headers,
                rows,
                k,
            )[c],
        forall|r: int, c: int|
            0 <= r < k && 0 <= c < rows[r].len() ==> cell_fits(rows[r], widths_upto(headers, rows, k), c),
    decreases k,
{
    if k > 0 {
        lemma_widths_cover(headers, rows, k - 1);
        let w = widths_upto(headers, rows, k - 1);
        let nw = widths_upto(headers, rows, k);
        assert forall|c: int| 0 <= c < w.len() implies w[c] <= #[trigger] nw[c] by {}
        assert forall|r: int, c: int|
            0 <= r < k && 0 <= c < rows[r].len() implies cell_fits(rows[r], nw, c) by {
            if r < k - 1 {
                assert(cell_fits(rows[r], w, c));
                assert(w[c] <= nw[c]);
            }
        }
    }
}

/// Cell `c` of `cells` fits within its column width.
pub open spec fn cell_fits(cells: Seq<Seq<char>>, ws: Seq<nat>, c: int) -> bool {
    c < ws.len() && cells[c].len() <= ws[c]
}

proof fn lemma_row_line_len(cells: Seq<Seq<char>>, ws: Seq<nat>, k: int)
    requires
        0 <= k <= ws.len(),
        forall|c: int| 0 <= c < ws.len() ==> #[trigger] cell_at(cells, c).len() <= ws[c],
    ensures
        row_line_upto(cells, ws, k).len() == separator_upto(ws, k).len(),
    decreases k,
{
    if k > 0 {
        lemma_row_line_len(cells, ws, k - 1);
        assert(clean_cell(cell_at(cells, k - 1)).len() == cell_at(cells, k - 1).len());
    }
}

/// Every header and data row of a rendered table is exactly as long as its
/// separator lines: the computed column widths are at least as wide as every
/// cell, so padding lines all rows up.
pub proof fn law_table_rows_align(headers: Seq<Seq<char>>, rows: Seq<Seq<Seq<char>>>)
    ensures
        row_line(headers, widths_of(headers, rows)).len() == separator_line(
            widths_of(headers, rows),
        ).len(),
        forall|r: int|
            0 <= r < rows.len() ==> #[trigger] row_line(rows[r], widths_of(headers, rows)).len()
                == separator_line(widths_of(headers, rows)).len(),
{
    let ws = widths_of(headers, rows);
    lemma_widths_cover(headers, rows, rows.len() as int);
    assert forall|c: int| 0 <= c < ws.len() implies #[trigger] cell_at(headers, c).len()
        <= ws[c] by {
    }
    lemma_row_line_len(headers, ws, ws.len() as int);
    assert forall|r: int| 0 <= r < rows.len() implies #[trigger] row_line(rows[r], ws).len()
        == separator_line(ws).len() by {
        assert forall|c: int| 0 <= c < ws.len() implies #[trigger] cell_at(rows[r], c).len()
            <= ws[c] by {
            if c < rows[r].len() {
                assert(cell_fits(rows[r], ws, c));
            }
        }
        lemma_row_line_len(rows[r], ws, ws.len() as int);
    }
}

/// The width of a line for these column widths: one border character, then
/// per column the cell width, two padding spaces and a border.
pub open spec fn line_width(ws: Seq<nat>, k: int) -> int
    decreases k,
{
    if k <= 0 || k > ws.len() {
        1
    } else {
        line_width(ws, k - 1) + ws[k - 1] + 3
    }
}

/// No carriage return or line feed in a text.
pub open spec fn single_line(s: Seq<char>) -> bool {
    forall|i: int| 0 <= i < s.len() ==> #[trigger] s[i] != '\n' && s[i] != '\r'
}

proof fn lemma_separator_shape(ws: Seq<nat>, k: int)
    requires
        0 <= k <= ws.len(),
    ensures
        separator_upto(ws, k).len() == line_width(ws, k),
        single_line(separator_upto(ws, k)),
    decreases k,
{
    if k > 0 {
        lemma_separator_shape(ws, k - 1);
        let p = separator_upto(ws, k - 1);
        let q = separator_upto(ws, k);
        assert forall|i: int| 0 <= i < q.len() implies #[trigger] q[i] != '\n' && q[i] != '\r' by {
            if i < p.len() {
                assert(q[i] == p[i]);
            }
        }
    }
}

proof fn lemma_row_shape(cells: Seq<Seq<char>>, ws: Seq<nat>, k: int)
    requires
        0 <= k <= ws.len(),
    ensures
        single_line(row_line_upto(cells, ws, k)),
        row_line_upto(cells, ws, k).len() > 0,
        row_line_upto(cells, ws, k)[0] == '|',
        row_line_upto(cells, ws, k).last() == '|',
        cells.len() >= ws.len() ==> row_line_upto(cells, ws, k) == row_line_upto(
            cells.take(ws.len() as int),
            ws,
            k,
        ),
    decreases k,
{
    if k > 0 {
        lemma_row_shape(cells, ws, k - 1);
        let p = row_line_upto(cells, ws, k - 1);
        let cell = clean_cell(cell_at(cells, k - 1));
        let padded = pad_right(cell, ws[k - 1]);
        assert(single_line(padded)) by {
            assert forall|i: int| 0 <= i < padded.len() implies #[trigger] padded[i] != '\n'
                && padded[i] != '\r' by {
                if i < cell.len() {
                    assert(cell[i] == clean_char(cell_at(cells, k - 1)[i]));
                }
            }
        }
        let q = row_line_upto(cells, ws, k);
        assert(q == p + seq![' '] + padded + seq![' ', '|']);
        assert forall|i: int| 0 <= i < q.len() implies #[trigger] q[i] != '\n' && q[i] != '\r' by {
            if i < p.len() {
                assert(q[i] == p[i]);
            } else if i == p.len() {
            } else if i < p.len() + 1 + padded.len() {
                assert(q[i] == padded[i - p.len() - 1]);
            }
        }
        assert(q[0] == p[0]);
        if cells.len() >= ws.len() {
            assert(cell_at(cells, k - 1) == cell_at(cells.take(ws.len() as int), k - 1));
        }
    }
}

proof fn lemma_row_width(cells: Seq<Seq<char>>, ws: Seq<nat>, k: int)
    requires
        0 <= k <= ws.len(),
        forall|c: int| 0 <= c < ws.len() ==> #[trigger] cell_at(cells, c).len() <= ws[c],
    ensures
        row_line_upto(cells, ws, k).len() == line_width(ws, k),
    decreases k,
{
    if k > 0 {
        lemma_row_width(cells, ws, k - 1);
        assert(clean_cell(cell_at(cells, k - 1)).len() == cell_at(cells, k - 1).len());
    }
}

/// For any column widths that fit its cells, a row is exactly as wide as the
/// separator, one border plus each width and three more characters per
/// column; it starts and ends with `|`, holds no line break, prints a missing
/// cell as blanks and ignores cells beyond the last column.
pub proof fn law_row_line_shape(cells: Seq<Seq<char>>, ws: Seq<nat>)
    ensures
        separator_line(ws).len() == line_width(ws, ws.len() as int),
        single_line(separator_line(ws)),
        single_line(row_line(cells, ws)),
        row_line(cells, ws)[0] == '|' && row_line(cells, ws).last() == '|',
        cells.len() >= ws.len() ==> row_line(cells, ws) == row_line(
            cells.take(ws.len() as int),
            ws,
        ),
        (forall|c: int| 0 <= c < ws.len() ==> #[trigger] cell_at(cells, c).len() <= ws[c])
            ==> row_line(cells, ws).len() == line_width(ws, ws.len() as int),
{
    lemma_separator_shape(ws, ws.len() as int);
    lemma_row_shape(cells, ws, ws.len() as int);
    if forall|c: int| 0 <= c < ws.len() ==> #[trigger] cell_at(cells, c).len() <= ws[c] {
        lemma_row_width(cells, ws, ws.len() as int);
    }
}

proof fn lemma_body_lines(rows: Seq<Seq<Seq<char>>>, ws: Seq<nat>, k: int)
    requires
        0 <= k <= rows.len(),
    ensures
        body_lines(rows, ws, k).len() == 2 * k,
        forall|j: int|
            #![trigger rows[j]]
            0 <= j < k ==> body_lines(rows, ws, k)[2 * j] == row_line(rows[j], ws) && body_lines(
                rows,
                ws,
                k,
            )[2 * j + 1] == separator_line(ws),
    decreases k,
{
    if k > 0 {
        lemma_body_lines(rows, ws, k - 1);
        let p = body_lines(rows, ws, k - 1);
        let q = body_lines(rows, ws, k);
        assert forall|j: int| #![trigger rows[j]] 0 <= j < k implies q[2 * j] == row_line(rows[j], ws)
            && q[2 * j + 1] == separator_line(ws) by {
            let tail = seq![row_line(rows[k - 1], ws), separator_line(ws)];
            assert(q == p + tail);
            if j < k - 1 {
                assert(rows[j] == rows[j]);
                assert(q[2 * j] == p[2 * j]);
                assert(q[2 * j + 1] == p[2 * j + 1]);
            } else {
                assert(q[2 * j] == tail[0]);
                assert(q[2 * j + 1] == tail[1]);
            }
        }
    }
}

/// A rendered table is its lines joined by line feeds, followed by a blank
/// line: the title, an empty line, a separator, the header row, a separator,
/// then each data row followed by a separator, all for the computed widths.
/// When the title holds no line break, no line does, so these are exactly
/// the lines the text splits into.
pub proof fn law_table_layout(title: Seq<char>, headers: Seq<Seq<char>>, rows: Seq<Seq<Seq<char>>>)
    ensures
        ({
            let ws = widths_of(headers, rows);
            let l = table_lines(title, headers, rows);
            &&& table_text(title, headers, rows) == join(l, seq!['\n']) + seq!['\n', '\n']
            &&& l.len() == 5 + 2 * rows.len()
            &&& l[0] == title && l[1] == Seq::<char>::empty()
            &&& l[2] == separator_line(ws) && l[4] == separator_line(ws)
            &&& l[3] == row_line(headers, ws)
            &&& forall|k: int|
                #![trigger rows[k]]
                0 <= k < rows.len() ==> l[5 + 2 * k] == row_line(rows[k], ws) && l[6 + 2 * k]
                    == separator_line(ws)
            &&& single_line(title) ==> forall|i: int| 0 <= i < l.len() ==> single_line(
                #[trigger] l[i],
            )
        }),
{
    let ws = widths_of(headers, rows);
    let l = table_lines(title, headers, rows);
    let n = rows.len() as int;
    lemma_body_lines(rows, ws, n);
    let b = body_lines(rows, ws, n);
    assert forall|k: int| #![trigger rows[k]] 0 <= k < rows.len() implies l[5 + 2 * k] == row_line(
        rows[k],
        ws,
    ) && l[6 + 2 * k] == separator_line(ws) by {
        assert(b[2 * k] == row_line(rows[k], ws));
        assert(l[5 + 2 * k] == b[2 * k]);
        assert(b[2 * k + 1] == separator_line(ws));
        assert(l[6 + 2 * k] == b[2 * k + 1]);
    }
    lemma_separator_shape(ws, ws.len() as int);
    lemma_row_shape(headers, ws, ws.len() as int);
    if single_line(title) {
        assert forall|i: int| 0 <= i < l.len() implies single_line(#[trigger] l[i]) by {
            if i >= 5 {
                let j = (i - 5) / 2;
                if (i - 5) % 2 == 0 {
                    assert(i == 5 + 2 * j);
                    assert(0 <= j < n);
                    assert(rows[j] == rows[j]);
                    assert(l[i] == b[2 * j]);
                    assert(b[2 * j] == row_line(rows[j], ws));
                    lemma_row_shape(rows[j], ws, ws.len() as int);
                } else {
                    assert(i == 6 + 2 * j);
                    assert(0 <= j < n);
                    assert(rows[j] == rows[j]);
                    assert(l[i] == b[2 * j + 1]);
                    assert(b[2 * j + 1] == separator_line(ws));
                }
            } else if i == 1 {
                assert(l[1] == Seq::<char>::empty());
            }
        }
    }
}

// ---------------------------------------------------------------------------
// The CDK Installation Info table
// ---------------------------------------------------------------------------

pub open spec fn pairs_view(v: Seq<(String, String)>) -> Seq<(Seq<char>, Seq<char>)> {
    v.map_values(|p: (String, String)| (p.0@, p.1@))
}

/// Rows for a recursively read registry key: one per value, labelled
/// `label - name`; a single `Not Found` row when the key is absent; a single
/// `(key exists, no values)` row when it holds nothing.
pub open spec fn key_value_rows(label: Seq<char>, values: Option<Vec<(String, String)>>) -> Seq<
    (Seq<char>, Seq<char>),
> {
    match values {
        None => seq![(label, "Not Found"@)],
        Some(v) => if v@.len() == 0 {
            seq![(label, "(key exists, no values)"@)]
        } else {
            v@.map_values(|p: (String, String)| (label + " - "@ + p.0@, p.1@))
        },
    }
}

/// The ordered `(check, result)` pairs of the CDK Installation Info table.
pub open spec fn cdk_info_rows(info: CdkInfo) -> Seq<(Seq<char>, Seq<char>)> {
    seq![
        ("ADP (wsvc 4.5)"@, registry_status_text(info.adp_check)),
        ("WebStart URL Protocol"@, registry_status_text(info.webstart_url_check)),
        ("WebStart Shell Command"@, info.webstart_shell_var@),
        ("UnifyDriveEnabler"@, registry_status_text(info.unify_drive_enabler_check)),
        ("Adaptiva Client"@, registry_status_text(info.adaptiva_check)),
    ] + key_value_rows("Adaptiva CDK Key (Native)"@, info.adaptiva_cdk_key_values)
        + key_value_rows("Adaptiva CDK Key (WOW6432Node)"@, info.adaptiva_cdk_key_wow_values)
        + seq![
        ("Adaptiva Server Host (Native)"@, info.adaptiva_server_host_name@),
        ("Adaptiva Server Host (WOW6432Node)"@, info.adaptiva_server_host_name_wow@),
        ("Adaptiva Server Locator (Native)"@, info.adaptiva_server_locator_name@),
        ("Adaptiva Server Locator (WOW6432Node)"@, info.adaptiva_server_locator_name_wow@),
        ("Adaptiva Setup GUID (Native)"@, info.adaptiva_setup_guid@),
        ("Adaptiva Setup GUID (WOW6432Node)"@, info.adaptiva_setup_guid_wow@),
        ("Adaptiva Client Data Manager GUID (Native)"@, info.adaptiva_client_data_manager_guid@),
        (
            "Adaptiva Client Data Manager GUID (WOW6432Node)"@,
            info.adaptiva_client_data_manager_guid_wow@,
        ),
        ("SIA Directory"@, path_status_text(info.sia_check)),
        ("SIA Win10 XML"@, path_status_text(info.sia_xml_check)),
        ("SIA Fix Script"@, path_status_text(info.sia_fix_check)),
        ("WebStart Version (Executable)"@, info.webstart_version@),
        ("WebStart Version (Add/Remove)"@, info.webstart_add_remove_version@),
        ("CDK 3rd Party Assemblies Version"@, info.cdk_3rd_party_assemblies_version@),
        ("Adaptiva Installed Version"@, info.adaptiva_installed_version@),
        ("BlueZone Version"@, info.bluezone_version@),
    ]
}

/// A `(check, result)` pair.
pub fn check_row(label: &str, value: String) -> (r: (String, String))
    ensures
        r.0@ == label@,
        r.1@ == value@,
{
    (to_string(label), value)
}

/// Appends the rows of a recursively read registry key.
pub fn expand_key_value_rows(
    label: &str,
    values: &Option<Vec<(String, String)>>,
    rows: &mut Vec<(String, String)>,
)
    ensures
        pairs_view(final(rows)@) == pairs_view(old(rows)@) + key_value_rows(label@, *values),
{
    let ghost start = pairs_view(rows@);
    match values {
        None => {
            rows.push(check_row(label, to_string("Not Found")));
        },
        Some(v) => {
            if v.len() == 0 {
                rows.push(check_row(label, to_string("(key exists, no values)")));
            } else {
                let ghost target = v@.map_values(
                    |p: (String, String)| (label@ + " - "@ + p.0@, p.1@),
                );
                let mut k: usize = 0;
                while k < v.len()
                    invariant
                        k <= v@.len(),
                        target == v@.map_values(
                            |p: (String, String)| (label@ + " - "@ + p.0@, p.1@),
                        ),
                        pairs_view(rows@) == start + target.take(k as int),
                    decreases v.len() - k,
                {
                    let l = concat3(label, " - ", v[k].0.as_str());
                    let item = (l, v[k].1.clone());
                    proof {
                        lemma_pairs_push(rows@, item);
                        lemma_take_push(target, k as int);
                    }
                    rows.push(item);
                    k += 1;
                }
                assert(target.take(v@.len() as int) == target);
            }
        },
    }
}

/// Builds the ordered `(check, result)` pairs for the CDK Installation Info table.
pub fn cdk_info_entries(info: &CdkInfo) -> (r: Vec<(String, String)>)
    ensures
        pairs_view(r@) == cdk_info_rows(*info),
{
    let mut entries: Vec<(String, String)> = Vec::new();
    push_pair(&mut entries, "ADP (wsvc 4.5)", info.adp_check.as_string());
    push_pair(&mut entries, "WebStart URL Protocol", info.webstart_url_check.as_string());
    push_pair(&mut entries, "WebStart Shell Command", info.webstart_shell_var.clone());
    push_pair(&mut entries, "UnifyDriveEnabler", info.unify_drive_enabler_check.as_string());
    push_pair(&mut entries, "Adaptiva Client", info.adaptiva_check.as_string());
    let ghost head = pairs_view(entries@);
    expand_key_value_rows("Adaptiva CDK Key (Native)", &info.adaptiva_cdk_key_values, &mut entries);
    expand_key_value_rows(
        "Adaptiva CDK Key (WOW6432Node)",
        &info.adaptiva_cdk_key_wow_values,
        &mut entries,
    );
    let ghost mid = pairs_view(entries@);
    push_pair(&mut entries, "Adaptiva Server Host (Native)", info.adaptiva_server_host_name.clone());
    push_pair(&mut entries, "Adaptiva Server Host (WOW6432Node)", info.adaptiva_server_host_name_wow.clone());
    push_pair(&mut entries, "Adaptiva Server Locator (Native)", info.adaptiva_server_locator_name.clone());
    push_pair(&mut entries, "Adaptiva Server Locator (WOW6432Node)", info.adaptiva_server_locator_name_wow.clone());
    push_pair(&mut entries, "Adaptiva Setup GUID (Native)", info.adaptiva_setup_guid.clone());
    push_pair(&mut entries, "Adaptiva Setup GUID (WOW6432Node)", info.adaptiva_setup_guid_wow.clone());
    push_pair(&mut entries, "Adaptiva Client Data Manager GUID (Native)", info.adaptiva_client_data_manager_guid.clone());
    push_pair(&mut entries, "Adaptiva Client Data Manager GUID (WOW6432Node)", info.adaptiva_client_data_manager_guid_wow.clone());
    push_pair(&mut entries, "SIA Directory", info.sia_check.as_string());
    push_pair(&mut entries, "SIA Win10 XML", info.sia_xml_check.as_string());
    push_pair(&mut entries, "SIA Fix Script", info.sia_fix_check.as_string());
    push_pair(&mut entries, "WebStart Version (Executable)", info.webstart_version.clone());
    push_pair(&mut entries, "WebStart Version (Add/Remove)", info.webstart_add_remove_version.clone());
    push_pair(&mut entries, "CDK 3rd Party Assemblies Version", info.cdk_3rd_party_assemblies_version.clone());
    push_pair(&mut entries, "Adaptiva Installed Version", info.adaptiva_installed_version.clone());
    push_pair(&mut entries, "BlueZone Version", info.bluezone_version.clone());
    assert(pairs_view(entries@) =~= cdk_info_rows(*info));
    entries
}

pub open spec fn two_column_rows(ps: Seq<(Seq<char>, Seq<char>)>) -> Seq<Seq<Seq<char>>> {
    ps.map_values(|p: (Seq<char>, Seq<char>)| seq![p.0, p.1])
}

fn pairs_to_rows(ps: Vec<(String, String)>) -> (r: Vec<Vec<String>>)
    ensures
        rows_text(r@) == two_column_rows(pairs_view(ps@)),
{
    let ghost target = two_column_rows(pairs_view(ps@));
    let mut r: Vec<Vec<String>> = Vec::new();
    let mut ps = ps;
    let ghost all = ps@;
    let mut k: usize = 0;
    let n = ps.len();
    while k < n
        invariant
            k <= n,
            n == all.len(),
            target == two_column_rows(pairs_view(all)),
            rows_text(r@) == target.take(k as int),
            ps@.len() == n,
            forall|j: int| k <= j < n ==> ps@[j] == all[j],
        decreases n - k,
    {
        let check = ps[k].0.clone();
        let result = ps[k].1.clone();
        let mut row: Vec<String> = Vec::new();
        row.push(check);
        row.push(result);
        assert(strs(row@) =~= target[k as int]);
        proof {
            lemma_rows_text_push(r@, row);
            lemma_take_push(target, k as int);
        }
        r.push(row);
        k += 1;
    }
    r
}

proof fn lemma_rows_text_push(s: Seq<Vec<String>>, x: Vec<String>)
    ensures
        rows_text(s.push(x)) == rows_text(s).push(strs(x@)),
{
    assert(rows_text(s.push(x)) =~= rows_text(s).push(strs(x@)));
}

proof fn lemma_strs_push(s: Seq<String>, x: String)
    ensures
        strs(s.push(x)) == strs(s).push(x@),
{
    assert(strs(s.push(x)) =~= strs(s).push(x@));
}

proof fn lemma_pairs_push(s: Seq<(String, String)>, x: (String, String))
    ensures
        pairs_view(s.push(x)) == pairs_view(s).push((x.0@, x.1@)),
{
    assert(pairs_view(s.push(x)) =~= pairs_view(s).push((x.0@, x.1@)));
}

proof fn lemma_take_push<A>(s: Seq<A>, k: int)
    requires
        0 <= k < s.len(),
    ensures
        s.take(k + 1) == s.take(k).push(s[k]),
{
    assert(s.take(k + 1) =~= s.take(k).push(s[k]));
}

fn push_pair(v: &mut Vec<(String, String)>, label: &str, value: String)
    ensures
        pairs_view(final(v)@) == pairs_view(old(v)@).push((label@, value@)),
{
    let item = check_row(label, value);
    proof {
        lemma_pairs_push(v@, item);
    }
    v.push(item);
}

fn push_row(rows: &mut Vec<Vec<String>>, row: Vec<String>)
    ensures
        rows_text(final(rows)@) == rows_text(old(rows)@).push(strs(row@)),
{
    proof {
        lemma_rows_text_push(rows@, row);
    }
    rows.push(row);
}

fn row3(a: &str, b: &str, c: &str) -> (r: Vec<String>)
    ensures
        strs(r@) == seq![a@, b@, c@],
{
    let mut r = row2(a, b);
    let x = to_string(c);
    proof {
        lemma_strs_push(r@, x);
    }
    r.push(x);
    assert(strs(r@) == seq![a@, b@, c@]);
    r
}

fn row4(a: &str, b: &str, c: &str, d: &str) -> (r: Vec<String>)
    ensures
        strs(r@) == seq![a@, b@, c@, d@],
{
    let mut r = row3(a, b, c);
    let x = to_string(d);
    proof {
        lemma_strs_push(r@, x);
    }
    r.push(x);
    assert(strs(r@) == seq![a@, b@, c@, d@]);
    r
}

fn row5(a: &str, b: &str, c: &str, d: &str, e: &str) -> (r: Vec<String>)
    ensures
        strs(r@) == seq![a@, b@, c@, d@, e@],
{
    let mut r = row4(a, b, c, d);
    let x = to_string(e);
    proof {
        lemma_strs_push(r@, x);
    }
    r.push(x);
    assert(strs(r@) == seq![a@, b@, c@, d@, e@]);
    r
}

fn row6(a: &str, b: &str, c: &str, d: &str, e: &str, f: &str) -> (r: Vec<String>)
    ensures
        strs(r@) == seq![a@, b@, c@, d@, e@, f@],
{
    let mut r = row5(a, b, c, d, e);
    let x = to_string(f);
    proof {
        lemma_strs_push(r@, x);
    }
    r.push(x);
    assert(strs(r@) == seq![a@, b@, c@, d@, e@, f@]);
    r
}

/// The CDK Installation Info ASCII table.
pub fn cdk_info_table_string(info: &CdkInfo) -> (r: String)
    ensures
        r@ == table_text(
            "CDK Installation Info"@,
            seq!["Check"@, "Result"@],
            two_column_rows(cdk_info_rows(*info)),
        ),
{
    let rows = pairs_to_rows(cdk_info_entries(info));
    let headers = row2("Check", "Result");
    build_ascii_table("CDK Installation Info", &headers, &rows)
}

/// The CDK Installation Info table, as the snapshot summary logs it.
pub fn log_cdk_info_summary(info: &CdkInfo) -> (r: String)
    ensures
        r@ == table_text(
            "CDK Installation Info"@,
            seq!["Check"@, "Result"@],
            two_column_rows(cdk_info_rows(*info)),
        ),
{
    cdk_info_table_string(info)
}

// ---------------------------------------------------------------------------
// Runtime, Adaptiva, catalog and comparison tables
// ---------------------------------------------------------------------------

fn row2(a: &str, b: &str) -> (r: Vec<String>)
    ensures
        strs(r@) == seq![a@, b@],
{
    let mut r: Vec<String> = Vec::new();
    r.push(to_string(a));
    r.push(to_string(b));
    assert(strs(r@) =~= seq![a@, b@]);
    r
}

/// The Runtime Summary table logged at startup.
pub fn log_startup_summary(
    log_file_path: &str,
    mode: &str,
    version_source_url: &str,
    download_dir: &str,
    variables_dir: &str,
) -> (r: String)
    ensures
        r@ == table_text(
            "Runtime Summary"@,
            seq!["Setting"@, "Value"@],
            seq![
                seq!["App"@, "CDK Drive updater"@],
                seq!["Mode"@, mode@],
                seq!["OSD URL"@, version_source_url@],
                seq!["Download Dir"@, download_dir@],
                seq!["Variables Dir"@, variables_dir@],
                seq!["Log File"@, log_file_path@],
            ],
        ),
{
    let mut rows: Vec<Vec<String>> = Vec::new();
    push_row(&mut rows, row2("App", "CDK Drive updater"));
    push_row(&mut rows, row2("Mode", mode));
    push_row(&mut rows, row2("OSD URL", version_source_url));
    push_row(&mut rows, row2("Download Dir", download_dir));
    push_row(&mut rows, row2("Variables Dir", variables_dir));
    push_row(&mut rows, row2("Log File", log_file_path));
    let headers = row2("Setting", "Value");
    assert(rows_text(rows@) == seq![
        seq!["App"@, "CDK Drive updater"@],
        seq!["Mode"@, mode@],
        seq!["OSD URL"@, version_source_url@],
        seq!["Download Dir"@, download_dir@],
        seq!["Variables Dir"@, variables_dir@],
        seq!["Log File"@, log_file_path@],
    ]);
    build_ascii_table("Runtime Summary", &headers, &rows)
}

pub open spec fn remote_version_text(version: Option<String>) -> Seq<char> {
    match version {
        Some(v) => v@,
        None => "(not found/empty)"@,
    }
}

/// The Adaptiva Remote Version table.
pub fn log_adaptiva_remote_version(url: &str, version: &Option<String>) -> (r: String)
    ensures
        r@ == table_text(
            "Adaptiva Remote Version"@,
            seq!["Setting"@, "Value"@],
            seq![
                seq!["Source URL"@, url@],
                seq!["Remote Version"@, remote_version_text(*version)],
            ],
        ),
{
    let mut rows: Vec<Vec<String>> = Vec::new();
    push_row(&mut rows, row2("Source URL", url));
    assert(rows_text(rows@) =~= seq![seq!["Source URL"@, url@]]);
    let ghost remote_text = remote_version_text(*version);
    match version {
        Some(v) => push_row(&mut rows, row2("Remote Version", v.as_str())),
        None => push_row(&mut rows, row2("Remote Version", "(not found/empty)")),
    }
    assert(rows_text(rows@)[1] == seq!["Remote Version"@, remote_text]);
    assert(rows_text(rows@)[0] == seq!["Source URL"@, url@]);
    assert(rows_text(rows@).len() == 2);
    assert(rows_text(rows@) =~= seq![
        seq!["Source URL"@, url@],
        seq!["Remote Version"@, remote_text],
    ]);
    let headers = row2("Setting", "Value");
    build_ascii_table("Adaptiva Remote Version", &headers, &rows)
}

pub open spec fn catalog_core_rows(es: Seq<crate::catalog::SoftwareEntryView>) -> Seq<
    Seq<Seq<char>>,
> {
    es.map_values(
        |e: crate::catalog::SoftwareEntryView| seq![e.category, e.description, preferred_version_of(e)],
    )
}

pub open spec fn catalog_detail_rows(es: Seq<crate::catalog::SoftwareEntryView>) -> Seq<
    Seq<Seq<char>>,
> {
    es.map_values(
        |e: crate::catalog::SoftwareEntryView|
            seq![e.category, e.description, e.silent_install_arguments, e.download_link],
    )
}

/// The OSD Catalog Core, Details and Summary tables, in that order.
pub fn log_osd_catalog(entries: &Vec<SoftwareEntry>) -> (r: Vec<String>)
    ensures
        r@.len() == 3,
        r@[0]@ == table_text(
            "OSD Catalog Core"@,
            seq!["Category"@, "Description"@, "Version"@],
            catalog_core_rows(entries_view(entries@)),
        ),
        r@[1]@ == table_text(
            "OSD Catalog Details"@,
            seq!["Category"@, "Description"@, "Silent Install Args"@, "Download Link"@],
            catalog_detail_rows(entries_view(entries@)),
        ),
        r@[2]@ == table_text(
            "OSD Catalog Summary"@,
            seq!["Metric"@, "Value"@],
            seq![seq!["Total Entries"@, crate::text::dec(entries@.len())]],
        ),
{
    let ghost es = entries_view(entries@);
    let mut core_rows: Vec<Vec<String>> = Vec::new();
    let mut detail_rows: Vec<Vec<String>> = Vec::new();
    let mut k: usize = 0;
    while k < entries.len()
        invariant
            k <= entries.len(),
            es == entries_view(entries@),
            rows_text(core_rows@) == catalog_core_rows(es).take(k as int),
            rows_text(detail_rows@) == catalog_detail_rows(es).take(k as int),
        decreases entries.len() - k,
    {
        let e = &entries[k];
        let mut core: Vec<String> = Vec::new();
        core.push(e.category.clone());
        core.push(e.description.clone());
        core.push(to_string(e.preferred_version()));
        let mut detail: Vec<String> = Vec::new();
        detail.push(e.category.clone());
        detail.push(e.description.clone());
        detail.push(e.silent_install_arguments.clone());
        detail.push(e.download_link.clone());
        assert(strs(core@) =~= catalog_core_rows(es)[k as int]);
        assert(strs(detail@) =~= catalog_detail_rows(es)[k as int]);
        proof {
            lemma_rows_text_push(core_rows@, core);
            lemma_rows_text_push(detail_rows@, detail);
            lemma_take_push(catalog_core_rows(es), k as int);
            lemma_take_push(catalog_detail_rows(es), k as int);
        }
        core_rows.push(core);
        detail_rows.push(detail);
        k += 1;
    }
    assert(catalog_core_rows(es).take(entries@.len() as int) == catalog_core_rows(es));
    assert(catalog_detail_rows(es).take(entries@.len() as int) == catalog_detail_rows(es));
    let core_table = build_ascii_table(
        "OSD Catalog Core",
        &row3("Category", "Description", "Version"),
        &core_rows,
    );
    let detail_table = build_ascii_table(
        "OSD Catalog Details",
        &row4("Category", "Description", "Silent Install Args", "Download Link"),
        &detail_rows,
    );
    let count = crate::text::dec_string(entries.len() as u64);
    let mut footer: Vec<Vec<String>> = Vec::new();
    push_row(&mut footer, row2("Total Entries", count.as_str()));
    assert(rows_text(footer@) =~= seq![seq!["Total Entries"@, crate::text::dec(entries@.len())]]);
    let summary_table = build_ascii_table(
        "OSD Catalog Summary",
        &row2("Metric", "Value"),
        &footer,
    );
    let mut r: Vec<String> = Vec::new();
    r.push(core_table);
    r.push(detail_table);
    r.push(summary_table);
    r
}

/// One row of the installed-vs-OSD report.
#[derive(Debug)]
pub struct TargetComparisonRow {
    pub target: String,
    pub osd_description: String,
    pub installed_version: String,
    pub osd_version: String,
    pub state: String,
    pub action: String,
    pub download_link: String,
    pub install_args: String,
    pub note: String,
}

pub open spec fn comparison_summary_rows(rows: Seq<TargetComparisonRow>) -> Seq<Seq<Seq<char>>> {
    rows.map_values(
        |r: TargetComparisonRow|
            seq![
                r.target@,
                r.osd_description@,
                r.installed_version@,
                r.osd_version@,
                r.state@,
                r.action@,
            ],
    )
}

pub open spec fn comparison_detail_rows(rows: Seq<TargetComparisonRow>) -> Seq<Seq<Seq<char>>> {
    rows.map_values(
        |r: TargetComparisonRow|
            seq![r.target@, r.osd_description@, r.download_link@, r.install_args@, r.note@],
    )
}

/// The Installed vs OSD Summary and Details tables, in that order.
pub fn log_target_comparisons(rows: &Vec<TargetComparisonRow>) -> (r: Vec<String>)
    ensures
        r@.len() == 2,
        r@[0]@ == table_text(
            "Installed vs OSD Summary"@,
            seq![
                "Target"@,
                "OSD Description"@,
                "Installed Version"@,
                "OSD Version"@,
                "State"@,
                "Action"@,
            ],
            comparison_summary_rows(rows@),
        ),
        r@[1]@ == table_text(
            "Installed vs OSD Details"@,
            seq!["Target"@, "OSD Description"@, "Download Link"@, "Install Args"@, "Note"@],
            comparison_detail_rows(rows@),
        ),
{
    let mut summary_rows: Vec<Vec<String>> = Vec::new();
    let mut detail_rows: Vec<Vec<String>> = Vec::new();
    let mut k: usize = 0;
    while k < rows.len()
        invariant
            k <= rows.len(),
            rows_text(summary_rows@) == comparison_summary_rows(rows@).take(k as int),
            rows_text(detail_rows@) == comparison_detail_rows(rows@).take(k as int),
        decreases rows.len() - k,
    {
        let row = &rows[k];
        let mut s: Vec<String> = Vec::new();
        s.push(row.target.clone());
        s.push(row.osd_description.clone());
        s.push(row.installed_version.clone());
        s.push(row.osd_version.clone());
        s.push(row.state.clone());
        s.push(row.action.clone());
        let mut d: Vec<String> = Vec::new();
        d.push(row.target.clone());
        d.push(row.osd_description.clone());
        d.push(row.download_link.clone());
        d.push(row.install_args.clone());
        d.push(row.note.clone());
        assert(strs(s@) =~= comparison_summary_rows(rows@)[k as int]);
        assert(strs(d@) =~= comparison_detail_rows(rows@)[k as int]);
        proof {
            lemma_rows_text_push(summary_rows@, s);
            lemma_rows_text_push(detail_rows@, d);
            lemma_take_push(comparison_summary_rows(rows@), k as int);
            lemma_take_push(comparison_detail_rows(rows@), k as int);
        }
        summary_rows.push(s);
        detail_rows.push(d);
        k += 1;
    }
    assert(comparison_summary_rows(rows@).take(rows@.len() as int) == comparison_summary_rows(rows@));
    assert(comparison_detail_rows(rows@).take(rows@.len() as int) == comparison_detail_rows(rows@));
    let summary_table = build_ascii_table(
        "Installed vs OSD Summary",
        &row6(
            "Target",
            "OSD Description",
            "Installed Version",
            "OSD Version",
            "State",
            "Action",
        ),
        &summary_rows,
    );
    let detail_table = build_ascii_table(
        "Installed vs OSD Details",
        &row5("Target", "OSD Description", "Download Link", "Install Args", "Note"),
        &detail_rows,
    );
    let mut r: Vec<String> = Vec::new();
    r.push(summary_table);
    r.push(detail_table);
    r
}

// ---------------------------------------------------------------------------
// The mode banner
// ---------------------------------------------------------------------------

/// The text `str::to_uppercase` yields.
pub uninterp spec fn str_uppercase(s: Seq<char>) -> Seq<char>;

pub open spec fn ascii_upper(c: char) -> char {
    if crate::text::is_ascii_lower(c) {
        ((c as u32) - 32) as char
    } else {
        c
    }
}

/// `str::to_uppercase`; an ASCII text has its lowercase letters capitalised
/// and everything else kept.
#[verifier::external_body]
pub(crate) fn str_to_uppercase(s: &str) -> (r: String)
    ensures
        r@ == str_uppercase(s@),
        (forall|i: int| 0 <= i < s@.len() ==> (#[trigger] s@[i] as u32) < 128) ==> r@ == s@.map_values(
            |c: char| ascii_upper(c),
        ),
{
    s.to_uppercase()
}

pub open spec fn banner_rule() -> Seq<char> {
    "========================================"@
}

/// The startup banner lines for a mode name that is already uppercased.
pub fn app_mode_banner(mode_upper: &str) -> (r: Vec<String>)
    ensures
        strs(r@) == seq![
            seq!['\n'],
            banner_rule(),
            "  Application Mode: "@ + mode_upper@,
            banner_rule(),
        ],
{
    let mut r: Vec<String> = Vec::new();
    let nl: Vec<char> = vec!['\n'];
    assert(nl@ == seq!['\n']);
    r.push(string_from_chars(&nl));
    r.push(to_string("========================================"));
    r.push(concat2("  Application Mode: ", mode_upper));
    r.push(to_string("========================================"));
    assert(r@[0]@ == seq!['\n']);
    assert(strs(r@) =~= seq![
        seq!['\n'],
        banner_rule(),
        "  Application Mode: "@ + mode_upper@,
        banner_rule(),
    ]);
    r
}

/// The banner logged at startup, naming the mode in capitals.
pub fn log_app_mode(mode: &str) -> (r: Vec<String>)
    ensures
        strs(r@) == seq![
            seq!['\n'],
            banner_rule(),
            "  Application Mode: "@ + str_uppercase(mode@),
            banner_rule(),
        ],
{
    let upper = str_to_uppercase(mode);
    app_mode_banner(upper.as_str())
}

// ---------------------------------------------------------------------------
// Variable files
// ---------------------------------------------------------------------------

/// `(file name, contents)` for each check of the CDK Installation Info table:
/// the check's file-name token with `.txt`, holding the check's result.
pub open spec fn variable_files_spec(info: CdkInfo) -> Seq<(Seq<char>, Seq<char>)> {
    cdk_info_rows(info).map_values(
        |p: (Seq<char>, Seq<char>)| (crate::utils::safe_token(p.0) + ".txt"@, p.1),
    )
}

/// Each variables file belongs to one row of the CDK Installation Info table,
/// in table order: it is named after the row's check and holds the row's
/// result.
pub proof fn law_variable_files_match_table(info: CdkInfo)
    ensures
        variable_files_spec(info).len() == two_column_rows(cdk_info_rows(info)).len(),
        forall|k: int|
            0 <= k < variable_files_spec(info).len() ==> {
                let row = two_column_rows(cdk_info_rows(info))[k];
                &&& (#[trigger] variable_files_spec(info)[k]).0 == crate::utils::safe_token(row[0])
                    + ".txt"@
                &&& variable_files_spec(info)[k].1 == row[1]
            },
{
}

/// The variable files written for a snapshot, in table order.
pub fn cdk_info_variable_files(info: &CdkInfo) -> (r: Vec<(String, String)>)
    ensures
        pairs_view(r@) == variable_files_spec(*info),
{
    let entries = cdk_info_entries(info);
    let ghost target = variable_files_spec(*info);
    let mut r: Vec<(String, String)> = Vec::new();
    let mut k: usize = 0;
    while k < entries.len()
        invariant
            k <= entries@.len(),
            pairs_view(entries@) == cdk_info_rows(*info),
            target == variable_files_spec(*info),
            pairs_view(r@) == target.take(k as int),
        decreases entries.len() - k,
    {
        let name = concat2(crate::utils::safe_filename_token(entries[k].0.as_str()).as_str(), ".txt");
        let item = (name, entries[k].1.clone());
        proof {
            lemma_pairs_push(r@, item);
            lemma_take_push(target, k as int);
        }
        r.push(item);
        k += 1;
    }
    r
}

/// Contents of the last-run marker: the timestamp, `--`, the epoch seconds.
pub fn last_run_content(timestamp: &str, epoch_seconds: i64) -> (r: String)
    ensures
        r@ == timestamp@ + "--"@ + crate::install::int_text(epoch_seconds as int),
{
    let mut out = str_chars(timestamp);
    crate::text::push_str(&mut out, "--");
    extend_chars(&mut out, &crate::install::int_chars(epoch_seconds));
    string_from_chars(&out)
}

/// Every data row of the Installed vs OSD Summary table renders, in this
/// order, the row's target, OSD description, installed version (under
/// "Installed Version"), OSD version (under "OSD Version"), state and action;
/// every Details row renders its target, OSD description, download link,
/// install arguments and note.
pub proof fn law_comparison_tables_show_row_fields(rows: Seq<TargetComparisonRow>)
    ensures
        ({
            let headers = seq![
                "Target"@,
                "OSD Description"@,
                "Installed Version"@,
                "OSD Version"@,
                "State"@,
                "Action"@,
            ];
            let body = comparison_summary_rows(rows);
            let lines = table_lines("Installed vs OSD Summary"@, headers, body);
            &&& body.len() == rows.len()
            &&& forall|k: int|
                #![trigger rows[k]]
                0 <= k < rows.len() ==> {
                    &&& body[k][0] == rows[k].target@
                    &&& body[k][1] == rows[k].osd_description@
                    &&& body[k][2] == rows[k].installed_version@
                    &&& body[k][3] == rows[k].osd_version@
                    &&& body[k][4] == rows[k].state@
                    &&& body[k][5] == rows[k].action@
                    &&& body[k].len() == 6
                    &&& lines[5 + 2 * k] == row_line(
                        seq![
                            rows[k].target@,
                            rows[k].osd_description@,
                            rows[k].installed_version@,
                            rows[k].osd_version@,
                            rows[k].state@,
                            rows[k].action@,
                        ],
                        widths_of(headers, body),
                    )
                }
        }),
        ({
            let details = comparison_detail_rows(rows);
            &&& details.len() == rows.len()
            &&& forall|k: int|
                #![trigger rows[k]]
                0 <= k < rows.len() ==> details[k] == seq![
                    rows[k].target@,
                    rows[k].osd_description@,
                    rows[k].download_link@,
                    rows[k].install_args@,
                    rows[k].note@,
                ]
        }),
{
    let headers = seq![
        "Target"@,
        "OSD Description"@,
        "Installed Version"@,
        "OSD Version"@,
        "State"@,
        "Action"@,
    ];
    let body = comparison_summary_rows(rows);
    law_table_layout("Installed vs OSD Summary"@, headers, body);
    assert forall|k: int| #![trigger rows[k]] 0 <= k < rows.len() implies table_lines(
        "Installed vs OSD Summary"@,
        headers,
        body,
    )[5 + 2 * k] == row_line(
        seq![
            rows[k].target@,
            rows[k].osd_description@,
            rows[k].installed_version@,
            rows[k].osd_version@,
            rows[k].state@,
            rows[k].action@,
        ],
        widths_of(headers, body),
    ) by {
        assert(body[k] == body[k]);
    }
}

/// The CDK Installation Info table opens with the five registry checks and
/// closes with the sixteen value and path checks, each label beside the
/// snapshot value it names; in particular the executable WebStart version
/// stands under "WebStart Version (Executable)" and the Add/Remove one under
/// "WebStart Version (Add/Remove)". The rows between are the Adaptiva CDK key
/// values.
pub proof fn law_info_rows_pair_labels_with_fields(info: CdkInfo)
    ensures
        ({
            let t = cdk_info_rows(info);
            let n = t.len() as int;
            &&& n >= 23
            &&& t[0] == ("ADP (wsvc 4.5)"@, registry_status_text(info.adp_check))
            &&& t[1] == ("WebStart URL Protocol"@, registry_status_text(info.webstart_url_check))
            &&& t[2] == ("WebStart Shell Command"@, info.webstart_shell_var@)
            &&& t[3] == ("UnifyDriveEnabler"@, registry_status_text(info.unify_drive_enabler_check))
            &&& t[4] == ("Adaptiva Client"@, registry_status_text(info.adaptiva_check))
            &&& t[n - 16] == ("Adaptiva Server Host (Native)"@, info.adaptiva_server_host_name@)
            &&& t[n - 15] == (
                "Adaptiva Server Host (WOW6432Node)"@,
                info.adaptiva_server_host_name_wow@,
            )
            &&& t[n - 14] == (
                "Adaptiva Server Locator (Native)"@,
                info.adaptiva_server_locator_name@,
            )
            &&& t[n - 13] == (
                "Adaptiva Server Locator (WOW6432Node)"@,
                info.adaptiva_server_locator_name_wow@,
            )
            &&& t[n - 12] == ("Adaptiva Setup GUID (Native)"@, info.adaptiva_setup_guid@)
            &&& t[n - 11] == ("Adaptiva Setup GUID (WOW6432Node)"@, info.adaptiva_setup_guid_wow@)
            &&& t[n - 10] == (
                "Adaptiva Client Data Manager GUID (Native)"@,
                info.adaptiva_client_data_manager_guid@,
            )
            &&& t[n - 9] == (
                "Adaptiva Client Data Manager GUID (WOW6432Node)"@,
                info.adaptiva_client_data_manager_guid_wow@,
            )
            &&& t[n - 8] == ("SIA Directory"@, path_status_text(info.sia_check))
            &&& t[n - 7] == ("SIA Win10 XML"@, path_status_text(info.sia_xml_check))
            &&& t[n - 6] == ("SIA Fix Script"@, path_status_text(info.sia_fix_check))
            &&& t[n - 5] == ("WebStart Version (Executable)"@, info.webstart_version@)
            &&& t[n - 4] == ("WebStart Version (Add/Remove)"@, info.webstart_add_remove_version@)
            &&& t[n - 3] == (
                "CDK 3rd Party Assemblies Version"@,
                info.cdk_3rd_party_assemblies_version@,
            )
            &&& t[n - 2] == ("Adaptiva Installed Version"@, info.adaptiva_installed_version@)
            &&& t[n - 1] == ("BlueZone Version"@, info.bluezone_version@)
            &&& variable_files_spec(info).len() == n
            &&& variable_files_spec(info)[n - 5].1 == info.webstart_version@
            &&& variable_files_spec(info)[n - 4].1 == info.webstart_add_remove_version@
        }),
{
    let a = key_value_rows("Adaptiva CDK Key (Native)"@, info.adaptiva_cdk_key_values);
    let b = key_value_rows("Adaptiva CDK Key (WOW6432Node)"@, info.adaptiva_cdk_key_wow_values);
    assert(a.len() >= 1);
    assert(b.len() >= 1);
}

} // verus!
