//! The tabular model: columns with running widths, rows of cells, and the
//! box-drawn rendering of both.
use vstd::prelude::*;
use crate::border::{border_of, lemma_frame_not_space, Border, BorderStyle};
use crate::clock::{output_path_now, output_path_of, LocalTime};
use crate::error::Error;
use crate::text::{
    decimal, push_char, push_decimal, push_repeat, repeat, to_upper, trim, trim_str, upper_of,
};

verus! {

/// A column: its display name and its rendered width in characters.
#[derive(Debug, Clone)]
pub struct Header {
    pub name: String,
    pub length: usize,
}

/// One result set and where its rendering goes.
#[derive(Debug)]
pub struct Table {
    pub dest_folder: String,
    pub header_style_link: String,
    pub border_style: BorderStyle,
    /// Columns in position order; position 1 (index 0) is the row counter.
    pub headers: Vec<Header>,
    /// Rows of cells, one cell per column, the counter cell first.
    pub rows: Vec<Vec<String>>,
}

/// The characters of each string.
pub open spec fn texts(v: Seq<String>) -> Seq<Seq<char>> {
    v.map_values(|s: String| s@)
}

/// The display name given to a column called `name`.
pub open spec fn display_name(name: Seq<char>) -> Seq<char> {
    seq![' '] + upper_of(name)
}

/// The counter cell of the row at 1-based position `i`.
pub open spec fn counter_cell(i: nat) -> Seq<char> {
    seq![' ', '#'] + decimal(i)
}

/// `s` right-padded with spaces to `w` characters; longer text is left whole.
pub open spec fn pad(s: Seq<char>, w: nat) -> Seq<char> {
    if w > s.len() {
        s + repeat(' ', (w - s.len()) as nat)
    } else {
        s
    }
}

/// The first `k` column segments of a horizontal rule: each column's width in
/// `h`, then `mid` between columns and `last` after the final one.
pub open spec fn rule(hs: Seq<Header>, k: nat, mid: char, last: char, h: char) -> Seq<char>
    decreases k,
{
    if k == 0 {
        seq![]
    } else {
        rule(hs, (k - 1) as nat, mid, last, h) + repeat(h, hs[k - 1].length as nat) + seq![
            if k < hs.len() {
                mid
            } else {
                last
            },
        ]
    }
}

/// The first `k` cells of a content line, each padded to its column and closed by `v`.
pub open spec fn cells(hs: Seq<Header>, cs: Seq<Seq<char>>, k: nat, v: char) -> Seq<char>
    decreases k,
{
    if k == 0 {
        seq![]
    } else {
        cells(hs, cs, (k - 1) as nat, v) + pad(cs[k - 1], hs[k - 1].length as nat) + seq![v]
    }
}

pub open spec fn top_line(b: Border, hs: Seq<Header>) -> Seq<char> {
    seq![b.corner_up_left] + rule(hs, hs.len(), b.division_up, b.corner_up_right, b.horizontal)
}

pub open spec fn inner_line(b: Border, hs: Seq<Header>) -> Seq<char> {
    seq![b.vertical_left] + rule(hs, hs.len(), b.intersection, b.vertical_right, b.horizontal)
}

pub open spec fn bottom_line(b: Border, hs: Seq<Header>) -> Seq<char> {
    seq![b.corner_bottom_left] + rule(
        hs,
        hs.len(),
        b.division_bottom,
        b.corner_bottom_right,
        b.horizontal,
    )
}

pub open spec fn content_line(b: Border, hs: Seq<Header>, cs: Seq<Seq<char>>) -> Seq<char> {
    seq![b.vertical] + cells(hs, cs, hs.len(), b.vertical)
}

pub open spec fn header_names(hs: Seq<Header>) -> Seq<Seq<char>> {
    hs.map_values(|h: Header| h.name@)
}

/// The lines drawn for the first `k` rows: each row's content, then the rule
/// below it, which is the bottom of the frame after the last row.
pub open spec fn body(b: Border, hs: Seq<Header>, rows: Seq<Vec<String>>, k: nat) -> Seq<Seq<char>>
    decreases k,
{
    if k == 0 {
        seq![]
    } else {
        body(b, hs, rows, (k - 1) as nat) + seq![
            content_line(b, hs, texts(rows[k - 1]@)),
            if k < rows.len() {
                inner_line(b, hs)
            } else {
                bottom_line(b, hs)
            },
        ]
    }
}

/// The larger of two widths.
pub open spec fn wider(a: nat, b: nat) -> nat {
    if a < b {
        b
    } else {
        a
    }
}

/// The cells stored for the row at 1-based position `i` holding `values`.
pub open spec fn ingested(i: nat, values: Seq<Seq<char>>) -> Seq<Seq<char>> {
    seq![counter_cell(i)] + values.map_values(|v: Seq<char>| seq![' '] + v)
}

pub open spec fn pow10(k: nat) -> nat
    decreases k,
{
    if k == 0 {
        1
    } else {
        10 * pow10((k - 1) as nat)
    }
}

proof fn lemma_decimal_len(n: nat, k: nat)
    requires
        k >= 1,
        n < pow10(k),
    ensures
        decimal(n).len() <= k,
    decreases k,
{
    reveal_with_fuel(pow10, 2);
    if n >= 10 {
        assert(k >= 2);
        assert(n / 10 < pow10((k - 1) as nat)) by (nonlinear_arith)
            requires
                n < 10 * pow10((k - 1) as nat),
        ;
        lemma_decimal_len(n / 10, (k - 1) as nat);
    }
}

proof fn lemma_u64_decimal_len(n: u64)
    ensures
        decimal(n as nat).len() <= 20,
{
    reveal_with_fuel(pow10, 21);
    assert(pow10(20) == 100000000000000000000nat);
    lemma_decimal_len(n as nat, 20);
}

/// One highlight directive for the column at position `k`.
pub open spec fn hi_entry(k: nat, name: Seq<char>, style: Seq<char>) -> Seq<char> {
    "syn match header"@ + decimal(k) + " '\\<"@ + trim(name) + "\\>' | hi link header"@ + decimal(k)
        + " "@ + style + " |"@
}

/// The directives for the first `k` columns, separated by single spaces.
pub open spec fn hi_list(hs: Seq<Header>, style: Seq<char>, k: nat) -> Seq<char>
    decreases k,
{
    if k == 0 {
        seq![]
    } else if k == 1 {
        hi_entry(1, hs[0].name@, style)
    } else {
        hi_list(hs, style, (k - 1) as nat) + seq![' '] + hi_entry(k, hs[k - 1].name@, style)
    }
}

/// The cell at row `i`, column `j` has a column, and fits it with one character to spare.
pub open spec fn cell_fits(rows: Seq<Vec<String>>, hs: Seq<Header>, i: int, j: int) -> bool {
    j < hs.len() && rows[i]@[j]@.len() + 1 <= hs[j].length
}

/// Every cell of `rows` fits its column in `hs`.
pub open spec fn fits(rows: Seq<Vec<String>>, hs: Seq<Header>) -> bool {
    forall|i: int, j: int|
        0 <= i < rows.len() && 0 <= j < rows[i]@.len() ==> #[trigger] cell_fits(rows, hs, i, j)
}

proof fn lemma_fits_push(old_rows: Seq<Vec<String>>, old_hs: Seq<Header>, rows: Seq<Vec<String>>, hs: Seq<Header>)
    requires
        fits(old_rows, old_hs),
        rows.len() == old_rows.len() + 1,
        rows.drop_last() == old_rows,
        hs.len() == old_hs.len(),
        forall|q: int| 0 <= q < hs.len() ==> (#[trigger] hs[q]).length >= old_hs[q].length,
        forall|q: int| 0 <= q < rows.last()@.len() ==> (q < hs.len() && (#[trigger] rows.last()@[q])@.len() + 1 <= hs[q].length),
    ensures
        fits(rows, hs),
{
    assert forall|i: int, j: int|
        0 <= i < rows.len() && 0 <= j < rows[i]@.len() implies #[trigger] cell_fits(rows, hs, i, j) by {
        if i < old_rows.len() {
            assert(rows[i] == rows.drop_last()[i]);
            assert(cell_fits(old_rows, old_hs, i, j));
            assert(hs[j].length >= old_hs[j].length);
        } else {
            assert(rows[i] == rows.last());
            assert(rows.last()@[j] == rows[i]@[j]);
        }
    }
}

/// The width of a data column called `name` after its first `k` values in `rows`
/// (column `j` of each) have been seen.
pub open spec fn data_width(name: Seq<char>, rows: Seq<Vec<String>>, j: int, k: nat) -> nat
    decreases k,
{
    if k == 0 {
        name.len() + 2
    } else {
        wider(data_width(name, rows, j, (k - 1) as nat), rows[k - 1]@[j]@.len() + 2)
    }
}

/// The width of the row-counter column after `k` rows.
pub open spec fn counter_width(k: nat) -> nat
    decreases k,
{
    if k == 0 {
        4
    } else {
        wider(counter_width((k - 1) as nat), counter_cell(k).len() + 1)
    }
}

/// Over a whole result set, each data column is at least two characters wider
/// than its name and than every value in it, and the counter column is at least
/// four wide and one wider than every counter cell.
pub proof fn lemma_widths_cover(name: Seq<char>, rows: Seq<Vec<String>>, j: int, k: nat)
    requires
        k <= rows.len(),
    ensures
        data_width(name, rows, j, k) >= name.len() + 2,
        forall|i: int| 0 <= i < k ==> data_width(name, rows, j, k) >= (#[trigger] rows[i])@[j]@.len() + 2,
        counter_width(k) >= 4,
        forall|i: int| 0 <= i < k ==> counter_width(k) >= #[trigger] counter_cell((i + 1) as nat).len() + 1,
    decreases k,
{
    if k > 0 {
        lemma_widths_cover(name, rows, j, (k - 1) as nat);
    }
}

impl Table {
    pub open spec fn border(&self) -> Border {
        border_of(self.border_style)
    }

    /// Every row has one cell per column, and there is at least one row and one column.
    pub open spec fn shape_ok(&self) -> bool {
        &&& self.headers@.len() > 0
        &&& self.rows@.len() > 0
        &&& forall|i: int| 0 <= i < self.rows@.len() ==> #[trigger] self.rows@[i]@.len()
            == self.headers@.len()
    }

    /// Every stored cell, with one character to spare, fits its column.
    pub open spec fn cells_fit(&self) -> bool {
        fits(self.rows@, self.headers@)
    }

    /// The rendered lines: the top of the frame, the header, the rule under it,
    /// then each row's content and the rule below it.
    pub open spec fn rendered(&self) -> Seq<Seq<char>> {
        let b = self.border();
        let hs = self.headers@;
        seq![top_line(b, hs), content_line(b, hs, header_names(hs)), inner_line(b, hs)] + body(
            b,
            hs,
            self.rows@,
            self.rows@.len(),
        )
    }
}

impl Header {
    /// The row-counter column, labelled ` #`, with its least width.
    pub fn row_counter() -> (r: Header)
        ensures
            r.name@ == seq![' ', '#'],
            r.length == 4,
    {
        let mut name = String::new();
        push_char(&mut name, ' ');
        push_char(&mut name, '#');
        Header { name, length: 4 }
    }

    /// A result column called `name`: shown upper-case after one space, as wide as
    /// the name and two more characters.
    pub fn new(name: &str) -> (r: Header)
        requires
            name@.len() + 2 <= usize::MAX,
        ensures
            r.name@ == display_name(name@),
            r.length == name@.len() + 2,
    {
        let mut shown = String::new();
        push_char(&mut shown, ' ');
        let upper = to_upper(name);
        shown.append(upper.as_str());
        Header { name: shown, length: name.unicode_len() + 2 }
    }
}

/// The highlight directives for every column, in ascending position, naming each
/// column's trimmed label and linking it to the group `style`.
pub fn hi(headers: &Vec<Header>, style: &str) -> (r: String)
    requires
        headers@.len() < u64::MAX,
    ensures
        r@ == hi_list(headers@, style@, headers@.len()),
{
    let mut out = String::new();
    let n = headers.len();
    let mut k: usize = 0;
    while k < n
        invariant
            n == headers@.len(),
            n < u64::MAX,
            k <= n,
            out@ == hi_list(headers@, style@, k as nat),
        decreases n - k,
    {
        let ghost prev = out@;
        if k > 0 {
            push_char(&mut out, ' ');
        }
        let pos = k as u64 + 1;
        out.append("syn match header");
        push_decimal(&mut out, pos);
        out.append(" '\\<");
        out.append(trim_str(headers[k].name.as_str()));
        out.append("\\>' | hi link header");
        push_decimal(&mut out, pos);
        out.append(" ");
        out.append(style);
        out.append(" |");
        k = k + 1;
        proof {
            let e = hi_entry(k as nat, headers@[k - 1].name@, style@);
            if k == 1 {
                assert(out@ =~= e);
            } else {
                assert(out@ =~= prev + seq![' '] + e);
            }
        }
    }
    out
}

/// Appends `s` padded with spaces to `w` characters.
fn push_padded(line: &mut String, s: &str, w: usize)
    ensures
        final(line)@ == old(line)@ + pad(s@, w as nat),
{
    line.append(s);
    let n = s.unicode_len();
    if w > n {
        push_repeat(line, ' ', w - n);
    }
    assert(final(line)@ =~= old(line)@ + pad(s@, w as nat));
}

/// `input` right-padded with spaces to `len` characters.
pub fn add_spaces(input: &str, len: usize) -> (r: String)
    ensures
        r@ == pad(input@, len as nat),
{
    let mut r = String::new();
    push_padded(&mut r, input, len);
    r
}

/// Appends a whole horizontal rule over the columns of `hs`.
fn push_rule(line: &mut String, hs: &Vec<Header>, mid: char, last: char, h: char)
    ensures
        final(line)@ == old(line)@ + rule(hs@, hs@.len(), mid, last, h),
{
    let ghost start = line@;
    let n = hs.len();
    let mut k: usize = 0;
    while k < n
        invariant
            n == hs@.len(),
            k <= n,
            line@ == start + rule(hs@, k as nat, mid, last, h),
        decreases n - k,
    {
        push_repeat(line, h, hs[k].length);
        if k + 1 < n {
            push_char(line, mid);
        } else {
            push_char(line, last);
        }
        k = k + 1;
        assert(line@ =~= start + rule(hs@, k as nat, mid, last, h));
    }
}

/// Appends the cells of one content line.
fn push_cells(line: &mut String, hs: &Vec<Header>, cs: &Vec<String>, v: char)
    requires
        cs@.len() == hs@.len(),
    ensures
        final(line)@ == old(line)@ + cells(hs@, texts(cs@), hs@.len(), v),
{
    let ghost start = line@;
    let n = hs.len();
    let mut k: usize = 0;
    while k < n
        invariant
            n == hs@.len(),
            cs@.len() == n,
            k <= n,
            line@ == start + cells(hs@, texts(cs@), k as nat, v),
        decreases n - k,
    {
        push_padded(line, cs[k].as_str(), hs[k].length);
        push_char(line, v);
        k = k + 1;
        assert(line@ =~= start + cells(hs@, texts(cs@), k as nat, v));
    }
}

fn rule_line(hs: &Vec<Header>, first: char, mid: char, last: char, h: char) -> (r: String)
    ensures
        r@ == seq![first] + rule(hs@, hs@.len(), mid, last, h),
{
    let mut line = String::new();
    push_char(&mut line, first);
    push_rule(&mut line, hs, mid, last, h);
    line
}

fn cells_line(hs: &Vec<Header>, cs: &Vec<String>, v: char) -> (r: String)
    requires
        cs@.len() == hs@.len(),
    ensures
        r@ == seq![v] + cells(hs@, texts(cs@), hs@.len(), v),
{
    let mut line = String::new();
    push_char(&mut line, v);
    push_cells(&mut line, hs, cs, v);
    line
}

impl Table {
    /// An empty table bound to a destination, a highlight group and a border style.
    pub fn new(dest_folder: String, header_style_link: String, border_style: BorderStyle) -> (r:
        Table)
        ensures
            r.dest_folder == dest_folder,
            r.header_style_link == header_style_link,
            r.border_style == border_style,
            r.headers@.len() == 0,
            r.rows@.len() == 0,
    {
        Table { dest_folder, header_style_link, border_style, headers: Vec::new(), rows: Vec::new() }
    }

    /// Draws the table, or fails with a shape error when it has no row, no column,
    /// or a row whose cell count differs from the column count.
    pub fn generate(&self) -> (r: Result<Vec<String>, Error>)
        ensures
            r is Ok <==> self.shape_ok(),
            r matches Ok(lines) ==> texts(lines@) == self.rendered(),
            r matches Ok(lines) ==> lines@.len() == 3 + 2 * self.rows@.len(),
            r matches Err(e) ==> e is Shape,
    {
        let n = self.headers.len();
        let m = self.rows.len();
        if n == 0 || m == 0 {
            return Err(Error::Shape(String::from_str("a table needs at least one column and one row")));
        }
        let mut i: usize = 0;
        while i < m
            invariant
                m == self.rows@.len(),
                n == self.headers@.len(),
                i <= m,
                forall|k: int| 0 <= k < i ==> #[trigger] self.rows@[k]@.len() == n,
            decreases m - i,
        {
            if self.rows[i].len() != n {
                return Err(Error::Shape(String::from_str("a row's cell count differs from the column count")));
            }
            i = i + 1;
        }
        let b = self.border_style.get();
        let hs = &self.headers;
        let mut names: Vec<String> = Vec::new();
        let mut j: usize = 0;
        while j < n
            invariant
                n == hs@.len(),
                j <= n,
                names@.len() == j,
                forall|k: int| 0 <= k < j ==> #[trigger] names@[k]@ == hs@[k].name@,
            decreases n - j,
        {
            names.push(hs[j].name.clone());
            j = j + 1;
        }
        assert(texts(names@) =~= header_names(hs@));
        let mut lines: Vec<String> = Vec::new();
        lines.push(rule_line(hs, b.corner_up_left, b.division_up, b.corner_up_right, b.horizontal));
        lines.push(cells_line(hs, &names, b.vertical));
        lines.push(rule_line(hs, b.vertical_left, b.intersection, b.vertical_right, b.horizontal));
        let ghost head = seq![
            top_line(b, hs@),
            content_line(b, hs@, header_names(hs@)),
            inner_line(b, hs@),
        ];
        assert(texts(lines@) =~= head + body(b, hs@, self.rows@, 0));
        let mut k: usize = 0;
        while k < m
            invariant
                m == self.rows@.len(),
                n == hs@.len(),
                hs == &self.headers,
                b == self.border(),
                k <= m,
                forall|q: int| 0 <= q < m ==> #[trigger] self.rows@[q]@.len() == n,
                texts(lines@) == head + body(b, hs@, self.rows@, k as nat),
                lines@.len() == 3 + 2 * k,
            decreases m - k,
        {
            let row = &self.rows[k];
            let content = cells_line(hs, row, b.vertical);
            let under = if k + 1 < m {
                rule_line(hs, b.vertical_left, b.intersection, b.vertical_right, b.horizontal)
            } else {
                rule_line(hs, b.corner_bottom_left, b.division_bottom, b.corner_bottom_right, b.horizontal)
            };
            let ghost prev = lines@;
            assert(content@ == content_line(b, hs@, texts(self.rows@[k as int]@)));
            assert(under@ == (if k + 1 < m { inner_line(b, hs@) } else { bottom_line(b, hs@) }));
            lines.push(content);
            lines.push(under);
            assert(texts(lines@) =~= texts(prev) + seq![content@, under@]);
            k = k + 1;
            assert(texts(lines@) =~= head + body(b, hs@, self.rows@, k as nat));
        }
        assert(self.shape_ok());
        Ok(lines)
    }

    /// Sets the columns to the row counter followed by one column per name, in
    /// order, and clears the rows.
    pub fn set_headers(&mut self, names: &Vec<String>)
        requires
            forall|j: int| 0 <= j < names@.len() ==> #[trigger] names@[j]@.len() + 2 <= usize::MAX,
        ensures
            final(self).headers@.len() == names@.len() + 1,
            final(self).headers@[0].name@ == seq![' ', '#'],
            final(self).headers@[0].length == 4,
            forall|j: int|
                0 <= j < names@.len() ==> (#[trigger] final(self).headers@[j + 1]).name@
                    == display_name(names@[j]@) && final(self).headers@[j + 1].length
                    == names@[j]@.len() + 2,
            final(self).rows@.len() == 0,
            final(self).cells_fit(),
            final(self).dest_folder == old(self).dest_folder,
            final(self).header_style_link == old(self).header_style_link,
            final(self).border_style == old(self).border_style,
    {
        let mut hs: Vec<Header> = Vec::new();
        hs.push(Header::row_counter());
        let mut j: usize = 0;
        while j < names.len()
            invariant
                j <= names@.len(),
                forall|q: int| 0 <= q < names@.len() ==> #[trigger] names@[q]@.len() + 2 <= usize::MAX,
                hs@.len() == j + 1,
                hs@[0].name@ == seq![' ', '#'],
                hs@[0].length == 4,
                forall|q: int|
                    0 <= q < j ==> (#[trigger] hs@[q + 1]).name@ == display_name(names@[q]@)
                        && hs@[q + 1].length == names@[q]@.len() + 2,
            decreases names@.len() - j,
        {
            hs.push(Header::new(names[j].as_str()));
            j = j + 1;
        }
        self.headers = hs;
        self.rows = Vec::new();
    }

    /// Appends a row of values, one per data column. The model adds the counter
    /// cell, puts one space before each value, and widens every column that the
    /// new cell would overflow. A value count other than the data-column count is
    /// a shape error and leaves the table as it was.
    pub fn ingest_row(&mut self, values: &Vec<String>) -> (r: Result<(), Error>)
        requires
            old(self).rows@.len() < u64::MAX,
            forall|j: int| 0 <= j < values@.len() ==> #[trigger] values@[j]@.len() + 2 <= usize::MAX,
        ensures
            r is Ok <==> values@.len() + 1 == old(self).headers@.len(),
            r matches Err(e) ==> e is Shape && *final(self) == *old(self),
            r is Ok ==> {
                &&& final(self).rows@.len() == old(self).rows@.len() + 1
                &&& final(self).rows@.drop_last() == old(self).rows@
                &&& texts(final(self).rows@.last()@) == ingested(
                    final(self).rows@.len(),
                    texts(values@),
                )
                &&& final(self).headers@.len() == old(self).headers@.len()
                &&& forall|j: int|
                    0 <= j < final(self).headers@.len() ==> (#[trigger] final(self).headers@[j]).name
                        == old(self).headers@[j].name
                &&& final(self).headers@[0].length == wider(
                    old(self).headers@[0].length as nat,
                    counter_cell(final(self).rows@.len()).len() + 1,
                )
                &&& forall|j: int|
                    0 <= j < values@.len() ==> (#[trigger] final(self).headers@[j + 1]).length
                        == wider(old(self).headers@[j + 1].length as nat, values@[j]@.len() + 2)
            },
            old(self).cells_fit() ==> final(self).cells_fit(),
            final(self).dest_folder == old(self).dest_folder,
            final(self).header_style_link == old(self).header_style_link,
            final(self).border_style == old(self).border_style,
    {
        let n = self.headers.len();
        if n == 0 || values.len() != n - 1 {
            return Err(Error::Shape(String::from_str("a row's value count differs from the data-column count")));
        }
        let idx = self.rows.len() as u64 + 1;
        let mut counter = String::new();
        push_char(&mut counter, ' ');
        push_char(&mut counter, '#');
        push_decimal(&mut counter, idx);
        proof {
            lemma_u64_decimal_len(idx);
            assert(counter@ =~= counter_cell(idx as nat));
        }
        let clen = counter.as_str().unicode_len();
        let h0 = &self.headers[0];
        let w0 = if h0.length < clen + 1 { clen + 1 } else { h0.length };
        let mut hs: Vec<Header> = Vec::new();
        hs.push(Header { name: h0.name.clone(), length: w0 });
        let mut row: Vec<String> = Vec::new();
        row.push(counter);
        let ghost vals = texts(values@);
        let mut j: usize = 0;
        while j < values.len()
            invariant
                n == self.headers@.len(),
                values@.len() == n - 1,
                vals == texts(values@),
                forall|q: int| 0 <= q < values@.len() ==> #[trigger] values@[q]@.len() + 2 <= usize::MAX,
                j <= values@.len(),
                hs@.len() == j + 1,
                row@.len() == j + 1,
                hs@[0].name == self.headers@[0].name,
                hs@[0].length == w0,
                row@[0]@ == counter_cell(idx as nat),
                forall|q: int| 0 <= q < j ==> (#[trigger] hs@[q + 1]).name == self.headers@[q + 1].name
                    && hs@[q + 1].length == wider(self.headers@[q + 1].length as nat, values@[q]@.len() + 2),
                forall|q: int| 0 <= q < j ==> (#[trigger] row@[q + 1])@ == seq![' '] + values@[q]@,
            decreases values@.len() - j,
        {
            let v = values[j].as_str();
            let mut cell = String::new();
            push_char(&mut cell, ' ');
            cell.append(v);
            row.push(cell);
            let w = v.unicode_len() + 2;
            let hj = &self.headers[j + 1];
            let wj = if hj.length < w { w } else { hj.length };
            hs.push(Header { name: hj.name.clone(), length: wj });
            j = j + 1;
        }
        let ghost old_rows = self.rows@;
        let ghost old_hs = self.headers@;
        self.headers = hs;
        self.rows.push(row);
        proof {
            let got = texts(self.rows@.last()@);
            let want = ingested(self.rows@.len(), vals);
            assert(idx as nat == self.rows@.len());
            assert forall|q: int| 0 <= q < want.len() implies got[q] == want[q] by {
                if q > 0 {
                    assert(self.rows@.last()@[(q - 1) + 1]@ == seq![' '] + values@[q - 1]@);
                }
            }
            assert(got =~= want);
            assert(self.rows@.drop_last() =~= old_rows);
            assert forall|q: int| 0 <= q < self.headers@.len() implies (#[trigger] self.headers@[q]).length
                >= old_hs[q].length && self.headers@[q].name == old_hs[q].name by {
                if q > 0 {
                    assert(self.headers@[(q - 1) + 1].length >= old_hs[(q - 1) + 1].length);
                }
            }
            let last = self.rows@.last()@;
            assert forall|q: int| 0 <= q < last.len() implies #[trigger] last[q]@.len() + 1
                <= self.headers@[q].length by {
                if q > 0 {
                    assert(last[(q - 1) + 1]@ == seq![' '] + values@[q - 1]@);
                    assert(self.headers@[(q - 1) + 1].length >= values@[q - 1]@.len() + 2);
                }
            }
            if old(self).cells_fit() {
                lemma_fits_push(old_rows, old_hs, self.rows@, self.headers@);
            }
        }
        Ok(())
    }

    /// The path of the tabular output file, stamped with the time now.
    pub fn create_dbeer_file_format(&self) -> (r: String)
        ensures
            exists|t: LocalTime| t.wf() && r@ == #[trigger] output_path_of(self.dest_folder@, t, false),
    {
        output_path_now(self.dest_folder.as_str(), false)
    }

    /// The path of the document-list output file, stamped with the time now.
    pub fn create_dbeer_json_file_format(&self) -> (r: String)
        ensures
            exists|t: LocalTime| t.wf() && r@ == #[trigger] output_path_of(self.dest_folder@, t, true),
    {
        output_path_now(self.dest_folder.as_str(), true)
    }

    /// Builds the table from column names and rows of values, then draws it.
    /// No rows means nothing to draw; a row whose value count differs from the
    /// name count is a shape error. Either way the table is left as it was.
    pub fn tabulate(&mut self, names: &Vec<String>, rows: &Vec<Vec<String>>) -> (r: Result<
        Option<Vec<String>>,
        Error,
    >)
        requires
            rows@.len() < u64::MAX,
            forall|j: int| 0 <= j < names@.len() ==> #[trigger] names@[j]@.len() + 2 <= usize::MAX,
            forall|i: int, j: int|
                0 <= i < rows@.len() && 0 <= j < rows@[i]@.len() ==> #[trigger] rows@[i]@[j]@.len() + 2
                    <= usize::MAX,
        ensures
            rows@.len() == 0 ==> r matches Ok(None),
            r matches Err(e) ==> e is Shape,
            r is Err <==> (rows@.len() > 0 && exists|i: int| 0 <= i < rows@.len() && #[trigger] rows@[i]@.len() != names@.len()),
            r is Err || rows@.len() == 0 ==> *final(self) == *old(self),
            r matches Ok(Some(lines)) ==> {
                &&& texts(lines@) == final(self).rendered()
                &&& final(self).headers@.len() == names@.len() + 1
                &&& final(self).headers@[0].name@ == seq![' ', '#']
                &&& final(self).headers@[0].length == counter_width(rows@.len())
                &&& forall|j: int| 0 <= j < names@.len() ==> (#[trigger] final(self).headers@[j + 1]).name@
                    == display_name(names@[j]@) && final(self).headers@[j + 1].length == data_width(
                    names@[j]@,
                    rows@,
                    j,
                    rows@.len(),
                )
                &&& final(self).rows@.len() == rows@.len()
                &&& forall|i: int| 0 <= i < rows@.len() ==> texts((#[trigger] final(self).rows@[i])@) == ingested(
                    (i + 1) as nat,
                    texts(rows@[i]@),
                )
            },
            rows@.len() > 0 ==> r is Err || r matches Ok(Some(_)),
            final(self).dest_folder == old(self).dest_folder,
            final(self).header_style_link == old(self).header_style_link,
            final(self).border_style == old(self).border_style,
    {
        let m = rows.len();
        let n = names.len();
        if m == 0 {
            return Ok(None);
        }
        let mut i: usize = 0;
        while i < m
            invariant
                m == rows@.len(),
                n == names@.len(),
                i <= m,
                forall|q: int| 0 <= q < i ==> #[trigger] rows@[q]@.len() == n,
            decreases m - i,
        {
            if rows[i].len() != n {
                return Err(Error::Shape(String::from_str("a row's value count differs from the column count")));
            }
            i = i + 1;
        }
        self.set_headers(names);
        let mut k: usize = 0;
        while k < m
            invariant
                m == rows@.len(),
                n == names@.len(),
                m < u64::MAX,
                k <= m,
                forall|q: int| 0 <= q < m ==> #[trigger] rows@[q]@.len() == n,
                forall|q: int, j: int|
                    0 <= q < rows@.len() && 0 <= j < rows@[q]@.len() ==> #[trigger] rows@[q]@[j]@.len() + 2
                        <= usize::MAX,
                self.headers@.len() == n + 1,
                self.headers@[0].name@ == seq![' ', '#'],
                self.headers@[0].length == counter_width(k as nat),
                forall|j: int| 0 <= j < n ==> (#[trigger] self.headers@[j + 1]).name@ == display_name(names@[j]@)
                    && self.headers@[j + 1].length == data_width(names@[j]@, rows@, j, k as nat),
                self.rows@.len() == k,
                forall|q: int| 0 <= q < k ==> texts((#[trigger] self.rows@[q])@) == ingested(
                    (q + 1) as nat,
                    texts(rows@[q]@),
                ),
                self.dest_folder == old(self).dest_folder,
                self.header_style_link == old(self).header_style_link,
                self.border_style == old(self).border_style,
            decreases m - k,
        {
            let row = &rows[k];
            assert forall|j: int| 0 <= j < row@.len() implies #[trigger] row@[j]@.len() + 2 <= usize::MAX by {
                assert(rows@[k as int]@[j]@.len() + 2 <= usize::MAX);
            }
            let ghost before = self.rows@;
            let ghost hs = self.headers@;
            match self.ingest_row(row) {
                Ok(()) => {},
                Err(_) => {
                    assert(false);
                },
            }
            proof {
                assert forall|q: int| 0 <= q < k + 1 implies texts((#[trigger] self.rows@[q])@) == ingested(
                    (q + 1) as nat,
                    texts(rows@[q]@),
                ) by {
                    if q < k {
                        assert(self.rows@[q] == self.rows@.drop_last()[q]);
                        assert(before[q] == self.rows@[q]);
                    }
                }
                assert forall|j: int| 0 <= j < n implies (#[trigger] self.headers@[j + 1]).name@ == display_name(names@[j]@)
                    && self.headers@[j + 1].length == data_width(names@[j]@, rows@, j, (k + 1) as nat) by {
                    assert(hs[j + 1].length == data_width(names@[j]@, rows@, j, k as nat));
                }
            }
            k = k + 1;
        }
        proof {
            assert forall|q: int| 0 <= q < self.rows@.len() implies #[trigger] self.rows@[q]@.len()
                == self.headers@.len() by {
                assert(texts(self.rows@[q]@).len() == self.rows@[q]@.len());
            }
        }
        match self.generate() {
            Ok(lines) => Ok(Some(lines)),
            Err(e) => Err(e),
        }
    }

    /// Replaces the columns and rows, then draws the table.
    pub fn update_headers_and_rows(&mut self, headers: Vec<Header>, rows: Vec<Vec<String>>) -> (r:
        Result<Vec<String>, Error>)
        ensures
            final(self).headers == headers,
            final(self).rows == rows,
            final(self).dest_folder == old(self).dest_folder,
            final(self).header_style_link == old(self).header_style_link,
            final(self).border_style == old(self).border_style,
            r is Ok <==> final(self).shape_ok(),
            r matches Ok(lines) ==> texts(lines@) == final(self).rendered(),
            r matches Err(e) ==> e is Shape,
    {
        self.headers = headers;
        self.rows = rows;
        self.generate()
    }
}

/// How many times `c` occurs in `s`.
pub open spec fn count(s: Seq<char>, c: char) -> nat
    decreases s.len(),
{
    if s.len() == 0 {
        0
    } else {
        count(s.drop_last(), c) + if s.last() == c {
            1nat
        } else {
            0nat
        }
    }
}

proof fn lemma_count_single(x: char, c: char)
    ensures
        count(seq![x], c) == if x == c {
            1nat
        } else {
            0nat
        },
{
    reveal_with_fuel(count, 2);
    assert(seq![x].drop_last() =~= Seq::<char>::empty());
}

proof fn lemma_count_concat(a: Seq<char>, b: Seq<char>, c: char)
    ensures
        count(a + b, c) == count(a, c) + count(b, c),
    decreases b.len(),
{
    if b.len() == 0 {
        assert(a + b =~= a);
    } else {
        assert((a + b).drop_last() =~= a + b.drop_last());
        lemma_count_concat(a, b.drop_last(), c);
    }
}

proof fn lemma_count_repeat(x: char, k: nat, c: char)
    requires
        x != c,
    ensures
        count(repeat(x, k), c) == 0,
    decreases k,
{
    if k > 0 {
        assert(repeat(x, k).drop_last() =~= repeat(x, (k - 1) as nat));
        lemma_count_repeat(x, (k - 1) as nat, c);
    }
}

proof fn lemma_count_pad(t: Seq<char>, w: nat, c: char)
    requires
        c != ' ',
    ensures
        count(pad(t, w), c) == count(t, c),
{
    if w > t.len() {
        lemma_count_concat(t, repeat(' ', (w - t.len()) as nat), c);
        lemma_count_repeat(' ', (w - t.len()) as nat, c);
    }
}

proof fn lemma_count_cells(hs: Seq<Header>, cs: Seq<Seq<char>>, k: nat, v: char)
    requires
        v != ' ',
        k <= hs.len(),
        k <= cs.len(),
        forall|j: int| 0 <= j < k ==> count(#[trigger] cs[j], v) == 0,
    ensures
        count(cells(hs, cs, k, v), v) == k,
    decreases k,
{
    if k > 0 {
        let prev = cells(hs, cs, (k - 1) as nat, v);
        let cell = pad(cs[k - 1], hs[k - 1].length as nat);
        lemma_count_cells(hs, cs, (k - 1) as nat, v);
        lemma_count_pad(cs[k - 1], hs[k - 1].length as nat, v);
        lemma_count_concat(prev, cell, v);
        lemma_count_concat(prev + cell, seq![v], v);
        lemma_count_single(v, v);
    }
}

proof fn lemma_count_rule(hs: Seq<Header>, k: nat, mid: char, last: char, h: char, c: char)
    requires
        k <= hs.len(),
        c != mid,
        c != last,
        c != h,
    ensures
        count(rule(hs, k, mid, last, h), c) == 0,
    decreases k,
{
    if k > 0 {
        let prev = rule(hs, (k - 1) as nat, mid, last, h);
        let run = repeat(h, hs[k - 1].length as nat);
        let j = seq![if k < hs.len() { mid } else { last }];
        lemma_count_rule(hs, (k - 1) as nat, mid, last, h, c);
        lemma_count_repeat(h, hs[k - 1].length as nat, c);
        lemma_count_concat(prev, run, c);
        lemma_count_concat(prev + run, j, c);
        lemma_count_single(if k < hs.len() { mid } else { last }, c);
    }
}

proof fn lemma_body(b: Border, hs: Seq<Header>, rows: Seq<Vec<String>>, k: nat)
    requires
        k <= rows.len(),
    ensures
        body(b, hs, rows, k).len() == 2 * k,
        forall|i: int|
            0 <= i < k ==> body(b, hs, rows, k)[2 * i] == content_line(b, hs, texts(#[trigger] rows[i]@)),
        forall|i: int|
            0 <= i < k ==> #[trigger] body(b, hs, rows, k)[2 * i + 1] == if i + 1 < rows.len() {
                inner_line(b, hs)
            } else {
                bottom_line(b, hs)
            },
    decreases k,
{
    if k > 0 {
        lemma_body(b, hs, rows, (k - 1) as nat);
        let prev = body(b, hs, rows, (k - 1) as nat);
        assert forall|i: int| 0 <= i < k implies body(b, hs, rows, k)[2 * i] == content_line(
            b,
            hs,
            texts(#[trigger] rows[i]@),
        ) by {
            if i < k - 1 {
                assert(body(b, hs, rows, k)[2 * i] == prev[2 * i]);
            }
        }
        assert forall|i: int| 0 <= i < k implies #[trigger] body(b, hs, rows, k)[2 * i + 1] == if i + 1
            < rows.len() {
            inner_line(b, hs)
        } else {
            bottom_line(b, hs)
        } by {
            if i < k - 1 {
                assert(body(b, hs, rows, k)[2 * i + 1] == prev[2 * i + 1]);
            }
        }
    }
}

/// A drawn table has three lines before its rows and two per row.
pub proof fn lemma_line_count(t: Table)
    ensures
        t.rendered().len() == 3 + 2 * t.rows@.len(),
{
    lemma_body(t.border(), t.headers@, t.rows@, t.rows@.len());
}

/// Every content line of a drawn table, the header line and each row line, holds
/// the vertical glyph once more than there are columns: once at the left edge and
/// once after each cell, provided no name or cell holds that glyph itself.
pub proof fn lemma_content_verticals(t: Table)
    requires
        t.shape_ok(),
        forall|j: int| 0 <= j < t.headers@.len() ==> count(#[trigger] t.headers@[j].name@, t.border().vertical) == 0,
        forall|i: int, j: int|
            0 <= i < t.rows@.len() && 0 <= j < t.headers@.len() ==> count(#[trigger] t.rows@[i]@[j]@, t.border().vertical) == 0,
    ensures
        count(t.rendered()[1], t.border().vertical) == t.headers@.len() + 1,
        forall|i: int|
            0 <= i < t.rows@.len() ==> count(#[trigger] t.rendered()[3 + 2 * i], t.border().vertical)
                == t.headers@.len() + 1,
{
    let b = t.border();
    let hs = t.headers@;
    let v = b.vertical;
    lemma_frame_not_space(t.border_style);
    lemma_body(b, hs, t.rows@, t.rows@.len());
    let names = header_names(hs);
    assert forall|j: int| 0 <= j < hs.len() implies count(#[trigger] names[j], v) == 0 by {
        assert(names[j] == hs[j].name@);
    }
    lemma_count_cells(hs, names, hs.len(), v);
    lemma_count_concat(seq![v], cells(hs, names, hs.len(), v), v);
    lemma_count_single(v, v);
    assert forall|i: int| 0 <= i < t.rows@.len() implies count(#[trigger] t.rendered()[3 + 2 * i], v)
        == hs.len() + 1 by {
        let cs = texts(t.rows@[i]@);
        assert(t.rows@[i]@.len() == hs.len());
        assert forall|j: int| 0 <= j < hs.len() implies count(#[trigger] cs[j], v) == 0 by {
            assert(cs[j] == t.rows@[i]@[j]@);
        }
        lemma_count_cells(hs, cs, hs.len(), v);
        lemma_count_concat(seq![v], cells(hs, cs, hs.len(), v), v);
        assert(t.rendered()[3 + 2 * i] == body(b, hs, t.rows@, t.rows@.len())[2 * i]);
    }
}

/// A table with exactly one row draws five lines: the top, the header, the rule
/// under the header, the row, and the bottom of the frame. The bottom line runs
/// from the bottom-left corner to the bottom-right corner and holds none of the
/// glyphs that join a rule to rows below it.
pub proof fn lemma_single_row(t: Table)
    requires
        t.shape_ok(),
        t.rows@.len() == 1,
    ensures
        t.rendered().len() == 5,
        t.rendered()[0] == top_line(t.border(), t.headers@),
        t.rendered()[2] == inner_line(t.border(), t.headers@),
        t.rendered()[4] == bottom_line(t.border(), t.headers@),
        t.rendered()[4][0] == t.border().corner_bottom_left,
        t.rendered()[4].last() == t.border().corner_bottom_right,
        count(t.rendered()[4], t.border().intersection) == 0,
        count(t.rendered()[4], t.border().vertical_left) == 0,
        count(t.rendered()[4], t.border().vertical_right) == 0,
{
    let b = t.border();
    let hs = t.headers@;
    lemma_body(b, hs, t.rows@, 1);
    assert(t.rendered()[4] == body(b, hs, t.rows@, 1)[2 * 0int + 1]);
    let r = rule(hs, hs.len(), b.division_bottom, b.corner_bottom_right, b.horizontal);
    lemma_count_rule(hs, hs.len(), b.division_bottom, b.corner_bottom_right, b.horizontal, b.intersection);
    lemma_count_rule(hs, hs.len(), b.division_bottom, b.corner_bottom_right, b.horizontal, b.vertical_left);
    lemma_count_rule(hs, hs.len(), b.division_bottom, b.corner_bottom_right, b.horizontal, b.vertical_right);
    lemma_count_concat(seq![b.corner_bottom_left], r, b.intersection);
    lemma_count_concat(seq![b.corner_bottom_left], r, b.vertical_left);
    lemma_count_concat(seq![b.corner_bottom_left], r, b.vertical_right);
    lemma_count_single(b.corner_bottom_left, b.intersection);
    lemma_count_single(b.corner_bottom_left, b.vertical_left);
    lemma_count_single(b.corner_bottom_left, b.vertical_right);
}

} // verus!
