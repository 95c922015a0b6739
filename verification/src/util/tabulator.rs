//! Tables for the console.
//!
//! A table has a header and rows of cells. Each column is as wide as its
//! widest cell, in bytes; a row is laid out with a blank on either side of
//! each cell, padding up to the width of the column, and a bar between the
//! columns.

use colored::Colorize;
use vstd::prelude::*;
use vstd::utf8::encode_utf8;

verus! {

/// `Colorize::cyan` of `colored`, written out with `format!`: the text, with
/// the escape sequences for cyan around it where the environment asks for
/// colours. Which it is cannot be told beforehand, so nothing is stated of it.
#[verifier::external_body]
fn cyan(text: &str) -> String {
    format!("{}", text.cyan())
}

/// The width of a text: the number of bytes it takes.
pub open spec fn width_of(text: Seq<char>) -> nat {
    encode_utf8(text).len()
}

/// `piece` written `count` times over.
pub open spec fn repeated(piece: Seq<char>, count: nat) -> Seq<char>
    decreases count,
{
    if count == 0 {
        Seq::empty()
    } else {
        repeated(piece, (count - 1) as nat) + piece
    }
}

/// The texts of the cells of a row.
pub open spec fn cells(row: Seq<String>) -> Seq<Seq<char>> {
    Seq::new(row.len(), |i: int| row[i]@)
}

/// The width of a column: that of its widest cell, the header included. A
/// row that is too short to reach the column has no cell in it.
pub open spec fn column_width(
    header: Seq<Seq<char>>,
    rows: Seq<Seq<Seq<char>>>,
    column: int,
) -> nat
    decreases rows.len(),
{
    if rows.len() == 0 {
        width_of(header[column])
    } else {
        let above = column_width(header, rows.drop_last(), column);
        let row = rows.last();
        if column < row.len() && width_of(row[column]) > above {
            width_of(row[column])
        } else {
            above
        }
    }
}

/// No cell is wider than its column.
pub proof fn lemma_column_width_covers(
    header: Seq<Seq<char>>,
    rows: Seq<Seq<Seq<char>>>,
    column: int,
    row: int,
)
    requires
        0 <= row < rows.len(),
        0 <= column < rows[row].len(),
    ensures
        width_of(header[column]) <= column_width(header, rows, column),
        width_of(rows[row][column]) <= column_width(header, rows, column),
    decreases rows.len(),
{
    lemma_column_width_covers_header(header, rows, column);
    if row < rows.len() - 1 {
        lemma_column_width_covers(header, rows.drop_last(), column, row);
    }
}

/// The header is no wider than its column.
pub proof fn lemma_column_width_covers_header(
    header: Seq<Seq<char>>,
    rows: Seq<Seq<Seq<char>>>,
    column: int,
)
    ensures
        width_of(header[column]) <= column_width(header, rows, column),
    decreases rows.len(),
{
    if rows.len() > 0 {
        lemma_column_width_covers_header(header, rows.drop_last(), column);
    }
}

/// A cell as it stands in a line: a blank, the text as it is painted, a
/// blank, the padding, and a bar.
pub open spec fn cell_text(painted: Seq<char>, padding: nat) -> Seq<char> {
    " "@ + painted + " "@ + repeated(" "@, padding) + "|"@
}

/// The line of the first `upto` cells of a row: a bar, and then the cells,
/// each padded to the width of its column.
pub open spec fn row_text(
    row: Seq<Seq<char>>,
    painted: Seq<Seq<char>>,
    widths: Seq<usize>,
    upto: nat,
) -> Seq<char>
    decreases upto,
{
    if upto == 0 {
        "|"@
    } else {
        row_text(row, painted, widths, (upto - 1) as nat) + cell_text(
            painted[upto - 1],
            (widths[upto - 1] - width_of(row[upto - 1])) as nat,
        )
    }
}

/// The line under the header, for the first `upto` columns: a bar, and then
/// for each column dashes over its whole width and a bar.
pub open spec fn blank_text(widths: Seq<usize>, upto: nat) -> Seq<char>
    decreases upto,
{
    if upto == 0 {
        "|"@
    } else {
        blank_text(widths, (upto - 1) as nat) + repeated("-"@, (widths[upto - 1] + 2) as nat)
            + "|"@
    }
}

/// The sum of the first `upto` widths.
pub open spec fn total_width(widths: Seq<usize>, upto: nat) -> nat
    decreases upto,
{
    if upto == 0 {
        0
    } else {
        total_width(widths, (upto - 1) as nat) + widths[upto - 1] as nat
    }
}

/// The length of the rules above and below a table: all columns with their
/// blanks, and the bars between them.
pub open spec fn rule_len(widths: Seq<usize>) -> int {
    total_width(widths, widths.len()) + 3 * widths.len() - 1
}

/// The width of a text: the number of bytes it takes.
pub fn byte_len(text: &str) -> (len: usize)
    ensures
        len == width_of(text@),
{
    text.as_bytes().len()
}

/// `piece` written `count` times over.
pub fn repeat(piece: &str, count: usize) -> (text: String)
    ensures
        text@ == repeated(piece@, count as nat),
{
    let mut text = String::new();
    let mut n: usize = 0;
    while n < count
        invariant
            n <= count,
            text@ == repeated(piece@, n as nat),
        decreases count - n,
    {
        text.append(piece);
        n = n + 1;
    }
    text
}

pub struct Tabulator {
    header: Vec<String>,
    rows: Vec<Vec<String>>,
    column_widths: Vec<usize>,
}

impl Tabulator {
    /// The texts of the header.
    pub closed spec fn header(&self) -> Seq<Seq<char>> {
        cells(self.header@)
    }

    /// The texts of the rows, in the order in which they were appended.
    pub closed spec fn rows(&self) -> Seq<Seq<Seq<char>>> {
        Seq::new(self.rows@.len(), |r: int| cells(self.rows@[r]@))
    }

    /// The widths of the columns.
    pub closed spec fn widths(&self) -> Seq<usize> {
        self.column_widths@
    }

    /// There is a width for each column of the header, and it is the width
    /// of that column.
    pub open spec fn well_formed(&self) -> bool {
        &&& self.widths().len() == self.header().len()
        &&& forall|c: int|
            0 <= c < self.header().len() ==> #[trigger] self.widths()[c] == column_width(
                self.header(),
                self.rows(),
                c,
            )
    }

    /// Whether the table can be laid out: it has a column, no row has more
    /// cells than the header, and the lengths of its lines fit.
    pub open spec fn fits(&self) -> bool {
        &&& self.header().len() > 0
        &&& forall|r: int| 0 <= r < self.rows().len() ==> (#[trigger] self.rows()[r]).len()
            <= self.header().len()
        &&& forall|c: int| 0 <= c < self.widths().len() ==> #[trigger] self.widths()[c] + 2
            <= usize::MAX
        &&& rule_len(self.widths()) <= usize::MAX
    }

    /// A table with the given header and no rows.
    pub fn new(header: Vec<String>) -> (table: Tabulator)
        ensures
            table.well_formed(),
            table.header() == cells(header@),
            table.rows() == Seq::<Seq<Seq<char>>>::empty(),
    {
        let mut column_widths: Vec<usize> = Vec::new();
        let mut c: usize = 0;
        while c < header.len()
            invariant
                c <= header.len(),
                column_widths.len() == c,
                forall|i: int| 0 <= i < c ==> column_widths[i] == width_of(#[trigger] header[i]@),
            decreases header.len() - c,
        {
            column_widths.push(byte_len(header[c].as_str()));
            c = c + 1;
        }
        let table = Tabulator { header, column_widths, rows: Vec::new() };
        proof {
            assert(table.rows() =~= Seq::<Seq<Seq<char>>>::empty());
            assert forall|c: int| 0 <= c < table.header().len() implies #[trigger] table.widths()[c]
                == column_width(table.header(), table.rows(), c) by {
                assert(table.widths()[c] == width_of(header[c]@));
            }
        }
        table
    }

    /// Adds a row at the bottom. A column grows where the row has a wider
    /// cell in it; cells beyond the last column of the header widen nothing.
    pub fn append(&mut self, row: Vec<String>)
        requires
            old(self).well_formed(),
        ensures
            final(self).well_formed(),
            final(self).header() == old(self).header(),
            final(self).rows() == old(self).rows().push(cells(row@)),
    {
        let ghost header = self.header();
        let ghost above = self.rows();
        let ghost below = above.push(cells(row@));
        proof {
            assert(below.drop_last() =~= above);
        }
        let mut i: usize = 0;
        while i < self.header.len()
            invariant
                i <= self.header.len(),
                self.header() == header,
                self.rows() == above,
                self.header@.len() == header.len(),
                below == above.push(cells(row@)),
                below.drop_last() == above,
                self.widths().len() == header.len(),
                forall|c: int|
                    0 <= c < i ==> #[trigger] self.widths()[c] == column_width(header, below, c),
                forall|c: int|
                    i <= c < header.len() ==> #[trigger] self.widths()[c] == column_width(
                        header,
                        above,
                        c,
                    ),
            decreases self.header.len() - i,
        {
            if i < row.len() {
                let len = byte_len(row[i].as_str());
                assert(cells(row@)[i as int] == row[i as int]@);
                if len > self.column_widths[i] {
                    self.column_widths.set(i, len);
                }
            }
            i = i + 1;
        }
        self.rows.push(row);
        proof {
            assert(self.rows() =~= below);
        }
    }

    /// The line of a row whose cells are painted as given: each cell keeps
    /// the padding that its own text asks for, whatever the paint adds.
    pub fn render_row(&self, row: &Vec<String>, painted: &Vec<String>) -> (line: String)
        requires
            painted.len() == row.len(),
            row.len() <= self.widths().len(),
            forall|i: int| 0 <= i < row.len() ==> width_of(#[trigger] row[i]@) <= self.widths()[i],
        ensures
            line@ == row_text(cells(row@), cells(painted@), self.widths(), row.len() as nat),
    {
        let mut line = String::from_str("|");
        let mut i: usize = 0;
        while i < row.len()
            invariant
                i <= row.len(),
                painted.len() == row.len(),
                row.len() <= self.widths().len(),
                forall|i: int|
                    0 <= i < row.len() ==> width_of(#[trigger] row[i]@) <= self.widths()[i],
                line@ == row_text(cells(row@), cells(painted@), self.widths(), i as nat),
            decreases row.len() - i,
        {
            let padding_len = self.column_widths[i] - byte_len(row[i].as_str());
            let padding = repeat(" ", padding_len);
            let ghost before = line@;
            line.append(" ");
            line.append(painted[i].as_str());
            line.append(" ");
            line.append(padding.as_str());
            line.append("|");
            proof {
                assert(cells(row@)[i as int] == row[i as int]@);
                assert(cells(painted@)[i as int] == painted[i as int]@);
                assert(line@ =~= before + cell_text(painted[i as int]@, padding_len as nat));
            }
            i = i + 1;
        }
        line
    }

    /// The line of a row with its cells painted cyan, or nothing where the
    /// row has more cells than the table has columns or a cell wider than
    /// its column.
    pub fn row_line(&self, row: &Vec<String>) -> (line: Option<String>)
        ensures
            line is Some <==> row.len() <= self.widths().len() && forall|i: int|
                0 <= i < row.len() ==> width_of(#[trigger] row[i]@) <= self.widths()[i],
            line matches Some(text) ==> exists|painted: Seq<Seq<char>>|
                painted.len() == row.len() && text@ == #[trigger] row_text(
                    cells(row@),
                    painted,
                    self.widths(),
                    row.len() as nat,
                ),
    {
        if row.len() > self.column_widths.len() {
            return None;
        }
        let mut painted: Vec<String> = Vec::new();
        let mut i: usize = 0;
        while i < row.len()
            invariant
                i <= row.len(),
                row.len() <= self.widths().len(),
                painted.len() == i,
                forall|k: int| 0 <= k < i ==> width_of(#[trigger] row[k]@) <= self.widths()[k],
            decreases row.len() - i,
        {
            if byte_len(row[i].as_str()) > self.column_widths[i] {
                return None;
            }
            painted.push(cyan(row[i].as_str()));
            i = i + 1;
        }
        let text = self.render_row(row, &painted);
        assert(cells(painted@).len() == row.len());
        Some(text)
    }

    /// The line under the header, or nothing where a column is too wide for
    /// its dashes to be counted.
    pub fn blank_row(&self) -> (line: Option<String>)
        ensures
            line is Some <==> forall|c: int|
                0 <= c < self.widths().len() ==> #[trigger] self.widths()[c] + 2 <= usize::MAX,
            line matches Some(text) ==> text@ == blank_text(
                self.widths(),
                self.widths().len(),
            ),
    {
        let mut line = String::from_str("|");
        let mut c: usize = 0;
        while c < self.column_widths.len()
            invariant
                c <= self.widths().len(),
                forall|k: int| 0 <= k < c ==> #[trigger] self.widths()[k] + 2 <= usize::MAX,
                line@ == blank_text(self.widths(), c as nat),
            decreases self.widths().len() - c,
        {
            let width = self.column_widths[c];
            if width > usize::MAX - 2 {
                return None;
            }
            let dashes = repeat("-", width + 2);
            let ghost before = line@;
            line.append(dashes.as_str());
            line.append("|");
            proof {
                assert(line@ =~= before + repeated("-"@, (width + 2) as nat) + "|"@);
            }
            c = c + 1;
        }
        Some(line)
    }

    /// The rule above or below the table, drawn with `fill` between two
    /// corners, or nothing where the table has no column or the rule is too
    /// long for its length to be counted.
    pub fn rule(&self, fill: &str) -> (line: Option<String>)
        ensures
            line is Some <==> self.widths().len() > 0 && rule_len(self.widths()) <= usize::MAX,
            line matches Some(text) ==> text@ == "+"@ + repeated(
                fill@,
                rule_len(self.widths()) as nat,
            ) + "+"@,
    {
        let columns = self.column_widths.len();
        if columns == 0 {
            return None;
        }
        let mut text_len: usize = 0;
        let mut c: usize = 0;
        while c < columns
            invariant
                c <= columns,
                columns == self.widths().len(),
                text_len == total_width(self.widths(), c as nat),
            decreases columns - c,
        {
            let width = self.column_widths[c];
            if width > usize::MAX - text_len {
                proof {
                    lemma_total_width_grows(self.widths(), c as nat + 1, columns as nat);
                }
                return None;
            }
            text_len = text_len + width;
            c = c + 1;
        }
        let needed: u128 = (text_len as u128) + 3 * (columns as u128) - 1;
        if needed > usize::MAX as u128 {
            return None;
        }
        let mut line = String::from_str("+");
        let middle = repeat(fill, needed as usize);
        line.append(middle.as_str());
        line.append("+");
        Some(line)
    }
}

/// Whether `text` is the line of `row` under some painting of its cells.
pub open spec fn is_row_line(text: Seq<char>, row: Seq<Seq<char>>, widths: Seq<usize>) -> bool {
    exists|painted: Seq<Seq<char>>|
        painted.len() == row.len() && text == #[trigger] row_text(
            row,
            painted,
            widths,
            row.len(),
        )
}

impl Tabulator {
    /// The lines of the table from top to bottom: a rule, the header, the
    /// line under the header, the rows, and a rule. There are none where the
    /// table cannot be laid out.
    pub fn lines(&self) -> (all: Option<Vec<String>>)
        requires
            self.well_formed(),
        ensures
            all is Some <==> self.fits(),
            all matches Some(lines) ==> {
                &&& lines.len() == self.rows().len() + 4
                &&& lines[0]@ == "+"@ + repeated("_"@, rule_len(self.widths()) as nat) + "+"@
                &&& is_row_line(lines[1]@, self.header(), self.widths())
                &&& lines[2]@ == blank_text(self.widths(), self.widths().len())
                &&& forall|r: int|
                    0 <= r < self.rows().len() ==> is_row_line(
                        (#[trigger] lines[r + 3])@,
                        self.rows()[r],
                        self.widths(),
                    )
                &&& lines[lines.len() - 1]@ == "+"@ + repeated(
                    "-"@,
                    rule_len(self.widths()) as nat,
                ) + "+"@
            },
    {
        let top = match self.rule("_") {
            Some(line) => line,
            None => {
                return None;
            },
        };
        let under = match self.blank_row() {
            Some(line) => line,
            None => {
                return None;
            },
        };
        proof {
            assert forall|i: int| 0 <= i < self.header@.len() implies width_of(
                #[trigger] self.header@[i]@,
            ) <= self.widths()[i] by {
                lemma_column_width_covers_header(self.header(), self.rows(), i);
                assert(self.header()[i] == self.header@[i]@);
                assert(self.widths()[i] == column_width(self.header(), self.rows(), i));
            }
        }
        let head = match self.row_line(&self.header) {
            Some(line) => line,
            None => {
                return None;
            },
        };
        let mut lines: Vec<String> = Vec::new();
        lines.push(top);
        lines.push(head);
        lines.push(under);
        let mut r: usize = 0;
        while r < self.rows.len()
            invariant
                r <= self.rows@.len(),
                self.well_formed(),
                self.rows().len() == self.rows@.len(),
                lines.len() == r + 3,
                lines[0]@ == "+"@ + repeated("_"@, rule_len(self.widths()) as nat) + "+"@,
                is_row_line(lines[1]@, self.header(), self.widths()),
                lines[2]@ == blank_text(self.widths(), self.widths().len()),
                forall|k: int|
                    0 <= k < r ==> (#[trigger] self.rows()[k]).len() <= self.header().len(),
                forall|k: int|
                    0 <= k < r ==> is_row_line(
                        (#[trigger] lines[k + 3])@,
                        self.rows()[k],
                        self.widths(),
                    ),
            decreases self.rows@.len() - r,
        {
            proof {
                let row = self.rows@[r as int]@;
                assert(self.rows()[r as int] == cells(row));
                assert forall|i: int| 0 <= i < row.len() && i < self.widths().len() implies width_of(
                    #[trigger] row[i]@,
                ) <= self.widths()[i] by {
                    lemma_column_width_covers(self.header(), self.rows(), i, r as int);
                    assert(self.rows()[r as int][i] == row[i]@);
                    assert(self.widths()[i] == column_width(self.header(), self.rows(), i));
                }
            }
            match self.row_line(&self.rows[r]) {
                Some(line) => {
                    lines.push(line);
                },
                None => {
                    return None;
                },
            }
            r = r + 1;
        }
        match self.rule("-") {
            Some(line) => {
                lines.push(line);
            },
            None => {
                return None;
            },
        }
        Some(lines)
    }
}

/// The sum of the widths does not go down as more of them are counted.
pub proof fn lemma_total_width_grows(widths: Seq<usize>, fewer: nat, more: nat)
    requires
        fewer <= more,
    ensures
        total_width(widths, fewer) <= total_width(widths, more),
    decreases more,
{
    if fewer < more {
        lemma_total_width_grows(widths, fewer, (more - 1) as nat);
    }
}

} // verus!
