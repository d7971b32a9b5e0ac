//! Tables: rows of cells, each cell a run of text units painted adjacently,
//! rendered with every column padded to its widest cell.

use vstd::prelude::*;
use vstd::string::StringExecFns;

use crate::style::Text;
use crate::style::TextV;
use crate::style::cleared_unit;
use crate::style::painted_unit;
use crate::views;

verus! {

/// The view of one cell: the views of its text units.
pub open spec fn cell_view(c: Seq<Text>) -> Seq<TextV> {
    views(c)
}

/// The view of one row: the views of its cells.
pub open spec fn row_view(r: Seq<Vec<Text>>) -> Seq<Seq<TextV>> {
    r.map_values(|c: Vec<Text>| cell_view(c@))
}

/// The view of a whole table: the views of its rows.
pub open spec fn rows_view(t: Seq<Vec<Vec<Text>>>) -> Seq<Seq<Seq<TextV>>> {
    t.map_values(|r: Vec<Vec<Text>>| row_view(r@))
}

/// The display width of the first `n` units of a cell: every character of
/// the text counts, escape sequences never, since they are no part of the
/// units' text.
pub open spec fn cell_width_upto(c: Seq<TextV>, n: int) -> nat
    decreases n,
{
    if n <= 0 {
        0
    } else {
        cell_width_upto(c, n - 1) + c[n - 1].t.len()
    }
}

/// The display width of a cell: the characters of its units, all together.
pub open spec fn cell_width(c: Seq<TextV>) -> nat {
    cell_width_upto(c, c.len() as int)
}

/// The width of column `j` over the first `r` rows: the widest cell at that
/// position; a row too short to reach the column contributes nothing.
pub open spec fn col_width_upto(t: Seq<Seq<Seq<TextV>>>, r: int, j: int) -> nat
    decreases r,
{
    if r <= 0 {
        0
    } else {
        let rest = col_width_upto(t, r - 1, j);
        let here = if 0 <= j < t[r - 1].len() {
            cell_width(t[r - 1][j])
        } else {
            0
        };
        if here > rest {
            here
        } else {
            rest
        }
    }
}

/// The width of column `j`: the widest cell at that position over all rows.
pub open spec fn col_width(t: Seq<Seq<Seq<TextV>>>, j: int) -> nat {
    col_width_upto(t, t.len() as int, j)
}

/// Every cell's width fits the machine: what a table must satisfy so that
/// its alignment arithmetic can be carried out at all.
pub open spec fn widths_fit(t: Seq<Seq<Seq<TextV>>>) -> bool {
    forall|r: int, j: int|
        0 <= r < t.len() && 0 <= j < t[r].len() ==> #[trigger] cell_width(t[r][j]) < usize::MAX
}

/// A run of `n` spaces.
pub open spec fn spaces(n: nat) -> Seq<char>
    decreases n,
{
    if n == 0 {
        Seq::empty()
    } else {
        spaces((n - 1) as nat) + seq![' ']
    }
}

/// The first `n` units of a cell, painted adjacently with no separator.
pub open spec fn painted_cell_upto(c: Seq<TextV>, n: int) -> Seq<char>
    decreases n,
{
    if n <= 0 {
        Seq::empty()
    } else {
        painted_cell_upto(c, n - 1) + painted_unit(c[n - 1])
    }
}

/// A whole cell, painted adjacently with no separator.
pub open spec fn painted_cell(c: Seq<TextV>) -> Seq<char> {
    painted_cell_upto(c, c.len() as int)
}

/// What cell `j` of a row contributes to the output: its painted units, and,
/// for every cell but the row's last, trailing padding up to the column's
/// width plus a single-space gap.
pub open spec fn cell_segment(t: Seq<Seq<Seq<TextV>>>, row: Seq<Seq<TextV>>, j: int) -> Seq<
    char,
> {
    if j + 1 < row.len() {
        painted_cell(row[j]) + spaces((col_width(t, j) - cell_width(row[j]) + 1) as nat)
    } else {
        painted_cell(row[j]) + Seq::empty()
    }
}

/// The first `n` cells of a row, painted and padded.
pub open spec fn painted_row_upto(
    t: Seq<Seq<Seq<TextV>>>,
    row: Seq<Seq<TextV>>,
    n: int,
) -> Seq<char>
    decreases n,
{
    if n <= 0 {
        Seq::empty()
    } else {
        painted_row_upto(t, row, n - 1) + cell_segment(t, row, n - 1)
    }
}

/// A whole row, painted and padded: exactly its own cells, nothing for
/// columns the row does not have.
pub open spec fn painted_row(t: Seq<Seq<Seq<TextV>>>, row: Seq<Seq<TextV>>) -> Seq<char> {
    painted_row_upto(t, row, row.len() as int)
}

/// The first `n` rows of a table, each followed by a newline.
pub open spec fn painted_table_upto(t: Seq<Seq<Seq<TextV>>>, n: int) -> Seq<char>
    decreases n,
{
    if n <= 0 {
        Seq::empty()
    } else {
        painted_table_upto(t, n - 1) + painted_row(t, t[n - 1]) + seq!['\n']
    }
}

/// How a whole table renders.
pub open spec fn painted_table(t: Seq<Seq<Seq<TextV>>>) -> Seq<char> {
    painted_table_upto(t, t.len() as int)
}

/// A cell with every unit's style cleared.
pub open spec fn cleared_cell(c: Seq<TextV>) -> Seq<TextV> {
    c.map_values(|u: TextV| cleared_unit(u))
}

/// A row with every unit's style cleared.
pub open spec fn cleared_row(r: Seq<Seq<TextV>>) -> Seq<Seq<TextV>> {
    r.map_values(|c: Seq<TextV>| cleared_cell(c))
}

/// A table with every unit's style cleared.
pub open spec fn cleared_table(t: Seq<Seq<Seq<TextV>>>) -> Seq<Seq<Seq<TextV>>> {
    t.map_values(|r: Seq<Seq<TextV>>| cleared_row(r))
}

/// A prefix of a cell is never wider than the whole cell.
pub proof fn lemma_cell_width_upto_le(c: Seq<TextV>, n: int)
    requires
        0 <= n <= c.len(),
    ensures
        cell_width_upto(c, n) <= cell_width(c),
    decreases c.len() - n,
{
    if n < c.len() {
        lemma_cell_width_upto_le(c, n + 1);
    }
}

/// Column widths stay below `usize::MAX` when every cell's width does.
pub proof fn lemma_col_width_bound(t: Seq<Seq<Seq<TextV>>>, r: int, j: int)
    requires
        widths_fit(t),
        0 <= r <= t.len(),
    ensures
        col_width_upto(t, r, j) < usize::MAX,
    decreases r,
{
    if r > 0 {
        lemma_col_width_bound(t, r - 1, j);
    }
}

/// A cell is never wider than its own column.
pub proof fn lemma_cell_le_col_upto(t: Seq<Seq<Seq<TextV>>>, r: int, j: int, n: int)
    requires
        0 <= r < n <= t.len(),
        0 <= j < t[r].len(),
    ensures
        cell_width(t[r][j]) <= col_width_upto(t, n, j),
    decreases n,
{
    if r < n - 1 {
        lemma_cell_le_col_upto(t, r, j, n - 1);
    }
}

/// A cell is never wider than its column's width over the whole table.
pub proof fn lemma_cell_le_col(t: Seq<Seq<Seq<TextV>>>, r: int, j: int)
    requires
        0 <= r < t.len(),
        0 <= j < t[r].len(),
    ensures
        cell_width(t[r][j]) <= col_width(t, j),
{
    lemma_cell_le_col_upto(t, r, j, t.len() as int);
}

/// A table renders row by row, and a row appends exactly its own cells'
/// segments: a ragged row neither gains cells nor is padded for columns it
/// does not have.
pub proof fn lemma_table_renders_row_by_row(t: Seq<Seq<Seq<TextV>>>, r: int)
    requires
        0 <= r < t.len(),
    ensures
        painted_table_upto(t, r + 1) == painted_table_upto(t, r) + painted_row(t, t[r]) + seq![
            '\n',
        ],
        painted_row(t, t[r]) == painted_row_upto(t, t[r], t[r].len() as int),
{
}

/// The last cell of a row is written without any trailing padding.
pub proof fn lemma_last_cell_unpadded(t: Seq<Seq<Seq<TextV>>>, row: Seq<Seq<TextV>>)
    requires
        row.len() > 0,
    ensures
        painted_row(t, row) == painted_row_upto(t, row, row.len() - 1) + painted_cell(
            row[row.len() - 1],
        ),
{
    assert(cell_segment(t, row, row.len() - 1) =~= painted_cell(row[row.len() - 1]));
}

/// The display width of a cell, counted unit by unit.
fn cell_width_exec(cell: &Vec<Text>) -> (r: usize)
    requires
        cell_width(cell_view(cell@)) < usize::MAX,
    ensures
        r == cell_width(cell_view(cell@)),
{
    let ghost cv = cell_view(cell@);
    let mut w: usize = 0;
    let mut k: usize = 0;
    while k < cell.len()
        invariant
            k <= cell@.len(),
            cv == cell_view(cell@),
            cell_width(cv) < usize::MAX,
            w == cell_width_upto(cv, k as int),
        decreases cell@.len() - k,
    {
        proof {
            lemma_cell_width_upto_le(cv, k + 1);
            assert(cv[k as int] == cell@[k as int]@);
        }
        w = w + cell[k].width();
        k = k + 1;
    }
    w
}

/// The width of a cell where it fits the machine, and `None` where summing
/// the units' widths would overflow.
fn cell_width_checked(cell: &Vec<Text>) -> (r: Option<usize>)
    ensures
        match r {
            Some(w) => w == cell_width(cell_view(cell@)),
            None => cell_width(cell_view(cell@)) > usize::MAX,
        },
{
    let ghost cv = cell_view(cell@);
    let mut w: usize = 0;
    let mut k: usize = 0;
    while k < cell.len()
        invariant
            k <= cell@.len(),
            cv == cell_view(cell@),
            w == cell_width_upto(cv, k as int),
        decreases cell@.len() - k,
    {
        proof {
            assert(cv[k as int] == cell@[k as int]@);
        }
        let len = cell[k].width();
        match w.checked_add(len) {
            Some(nw) => {
                w = nw;
            },
            None => {
                proof {
                    lemma_cell_width_upto_le(cv, k + 1);
                }
                return None;
            },
        }
        k = k + 1;
    }
    Some(w)
}

/// A paintable table.
///
/// The type can be thought of as rows of columns of cells, where the items
/// inside a cell are concatenated, so that mixed formatting can exist within
/// one table cell.
#[derive(Debug, PartialEq, Eq)]
pub struct Table {
    table: Vec<Vec<Vec<Text>>>,
}

impl View for Table {
    type V = Seq<Seq<Seq<TextV>>>;

    closed spec fn view(&self) -> Seq<Seq<Seq<TextV>>> {
        rows_view(self.table@)
    }
}

impl Table {
    /// A new table from the given rows of cells.
    pub fn new(table: Vec<Vec<Vec<Text>>>) -> (r: Table)
        ensures
            r@ == rows_view(table@),
    {
        Table { table }
    }

    /// Recursively clears all formatting: every unit inside every cell keeps
    /// its text and loses its style.
    pub fn set_plain(&mut self)
        ensures
            final(self)@ == cleared_table(old(self)@),
    {
        let ghost target = cleared_table(old(self)@);
        let mut rows: Vec<Vec<Vec<Text>>> = Vec::new();
        let mut r: usize = 0;
        while r < self.table.len()
            invariant
                self == old(self),
                target == cleared_table(old(self)@),
                r <= self.table@.len(),
                rows@.len() == r,
                rows_view(rows@) == target.take(r as int),
            decreases self.table@.len() - r,
        {
            let orig_row = &self.table[r];
            let mut row: Vec<Vec<Text>> = Vec::new();
            let mut c: usize = 0;
            while c < orig_row.len()
                invariant
                    c <= orig_row@.len(),
                    row@.len() == c,
                    row_view(row@) == cleared_row(row_view(orig_row@)).take(c as int),
                decreases orig_row@.len() - c,
            {
                let orig_cell = &orig_row[c];
                let mut cell: Vec<Text> = Vec::new();
                let mut k: usize = 0;
                while k < orig_cell.len()
                    invariant
                        k <= orig_cell@.len(),
                        cell@.len() == k,
                        cell_view(cell@) == cleared_cell(cell_view(orig_cell@)).take(k as int),
                    decreases orig_cell@.len() - k,
                {
                    cell.push(orig_cell[k].plain_copy());
                    proof {
                        assert(cell_view(cell@) =~= cleared_cell(cell_view(orig_cell@)).take(
                            k + 1,
                        ));
                    }
                    k = k + 1;
                }
                proof {
                    assert(cell_view(cell@) =~= cleared_cell(cell_view(orig_cell@)));
                }
                row.push(cell);
                proof {
                    assert(row_view(row@) =~= cleared_row(row_view(orig_row@)).take(c + 1));
                }
                c = c + 1;
            }
            proof {
                assert(row_view(row@) =~= cleared_row(row_view(orig_row@)));
            }
            rows.push(row);
            proof {
                assert(rows_view(rows@) =~= target.take(r + 1));
            }
            r = r + 1;
        }
        proof {
            assert(rows_view(rows@) =~= target);
        }
        self.table = rows;
    }

    /// Whether every cell's width fits the machine, so that the table can
    /// be painted: true of any table whose cells' character counts stay
    /// below `usize::MAX`.
    pub fn fits(&self) -> (r: bool)
        ensures
            r == widths_fit(self@),
    {
        let ghost t = self@;
        let mut rr: usize = 0;
        while rr < self.table.len()
            invariant
                t == self@,
                rr <= t.len(),
                forall|r2: int, j2: int|
                    0 <= r2 < rr && 0 <= j2 < t[r2].len() ==> #[trigger] cell_width(t[r2][j2])
                        < usize::MAX,
            decreases t.len() - rr,
        {
            let row = &self.table[rr];
            proof {
                assert(row_view(row@) == t[rr as int]);
            }
            let mut j: usize = 0;
            while j < row.len()
                invariant
                    t == self@,
                    rr < t.len(),
                    row_view(row@) == t[rr as int],
                    row@.len() == t[rr as int].len(),
                    j <= row@.len(),
                    forall|r2: int, j2: int|
                        0 <= r2 < rr && 0 <= j2 < t[r2].len() ==> #[trigger] cell_width(
                            t[r2][j2],
                        ) < usize::MAX,
                    forall|j2: int|
                        0 <= j2 < j ==> #[trigger] cell_width(t[rr as int][j2]) < usize::MAX,
                decreases row@.len() - j,
            {
                proof {
                    assert(cell_view(row@[j as int]@) == t[rr as int][j as int]);
                }
                let wide = match cell_width_checked(&row[j]) {
                    Some(w) => w == usize::MAX,
                    None => true,
                };
                if wide {
                    proof {
                        assert(cell_width(t[rr as int][j as int]) >= usize::MAX);
                        assert(!widths_fit(t));
                    }
                    return false;
                }
                j = j + 1;
            }
            rr = rr + 1;
        }
        true
    }

    /// The width of each column that exists anywhere in the table: the
    /// widest cell at that position over all rows.
    fn col_widths(&self) -> (widths: Vec<usize>)
        requires
            widths_fit(self@),
        ensures
            forall|j: int| 0 <= j < widths@.len() ==> widths@[j] == col_width(self@, j),
            forall|j: int| j >= widths@.len() ==> col_width(self@, j) == 0,
            forall|r: int| 0 <= r < self@.len() ==> self@[r].len() <= widths@.len(),
    {
        let ghost t = self@;
        let mut widths: Vec<usize> = Vec::new();
        let mut r: usize = 0;
        while r < self.table.len()
            invariant
                t == self@,
                widths_fit(t),
                r <= t.len(),
                forall|j: int| 0 <= j < widths@.len() ==> widths@[j] == col_width_upto(t, r as int, j),
                forall|j: int| j >= widths@.len() ==> col_width_upto(t, r as int, j) == 0,
                forall|rr: int| 0 <= rr < r ==> t[rr].len() <= widths@.len(),
            decreases t.len() - r,
        {
            let row = &self.table[r];
            proof {
                assert(row_view(row@) == t[r as int]);
            }
            let mut j: usize = 0;
            while j < row.len()
                invariant
                    t == self@,
                    widths_fit(t),
                    r < t.len(),
                    row_view(row@) == t[r as int],
                    row@.len() == t[r as int].len(),
                    j <= row@.len(),
                    j <= widths@.len(),
                    forall|jj: int|
                        0 <= jj < j ==> widths@[jj] == col_width_upto(t, r + 1 as int, jj),
                    forall|jj: int|
                        j <= jj < widths@.len() ==> widths@[jj] == col_width_upto(t, r as int, jj),
                    forall|jj: int| jj >= widths@.len() ==> col_width_upto(t, r as int, jj) == 0,
                    forall|rr: int| 0 <= rr < r ==> t[rr].len() <= widths@.len(),
                decreases row@.len() - j,
            {
                proof {
                    assert(cell_view(row@[j as int]@) == t[r as int][j as int]);
                    assert(cell_width(t[r as int][j as int]) < usize::MAX);
                }
                let cw = cell_width_exec(&row[j]);
                if j == widths.len() {
                    widths.push(cw);
                } else if cw > widths[j] {
                    widths.set(j, cw);
                }
                proof {
                    let jj = j as int;
                    assert(col_width_upto(t, r + 1 as int, jj) == (if cell_width(
                        t[r as int][jj],
                    ) > col_width_upto(t, r as int, jj) {
                        cell_width(t[r as int][jj])
                    } else {
                        col_width_upto(t, r as int, jj)
                    }));
                }
                j = j + 1;
            }
            proof {
                assert forall|jj: int| j <= jj < widths@.len() implies widths@[jj]
                    == col_width_upto(t, r + 1 as int, jj) by {
                    assert(jj >= t[r as int].len());
                }
                assert forall|jj: int| jj >= widths@.len() implies #[trigger] col_width_upto(
                    t,
                    r + 1 as int,
                    jj,
                ) == 0 by {
                    assert(jj >= t[r as int].len());
                    assert(col_width_upto(t, r as int, jj) == 0);
                }
            }
            r = r + 1;
        }
        widths
    }

    /// Paint the table: each row's cells adjacently, every cell but the last
    /// of its row padded to its column's width plus a single-space gap, each
    /// row closed with a newline.
    pub fn paint(&self, w: &mut String)
        requires
            widths_fit(self@),
        ensures
            final(w)@ == old(w)@ + painted_table(self@),
    {
        let ghost t = self@;
        let widths = self.col_widths();
        let mut r: usize = 0;
        while r < self.table.len()
            invariant
                t == self@,
                widths_fit(t),
                r <= t.len(),
                forall|j: int| 0 <= j < widths@.len() ==> widths@[j] == col_width(t, j),
                forall|rr: int| 0 <= rr < t.len() ==> t[rr].len() <= widths@.len(),
                w@ == old(w)@ + painted_table_upto(t, r as int),
            decreases t.len() - r,
        {
            let ghost w_row = w@;
            let row = &self.table[r];
            let ghost rowv = t[r as int];
            proof {
                assert(row_view(row@) == rowv);
            }
            let mut j: usize = 0;
            while j < row.len()
                invariant
                    t == self@,
                    widths_fit(t),
                    r < t.len(),
                    row_view(row@) == rowv,
                    rowv == t[r as int],
                    row@.len() == rowv.len(),
                    j <= rowv.len(),
                    forall|jj: int| 0 <= jj < widths@.len() ==> widths@[jj] == col_width(t, jj),
                    forall|rr: int| 0 <= rr < t.len() ==> t[rr].len() <= widths@.len(),
                    w@ == w_row + painted_row_upto(t, rowv, j as int),
                decreases rowv.len() - j,
            {
                let ghost w_cell = w@;
                let cell = &row[j];
                let ghost cellv = rowv[j as int];
                proof {
                    assert(cell_view(cell@) == cellv);
                }
                let mut k: usize = 0;
                while k < cell.len()
                    invariant
                        cell_view(cell@) == cellv,
                        cell@.len() == cellv.len(),
                        k <= cellv.len(),
                        w@ == w_cell + painted_cell_upto(cellv, k as int),
                    decreases cellv.len() - k,
                {
                    proof {
                        assert(cell@[k as int]@ == cellv[k as int]);
                    }
                    cell[k].paint(w);
                    proof {
                        assert(w@ =~= w_cell + painted_cell_upto(cellv, k + 1));
                    }
                    k = k + 1;
                }
                if j + 1 < row.len() {
                    proof {
                        lemma_cell_le_col(t, r as int, j as int);
                        lemma_col_width_bound(t, t.len() as int, j as int);
                        assert(widths@[j as int] == col_width(t, j as int));
                    }
                    let cw = cell_width_exec(cell);
                    let pad = widths[j] - cw + 1;
                    let ghost w_pad = w@;
                    let mut p: usize = 0;
                    while p < pad
                        invariant
                            p <= pad,
                            w@ == w_pad + spaces(p as nat),
                        decreases pad - p,
                    {
                        w.append(" ");
                        proof {
                            reveal_strlit(" ");
                            assert(w@ =~= w_pad + spaces((p + 1) as nat));
                        }
                        p = p + 1;
                    }
                    proof {
                        assert(w@ =~= w_cell + cell_segment(t, rowv, j as int));
                    }
                } else {
                    proof {
                        assert(w@ =~= w_cell + cell_segment(t, rowv, j as int));
                    }
                }
                proof {
                    assert(w@ =~= w_row + painted_row_upto(t, rowv, j + 1));
                }
                j = j + 1;
            }
            w.append("\n");
            proof {
                reveal_strlit("\n");
                assert(w@ =~= old(w)@ + painted_table_upto(t, r + 1));
            }
            r = r + 1;
        }
    }
}

} // verus!
