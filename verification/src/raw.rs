//! The raw document model — the permissive, shorthand-tolerant form a
//! deserializer produces — and its normalization into strict elements.

use vstd::prelude::*;

use crate::el::El;
use crate::el::ElV;
use crate::style::Color;
use crate::style::Text;
use crate::style::TextV;
use crate::table::Table;
use crate::table::rows_view;
use crate::views;

verus! {

/// Raw text: either a bare string — shorthand for default-styled text — or
/// a full styled record.
#[derive(Debug)]
pub enum TextRaw {
    Simple(String),
    Full(Text),
}

/// The mathematical value of a [`TextRaw`].
pub enum TextRawV {
    Simple(Seq<char>),
    Full(TextV),
}

impl View for TextRaw {
    type V = TextRawV;

    open spec fn view(&self) -> TextRawV {
        match self {
            TextRaw::Simple(s) => TextRawV::Simple(s@),
            TextRaw::Full(t) => TextRawV::Full(t@),
        }
    }
}

/// A raw text group: one raw text, or an ordered list of them.
#[derive(Debug)]
pub enum TextsRaw {
    Single(TextRaw),
    Multi(Vec<TextRaw>),
}

/// The mathematical value of a [`TextsRaw`].
pub enum TextsRawV {
    Single(TextRawV),
    Multi(Seq<TextRawV>),
}

impl View for TextsRaw {
    type V = TextsRawV;

    open spec fn view(&self) -> TextsRawV {
        match self {
            TextsRaw::Single(t) => TextsRawV::Single(t@),
            TextsRaw::Multi(ts) => TextsRawV::Multi(views(ts@)),
        }
    }
}

/// A raw table: rows of cells, each cell itself a raw text group.
#[derive(Debug)]
pub struct TableRaw {
    table: Vec<Vec<TextsRaw>>,
}

/// The view of a raw table's rows.
pub open spec fn raw_rows_view(t: Seq<Vec<TextsRaw>>) -> Seq<Seq<TextsRawV>> {
    t.map_values(|r: Vec<TextsRaw>| views(r@))
}

impl View for TableRaw {
    type V = Seq<Seq<TextsRawV>>;

    closed spec fn view(&self) -> Seq<Seq<TextsRawV>> {
        raw_rows_view(self.table@)
    }
}

impl TableRaw {
    /// A new raw table from the given rows of raw cells.
    pub fn new(table: Vec<Vec<TextsRaw>>) -> (r: TableRaw)
        ensures
            r@ == raw_rows_view(table@),
    {
        TableRaw { table }
    }
}

/// A raw element: a table, or a text group. A shape-based decoder must try
/// the table shape first, since a text record could otherwise spuriously
/// match.
#[derive(Debug)]
pub enum ElRaw {
    Table(TableRaw),
    Text(TextsRaw),
}

/// The mathematical value of an [`ElRaw`].
pub enum ElRawV {
    Table(Seq<Seq<TextsRawV>>),
    Text(TextsRawV),
}

impl View for ElRaw {
    type V = ElRawV;

    open spec fn view(&self) -> ElRawV {
        match self {
            ElRaw::Table(t) => ElRawV::Table(t@),
            ElRaw::Text(g) => ElRawV::Text(g@),
        }
    }
}

/// What a single raw text flattens to: a bare string becomes a unit with
/// every style flag at its default; a full record stays as it is.
pub open spec fn flat_text(r: TextRawV) -> TextV {
    match r {
        TextRawV::Simple(t) => TextV {
            t,
            b: false,
            i: false,
            c: Color::Plain,
            bg: Color::Plain,
        },
        TextRawV::Full(u) => u,
    }
}

/// The units of the first `n` members of a raw list, each flattened
/// independently, in order.
pub open spec fn units_upto(ts: Seq<TextRawV>, n: int) -> Seq<TextV>
    decreases n,
{
    if n <= 0 {
        Seq::empty()
    } else {
        units_upto(ts, n - 1).push(flat_text(ts[n - 1]))
    }
}

/// The units of one raw text group: exactly one for a `Single`, one per
/// member for a `Multi` — an empty `Multi` yields none.
pub open spec fn group_units(g: TextsRawV) -> Seq<TextV> {
    match g {
        TextsRawV::Single(t) => seq![flat_text(t)],
        TextsRawV::Multi(ts) => units_upto(ts, ts.len() as int),
    }
}

/// The first `n` members of a raw list as sibling text elements.
pub open spec fn group_els_upto(ts: Seq<TextRawV>, n: int) -> Seq<ElV>
    decreases n,
{
    if n <= 0 {
        Seq::empty()
    } else {
        group_els_upto(ts, n - 1).push(ElV::Text(flat_text(ts[n - 1])))
    }
}

/// The top-level elements of one raw text group: a `Single` becomes one text
/// element, a `Multi` one sibling element per member — unlike inside a table
/// cell, where a group always stays one cell.
pub open spec fn group_els(g: TextsRawV) -> Seq<ElV> {
    match g {
        TextsRawV::Single(t) => seq![ElV::Text(flat_text(t))],
        TextsRawV::Multi(ts) => group_els_upto(ts, ts.len() as int),
    }
}

/// The first `n` cells of a raw row, each flattened into one cell.
pub open spec fn flat_row_upto(row: Seq<TextsRawV>, n: int) -> Seq<Seq<TextV>>
    decreases n,
{
    if n <= 0 {
        Seq::empty()
    } else {
        flat_row_upto(row, n - 1).push(group_units(row[n - 1]))
    }
}

/// A raw row flattened: one cell per raw cell, in order.
pub open spec fn flat_row(row: Seq<TextsRawV>) -> Seq<Seq<TextV>> {
    flat_row_upto(row, row.len() as int)
}

/// The first `n` rows of a raw table, flattened.
pub open spec fn flat_rows_upto(rows: Seq<Seq<TextsRawV>>, n: int) -> Seq<Seq<Seq<TextV>>>
    decreases n,
{
    if n <= 0 {
        Seq::empty()
    } else {
        flat_rows_upto(rows, n - 1).push(flat_row(rows[n - 1]))
    }
}

/// A raw table flattened: row and column structure preserved, ragged rows
/// passed through unchanged.
pub open spec fn flat_table(rows: Seq<Seq<TextsRawV>>) -> Seq<Seq<Seq<TextV>>> {
    flat_rows_upto(rows, rows.len() as int)
}

/// The elements one raw element yields: a raw table yields exactly one
/// table element; a raw text group yields its top-level elements.
pub open spec fn raw_els(e: ElRawV) -> Seq<ElV> {
    match e {
        ElRawV::Table(rows) => seq![ElV::Table(flat_table(rows))],
        ElRawV::Text(g) => group_els(g),
    }
}

/// The elements of the first `n` raw elements, appended in source order.
pub open spec fn normalize_upto(raws: Seq<ElRawV>, n: int) -> Seq<ElV>
    decreases n,
{
    if n <= 0 {
        Seq::empty()
    } else {
        normalize_upto(raws, n - 1) + raw_els(raws[n - 1])
    }
}

/// The whole normalization: every raw element's elements, in source order.
pub open spec fn normalize_spec(raws: Seq<ElRawV>) -> Seq<ElV> {
    normalize_upto(raws, raws.len() as int)
}

/// One raw text, flattened.
fn text_from_raw(raw: &TextRaw) -> (r: Text)
    ensures
        r@ == flat_text(raw@),
{
    match raw {
        TextRaw::Simple(s) => Text::new(s.clone()),
        TextRaw::Full(t) => t.copy_of(),
    }
}

/// Flatten one raw text group into text units, appended to a cell.
fn flatten_texts_only(into: &mut Vec<Text>, raw: &TextsRaw)
    ensures
        views(final(into)@) == views(old(into)@) + group_units(raw@),
{
    match raw {
        TextsRaw::Single(t) => {
            into.push(text_from_raw(t));
            proof {
                assert(views(into@) =~= views(old(into)@) + group_units(raw@));
            }
        },
        TextsRaw::Multi(multi) => {
            let ghost ts = views(multi@);
            let mut k: usize = 0;
            while k < multi.len()
                invariant
                    ts == views(multi@),
                    k <= multi@.len(),
                    views(into@) == views(old(into)@) + units_upto(ts, k as int),
                decreases multi@.len() - k,
            {
                proof {
                    assert(ts[k as int] == multi@[k as int]@);
                }
                let tnew = text_from_raw(&multi[k]);
                let ghost into_prev = into@;
                into.push(tnew);
                proof {
                    crate::lemma_views_push(into_prev, tnew);
                    assert(views(into@) =~= views(old(into)@) + units_upto(ts, k + 1));
                }
                k = k + 1;
            }
        },
    }
}

/// Flatten one raw text group into sibling elements, appended at the top
/// level.
fn flatten_texts(into: &mut Vec<El>, raw: &TextsRaw)
    ensures
        views(final(into)@) == views(old(into)@) + group_els(raw@),
{
    match raw {
        TextsRaw::Single(t) => {
            into.push(El::Text(text_from_raw(t)));
            proof {
                assert(views(into@) =~= views(old(into)@) + group_els(raw@));
            }
        },
        TextsRaw::Multi(multi) => {
            let ghost ts = views(multi@);
            let mut k: usize = 0;
            while k < multi.len()
                invariant
                    ts == views(multi@),
                    k <= multi@.len(),
                    views(into@) == views(old(into)@) + group_els_upto(ts, k as int),
                decreases multi@.len() - k,
            {
                proof {
                    assert(ts[k as int] == multi@[k as int]@);
                }
                let enew = El::Text(text_from_raw(&multi[k]));
                let ghost into_prev = into@;
                into.push(enew);
                proof {
                    crate::lemma_views_push(into_prev, enew);
                    assert(views(into@) =~= views(old(into)@) + group_els_upto(ts, k + 1));
                }
                k = k + 1;
            }
        },
    }
}

/// Flatten one raw element and append what it yields.
fn flatten_el(into: &mut Vec<El>, raw: &ElRaw)
    ensures
        views(final(into)@) == views(old(into)@) + raw_els(raw@),
{
    match raw {
        ElRaw::Text(g) => flatten_texts(into, g),
        ElRaw::Table(table_raw) => {
            let ghost rawrows = table_raw@;
            let rows = &table_raw.table;
            let mut table: Vec<Vec<Vec<Text>>> = Vec::new();
            let mut r: usize = 0;
            while r < rows.len()
                invariant
                    rawrows == raw_rows_view(rows@),
                    r <= rows@.len(),
                    rows_view(table@) == flat_rows_upto(rawrows, r as int),
                decreases rows@.len() - r,
            {
                let ghost rawrow = rawrows[r as int];
                let row_raw = &rows[r];
                proof {
                    assert(rawrow == views(row_raw@));
                }
                let mut row: Vec<Vec<Text>> = Vec::new();
                let mut c: usize = 0;
                while c < row_raw.len()
                    invariant
                        rawrow == views(row_raw@),
                        c <= row_raw@.len(),
                        crate::table::row_view(row@) == flat_row_upto(rawrow, c as int),
                    decreases row_raw@.len() - c,
                {
                    proof {
                        assert(rawrow[c as int] == row_raw@[c as int]@);
                    }
                    let mut cell: Vec<Text> = Vec::new();
                    flatten_texts_only(&mut cell, &row_raw[c]);
                    proof {
                        assert(crate::table::cell_view(cell@) =~= group_units(rawrow[c as int]));
                    }
                    row.push(cell);
                    proof {
                        assert(crate::table::row_view(row@) =~= flat_row_upto(rawrow, c + 1));
                    }
                    c = c + 1;
                }
                table.push(row);
                proof {
                    assert(rows_view(table@) =~= flat_rows_upto(rawrows, r + 1));
                }
                r = r + 1;
            }
            into.push(El::Table(Table::new(table)));
            proof {
                assert(views(into@) =~= views(old(into)@) + raw_els(raw@));
            }
        },
    }
}

/// Flatten every raw element, appending in source order.
fn flatten_raw(into: &mut Vec<El>, raw: &Vec<ElRaw>)
    ensures
        views(final(into)@) == views(old(into)@) + normalize_spec(views(raw@)),
{
    let ghost raws = views(raw@);
    let mut n: usize = 0;
    while n < raw.len()
        invariant
            raws == views(raw@),
            n <= raw@.len(),
            views(into@) == views(old(into)@) + normalize_upto(raws, n as int),
        decreases raw@.len() - n,
    {
        proof {
            assert(raws[n as int] == raw@[n as int]@);
        }
        flatten_el(into, &raw[n]);
        proof {
            assert(views(into@) =~= views(old(into)@) + normalize_upto(raws, n + 1));
        }
        n = n + 1;
    }
}

/// Normalize a raw document: flatten its raw elements, in source order, into
/// the strict element sequence. Total and deterministic: the result is a
/// function of the input alone.
pub fn normalize(raw: &Vec<ElRaw>) -> (out: Vec<El>)
    ensures
        views(out@) == normalize_spec(views(raw@)),
{
    let mut out: Vec<El> = Vec::new();
    flatten_raw(&mut out, raw);
    proof {
        assert(views(out@) =~= normalize_spec(views(raw@)));
    }
    out
}

/// Convert a string into `Vec<El>` using the given deserializer: whatever
/// raw elements the deserializer yields are normalized in order; a
/// deserializer error is handed back unchanged.
pub fn from_str<E, F: Fn(&str) -> Result<Vec<ElRaw>, E>>(_from_str: F, s: &str) -> (r: Result<
    Vec<El>,
    E,
>)
    requires
        call_requires(_from_str, (s,)),
    ensures
        match r {
            Ok(els) => exists|raw: Vec<ElRaw>|
                #[trigger] call_ensures(_from_str, (s,), Ok(raw)) && views(els@)
                    == normalize_spec(views(raw@)),
            Err(e) => call_ensures(_from_str, (s,), Err(e)),
        },
{
    let raw = match _from_str(s) {
        Ok(v) => v,
        Err(e) => {
            return Err(e);
        },
    };
    let out = normalize(&raw);
    proof {
        assert(call_ensures(_from_str, (s,), Ok(raw)) && views(out@) == normalize_spec(
            views(raw@),
        ));
    }
    Ok(out)
}

/// The length and members of the first `n` sibling elements of a raw list.
proof fn lemma_group_els_upto(ts: Seq<TextRawV>, n: int)
    requires
        0 <= n <= ts.len(),
    ensures
        group_els_upto(ts, n).len() == n,
        forall|k: int| 0 <= k < n ==> group_els_upto(ts, n)[k] == ElV::Text(flat_text(ts[k])),
    decreases n,
{
    if n > 0 {
        lemma_group_els_upto(ts, n - 1);
    }
}

/// The length and members of the first `n` units of a raw list.
proof fn lemma_units_upto(ts: Seq<TextRawV>, n: int)
    requires
        0 <= n <= ts.len(),
    ensures
        units_upto(ts, n).len() == n,
        forall|k: int| 0 <= k < n ==> units_upto(ts, n)[k] == flat_text(ts[k]),
    decreases n,
{
    if n > 0 {
        lemma_units_upto(ts, n - 1);
    }
}

/// A `Multi` raw text group of length 0 at the top level yields exactly 0
/// elements; one of length N yields exactly N sibling text elements, one per
/// member, in order, each independently defaulted.
pub proof fn lemma_top_level_multi_arity(ts: Seq<TextRawV>)
    ensures
        raw_els(ElRawV::Text(TextsRawV::Multi(ts))).len() == ts.len(),
        forall|k: int|
            0 <= k < ts.len() ==> raw_els(ElRawV::Text(TextsRawV::Multi(ts)))[k] == ElV::Text(
                flat_text(ts[k]),
            ),
{
    lemma_group_els_upto(ts, ts.len() as int);
}

/// The length and members of the first `n` cells of a flattened raw row.
proof fn lemma_flat_row_upto(row: Seq<TextsRawV>, n: int)
    requires
        0 <= n <= row.len(),
    ensures
        flat_row_upto(row, n).len() == n,
        forall|c: int| 0 <= c < n ==> flat_row_upto(row, n)[c] == group_units(row[c]),
    decreases n,
{
    if n > 0 {
        lemma_flat_row_upto(row, n - 1);
    }
}

/// The length and members of the first `n` rows of a flattened raw table.
proof fn lemma_flat_rows_upto(rows: Seq<Seq<TextsRawV>>, n: int)
    requires
        0 <= n <= rows.len(),
    ensures
        flat_rows_upto(rows, n).len() == n,
        forall|r: int| 0 <= r < n ==> flat_rows_upto(rows, n)[r] == flat_row(rows[r]),
    decreases n,
{
    if n > 0 {
        lemma_flat_rows_upto(rows, n - 1);
    }
}

/// Inside a cell a raw group only ever concatenates: a `Single` yields one
/// unit and a `Multi` one unit per member, in order — the group never
/// changes how many cells there are.
pub proof fn lemma_cell_unit_arity(g: TextsRawV)
    ensures
        group_units(g).len() == (match g {
            TextsRawV::Single(_) => 1,
            TextsRawV::Multi(ts) => ts.len(),
        }),
        forall|k: int|
            0 <= k < group_units(g).len() ==> group_units(g)[k] == flat_text(
                match g {
                    TextsRawV::Single(t) => t,
                    TextsRawV::Multi(ts) => ts[k],
                },
            ),
{
    match g {
        TextsRawV::Single(t) => {
        },
        TextsRawV::Multi(ts) => {
            lemma_units_upto(ts, ts.len() as int);
        },
    }
}

/// A raw table yields exactly one table element, whose rows and cells mirror
/// the raw rows one for one: each cell's raw group — `Single` or `Multi` —
/// yields exactly one cell, so arity expansion happens only at the top
/// level, never inside a cell.
pub proof fn lemma_table_cell_arity(rows: Seq<Seq<TextsRawV>>)
    ensures
        raw_els(ElRawV::Table(rows)).len() == 1,
        raw_els(ElRawV::Table(rows))[0] == ElV::Table(flat_table(rows)),
        flat_table(rows).len() == rows.len(),
        forall|r: int| 0 <= r < rows.len() ==> #[trigger] flat_table(rows)[r].len()
            == rows[r].len(),
        forall|r: int, c: int|
            0 <= r < rows.len() && 0 <= c < rows[r].len() ==> #[trigger] flat_table(
                rows,
            )[r][c] == group_units(rows[r][c]),
{
    lemma_flat_rows_upto(rows, rows.len() as int);
    assert forall|r: int| 0 <= r < rows.len() implies #[trigger] flat_table(rows)[r].len()
        == rows[r].len() by {
        lemma_flat_row_upto(rows[r], rows[r].len() as int);
    }
    assert forall|r: int, c: int|
        0 <= r < rows.len() && 0 <= c < rows[r].len() implies #[trigger] flat_table(
        rows,
    )[r][c] == group_units(rows[r][c]) by {
        lemma_flat_row_upto(rows[r], rows[r].len() as int);
    }
}

/// `normalize_upto` reads only the first `n` members of its input.
proof fn lemma_normalize_upto_agrees(a: Seq<ElRawV>, b: Seq<ElRawV>, n: int)
    requires
        forall|k: int| 0 <= k < n ==> a[k] == b[k],
    ensures
        normalize_upto(a, n) == normalize_upto(b, n),
    decreases n,
{
    if n > 0 {
        lemma_normalize_upto_agrees(a, b, n - 1);
    }
}

/// Normalization is deterministic: identical raw input yields the identical
/// element sequence.
pub proof fn lemma_normalize_deterministic(a: Seq<ElRawV>, b: Seq<ElRawV>)
    requires
        a == b,
    ensures
        normalize_spec(a) == normalize_spec(b),
{
}

/// Normalization preserves source order: the elements of a concatenation
/// are the elements of its parts, one after the other.
pub proof fn lemma_normalize_append(a: Seq<ElRawV>, b: Seq<ElRawV>)
    ensures
        normalize_spec(a + b) == normalize_spec(a) + normalize_spec(b),
    decreases b.len(),
{
    if b.len() == 0 {
        assert(a + b =~= a);
        assert(normalize_spec(a) + normalize_spec(b) =~= normalize_spec(a));
    } else {
        let m = (a + b).len() as int;
        lemma_normalize_append(a, b.drop_last());
        assert(forall|k: int| 0 <= k < m - 1 ==> (a + b)[k] == (a + b.drop_last())[k]);
        lemma_normalize_upto_agrees(a + b, a + b.drop_last(), m - 1);
        assert((a + b.drop_last()).len() == m - 1);
        assert(normalize_upto(a + b, m - 1) == normalize_spec(a + b.drop_last()));
        assert(forall|k: int| 0 <= k < b.len() - 1 ==> b.drop_last()[k] == b[k]);
        lemma_normalize_upto_agrees(b, b.drop_last(), b.len() - 1 as int);
        assert(normalize_spec(b) == normalize_upto(b, b.len() - 1 as int) + raw_els(
            b[b.len() - 1 as int],
        ));
        assert((a + b)[m - 1] == b[b.len() - 1 as int]);
        assert(normalize_spec(a + b) =~= normalize_spec(a) + normalize_spec(b));
    }
}

} // verus!
