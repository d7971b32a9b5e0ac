//! Top-level elements — styled text or a table — and the paint driver.

use vstd::prelude::*;
use vstd::string::StringExecFns;

use crate::style::Text;
use crate::style::TextV;
use crate::style::cleared_unit;
use crate::style::painted_unit;
use crate::table::Table;
use crate::table::cleared_cell;
use crate::table::cleared_row;
use crate::table::cleared_table;
use crate::table::painted_table;
use crate::table::widths_fit;
use crate::views;

verus! {

/// An element that can be rendered as styled, formatted text.
///
/// Elements are plain values which can be built directly or flattened out of
/// the raw document form; a sequence of them renders in order.
#[derive(Debug, PartialEq, Eq)]
pub enum El {
    Text(Text),
    Table(Table),
}

/// The mathematical value of an [`El`].
pub enum ElV {
    Text(TextV),
    Table(Seq<Seq<Seq<TextV>>>),
}

impl View for El {
    type V = ElV;

    open spec fn view(&self) -> ElV {
        match self {
            El::Text(t) => ElV::Text(t@),
            El::Table(t) => ElV::Table(t@),
        }
    }
}

/// An element with every nested unit's style cleared.
pub open spec fn cleared_el(e: ElV) -> ElV {
    match e {
        ElV::Text(u) => ElV::Text(cleared_unit(u)),
        ElV::Table(t) => ElV::Table(cleared_table(t)),
    }
}

/// Whether an element's widths fit the machine: trivially true for text,
/// and [`widths_fit`] for a table.
pub open spec fn el_fits(e: ElV) -> bool {
    match e {
        ElV::Text(_) => true,
        ElV::Table(t) => widths_fit(t),
    }
}

/// How one element renders.
pub open spec fn painted_el(e: ElV) -> Seq<char> {
    match e {
        ElV::Text(u) => painted_unit(u),
        ElV::Table(t) => painted_table(t),
    }
}

/// How the first `n` elements of a sequence render, back to back with no
/// separator between them.
pub open spec fn painted_els_upto(els: Seq<ElV>, n: int) -> Seq<char>
    decreases n,
{
    if n <= 0 {
        Seq::empty()
    } else {
        painted_els_upto(els, n - 1) + painted_el(els[n - 1])
    }
}

/// How a whole sequence of elements renders, in order.
pub open spec fn painted_els(els: Seq<ElV>) -> Seq<char> {
    painted_els_upto(els, els.len() as int)
}

impl El {
    /// An element of just plain text: a shortcut for
    /// `El::Text(Text::new(t))`.
    pub fn plain(t: String) -> (r: El)
        ensures
            r@ == ElV::Text(
                TextV { t: t@, b: false, i: false, c: crate::Color::Plain, bg: crate::Color::Plain },
            ),
    {
        El::Text(Text::new(t))
    }

    /// Recursively clears all formatting.
    pub fn set_plain(&mut self)
        ensures
            final(self)@ == cleared_el(old(self)@),
    {
        match self {
            El::Text(t) => t.set_plain(),
            El::Table(t) => t.set_plain(),
        }
    }

    /// Whether the element can be painted: always true for text, and true
    /// for a table whose cell widths fit the machine.
    pub fn fits(&self) -> (r: bool)
        ensures
            r == el_fits(self@),
    {
        match self {
            El::Text(_) => true,
            El::Table(t) => t.fits(),
        }
    }

    /// Paint (render) the element into the sink.
    pub fn paint(&self, w: &mut String)
        requires
            el_fits(self@),
        ensures
            final(w)@ == old(w)@ + painted_el(self@),
    {
        match self {
            El::Text(t) => t.paint(w),
            El::Table(t) => t.paint(w),
        }
    }
}

/// Paint the given elements into the sink, in order, each one immediately
/// after the one before it.
pub fn paint(w: &mut String, items: &[El])
    requires
        forall|k: int| 0 <= k < items@.len() ==> el_fits(#[trigger] items@[k]@),
    ensures
        final(w)@ == old(w)@ + painted_els(views(items@)),
{
    let ghost els = views(items@);
    let mut n: usize = 0;
    while n < items.len()
        invariant
            els == views(items@),
            n <= items@.len(),
            forall|k: int| 0 <= k < items@.len() ==> el_fits(#[trigger] items@[k]@),
            w@ == old(w)@ + painted_els_upto(els, n as int),
        decreases items@.len() - n,
    {
        proof {
            assert(els[n as int] == items@[n as int]@);
        }
        items[n].paint(w);
        proof {
            assert(w@ =~= old(w)@ + painted_els_upto(els, n + 1));
        }
        n = n + 1;
    }
}

/// Clearing every style in an element is idempotent: clearing twice is the
/// same as clearing once; and a cleared element keeps every text unchanged
/// while every nested unit's flags are at their defaults.
pub proof fn lemma_set_plain_idempotent(e: ElV)
    ensures
        cleared_el(cleared_el(e)) == cleared_el(e),
{
    match e {
        ElV::Text(_) => {
        },
        ElV::Table(t) => {
            lemma_cleared_table_idempotent(t);
        },
    }
}

/// Clearing every unit of a table twice is the same as clearing once.
pub proof fn lemma_cleared_table_idempotent(t: Seq<Seq<Seq<TextV>>>)
    ensures
        cleared_table(cleared_table(t)) == cleared_table(t),
{
    assert forall|r: int| 0 <= r < t.len() implies #[trigger] cleared_row(cleared_table(t)[r])
        == cleared_table(t)[r] by {
        lemma_cleared_row_idempotent(t[r]);
    }
    assert(cleared_table(cleared_table(t)) =~= cleared_table(t));
}

/// Clearing every unit of a row twice is the same as clearing once.
pub proof fn lemma_cleared_row_idempotent(r: Seq<Seq<TextV>>)
    ensures
        cleared_row(cleared_row(r)) == cleared_row(r),
{
    assert forall|c: int| 0 <= c < r.len() implies #[trigger] cleared_cell(cleared_row(r)[c])
        == cleared_row(r)[c] by {
        assert(cleared_cell(cleared_cell(r[c])) =~= cleared_cell(r[c]));
    }
    assert(cleared_row(cleared_row(r)) =~= cleared_row(r));
}

} // verus!
