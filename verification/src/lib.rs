//! Build styled terminal text and tables as plain data, and render them with
//! ANSI escape sequences and column-aligned table layout.
//!
//! A document is a sequence of [`El`] values, each a styled [`Text`] or a
//! [`Table`]. The permissive raw form that a deserializer produces
//! ([`ElRaw`]) is flattened into that strict form by [`normalize`] or
//! [`from_str`], and [`paint`] renders the result.
#![allow(unused_imports)]

use vstd::prelude::*;

pub mod el;
pub mod raw;
pub mod repr;
pub mod style;
pub mod table;

pub use el::El;
pub use el::ElV;
pub use el::paint;
pub use repr::write_repr;
pub use raw::ElRaw;
pub use raw::TableRaw;
pub use raw::TextRaw;
pub use raw::TextsRaw;
pub use raw::from_str;
pub use raw::normalize;
pub use style::Color;
pub use style::Text;
pub use style::TextV;
pub use table::Table;

verus! {

/// The views of the elements of a sequence, taken element by element.
pub open spec fn views<T: View>(s: Seq<T>) -> Seq<T::V> {
    s.map_values(|x: T| x@)
}

/// Taking views commutes with appending one element.
pub proof fn lemma_views_push<T: View>(s: Seq<T>, x: T)
    ensures
        views(s.push(x)) == views(s).push(x@),
{
    assert(views(s.push(x)) =~= views(s).push(x@));
}

} // verus!
