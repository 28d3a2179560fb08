//! Codecs for a field that holds either one value or an array of values.
//!
//! `vec_or_one` turns both shapes into an ordered `Vec` and renders a `Vec`
//! back, collapsing one element to a bare value; `option_vec_or_one` adds
//! the handling of a missing or null field on top of it.
pub mod option_vec_or_one;
pub mod vec_or_one;
