//! Components: what a user-made part of a page offers.

use vstd::prelude::*;
use crate::element::Elem;

verus! {

/// A part of a page that stands in the document as one element.
pub trait Component {
    /// The element that the component stands in the document as.
    fn to_elem(&self) -> &Elem;
}

} // verus!
