//! Private module that seals the set of script contexts.

use vstd::prelude::*;

verus! {

/// Supertrait of the context capability, implemented only for the fixed set
/// of context markers defined in this crate. Because this module is private,
/// no outside code can implement it, so the set of contexts is closed.
pub trait Sealed {

}

} // verus!
