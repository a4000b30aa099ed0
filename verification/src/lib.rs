//! Decoder and analysis library for post-mortem crash dumps of a modified
//! handheld game: two binary dump formats are parsed into one shared crash
//! representation, program-counter-like addresses are resolved against
//! symbol tables, and the crash is matched against known failure signatures.

pub mod binary;
pub mod crash;
pub mod faq;
pub mod text;

use vstd::prelude::*;

verus! {

} // verus!
