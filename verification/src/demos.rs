//! The demonstrations behind the menu's choices that have no pages of their
//! own: choosing one of them leads straight back to the menu.

use vstd::prelude::*;

verus! {

/// The demonstration of structs, by composition. It has no pages.
pub fn demonstrate_structs() {
}

/// The demonstration of enums, by a game of life. It has no pages.
pub fn demonstrate_enums() {
}

/// The demonstration of reliability, by results and options. It has no pages.
pub fn demonstrate_reliability() {
}

} // verus!
