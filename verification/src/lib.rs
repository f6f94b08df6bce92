//! Typesetting queries over stored document layout: which paragraphs and
//! tables carry which stored evidence, and what the single-pass typesetter
//! decides from it.
use vstd::prelude::*;

pub mod arith;
pub mod model;
pub mod text;
pub mod paragraph;
pub mod stored;
pub mod tables;
pub mod anchors;
pub mod layout;
pub mod deferred;
pub mod composed;
pub mod square_wrap;
pub mod variant;

verus! {
} // verus!
