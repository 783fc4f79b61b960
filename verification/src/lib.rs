//! Inline-style parsing and layout rules for the Tish → Floem host.
use vstd::prelude::*;

pub mod text;
pub mod decl;
pub mod color;
pub mod value;
pub mod props;
pub mod style;
pub mod vnode;
pub mod numeric;
pub mod element;
pub mod laws;
pub mod controls;
pub mod style_forms;
pub mod rendering_laws;

verus! {

} // verus!
