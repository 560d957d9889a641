//! Components authored as plain property records, compiled into a
//! deterministic render procedure, together with the runtime collaborators
//! that the procedure composes: an optional-callback slot, a type-erased
//! element handle, and cascading style/attribute maps with
//! override-wins-over-default merging.

use vstd::prelude::*;

pub mod attributes;
pub mod cascade;
pub mod compile;
pub mod maybe_callback;
pub mod node_ref;
pub mod record;
pub mod render;
pub mod style;
pub mod style_map;
pub mod text;

verus! {

/// A reference to a rendered target whose concrete kind is erased: the
/// render procedure assigns each constructed element a fresh identity.
#[derive(Clone, Copy, PartialEq, Eq, Structural, Debug)]
pub struct TargetRef {
    pub id: u64,
}

} // verus!
