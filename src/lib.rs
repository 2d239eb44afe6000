//! Reverse mapping from source locations to semantic definitions, and the
//! diagnostics recorded while the definition graph is resolved.

pub mod ids;
pub mod dyn_map;
pub mod store;
pub mod child_by_source;
pub mod diagnostics;
