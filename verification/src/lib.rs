//! Data-driven language toolchain descriptors for a code-execution backend:
//! command templates rendered by closed placeholder substitution, a registry
//! of languages loaded from per-file descriptors, and the pure core of the
//! compiler invoker (command planning and outcome classification).

pub mod argv;
pub mod language;
pub mod logger;
pub mod registry;
pub mod template;

use vstd::prelude::*;

verus! {

/// The sequences of characters named by each binding, in order.
pub open spec fn views_of(ss: Seq<String>) -> Seq<Seq<char>> {
    ss.map_values(|s: String| s@)
}

} // verus!
