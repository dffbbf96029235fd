//! Shared sensor vocabulary.
use vstd::prelude::*;

verus! {

/// Core classification. Prime/Performance cores map to `Performance`;
/// the lower tier maps to `Efficiency`.
#[derive(Clone, Copy, Debug, PartialEq, Eq, Structural)]
pub enum CoreKind {
    Performance,
    Efficiency,
}

} // verus!
