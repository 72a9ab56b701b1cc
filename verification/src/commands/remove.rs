//! The packages `remove` works on.
use vstd::prelude::*;

verus! {

/// The package names given to `remove`; at least one is required.
pub struct Remove {
    pub packages: Vec<String>,
}

} // verus!
