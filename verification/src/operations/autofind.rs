//! Finding themes that were installed by other means.

use vstd::prelude::*;

verus! {

/// The arguments of `autofind`.
#[derive(Debug)]
pub struct AutoFind {
    /// The directory to search for themes; the themes directory where none is given.
    pub dir: Option<String>,
}

} // verus!
