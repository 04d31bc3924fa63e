//! Where the themes are kept.

use crate::models::config::THEMES_DIR;
use crate::models::paths;
use crate::models::paths::path_join;
use vstd::prelude::*;

verus! {

/// The themes directory under the given configuration directory.
pub fn theme(config_dir: &str) -> (r: String)
    ensures
        r@ == path_join(config_dir@, THEMES_DIR@),
{
    paths::join(config_dir, THEMES_DIR)
}

} // verus!
