//! Migrating a theme file from TOML to RON.

use crate::errors::LeftError;
use crate::models::paths;
use crate::models::paths::path_with_extension;
use vstd::prelude::*;

verus! {

/// The arguments of `migrate`.
#[derive(Debug)]
pub struct Migrate {
    /// The theme file to migrate.
    pub path: String,
}

/// The extension of the migrated theme file.
pub const RON_EXTENSION: &'static str = "ron";

/// Where to write the migrated theme: into the file of the same name with the
/// extension `ron`, beside the theme file. Fails where the theme file could not be
/// loaded.
pub fn migrate(path: &String, loaded: bool) -> (r: Result<String, LeftError>)
    ensures
        match r {
            Ok(ron_path) => loaded && ron_path@ == path_with_extension(path@, RON_EXTENSION@),
            Err(e) => !loaded && e.inner is NoneError,
        },
{
    if !loaded {
        return Err(LeftError::from("Theme not found"));
    }
    proof {
        reveal_strlit("ron");
    }
    Ok(paths::with_extension(path.as_str(), RON_EXTENSION))
}

impl Migrate {
    /// Whether the migration succeeded: the theme file was loaded, and the migrated
    /// theme was written.
    pub fn exec(&self, loaded: bool, written: bool) -> (r: Result<(), LeftError>)
        ensures
            r.is_ok() <==> loaded && written,
            r matches Err(e) ==> e.inner is NoneError,
    {
        let outcome = match migrate(&self.path, loaded) {
            Ok(_) => {
                if written {
                    Ok(())
                } else {
                    Err(LeftError::from("Failed to write theme file."))
                }
            },
            Err(e) => Err(e),
        };
        match outcome {
            Ok(()) => Ok(()),
            Err(_) => Err(LeftError::from("Failed to migrate theme.")),
        }
    }
}

} // verus!
