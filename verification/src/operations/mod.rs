//! What each command of the theme manager decides.

pub mod apply;
pub mod autofind;
pub mod current;
pub mod install;
pub mod list;
pub mod migrate_toml_to_ron;
pub mod new;
pub mod search;
pub mod status;
pub mod support;
pub mod uninstall;
pub mod update;
pub mod upgrade;

pub use apply::Apply;
pub use autofind::AutoFind;
pub use current::Current;
pub use install::Install;
pub use list::List;
pub use migrate_toml_to_ron::Migrate;
pub use new::New;
pub use search::Search;
pub use status::Status;
pub use support::Support;
pub use uninstall::Uninstall;
pub use update::Update;
pub use upgrade::Upgrade;
