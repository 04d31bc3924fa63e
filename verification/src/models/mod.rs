//! The data model: themes, registries and the configuration that holds them.

pub mod config;
pub mod laws;
pub mod leftwm;
pub mod paths;
pub mod probe;
pub mod theme;

pub use config::{Config, Repo, THEMES_DIR};
pub use leftwm::LeftWm;
pub use theme::{DependencyL, TempThemes, Theme};
