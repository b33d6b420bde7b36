//! brim: recipes of Homebrew packages, checked, locked, compared with what is installed,
//! and turned into the brew commands that apply them.
pub mod mcp;
pub mod models;
pub mod sync;
pub mod text;
pub mod tui;
pub mod utilities;
pub mod webhook;

pub use mcp::BrimMcpServer;
pub use models::{BrewPackage, BrewPackageResult, BrewSyncReport, Recipe};
pub use sync::sync_analysis;
pub use utilities::brew_fetch_packages::{validate_packages, FetchError};
pub use utilities::brew_install_packages::install_packages_headless;
pub use utilities::brew_list_installed_packages::list_installed_packages;
pub use utilities::brew_recipe_lock::{update_lock, verify_or_update_lock, LockError};
pub use utilities::brew_remove_packages::remove_packages_headless;
