//! A small source-based package manager: packages live as
//! `<name>-<version>` folders holding a `build.sh`, and the installed ones are
//! recorded by name and version.
//!
//! This crate holds the decisions of the package manager: how a version string
//! is read as a number, how a repository folder name is split into a package
//! name and version, which paths and environment a build runs with, what
//! `install`, `update` and `delete` do for a given repository and database
//! state, and what initialisation creates.

pub mod builder;
pub mod cli;
pub mod listing;
pub mod order;
pub mod paths;
pub mod plan;
pub mod repo;
pub mod setup;
pub mod types;
pub mod version;

pub use builder::{build_command, build_failed, BuildCommand};
pub use cli::Command;
pub use listing::{decimal, list_report};
pub use order::{compare_versions, release_order, VersionOrder};
pub use paths::AppPaths;
pub use plan::{
    add_or_update_entry, delete, install, update, DeletePlan, EntryWrite, InstallPlan, UpdatePlan,
};
pub use repo::{get_repo_data, repo_entry_lacks_version};
pub use setup::{db_dirs_exist, db_init, SetupState, SetupTarget};
pub use types::{PData, PDataView};
pub use version::{version_to_int, VersionError};
