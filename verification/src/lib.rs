//! Symlink projection manager: profiles of sources whose items are projected
//! into a target directory tree via symbolic links, with per-item status
//! resolution against the observed filesystem state.

pub mod enumerate;
pub mod models;
pub mod probe;
pub mod records;
pub mod resolver;
pub mod text;
pub mod toggle;
