//! Verified core of a manager for Steam compatibility tools.
pub mod github_util;
pub mod paths;
pub mod text;
pub mod wine_cask;
