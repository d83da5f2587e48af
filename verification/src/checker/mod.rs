//! The policy checks on commit messages, diffs and file contents.

pub mod util;
pub mod conventional;
pub mod custom;
pub mod msg;
pub mod fix;
pub mod cancel;
pub mod protected;
pub mod binary;
pub mod diff_check;
pub mod lint_check;
pub mod files;
pub mod cache_dir;
pub mod append_only;
pub mod unicode;
