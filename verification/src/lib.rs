//! git_warden: commit-message, comment-language and file-content policy checks.

pub mod text;
pub mod pathutil;

pub mod langdetect;
pub mod emoji;
pub mod charset;
pub mod config;
pub mod messages;
pub mod checker;
pub mod comment;
pub mod directive;
pub mod gitdiff;
pub mod lint;
pub mod editorconfig;
pub mod encoding;
pub mod cachedir;
pub mod size;
pub mod progress;
pub mod logger;
