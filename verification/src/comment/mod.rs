//! Extraction of comments and string literals from source files.

pub mod base;
pub mod html;
pub mod hash;
pub mod cstyle;
pub mod python;
pub mod gounq;
pub mod go;
pub mod hcl;
pub mod markdown;
pub mod registry;
