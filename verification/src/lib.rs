//! The universal binary release installer: which asset of a project's release was
//! built for this platform, and where in it the executable lies.

pub mod archive;
pub mod download;
pub mod error;
pub mod logging;
pub mod matcher;
pub mod path;
pub mod platform;
pub mod project;
pub mod release;
pub mod sparse;
pub mod tarball;
pub mod text;
pub mod ubi;
pub mod zipfile;
