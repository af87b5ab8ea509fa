//! Recovery of a Git repository from a web server that exposes its `.git`
//! directory as static files.
//!
//! The library holds the logic: object ids and their store paths, the
//! loose-object frame, the config, index, commit and tree decoders, and the
//! walks over the commit and tree graphs. Fetching and writing files is left
//! to the caller.
pub mod config;
pub mod error;
pub mod index;
pub mod loose;
pub mod object_id;
pub mod objects;
pub mod probe;
pub mod refs;
pub mod report;
pub mod walk;
