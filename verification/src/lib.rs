//! Production file trees: projects, nested task folders and versioned work
//! files that follow one naming convention.
//!
//! The library decides; it never touches a disk. Every operation that needs
//! the filesystem takes what was found there as plain values and answers with
//! the paths to read, copy or create next.

pub mod text;
pub mod helpers;
pub mod paths;
pub mod order;
pub mod failure;
pub mod projects;
pub mod workfiles;
pub mod tasks;
pub mod tree_walk;
pub mod sequences;
pub mod clients;
pub mod session;

pub use clients::Client;
pub use projects::Project;
pub use session::Rclamp;
pub use tasks::TaskTreeNode;
pub use workfiles::File;
