//! Discovery of Git repositories under a directory tree, batched Git
//! commands over them, and the clean-up of a finished feature branch.

pub mod text;
pub mod paint;
pub mod directory;
pub mod project;
pub mod git;
pub mod commands;
