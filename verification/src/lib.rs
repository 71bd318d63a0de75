//! The rules of a filesystem in which the attributes of a Nix expression can be
//! looked up: a derivation is a link into the store, which is built when it is
//! first read, and an attribute set is a directory.
pub mod attr;
pub mod cache;
pub mod cli;
pub mod errno;
pub mod file;
pub mod fs;
pub mod inode;
pub mod laws;
pub mod lock;
pub mod nix;
pub mod preflight;
pub mod text;
pub mod views;
pub mod xattr;
