//! The decisions the command-line commands take, apart from the prompts,
//! file access and network requests that surround them.
pub mod init;
pub mod install;
pub mod remove;
pub mod search;
pub mod update;
pub mod versions;
