//! Verified core of a Modrinth plugin and mod manager: project and install
//! state bookkeeping, package reference parsing, version selection and the
//! step-by-step install and removal procedures.
pub mod text;
pub mod modrinth;
pub mod dep_map;
pub mod manager;
pub mod logger;
pub mod commands;
pub mod laws;
