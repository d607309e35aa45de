//! Mod deployment engine: path canonicalization against a directory snapshot,
//! an ordered mod stack with pinned anchors, mount specifications and the
//! overlay mount state machine.

pub mod text;
pub mod file_structure;
pub mod vfs_config;
pub mod vfs;
pub mod mount_machine;
pub mod engines;
pub mod instance_mod;
pub mod game_instance;
pub mod mod_stack;
pub mod mount_plan;
pub mod steam;
pub mod load_order;
